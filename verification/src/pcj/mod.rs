use vstd::prelude::*;

use vstd::utf8::encode_utf8;

use crate::bytes::extend_bytes;
use crate::domain::{RyaIri, RyaType, RyaTypeModel, XSD_ANY_URI, XSD_STRING, iri_model, valid_iri_spec};
use crate::resolver::{
    DELIM_BYTE, deserialize, deserialize_panics, deserialize_spec, encoded_data, serialize_type,
    type_suffix,
};
use crate::text::{concat, push_char, push_str, split_char, split_once_char, split_once_spec, split_spec, str_eq, to_owned, views};
use crate::words::{join, join_spec, split_str, split_str_spec};

pub mod binding;
pub mod laws;
pub mod orders;

pub use binding::BindingSet;

verus! {

use crate::pcj::binding::{BindingModel, as_map, lookup, names_of};

/// The separator of the names in a variable order's text.
pub const VARIABLE_ORDER_DELIMITER: &'static str = ";";
pub const BINDING_STRING_DELIMITER: &'static str = ":::";
pub const VALUE_TYPE_DELIMITER: &'static str = "<<~>>";
pub const NULL_BINDING_STRING: &'static str = "\0";
pub const VISIBILITY_DELIMITER: char = '\u{1}';

/// The order in which the variables of a result are stored.
pub struct VariableOrder(Vec<String>);

impl View for VariableOrder {
    type V = Seq<Seq<char>>;

    closed spec fn view(&self) -> Seq<Seq<char>> {
        views(self.0@)
    }
}

/// The order `s` turned left by `k` places.
pub open spec fn rotation(s: Seq<Seq<char>>, k: int) -> Seq<Seq<char>> {
    s.skip(k) + s.take(k)
}

/// The orders of a list: its distinct elements.
pub open spec fn orders_set(v: Seq<VariableOrder>) -> Set<Seq<Seq<char>>> {
    v.map_values(|o: VariableOrder| o@).to_set()
}

/// No two orders of the list are equal.
pub open spec fn distinct_orders(v: Seq<VariableOrder>) -> bool {
    forall|i: int, j: int| 0 <= i < j < v.len() ==> (#[trigger] v[i])@ != (#[trigger] v[j])@
}

impl Clone for VariableOrder {
    fn clone(&self) -> (r: Self)
        ensures
            r@ == self@,
    {
        VariableOrder(clone_strings(&self.0))
    }
}

/// A copy of a list of strings.
pub fn clone_strings(v: &Vec<String>) -> (r: Vec<String>)
    ensures
        views(r@) == views(v@),
{
    let mut out: Vec<String> = Vec::new();
    let mut i: usize = 0;
    while i < v.len()
        invariant
            i <= v@.len(),
            views(out@) == views(v@).take(i as int),
        decreases v.len() - i,
    {
        let ghost before = out@;
        out.push(v[i].clone());
        assert(views(out@) =~= views(before).push(v@[i as int]@));
        assert(views(v@).take(i + 1) =~= views(v@).take(i as int).push(v@[i as int]@));
        i = i + 1;
    }
    assert(views(v@).take(i as int) =~= views(v@));
    out
}

impl VariableOrder {
    /// The order of the given names.
    pub fn new(vars: Vec<String>) -> (r: Self)
        ensures
            r@ == views(vars@),
    {
        VariableOrder(vars)
    }

    /// Reads an order from its `;`-separated text; the empty text is the empty order.
    pub fn parse(value: &str) -> (r: Self)
        ensures
            r@ == if value@.len() == 0 {
                Seq::<Seq<char>>::empty()
            } else {
                split_spec(value@, ';')
            },
    {
        if value.unicode_len() == 0 {
            let r = VariableOrder(Vec::new());
            assert(r@ =~= Seq::<Seq<char>>::empty());
            r
        } else {
            VariableOrder(split_char(value, ';'))
        }
    }

    /// The names, in order.
    pub fn as_slice(&self) -> (r: &[String])
        ensures
            views(r@) == self@,
    {
        self.0.as_slice()
    }

    /// The names joined with `;`.
    pub fn to_string(&self) -> (r: String)
        ensures
            r@ == join_spec(self@, VARIABLE_ORDER_DELIMITER@),
    {
        join(&self.0, VARIABLE_ORDER_DELIMITER)
    }

    /// Whether two orders list the same names.
    pub fn same_as(&self, other: &VariableOrder) -> (r: bool)
        ensures
            r == (self@ == other@),
    {
        strings_eq(&self.0, &other.0)
    }

    /// The distinct rotations of the order, each turned one place further left.
    pub fn shifted_orders(&self) -> (r: Vec<VariableOrder>)
        ensures
            distinct_orders(r@),
            orders_set(r@) == crate::pcj::laws::rotations(self@),
            self@.no_duplicates() ==> r@.len() == self@.len(),
    {
        let ghost s = self@;
        let n = self.0.len();
        let mut out: Vec<VariableOrder> = Vec::new();
        let mut vars = clone_strings(&self.0);
        let mut k: usize = 0;
        assert(views(vars@) =~= rotation(s, 0));
        assert(orders_set(out@) =~= Set::new(
            |o: Seq<Seq<char>>| exists|j: int| 0 <= j < 0 && o == rotation(s, j),
        ));
        while k < n
            invariant
                n == s.len(),
                s == self@,
                k <= n,
                vars@.len() == n,
                views(vars@) == rotation(s, k as int),
                distinct_orders(out@),
                orders_set(out@) == Set::new(
                    |o: Seq<Seq<char>>| exists|j: int| 0 <= j < k && o == rotation(s, j),
                ),
            decreases n - k,
        {
            let order = VariableOrder(clone_strings(&vars));
            let ghost prev = orders_set(out@);
            push_order(&mut out, order);
            let ghost old_vars = vars@;
            let first = vars.remove(0);
            vars.push(first);
            proof {
                lemma_rotation_step(s, k as int);
                assert(views(vars@) =~= views(old_vars).drop_first().push(views(old_vars)[0]));
                assert(orders_set(out@) =~= Set::new(
                    |o: Seq<Seq<char>>| exists|j: int| 0 <= j < k + 1 && o == rotation(s, j),
                )) by {
                    assert forall|o: Seq<Seq<char>>| orders_set(out@).contains(o) == (exists|j: int|
                        0 <= j < k + 1 && o == rotation(s, j)) by {
                        if o == rotation(s, k as int) {
                            assert(exists|j: int| 0 <= j < k + 1 && o == rotation(s, j));
                        }
                        if exists|j: int| 0 <= j < k + 1 && o == rotation(s, j) {
                            let j = choose|j: int| 0 <= j < k + 1 && o == rotation(s, j);
                            if j < k {
                                assert(prev.contains(o));
                            }
                        }
                        if prev.contains(o) {
                            let j = choose|j: int| 0 <= j < k && o == rotation(s, j);
                            assert(0 <= j < k + 1 && o == rotation(s, j));
                        }
                    }
                }
            }
            k = k + 1;
        }
        proof {
            assert(orders_set(out@) =~= crate::pcj::laws::rotations(s));
            if s.no_duplicates() {
                crate::pcj::laws::law_rotations_count(s);
                let q = out@.map_values(|o: VariableOrder| o@);
                assert forall|i: int, j: int| 0 <= i < q.len() && 0 <= j < q.len() && i != j implies q[i] != q[j] by {
                    if i < j {
                        assert(out@[i]@ != out@[j]@);
                    } else {
                        assert(out@[j]@ != out@[i]@);
                    }
                }
                assert(q.no_duplicates());
                q.unique_seq_to_set();
            }
        }
        out
    }
}

/// Turning one more place left moves the first name of the rotation to its end.
pub proof fn lemma_rotation_step(s: Seq<Seq<char>>, k: int)
    requires
        0 <= k < s.len(),
    ensures
        rotation(s, k + 1) == rotation(s, k).drop_first().push(rotation(s, k)[0]),
{
    assert(rotation(s, k + 1) =~= rotation(s, k).drop_first().push(rotation(s, k)[0]));
}

/// Whether two lists of strings are equal.
pub fn strings_eq(a: &Vec<String>, b: &Vec<String>) -> (r: bool)
    ensures
        r == (views(a@) == views(b@)),
{
    if a.len() != b.len() {
        assert(views(a@).len() != views(b@).len());
        return false;
    }
    let mut i: usize = 0;
    while i < a.len()
        invariant
            a@.len() == b@.len(),
            i <= a@.len(),
            forall|k: int| 0 <= k < i ==> a@[k]@ == b@[k]@,
        decreases a.len() - i,
    {
        if !str_eq(a[i].as_str(), b[i].as_str()) {
            assert(views(a@)[i as int] == a@[i as int]@);
            assert(views(b@)[i as int] == b@[i as int]@);
            return false;
        }
        i = i + 1;
    }
    assert(views(a@) =~= views(b@));
    true
}

/// Adds an order to a list of distinct orders unless an equal one is there.
pub fn push_order(out: &mut Vec<VariableOrder>, order: VariableOrder)
    requires
        distinct_orders(old(out)@),
    ensures
        distinct_orders(final(out)@),
        orders_set(final(out)@) == orders_set(old(out)@).insert(order@),
{
    let mut i: usize = 0;
    while i < out.len()
        invariant
            i <= out@.len(),
            out@ == old(out)@,
            distinct_orders(out@),
            forall|k: int| 0 <= k < i ==> (#[trigger] out@[k])@ != order@,
        decreases out.len() - i,
    {
        if out[i].same_as(&order) {
            assert(out@.map_values(|o: VariableOrder| o@)[i as int] == out@[i as int]@);
            assert(orders_set(out@).contains(out@[i as int]@));
            assert(orders_set(out@).insert(order@) =~= orders_set(out@));
            return;
        }
        i = i + 1;
    }
    let ghost before = out@;
    out.push(order);
    assert(out@.map_values(|o: VariableOrder| o@) =~= before.map_values(|o: VariableOrder| o@).push(
        order@,
    ));
    assert(orders_set(out@) =~= orders_set(before).insert(order@)) by {
        lemma_push_to_set(before.map_values(|o: VariableOrder| o@), order@);
    }
}

/// Pushing onto a sequence adds the element to its set.
pub proof fn lemma_push_to_set<A>(s: Seq<A>, x: A)
    ensures
        s.push(x).to_set() == s.to_set().insert(x),
{
    assert forall|y: A| s.push(x).to_set().contains(y) == s.to_set().insert(x).contains(y) by {
        if s.to_set().contains(y) {
            let k = choose|k: int| 0 <= k < s.len() && s[k] == y;
            assert(s.push(x)[k] == y);
        }
        if y == x {
            assert(s.push(x)[s.len() as int] == y);
        }
        if s.push(x).to_set().contains(y) {
            let k = choose|k: int| 0 <= k < s.push(x).len() && s.push(x)[k] == y;
            if k < s.len() {
                assert(s[k] == y);
            }
        }
    }
    assert(s.push(x).to_set() =~= s.to_set().insert(x));
}


/// Every bound name is in the order.
pub open spec fn names_in_order(m: Map<Seq<char>, RyaTypeModel>, order: Seq<Seq<char>>) -> bool {
    forall|k: Seq<char>| #[trigger] m.contains_key(k) ==> order.contains(k)
}

/// The stored bytes of a value: its encoded data and datatype suffix.
pub open spec fn value_bytes(t: RyaTypeModel) -> Option<Seq<u8>> {
    match t.data_type {
        Some(dt) => Some(encode_utf8(encoded_data(t)) + type_suffix(dt)),
        None => None,
    }
}

/// The row of a binding set: for each name of the order, the value's bytes (nothing when
/// unbound) and a NUL; `None` when a bound value has no datatype.
pub open spec fn row_bytes(m: Map<Seq<char>, RyaTypeModel>, order: Seq<Seq<char>>) -> Option<Seq<u8>>
    decreases order.len(),
{
    if order.len() == 0 {
        Some(Seq::empty())
    } else {
        match row_bytes(m, order.drop_last()) {
            None => None,
            Some(prev) => {
                let v = order.last();
                if m.contains_key(v) {
                    match value_bytes(m[v]) {
                        Some(b) => Some(prev + b + seq![DELIM_BYTE]),
                        None => None,
                    }
                } else {
                    Some(prev + seq![DELIM_BYTE])
                }
            },
        }
    }
}

/// A failing prefix makes the whole row fail.
pub proof fn lemma_row_bytes_prefix_none(m: Map<Seq<char>, RyaTypeModel>, order: Seq<Seq<char>>, i: int)
    requires
        0 <= i <= order.len(),
        row_bytes(m, order.take(i)) is None,
    ensures
        row_bytes(m, order) is None,
    decreases order.len(),
{
    if i == order.len() {
        assert(order.take(i) =~= order);
    } else {
        assert(order.drop_last().take(i) =~= order.take(i));
        lemma_row_bytes_prefix_none(m, order.drop_last(), i);
    }
}

pub open spec fn not_in_order_message() -> Seq<char> {
    "The BindingSet contains a Binding whose name is not part of the VariableOrder."@
}

fn check_bindings_subset_of_var_order(binding_set: &BindingSet, order: &VariableOrder) -> (r: Result<(), String>)
    ensures
        r is Ok <==> names_in_order(binding_set@, order@),
        r matches Err(e) ==> e@ == not_in_order_message(),
{
    let vars = order.as_slice();
    let n = binding_set.len();
    let mut i: usize = 0;
    binding_set.check_sorted();
    while i < n
        invariant
            n == binding_set.pairs().len(),
            i <= n,
            views(vars@) == order@,
            crate::sorted::strictly_sorted(names_of(binding_set.pairs())),
            forall|j: int| 0 <= j < i ==> order@.contains(#[trigger] binding_set.pairs()[j].0),
        decreases n - i,
    {
        let (name, _) = binding_set.entry(i);
        let mut found = false;
        let mut k: usize = 0;
        while k < vars.len()
            invariant
                k <= vars@.len(),
                views(vars@) == order@,
                found == exists|j: int| 0 <= j < k && order@[j] == name@,
            decreases vars.len() - k,
        {
            assert(views(vars@)[k as int] == vars@[k as int]@);
            if str_eq(vars[k].as_str(), name.as_str()) {
                found = true;
            }
            k = k + 1;
        }
        if !found {
            proof {
                assert(binding_set@.dom().contains(name@));
                if order@.contains(name@) {
                    let j = choose|j: int| 0 <= j < order@.len() && order@[j] == name@;
                    assert(order@[j] == name@);
                }
            }
            return Err(to_owned("The BindingSet contains a Binding whose name is not part of the VariableOrder."));
        }
        proof {
            let m = binding_set.pairs();
            crate::pcj::binding::lemma_lookup_at(m, i as int);
            if !order@.contains(name@) {
                assert(false);
            }
        }
        i = i + 1;
    }
    proof {
        assert forall|k: Seq<char>| #[trigger] binding_set@.contains_key(k) implies order@.contains(k) by {
            let m = binding_set.pairs();
            let j = choose|j: int| 0 <= j < m.len() && (#[trigger] m[j]).0 == k;
            assert(order@.contains(m[j].0));
        }
    }
    Ok(())
}

/// The row of a binding set in an order: an error when a bound name is not in the order or a
/// bound value has no datatype.
pub fn serialize_binding_set(binding_set: &BindingSet, order: &VariableOrder) -> (r: Result<Vec<u8>, String>)
    ensures
        r is Ok <==> names_in_order(binding_set@, order@) && row_bytes(binding_set@, order@) is Some,
        r matches Ok(b) ==> Some(b@) == row_bytes(binding_set@, order@),
        !names_in_order(binding_set@, order@) ==> (r matches Err(e) && e@ == not_in_order_message()),
{
    check_bindings_subset_of_var_order(binding_set, order)?;
    let vars = order.as_slice();
    let mut row: Vec<u8> = Vec::new();
    let mut i: usize = 0;
    assert(order@.take(0) =~= Seq::<Seq<char>>::empty());
    while i < vars.len()
        invariant
            i <= vars@.len(),
            views(vars@) == order@,
            names_in_order(binding_set@, order@),
            row_bytes(binding_set@, order@.take(i as int)) == Some(row@),
        decreases vars.len() - i,
    {
        assert(order@.take(i + 1).drop_last() =~= order@.take(i as int));
        assert(order@.take(i + 1).last() == vars@[i as int]@);
        match binding_set.get(vars[i].as_str()) {
            Some(value) => {
                let (data, suffix) = match serialize_type(value) {
                    Ok(p) => p,
                    Err(e) => {
                        proof {
                            lemma_row_bytes_prefix_none(binding_set@, order@, i + 1);
                        }
                        return Err(e);
                    },
                };
                extend_bytes(&mut row, data.as_slice());
                extend_bytes(&mut row, suffix.as_slice());
                row.push(DELIM_BYTE);
            },
            None => {
                row.push(DELIM_BYTE);
            },
        }
        i = i + 1;
    }
    assert(order@.take(i as int) =~= order@);
    Ok(row)
}

} // verus!

verus! {

/// The NUL-terminated pieces of a row (bytes after the last NUL are dropped).
pub open spec fn pieces(b: Seq<u8>) -> Seq<Seq<u8>>
    decreases b.len(),
{
    match crate::bytes::first_byte_from(b, DELIM_BYTE, 0) {
        Some(i) => if 0 <= i < b.len() {
            seq![b.take(i)] + pieces(b.skip(i + 1))
        } else {
            Seq::empty()
        },
        None => Seq::empty(),
    }
}

/// Splits a row into its NUL-terminated pieces.
pub fn split_by_delimiter(bytes: &[u8]) -> (r: Vec<Vec<u8>>)
    ensures
        r@.map_values(|v: Vec<u8>| v@) == pieces(bytes@),
{
    let n = bytes.len();
    let mut out: Vec<Vec<u8>> = Vec::new();
    let mut start: usize = 0;
    let mut i: usize = 0;
    assert(bytes@.skip(0) =~= bytes@);
    while i < n
        invariant
            n == bytes@.len(),
            start <= i <= n,
            forall|j: int| start <= j < i ==> bytes@[j] != DELIM_BYTE,
            pieces(bytes@) == out@.map_values(|v: Vec<u8>| v@) + pieces(bytes@.skip(start as int)),
        decreases n - i,
    {
        if bytes[i] == DELIM_BYTE {
            let piece = crate::bytes::sub_bytes(bytes, start, i);
            let ghost t = bytes@.skip(start as int);
            proof {
                crate::bytes::lemma_first_byte_from(t, DELIM_BYTE, 0);
                assert(t[i - start] == DELIM_BYTE);
                assert(crate::bytes::first_byte_from(t, DELIM_BYTE, 0) == Some((i - start) as int)) by {
                    match crate::bytes::first_byte_from(t, DELIM_BYTE, 0) {
                        Some(k) => {
                            if k < i - start {
                                assert(t[k] == bytes@[k + start]);
                            }
                        },
                        None => {},
                    }
                }
                assert(t.take(i - start) =~= piece@);
                assert(t.skip(i - start + 1) =~= bytes@.skip(i + 1));
            }
            let ghost before = out@;
            out.push(piece);
            assert(out@.map_values(|v: Vec<u8>| v@) =~= before.map_values(|v: Vec<u8>| v@).push(piece@));
            assert(out@.map_values(|v: Vec<u8>| v@) + pieces(bytes@.skip(i + 1)) =~= before.map_values(
                |v: Vec<u8>| v@,
            ) + pieces(t));
            start = i + 1;
        }
        i = i + 1;
    }
    proof {
        let t = bytes@.skip(start as int);
        crate::bytes::lemma_first_byte_from(t, DELIM_BYTE, 0);
        match crate::bytes::first_byte_from(t, DELIM_BYTE, 0) {
            Some(k) => {
                assert(t[k] == bytes@[k + start]);
            },
            None => {},
        }
        assert(pieces(t) =~= Seq::<Seq<u8>>::empty());
    }
    assert(out@.map_values(|v: Vec<u8>| v@) + Seq::<Seq<u8>>::empty() =~= out@.map_values(|v: Vec<u8>| v@));
    out
}

/// The bindings read from the first `k` pieces, each non-empty piece decoded as the value of
/// the name at its position; `None` when a piece does not decode.
pub open spec fn decode_pieces(order: Seq<Seq<char>>, ps: Seq<Seq<u8>>, k: int) -> Option<Map<Seq<char>, RyaTypeModel>>
    decreases k,
{
    if k <= 0 {
        Some(Map::empty())
    } else {
        match decode_pieces(order, ps, k - 1) {
            None => None,
            Some(m) => if ps[k - 1].len() == 0 {
                Some(m)
            } else {
                match deserialize_spec(ps[k - 1]) {
                    Some(t) => Some(m.insert(order[k - 1], t)),
                    None => None,
                }
            },
        }
    }
}

/// A decoding prefix that fails makes the whole decoding fail.
pub proof fn lemma_decode_prefix_none(order: Seq<Seq<char>>, ps: Seq<Seq<u8>>, i: int, k: int)
    requires
        0 <= i <= k,
        decode_pieces(order, ps, i) is None,
    ensures
        decode_pieces(order, ps, k) is None,
    decreases k - i,
{
    if i < k {
        lemma_decode_prefix_none(order, ps, i, k - 1);
    }
}

/// The message for a row whose piece count differs from the order's length.
pub open spec fn count_mismatch_message(count: nat, order: Seq<Seq<char>>) -> Seq<char> {
    "Serialized binding count "@ + crate::text::decimal(count) + " does not match variable order "@
        + join_spec(order, VARIABLE_ORDER_DELIMITER@)
}

/// Reads a binding set from its row in the given order.
pub fn deserialize_binding_set(bytes: &[u8], order: &VariableOrder) -> (r: Result<BindingSet, String>)
    requires
        forall|k: int| 0 <= k < pieces(bytes@).len() ==> !deserialize_panics(#[trigger] pieces(bytes@)[k]),
    ensures
        pieces(bytes@).len() != order@.len() ==> (r matches Err(e) && e@ == count_mismatch_message(
            pieces(bytes@).len(),
            order@,
        )),
        pieces(bytes@).len() == order@.len() ==> (r is Ok <==> decode_pieces(
            order@,
            pieces(bytes@),
            order@.len() as int,
        ) is Some),
        r matches Ok(b) ==> Some(b@) == decode_pieces(order@, pieces(bytes@), order@.len() as int),
{
    let values = split_by_delimiter(bytes);
    let vars = order.as_slice();
    let ghost ps = pieces(bytes@);
    assert(values@.len() == ps.len());
    if values.len() != vars.len() {
        let mut msg = to_owned("Serialized binding count ");
        let count = crate::text::u64_to_string(values.len() as u64);
        push_str(&mut msg, count.as_str());
        push_str(&mut msg, " does not match variable order ");
        let text = order.to_string();
        push_str(&mut msg, text.as_str());
        return Err(msg);
    }
    let mut binding_set = BindingSet::new();
    let mut i: usize = 0;
    while i < vars.len()
        invariant
            i <= vars@.len(),
            vars@.len() == values@.len(),
            views(vars@) == order@,
            values@.map_values(|v: Vec<u8>| v@) == ps,
            ps == pieces(bytes@),
            forall|k: int| 0 <= k < ps.len() ==> !deserialize_panics(#[trigger] ps[k]),
            decode_pieces(order@, ps, i as int) == Some(binding_set@),
        decreases vars.len() - i,
    {
        assert(values@[i as int]@ == ps[i as int]);
        assert(vars@[i as int]@ == order@[i as int]);
        if values[i].len() != 0 {
            let value = match deserialize(values[i].as_slice()) {
                Ok(v) => v,
                Err(e) => {
                    proof {
                        lemma_decode_prefix_none(order@, ps, i + 1, order@.len() as int);
                    }
                    return Err(e);
                },
            };
            binding_set.insert(vars[i].clone(), value);
        }
        i = i + 1;
    }
    Ok(binding_set)
}

/// The text of one binding: data, `<<~>>` and datatype (`xsd:string` when absent), or a NUL
/// when the name is unbound.
pub open spec fn binding_text(m: Map<Seq<char>, RyaTypeModel>, v: Seq<char>) -> Seq<char> {
    if m.contains_key(v) {
        m[v].data + VALUE_TYPE_DELIMITER@ + match m[v].data_type {
            Some(dt) => dt,
            None => XSD_STRING@,
        }
    } else {
        NULL_BINDING_STRING@
    }
}

/// The texts of the bindings in the order.
pub open spec fn binding_texts(m: Map<Seq<char>, RyaTypeModel>, order: Seq<Seq<char>>) -> Seq<Seq<char>> {
    order.map_values(|v: Seq<char>| binding_text(m, v))
}

/// The text of a binding set in an order: the binding texts joined with `:::`.
pub fn binding_set_to_string(binding_set: &BindingSet, order: &VariableOrder) -> (r: Result<String, String>)
    ensures
        r is Ok <==> names_in_order(binding_set@, order@),
        r matches Ok(t) ==> t@ == join_spec(binding_texts(binding_set@, order@), BINDING_STRING_DELIMITER@),
        r matches Err(e) ==> e@ == not_in_order_message(),
{
    check_bindings_subset_of_var_order(binding_set, order)?;
    let vars = order.as_slice();
    let mut values: Vec<String> = Vec::new();
    let mut i: usize = 0;
    while i < vars.len()
        invariant
            i <= vars@.len(),
            views(vars@) == order@,
            views(values@) == binding_texts(binding_set@, order@).take(i as int),
        decreases vars.len() - i,
    {
        let ghost before = values@;
        let text = match binding_set.get(vars[i].as_str()) {
            Some(value) => {
                let mut t = to_owned(value.data());
                push_str(&mut t, VALUE_TYPE_DELIMITER);
                match value.data_type() {
                    Some(dt) => push_str(&mut t, dt),
                    None => push_str(&mut t, XSD_STRING),
                }
                t
            },
            None => to_owned(NULL_BINDING_STRING),
        };
        assert(text@ == binding_text(binding_set@, order@[i as int]));
        let ghost tv = text@;
        values.push(text);
        assert(views(values@) =~= views(before).push(tv));
        assert(views(values@) =~= binding_texts(binding_set@, order@).take(i + 1));
        i = i + 1;
    }
    assert(binding_texts(binding_set@, order@).take(i as int) =~= binding_texts(binding_set@, order@));
    Ok(join(&values, BINDING_STRING_DELIMITER))
}

/// The value a binding text decodes to: an IRI for the `xsd:anyURI` datatype, a literal of the
/// datatype otherwise; `None` unless the text has exactly one `<<~>>`, or when an IRI is invalid.
pub open spec fn value_from_text(t: Seq<char>) -> Option<RyaTypeModel> {
    let parts = split_str_spec(t, VALUE_TYPE_DELIMITER@);
    if parts.len() != 2 {
        None
    } else if parts[1] == XSD_ANY_URI@ {
        if valid_iri_spec(parts[0]) {
            Some(iri_model(parts[0]))
        } else {
            None
        }
    } else {
        Some(RyaTypeModel { data_type: Some(parts[1]), data: parts[0], language: None })
    }
}

fn value_from_binding_string(value_string: &str) -> (r: Result<RyaType, String>)
    ensures
        r is Ok <==> value_from_text(value_string@) is Some,
        r matches Ok(t) ==> Some(t@) == value_from_text(value_string@),
{
    proof {
        reveal_strlit("<<~>>");
    }
    let parts = split_str(value_string, VALUE_TYPE_DELIMITER);
    if parts.len() != 2 {
        return Err(to_owned("Array must contain data and type info!"));
    }
    let data = parts[0].as_str();
    let data_type = parts[1].as_str();
    if str_eq(data_type, XSD_ANY_URI) {
        let i = RyaIri::new(data)?;
        Ok(i.into_type())
    } else {
        Ok(RyaType::custom(data_type, data))
    }
}

/// The binding texts of a binding set's text: none for the empty text.
pub open spec fn text_pieces(s: Seq<char>) -> Seq<Seq<char>> {
    if s.len() == 0 {
        Seq::empty()
    } else {
        split_str_spec(s, BINDING_STRING_DELIMITER@)
    }
}

/// The bindings read from the first `k` texts; NUL texts leave the name unbound.
pub open spec fn decode_texts(order: Seq<Seq<char>>, ts: Seq<Seq<char>>, k: int) -> Option<Map<Seq<char>, RyaTypeModel>>
    decreases k,
{
    if k <= 0 {
        Some(Map::empty())
    } else {
        match decode_texts(order, ts, k - 1) {
            None => None,
            Some(m) => if ts[k - 1] == NULL_BINDING_STRING@ {
                Some(m)
            } else {
                match value_from_text(ts[k - 1]) {
                    Some(t) => Some(m.insert(order[k - 1], t)),
                    None => None,
                }
            },
        }
    }
}

pub proof fn lemma_decode_texts_prefix_none(order: Seq<Seq<char>>, ts: Seq<Seq<char>>, i: int, k: int)
    requires
        0 <= i <= k,
        decode_texts(order, ts, i) is None,
    ensures
        decode_texts(order, ts, k) is None,
    decreases k - i,
{
    if i < k {
        lemma_decode_texts_prefix_none(order, ts, i, k - 1);
    }
}

pub open spec fn binding_count_message() -> Seq<char> {
    "The number of Bindings must match the length of the VariableOrder."@
}

/// Reads a binding set from its text in the given order.
pub fn binding_set_from_string(binding_set_string: &str, order: &VariableOrder) -> (r: Result<BindingSet, String>)
    ensures
        text_pieces(binding_set_string@).len() != order@.len() ==> (r matches Err(e) && e@
            == binding_count_message()),
        text_pieces(binding_set_string@).len() == order@.len() ==> (r is Ok <==> decode_texts(
            order@,
            text_pieces(binding_set_string@),
            order@.len() as int,
        ) is Some),
        r matches Ok(b) ==> Some(b@) == decode_texts(
            order@,
            text_pieces(binding_set_string@),
            order@.len() as int,
        ),
{
    proof {
        reveal_strlit(":::");
    }
    let strings: Vec<String> = if binding_set_string.unicode_len() == 0 {
        Vec::new()
    } else {
        split_str(binding_set_string, BINDING_STRING_DELIMITER)
    };
    let ghost ts = text_pieces(binding_set_string@);
    assert(views(strings@) =~= ts);
    let vars = order.as_slice();
    if strings.len() != vars.len() {
        return Err(to_owned("The number of Bindings must match the length of the VariableOrder."));
    }
    let mut binding_set = BindingSet::new();
    let mut i: usize = 0;
    while i < vars.len()
        invariant
            i <= vars@.len(),
            vars@.len() == strings@.len(),
            views(vars@) == order@,
            views(strings@) == ts,
            ts.len() == order@.len(),
            ts == text_pieces(binding_set_string@),
            decode_texts(order@, ts, i as int) == Some(binding_set@),
        decreases vars.len() - i,
    {
        assert(strings@[i as int]@ == ts[i as int]);
        assert(vars@[i as int]@ == order@[i as int]);
        if !str_eq(strings[i].as_str(), NULL_BINDING_STRING) {
            let value = match value_from_binding_string(strings[i].as_str()) {
                Ok(v) => v,
                Err(e) => {
                    proof {
                        assert(ts[i as int] != NULL_BINDING_STRING@);
                        assert(decode_texts(order@, ts, i + 1) is None);
                        lemma_decode_texts_prefix_none(order@, ts, i + 1, order@.len() as int);
                    }
                    return Err(e);
                },
            };
            binding_set.insert(vars[i].clone(), value);
        }
        i = i + 1;
    }
    Ok(binding_set)
}


/// A binding set with the visibility expression that guards it.
pub struct VisibilityBindingSet {
    pub bindings: BindingSet,
    pub visibility: String,
}

impl VisibilityBindingSet {
    pub fn new(bindings: BindingSet, visibility: &str) -> (r: Self)
        ensures
            r.bindings@ == bindings@,
            r.visibility@ == visibility@,
    {
        VisibilityBindingSet { bindings, visibility: to_owned(visibility) }
    }

    /// A binding set that everybody may see.
    pub fn no_visibility(bindings: BindingSet) -> (r: Self)
        ensures
            r.bindings@ == bindings@,
            r.visibility@ == Seq::<char>::empty(),
    {
        proof {
            reveal_strlit("");
        }
        Self::new(bindings, "")
    }
}

impl Clone for VisibilityBindingSet {
    fn clone(&self) -> (r: Self)
        ensures
            r.bindings@ == self.bindings@,
            r.visibility@ == self.visibility@,
    {
        VisibilityBindingSet { bindings: self.bindings.clone(), visibility: self.visibility.clone() }
    }
}

/// The text of a visible binding set: the bindings' text, then U+0001 and the visibility when
/// there is one.
pub fn visibility_binding_set_to_string(binding_set: &VisibilityBindingSet, order: &VariableOrder) -> (r: Result<String, String>)
    ensures
        r is Ok <==> names_in_order(binding_set.bindings@, order@),
        r matches Ok(t) ==> t@ == join_spec(
            binding_texts(binding_set.bindings@, order@),
            BINDING_STRING_DELIMITER@,
        ) + if binding_set.visibility@.len() == 0 {
            Seq::empty()
        } else {
            seq![VISIBILITY_DELIMITER] + binding_set.visibility@
        },
        r matches Err(e) ==> e@ == not_in_order_message(),
{
    let mut encoded = binding_set_to_string(&binding_set.bindings, order)?;
    let ghost base = encoded@;
    if binding_set.visibility.unicode_len() != 0 {
        push_char(&mut encoded, VISIBILITY_DELIMITER);
        push_str(&mut encoded, binding_set.visibility.as_str());
        assert(encoded@ =~= base + (seq![VISIBILITY_DELIMITER] + binding_set.visibility@));
    } else {
        assert(encoded@ =~= base + Seq::<char>::empty());
    }
    Ok(encoded)
}

/// Reads a visible binding set: the text before the first U+0001 holds the bindings, the rest
/// the visibility.
pub fn visibility_binding_set_from_string(binding_set_string: &str, order: &VariableOrder) -> (r: Result<VisibilityBindingSet, String>)
    ensures
        ({
            let (b, v) = match split_once_spec(binding_set_string@, VISIBILITY_DELIMITER) {
                Some((b, v)) => (b, v),
                None => (binding_set_string@, Seq::<char>::empty()),
            };
            &&& text_pieces(b).len() == order@.len() ==> (r is Ok <==> decode_texts(order@, text_pieces(b), order@.len() as int) is Some)
            &&& text_pieces(b).len() != order@.len() ==> r is Err
            &&& r matches Ok(x) ==> Some(x.bindings@) == decode_texts(order@, text_pieces(b), order@.len() as int) && x.visibility@ == v
        }),
{
    let (bindings, visibility) = match split_once_char(binding_set_string, VISIBILITY_DELIMITER) {
        Some((b, v)) => (b, v),
        None => (to_owned(binding_set_string), String::new()),
    };
    let set = binding_set_from_string(bindings.as_str(), order)?;
    Ok(VisibilityBindingSet { bindings: set, visibility })
}

/// The names bound in a binding set, in increasing order.
pub fn binding_names(binding_set: &BindingSet) -> (r: Vec<String>)
    ensures
        views(r@) == names_of(binding_set.pairs()),
{
    let mut out: Vec<String> = Vec::new();
    let mut i: usize = 0;
    while i < binding_set.len()
        invariant
            i <= binding_set.pairs().len(),
            views(out@) == names_of(binding_set.pairs()).take(i as int),
        decreases binding_set.pairs().len() - i,
    {
        let (name, _) = binding_set.entry(i);
        let ghost before = out@;
        out.push(name.clone());
        assert(views(out@) =~= views(before).push(name@));
        assert(names_of(binding_set.pairs()).take(i + 1) =~= names_of(binding_set.pairs()).take(i as int).push(name@));
        i = i + 1;
    }
    assert(names_of(binding_set.pairs()).take(i as int) =~= names_of(binding_set.pairs()));
    out
}

/// The row of a binding set in the order of its own names.
pub fn serialize_full_binding_set(binding_set: &BindingSet) -> (r: Result<Vec<u8>, String>)
    ensures
        r is Ok <==> row_bytes(binding_set@, names_of(binding_set.pairs())) is Some,
        r matches Ok(b) ==> Some(b@) == row_bytes(binding_set@, names_of(binding_set.pairs())),
{
    let order = VariableOrder::new(binding_names(binding_set));
    proof {
        assert forall|k: Seq<char>| #[trigger] binding_set@.contains_key(k) implies order@.contains(k) by {
            let m = binding_set.pairs();
            let j = choose|j: int| 0 <= j < m.len() && (#[trigger] m[j]).0 == k;
            assert(names_of(m)[j] == k);
        }
    }
    serialize_binding_set(binding_set, &order)
}

/// A visibility term without surrounding white space and parentheses.
pub open spec fn clean_term_spec(term: Seq<char>) -> Seq<char> {
    crate::words::trim_spec(
        crate::words::trim_end_char_spec(
            crate::words::trim_start_char_spec(crate::words::trim_spec(term), '('),
            ')',
        ),
    )
}

/// Whether the visibility expression admits a reader with the given authorizations: an empty
/// expression admits everybody; otherwise some `|`-separated alternative must have all its
/// `&`-separated terms among the authorizations.
pub open spec fn visibility_allowed_spec(visibility: Seq<char>, auths: Seq<Seq<char>>) -> bool {
    let v = crate::words::trim_spec(visibility);
    if v.len() == 0 {
        true
    } else if auths.len() == 0 {
        false
    } else {
        exists|i: int| 0 <= i < split_spec(v, '|').len() && #[trigger] alternative_allowed(split_spec(v, '|')[i], auths)
    }
}

/// Every `&`-separated term of the alternative is an authorization.
pub open spec fn alternative_allowed(d: Seq<char>, auths: Seq<Seq<char>>) -> bool {
    forall|j: int| 0 <= j < split_spec(d, '&').len() ==> auths.contains(clean_term_spec(#[trigger] split_spec(d, '&')[j]))
}

/// A visibility term without surrounding white space and parentheses.
pub fn clean_visibility_term_pub(term: &str) -> (r: String)
    ensures
        r@ == clean_term_spec(term@),
{
    clean_visibility_term(term)
}

/// Whether the list holds the text.
pub fn contains_string_pub(v: &Vec<String>, x: &str) -> (r: bool)
    ensures
        r == views(v@).contains(x@),
{
    contains_string(v, x)
}

fn clean_visibility_term(term: &str) -> (r: String)
    ensures
        r@ == clean_term_spec(term@),
{
    let a = crate::words::trim(term);
    let b = crate::words::trim_start_char(a.as_str(), '(');
    let c = crate::words::trim_end_char(b.as_str(), ')');
    crate::words::trim(c.as_str())
}

fn contains_string(v: &Vec<String>, x: &str) -> (r: bool)
    ensures
        r == views(v@).contains(x@),
{
    let mut i: usize = 0;
    while i < v.len()
        invariant
            i <= v@.len(),
            forall|k: int| 0 <= k < i ==> v@[k]@ != x@,
        decreases v.len() - i,
    {
        if str_eq(v[i].as_str(), x) {
            assert(views(v@)[i as int] == x@);
            return true;
        }
        i = i + 1;
    }
    proof {
        if views(v@).contains(x@) {
            let k = choose|k: int| 0 <= k < views(v@).len() && views(v@)[k] == x@;
            assert(v@[k]@ == x@);
        }
    }
    false
}

/// Whether a reader with the given authorizations may see an entry with this visibility.
pub fn visibility_allowed(visibility: &str, auths: &Vec<String>) -> (r: bool)
    ensures
        r == visibility_allowed_spec(visibility@, views(auths@)),
{
    let v = crate::words::trim(visibility);
    if v.unicode_len() == 0 {
        return true;
    }
    if auths.len() == 0 {
        assert(views(auths@).len() == 0);
        return false;
    }
    assert(views(auths@).len() != 0);
    let alternatives = split_char(v.as_str(), '|');
    let ghost alts = split_spec(v@, '|');
    let mut i: usize = 0;
    while i < alternatives.len()
        invariant
            i <= alternatives@.len(),
            views(alternatives@) == alts,
            alts == split_spec(v@, '|'),
            v@ == crate::words::trim_spec(visibility@),
            v@.len() != 0,
            views(auths@).len() != 0,
            forall|k: int| 0 <= k < i ==> !alternative_allowed(#[trigger] alts[k], views(auths@)),
        decreases alternatives.len() - i,
    {
        let terms = split_char(alternatives[i].as_str(), '&');
        let ghost ts = split_spec(alternatives@[i as int]@, '&');
        let mut all = true;
        let mut j: usize = 0;
        while j < terms.len()
            invariant
                j <= terms@.len(),
                views(terms@) == ts,
                all == forall|k: int| 0 <= k < j ==> views(auths@).contains(clean_term_spec(#[trigger] ts[k])),
            decreases terms.len() - j,
        {
            let cleaned = clean_visibility_term(terms[j].as_str());
            assert(terms@[j as int]@ == ts[j as int]);
            let ok = contains_string(auths, cleaned.as_str());
            if !ok {
                all = false;
            }
            j = j + 1;
        }
        assert(alts[i as int] == alternatives@[i as int]@);
        if all {
            assert(alternative_allowed(alts[i as int], views(auths@)));
            return true;
        }
        i = i + 1;
    }
    false
}

/// The name of the table of a PCJ: the prefix, `INDEX_` and the id without hyphens.
pub fn make_pcj_table_name(rya_prefix: &str, pcj_id: &str) -> (r: String)
    ensures
        r@ == rya_prefix@ + "INDEX_"@ + crate::text::remove_char_spec(pcj_id@, '-'),
{
    let mut out = to_owned(rya_prefix);
    push_str(&mut out, "INDEX_");
    let id = crate::text::remove_char(pcj_id, '-');
    push_str(&mut out, id.as_str());
    out
}

/// The PCJ id of a table name: what follows the first `INDEX_`.
pub fn pcj_id_from_table_name(table_name: &str) -> (r: Option<String>)
    ensures
        match r {
            Some(id) => crate::words::split_once_str_spec(table_name@, "INDEX_"@) matches Some((_, b)) && id@ == b,
            None => crate::words::split_once_str_spec(table_name@, "INDEX_"@) is None,
        },
{
    match crate::words::split_once_str(table_name, "INDEX_") {
        Some((_, id)) => Some(id),
        None => None,
    }
}


/// Two binding sets agree on every name that both bind.
pub open spec fn compatible(l: Map<Seq<char>, RyaTypeModel>, r: Map<Seq<char>, RyaTypeModel>) -> bool {
    forall|k: Seq<char>| #[trigger] l.contains_key(k) && r.contains_key(k) ==> l[k] == r[k]
}

/// The join of two compatible binding sets: every binding of either.
pub open spec fn joined(l: Map<Seq<char>, RyaTypeModel>, r: Map<Seq<char>, RyaTypeModel>) -> Map<Seq<char>, RyaTypeModel> {
    r.union_prefer_right(l)
}

/// The maps of a list of binding sets.
pub open spec fn maps_of(v: Seq<BindingSet>) -> Seq<Map<Seq<char>, RyaTypeModel>> {
    v.map_values(|b: BindingSet| b@)
}

/// The join of two binding sets, `None` when they disagree on a name.
pub fn join_compatible(left: &BindingSet, right: &BindingSet) -> (r: Option<BindingSet>)
    ensures
        r is Some <==> compatible(left@, right@),
        r matches Some(j) ==> j@ == joined(left@, right@),
{
    let n = left.len();
    let mut i: usize = 0;
    left.check_sorted();
    while i < n
        invariant
            n == left.pairs().len(),
            i <= n,
            crate::sorted::strictly_sorted(names_of(left.pairs())),
            forall|j: int| 0 <= j < i ==> (#[trigger] right@.contains_key(left.pairs()[j].0)) ==> right@[left.pairs()[j].0] == left.pairs()[j].1,
        decreases n - i,
    {
        let (name, value) = left.entry(i);
        match right.get(name.as_str()) {
            Some(rv) => {
                if !rv.same_as(value) {
                    assert(left@.contains_key(name@));
                    return None;
                }
            },
            None => {},
        }
        i = i + 1;
    }
    proof {
        assert forall|k: Seq<char>| #[trigger] left@.contains_key(k) && right@.contains_key(k) implies left@[k] == right@[k] by {
            let m = left.pairs();
            let j = choose|j: int| 0 <= j < m.len() && (#[trigger] m[j]).0 == k;
            crate::pcj::binding::lemma_lookup_at(m, j);
            assert(right@.contains_key(m[j].0));
        }
    }
    let mut out = left.clone();
    let rn = right.len();
    right.check_sorted();
    let mut j: usize = 0;
    proof {
        crate::pcj::binding::lemma_as_map_take_ends(right.pairs());
        assert(out@ =~= as_map(right.pairs().take(0)).union_prefer_right(left@));
    }
    while j < rn
        invariant
            rn == right.pairs().len(),
            j <= rn,
            crate::sorted::strictly_sorted(names_of(right.pairs())),
            out@ == as_map(right.pairs().take(j as int)).union_prefer_right(left@),
        decreases rn - j,
    {
        let (name, value) = right.entry(j);
        proof {
            crate::pcj::binding::lemma_as_map_take_step(right.pairs(), j as int);
            let m = right.pairs();
            let t = m.take(j as int);
            assert(m[j as int].0 == name@);
            if as_map(t).contains_key(name@) {
                let idx = choose|idx: int| 0 <= idx < t.len() && (#[trigger] t[idx]).0 == name@;
                assert(names_of(m)[idx] == name@);
                assert(names_of(m)[j as int] == name@);
                crate::sorted::lemma_sorted_distinct(names_of(m), idx, j as int);
            }
        }
        out.insert_if_absent(name, value);
        proof {
            let a = as_map(right.pairs().take(j as int));
            assert(out@ =~= a.insert(name@, value@).union_prefer_right(left@));
        }
        j = j + 1;
    }
    proof {
        crate::pcj::binding::lemma_as_map_take_ends(right.pairs());
    }
    Some(out)
}

/// The joins of `l` with the rows of `rs` it is compatible with, in the order of `rs`.
pub open spec fn row_joins(l: Map<Seq<char>, RyaTypeModel>, rs: Seq<Map<Seq<char>, RyaTypeModel>>) -> Seq<Map<Seq<char>, RyaTypeModel>>
    decreases rs.len(),
{
    if rs.len() == 0 {
        Seq::empty()
    } else {
        row_joins(l, rs.drop_last()) + if compatible(l, rs.last()) {
            seq![joined(l, rs.last())]
        } else {
            Seq::empty()
        }
    }
}

/// The natural join of two bags, left rows outermost.
pub open spec fn natural_join_spec(ls: Seq<Map<Seq<char>, RyaTypeModel>>, rs: Seq<Map<Seq<char>, RyaTypeModel>>) -> Seq<Map<Seq<char>, RyaTypeModel>>
    decreases ls.len(),
{
    if ls.len() == 0 {
        Seq::empty()
    } else {
        natural_join_spec(ls.drop_last(), rs) + row_joins(ls.last(), rs)
    }
}

/// The left outer join of two bags: a left row without a compatible right row stays as it is.
pub open spec fn left_join_spec(ls: Seq<Map<Seq<char>, RyaTypeModel>>, rs: Seq<Map<Seq<char>, RyaTypeModel>>) -> Seq<Map<Seq<char>, RyaTypeModel>>
    decreases ls.len(),
{
    if ls.len() == 0 {
        Seq::empty()
    } else {
        left_join_spec(ls.drop_last(), rs) + if row_joins(ls.last(), rs).len() == 0 {
            seq![ls.last()]
        } else {
            row_joins(ls.last(), rs)
        }
    }
}

fn clone_binding_sets(v: &[BindingSet]) -> (r: Vec<BindingSet>)
    ensures
        maps_of(r@) == maps_of(v@),
{
    let mut out: Vec<BindingSet> = Vec::new();
    let mut i: usize = 0;
    while i < v.len()
        invariant
            i <= v@.len(),
            maps_of(out@) == maps_of(v@).take(i as int),
        decreases v.len() - i,
    {
        let b = v[i].clone();
        let ghost before = out@;
        out.push(b);
        assert(maps_of(out@) =~= maps_of(before).push(v@[i as int]@));
        assert(maps_of(v@).take(i + 1) =~= maps_of(v@).take(i as int).push(v@[i as int]@));
        i = i + 1;
    }
    assert(maps_of(v@).take(i as int) =~= maps_of(v@));
    out
}

fn push_row_joins(out: &mut Vec<BindingSet>, left_row: &BindingSet, right: &[BindingSet]) -> (matched: bool)
    ensures
        maps_of(final(out)@) == maps_of(old(out)@) + row_joins(left_row@, maps_of(right@)),
        matched == (row_joins(left_row@, maps_of(right@)).len() > 0),
{
    let mut matched = false;
    let mut j: usize = 0;
    let ghost start = maps_of(out@);
    assert(maps_of(right@).take(0) =~= Seq::<Map<Seq<char>, RyaTypeModel>>::empty());
    assert(start + row_joins(left_row@, maps_of(right@).take(0)) =~= start);
    while j < right.len()
        invariant
            j <= right@.len(),
            maps_of(out@) == start + row_joins(left_row@, maps_of(right@).take(j as int)),
            matched == (row_joins(left_row@, maps_of(right@).take(j as int)).len() > 0),
        decreases right.len() - j,
    {
        assert(maps_of(right@).take(j + 1).drop_last() =~= maps_of(right@).take(j as int));
        assert(maps_of(right@).take(j + 1).last() == right@[j as int]@);
        let ghost before = out@;
        match join_compatible(left_row, &right[j]) {
            Some(joined_row) => {
                let ghost jm = joined_row@;
                out.push(joined_row);
                assert(maps_of(out@) =~= maps_of(before).push(jm));
                matched = true;
            },
            None => {},
        }
        assert(maps_of(out@) =~= start + row_joins(left_row@, maps_of(right@).take(j + 1)));
        j = j + 1;
    }
    assert(maps_of(right@).take(j as int) =~= maps_of(right@));
    matched
}

/// The natural join of two bags of binding sets, left rows outermost.
pub fn natural_join_bag(left: &[BindingSet], right: &[BindingSet]) -> (r: Vec<BindingSet>)
    ensures
        maps_of(r@) == natural_join_spec(maps_of(left@), maps_of(right@)),
{
    let mut out: Vec<BindingSet> = Vec::new();
    let mut i: usize = 0;
    assert(maps_of(left@).take(0) =~= Seq::<Map<Seq<char>, RyaTypeModel>>::empty());
    while i < left.len()
        invariant
            i <= left@.len(),
            maps_of(out@) == natural_join_spec(maps_of(left@).take(i as int), maps_of(right@)),
        decreases left.len() - i,
    {
        assert(maps_of(left@).take(i + 1).drop_last() =~= maps_of(left@).take(i as int));
        assert(maps_of(left@).take(i + 1).last() == left@[i as int]@);
        push_row_joins(&mut out, &left[i], right);
        i = i + 1;
    }
    assert(maps_of(left@).take(i as int) =~= maps_of(left@));
    out
}

/// The left outer join of two bags of binding sets, left rows outermost.
pub fn left_join_bag(left: &[BindingSet], right: &[BindingSet]) -> (r: Vec<BindingSet>)
    ensures
        maps_of(r@) == left_join_spec(maps_of(left@), maps_of(right@)),
{
    let mut out: Vec<BindingSet> = Vec::new();
    let mut i: usize = 0;
    assert(maps_of(left@).take(0) =~= Seq::<Map<Seq<char>, RyaTypeModel>>::empty());
    while i < left.len()
        invariant
            i <= left@.len(),
            maps_of(out@) == left_join_spec(maps_of(left@).take(i as int), maps_of(right@)),
        decreases left.len() - i,
    {
        assert(maps_of(left@).take(i + 1).drop_last() =~= maps_of(left@).take(i as int));
        assert(maps_of(left@).take(i + 1).last() == left@[i as int]@);
        let ghost before = maps_of(out@);
        let matched = push_row_joins(&mut out, &left[i], right);
        if !matched {
            let row = left[i].clone();
            let ghost rm = row@;
            let ghost mid = out@;
            out.push(row);
            assert(maps_of(out@) =~= maps_of(mid).push(rm));
            assert(row_joins(left@[i as int]@, maps_of(right@)) =~= Seq::<Map<Seq<char>, RyaTypeModel>>::empty());
            assert(maps_of(out@) =~= before + seq![rm]);
        }
        i = i + 1;
    }
    assert(maps_of(left@).take(i as int) =~= maps_of(left@));
    out
}

/// Both bags, left first.
pub fn union_binding_bag(left: &[BindingSet], right: &[BindingSet]) -> (r: Vec<BindingSet>)
    ensures
        maps_of(r@) == maps_of(left@) + maps_of(right@),
{
    let mut out = clone_binding_sets(left);
    let more = clone_binding_sets(right);
    let ghost a = maps_of(out@);
    let mut more = more;
    out.append(&mut more);
    assert(maps_of(out@) =~= a + maps_of(right@));
    out
}

/// Holds of the binding sets that bind `variable` to `value`.
pub open spec fn binds_to(variable: Seq<char>, value: RyaTypeModel) -> spec_fn(Map<Seq<char>, RyaTypeModel>) -> bool {
    |m: Map<Seq<char>, RyaTypeModel>| m.contains_key(variable) && m[variable] == value
}

/// The rows of the bag that bind `variable` to `value`, in order.
pub fn filter_eq_bag(rows: &[BindingSet], variable: &str, value: &RyaType) -> (r: Vec<BindingSet>)
    ensures
        maps_of(r@) == maps_of(rows@).filter(binds_to(variable@, value@)),
{
    let mut out: Vec<BindingSet> = Vec::new();
    let mut i: usize = 0;
    let ghost p = binds_to(variable@, value@);
    proof {
        crate::seqs::lemma_filter_take_zero(maps_of(rows@), p);
    }
    while i < rows.len()
        invariant
            i <= rows@.len(),
            p == binds_to(variable@, value@),
            maps_of(out@) == maps_of(rows@).take(i as int).filter(p),
        decreases rows.len() - i,
    {
        proof {
            crate::seqs::lemma_filter_take_step(maps_of(rows@), p, i as int);
        }
        let keep = match rows[i].get(variable) {
            Some(candidate) => candidate.same_as(value),
            None => false,
        };
        if keep {
            let row = rows[i].clone();
            let ghost before = out@;
            out.push(row);
            assert(maps_of(out@) =~= maps_of(before).push(rows@[i as int]@));
        }
        i = i + 1;
    }
    proof {
        crate::seqs::lemma_take_full(maps_of(rows@));
    }
    out
}

/// The maps of a list of binding sets, as a set.
pub open spec fn bindings_set(v: Seq<BindingSet>) -> Set<Map<Seq<char>, RyaTypeModel>> {
    maps_of(v).to_set()
}

/// No two binding sets of the list are equal.
pub open spec fn distinct_bindings(v: Seq<BindingSet>) -> bool {
    forall|i: int, j: int| 0 <= i < j < v.len() ==> (#[trigger] v[i])@ != (#[trigger] v[j])@
}

/// Adds a binding set to a list of distinct ones unless an equal one is there.
pub fn push_binding_set(out: &mut Vec<BindingSet>, b: BindingSet)
    requires
        distinct_bindings(old(out)@),
    ensures
        distinct_bindings(final(out)@),
        bindings_set(final(out)@) == bindings_set(old(out)@).insert(b@),
{
    let mut i: usize = 0;
    while i < out.len()
        invariant
            i <= out@.len(),
            out@ == old(out)@,
            distinct_bindings(out@),
            forall|k: int| 0 <= k < i ==> (#[trigger] out@[k])@ != b@,
        decreases out.len() - i,
    {
        if out[i].same_as(&b) {
            assert(maps_of(out@)[i as int] == out@[i as int]@);
            assert(bindings_set(out@).insert(b@) =~= bindings_set(out@));
            return;
        }
        i = i + 1;
    }
    let ghost before = out@;
    let ghost bm = b@;
    out.push(b);
    assert(maps_of(out@) =~= maps_of(before).push(bm));
    proof {
        lemma_push_to_set(maps_of(before), bm);
    }
}

/// The distinct binding sets of a bag.
pub fn dedup_binding_sets(v: Vec<BindingSet>) -> (r: Vec<BindingSet>)
    ensures
        distinct_bindings(r@),
        bindings_set(r@) == maps_of(v@).to_set(),
{
    let mut out: Vec<BindingSet> = Vec::new();
    let mut v = v;
    let ghost all = maps_of(v@);
    let mut taken: Vec<BindingSet> = Vec::new();
    // consume `v` from the front by reversing it
    let n = v.len();
    assert(maps_of(v@).take(0).to_set() =~= Set::<Map<Seq<char>, RyaTypeModel>>::empty());
    assert(bindings_set(out@) =~= Set::<Map<Seq<char>, RyaTypeModel>>::empty());
    let mut i: usize = 0;
    while i < n
        invariant
            n == v@.len(),
            all == maps_of(v@),
            i <= n,
            distinct_bindings(out@),
            bindings_set(out@) == all.take(i as int).to_set(),
        decreases n - i,
    {
        let b = v[i].clone();
        let ghost bm = b@;
        push_binding_set(&mut out, b);
        proof {
            assert(all.take(i + 1) =~= all.take(i as int).push(bm));
            lemma_push_to_set(all.take(i as int), bm);
        }
        i = i + 1;
    }
    assert(all.take(i as int) =~= all);
    out
}

/// The natural join of two sets of binding sets.
pub fn natural_join(left: &[BindingSet], right: &[BindingSet]) -> (r: Vec<BindingSet>)
    ensures
        distinct_bindings(r@),
        bindings_set(r@) == natural_join_spec(maps_of(left@), maps_of(right@)).to_set(),
{
    dedup_binding_sets(natural_join_bag(left, right))
}

/// The union of two sets of binding sets.
pub fn union_binding_sets(left: &[BindingSet], right: &[BindingSet]) -> (r: Vec<BindingSet>)
    ensures
        distinct_bindings(r@),
        bindings_set(r@) == maps_of(left@).to_set() + maps_of(right@).to_set(),
{
    let r = dedup_binding_sets(union_binding_bag(left, right));
    proof {
        let a = maps_of(left@);
        let b = maps_of(right@);
        assert((a + b).to_set() =~= a.to_set() + b.to_set()) by {
            assert forall|x: Map<Seq<char>, RyaTypeModel>| (a + b).to_set().contains(x) == (a.to_set() + b.to_set()).contains(x) by {
                if (a + b).to_set().contains(x) {
                    let k = choose|k: int| 0 <= k < (a + b).len() && (a + b)[k] == x;
                    if k < a.len() {
                        assert(a[k] == x);
                    } else {
                        assert(b[k - a.len()] == x);
                    }
                }
                if a.to_set().contains(x) {
                    let k = choose|k: int| 0 <= k < a.len() && a[k] == x;
                    assert((a + b)[k] == x);
                }
                if b.to_set().contains(x) {
                    let k = choose|k: int| 0 <= k < b.len() && b[k] == x;
                    assert((a + b)[a.len() + k] == x);
                }
            }
        }
    }
    r
}

/// The left outer join of two sets of binding sets.
pub fn left_join(left: &[BindingSet], right: &[BindingSet]) -> (r: Vec<BindingSet>)
    ensures
        distinct_bindings(r@),
        bindings_set(r@) == left_join_spec(maps_of(left@), maps_of(right@)).to_set(),
{
    dedup_binding_sets(left_join_bag(left, right))
}

/// The rows of the set that bind `variable` to `value`.
pub fn filter_eq(rows: &[BindingSet], variable: &str, value: &RyaType) -> (r: Vec<BindingSet>)
    ensures
        distinct_bindings(r@),
        bindings_set(r@) == maps_of(rows@).filter(binds_to(variable@, value@)).to_set(),
{
    dedup_binding_sets(filter_eq_bag(rows, variable, value))
}


/// The names of a list of orders.
pub open spec fn orders_view(v: Seq<VariableOrder>) -> Seq<Seq<Seq<char>>> {
    v.map_values(|o: VariableOrder| o@)
}

/// A copy of a list of orders.
pub fn clone_orders(v: &Vec<VariableOrder>) -> (r: Vec<VariableOrder>)
    ensures
        orders_view(r@) == orders_view(v@),
{
    let mut out: Vec<VariableOrder> = Vec::new();
    let mut i: usize = 0;
    while i < v.len()
        invariant
            i <= v@.len(),
            orders_view(out@) == orders_view(v@).take(i as int),
        decreases v.len() - i,
    {
        let o = v[i].clone();
        let ghost before = out@;
        let ghost om = o@;
        out.push(o);
        assert(orders_view(out@) =~= orders_view(before).push(om));
        assert(orders_view(v@).take(i + 1) =~= orders_view(v@).take(i as int).push(v@[i as int]@));
        i = i + 1;
    }
    assert(orders_view(v@).take(i as int) =~= orders_view(v@));
    out
}

/// The distinct orders of a list, in first-seen order.
pub fn dedup_orders(v: Vec<VariableOrder>) -> (r: Vec<VariableOrder>)
    ensures
        distinct_orders(r@),
        orders_set(r@) == orders_view(v@).to_set(),
{
    let mut out: Vec<VariableOrder> = Vec::new();
    let ghost all = orders_view(v@);
    assert(orders_set(out@) =~= all.take(0).to_set());
    let mut i: usize = 0;
    while i < v.len()
        invariant
            all == orders_view(v@),
            i <= v@.len(),
            distinct_orders(out@),
            orders_set(out@) == all.take(i as int).to_set(),
        decreases v.len() - i,
    {
        let o = v[i].clone();
        let ghost om = o@;
        push_order(&mut out, o);
        proof {
            assert(all.take(i + 1) =~= all.take(i as int).push(om));
            lemma_push_to_set(all.take(i as int), om);
        }
        i = i + 1;
    }
    assert(all.take(i as int) =~= all);
    out
}

/// What a PCJ table knows of its query: the SPARQL text, the number of results and the
/// orders in which results are stored.
pub struct PcjMetadata {
    pub sparql: String,
    pub cardinality: u64,
    pub var_orders: Vec<VariableOrder>,
}

impl Clone for PcjMetadata {
    fn clone(&self) -> (r: Self)
        ensures
            r.sparql@ == self.sparql@,
            r.cardinality == self.cardinality,
            orders_view(r.var_orders@) == orders_view(self.var_orders@),
    {
        PcjMetadata {
            sparql: self.sparql.clone(),
            cardinality: self.cardinality,
            var_orders: clone_orders(&self.var_orders),
        }
    }
}

impl PcjMetadata {
    /// Metadata with the given query, count and the distinct given orders.
    pub fn new(sparql: &str, cardinality: u64, var_orders: Vec<VariableOrder>) -> (r: Self)
        ensures
            r.sparql@ == sparql@,
            r.cardinality == cardinality,
            distinct_orders(r.var_orders@),
            orders_set(r.var_orders@) == orders_view(var_orders@).to_set(),
    {
        PcjMetadata { sparql: to_owned(sparql), cardinality, var_orders: dedup_orders(var_orders) }
    }

    /// The same metadata with another count.
    pub fn with_cardinality(&self, cardinality: u64) -> (r: Self)
        ensures
            r.sparql@ == self.sparql@,
            r.cardinality == cardinality,
            orders_view(r.var_orders@) == orders_view(self.var_orders@),
    {
        PcjMetadata {
            sparql: self.sparql.clone(),
            cardinality,
            var_orders: clone_orders(&self.var_orders),
        }
    }
}

/// How a change of a PCJ table's count was written.
#[derive(Clone, Copy, Debug, PartialEq, Eq, Structural)]
pub enum PcjCardinalityUpdateStrategy {
    ConditionalWriter,
    MockBatchWriter,
}

/// One change of a PCJ table's count.
#[derive(Clone, Copy, Debug, PartialEq, Eq, Structural)]
pub struct PcjCardinalityUpdate {
    pub strategy: PcjCardinalityUpdateStrategy,
    pub previous_cardinality: u64,
    pub delta: u64,
    pub new_cardinality: u64,
}

/// One stored result row of a PCJ table.
pub struct PcjEntry {
    pub row: Vec<u8>,
    pub column_family: String,
    pub column_visibility: String,
    pub value: Vec<u8>,
}

/// A stored row as values: row key, column family, visibility and value.
pub type EntryModel = (Seq<u8>, Seq<char>, Seq<char>, Seq<u8>);

pub open spec fn entry_model(e: PcjEntry) -> EntryModel {
    (e.row@, e.column_family@, e.column_visibility@, e.value@)
}

pub open spec fn entries_set(v: Seq<PcjEntry>) -> Set<EntryModel> {
    v.map_values(|e: PcjEntry| entry_model(e)).to_set()
}

pub open spec fn distinct_entries(v: Seq<PcjEntry>) -> bool {
    forall|i: int, j: int| 0 <= i < j < v.len() ==> entry_model(#[trigger] v[i]) != entry_model(#[trigger] v[j])
}

impl PcjEntry {
    pub fn same_as(&self, other: &PcjEntry) -> (r: bool)
        ensures
            r == (entry_model(*self) == entry_model(*other)),
    {
        crate::domain::bytes_eq(self.row.as_slice(), other.row.as_slice())
            && str_eq(self.column_family.as_str(), other.column_family.as_str())
            && str_eq(self.column_visibility.as_str(), other.column_visibility.as_str())
            && crate::domain::bytes_eq(self.value.as_slice(), other.value.as_slice())
    }
}

impl Clone for PcjEntry {
    fn clone(&self) -> (r: Self)
        ensures
            entry_model(r) == entry_model(*self),
    {
        PcjEntry {
            row: self.row.clone(),
            column_family: self.column_family.clone(),
            column_visibility: self.column_visibility.clone(),
            value: self.value.clone(),
        }
    }
}

fn push_entry(out: &mut Vec<PcjEntry>, e: PcjEntry)
    requires
        distinct_entries(old(out)@),
    ensures
        distinct_entries(final(out)@),
        entries_set(final(out)@) == entries_set(old(out)@).insert(entry_model(e)),
{
    let mut i: usize = 0;
    while i < out.len()
        invariant
            i <= out@.len(),
            out@ == old(out)@,
            distinct_entries(out@),
            forall|k: int| 0 <= k < i ==> entry_model(#[trigger] out@[k]) != entry_model(e),
        decreases out.len() - i,
    {
        if out[i].same_as(&e) {
            assert(out@.map_values(|e: PcjEntry| entry_model(e))[i as int] == entry_model(out@[i as int]));
            assert(entries_set(out@).insert(entry_model(e)) =~= entries_set(out@));
            return;
        }
        i = i + 1;
    }
    let ghost before = out@;
    let ghost em = entry_model(e);
    out.push(e);
    assert(out@.map_values(|e: PcjEntry| entry_model(e)) =~= before.map_values(|e: PcjEntry| entry_model(e)).push(em));
    proof {
        lemma_push_to_set(before.map_values(|e: PcjEntry| entry_model(e)), em);
    }
}

/// The bindings held in a row stored in an order: `None` when the row's piece count differs
/// from the order's length or a piece does not decode.
pub open spec fn row_decodes(order: Seq<Seq<char>>, row: Seq<u8>) -> Option<Map<Seq<char>, RyaTypeModel>> {
    if pieces(row).len() != order.len() {
        None
    } else {
        decode_pieces(order, pieces(row), order.len() as int)
    }
}

/// No piece of the row makes decoding panic.
pub open spec fn row_safe(row: Seq<u8>) -> bool {
    forall|k: int| 0 <= k < pieces(row).len() ==> !deserialize_panics(#[trigger] pieces(row)[k])
}

/// Whether an entry is stored in the order and visible to the authorizations (`None`: no
/// visibility check).
pub open spec fn entry_selected(e: EntryModel, order: Seq<Seq<char>>, auths: Option<Seq<Seq<char>>>) -> bool {
    &&& e.1 == join_spec(order, VARIABLE_ORDER_DELIMITER@)
    &&& match auths {
        Some(a) => visibility_allowed_spec(e.2, a),
        None => true,
    }
}

/// The bindings and visibilities of the selected entries, in order; `None` when one of them
/// does not decode.
pub open spec fn selected_rows(es: Seq<EntryModel>, order: Seq<Seq<char>>, auths: Option<Seq<Seq<char>>>) -> Option<Seq<(Map<Seq<char>, RyaTypeModel>, Seq<char>)>>
    decreases es.len(),
{
    if es.len() == 0 {
        Some(Seq::empty())
    } else {
        match selected_rows(es.drop_last(), order, auths) {
            None => None,
            Some(prev) => {
                let e = es.last();
                if entry_selected(e, order, auths) {
                    match row_decodes(order, e.0) {
                        Some(m) => Some(prev.push((m, e.2))),
                        None => None,
                    }
                } else {
                    Some(prev)
                }
            },
        }
    }
}

pub proof fn lemma_selected_prefix_none(es: Seq<EntryModel>, order: Seq<Seq<char>>, auths: Option<Seq<Seq<char>>>, i: int)
    requires
        0 <= i <= es.len(),
        selected_rows(es.take(i), order, auths) is None,
    ensures
        selected_rows(es, order, auths) is None,
    decreases es.len(),
{
    if i == es.len() {
        assert(es.take(i) =~= es);
    } else {
        assert(es.drop_last().take(i) =~= es.take(i));
        lemma_selected_prefix_none(es.drop_last(), order, auths, i);
    }
}

/// The result rows of a PCJ table together with their count and change log.
pub struct PcjTable {
    metadata: PcjMetadata,
    entries: Vec<PcjEntry>,
    cardinality_updates: Vec<PcjCardinalityUpdate>,
}

impl PcjTable {
    #[verifier::type_invariant]
    closed spec fn inv(self) -> bool {
        distinct_entries(self.entries@)
    }

    pub closed spec fn meta(self) -> PcjMetadata {
        self.metadata
    }

    pub closed spec fn entry_list(self) -> Seq<PcjEntry> {
        self.entries@
    }

    pub closed spec fn update_log(self) -> Seq<PcjCardinalityUpdate> {
        self.cardinality_updates@
    }

    pub closed spec fn entry_models(self) -> Seq<EntryModel> {
        self.entries@.map_values(|e: PcjEntry| entry_model(e))
    }

    pub fn metadata(&self) -> (r: &PcjMetadata)
        ensures
            *r == self.meta(),
    {
        &self.metadata
    }

    pub fn entries(&self) -> (r: &Vec<PcjEntry>)
        ensures
            r@ == self.entry_list(),
            r@.map_values(|e: PcjEntry| entry_model(e)) == self.entry_models(),
    {
        &self.entries
    }

    pub fn cardinality_updates(&self) -> (r: &[PcjCardinalityUpdate])
        ensures
            r@ == self.update_log(),
    {
        self.cardinality_updates.as_slice()
    }

    fn select_rows(&self, order: &VariableOrder, auths: Option<&Vec<String>>) -> (r: Result<Vec<VisibilityBindingSet>, String>)
        requires
            forall|i: int| 0 <= i < self.entry_models().len() ==> row_safe((#[trigger] self.entry_models()[i]).0),
        ensures
            r is Ok <==> selected_rows(self.entry_models(), order@, opt_strings(auths)) is Some,
            r matches Ok(v) ==> v@.map_values(|x: VisibilityBindingSet| (x.bindings@, x.visibility@))
                == selected_rows(self.entry_models(), order@, opt_strings(auths))->0,
    {
        let text = order.to_string();
        let ghost es = self.entry_models();
        let ghost au = opt_strings(auths);
        let mut out: Vec<VisibilityBindingSet> = Vec::new();
        let mut i: usize = 0;
        assert(es.take(0) =~= Seq::<EntryModel>::empty());
        assert(out@.map_values(|x: VisibilityBindingSet| (x.bindings@, x.visibility@)) =~= Seq::<(Map<Seq<char>, RyaTypeModel>, Seq<char>)>::empty());
        while i < self.entries.len()
            invariant
                i <= self.entries@.len(),
                es == self.entry_models(),
                au == opt_strings(auths),
                text@ == join_spec(order@, VARIABLE_ORDER_DELIMITER@),
                forall|k: int| 0 <= k < es.len() ==> row_safe((#[trigger] es[k]).0),
                selected_rows(es.take(i as int), order@, au) == Some(out@.map_values(|x: VisibilityBindingSet| (x.bindings@, x.visibility@))),
            decreases self.entries.len() - i,
        {
            let e = &self.entries[i];
            assert(es[i as int] == entry_model(*e));
            assert(es.take(i + 1).drop_last() =~= es.take(i as int));
            assert(es.take(i + 1).last() == es[i as int]);
            let family_ok = str_eq(e.column_family.as_str(), text.as_str());
            let visible = match auths {
                Some(a) => visibility_allowed(e.column_visibility.as_str(), a),
                None => true,
            };
            if family_ok && visible {
                let bindings = match deserialize_binding_set(e.row.as_slice(), order) {
                    Ok(b) => b,
                    Err(err) => {
                        proof {
                            lemma_selected_prefix_none(es, order@, au, i + 1);
                        }
                        return Err(err);
                    },
                };
                let ghost before = out@;
                let row = VisibilityBindingSet { bindings, visibility: e.column_visibility.clone() };
                let ghost rm = (row.bindings@, row.visibility@);
                out.push(row);
                assert(out@.map_values(|x: VisibilityBindingSet| (x.bindings@, x.visibility@)) =~= before.map_values(|x: VisibilityBindingSet| (x.bindings@, x.visibility@)).push(rm));
            }
            i = i + 1;
        }
        assert(es.take(i as int) =~= es);
        Ok(out)
    }

    /// The visible result rows stored in an order.
    pub fn visible_results_for_order(&self, order: &VariableOrder) -> (r: Result<Vec<VisibilityBindingSet>, String>)
        requires
            forall|i: int| 0 <= i < self.entry_models().len() ==> row_safe((#[trigger] self.entry_models()[i]).0),
        ensures
            r is Ok <==> selected_rows(self.entry_models(), order@, None) is Some,
            r matches Ok(v) ==> v@.map_values(|x: VisibilityBindingSet| (x.bindings@, x.visibility@))
                == selected_rows(self.entry_models(), order@, None)->0,
    {
        self.select_rows(order, None)
    }

    /// The distinct result bindings stored in an order.
    pub fn results_for_order(&self, order: &VariableOrder) -> (r: Result<Vec<BindingSet>, String>)
        requires
            forall|i: int| 0 <= i < self.entry_models().len() ==> row_safe((#[trigger] self.entry_models()[i]).0),
        ensures
            r is Ok <==> selected_rows(self.entry_models(), order@, None) is Some,
            r matches Ok(v) ==> distinct_bindings(v@) && bindings_set(v@) == selected_rows(
                self.entry_models(),
                order@,
                None,
            )->0.map_values(|x: (Map<Seq<char>, RyaTypeModel>, Seq<char>)| x.0).to_set(),
    {
        let rows = self.select_rows(order, None)?;
        Ok(bindings_of_rows(rows))
    }

    /// The distinct result bindings stored in an order that the authorizations may see.
    pub fn results_for_order_with_auths(&self, order: &VariableOrder, auths: &Vec<String>) -> (r: Result<Vec<BindingSet>, String>)
        requires
            forall|i: int| 0 <= i < self.entry_models().len() ==> row_safe((#[trigger] self.entry_models()[i]).0),
        ensures
            r is Ok <==> selected_rows(self.entry_models(), order@, Some(views(auths@))) is Some,
            r matches Ok(v) ==> distinct_bindings(v@) && bindings_set(v@) == selected_rows(
                self.entry_models(),
                order@,
                Some(views(auths@)),
            )->0.map_values(|x: (Map<Seq<char>, RyaTypeModel>, Seq<char>)| x.0).to_set(),
    {
        let rows = self.select_rows(order, Some(auths))?;
        Ok(bindings_of_rows(rows))
    }
}

/// The texts of an optional list of strings.
pub open spec fn opt_strings(a: Option<&Vec<String>>) -> Option<Seq<Seq<char>>> {
    match a {
        Some(v) => Some(views(v@)),
        None => None,
    }
}

fn bindings_of_rows(rows: Vec<VisibilityBindingSet>) -> (r: Vec<BindingSet>)
    ensures
        distinct_bindings(r@),
        bindings_set(r@) == rows@.map_values(|x: VisibilityBindingSet| (x.bindings@, x.visibility@)).map_values(
            |x: (Map<Seq<char>, RyaTypeModel>, Seq<char>)| x.0,
        ).to_set(),
{
    let mut all: Vec<BindingSet> = Vec::new();
    let mut i: usize = 0;
    while i < rows.len()
        invariant
            i <= rows@.len(),
            maps_of(all@) == rows@.take(i as int).map_values(|x: VisibilityBindingSet| x.bindings@),
        decreases rows.len() - i,
    {
        let b = rows[i].bindings.clone();
        let ghost before = all@;
        let ghost bm = b@;
        all.push(b);
        assert(maps_of(all@) =~= maps_of(before).push(bm));
        assert(rows@.take(i + 1).map_values(|x: VisibilityBindingSet| x.bindings@) =~= rows@.take(i as int).map_values(|x: VisibilityBindingSet| x.bindings@).push(bm));
        i = i + 1;
    }
    assert(rows@.take(i as int) =~= rows@);
    assert(rows@.map_values(|x: VisibilityBindingSet| (x.bindings@, x.visibility@)).map_values(
        |x: (Map<Seq<char>, RyaTypeModel>, Seq<char>)| x.0,
    ) =~= rows@.map_values(|x: VisibilityBindingSet| x.bindings@));
    dedup_binding_sets(all)
}


/// The entry a result is stored as in one order of the table.
pub open spec fn stored_entry(r: (Map<Seq<char>, RyaTypeModel>, Seq<char>), order: Seq<Seq<char>>, full: Seq<u8>) -> Option<EntryModel> {
    match row_bytes(r.0, order) {
        Some(row) => Some((row, join_spec(order, VARIABLE_ORDER_DELIMITER@), r.1, full)),
        None => None,
    }
}

/// PCJ tables by name, in increasing order of name.
pub struct InMemoryPcjTables {
    names: Vec<String>,
    tables: Vec<PcjTable>,
}

impl InMemoryPcjTables {
    #[verifier::type_invariant]
    closed spec fn inv(self) -> bool {
        &&& crate::sorted::strictly_sorted(views(self.names@))
        &&& self.names@.len() == self.tables@.len()
    }

    /// The names of the tables, in increasing order.
    pub closed spec fn table_names(self) -> Seq<Seq<char>> {
        views(self.names@)
    }

    /// The table of the given name.
    pub closed spec fn table_for(self, name: Seq<char>) -> Option<PcjTable> {
        if views(self.names@).contains(name) {
            Some(self.tables@[views(self.names@).index_of(name)])
        } else {
            None
        }
    }

    /// No tables.
    pub fn new() -> (r: Self)
        ensures
            r.table_names() == Seq::<Seq<char>>::empty(),
            forall|n: Seq<char>| r.table_for(n) is None,
    {
        let r = InMemoryPcjTables { names: Vec::new(), tables: Vec::new() };
        assert(r.table_names() =~= Seq::<Seq<char>>::empty());
        r
    }

    fn index_of_table(&self, name: &str) -> (r: Option<usize>)
        ensures
            match r {
                Some(k) => self.table_for(name@) is Some && k < self.tables@.len()
                    && self.table_for(name@)->0 == self.tables@[k as int]
                    && self.names@[k as int]@ == name@,
                None => self.table_for(name@) is None,
            },
    {
        proof {
            use_type_invariant(self);
        }
        let (k, found) = crate::sorted::sorted_position(&self.names, name);
        if found {
            proof {
                let s = views(self.names@);
                assert(s[k as int] == name@);
                s.index_of_first_ensures(name@);
                let j = s.index_of(name@);
                if j != k {
                    crate::sorted::lemma_sorted_distinct(s, j, k as int);
                }
            }
            Some(k)
        } else {
            None
        }
    }

    /// Creates an empty table with the given query and the distinct given orders, unless a table
    /// of that name exists.
    pub fn create_pcj_table(&mut self, name: &str, var_orders: Vec<VariableOrder>, sparql: &str)
        ensures
            old(self).table_for(name@) is Some ==> final(self).table_for(name@) == old(self).table_for(name@),
            old(self).table_for(name@) is None ==> ({
                let t = final(self).table_for(name@)->0;
                &&& final(self).table_for(name@) is Some
                &&& t.meta().sparql@ == sparql@
                &&& t.meta().cardinality == 0
                &&& distinct_orders(t.meta().var_orders@)
                &&& orders_set(t.meta().var_orders@) == orders_view(var_orders@).to_set()
                &&& t.entry_list().len() == 0
                &&& t.update_log().len() == 0
            }),
            forall|n: Seq<char>| n != name@ ==> #[trigger] final(self).table_for(n) == old(self).table_for(n),
    {
        proof {
            use_type_invariant(&*self);
        }
        let (k, found) = crate::sorted::sorted_position(&self.names, name);
        if found {
            return;
        }
        let table = PcjTable {
            metadata: PcjMetadata::new(sparql, 0, var_orders),
            entries: Vec::new(),
            cardinality_updates: Vec::new(),
        };
        let ghost old_names = views(self.names@);
        let ghost old_tables = self.tables@;
        proof {
            crate::sorted::lemma_insert_sorted(old_names, name@, k as int);
        }
        let mut taken = InMemoryPcjTables { names: Vec::new(), tables: Vec::new() };
        std::mem::swap(&mut taken, self);
        let InMemoryPcjTables { mut names, mut tables } = taken;
        names.insert(k, to_owned(name));
        tables.insert(k, table);
        assert(views(names@) =~= old_names.insert(k as int, name@));
        *self = InMemoryPcjTables { names, tables };
        proof {
            let s = views(self.names@);
            assert forall|n: Seq<char>| n != name@ implies #[trigger] self.table_for(n) == old(self).table_for(n) by {
                if old_names.contains(n) {
                    let j = old_names.index_of(n);
                    old_names.index_of_first_ensures(n);
                    let j2 = if j < k { j } else { j + 1 };
                    assert(s[j2] == n);
                    s.index_of_first_ensures(n);
                    let i2 = s.index_of(n);
                    if i2 != j2 {
                        crate::sorted::lemma_sorted_distinct(s, i2, j2);
                    }
                } else if s.contains(n) {
                    let i2 = choose|i2: int| 0 <= i2 < s.len() && s[i2] == n;
                    if i2 < k {
                        assert(old_names[i2] == n);
                    } else if i2 > k {
                        assert(old_names[i2 - 1] == n);
                    }
                }
            }
            assert(s[k as int] == name@);
            s.index_of_first_ensures(name@);
            let i2 = s.index_of(name@);
            if i2 != k {
                crate::sorted::lemma_sorted_distinct(s, i2, k as int);
            }
        }
    }

    /// The metadata of the named table.
    pub fn get_pcj_metadata(&self, name: &str) -> (r: Result<PcjMetadata, String>)
        ensures
            r is Ok <==> self.table_for(name@) is Some,
            r matches Ok(m) ==> m.sparql@ == self.table_for(name@)->0.meta().sparql@ && m.cardinality
                == self.table_for(name@)->0.meta().cardinality && orders_view(m.var_orders@)
                == orders_view(self.table_for(name@)->0.meta().var_orders@),
            r matches Err(e) ==> e@ == "PCJ table does not exist: "@ + name@,
    {
        match self.index_of_table(name) {
            Some(k) => Ok(self.tables[k].metadata.clone()),
            None => Err(concat("PCJ table does not exist: ", name)),
        }
    }

    /// The named table.
    pub fn table(&self, name: &str) -> (r: Result<&PcjTable, String>)
        ensures
            r is Ok <==> self.table_for(name@) is Some,
            r matches Ok(t) ==> Some(*t) == self.table_for(name@),
            r matches Err(e) ==> e@ == "PCJ table does not exist: "@ + name@,
    {
        match self.index_of_table(name) {
            Some(k) => Ok(&self.tables[k]),
            None => Err(concat("PCJ table does not exist: ", name)),
        }
    }

    /// Removes the named table; whether there was one.
    pub fn drop_pcj_table(&mut self, name: &str) -> (r: bool)
        ensures
            r == (old(self).table_for(name@) is Some),
            final(self).table_for(name@) is None,
            forall|n: Seq<char>| n != name@ ==> #[trigger] final(self).table_for(n) == old(self).table_for(n),
    {
        proof {
            use_type_invariant(&*self);
        }
        let k = match self.index_of_table(name) {
            Some(k) => k,
            None => return false,
        };
        let ghost old_names = views(self.names@);
        let mut taken = InMemoryPcjTables { names: Vec::new(), tables: Vec::new() };
        std::mem::swap(&mut taken, self);
        let InMemoryPcjTables { mut names, mut tables } = taken;
        names.remove(k);
        tables.remove(k);
        assert(views(names@) =~= old_names.remove(k as int));
        proof {
            assert forall|a: int, b: int| 0 <= a < b < views(names@).len() implies crate::text::lex_lt(#[trigger] views(names@)[a], #[trigger] views(names@)[b]) by {
                let a2 = if a < k { a } else { a + 1 };
                let b2 = if b < k { b } else { b + 1 };
                assert(views(names@)[a] == old_names[a2]);
                assert(views(names@)[b] == old_names[b2]);
            }
        }
        *self = InMemoryPcjTables { names, tables };
        proof {
            let s = views(self.names@);
            if s.contains(name@) {
                let i2 = choose|i2: int| 0 <= i2 < s.len() && s[i2] == name@;
                let j2 = if i2 < k { i2 } else { i2 + 1 };
                assert(old_names[j2] == name@);
                crate::sorted::lemma_sorted_distinct(old_names, j2, k as int);
            }
            assert forall|n: Seq<char>| n != name@ implies #[trigger] self.table_for(n) == old(self).table_for(n) by {
                if old_names.contains(n) {
                    let j = old_names.index_of(n);
                    old_names.index_of_first_ensures(n);
                    assert(j != k);
                    let j2 = if j < k { j } else { j - 1 };
                    assert(s[j2] == n);
                    s.index_of_first_ensures(n);
                    let i2 = s.index_of(n);
                    if i2 != j2 {
                        crate::sorted::lemma_sorted_distinct(s, i2, j2);
                    }
                } else if s.contains(n) {
                    let i2 = choose|i2: int| 0 <= i2 < s.len() && s[i2] == n;
                    let j2 = if i2 < k { i2 } else { i2 + 1 };
                    assert(old_names[j2] == n);
                }
            }
        }
        true
    }

    /// The names of the tables that start with the prefix and `INDEX`, in increasing order.
    pub fn list_pcj_tables(&self, rya_prefix: &str) -> (r: Vec<String>)
        ensures
            views(r@) == self.table_names().filter(crate::text::starts_with_pred(rya_prefix@ + "INDEX"@)),
    {
        let prefix = concat(rya_prefix, "INDEX");
        let ghost p = crate::text::starts_with_pred(prefix@);
        let ghost s = views(self.names@);
        let mut out: Vec<String> = Vec::new();
        let mut i: usize = 0;
        proof {
            crate::seqs::lemma_filter_take_zero(s, p);
        }
        while i < self.names.len()
            invariant
                i <= self.names@.len(),
                s == views(self.names@),
                p == crate::text::starts_with_pred(prefix@),
                views(out@) == s.take(i as int).filter(p),
            decreases self.names.len() - i,
        {
            proof {
                crate::seqs::lemma_filter_take_step(s, p, i as int);
            }
            if crate::text::starts_with(self.names[i].as_str(), prefix.as_str()) {
                let ghost before = out@;
                out.push(self.names[i].clone());
                assert(views(out@) =~= views(before).push(s[i as int]));
            }
            i = i + 1;
        }
        proof {
            crate::seqs::lemma_take_full(s);
        }
        out
    }

    /// The PCJ ids of the listed tables, in the same order.
    pub fn list_pcj_ids(&self, rya_prefix: &str) -> (r: Vec<String>)
        ensures
            views(r@) == pcj_ids_spec(self.table_names().filter(crate::text::starts_with_pred(rya_prefix@ + "INDEX"@))),
    {
        let names = self.list_pcj_tables(rya_prefix);
        let ghost ns = views(names@);
        let mut out: Vec<String> = Vec::new();
        let mut i: usize = 0;
        assert(ns.take(0) =~= Seq::<Seq<char>>::empty());
        while i < names.len()
            invariant
                i <= names@.len(),
                ns == views(names@),
                views(out@) == pcj_ids_spec(ns.take(i as int)),
            decreases names.len() - i,
        {
            assert(ns.take(i + 1).drop_last() =~= ns.take(i as int));
            assert(ns.take(i + 1).last() == names@[i as int]@);
            match pcj_id_from_table_name(names[i].as_str()) {
                Some(id) => {
                    let ghost before = out@;
                    let ghost idm = id@;
                    out.push(id);
                    assert(views(out@) =~= views(before).push(idm));
                },
                None => {},
            }
            i = i + 1;
        }
        assert(ns.take(i as int) =~= ns);
        out
    }
}

/// The PCJ ids of table names that have one, in order.
pub open spec fn pcj_ids_spec(names: Seq<Seq<char>>) -> Seq<Seq<char>>
    decreases names.len(),
{
    if names.len() == 0 {
        Seq::empty()
    } else {
        pcj_ids_spec(names.drop_last()) + match crate::words::split_once_str_spec(names.last(), "INDEX_"@) {
            Some((_, id)) => seq![id],
            None => Seq::empty(),
        }
    }
}


/// The elements of a concatenation are those of either part.
pub proof fn lemma_concat_to_set<A>(a: Seq<A>, b: Seq<A>)
    ensures
        (a + b).to_set() == a.to_set() + b.to_set(),
{
    assert forall|x: A| (a + b).to_set().contains(x) == (a.to_set() + b.to_set()).contains(x) by {
        if (a + b).to_set().contains(x) {
            let k = choose|k: int| 0 <= k < (a + b).len() && (a + b)[k] == x;
            if k < a.len() {
                assert(a[k] == x);
            } else {
                assert(b[k - a.len()] == x);
            }
        }
        if a.to_set().contains(x) {
            let k = choose|k: int| 0 <= k < a.len() && a[k] == x;
            assert((a + b)[k] == x);
        }
        if b.to_set().contains(x) {
            let k = choose|k: int| 0 <= k < b.len() && b[k] == x;
            assert((a + b)[a.len() + k] == x);
        }
    }
    assert((a + b).to_set() =~= a.to_set() + b.to_set());
}

/// The full row of a result: its bindings in the order of their names.
pub open spec fn full_row(x: VisibilityBindingSet) -> Option<Seq<u8>> {
    row_bytes(x.bindings@, names_of(x.bindings.pairs()))
}

/// The row of a binding set in an order, `None` when serialization fails.
pub open spec fn serialized(m: Map<Seq<char>, RyaTypeModel>, order: Seq<Seq<char>>) -> Option<Seq<u8>> {
    if names_in_order(m, order) {
        row_bytes(m, order)
    } else {
        None
    }
}

/// The entries a result is stored as, one per order; `None` when a row cannot be made.
pub open spec fn result_entries(x: VisibilityBindingSet, orders: Seq<Seq<Seq<char>>>) -> Option<Seq<EntryModel>>
    decreases orders.len(),
{
    if orders.len() == 0 {
        Some(Seq::empty())
    } else {
        match result_entries(x, orders.drop_last()) {
            None => None,
            Some(prev) => match (serialized(x.bindings@, orders.last()), full_row(x)) {
                (Some(row), Some(full)) => Some(prev.push((row, join_spec(orders.last(), VARIABLE_ORDER_DELIMITER@), x.visibility@, full))),
                _ => None,
            },
        }
    }
}

/// The entries of all results, result by result.
pub open spec fn all_entries(rs: Seq<VisibilityBindingSet>, orders: Seq<Seq<Seq<char>>>) -> Option<Seq<EntryModel>>
    decreases rs.len(),
{
    if rs.len() == 0 {
        Some(Seq::empty())
    } else {
        match (all_entries(rs.drop_last(), orders), result_entries(rs.last(), orders)) {
            (Some(a), Some(b)) => Some(a + b),
            _ => None,
        }
    }
}

pub proof fn lemma_result_entries_prefix_none(x: VisibilityBindingSet, orders: Seq<Seq<Seq<char>>>, j: int)
    requires
        0 <= j <= orders.len(),
        result_entries(x, orders.take(j)) is None,
    ensures
        result_entries(x, orders) is None,
    decreases orders.len(),
{
    if j == orders.len() {
        assert(orders.take(j) =~= orders);
    } else {
        assert(orders.drop_last().take(j) =~= orders.take(j));
        lemma_result_entries_prefix_none(x, orders.drop_last(), j);
    }
}

pub proof fn lemma_all_entries_prefix_none(rs: Seq<VisibilityBindingSet>, orders: Seq<Seq<Seq<char>>>, i: int)
    requires
        0 <= i <= rs.len(),
        all_entries(rs.take(i), orders) is None,
    ensures
        all_entries(rs, orders) is None,
    decreases rs.len(),
{
    if i == rs.len() {
        assert(rs.take(i) =~= rs);
    } else {
        assert(rs.drop_last().take(i) =~= rs.take(i));
        lemma_all_entries_prefix_none(rs.drop_last(), orders, i);
    }
}

/// A table after results were added: same query and orders, the count grown by the number of
/// results, the change logged, and the results' entries added.
pub open spec fn added_to(before: PcjTable, after: PcjTable, rs: Seq<VisibilityBindingSet>, strategy: PcjCardinalityUpdateStrategy) -> bool {
    let os = orders_view(before.meta().var_orders@);
    &&& after.meta().sparql@ == before.meta().sparql@
    &&& orders_view(after.meta().var_orders@) == os
    &&& after.meta().cardinality == before.meta().cardinality + rs.len()
    &&& after.update_log() == before.update_log().push(
        PcjCardinalityUpdate {
            strategy,
            previous_cardinality: before.meta().cardinality,
            delta: rs.len() as u64,
            new_cardinality: (before.meta().cardinality + rs.len()) as u64,
        },
    )
    &&& entries_set(after.entry_list()) == entries_set(before.entry_list()) + all_entries(rs, os)->0.to_set()
}

/// The entries of a table after a result is added: the old ones and the result's.
fn add_result_entries(entries: &mut Vec<PcjEntry>, x: &VisibilityBindingSet, orders: &Vec<VariableOrder>) -> (r: Result<(), String>)
    requires
        distinct_entries(old(entries)@),
    ensures
        distinct_entries(final(entries)@),
        r is Ok <==> result_entries(*x, orders_view(orders@)) is Some,
        r is Ok ==> entries_set(final(entries)@) == entries_set(old(entries)@) + result_entries(*x, orders_view(orders@))->0.to_set(),
{
    let ghost os = orders_view(orders@);
    let ghost start = entries_set(entries@);
    let mut j: usize = 0;
    assert(os.take(0) =~= Seq::<Seq<Seq<char>>>::empty());
    assert(entries_set(entries@) =~= start + Seq::<EntryModel>::empty().to_set());
    while j < orders.len()
        invariant
            j <= orders@.len(),
            os == orders_view(orders@),
            start == entries_set(old(entries)@),
            distinct_entries(entries@),
            result_entries(*x, os.take(j as int)) is Some,
            entries_set(entries@) == start + result_entries(*x, os.take(j as int))->0.to_set(),
        decreases orders.len() - j,
    {
        assert(os.take(j + 1).drop_last() =~= os.take(j as int));
        assert(os.take(j + 1).last() == orders@[j as int]@);
        let ghost prev = result_entries(*x, os.take(j as int))->0;
        let row = match serialize_binding_set(&x.bindings, &orders[j]) {
            Ok(b) => b,
            Err(e) => {
                proof {
                    lemma_result_entries_prefix_none(*x, os, j + 1);
                }
                return Err(e);
            },
        };
        let full = match serialize_full_binding_set(&x.bindings) {
            Ok(b) => b,
            Err(e) => {
                proof {
                    lemma_result_entries_prefix_none(*x, os, j + 1);
                }
                return Err(e);
            },
        };
        let entry = PcjEntry {
            row,
            column_family: orders[j].to_string(),
            column_visibility: x.visibility.clone(),
            value: full,
        };
        let ghost em = entry_model(entry);
        push_entry(entries, entry);
        proof {
            assert(result_entries(*x, os.take(j + 1))->0 == prev.push(em));
            lemma_push_to_set(prev, em);
        }
        j = j + 1;
    }
    assert(os.take(j as int) =~= os);
    Ok(())
}

impl InMemoryPcjTables {
    /// Adds results without visibility to the named table.
    pub fn add_results(&mut self, name: &str, results: Vec<BindingSet>) -> (r: Result<(), String>)
        requires
            old(self).table_for(name@) is Some ==> old(self).table_for(name@)->0.meta().cardinality
                + results@.len() <= u64::MAX,
        ensures
            old(self).table_for(name@) is None ==> (r matches Err(e) && e@ == "PCJ table does not exist: "@ + name@),
            r is Ok ==> final(self).table_for(name@)->0.meta().cardinality == old(self).table_for(name@)->0.meta().cardinality
                + results@.len(),
            forall|n: Seq<char>| n != name@ ==> #[trigger] final(self).table_for(n) == old(self).table_for(n),
    {
        let mut rows: Vec<VisibilityBindingSet> = Vec::new();
        let mut results = results;
        let n = results.len();
        let mut i: usize = 0;
        while i < n
            invariant
                i <= n,
                n == results@.len(),
                rows@.len() == i,
            decreases n - i,
        {
            let b = results[i].clone();
            rows.push(VisibilityBindingSet::no_visibility(b));
            i = i + 1;
        }
        self.add_visibility_results_with_strategy(name, rows, PcjCardinalityUpdateStrategy::ConditionalWriter)
    }

    /// Adds visible results to the named table, written by the conditional writer.
    pub fn add_visibility_results(&mut self, name: &str, results: Vec<VisibilityBindingSet>) -> (r: Result<(), String>)
        requires
            old(self).table_for(name@) is Some ==> old(self).table_for(name@)->0.meta().cardinality
                + results@.len() <= u64::MAX,
        ensures
            old(self).table_for(name@) is None ==> (r matches Err(e) && e@ == "PCJ table does not exist: "@ + name@),
            r is Ok <==> old(self).table_for(name@) is Some && all_entries(results@, orders_view(old(self).table_for(name@)->0.meta().var_orders@)) is Some,
            r is Ok ==> final(self).table_for(name@) is Some,
            r is Ok ==> added_to(old(self).table_for(name@)->0, final(self).table_for(name@)->0, results@, PcjCardinalityUpdateStrategy::ConditionalWriter),
            forall|n: Seq<char>| n != name@ ==> #[trigger] final(self).table_for(n) == old(self).table_for(n),
    {
        self.add_visibility_results_with_strategy(name, results, PcjCardinalityUpdateStrategy::ConditionalWriter)
    }

    /// Adds visible results to the named table: each result is stored once per order of the
    /// table, the count grows by the number of results and the change is logged.
    pub fn add_visibility_results_with_strategy(&mut self, name: &str, results: Vec<VisibilityBindingSet>, strategy: PcjCardinalityUpdateStrategy) -> (r: Result<(), String>)
        requires
            old(self).table_for(name@) is Some ==> old(self).table_for(name@)->0.meta().cardinality
                + results@.len() <= u64::MAX,
        ensures
            old(self).table_for(name@) is None ==> (r matches Err(e) && e@ == "PCJ table does not exist: "@ + name@),
            r is Ok <==> old(self).table_for(name@) is Some && all_entries(results@, orders_view(old(self).table_for(name@)->0.meta().var_orders@)) is Some,
            r is Ok ==> final(self).table_for(name@) is Some,
            r is Ok ==> added_to(old(self).table_for(name@)->0, final(self).table_for(name@)->0, results@, strategy),
            r is Ok ==> final(self).table_for(name@)->0.meta().cardinality == old(self).table_for(name@)->0.meta().cardinality
                + results@.len(),
            forall|n: Seq<char>| n != name@ ==> #[trigger] final(self).table_for(n) == old(self).table_for(n),
    {
        proof {
            use_type_invariant(&*self);
        }
        let k = match self.index_of_table(name) {
            Some(k) => k,
            None => return Err(concat("PCJ table does not exist: ", name)),
        };
        let ghost old_table = self.tables@[k as int];
        let mut taken = InMemoryPcjTables { names: Vec::new(), tables: Vec::new() };
        std::mem::swap(&mut taken, self);
        let InMemoryPcjTables { names, mut tables } = taken;
        let mut table = tables.remove(k);
        let ghost os = orders_view(table.metadata.var_orders@);
        proof {
            use_type_invariant(&table);
        }
        let mut entries: Vec<PcjEntry> = Vec::new();
        std::mem::swap(&mut entries, &mut table.entries);
        let mut result = Ok(());
        let mut i: usize = 0;
        assert(results@.take(0) =~= Seq::<VisibilityBindingSet>::empty());
        assert(entries_set(entries@) =~= entries_set(old_table.entries@) + Seq::<EntryModel>::empty().to_set());
        while i < results.len()
            invariant_except_break
                result is Ok,
                all_entries(results@.take(i as int), os) is Some,
                entries_set(entries@) == entries_set(old_table.entries@) + all_entries(results@.take(i as int), os)->0.to_set(),
            invariant
                i <= results@.len(),
                os == orders_view(table.metadata.var_orders@),
                distinct_entries(entries@),
            ensures
                result is Ok ==> i == results@.len() && all_entries(results@.take(i as int), os) is Some
                    && entries_set(entries@) == entries_set(old_table.entries@) + all_entries(results@.take(i as int), os)->0.to_set(),
                result is Err ==> all_entries(results@, os) is None,
            decreases results.len() - i,
        {
            assert(results@.take(i + 1).drop_last() =~= results@.take(i as int));
            assert(results@.take(i + 1).last() == results@[i as int]);
            let ghost prev = all_entries(results@.take(i as int), os)->0;
            match add_result_entries(&mut entries, &results[i], &table.metadata.var_orders) {
                Ok(()) => {
                    proof {
                        let b = result_entries(results@[i as int], os)->0;
                        lemma_concat_to_set(prev, b);
                        assert(all_entries(results@.take(i + 1), os) == Some(prev + b));
                        assert(entries_set(entries@) =~= entries_set(old_table.entries@) + (prev + b).to_set());
                    }
                },
                Err(e) => {
                    proof {
                        lemma_all_entries_prefix_none(results@, os, i + 1);
                    }
                    result = Err(e);
                    break;
                },
            }
            i = i + 1;
        }
        let PcjTable { metadata, entries: _, cardinality_updates } = table;
        let mut metadata = metadata;
        let mut cardinality_updates = cardinality_updates;
        if result.is_ok() {
            proof {
                assert(results@.take(i as int) =~= results@);
            }
            let previous_cardinality = metadata.cardinality;
            let delta = results.len() as u64;
            let new_cardinality = previous_cardinality + delta;
            metadata = metadata.with_cardinality(new_cardinality);
            cardinality_updates.push(PcjCardinalityUpdate {
                strategy,
                previous_cardinality,
                delta,
                new_cardinality,
            });
        }
        let table = PcjTable { metadata, entries, cardinality_updates };
        tables.insert(k, table);
        *self = InMemoryPcjTables { names, tables };
        proof {
            assert(self.tables@ =~= old(self).tables@.update(k as int, self.tables@[k as int]));
            let s = views(self.names@);
            assert(s == views(old(self).names@));
            s.index_of_first_ensures(name@);
            let ix = s.index_of(name@);
            assert(s[k as int] == name@);
            if ix != k {
                crate::sorted::lemma_sorted_distinct(s, ix, k as int);
            }
            assert(self.table_for(name@) == Some(self.tables@[k as int]));
            assert forall|n: Seq<char>| n != name@ implies #[trigger] self.table_for(n) == old(self).table_for(n) by {
                if s.contains(n) {
                    s.index_of_first_ensures(n);
                    let jx = s.index_of(n);
                    assert(jx != k);
                }
            }
        }
        result
    }
}


impl InMemoryPcjTables {
    /// Removes every result of the named table and sets its count to zero.
    pub fn purge_pcj_table(&mut self, name: &str) -> (r: Result<(), String>)
        ensures
            r is Ok <==> old(self).table_for(name@) is Some,
            r is Err ==> final(self).table_for(name@) == old(self).table_for(name@),
            r matches Err(e) ==> e@ == "PCJ table does not exist: "@ + name@,
            r is Ok ==> ({
                let before = old(self).table_for(name@)->0;
                let after = final(self).table_for(name@)->0;
                &&& final(self).table_for(name@) is Some
                &&& after.entry_list().len() == 0
                &&& after.meta().cardinality == 0
                &&& after.meta().sparql@ == before.meta().sparql@
                &&& orders_view(after.meta().var_orders@) == orders_view(before.meta().var_orders@)
                &&& after.update_log() == before.update_log()
            }),
            forall|n: Seq<char>| n != name@ ==> #[trigger] final(self).table_for(n) == old(self).table_for(n),
    {
        proof {
            use_type_invariant(&*self);
        }
        let k = match self.index_of_table(name) {
            Some(k) => k,
            None => return Err(concat("PCJ table does not exist: ", name)),
        };
        let mut taken = InMemoryPcjTables { names: Vec::new(), tables: Vec::new() };
        std::mem::swap(&mut taken, self);
        let InMemoryPcjTables { names, mut tables } = taken;
        let table = tables.remove(k);
        let PcjTable { metadata, entries: _, cardinality_updates } = table;
        let table = PcjTable {
            metadata: metadata.with_cardinality(0),
            entries: Vec::new(),
            cardinality_updates,
        };
        tables.insert(k, table);
        *self = InMemoryPcjTables { names, tables };
        proof {
            let s = views(self.names@);
            s.index_of_first_ensures(name@);
            let ix = s.index_of(name@);
            if ix != k {
                crate::sorted::lemma_sorted_distinct(s, ix, k as int);
            }
            assert forall|n: Seq<char>| n != name@ implies #[trigger] self.table_for(n) == old(self).table_for(n) by {
                if s.contains(n) {
                    s.index_of_first_ensures(n);
                    let jx = s.index_of(n);
                    assert(jx != k);
                }
            }
        }
        Ok(())
    }
}

/// The shape of a parsed query: projections, modifiers, joins and statement patterns.
pub enum ParsedTupleExpr {
    Projection { projection: ParsedProjection, arg: Box<ParsedTupleExpr> },
    Distinct(Box<ParsedTupleExpr>),
    Reduced(Box<ParsedTupleExpr>),
    Slice(Box<ParsedTupleExpr>),
    Filter(Box<ParsedTupleExpr>),
    Join(Box<ParsedTupleExpr>, Box<ParsedTupleExpr>),
    StatementPattern,
}

/// The projected variables of a query, in increasing order.
pub struct ParsedProjection {
    variables: Vec<String>,
}

impl ParsedProjection {
    pub closed spec fn names(self) -> Seq<Seq<char>> {
        views(self.variables@)
    }

    #[verifier::type_invariant]
    closed spec fn inv(self) -> bool {
        crate::sorted::strictly_sorted(views(self.variables@))
    }

    /// The projection of the distinct given variables.
    pub fn new(variables: Vec<String>) -> (r: Self)
        ensures
            crate::sorted::strictly_sorted(r.names()),
            r.names().to_set() == views(variables@).to_set(),
    {
        let mut sorted: Vec<String> = Vec::new();
        let mut i: usize = 0;
        assert(views(sorted@).to_set() =~= views(variables@).take(0).to_set());
        while i < variables.len()
            invariant
                i <= variables@.len(),
                crate::sorted::strictly_sorted(views(sorted@)),
                views(sorted@).to_set() == views(variables@).take(i as int).to_set(),
            decreases variables.len() - i,
        {
            let v = variables[i].clone();
            let ghost vm = v@;
            crate::sorted::insert_sorted_string(&mut sorted, v);
            proof {
                assert(views(variables@).take(i + 1) =~= views(variables@).take(i as int).push(vm));
                lemma_push_to_set(views(variables@).take(i as int), vm);
            }
            i = i + 1;
        }
        assert(views(variables@).take(i as int) =~= views(variables@));
        ParsedProjection { variables: sorted }
    }

    /// The projected variables, in increasing order.
    pub fn variables(&self) -> (r: &Vec<String>)
        ensures
            views(r@) == self.names(),
            crate::sorted::strictly_sorted(views(r@)),
    {
        proof {
            use_type_invariant(self);
        }
        &self.variables
    }
}

/// A SPARQL query with the shape it was parsed to.
pub struct ParsedQuery {
    sparql: String,
    tuple_expr: ParsedTupleExpr,
}

/// The first projection met in a pre-order walk of the shape.
pub open spec fn find_projection_spec(e: ParsedTupleExpr) -> Option<ParsedProjection>
    decreases e,
{
    match e {
        ParsedTupleExpr::Projection { projection, arg } => Some(projection),
        ParsedTupleExpr::Distinct(a) => find_projection_spec(*a),
        ParsedTupleExpr::Reduced(a) => find_projection_spec(*a),
        ParsedTupleExpr::Slice(a) => find_projection_spec(*a),
        ParsedTupleExpr::Filter(a) => find_projection_spec(*a),
        ParsedTupleExpr::Join(l, r) => match find_projection_spec(*l) {
            Some(p) => Some(p),
            None => find_projection_spec(*r),
        },
        ParsedTupleExpr::StatementPattern => None,
    }
}

fn find_projection_in_expr(expr: &ParsedTupleExpr) -> (r: Option<&ParsedProjection>)
    ensures
        match r {
            Some(p) => find_projection_spec(*expr) == Some(*p),
            None => find_projection_spec(*expr) is None,
        },
    decreases expr,
{
    match expr {
        ParsedTupleExpr::Projection { projection, .. } => Some(projection),
        ParsedTupleExpr::Distinct(arg) => find_projection_in_expr(arg),
        ParsedTupleExpr::Reduced(arg) => find_projection_in_expr(arg),
        ParsedTupleExpr::Slice(arg) => find_projection_in_expr(arg),
        ParsedTupleExpr::Filter(arg) => find_projection_in_expr(arg),
        ParsedTupleExpr::Join(left, right) => match find_projection_in_expr(left) {
            Some(p) => Some(p),
            None => find_projection_in_expr(right),
        },
        ParsedTupleExpr::StatementPattern => None,
    }
}

/// Finds projections in parsed queries.
#[derive(Clone, Copy, Debug, PartialEq, Eq, Structural)]
pub struct ParsedQueryUtil;

impl ParsedQueryUtil {
    /// The first projection of the query's shape.
    pub fn find_projection<'a>(&self, query: &'a ParsedQuery) -> (r: Option<&'a ParsedProjection>)
        ensures
            match r {
                Some(p) => find_projection_spec(query.shape()) == Some(*p),
                None => find_projection_spec(query.shape()) is None,
            },
    {
        find_projection_in_expr(query.tuple_expr())
    }
}

/// The projected names of a select clause: each word that starts with `?`, without the `?`
/// and trailing characters other than ASCII letters, digits and `_`, when something is left.
pub open spec fn select_vars_spec(tokens: Seq<Seq<char>>) -> Set<Seq<char>> {
    vars_upto(tokens, tokens.len() as int)
}

/// The projected name of one select-clause word, if it names one.
pub open spec fn var_of(t: Seq<char>) -> Option<Seq<char>> {
    if t.len() > 0 && t[0] == '?' && crate::text::trim_end_non_ident_spec(t.drop_first()).len() > 0 {
        Some(crate::text::trim_end_non_ident_spec(t.drop_first()))
    } else {
        None
    }
}

/// The projected names of the first `n` words.
pub open spec fn vars_upto(ts: Seq<Seq<char>>, n: int) -> Set<Seq<char>> {
    Set::new(|v: Seq<char>| exists|k: int| 0 <= k < n && #[trigger] var_of(ts[k]) == Some(v))
}

pub proof fn lemma_vars_step(ts: Seq<Seq<char>>, n: int)
    requires
        0 <= n,
    ensures
        vars_upto(ts, n + 1) == match var_of(ts[n]) {
            Some(v) => vars_upto(ts, n).insert(v),
            None => vars_upto(ts, n),
        },
{
    let a = vars_upto(ts, n + 1);
    let b = match var_of(ts[n]) {
        Some(v) => vars_upto(ts, n).insert(v),
        None => vars_upto(ts, n),
    };
    assert forall|v: Seq<char>| a.contains(v) == b.contains(v) by {
        if a.contains(v) {
            let k = choose|k: int| 0 <= k < n + 1 && #[trigger] var_of(ts[k]) == Some(v);
            if k < n {
                assert(vars_upto(ts, n).contains(v));
            }
        }
        if vars_upto(ts, n).contains(v) {
            let k = choose|k: int| 0 <= k < n && #[trigger] var_of(ts[k]) == Some(v);
            assert(0 <= k < n + 1 && var_of(ts[k]) == Some(v));
        }
        if var_of(ts[n]) == Some(v) {
            assert(0 <= n < n + 1 && var_of(ts[n]) == Some(v));
        }
    }
    assert(a =~= b);
}

/// Where `SELECT` and `WHERE` first occur in the upper-cased query.
pub open spec fn select_where(s: Seq<char>) -> (Option<int>, Option<int>) {
    let upper = crate::text::to_ascii_uppercase_spec(s);
    (crate::words::first_occurrence(upper, "SELECT"@, 0), crate::words::first_occurrence(upper, "WHERE"@, 0))
}

/// The select clause of a query whose `SELECT` precedes its `WHERE`, trimmed.
pub open spec fn select_clause(s: Seq<char>) -> Seq<char> {
    let (a, b) = select_where(s);
    crate::words::trim_spec(s.subrange(a->0 + 6, b->0))
}

/// Whether the select clause starts with `DISTINCT`, in any case.
pub open spec fn clause_is_distinct(clause: Seq<char>) -> bool {
    let toks = crate::words::ws_tokens(clause);
    toks.len() > 0 && crate::text::to_ascii_lowercase_spec(toks[0]) == crate::text::to_ascii_lowercase_spec("DISTINCT"@)
}

/// The projected names of a query.
pub open spec fn query_vars(s: Seq<char>) -> Set<Seq<char>> {
    let c = select_clause(s);
    let rest = if clause_is_distinct(c) {
        crate::words::trim_spec(c.skip(8))
    } else {
        c
    };
    select_vars_spec(crate::words::ws_tokens(rest))
}

impl ParsedQuery {
    pub closed spec fn text(self) -> Seq<char> {
        self.sparql@
    }

    pub closed spec fn shape(self) -> ParsedTupleExpr {
        self.tuple_expr
    }

    pub fn new(sparql: &str, tuple_expr: ParsedTupleExpr) -> (r: Self)
        ensures
            r.text() == sparql@,
            r.shape() == tuple_expr,
    {
        ParsedQuery { sparql: to_owned(sparql), tuple_expr }
    }

    pub fn sparql(&self) -> (r: &str)
        ensures
            r@ == self.text(),
    {
        self.sparql.as_str()
    }

    pub fn tuple_expr(&self) -> (r: &ParsedTupleExpr)
        ensures
            *r == self.shape(),
    {
        &self.tuple_expr
    }

    /// Parses the shape of a `SELECT ... WHERE` query: a projection of its `?` variables over
    /// a statement pattern, under a `Distinct` when the clause starts with `DISTINCT`.
    pub fn parse_select_query_shape(sparql: &str) -> (r: Result<Self, String>)
        requires
            select_where(sparql@).0 is Some && select_where(sparql@).1 is Some ==> select_where(sparql@).0->0 + 6
                <= select_where(sparql@).1->0,
        ensures
            select_where(sparql@).0 is None ==> (r matches Err(e) && e@ == "Only SELECT query fixtures are supported"@),
            select_where(sparql@).0 is Some && select_where(sparql@).1 is None ==> (r matches Err(e) && e@ == "SELECT query fixture is missing WHERE"@),
            select_where(sparql@).0 is Some && select_where(sparql@).1 is Some ==> (r is Ok <==> !query_vars(sparql@).is_empty()),
            select_where(sparql@).0 is Some && select_where(sparql@).1 is Some ==> (r matches Err(e) ==> e@ == "SELECT query fixture does not project any variables"@),
            r matches Ok(q) ==> q.text() == sparql@ && ({
                let proj = |e: ParsedTupleExpr| e matches ParsedTupleExpr::Projection { projection, arg }
                    && projection.names().to_set() == query_vars(sparql@) && *arg == ParsedTupleExpr::StatementPattern;
                if clause_is_distinct(select_clause(sparql@)) {
                    q.shape() matches ParsedTupleExpr::Distinct(inner) && proj(*inner)
                } else {
                    proj(q.shape())
                }
            }),
    {
        let upper = crate::text::to_ascii_uppercase(sparql);
        let uc = crate::text::chars_of(upper.as_str());
        let sc = crate::text::chars_of(sparql);
        let select_pat = crate::text::chars_of("SELECT");
        let where_pat = crate::text::chars_of("WHERE");
        let select_pos = match find_occurrence(&uc, &select_pat) {
            Some(p) => p,
            None => return Err(to_owned("Only SELECT query fixtures are supported")),
        };
        let where_pos = match find_occurrence(&uc, &where_pat) {
            Some(p) => p,
            None => return Err(to_owned("SELECT query fixture is missing WHERE")),
        };
        proof {
            crate::words::lemma_first_occurrence(uc@, where_pat@, 0);
            reveal_strlit("WHERE");
        }
        assert(uc@.len() == sc@.len());
        let raw = crate::text::substring(sc.as_slice(), select_pos + 6, where_pos);
        let clause0 = crate::words::trim(raw.as_str());
        let toks0 = crate::words::split_whitespace(clause0.as_str());
        let is_distinct = toks0.len() > 0 && crate::text::eq_ignore_ascii_case(toks0[0].as_str(), "DISTINCT");
        let clause = if is_distinct {
            let cc = crate::text::chars_of(clause0.as_str());
            proof {
                lemma_distinct_prefix(clause0@);
            }
            let tail = crate::text::substring(cc.as_slice(), 8, cc.len());
            assert(tail@ =~= clause0@.skip(8));
            crate::words::trim(tail.as_str())
        } else {
            clause0
        };
        let tokens = crate::words::split_whitespace(clause.as_str());
        let mut vars: Vec<String> = Vec::new();
        let ghost ts = views(tokens@);
        let mut i: usize = 0;
        assert(views(vars@).to_set() =~= vars_upto(ts, 0));
        while i < tokens.len()
            invariant
                i <= tokens@.len(),
                ts == views(tokens@),
                views(vars@).to_set() == vars_upto(ts, i as int),
            decreases tokens.len() - i,
        {
            proof {
                lemma_vars_step(ts, i as int);
            }
            let tc = crate::text::chars_of(tokens[i].as_str());
            assert(ts[i as int] == tc@);
            if tc.len() > 0 && tc[0] == '?' {
                let rest = crate::text::substring(tc.as_slice(), 1, tc.len());
                assert(rest@ =~= ts[i as int].drop_first());
                let name = crate::text::trim_end_non_ident(rest.as_str());
                if name.unicode_len() > 0 {
                    let ghost nm = name@;
                    let ghost before = views(vars@);
                    vars.push(name);
                    proof {
                        assert(views(vars@) =~= before.push(nm));
                        lemma_push_to_set(before, nm);
                    }
                }
            }
            i = i + 1;
        }
        assert(views(vars@).to_set() =~= query_vars(sparql@));
        if vars.len() == 0 {
            assert(views(vars@).to_set() =~= Set::<Seq<char>>::empty());
            return Err(to_owned("SELECT query fixture does not project any variables"));
        }
        assert(views(vars@).to_set().contains(vars@[0]@)) by {
            assert(views(vars@)[0] == vars@[0]@);
        }
        let projection = ParsedProjection::new(vars);
        let projection_expr = ParsedTupleExpr::Projection {
            projection,
            arg: Box::new(ParsedTupleExpr::StatementPattern),
        };
        let tuple_expr = if is_distinct {
            ParsedTupleExpr::Distinct(Box::new(projection_expr))
        } else {
            projection_expr
        };
        Ok(ParsedQuery { sparql: to_owned(sparql), tuple_expr })
    }
}

/// A trimmed clause whose first word is `DISTINCT` in some case starts with those eight
/// characters.
proof fn lemma_distinct_prefix(c: Seq<char>)
    requires
        clause_is_distinct(c),
    ensures
        c.len() >= 8,
{
    reveal_strlit("DISTINCT");
    let toks = crate::words::ws_tokens(c);
    assert(crate::text::to_ascii_lowercase_spec(toks[0]).len() == toks[0].len());
    assert(crate::text::to_ascii_lowercase_spec("DISTINCT"@).len() == 8);
    lemma_first_token_len(c);
}

/// The first word of a text is no longer than the text.
proof fn lemma_first_token_len(c: Seq<char>)
    requires
        crate::words::ws_tokens(c).len() > 0,
    ensures
        crate::words::ws_tokens(c)[0].len() <= c.len(),
{
    let t = crate::words::trim_start_spec(c);
    crate::words::lemma_trim_start_len(c);
    let n = crate::words::ws_end(t, 0);
    crate::words::lemma_ws_end(t, 0);
}

fn find_occurrence(cs: &Vec<char>, ds: &Vec<char>) -> (r: Option<usize>)
    ensures
        match r {
            Some(k) => Some(k as int) == crate::words::first_occurrence(cs@, ds@, 0),
            None => crate::words::first_occurrence(cs@, ds@, 0) is None,
        },
{
    proof {
        crate::words::lemma_first_occurrence(cs@, ds@, 0);
    }
    let r = crate::text::find_chars_from(cs.as_slice(), ds.as_slice(), 0);
    proof {
        match r {
            Some(k) => {
                match crate::words::first_occurrence(cs@, ds@, 0) {
                    Some(k2) => {
                        if k2 < k {
                        } else if k2 > k {
                            assert(!crate::text::occurs_at(cs@, ds@, k as int));
                        }
                    },
                    None => {
                        assert(!crate::text::occurs_at(cs@, ds@, k as int));
                    },
                }
            },
            None => {
                match crate::words::first_occurrence(cs@, ds@, 0) {
                    Some(k2) => {
                        assert(crate::text::occurs_at(cs@, ds@, k2));
                    },
                    None => {},
                }
            },
        }
    }
    r
}


/// A term of a statement pattern: a variable or a constant value.
pub enum PatternTerm {
    Var(String),
    Constant(RyaType),
}

/// A pattern term as values.
pub enum TermModel {
    Var(Seq<char>),
    Constant(RyaTypeModel),
}

pub open spec fn term_view(t: PatternTerm) -> TermModel {
    match t {
        PatternTerm::Var(n) => TermModel::Var(n@),
        PatternTerm::Constant(v) => TermModel::Constant(v@),
    }
}

impl PatternTerm {
    pub fn same_as(&self, other: &PatternTerm) -> (r: bool)
        ensures
            r == (term_view(*self) == term_view(*other)),
    {
        match (self, other) {
            (PatternTerm::Var(a), PatternTerm::Var(b)) => str_eq(a.as_str(), b.as_str()),
            (PatternTerm::Constant(a), PatternTerm::Constant(b)) => a.same_as(b),
            _ => false,
        }
    }
}

impl Clone for PatternTerm {
    fn clone(&self) -> (r: Self)
        ensures
            term_view(r) == term_view(*self),
    {
        match self {
            PatternTerm::Var(n) => PatternTerm::Var(n.clone()),
            PatternTerm::Constant(v) => PatternTerm::Constant(v.clone()),
        }
    }
}

/// A statement pattern of three terms.
pub struct PcjStatementPattern {
    pub subject: PatternTerm,
    pub predicate: PatternTerm,
    pub object: PatternTerm,
}

pub type PatternModel = (TermModel, TermModel, TermModel);

pub open spec fn pattern_view(p: PcjStatementPattern) -> PatternModel {
    (term_view(p.subject), term_view(p.predicate), term_view(p.object))
}

pub open spec fn patterns_view(v: Seq<PcjStatementPattern>) -> Seq<PatternModel> {
    v.map_values(|p: PcjStatementPattern| pattern_view(p))
}

impl PcjStatementPattern {
    pub fn new(subject: PatternTerm, predicate: PatternTerm, object: PatternTerm) -> (r: Self)
        ensures
            pattern_view(r) == (term_view(subject), term_view(predicate), term_view(object)),
    {
        PcjStatementPattern { subject, predicate, object }
    }

    pub fn same_as(&self, other: &PcjStatementPattern) -> (r: bool)
        ensures
            r == (pattern_view(*self) == pattern_view(*other)),
    {
        self.subject.same_as(&other.subject) && self.predicate.same_as(&other.predicate)
            && self.object.same_as(&other.object)
    }
}

impl Clone for PcjStatementPattern {
    fn clone(&self) -> (r: Self)
        ensures
            pattern_view(r) == pattern_view(*self),
    {
        PcjStatementPattern {
            subject: self.subject.clone(),
            predicate: self.predicate.clone(),
            object: self.object.clone(),
        }
    }
}

/// The statement patterns that a precomputed join covers.
pub struct ExternalTupleSetPlan {
    pub patterns: Vec<PcjStatementPattern>,
}

impl Clone for ExternalTupleSetPlan {
    fn clone(&self) -> (r: Self)
        ensures
            patterns_view(r.patterns@) == patterns_view(self.patterns@),
    {
        ExternalTupleSetPlan { patterns: clone_patterns(&self.patterns) }
    }
}

fn clone_patterns(v: &Vec<PcjStatementPattern>) -> (r: Vec<PcjStatementPattern>)
    ensures
        patterns_view(r@) == patterns_view(v@),
{
    let mut out: Vec<PcjStatementPattern> = Vec::new();
    let mut i: usize = 0;
    while i < v.len()
        invariant
            i <= v@.len(),
            patterns_view(out@) == patterns_view(v@).take(i as int),
        decreases v.len() - i,
    {
        let p = v[i].clone();
        let ghost before = out@;
        let ghost pm = pattern_view(p);
        out.push(p);
        assert(patterns_view(out@) =~= patterns_view(before).push(pm));
        assert(patterns_view(v@).take(i + 1) =~= patterns_view(v@).take(i as int).push(pattern_view(v@[i as int])));
        i = i + 1;
    }
    assert(patterns_view(v@).take(i as int) =~= patterns_view(v@));
    out
}

/// Matching a query term against an index term under a variable mapping: constants must be
/// equal; an index variable must map to the query term, and is mapped to it when new.
pub open spec fn term_match(q: TermModel, i: TermModel, m: Map<Seq<char>, TermModel>) -> (bool, Map<Seq<char>, TermModel>) {
    match i {
        TermModel::Var(name) => if m.contains_key(name) {
            (m[name] == q, m)
        } else {
            (true, m.insert(name, q))
        },
        TermModel::Constant(b) => match q {
            TermModel::Constant(a) => (a == b, m),
            TermModel::Var(_) => (false, m),
        },
    }
}

/// Whether an index pattern matches a query pattern when its variables are renamed.
pub open spec fn pattern_match(c: PatternModel, p: PatternModel) -> bool {
    let (a, m1) = term_match(c.0, p.0, Map::empty());
    let (b, m2) = term_match(c.1, p.1, m1);
    let (d, m3) = term_match(c.2, p.2, m2);
    a && b && d
}

fn terms_match(query_term: &PatternTerm, index_term: &PatternTerm, mapping: &mut Vec<(String, PatternTerm)>) -> (r: bool)
    requires
        distinct_keys(old(mapping)@),
    ensures
        distinct_keys(final(mapping)@),
        (r, mapping_view(final(mapping)@)) == term_match(term_view(*query_term), term_view(*index_term), mapping_view(old(mapping)@))
            || (!r && !term_match(term_view(*query_term), term_view(*index_term), mapping_view(old(mapping)@)).0),
{
    match index_term {
        PatternTerm::Constant(b) => match query_term {
            PatternTerm::Constant(a) => a.same_as(b),
            PatternTerm::Var(_) => false,
        },
        PatternTerm::Var(name) => {
            let mut k: usize = 0;
            while k < mapping.len()
                invariant
                    k <= mapping@.len(),
                    mapping@ == old(mapping)@,
                    distinct_keys(mapping@),
                    term_view(*index_term) == TermModel::Var(name@),
                    forall|j: int| 0 <= j < k ==> (#[trigger] mapping@[j]).0@ != name@,
                decreases mapping.len() - k,
            {
                if str_eq(mapping[k].0.as_str(), name.as_str()) {
                    proof {
                        lemma_mapping_at(mapping@, k as int);
                    }
                    let r = mapping[k].1.same_as(query_term);
                    assert(mapping_view(mapping@).contains_key(name@));
                    assert(r == (mapping_view(mapping@)[name@] == term_view(*query_term)));
                    assert(term_match(term_view(*query_term), term_view(*index_term), mapping_view(mapping@)) == (r, mapping_view(mapping@)));
                    return r;
                }
                k = k + 1;
            }
            proof {
                lemma_mapping_absent(mapping@, name@);
            }
            let ghost before = mapping@;
            mapping.push((name.clone(), query_term.clone()));
            proof {
                lemma_mapping_push(before, name@, mapping@.last());
            }
            true
        },
    }
}

/// The keys of an association list are distinct.
pub open spec fn distinct_keys(v: Seq<(String, PatternTerm)>) -> bool {
    forall|i: int, j: int| 0 <= i < j < v.len() ==> (#[trigger] v[i]).0@ != (#[trigger] v[j]).0@
}

/// An association list as a map.
pub open spec fn mapping_view(v: Seq<(String, PatternTerm)>) -> Map<Seq<char>, TermModel> {
    Map::new(
        |k: Seq<char>| exists|i: int| 0 <= i < v.len() && (#[trigger] v[i]).0@ == k,
        |k: Seq<char>| term_view(v[choose|i: int| 0 <= i < v.len() && (#[trigger] v[i]).0@ == k].1),
    )
}

proof fn lemma_mapping_at(v: Seq<(String, PatternTerm)>, k: int)
    requires
        distinct_keys(v),
        0 <= k < v.len(),
    ensures
        mapping_view(v).contains_key(v[k].0@),
        mapping_view(v)[v[k].0@] == term_view(v[k].1),
{
    let key = v[k].0@;
    assert(v[k].0@ == key);
    let j = choose|i: int| 0 <= i < v.len() && (#[trigger] v[i]).0@ == key;
    if j != k {
        if j < k {
            assert(v[j].0@ != v[k].0@);
        } else {
            assert(v[k].0@ != v[j].0@);
        }
    }
}

proof fn lemma_mapping_absent(v: Seq<(String, PatternTerm)>, key: Seq<char>)
    requires
        forall|j: int| 0 <= j < v.len() ==> (#[trigger] v[j]).0@ != key,
    ensures
        !mapping_view(v).contains_key(key),
{
}

proof fn lemma_mapping_push(v: Seq<(String, PatternTerm)>, key: Seq<char>, e: (String, PatternTerm))
    requires
        distinct_keys(v),
        !mapping_view(v).contains_key(key),
        e.0@ == key,
    ensures
        distinct_keys(v.push(e)),
        mapping_view(v.push(e)) == mapping_view(v).insert(key, term_view(e.1)),
{
    let w = v.push(e);
    assert forall|i: int, j: int| 0 <= i < j < w.len() implies (#[trigger] w[i]).0@ != (#[trigger] w[j]).0@ by {
        if j == v.len() {
            assert(w[i] == v[i]);
        } else {
            assert(w[i] == v[i] && w[j] == v[j]);
        }
    }
    assert forall|k: Seq<char>| #[trigger] mapping_view(w).contains_key(k) == mapping_view(v).insert(key, term_view(e.1)).contains_key(k) by {
        if mapping_view(v).contains_key(k) {
            let i = choose|i: int| 0 <= i < v.len() && (#[trigger] v[i]).0@ == k;
            assert(w[i] == v[i]);
        }
        if k == key {
            assert(w[v.len() as int] == e);
        }
        if mapping_view(w).contains_key(k) {
            let i = choose|i: int| 0 <= i < w.len() && (#[trigger] w[i]).0@ == k;
            if i < v.len() {
                assert(w[i] == v[i]);
            }
        }
    }
    assert forall|k: Seq<char>| #[trigger] mapping_view(w).contains_key(k) implies mapping_view(w)[k] == mapping_view(v).insert(key, term_view(e.1))[k] by {
        if k == key {
            lemma_mapping_at(w, v.len() as int);
        } else {
            let i = choose|i: int| 0 <= i < w.len() && (#[trigger] w[i]).0@ == k;
            assert(i < v.len());
            assert(w[i] == v[i]);
            lemma_mapping_at(w, i);
            lemma_mapping_at(v, i);
        }
    }
    assert(mapping_view(w) =~= mapping_view(v).insert(key, term_view(e.1)));
}

fn matches_pattern_by_renaming(query: &Vec<PcjStatementPattern>, pattern: &PcjStatementPattern) -> (r: bool)
    ensures
        r == exists|i: int| 0 <= i < query@.len() && pattern_match(pattern_view(#[trigger] query@[i]), pattern_view(*pattern)),
{
    let mut i: usize = 0;
    while i < query.len()
        invariant
            i <= query@.len(),
            forall|j: int| 0 <= j < i ==> !pattern_match(pattern_view(#[trigger] query@[j]), pattern_view(*pattern)),
        decreases query.len() - i,
    {
        let c = &query[i];
        let mut mapping: Vec<(String, PatternTerm)> = Vec::new();
        proof {
            assert(mapping_view(mapping@) =~= Map::<Seq<char>, TermModel>::empty());
        }
        let ghost m0 = mapping_view(mapping@);
        let a = terms_match(&c.subject, &pattern.subject, &mut mapping);
        let ghost m1 = mapping_view(mapping@);
        let ok = if a {
            let b = terms_match(&c.predicate, &pattern.predicate, &mut mapping);
            if b {
                terms_match(&c.object, &pattern.object, &mut mapping)
            } else {
                false
            }
        } else {
            false
        };
        if ok {
            assert(pattern_match(pattern_view(query@[i as int]), pattern_view(*pattern)));
            return true;
        }
        i = i + 1;
    }
    false
}

/// The precomputed joins to use for a query, in the given order: an index is chosen when each of
/// its patterns is still uncovered or matches a query pattern after renaming, and then covers
/// its patterns.
pub fn choose_precomputed_join_sets(query: &Vec<PcjStatementPattern>, indexes: &[ExternalTupleSetPlan]) -> (r: Vec<ExternalTupleSetPlan>)
    ensures
        r@.map_values(|x: ExternalTupleSetPlan| patterns_view(x.patterns@)) == chosen_spec(
            patterns_view(query@),
            indexes@.map_values(|x: ExternalTupleSetPlan| patterns_view(x.patterns@)),
        ),
{
    let mut remaining = clone_patterns(query);
    let mut selected: Vec<ExternalTupleSetPlan> = Vec::new();
    let ghost q = patterns_view(query@);
    let ghost ix = indexes@.map_values(|x: ExternalTupleSetPlan| patterns_view(x.patterns@));
    let mut i: usize = 0;
    assert(ix.take(0) =~= Seq::<Seq<PatternModel>>::empty());
    assert(selected@.map_values(|x: ExternalTupleSetPlan| patterns_view(x.patterns@)) =~= Seq::<Seq<PatternModel>>::empty());
    while i < indexes.len()
        invariant
            i <= indexes@.len(),
            q == patterns_view(query@),
            ix == indexes@.map_values(|x: ExternalTupleSetPlan| patterns_view(x.patterns@)),
            (patterns_view(remaining@), selected@.map_values(|x: ExternalTupleSetPlan| patterns_view(x.patterns@))) == chosen_state(q, ix.take(i as int)),
        decreases indexes.len() - i,
    {
        assert(ix.take(i + 1).drop_last() =~= ix.take(i as int));
        assert(ix.take(i + 1).last() == patterns_view(indexes@[i as int].patterns@));
        let index = &indexes[i];
        let mut all = true;
        let mut k: usize = 0;
        while k < index.patterns.len()
            invariant
                k <= index.patterns@.len(),
                q == patterns_view(query@),
                all == forall|j: int| 0 <= j < k ==> covered(patterns_view(remaining@), q, #[trigger] pattern_view(index.patterns@[j])),
            decreases index.patterns.len() - k,
        {
            let p = &index.patterns[k];
            let in_remaining = contains_pattern(&remaining, p);
            let renamed = matches_pattern_by_renaming(query, p);
            proof {
                if renamed {
                    let i0 = choose|i0: int| 0 <= i0 < query@.len() && pattern_match(pattern_view(#[trigger] query@[i0]), pattern_view(*p));
                    assert(q[i0] == pattern_view(query@[i0]));
                }
                if exists|i0: int| 0 <= i0 < q.len() && pattern_match(#[trigger] q[i0], pattern_view(*p)) {
                    let i0 = choose|i0: int| 0 <= i0 < q.len() && pattern_match(#[trigger] q[i0], pattern_view(*p));
                    assert(q[i0] == pattern_view(query@[i0]));
                }
            }
            if !(in_remaining || renamed) {
                all = false;
            }
            k = k + 1;
        }
        proof {
            let (rem, sel) = chosen_state(q, ix.take(i as int));
            let idx = ix.take(i + 1).last();
            assert(idx == patterns_view(index.patterns@));
            if all {
                assert forall|j: int| 0 <= j < idx.len() implies covered(rem, q, #[trigger] idx[j]) by {
                    assert(idx[j] == pattern_view(index.patterns@[j]));
                }
            } else {
                let j = choose|j: int| 0 <= j < index.patterns@.len() && !covered(patterns_view(remaining@), q, #[trigger] pattern_view(index.patterns@[j]));
                assert(idx[j] == pattern_view(index.patterns@[j]));
            }
            assert(all == forall|j: int| 0 <= j < idx.len() ==> covered(rem, q, #[trigger] idx[j]));
        }
        if all {
            let ghost before_rem = patterns_view(remaining@);
            let mut k2: usize = 0;
            while k2 < index.patterns.len()
                invariant
                    k2 <= index.patterns@.len(),
                    patterns_view(remaining@) == remove_all(before_rem, patterns_view(index.patterns@).take(k2 as int)),
                decreases index.patterns.len() - k2,
            {
                assert(patterns_view(index.patterns@).take(k2 + 1).drop_last() =~= patterns_view(index.patterns@).take(k2 as int));
                assert(patterns_view(index.patterns@).take(k2 + 1).last() == pattern_view(index.patterns@[k2 as int]));
                remove_pattern(&mut remaining, &index.patterns[k2]);
                k2 = k2 + 1;
            }
            assert(patterns_view(index.patterns@).take(k2 as int) =~= patterns_view(index.patterns@));
            let ghost before_sel = selected@.map_values(|x: ExternalTupleSetPlan| patterns_view(x.patterns@));
            let chosen = index.clone();
            let ghost cm = patterns_view(chosen.patterns@);
            selected.push(chosen);
            assert(selected@.map_values(|x: ExternalTupleSetPlan| patterns_view(x.patterns@)) =~= before_sel.push(cm));
        }
        i = i + 1;
    }
    assert(ix.take(i as int) =~= ix);
    selected
}

/// Whether an index pattern may be covered: it is still uncovered, or matches a query pattern
/// after renaming.
pub open spec fn covered(remaining: Seq<PatternModel>, q: Seq<PatternModel>, p: PatternModel) -> bool {
    remaining.contains(p) || exists|i: int| 0 <= i < q.len() && pattern_match(#[trigger] q[i], p)
}

/// The patterns left after removing every copy of each of `ps`.
pub open spec fn remove_all(r: Seq<PatternModel>, ps: Seq<PatternModel>) -> Seq<PatternModel>
    decreases ps.len(),
{
    if ps.len() == 0 {
        r
    } else {
        remove_all(r, ps.drop_last()).filter(not_pattern(ps.last()))
    }
}

pub open spec fn not_pattern(p: PatternModel) -> spec_fn(PatternModel) -> bool {
    |x: PatternModel| x != p
}

/// The uncovered patterns and chosen indexes after considering the given indexes in order.
pub open spec fn chosen_state(q: Seq<PatternModel>, ix: Seq<Seq<PatternModel>>) -> (Seq<PatternModel>, Seq<Seq<PatternModel>>)
    decreases ix.len(),
{
    if ix.len() == 0 {
        (q, Seq::empty())
    } else {
        let (rem, sel) = chosen_state(q, ix.drop_last());
        let index = ix.last();
        if forall|j: int| 0 <= j < index.len() ==> covered(rem, q, #[trigger] index[j]) {
            (remove_all(rem, index), sel.push(index))
        } else {
            (rem, sel)
        }
    }
}

/// The chosen indexes for a query.
pub open spec fn chosen_spec(q: Seq<PatternModel>, ix: Seq<Seq<PatternModel>>) -> Seq<Seq<PatternModel>> {
    chosen_state(q, ix).1
}

fn contains_pattern(v: &Vec<PcjStatementPattern>, p: &PcjStatementPattern) -> (r: bool)
    ensures
        r == patterns_view(v@).contains(pattern_view(*p)),
{
    let mut i: usize = 0;
    while i < v.len()
        invariant
            i <= v@.len(),
            forall|j: int| 0 <= j < i ==> pattern_view(#[trigger] v@[j]) != pattern_view(*p),
        decreases v.len() - i,
    {
        if v[i].same_as(p) {
            assert(patterns_view(v@)[i as int] == pattern_view(*p));
            return true;
        }
        i = i + 1;
    }
    proof {
        if patterns_view(v@).contains(pattern_view(*p)) {
            let j = choose|j: int| 0 <= j < patterns_view(v@).len() && patterns_view(v@)[j] == pattern_view(*p);
            assert(pattern_view(v@[j]) == pattern_view(*p));
        }
    }
    false
}

fn remove_pattern(v: &mut Vec<PcjStatementPattern>, p: &PcjStatementPattern)
    ensures
        patterns_view(final(v)@) == patterns_view(old(v)@).filter(not_pattern(pattern_view(*p))),
{
    let ghost pred = not_pattern(pattern_view(*p));
    let ghost orig = patterns_view(v@);
    let mut out: Vec<PcjStatementPattern> = Vec::new();
    let mut i: usize = 0;
    proof {
        crate::seqs::lemma_filter_take_zero(orig, pred);
    }
    while i < v.len()
        invariant
            i <= v@.len(),
            orig == patterns_view(v@),
            v@ == old(v)@,
            pred == not_pattern(pattern_view(*p)),
            patterns_view(out@) == orig.take(i as int).filter(pred),
        decreases v.len() - i,
    {
        proof {
            crate::seqs::lemma_filter_take_step(orig, pred, i as int);
        }
        if !v[i].same_as(p) {
            let c = v[i].clone();
            let ghost before = out@;
            let ghost cm = pattern_view(c);
            out.push(c);
            assert(patterns_view(out@) =~= patterns_view(before).push(cm));
        }
        i = i + 1;
    }
    proof {
        crate::seqs::lemma_take_full(orig);
    }
    *v = out;
}

/// The value of an IRI; the text must be a valid IRI.
pub fn iri(value: &str) -> (r: RyaType)
    requires
        valid_iri_spec(value@),
    ensures
        r@ == iri_model(value@),
{
    match RyaIri::new(value) {
        Ok(i) => i.into_type(),
        Err(_) => RyaType::new(value),
    }
}

} // verus!

