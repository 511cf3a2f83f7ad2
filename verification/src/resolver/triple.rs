use vstd::prelude::*;

use vstd::utf8::{decode_utf8, encode_utf8, valid_utf8};

use crate::bytes::{
    extend_bytes, find_byte_from, first_byte_from, last_byte_before, lemma_first_byte_from,
    lemma_last_byte_before, rfind_byte, str_bytes, sub_bytes, utf8_decode, utf8_lossy,
    utf8_lossy_text,
};
use crate::domain::{
    RyaIri, RyaStatement, RyaStatementModel, RyaTypeModel, iri_model, opt_bytes_clone,
    opt_bytes_view, valid_iri_spec,
};
use crate::resolver::digest::{md5_hex, md5_hex_spec};
use crate::resolver::regex::{ALL_REGEX, limited_regex_matches, regex_matches};
use crate::resolver::{
    DELIM_BYTE, TYPE_DELIM_BYTE, deserialize, deserialize_panics, deserialize_spec, encoded_data,
    serialize_type, type_suffix,
};
use crate::text::{push_char, push_str, to_owned};

verus! {

/// The hashed-row prefix pattern: thirty-two hexadecimal digits and a NUL.
pub const HASHED_ALL_REGEX: &'static str = "([0-9a-f]{32})\0";

/// The byte that ends a hashed prefix range.
pub const LAST_BYTE: u8 = 0xff;

/// The three index tables.
#[derive(Clone, Copy, Debug, PartialEq, Eq, Hash, Structural)]
pub enum TableLayout {
    Spo,
    Po,
    Osp,
}

/// The strategies that scan a table for a triple pattern.
#[derive(Clone, Copy, Debug, PartialEq, Eq, Structural)]
pub enum TriplePatternStrategyKind {
    SpoWholeRow,
    PoWholeRow,
    NullRow,
    OspWholeRow,
    HashedSpoWholeRow,
    HashedPoWholeRow,
}

pub open spec fn layout_of(k: TriplePatternStrategyKind) -> TableLayout {
    match k {
        TriplePatternStrategyKind::SpoWholeRow | TriplePatternStrategyKind::NullRow
        | TriplePatternStrategyKind::HashedSpoWholeRow => TableLayout::Spo,
        TriplePatternStrategyKind::PoWholeRow | TriplePatternStrategyKind::HashedPoWholeRow =>
            TableLayout::Po,
        TriplePatternStrategyKind::OspWholeRow => TableLayout::Osp,
    }
}

pub open spec fn hashed_kind(k: TriplePatternStrategyKind) -> bool {
    k == TriplePatternStrategyKind::HashedSpoWholeRow || k
        == TriplePatternStrategyKind::HashedPoWholeRow
}

/// A pattern part as values.
pub open spec fn opt_part(o: Option<&str>) -> Option<Seq<char>> {
    match o {
        Some(s) => Some(s@),
        None => None,
    }
}

pub open spec fn opt_slice_view(o: Option<&[u8]>) -> Option<Seq<u8>> {
    match o {
        Some(b) => Some(b@),
        None => None,
    }
}

/// The row pattern: the prefix, the three parts in table order (any text where a part is
/// absent), NUL-separated, then the object type.
pub open spec fn row_regex_spec(
    prefix: Seq<char>,
    first: Option<Seq<char>>,
    second: Option<Seq<char>>,
    third: Option<Seq<char>>,
    type_info: Option<Seq<u8>>,
) -> Seq<char> {
    let any = ALL_REGEX@;
    let head = prefix + first.unwrap_or(any) + seq!['\0'] + second.unwrap_or(any) + seq!['\0'];
    match third {
        Some(t) => head + t + match type_info {
            Some(o) => utf8_lossy_text(o),
            None => seq!['\u{1}'] + any,
        },
        None => head + any + match type_info {
            Some(o) => utf8_lossy_text(o),
            None => Seq::empty(),
        },
    }
}

/// The parts of a pattern in the order of the table's rows.
pub open spec fn ordered_parts(
    layout: TableLayout,
    s: Option<Seq<char>>,
    p: Option<Seq<char>>,
    o: Option<Seq<char>>,
) -> (Option<Seq<char>>, Option<Seq<char>>, Option<Seq<char>>) {
    match layout {
        TableLayout::Spo => (s, p, o),
        TableLayout::Po => (p, o, s),
        TableLayout::Osp => (o, s, p),
    }
}

pub open spec fn context_regex(c: Option<Seq<char>>) -> Option<Seq<char>> {
    match c {
        Some(v) => Some(v + ALL_REGEX@),
        None => None,
    }
}

/// The regular expressions that select the rows of a table for a triple pattern.
pub struct TripleRowRegex {
    pub row: String,
    pub column_family: Option<String>,
    pub column_qualifier: Option<String>,
}

/// A range of row keys, from `start` to `end`.
pub struct ByteRange {
    pub start: Vec<u8>,
    pub end: Vec<u8>,
}

/// One stored row of a triple.
pub struct TripleRow {
    pub row: Vec<u8>,
    pub column_family: Vec<u8>,
    pub column_qualifier: Vec<u8>,
    pub column_visibility: Option<Vec<u8>>,
    pub value: Option<Vec<u8>>,
    pub timestamp: u64,
}

impl TriplePatternStrategyKind {
    /// The table this strategy scans.
    pub fn layout(self) -> (r: TableLayout)
        ensures
            r == layout_of(self),
    {
        match self {
            TriplePatternStrategyKind::SpoWholeRow | TriplePatternStrategyKind::NullRow
            | TriplePatternStrategyKind::HashedSpoWholeRow => TableLayout::Spo,
            TriplePatternStrategyKind::PoWholeRow | TriplePatternStrategyKind::HashedPoWholeRow =>
                TableLayout::Po,
            TriplePatternStrategyKind::OspWholeRow => TableLayout::Osp,
        }
    }

    /// Whether the strategy's rows start with a hash of their first part.
    pub fn uses_hash_prefix(self) -> (r: bool)
        ensures
            r == hashed_kind(self),
    {
        match self {
            TriplePatternStrategyKind::HashedSpoWholeRow
            | TriplePatternStrategyKind::HashedPoWholeRow => true,
            _ => false,
        }
    }

    /// The row pattern of this strategy for a triple pattern.
    pub fn build_regex(
        self,
        subject: Option<&str>,
        predicate: Option<&str>,
        object: Option<&str>,
        context: Option<&str>,
        object_type_info: Option<&[u8]>,
    ) -> (r: Option<TripleRowRegex>)
        ensures
            r is None <==> (subject is None && predicate is None && object is None && context is None
                && object_type_info is None),
            r matches Some(x) ==> regex_fields(
                x,
                if hashed_kind(self) && layout_of(self) != TableLayout::Osp {
                    HASHED_ALL_REGEX@
                } else {
                    Seq::empty()
                },
                layout_of(self),
                subject,
                predicate,
                object,
                context,
                object_type_info,
            ),
    {
        if self.uses_hash_prefix() {
            build_hashed_whole_row_regex(
                self.layout(),
                subject,
                predicate,
                object,
                context,
                object_type_info,
            )
        } else {
            build_whole_row_regex(
                self.layout(),
                subject,
                predicate,
                object,
                context,
                object_type_info,
            )
        }
    }
}

/// The fields of a row pattern built with `prefix` for a triple pattern on `layout`.
pub open spec fn regex_fields(
    x: TripleRowRegex,
    prefix: Seq<char>,
    layout: TableLayout,
    subject: Option<&str>,
    predicate: Option<&str>,
    object: Option<&str>,
    context: Option<&str>,
    object_type_info: Option<&[u8]>,
) -> bool {
    let (a, b, c) = ordered_parts(layout, opt_part(subject), opt_part(predicate), opt_part(object));
    &&& x.row@ == row_regex_spec(prefix, a, b, c, opt_slice_view(object_type_info))
    &&& crate::domain::opt_view(x.column_family) == context_regex(opt_part(context))
    &&& x.column_qualifier is None
}

impl TripleRowRegex {
    /// Whether a row key, read as UTF-8, matches the row pattern; a row that is not UTF-8 does
    /// not match.
    pub fn matches_row(&self, row: &[u8]) -> (r: bool)
        ensures
            r == (valid_utf8(row@) && regex_matches(self.row@, decode_utf8(row@))),
    {
        match utf8_decode(row) {
            Ok(text) => limited_regex_matches(self.row.as_str(), text.as_str()),
            Err(_) => false,
        }
    }
}

fn build_row_regex(
    prefix: &str,
    first: Option<&str>,
    second: Option<&str>,
    third: Option<&str>,
    object_type_info: Option<&[u8]>,
) -> (r: String)
    ensures
        r@ == row_regex_spec(
            prefix@,
            opt_part(first),
            opt_part(second),
            opt_part(third),
            opt_slice_view(object_type_info),
        ),
{
    let mut row = to_owned(prefix);
    match first {
        Some(f) => push_str(&mut row, f),
        None => push_str(&mut row, ALL_REGEX),
    }
    push_char(&mut row, '\0');
    match second {
        Some(s) => push_str(&mut row, s),
        None => push_str(&mut row, ALL_REGEX),
    }
    push_char(&mut row, '\0');
    match third {
        Some(t) => {
            push_str(&mut row, t);
            match object_type_info {
                Some(info) => {
                    let text = utf8_lossy(info);
                    push_str(&mut row, text.as_str());
                },
                None => {
                    push_char(&mut row, '\u{1}');
                    push_str(&mut row, ALL_REGEX);
                },
            }
        },
        None => {
            push_str(&mut row, ALL_REGEX);
            match object_type_info {
                Some(info) => {
                    let text = utf8_lossy(info);
                    push_str(&mut row, text.as_str());
                },
                None => {},
            }
        },
    }
    proof {
        let ghost any = ALL_REGEX@;
        assert(row@ =~= row_regex_spec(
            prefix@,
            opt_part(first),
            opt_part(second),
            opt_part(third),
            opt_slice_view(object_type_info),
        ));
    }
    row
}

fn context_pattern(context: Option<&str>) -> (r: Option<String>)
    ensures
        crate::domain::opt_view(r) == context_regex(opt_part(context)),
{
    match context {
        Some(value) => Some(crate::text::concat(value, ALL_REGEX)),
        None => None,
    }
}

/// The whole-row pattern of a triple pattern on a table, `None` when every part is absent.
pub fn build_whole_row_regex(
    layout: TableLayout,
    subject: Option<&str>,
    predicate: Option<&str>,
    object: Option<&str>,
    context: Option<&str>,
    object_type_info: Option<&[u8]>,
) -> (r: Option<TripleRowRegex>)
    ensures
        r is None <==> (subject is None && predicate is None && object is None && context is None
            && object_type_info is None),
        r matches Some(x) ==> regex_fields(
            x,
            Seq::empty(),
            layout,
            subject,
            predicate,
            object,
            context,
            object_type_info,
        ),
{
    if subject.is_none() && predicate.is_none() && object.is_none() && context.is_none()
        && object_type_info.is_none() {
        return None;
    }
    let (first, second, third) = match layout {
        TableLayout::Spo => (subject, predicate, object),
        TableLayout::Po => (predicate, object, subject),
        TableLayout::Osp => (object, subject, predicate),
    };
    proof {
        reveal_strlit("");
    }
    let row = build_row_regex("", first, second, third, object_type_info);
    assert(Seq::<char>::empty() =~= ""@);
    Some(TripleRowRegex { row, column_family: context_pattern(context), column_qualifier: None })
}

/// The pattern for a hashed table: the whole-row pattern after a hash prefix on the SPO and
/// PO tables; the plain whole-row pattern on the OSP table.
pub fn build_hashed_whole_row_regex(
    layout: TableLayout,
    subject: Option<&str>,
    predicate: Option<&str>,
    object: Option<&str>,
    context: Option<&str>,
    object_type_info: Option<&[u8]>,
) -> (r: Option<TripleRowRegex>)
    ensures
        r is None <==> (subject is None && predicate is None && object is None && context is None
            && object_type_info is None),
        r matches Some(x) ==> regex_fields(
            x,
            if layout == TableLayout::Osp {
                Seq::empty()
            } else {
                HASHED_ALL_REGEX@
            },
            layout,
            subject,
            predicate,
            object,
            context,
            object_type_info,
        ),
{
    if layout == TableLayout::Osp {
        return build_whole_row_regex(
            layout,
            subject,
            predicate,
            object,
            context,
            object_type_info,
        );
    }
    if subject.is_none() && predicate.is_none() && object.is_none() && context.is_none()
        && object_type_info.is_none() {
        return None;
    }
    let (first, second, third) = match layout {
        TableLayout::Spo => (subject, predicate, object),
        _ => (predicate, object, subject),
    };
    let row = build_row_regex(HASHED_ALL_REGEX, first, second, third, object_type_info);
    Some(TripleRowRegex { row, column_family: context_pattern(context), column_qualifier: None })
}

/// The hash prefix of a row whose first part is `seed`: its MD5 in hexadecimal and a NUL.
pub open spec fn hash_prefix(hash: bool, seed: Seq<u8>) -> Seq<u8> {
    if hash {
        encode_utf8(md5_hex_spec(seed)) + seq![DELIM_BYTE]
    } else {
        Seq::empty()
    }
}

/// The SPO row key.
pub open spec fn spo_row_spec(hash: bool, s: Seq<u8>, p: Seq<u8>, od: Seq<u8>, ot: Seq<u8>) -> Seq<
    u8,
> {
    hash_prefix(hash, s) + s + seq![DELIM_BYTE] + p + seq![DELIM_BYTE] + od + ot
}

/// The PO row key.
pub open spec fn po_row_spec(hash: bool, s: Seq<u8>, p: Seq<u8>, od: Seq<u8>, ot: Seq<u8>) -> Seq<
    u8,
> {
    hash_prefix(hash, p) + p + seq![DELIM_BYTE] + od + seq![DELIM_BYTE] + s + ot
}

/// The OSP row key.
pub open spec fn osp_row_spec(s: Seq<u8>, p: Seq<u8>, od: Seq<u8>, ot: Seq<u8>) -> Seq<u8> {
    od + seq![DELIM_BYTE] + s + seq![DELIM_BYTE] + p + ot
}

/// The UTF-8 bytes of the data of a value.
pub open spec fn data_bytes(m: RyaTypeModel) -> Seq<u8> {
    encode_utf8(m.data)
}

/// The column family of a statement's rows: its context's bytes, or nothing.
pub open spec fn family_spec(st: RyaStatementModel) -> Seq<u8> {
    match st.context {
        Some(c) => data_bytes(c),
        None => Seq::empty(),
    }
}

/// The column qualifier of a statement's rows: its qualifier's bytes, or nothing.
pub open spec fn qualifier_spec(st: RyaStatementModel) -> Seq<u8> {
    match st.qualifier {
        Some(q) => encode_utf8(q),
        None => Seq::empty(),
    }
}

/// The row key of a statement in a table.
pub open spec fn row_key_spec(hash: bool, layout: TableLayout, st: RyaStatementModel) -> Seq<u8> {
    let s = data_bytes(st.subject);
    let p = data_bytes(st.predicate);
    let od = encode_utf8(encoded_data(st.object));
    let ot = type_suffix(st.object.data_type->0);
    match layout {
        TableLayout::Spo => spo_row_spec(hash, s, p, od, ot),
        TableLayout::Po => po_row_spec(hash, s, p, od, ot),
        TableLayout::Osp => osp_row_spec(s, p, od, ot),
    }
}

/// A stored row holds the statement's key for the table and copies its attributes.
pub open spec fn row_of(t: TripleRow, hash: bool, layout: TableLayout, st: RyaStatementModel) -> bool {
    &&& t.row@ == row_key_spec(hash, layout, st)
    &&& t.column_family@ == family_spec(st)
    &&& t.column_qualifier@ == qualifier_spec(st)
    &&& opt_bytes_view(t.column_visibility) == st.column_visibility
    &&& opt_bytes_view(t.value) == st.value
    &&& t.timestamp == st.timestamp
}

/// The row key without its hash prefix, where the table has one.
pub open spec fn unhashed_row(hash: bool, layout: TableLayout, row: Seq<u8>) -> Option<Seq<u8>> {
    if hash && layout != TableLayout::Osp {
        match first_byte_from(row, DELIM_BYTE, 0) {
            Some(h) => Some(row.skip(h + 1)),
            None => None,
        }
    } else {
        Some(row)
    }
}

/// The first NUL, the last NUL and the first type delimiter of a row key.
pub open spec fn row_marks(row: Seq<u8>) -> Option<(int, int, int)> {
    match (
        first_byte_from(row, DELIM_BYTE, 0),
        last_byte_before(row, DELIM_BYTE, row.len() as int),
        first_byte_from(row, TYPE_DELIM_BYTE, 0),
    ) {
        (Some(a), Some(b), Some(c)) => Some((a, b, c)),
        _ => None,
    }
}

/// The stored bytes of the object: its data part in the row, then the type suffix.
pub open spec fn object_bytes(layout: TableLayout, row: Seq<u8>, a: int, b: int, c: int) -> Seq<
    u8,
> {
    let part = match layout {
        TableLayout::Spo => row.subrange(b + 1, c),
        TableLayout::Po => row.subrange(a + 1, b),
        TableLayout::Osp => row.take(a),
    };
    part + row.skip(c)
}

/// The rows on which reading a triple would slice out of order or decode a panicking value.
pub open spec fn deserialize_triple_panics(hash: bool, layout: TableLayout, row: Seq<u8>) -> bool {
    match unhashed_row(hash, layout, row) {
        Some(r) => match row_marks(r) {
            Some((a, b, c)) => !(a + 1 <= b && b + 1 <= c) || deserialize_panics(
                object_bytes(layout, r, a, b, c),
            ),
            None => false,
        },
        None => false,
    }
}

/// The IRI held in UTF-8 bytes.
pub open spec fn iri_of_bytes(b: Seq<u8>) -> Option<RyaTypeModel> {
    if valid_utf8(b) && valid_iri_spec(decode_utf8(b)) {
        Some(iri_model(decode_utf8(b)))
    } else {
        None
    }
}

/// The statement that a stored row holds, if it can be read.
pub open spec fn deserialize_triple_spec(hash: bool, layout: TableLayout, t: TripleRow) -> Option<
    RyaStatementModel,
> {
    match unhashed_row(hash, layout, t.row@) {
        None => None,
        Some(r) => match row_marks(r) {
            None => None,
            Some((a, b, c)) => {
                let first = r.take(a);
                let second = r.subrange(a + 1, b);
                let third = r.subrange(b + 1, c);
                let (sb, pb) = match layout {
                    TableLayout::Spo => (first, second),
                    TableLayout::Po => (third, first),
                    TableLayout::Osp => (second, third),
                };
                match (
                    deserialize_spec(object_bytes(layout, r, a, b, c)),
                    iri_of_bytes(sb),
                    iri_of_bytes(pb),
                ) {
                    (Some(o), Some(s), Some(p)) => {
                        let ctx_ok = t.column_family@.len() == 0 || iri_of_bytes(
                            t.column_family@,
                        ) is Some;
                        let q_ok = t.column_qualifier@.len() == 0 || valid_utf8(
                            t.column_qualifier@,
                        );
                        if ctx_ok && q_ok {
                            Some(
                                RyaStatementModel {
                                    subject: s,
                                    predicate: p,
                                    object: o,
                                    context: if t.column_family@.len() == 0 {
                                        None
                                    } else {
                                        iri_of_bytes(t.column_family@)
                                    },
                                    qualifier: if t.column_qualifier@.len() == 0 {
                                        None
                                    } else {
                                        Some(decode_utf8(t.column_qualifier@))
                                    },
                                    column_visibility: opt_bytes_view(t.column_visibility),
                                    value: opt_bytes_view(t.value),
                                    timestamp: t.timestamp,
                                },
                            )
                        } else {
                            None
                        }
                    },
                    _ => None,
                }
            },
        },
    }
}

/// The strategies of a context, in the order they are tried.
pub open spec fn strategies_spec(hash: bool) -> Seq<TriplePatternStrategyKind> {
    if hash {
        seq![
            TriplePatternStrategyKind::HashedSpoWholeRow,
            TriplePatternStrategyKind::HashedPoWholeRow,
            TriplePatternStrategyKind::OspWholeRow,
        ]
    } else {
        seq![
            TriplePatternStrategyKind::SpoWholeRow,
            TriplePatternStrategyKind::PoWholeRow,
            TriplePatternStrategyKind::NullRow,
            TriplePatternStrategyKind::OspWholeRow,
        ]
    }
}

/// How triples are laid out in the tables: whether SPO and PO rows start with a hash.
#[derive(Clone, Copy, Debug, PartialEq, Eq, Structural)]
pub struct TripleContext {
    prefix_rows_with_hash: bool,
}

impl TripleContext {
    pub closed spec fn hashed(self) -> bool {
        self.prefix_rows_with_hash
    }

    pub fn new(prefix_rows_with_hash: bool) -> (r: Self)
        ensures
            r.hashed() == prefix_rows_with_hash,
    {
        TripleContext { prefix_rows_with_hash }
    }

    /// The first strategy of this context that scans the given table.
    pub fn retrieve_strategy(&self, layout: TableLayout) -> (r: Option<TriplePatternStrategyKind>)
        ensures
            match r {
                Some(k) => exists|i: int|
                    0 <= i < strategies_spec(self.hashed()).len() && strategies_spec(self.hashed())[i]
                        == k && layout_of(k) == layout && forall|j: int|
                        0 <= j < i ==> layout_of(#[trigger] strategies_spec(self.hashed())[j])
                            != layout,
                None => forall|j: int|
                    0 <= j < strategies_spec(self.hashed()).len() ==> layout_of(
                        #[trigger] strategies_spec(self.hashed())[j],
                    ) != layout,
            },
    {
        let strategies = self.triple_pattern_strategies();
        let ghost ss = strategies_spec(self.hashed());
        let mut i: usize = 0;
        while i < strategies.len()
            invariant
                strategies@ == ss,
                ss == strategies_spec(self.hashed()),
                i <= strategies@.len(),
                forall|j: int| 0 <= j < i ==> layout_of(#[trigger] ss[j]) != layout,
            decreases strategies.len() - i,
        {
            if strategies[i].layout() == layout {
                return Some(strategies[i]);
            }
            i = i + 1;
        }
        None
    }

    /// The strategies of this context, in the order they are tried.
    pub fn triple_pattern_strategies(&self) -> (r: Vec<TriplePatternStrategyKind>)
        ensures
            r@ == strategies_spec(self.hashed()),
    {
        if self.prefix_rows_with_hash {
            let r = vec![
                TriplePatternStrategyKind::HashedSpoWholeRow,
                TriplePatternStrategyKind::HashedPoWholeRow,
                TriplePatternStrategyKind::OspWholeRow,
            ];
            assert(r@ =~= strategies_spec(self.hashed()));
            r
        } else {
            let r = vec![
                TriplePatternStrategyKind::SpoWholeRow,
                TriplePatternStrategyKind::PoWholeRow,
                TriplePatternStrategyKind::NullRow,
                TriplePatternStrategyKind::OspWholeRow,
            ];
            assert(r@ =~= strategies_spec(self.hashed()));
            r
        }
    }

    fn make_row(&self, row: Vec<u8>, family: &Vec<u8>, qualifier: &Vec<u8>, statement: &RyaStatement) -> (r: TripleRow)
        ensures
            r.row@ == row@,
            r.column_family@ == family@,
            r.column_qualifier@ == qualifier@,
            opt_bytes_view(r.column_visibility) == statement@.column_visibility,
            opt_bytes_view(r.value) == statement@.value,
            r.timestamp == statement.timestamp,
    {
        TripleRow {
            row,
            column_family: copy_bytes(family),
            column_qualifier: copy_bytes(qualifier),
            column_visibility: opt_bytes_clone(&statement.column_visibility),
            value: opt_bytes_clone(&statement.value),
            timestamp: statement.timestamp,
        }
    }

    /// The rows of a statement in the three tables, in the order SPO, PO, OSP; an error when
    /// the object has no datatype.
    pub fn serialize_triple(&self, statement: &RyaStatement) -> (r: Result<
        Vec<(TableLayout, TripleRow)>,
        String,
    >)
        requires
            data_bytes(statement@.subject).len() + 73 < usize::MAX,
            data_bytes(statement@.predicate).len() + 73 < usize::MAX,
        ensures
            r is Ok <==> statement@.object.data_type is Some,
            r matches Ok(rows) ==> {
                &&& rows@.len() == 3
                &&& rows@[0].0 == TableLayout::Spo
                &&& rows@[1].0 == TableLayout::Po
                &&& rows@[2].0 == TableLayout::Osp
                &&& forall|k: int|
                    0 <= k < 3 ==> row_of(
                        #[trigger] rows@[k].1,
                        self.hashed(),
                        rows@[k].0,
                        statement@,
                    )
            },
            r matches Err(e) ==> e@ == "RyaType is missing a datatype"@,
    {
        let subject = str_bytes(statement.subject.data());
        let predicate = str_bytes(statement.predicate.data());
        let (object_data, object_type) = serialize_type(&statement.object)?;
        let family = match &statement.context {
            Some(c) => str_bytes(c.data()),
            None => Vec::new(),
        };
        let qualifier = match &statement.qualifier {
            Some(q) => str_bytes(q.as_str()),
            None => Vec::new(),
        };
        assert(family@ == family_spec(statement@));
        assert(qualifier@ == qualifier_spec(statement@));

        let spo = self.spo_row(&subject, &predicate, &object_data, &object_type);
        let po = self.po_row(&subject, &predicate, &object_data, &object_type);
        let mut osp: Vec<u8> = Vec::new();
        extend_bytes(&mut osp, object_data.as_slice());
        osp.push(DELIM_BYTE);
        extend_bytes(&mut osp, subject.as_slice());
        osp.push(DELIM_BYTE);
        extend_bytes(&mut osp, predicate.as_slice());
        extend_bytes(&mut osp, object_type.as_slice());
        assert(osp@ =~= osp_row_spec(subject@, predicate@, object_data@, object_type@));

        let mut rows: Vec<(TableLayout, TripleRow)> = Vec::new();
        rows.push((TableLayout::Spo, self.make_row(spo, &family, &qualifier, statement)));
        rows.push((TableLayout::Po, self.make_row(po, &family, &qualifier, statement)));
        rows.push((TableLayout::Osp, self.make_row(osp, &family, &qualifier, statement)));
        assert(row_of(rows@[0].1, self.hashed(), rows@[0].0, statement@));
        assert(row_of(rows@[1].1, self.hashed(), rows@[1].0, statement@));
        assert(row_of(rows@[2].1, self.hashed(), rows@[2].0, statement@));
        Ok(rows)
    }

    fn hash_prefixed(&self, seed: &Vec<u8>, row: Vec<u8>) -> (r: Vec<u8>)
        requires
            seed@.len() + 73 < usize::MAX,
        ensures
            r@ == hash_prefix(self.hashed(), seed@) + row@,
    {
        if self.prefix_rows_with_hash {
            let hex = md5_hex(seed.as_slice());
            let mut out = str_bytes(hex.as_str());
            out.push(DELIM_BYTE);
            extend_bytes(&mut out, row.as_slice());
            assert(out@ =~= hash_prefix(self.hashed(), seed@) + row@);
            out
        } else {
            assert(row@ =~= hash_prefix(self.hashed(), seed@) + row@);
            row
        }
    }

    fn spo_row(&self, subject: &Vec<u8>, predicate: &Vec<u8>, object_data: &Vec<u8>, object_type: &Vec<u8>) -> (r: Vec<u8>)
        requires
            subject@.len() + 73 < usize::MAX,
        ensures
            r@ == spo_row_spec(self.hashed(), subject@, predicate@, object_data@, object_type@),
    {
        let mut row: Vec<u8> = Vec::new();
        extend_bytes(&mut row, subject.as_slice());
        row.push(DELIM_BYTE);
        extend_bytes(&mut row, predicate.as_slice());
        row.push(DELIM_BYTE);
        extend_bytes(&mut row, object_data.as_slice());
        extend_bytes(&mut row, object_type.as_slice());
        let r = self.hash_prefixed(subject, row);
        assert(r@ =~= spo_row_spec(self.hashed(), subject@, predicate@, object_data@, object_type@));
        r
    }

    fn po_row(&self, subject: &Vec<u8>, predicate: &Vec<u8>, object_data: &Vec<u8>, object_type: &Vec<u8>) -> (r: Vec<u8>)
        requires
            predicate@.len() + 73 < usize::MAX,
        ensures
            r@ == po_row_spec(self.hashed(), subject@, predicate@, object_data@, object_type@),
    {
        let mut row: Vec<u8> = Vec::new();
        extend_bytes(&mut row, predicate.as_slice());
        row.push(DELIM_BYTE);
        extend_bytes(&mut row, object_data.as_slice());
        row.push(DELIM_BYTE);
        extend_bytes(&mut row, subject.as_slice());
        extend_bytes(&mut row, object_type.as_slice());
        let r = self.hash_prefixed(predicate, row);
        assert(r@ =~= po_row_spec(self.hashed(), subject@, predicate@, object_data@, object_type@));
        r
    }

    /// Reads a statement back from one of its rows.
    pub fn deserialize_triple(&self, layout: TableLayout, triple_row: &TripleRow) -> (r: Result<
        RyaStatement,
        String,
    >)
        requires
            !deserialize_triple_panics(self.hashed(), layout, triple_row.row@),
        ensures
            r is Ok <==> deserialize_triple_spec(self.hashed(), layout, *triple_row) is Some,
            r matches Ok(st) ==> st@ == deserialize_triple_spec(
                self.hashed(),
                layout,
                *triple_row,
            )->0,
    {
        let full = &triple_row.row;
        let row: Vec<u8> = if self.prefix_rows_with_hash && layout != TableLayout::Osp {
            proof {
                lemma_first_byte_from(full@, DELIM_BYTE, 0);
            }
            let hash_end = match find_byte_from(full.as_slice(), DELIM_BYTE, 0) {
                Some(h) => h,
                None => return Err(to_owned("Hashed row is missing hash delimiter")),
            };
            let full_len = full.len();
            assert(hash_end < full_len);
            let r = sub_bytes(full.as_slice(), hash_end + 1, full_len);
            assert(r@ =~= full@.skip(hash_end + 1));
            r
        } else {
            copy_bytes(full)
        };
        assert(unhashed_row(self.hashed(), layout, full@) == Some(row@));
        let n = row.len();
        proof {
            lemma_first_byte_from(row@, DELIM_BYTE, 0);
            lemma_first_byte_from(row@, TYPE_DELIM_BYTE, 0);
            lemma_last_byte_before(row@, DELIM_BYTE, n as int);
        }
        let first_index = match find_byte_from(row.as_slice(), DELIM_BYTE, 0) {
            Some(i) => i,
            None => return Err(to_owned("Triple row is missing first delimiter")),
        };
        let second_index = match rfind_byte(row.as_slice(), DELIM_BYTE) {
            Some(i) => i,
            None => return Err(to_owned("Triple row is missing second delimiter")),
        };
        let type_index = match find_byte_from(row.as_slice(), TYPE_DELIM_BYTE, 0) {
            Some(i) => i,
            None => return Err(to_owned("Triple row is missing type delimiter")),
        };
        assert(row_marks(row@) == Some((first_index as int, second_index as int, type_index as int)));
        let first = sub_bytes(row.as_slice(), 0, first_index);
        let second = sub_bytes(row.as_slice(), first_index + 1, second_index);
        let third = sub_bytes(row.as_slice(), second_index + 1, type_index);
        let suffix = sub_bytes(row.as_slice(), type_index, n);
        let mut object_bytes_v: Vec<u8> = match layout {
            TableLayout::Spo => copy_bytes(&third),
            TableLayout::Po => copy_bytes(&second),
            TableLayout::Osp => copy_bytes(&first),
        };
        extend_bytes(&mut object_bytes_v, suffix.as_slice());
        assert(first@ =~= row@.take(first_index as int));
        assert(suffix@ =~= row@.skip(type_index as int));
        assert(object_bytes_v@ =~= object_bytes(
            layout,
            row@,
            first_index as int,
            second_index as int,
            type_index as int,
        ));
        let object = deserialize(object_bytes_v.as_slice())?;
        let (sb, pb) = match layout {
            TableLayout::Spo => (first, second),
            TableLayout::Po => (third, first),
            TableLayout::Osp => (second, third),
        };
        let subject = bytes_to_iri(&sb)?;
        let predicate = bytes_to_iri(&pb)?;
        let context = if triple_row.column_family.len() == 0 {
            None
        } else {
            Some(bytes_to_iri(&triple_row.column_family)?)
        };
        let qualifier = if triple_row.column_qualifier.len() == 0 {
            None
        } else {
            Some(utf8_decode(triple_row.column_qualifier.as_slice())?)
        };
        let mut statement = RyaStatement::new(subject, predicate, object).with_timestamp(
            triple_row.timestamp,
        );
        statement.context = context;
        statement.qualifier = qualifier;
        statement.column_visibility = opt_bytes_clone(&triple_row.column_visibility);
        statement.value = opt_bytes_clone(&triple_row.value);
        Ok(statement)
    }
}

fn copy_bytes(b: &Vec<u8>) -> (r: Vec<u8>)
    ensures
        r@ == b@,
{
    let mut out: Vec<u8> = Vec::new();
    extend_bytes(&mut out, b.as_slice());
    assert(out@ =~= b@);
    out
}

fn bytes_to_iri(bytes: &Vec<u8>) -> (r: Result<RyaIri, String>)
    ensures
        r is Ok <==> iri_of_bytes(bytes@) is Some,
        r matches Ok(i) ==> Some(i@) == iri_of_bytes(bytes@),
{
    let data = utf8_decode(bytes.as_slice())?;
    RyaIri::new(data.as_str())
}

/// The range of SPO row keys of a hashed table whose subject is `subject`.
pub fn hashed_subject_range(subject: &RyaIri) -> (r: ByteRange)
    requires
        data_bytes(subject@).len() + 73 < usize::MAX,
    ensures
        r.start@ == hashed_range_start(data_bytes(subject@)),
        r.end@ == hashed_range_start(data_bytes(subject@)).push(LAST_BYTE),
{
    let value = str_bytes(subject.data());
    hashed_prefix_range(&value)
}

/// The range of PO row keys of a hashed table whose predicate is `predicate`.
pub fn hashed_predicate_range(predicate: &RyaIri) -> (r: ByteRange)
    requires
        data_bytes(predicate@).len() + 73 < usize::MAX,
    ensures
        r.start@ == hashed_range_start(data_bytes(predicate@)),
        r.end@ == hashed_range_start(data_bytes(predicate@)).push(LAST_BYTE),
{
    let value = str_bytes(predicate.data());
    hashed_prefix_range(&value)
}

/// The first key of the hashed rows that start with `value`: hash, NUL, `value`, NUL.
pub open spec fn hashed_range_start(value: Seq<u8>) -> Seq<u8> {
    encode_utf8(md5_hex_spec(value)) + seq![DELIM_BYTE] + value + seq![DELIM_BYTE]
}

fn hashed_prefix_range(value: &Vec<u8>) -> (r: ByteRange)
    requires
        value@.len() + 73 < usize::MAX,
    ensures
        r.start@ == hashed_range_start(value@),
        r.end@ == hashed_range_start(value@).push(LAST_BYTE),
{
    let hex = md5_hex(value.as_slice());
    let mut start = str_bytes(hex.as_str());
    start.push(DELIM_BYTE);
    extend_bytes(&mut start, value.as_slice());
    start.push(DELIM_BYTE);
    let mut end = copy_bytes(&start);
    end.push(LAST_BYTE);
    assert(start@ =~= hashed_range_start(value@));
    ByteRange { start, end }
}

} // verus!
