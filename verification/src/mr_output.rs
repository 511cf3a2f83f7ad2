use vstd::prelude::*;

use crate::bytes::extend_bytes;
use crate::domain::{RyaStatement, RyaStatementModel, opt_bytes_view};
use crate::fjall_mr::{
    MrConfiguration, Mutation, RyaStatementWritable, TABLE_PREFIX_PROPERTY, TBL_OSP_SUFFIX,
    TBL_PO_SUFFIX, TBL_PRFX_DEF, TBL_SPO_SUFFIX, lookup_setting, table_name,
};
use crate::resolver::triple::{
    TableLayout, TripleContext, data_bytes, family_spec, qualifier_spec, row_key_spec, row_of,
};

verus! {

/// The layouts in the order the tables are written.
pub open spec fn layout_at(k: int) -> TableLayout {
    if k == 0 {
        TableLayout::Spo
    } else if k == 1 {
        TableLayout::Po
    } else {
        TableLayout::Osp
    }
}

/// `m` writes (or, for `delete`, deletes) the row of a statement in a layout.
pub open spec fn mutation_of(m: Mutation, hash: bool, layout: TableLayout, st: RyaStatementModel, delete: bool) -> bool {
    &&& m.row@ == row_key_spec(hash, layout, st)
    &&& m.column_family@ == family_spec(st)
    &&& m.column_qualifier@ == qualifier_spec(st)
    &&& opt_bytes_view(m.column_visibility) == st.column_visibility
    &&& m.value@ == (if delete {
        Seq::<u8>::empty()
    } else {
        match st.value {
            Some(v) => v,
            None => Seq::<u8>::empty(),
        }
    })
    &&& m.timestamp == st.timestamp
    &&& m.delete == delete
}

/// The statement's identifiers fit the row keys.
pub open spec fn keys_fit(st: RyaStatementModel) -> bool {
    data_bytes(st.subject).len() + 73 < usize::MAX && data_bytes(st.predicate).len() + 73 < usize::MAX
}

/// The mutations for the three tables, one each, in the order SPO, PO, OSP.
pub open spec fn table_mutations(v: Seq<(TableLayout, Vec<Mutation>)>, hash: bool, st: RyaStatementModel, delete: bool) -> bool {
    &&& v.len() == 3
    &&& forall|k: int|
        0 <= k < 3 ==> (#[trigger] v[k]).0 == layout_at(k) && v[k].1@.len() == 1 && mutation_of(
            v[k].1@[0],
            hash,
            layout_at(k),
            st,
            delete,
        )
}

/// Turns statements into the mutations of the three tables.
pub struct RyaTableMutationsFactory {
    pub context: TripleContext,
}

impl RyaTableMutationsFactory {
    /// A factory for the rows of a context.
    pub fn new(context: TripleContext) -> (r: Self)
        ensures
            r.context == context,
    {
        RyaTableMutationsFactory { context }
    }

    fn rows_mutations(&self, statement: &RyaStatement, delete: bool) -> (r: Result<Vec<(TableLayout, Vec<Mutation>)>, String>)
        requires
            keys_fit(statement@),
        ensures
            r is Ok <==> statement@.object.data_type is Some,
            r matches Ok(v) ==> table_mutations(v@, self.context.hashed(), statement@, delete),
            r matches Err(e) ==> e@ == "RyaType is missing a datatype"@,
    {
        let rows = match self.context.serialize_triple(statement) {
            Ok(rows) => rows,
            Err(e) => return Err(e),
        };
        let mut rows = rows;
        let ghost before = rows@;
        let (l2, r2) = rows.pop().unwrap();
        let (l1, r1) = rows.pop().unwrap();
        let (l0, r0) = rows.pop().unwrap();
        assert(before[0] == (l0, r0) && before[1] == (l1, r1) && before[2] == (l2, r2));
        let m0 = if delete { Mutation::delete_from_triple_row(r0) } else { Mutation::from_triple_row(r0) };
        let m1 = if delete { Mutation::delete_from_triple_row(r1) } else { Mutation::from_triple_row(r1) };
        let m2 = if delete { Mutation::delete_from_triple_row(r2) } else { Mutation::from_triple_row(r2) };
        let out = vec![(l0, vec![m0]), (l1, vec![m1]), (l2, vec![m2])];
        proof {
            assert(row_of(before[0].1, self.context.hashed(), before[0].0, statement@));
            assert(row_of(before[1].1, self.context.hashed(), before[1].0, statement@));
            assert(row_of(before[2].1, self.context.hashed(), before[2].0, statement@));
            assert forall|k: int| 0 <= k < 3 implies (#[trigger] out@[k]).0 == layout_at(k) && out@[k].1@.len()
                == 1 && mutation_of(out@[k].1@[0], self.context.hashed(), layout_at(k), statement@, delete) by {
                assert(out@[0].1@[0] == m0);
                assert(out@[1].1@[0] == m1);
                assert(out@[2].1@[0] == m2);
            }
        }
        Ok(out)
    }

    /// The mutations that write a statement's rows, one per table in the order SPO, PO,
    /// OSP; an object without a datatype cannot be written.
    pub fn serialize(&self, statement: &RyaStatement) -> (r: Result<Vec<(TableLayout, Vec<Mutation>)>, String>)
        requires
            keys_fit(statement@),
        ensures
            r is Ok <==> statement@.object.data_type is Some,
            r matches Ok(v) ==> table_mutations(v@, self.context.hashed(), statement@, false),
            r matches Err(e) ==> e@ == "RyaType is missing a datatype"@,
    {
        self.rows_mutations(statement, false)
    }

    /// The mutations that delete a statement's rows, as `serialize` lays them out.
    pub fn serialize_delete(&self, statement: &RyaStatement) -> (r: Result<Vec<(TableLayout, Vec<Mutation>)>, String>)
        requires
            keys_fit(statement@),
        ensures
            r is Ok <==> statement@.object.data_type is Some,
            r matches Ok(v) ==> table_mutations(v@, self.context.hashed(), statement@, true),
            r matches Err(e) ==> e@ == "RyaType is missing a datatype"@,
    {
        self.rows_mutations(statement, true)
    }
}

impl Default for RyaTableMutationsFactory {
    fn default() -> (r: Self)
        ensures
            !r.context.hashed(),
    {
        Self::new(TripleContext::new(false))
    }
}

/// The table prefix of a configuration: the one set, `rya_` when none is.
pub open spec fn table_prefix(conf: MrConfiguration) -> Seq<char> {
    match lookup_setting(conf.view(), TABLE_PREFIX_PROPERTY@) {
        Some(v) => v,
        None => TBL_PRFX_DEF@,
    }
}

/// The suffix of a layout's table.
pub open spec fn suffix_of(layout: TableLayout) -> Seq<char> {
    match layout {
        TableLayout::Spo => TBL_SPO_SUFFIX@,
        TableLayout::Po => TBL_PO_SUFFIX@,
        TableLayout::Osp => TBL_OSP_SUFFIX@,
    }
}

/// The outputs for one statement: for each table, in the order SPO, PO, OSP, the table's
/// name and the mutation that writes the statement's row there.
pub open spec fn emitted(v: Seq<(String, Mutation)>, prefix: Seq<char>, st: RyaStatementModel) -> bool {
    &&& v.len() == 3
    &&& forall|k: int|
        0 <= k < 3 ==> (#[trigger] v[k]).0@ == prefix + suffix_of(layout_at(k)) && mutation_of(
            v[k].1,
            false,
            layout_at(k),
            st,
            false,
        )
}

fn emit_table_mutations(conf: &MrConfiguration, statement: &RyaStatement) -> (r: Result<Vec<(String, Mutation)>, String>)
    requires
        keys_fit(statement@),
    ensures
        r is Ok <==> statement@.object.data_type is Some,
        r matches Ok(v) ==> emitted(v@, table_prefix(*conf), statement@),
        r matches Err(e) ==> e@ == "RyaType is missing a datatype"@,
{
    let prefix = conf.table_prefix_or_default();
    let factory = RyaTableMutationsFactory::default();
    let groups = match factory.serialize(statement) {
        Ok(g) => g,
        Err(e) => return Err(e),
    };
    let mut groups = groups;
    let ghost gs = groups@;
    let (l2, mut m2) = groups.pop().unwrap();
    let (l1, mut m1) = groups.pop().unwrap();
    let (l0, mut m0) = groups.pop().unwrap();
    assert(gs[0] == (l0, m0) && gs[1] == (l1, m1) && gs[2] == (l2, m2));
    assert(gs[0].0 == layout_at(0) && gs[1].0 == layout_at(1) && gs[2].0 == layout_at(2));
    let x2 = m2.pop().unwrap();
    let x1 = m1.pop().unwrap();
    let x0 = m0.pop().unwrap();
    let out = vec![(table_name(prefix, l0), x0), (table_name(prefix, l1), x1), (table_name(prefix, l2), x2)];
    proof {
        assert forall|k: int| 0 <= k < 3 implies (#[trigger] out@[k]).0@ == table_prefix(*conf)
            + suffix_of(layout_at(k)) && mutation_of(out@[k].1, false, layout_at(k), statement@, false) by {
            assert(out@[0].1 == x0 && out@[1].1 == x1 && out@[2].1 == x2);
        }
    }
    Ok(out)
}

/// The outputs of the map step for one statement, as `emitted` states them; a writable
/// without a statement is an error.
pub fn map_statement(conf: &MrConfiguration, value: &RyaStatementWritable) -> (r: Result<Vec<(String, Mutation)>, String>)
    requires
        value.statement matches Some(s) ==> keys_fit(s@),
    ensures
        value.statement is None ==> (r matches Err(e) && e@ == "Rya Statement is null"@),
        value.statement matches Some(s) ==> (r is Ok <==> s@.object.data_type is Some),
        value.statement matches Some(s) ==> (r matches Ok(v) ==> emitted(v@, table_prefix(*conf), s@)),
        value.statement is Some ==> (r matches Err(e) ==> e@ == "RyaType is missing a datatype"@),
{
    match value.rya_statement() {
        Some(statement) => emit_table_mutations(conf, statement),
        None => Err(crate::text::to_owned("Rya Statement is null")),
    }
}

/// Every statement of the writables has one, with a datatype for its object.
pub open spec fn all_writable(values: Seq<RyaStatementWritable>) -> bool {
    forall|i: int| 0 <= i < values.len() ==> ((#[trigger] values[i]).statement matches Some(s) && s@.object.data_type is Some)
}

/// The outputs of the reduce step: the map outputs of the writables, one after another;
/// the first writable without a statement, or with an object without a datatype, stops it.
pub fn reduce_statements(conf: &MrConfiguration, values: &[RyaStatementWritable]) -> (r: Result<Vec<(String, Mutation)>, String>)
    requires
        forall|i: int| 0 <= i < values@.len() ==> ((#[trigger] values@[i]).statement matches Some(s) ==> keys_fit(s@)),
    ensures
        r is Ok <==> all_writable(values@),
        r matches Ok(v) ==> v@.len() == 3 * values@.len() && forall|i: int| 0 <= i < values@.len()
            ==> emitted(#[trigger] v@.subrange(3 * i, 3 * i + 3), table_prefix(*conf), values@[i].statement->0@),
{
    let mut outputs: Vec<(String, Mutation)> = Vec::new();
    let mut i: usize = 0;
    while i < values.len()
        invariant
            i <= values@.len(),
            forall|j: int| 0 <= j < values@.len() ==> ((#[trigger] values@[j]).statement matches Some(s) ==> keys_fit(s@)),
            all_writable(values@.take(i as int)),
            outputs@.len() == 3 * i,
            forall|j: int| 0 <= j < i ==> emitted(#[trigger] outputs@.subrange(3 * j, 3 * j + 3), table_prefix(*conf), values@[j].statement->0@),
        decreases values.len() - i,
    {
        let statement = match values[i].rya_statement() {
            Some(s) => s,
            None => {
                assert(!(values@[i as int].statement matches Some(s) && s@.object.data_type is Some));
                return Err(crate::text::to_owned("Rya Statement is null"));
            },
        };
        let more = match emit_table_mutations(conf, statement) {
            Ok(m) => m,
            Err(e) => {
                assert(!(values@[i as int].statement matches Some(s) && s@.object.data_type is Some));
                return Err(e);
            },
        };
        let ghost before = outputs@;
        let ghost group = more@;
        let mut more = more;
        let (t2, x2) = more.pop().unwrap();
        let (t1, x1) = more.pop().unwrap();
        let (t0, x0) = more.pop().unwrap();
        outputs.push((t0, x0));
        outputs.push((t1, x1));
        outputs.push((t2, x2));
        proof {
            assert(group[0] == (t0, x0) && group[1] == (t1, x1) && group[2] == (t2, x2));
            assert(outputs@.subrange(3 * i, 3 * i + 3) =~= group);
            assert forall|j: int| 0 <= j < i implies emitted(#[trigger] outputs@.subrange(3 * j, 3 * j + 3), table_prefix(*conf), values@[j].statement->0@) by {
                assert(outputs@.subrange(3 * j, 3 * j + 3) =~= before.subrange(3 * j, 3 * j + 3));
            }
            assert(values@.take(i + 1) =~= values@.take(i as int).push(values@[i as int]));
        }
        i = i + 1;
    }
    assert(values@.take(i as int) =~= values@);
    Ok(outputs)
}


// ---------------------------------------------------------------------------
// The binary form of a writable
// ---------------------------------------------------------------------------

/// The four big-endian bytes of a length taken as a 32-bit integer.
pub open spec fn length_bytes(n: int) -> Seq<u8> {
    crate::fjall::codec::be32(n % 4294967296)
}

/// A field: a present marker, its length and bytes; or an absent marker.
pub open spec fn field_out(o: Option<Seq<u8>>) -> Seq<u8> {
    match o {
        Some(b) => seq![1u8] + length_bytes(b.len() as int) + b,
        None => seq![0u8],
    }
}

/// The bytes of a writable holding a statement: its SPO row, column family and
/// qualifier, visibility and value as fields, then a present timestamp.
pub open spec fn writable_bytes(hash: bool, st: RyaStatementModel) -> Seq<u8> {
    field_out(Some(row_key_spec(hash, TableLayout::Spo, st))) + field_out(Some(family_spec(st)))
        + field_out(Some(qualifier_spec(st))) + field_out(st.column_visibility) + field_out(st.value)
        + seq![1u8] + crate::fjall::codec::be64(st.timestamp as int)
}

fn push_be32(out: &mut Vec<u8>, n: u64)
    requires
        n < 4294967296,
    ensures
        final(out)@ == old(out)@ + crate::fjall::codec::be32(n as int),
{
    out.push(((n / 16777216) % 256) as u8);
    out.push(((n / 65536) % 256) as u8);
    out.push(((n / 256) % 256) as u8);
    out.push((n % 256) as u8);
    assert(final(out)@ =~= old(out)@ + crate::fjall::codec::be32(n as int));
}

fn write_field(out: &mut Vec<u8>, field: Option<&Vec<u8>>)
    ensures
        final(out)@ == old(out)@ + field_out(match field {
            Some(b) => Some(b@),
            None => None,
        }),
{
    match field {
        Some(b) => {
            out.push(1);
            let n = (b.len() as u64) % 4294967296;
            push_be32(out, n);
            extend_bytes(out, b.as_slice());
            assert(final(out)@ =~= old(out)@ + field_out(Some(b@)));
        },
        None => {
            out.push(0);
        },
    }
}

impl RyaStatementWritable {
    /// The binary form of the writable, as `writable_bytes` states it; a writable without a
    /// statement, or whose object has no datatype, cannot be written.
    pub fn write_to_vec(&self) -> (r: Result<Vec<u8>, String>)
        requires
            self.statement matches Some(s) ==> keys_fit(s@),
        ensures
            self.statement is None ==> (r matches Err(e) && e@ == "Rya Statement is null"@),
            self.statement matches Some(s) ==> (r is Ok <==> s@.object.data_type is Some),
            self.statement matches Some(s) ==> (r matches Ok(b) ==> b@ == writable_bytes(self.context.hashed(), s@)),
            self.statement is Some ==> (r matches Err(e) ==> e@ == "RyaType is missing a datatype"@),
    {
        let statement = match self.rya_statement() {
            Some(s) => s,
            None => return Err(crate::text::to_owned("Rya Statement is null")),
        };
        let rows = match self.context.serialize_triple(statement) {
            Ok(rows) => rows,
            Err(e) => return Err(e),
        };
        let row = &rows[0].1;
        assert(row_of(*row, self.context.hashed(), TableLayout::Spo, statement@));
        let mut bytes: Vec<u8> = Vec::new();
        write_field(&mut bytes, Some(&row.row));
        write_field(&mut bytes, Some(&row.column_family));
        write_field(&mut bytes, Some(&row.column_qualifier));
        let cv = match &statement.column_visibility {
            Some(v) => Some(v),
            None => None,
        };
        write_field(&mut bytes, cv);
        let val = match &statement.value {
            Some(v) => Some(v),
            None => None,
        };
        write_field(&mut bytes, val);
        bytes.push(1);
        let ts = statement.timestamp;
        push_be32(&mut bytes, ts / 4294967296);
        push_be32(&mut bytes, ts % 4294967296);
        assert(bytes@ =~= writable_bytes(self.context.hashed(), statement@));
        Ok(bytes)
    }
}


/// A boolean byte at `c`, and the cursor after it.
pub open spec fn read_bool_spec(b: Seq<u8>, c: int) -> Result<(bool, int), Seq<char>> {
    if 0 <= c < b.len() {
        if b[c] == 0 {
            Ok((false, c + 1))
        } else if b[c] == 1 {
            Ok((true, c + 1))
        } else {
            Err("Invalid boolean byte: "@ + crate::text::decimal(b[c] as nat))
        }
    } else {
        Err("Truncated boolean"@)
    }
}

/// A field at `c`, and the cursor after it.
pub open spec fn read_field_spec(b: Seq<u8>, c: int) -> Result<(Option<Seq<u8>>, int), Seq<char>> {
    match read_bool_spec(b, c) {
        Err(e) => Err(e),
        Ok((present, c1)) => if !present {
            Ok((None, c1))
        } else if b.len() - c1 < 4 {
            Err("Truncated field length"@)
        } else {
            let v = crate::fjall::codec::be32_at(b, c1);
            if v >= 2147483648 {
                Err("Negative field length"@)
            } else if b.len() - (c1 + 4) < v {
                Err("Truncated field bytes"@)
            } else {
                Ok((Some(b.subrange(c1 + 4, c1 + 4 + v)), c1 + 4 + v))
            }
        },
    }
}

/// The parts of a written writable: row, column family and qualifier, visibility, value
/// and timestamp.
pub type WritableParts = (Seq<u8>, Seq<u8>, Seq<u8>, Option<Seq<u8>>, Option<Seq<u8>>, u64);

/// The timestamp part at `c`: a present marker and eight big-endian bytes, or zero.
pub open spec fn read_stamp_spec(b: Seq<u8>, c: int) -> Result<(u64, int), Seq<char>> {
    match read_bool_spec(b, c) {
        Err(e) => Err(e),
        Ok((present, c1)) => if !present {
            Ok((0, c1))
        } else if b.len() - c1 < 8 {
            Err("Truncated timestamp"@)
        } else {
            Ok((crate::fjall::codec::be64_at(b, c1) as u64, c1 + 8))
        },
    }
}

/// The parts a writable's bytes hold, or the first fault met in reading them.
pub open spec fn read_writable_spec(b: Seq<u8>) -> Result<WritableParts, Seq<char>> {
    match read_field_spec(b, 0) {
        Err(e) => Err(e),
        Ok((row, c1)) => match read_field_spec(b, c1) {
            Err(e) => Err(e),
            Ok((cf, c2)) => match read_field_spec(b, c2) {
                Err(e) => Err(e),
                Ok((cq, c3)) => match read_field_spec(b, c3) {
                    Err(e) => Err(e),
                    Ok((cv, c4)) => match read_field_spec(b, c4) {
                        Err(e) => Err(e),
                        Ok((val, c5)) => match read_stamp_spec(b, c5) {
                            Err(e) => Err(e),
                            Ok((ts, c6)) => if c6 != b.len() {
                                Err("Trailing bytes after RyaStatementWritable"@)
                            } else if row is None {
                                Err("Writable is missing triple row"@)
                            } else if cf is None {
                                Err("Writable is missing column family"@)
                            } else if cq is None {
                                Err("Writable is missing column qualifier"@)
                            } else {
                                Ok((row->0, cf->0, cq->0, cv, val, ts))
                            },
                        },
                    },
                },
            },
        },
    }
}

fn read_bool(bytes: &[u8], cursor: &mut usize) -> (r: Result<bool, String>)
    ensures
        match read_bool_spec(bytes@, *old(cursor) as int) {
            Ok((v, c)) => r == Ok::<bool, String>(v) && *final(cursor) == c,
            Err(e) => r matches Err(x) && x@ == e,
        },
{
    if *cursor >= bytes.len() {
        return Err(crate::text::to_owned("Truncated boolean"));
    }
    let byte = bytes[*cursor];
    *cursor = *cursor + 1;
    if byte == 0 {
        Ok(false)
    } else if byte == 1 {
        Ok(true)
    } else {
        let mut m = crate::text::to_owned("Invalid boolean byte: ");
        crate::text::push_str(&mut m, crate::text::u64_to_string(byte as u64).as_str());
        Err(m)
    }
}

fn read_field(bytes: &[u8], cursor: &mut usize) -> (r: Result<Option<Vec<u8>>, String>)
    requires
        *old(cursor) <= bytes@.len(),
    ensures
        match read_field_spec(bytes@, *old(cursor) as int) {
            Ok((v, c)) => r matches Ok(x) && opt_bytes_view(x) == v && *final(cursor) == c && c
                <= bytes@.len(),
            Err(e) => r matches Err(x) && x@ == e,
        },
{
    let present = match read_bool(bytes, cursor) {
        Ok(p) => p,
        Err(e) => return Err(e),
    };
    if !present {
        return Ok(None);
    }
    let c = *cursor;
    if bytes.len() - c < 4 {
        return Err(crate::text::to_owned("Truncated field length"));
    }
    let v: u64 = bytes[c] as u64 * 16777216 + bytes[c + 1] as u64 * 65536 + bytes[c + 2] as u64
        * 256 + bytes[c + 3] as u64;
    if v >= 2147483648 {
        return Err(crate::text::to_owned("Negative field length"));
    }
    let start = c + 4;
    if ((bytes.len() - start) as u64) < v {
        return Err(crate::text::to_owned("Truncated field bytes"));
    }
    let end = start + v as usize;
    let field = crate::bytes::sub_bytes(bytes, start, end);
    *cursor = end;
    Ok(Some(field))
}

fn read_stamp(bytes: &[u8], cursor: &mut usize) -> (r: Result<u64, String>)
    requires
        *old(cursor) <= bytes@.len(),
    ensures
        match read_stamp_spec(bytes@, *old(cursor) as int) {
            Ok((v, c)) => r == Ok::<u64, String>(v) && *final(cursor) == c,
            Err(e) => r matches Err(x) && x@ == e,
        },
{
    let present = match read_bool(bytes, cursor) {
        Ok(p) => p,
        Err(e) => return Err(e),
    };
    if !present {
        return Ok(0);
    }
    let c = *cursor;
    if bytes.len() - c < 8 {
        return Err(crate::text::to_owned("Truncated timestamp"));
    }
    let hi: u64 = bytes[c] as u64 * 16777216 + bytes[c + 1] as u64 * 65536 + bytes[c + 2] as u64
        * 256 + bytes[c + 3] as u64;
    let lo: u64 = bytes[c + 4] as u64 * 16777216 + bytes[c + 5] as u64 * 65536 + bytes[c + 6] as u64
        * 256 + bytes[c + 7] as u64;
    *cursor = c + 8;
    Ok(hi * 4294967296 + lo)
}

/// A stored row with the given parts.
pub open spec fn row_with(t: crate::resolver::triple::TripleRow, p: WritableParts) -> bool {
    &&& t.row@ == p.0
    &&& t.column_family@ == p.1
    &&& t.column_qualifier@ == p.2
    &&& opt_bytes_view(t.column_visibility) == p.3
    &&& opt_bytes_view(t.value) == p.4
    &&& t.timestamp == p.5
}

impl RyaStatementWritable {
    /// Reads the binary form of a writable, as `read_writable_spec` states it, and keeps the
    /// statement of its SPO row; on a fault the writable is left as it was.
    pub fn read_from_slice(&mut self, bytes: &[u8]) -> (r: Result<(), String>)
        requires
            read_writable_spec(bytes@) matches Ok(p) ==> !crate::resolver::triple::deserialize_triple_panics(
                old(self).context.hashed(),
                TableLayout::Spo,
                p.0,
            ),
        ensures
            final(self).context == old(self).context,
            read_writable_spec(bytes@) matches Err(e) ==> (r matches Err(x) && x@ == e && *final(self)
                == *old(self)),
            read_writable_spec(bytes@) matches Ok(p) ==> exists|t: crate::resolver::triple::TripleRow|
                #[trigger] row_with(t, p) && match crate::resolver::triple::deserialize_triple_spec(
                    old(self).context.hashed(),
                    TableLayout::Spo,
                    t,
                ) {
                    Some(st) => r is Ok && (final(self).statement matches Some(s) && s@ == st),
                    None => r is Err && *final(self) == *old(self),
                },
    {
        let mut cursor: usize = 0;
        let row = match read_field(bytes, &mut cursor) {
            Ok(v) => v,
            Err(e) => return Err(e),
        };
        let column_family = match read_field(bytes, &mut cursor) {
            Ok(v) => v,
            Err(e) => return Err(e),
        };
        let column_qualifier = match read_field(bytes, &mut cursor) {
            Ok(v) => v,
            Err(e) => return Err(e),
        };
        let column_visibility = match read_field(bytes, &mut cursor) {
            Ok(v) => v,
            Err(e) => return Err(e),
        };
        let value = match read_field(bytes, &mut cursor) {
            Ok(v) => v,
            Err(e) => return Err(e),
        };
        let timestamp = match read_stamp(bytes, &mut cursor) {
            Ok(v) => v,
            Err(e) => return Err(e),
        };
        if cursor != bytes.len() {
            return Err(crate::text::to_owned("Trailing bytes after RyaStatementWritable"));
        }
        let row = match row {
            Some(v) => v,
            None => return Err(crate::text::to_owned("Writable is missing triple row")),
        };
        let column_family = match column_family {
            Some(v) => v,
            None => return Err(crate::text::to_owned("Writable is missing column family")),
        };
        let column_qualifier = match column_qualifier {
            Some(v) => v,
            None => return Err(crate::text::to_owned("Writable is missing column qualifier")),
        };
        let triple_row = crate::resolver::triple::TripleRow {
            row,
            column_family,
            column_qualifier,
            column_visibility,
            value,
            timestamp,
        };
        let ghost p = read_writable_spec(bytes@)->Ok_0;
        assert(row_with(triple_row, p));
        match self.context.deserialize_triple(TableLayout::Spo, &triple_row) {
            Ok(st) => {
                self.statement = Some(st);
                Ok(())
            },
            Err(e) => Err(e),
        }
    }
}

} // verus!
