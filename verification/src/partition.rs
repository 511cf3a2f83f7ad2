use vstd::prelude::*;

use crate::bytes::{extend_bytes, find_byte_from, first_byte_from, str_bytes, sub_bytes, utf8_decode, utf8_error_text};
use crate::text::{decimal, push_str, to_owned, u64_to_string};

verus! {

pub const FAMILY_DELIM: u8 = 0;
pub const FAMILY_DELIM_STR: &'static str = "\0";
pub const INDEX_DELIM: u8 = 1;
pub const INDEX_DELIM_STR: &'static str = "\x01";
pub const URI_MARKER: u8 = 7;
pub const URI_MARKER_STR: &'static str = "\x07";
pub const BNODE_MARKER: u8 = 8;
pub const PLAIN_LITERAL_MARKER: u8 = 9;
pub const PLAIN_LITERAL_MARKER_STR: &'static str = "\x09";
pub const LANG_LITERAL_MARKER: u8 = 10;
pub const DATATYPE_LITERAL_MARKER: u8 = 11;
pub const DATATYPE_LITERAL_MARKER_STR: &'static str = "\x0b";

pub const DEFAULT_PAIR_DELIMITER: &'static str = "\0";
pub const DEFAULT_VALUE_DELIMITER: &'static str = "\u{fffd}";

/// The key of a stored entry: row, column family and column qualifier.
pub struct PartitionKey {
    pub row: String,
    pub column_family: String,
    pub column_qualifier: String,
}

impl PartitionKey {
    /// A key of the three parts.
    pub fn new(row: &str, column_family: &str, column_qualifier: &str) -> (r: Self)
        ensures
            r.row@ == row@,
            r.column_family@ == column_family@,
            r.column_qualifier@ == column_qualifier@,
    {
        PartitionKey { row: to_owned(row), column_family: to_owned(column_family), column_qualifier: to_owned(column_qualifier) }
    }
}

/// A given text unless it is absent or empty, else the default.
pub open spec fn non_empty_or_spec(value: Option<Seq<char>>, default: Seq<char>) -> Seq<char> {
    match value {
        Some(v) => if v.len() > 0 { v } else { default },
        None => default,
    }
}

fn non_empty_or(value: Option<&str>, default: &str) -> (r: String)
    ensures
        r@ == non_empty_or_spec(
            match value {
                Some(v) => Some(v@),
                None => None,
            },
            default@,
        ),
{
    match value {
        Some(v) => if v.unicode_len() > 0 {
            to_owned(v)
        } else {
            to_owned(default)
        },
        None => to_owned(default),
    }
}

/// Turns records into texts and back, with a delimiter between pairs and one between a key and
/// its value.
pub struct CloudbaseValueConverter {
    pub pair_delimiter: String,
    pub value_delimiter: String,
}

/// The text of a record: each key, the value delimiter and the value, with the pair delimiter
/// between pairs, in the record's order.
pub open spec fn record_text(pairs: Seq<(Seq<char>, Seq<char>)>, pd: Seq<char>, vd: Seq<char>) -> Seq<char>
    decreases pairs.len(),
{
    if pairs.len() == 0 {
        Seq::empty()
    } else if pairs.len() == 1 {
        pairs[0].0 + vd + pairs[0].1
    } else {
        record_text(pairs.drop_last(), pd, vd) + pd + pairs.last().0 + vd + pairs.last().1
    }
}

impl CloudbaseValueConverter {
    /// A converter with the given delimiters; an absent or empty one takes its default.
    pub fn new(pair_delimiter: Option<&str>, value_delimiter: Option<&str>) -> (r: Self)
        ensures
            r.pair_delimiter@ == non_empty_or_spec(
                match pair_delimiter {
                    Some(v) => Some(v@),
                    None => None,
                },
                DEFAULT_PAIR_DELIMITER@,
            ),
            r.value_delimiter@ == non_empty_or_spec(
                match value_delimiter {
                    Some(v) => Some(v@),
                    None => None,
                },
                DEFAULT_VALUE_DELIMITER@,
            ),
    {
        CloudbaseValueConverter {
            pair_delimiter: non_empty_or(pair_delimiter, DEFAULT_PAIR_DELIMITER),
            value_delimiter: non_empty_or(value_delimiter, DEFAULT_VALUE_DELIMITER),
        }
    }

    /// The record of a text, as `record_fold` states it.
    pub fn to_map(&self, value: &str) -> (r: crate::strmap::StrMap)
        requires
            self.pair_delimiter@.len() > 0,
            self.value_delimiter@.len() > 0,
        ensures
            r@ == record_fold(value@, 0, self.pair_delimiter@, self.value_delimiter@, Map::empty()),
    {
        let cs = crate::text::chars_of(value);
        let pd = crate::text::chars_of(self.pair_delimiter.as_str());
        let vd = crate::text::chars_of(self.value_delimiter.as_str());
        let n = cs.len();
        let mut row = crate::strmap::StrMap::new();
        let mut start: usize = 0;
        let ghost goal = record_fold(value@, 0, pd@, vd@, Map::empty());
        while start < n
            invariant
                cs@ == value@,
                pd@ == self.pair_delimiter@,
                vd@ == self.value_delimiter@,
                pd@.len() > 0,
                vd@.len() > 0,
                n == cs@.len(),
                start <= n,
                goal == record_fold(value@, 0, pd@, vd@, Map::empty()),
                goal == record_fold(value@, start as int, pd@, vd@, row@),
            decreases n - start,
        {
            proof {
                crate::words::lemma_first_occurrence(cs@, vd@, start as int);
            }
            let v = match crate::words::find_from(&cs, &vd, start) {
                Some(v) => v,
                None => {
                    return row;
                },
            };
            let vs = v + vd.len();
            proof {
                crate::words::lemma_first_occurrence(cs@, vd@, vs as int);
                crate::words::lemma_first_occurrence(cs@, pd@, vs as int);
            }
            let nv = match crate::words::find_from(&cs, &vd, vs) {
                Some(k) => k,
                None => n,
            };
            let np = match crate::words::find_from(&cs, &pd, vs) {
                Some(k) => k,
                None => n,
            };
            let fe = if nv < np { nv } else { np };
            let key = crate::words::trim(crate::text::substring(cs.as_slice(), start, v).as_str());
            let val = crate::words::trim(crate::text::substring(cs.as_slice(), vs, fe).as_str());
            row.insert(key, val);
            if np >= n {
                return row;
            }
            start = np + pd.len();
        }
        row
    }

    /// The text of a record, in increasing order of key, as `record_text` states.
    pub fn to_value(&self, record: &crate::strmap::StrMap) -> (r: String)
        ensures
            r@ == record_text(record.pairs(), self.pair_delimiter@, self.value_delimiter@),
    {
        let mut out = String::new();
        let n = record.len();
        let mut i: usize = 0;
        while i < n
            invariant
                i <= n,
                n == record.pairs().len(),
                out@ == record_text(record.pairs().take(i as int), self.pair_delimiter@, self.value_delimiter@),
            decreases n - i,
        {
            let (k, v) = record.entry(i);
            if i > 0 {
                push_str(&mut out, self.pair_delimiter.as_str());
            }
            push_str(&mut out, k.as_str());
            push_str(&mut out, self.value_delimiter.as_str());
            push_str(&mut out, v.as_str());
            proof {
                let t = record.pairs().take(i as int + 1);
                assert(t.drop_last() =~= record.pairs().take(i as int));
                if i == 0 {
                    assert(record.pairs().take(0) =~= Seq::<(Seq<char>, Seq<char>)>::empty());
                }
            }
            i = i + 1;
        }
        assert(record.pairs().take(n as int) =~= record.pairs());
        out
    }
}

/// Where `d` next occurs at or after `from`, or the end of `s`.
pub open spec fn next_or_end(s: Seq<char>, d: Seq<char>, from: int) -> int {
    match crate::words::first_occurrence(s, d, from) {
        Some(k) => k,
        None => s.len() as int,
    }
}

/// The record read from `s` from `start` on, into `acc`: each key runs to the value
/// delimiter, each value to the next value or pair delimiter (whichever comes first), both
/// trimmed; a later pair replaces an earlier one of its key.
pub open spec fn record_fold(
    s: Seq<char>,
    start: int,
    pd: Seq<char>,
    vd: Seq<char>,
    acc: Map<Seq<char>, Seq<char>>,
) -> Map<Seq<char>, Seq<char>>
    decreases s.len() - start,
{
    if start < 0 || start >= s.len() || pd.len() == 0 || vd.len() == 0 {
        acc
    } else {
        match crate::words::first_occurrence(s, vd, start) {
            None => acc,
            Some(v) => if v + vd.len() > s.len() {
                acc
            } else {
                let vs = v + vd.len();
                let nv = next_or_end(s, vd, vs);
                let np = next_or_end(s, pd, vs);
                let fe = if nv < np { nv } else { np };
                let key = crate::words::trim_spec(s.subrange(start, v));
                let val = crate::words::trim_spec(s.subrange(vs, fe));
                let acc2 = acc.insert(key, val);
                if np >= s.len() {
                    acc2
                } else {
                    proof {
                        crate::words::lemma_first_occurrence(s, vd, start);
                        crate::words::lemma_first_occurrence(s, pd, vs);
                    }
                    record_fold(s, np + pd.len(), pd, vd, acc2)
                }
            },
        }
    }
}

/// Accepts timestamps no later than the start time and at most the range before it.
pub struct TimeRangeFilter {
    pub time_range: i64,
    pub start_time: i64,
}

impl TimeRangeFilter {
    pub const TIME_RANGE_PROP: &'static str = "timeRange";
    pub const START_TIME_PROP: &'static str = "startTime";

    /// A filter of the range and start time.
    pub fn new(time_range: i64, start_time: i64) -> (r: Self)
        ensures
            r.time_range == time_range,
            r.start_time == start_time,
    {
        TimeRangeFilter { time_range, start_time }
    }

    /// The filter that options describe: `timeRange` is required, `startTime` defaults to the
    /// current time; each must read as an `i64`.
    pub fn from_options(options: &crate::strmap::StrMap, current_time_millis: i64) -> (r: Result<Self, String>)
        ensures
            !options@.contains_key("timeRange"@) ==> (r matches Err(e) && e@ == "timeRange must be set for TimeRangeFilter"@),
            options@.contains_key("timeRange"@) ==> ({
                let tr = options@["timeRange"@];
                match crate::text::parse_in_range(crate::text::parse_signed_spec(tr), i64::MIN as int, i64::MAX as int) {
                    None => r matches Err(e) && Some(e@.skip(35)) == crate::intparse::int_parse_error(tr, true, i64::MIN as int, i64::MAX as int)
                        && e@.take(35) == "Invalid TimeRangeFilter timeRange: "@,
                    Some(range) => if options@.contains_key("startTime"@) {
                        let st = options@["startTime"@];
                        match crate::text::parse_in_range(crate::text::parse_signed_spec(st), i64::MIN as int, i64::MAX as int) {
                            None => r matches Err(e) && Some(e@.skip(35)) == crate::intparse::int_parse_error(st, true, i64::MIN as int, i64::MAX as int)
                                && e@.take(35) == "Invalid TimeRangeFilter startTime: "@,
                            Some(start) => r matches Ok(f) && f.time_range == range && f.start_time == start,
                        }
                    } else {
                        r matches Ok(f) && f.time_range == range && f.start_time == current_time_millis
                    },
                }
            }),
    {
        proof {
            reveal_strlit("Invalid TimeRangeFilter timeRange: ");
            reveal_strlit("Invalid TimeRangeFilter startTime: ");
        }
        let tr = match options.get(Self::TIME_RANGE_PROP) {
            Some(v) => v,
            None => return Err(to_owned("timeRange must be set for TimeRangeFilter")),
        };
        let range = match crate::intparse::parse_i64_text(tr.as_str()) {
            Ok(v) => v,
            Err(e) => {
                let mut m = to_owned("Invalid TimeRangeFilter timeRange: ");
                push_str(&mut m, e.as_str());
                assert(m@.skip(35) =~= e@);
                assert(m@.take(35) =~= "Invalid TimeRangeFilter timeRange: "@);
                return Err(m);
            },
        };
        let start = match options.get(Self::START_TIME_PROP) {
            Some(v) => match crate::intparse::parse_i64_text(v.as_str()) {
                Ok(x) => x,
                Err(e) => {
                    let mut m = to_owned("Invalid TimeRangeFilter startTime: ");
                    push_str(&mut m, e.as_str());
                    assert(m@.skip(35) =~= e@);
                    assert(m@.take(35) =~= "Invalid TimeRangeFilter startTime: "@);
                    return Err(m);
                },
            },
            None => current_time_millis,
        };
        Ok(TimeRangeFilter::new(range, start))
    }

    /// Whether a timestamp lies in the range: no later than the start time and at most the
    /// range before it.
    pub fn accept_timestamp(&self, timestamp: i64) -> (r: bool)
        requires
            i64::MIN <= self.start_time - timestamp <= i64::MAX,
        ensures
            r == (0 <= self.start_time - timestamp <= self.time_range),
    {
        let diff = self.start_time - timestamp;
        !(diff > self.time_range || diff < 0)
    }
}

/// An RDF term of a partitioned store: an IRI, a blank node, or a plain, language-tagged
/// or typed literal.
pub enum RdfValue {
    Iri(String),
    BNode(String),
    PlainLiteral(String),
    LangLiteral { label: String, language: String },
    DatatypeLiteral { label: String, datatype: String },
}

/// A term as texts.
pub enum TermModel {
    Iri(Seq<char>),
    BNode(Seq<char>),
    PlainLiteral(Seq<char>),
    LangLiteral(Seq<char>, Seq<char>),
    DatatypeLiteral(Seq<char>, Seq<char>),
}

impl View for RdfValue {
    type V = TermModel;

    open spec fn view(&self) -> TermModel {
        match self {
            RdfValue::Iri(s) => TermModel::Iri(s@),
            RdfValue::BNode(s) => TermModel::BNode(s@),
            RdfValue::PlainLiteral(s) => TermModel::PlainLiteral(s@),
            RdfValue::LangLiteral { label, language } => TermModel::LangLiteral(label@, language@),
            RdfValue::DatatypeLiteral { label, datatype } => TermModel::DatatypeLiteral(label@, datatype@),
        }
    }
}

/// A statement of three terms.
pub struct RdfStatement {
    pub subject: RdfValue,
    pub predicate: RdfValue,
    pub object: RdfValue,
}

/// A statement as three term models: subject, predicate, object.
pub type StatementModel = (TermModel, TermModel, TermModel);

impl View for RdfStatement {
    type V = StatementModel;

    open spec fn view(&self) -> StatementModel {
        (self.subject@, self.predicate@, self.object@)
    }
}

impl RdfStatement {
    /// A statement of the three terms.
    pub fn new(subject: RdfValue, predicate: RdfValue, object: RdfValue) -> (r: Self)
        ensures
            r@ == (subject@, predicate@, object@),
    {
        RdfStatement { subject, predicate, object }
    }
}

/// The UTF-8 bytes of a text.
pub open spec fn enc(s: Seq<char>) -> Seq<u8> {
    vstd::utf8::encode_utf8(s)
}

/// The bytes of a term: a marker byte, then its texts, a literal's two parts parted by the
/// marker again (and a typed literal's datatype led by the IRI marker).
pub open spec fn value_bytes(v: TermModel) -> Seq<u8> {
    match v {
        TermModel::Iri(s) => seq![URI_MARKER] + enc(s),
        TermModel::BNode(s) => seq![BNODE_MARKER] + enc(s),
        TermModel::PlainLiteral(s) => seq![PLAIN_LITERAL_MARKER] + enc(s),
        TermModel::LangLiteral(l, g) => seq![LANG_LITERAL_MARKER] + enc(l) + seq![LANG_LITERAL_MARKER] + enc(g),
        TermModel::DatatypeLiteral(l, d) => seq![DATATYPE_LITERAL_MARKER] + enc(l) + seq![DATATYPE_LITERAL_MARKER, URI_MARKER] + enc(d),
    }
}

fn push_text(out: &mut Vec<u8>, s: &str)
    ensures
        final(out)@ == old(out)@ + enc(s@),
{
    let b = str_bytes(s);
    extend_bytes(out, b.as_slice());
}

fn write_value_to(out: &mut Vec<u8>, value: &RdfValue)
    ensures
        final(out)@ == old(out)@ + value_bytes(value@),
{
    let ghost before = out@;
    match value {
        RdfValue::Iri(s) => {
            out.push(URI_MARKER);
            push_text(out, s.as_str());
        },
        RdfValue::BNode(s) => {
            out.push(BNODE_MARKER);
            push_text(out, s.as_str());
        },
        RdfValue::PlainLiteral(s) => {
            out.push(PLAIN_LITERAL_MARKER);
            push_text(out, s.as_str());
        },
        RdfValue::LangLiteral { label, language } => {
            out.push(LANG_LITERAL_MARKER);
            push_text(out, label.as_str());
            out.push(LANG_LITERAL_MARKER);
            push_text(out, language.as_str());
        },
        RdfValue::DatatypeLiteral { label, datatype } => {
            out.push(DATATYPE_LITERAL_MARKER);
            push_text(out, label.as_str());
            out.push(DATATYPE_LITERAL_MARKER);
            out.push(URI_MARKER);
            push_text(out, datatype.as_str());
        },
    }
    assert(out@ =~= before + value_bytes(value@));
}

/// The bytes of a term, as `value_bytes` states them.
pub fn write_rdf_value(value: &RdfValue) -> (r: Vec<u8>)
    ensures
        r@ == value_bytes(value@),
{
    let mut out: Vec<u8> = Vec::new();
    write_value_to(&mut out, value);
    assert(out@ =~= value_bytes(value@));
    out
}

/// The text from `start` up to the first `d` (or the end), and how many bytes that used,
/// the `d` included; bytes that are not UTF-8 give std's description of the fault.
pub open spec fn read_simple_spec(b: Seq<u8>, start: int, d: u8) -> Result<(Seq<char>, int), Seq<char>> {
    let end = match first_byte_from(b, d, start) {
        Some(i) => i,
        None => b.len() as int,
    };
    let chunk = b.subrange(start, end);
    if vstd::utf8::valid_utf8(chunk) {
        Ok((vstd::utf8::decode_utf8(chunk), if end < b.len() { end + 1 } else { end }))
    } else {
        Err(utf8_error_text(chunk))
    }
}

proof fn lemma_first_byte_bounds(b: Seq<u8>, x: u8, from: int)
    requires
        0 <= from <= b.len(),
    ensures
        first_byte_from(b, x, from) matches Some(i) ==> from <= i < b.len() && b[i] == x,
    decreases b.len() - from,
{
    if from < b.len() && b[from] != x {
        lemma_first_byte_bounds(b, x, from + 1);
    }
}

fn read_simple(b: &[u8], start: usize, d: u8) -> (r: Result<(String, usize), String>)
    requires
        start <= b.len(),
    ensures
        match read_simple_spec(b@, start as int, d) {
            Ok((s, n)) => r matches Ok((x, m)) && x@ == s && m == n && m <= b.len(),
            Err(e) => r matches Err(x) && x@ == e,
        },
{
    proof {
        lemma_first_byte_bounds(b@, d, start as int);
    }
    let end = match find_byte_from(b, d, start) {
        Some(i) => i,
        None => b.len(),
    };
    let chunk = sub_bytes(b, start, end);
    let s = match utf8_decode(chunk.as_slice()) {
        Ok(s) => s,
        Err(e) => return Err(e),
    };
    let used = if end < b.len() {
        end + 1
    } else {
        end
    };
    Ok((s, used))
}

/// A term read from the front of `b`, and how many bytes it used; its last text runs to the
/// first `d` (or the end).
#[verifier::opaque]
pub open spec fn read_value_spec(b: Seq<u8>, d: u8) -> Result<(TermModel, int), Seq<char>> {
    if b.len() == 0 {
        Err("Cannot read RDF value from empty bytes"@)
    } else {
        let m = b[0];
        if m == URI_MARKER {
            match read_simple_spec(b, 1, d) {
                Ok((s, n)) => Ok((TermModel::Iri(s), n)),
                Err(e) => Err(e),
            }
        } else if m == BNODE_MARKER {
            match read_simple_spec(b, 1, d) {
                Ok((s, n)) => Ok((TermModel::BNode(s), n)),
                Err(e) => Err(e),
            }
        } else if m == PLAIN_LITERAL_MARKER {
            match read_simple_spec(b, 1, d) {
                Ok((s, n)) => Ok((TermModel::PlainLiteral(s), n)),
                Err(e) => Err(e),
            }
        } else if m == LANG_LITERAL_MARKER {
            match read_simple_spec(b, 1, LANG_LITERAL_MARKER) {
                Err(e) => Err(e),
                Ok((l, n)) => match read_simple_spec(b.skip(n), 0, d) {
                    Err(e) => Err(e),
                    Ok((g, n2)) => Ok((TermModel::LangLiteral(l, g), n + n2)),
                },
            }
        } else if m == DATATYPE_LITERAL_MARKER {
            match read_simple_spec(b, 1, DATATYPE_LITERAL_MARKER) {
                Err(e) => Err(e),
                Ok((l, n)) => if n >= b.len() || b[n] != URI_MARKER {
                    Err("Expected URI datatype marker"@)
                } else {
                    match read_simple_spec(b.skip(n + 1), 0, d) {
                        Err(e) => Err(e),
                        Ok((t, n2)) => Ok((TermModel::DatatypeLiteral(l, t), n + 1 + n2)),
                    }
                },
            }
        } else {
            Err("Invalid value type marker: "@ + decimal(m as nat))
        }
    }
}

/// Reads a term from the front of `bytes`, as `read_value_spec` states.
pub fn read_rdf_value(bytes: &[u8], delimiter: u8) -> (r: Result<(RdfValue, usize), String>)
    ensures
        match read_value_spec(bytes@, delimiter) {
            Ok((v, n)) => r matches Ok((x, m)) && x@ == v && m == n && m <= bytes.len(),
            Err(e) => r matches Err(x) && x@ == e,
        },
{
    reveal(read_value_spec);
    if bytes.len() == 0 {
        return Err(to_owned("Cannot read RDF value from empty bytes"));
    }
    let m = bytes[0];
    if m == URI_MARKER {
        let (s, n) = read_simple(bytes, 1, delimiter)?;
        Ok((RdfValue::Iri(s), n))
    } else if m == BNODE_MARKER {
        let (s, n) = read_simple(bytes, 1, delimiter)?;
        Ok((RdfValue::BNode(s), n))
    } else if m == PLAIN_LITERAL_MARKER {
        let (s, n) = read_simple(bytes, 1, delimiter)?;
        Ok((RdfValue::PlainLiteral(s), n))
    } else if m == LANG_LITERAL_MARKER {
        let (label, used) = read_simple(bytes, 1, LANG_LITERAL_MARKER)?;
        let rest = sub_bytes(bytes, used, bytes.len());
        assert(rest@ =~= bytes@.skip(used as int));
        let (language, used2) = read_simple(rest.as_slice(), 0, delimiter)?;
        Ok((RdfValue::LangLiteral { label, language }, used + used2))
    } else if m == DATATYPE_LITERAL_MARKER {
        let (label, used) = read_simple(bytes, 1, DATATYPE_LITERAL_MARKER)?;
        if used >= bytes.len() || bytes[used] != URI_MARKER {
            return Err(to_owned("Expected URI datatype marker"));
        }
        let rest = sub_bytes(bytes, used + 1, bytes.len());
        assert(rest@ =~= bytes@.skip(used + 1));
        let (datatype, used2) = read_simple(rest.as_slice(), 0, delimiter)?;
        Ok((RdfValue::DatatypeLiteral { label, datatype }, used + 1 + used2))
    } else {
        let mut e = to_owned("Invalid value type marker: ");
        push_str(&mut e, u64_to_string(m as u64).as_str());
        Err(e)
    }
}

/// The bytes of a statement: in document order subject, predicate and object parted by the
/// family delimiter; otherwise predicate, the index delimiter, object, the family delimiter
/// and subject.
pub open spec fn statement_bytes(st: StatementModel, document_order: bool) -> Seq<u8> {
    if document_order {
        value_bytes(st.0) + seq![FAMILY_DELIM] + value_bytes(st.1) + seq![FAMILY_DELIM] + value_bytes(st.2)
    } else {
        value_bytes(st.1) + seq![INDEX_DELIM] + value_bytes(st.2) + seq![FAMILY_DELIM] + value_bytes(st.0)
    }
}

/// The bytes of a statement, as `statement_bytes` states them.
pub fn write_rdf_statement(statement: &RdfStatement, document_order: bool) -> (r: Vec<u8>)
    ensures
        r@ == statement_bytes(statement@, document_order),
{
    let mut out: Vec<u8> = Vec::new();
    if document_order {
        write_value_to(&mut out, &statement.subject);
        out.push(FAMILY_DELIM);
        write_value_to(&mut out, &statement.predicate);
        out.push(FAMILY_DELIM);
        write_value_to(&mut out, &statement.object);
    } else {
        write_value_to(&mut out, &statement.predicate);
        out.push(INDEX_DELIM);
        write_value_to(&mut out, &statement.object);
        out.push(FAMILY_DELIM);
        write_value_to(&mut out, &statement.subject);
    }
    assert(out@ =~= statement_bytes(statement@, document_order));
    out
}

/// A statement read from bytes: three terms, read in the order that `statement_bytes` writes
/// them.
pub open spec fn read_statement_spec(b: Seq<u8>, document_order: bool) -> Result<StatementModel, Seq<char>> {
    let d1 = if document_order { FAMILY_DELIM } else { INDEX_DELIM };
    match read_value_spec(b, d1) {
        Err(e) => Err(e),
        Ok((v1, n1)) => match read_value_spec(b.skip(n1), FAMILY_DELIM) {
            Err(e) => Err(e),
            Ok((v2, n2)) => match read_value_spec(b.skip(n1 + n2), FAMILY_DELIM) {
                Err(e) => Err(e),
                Ok((v3, _)) => Ok(if document_order { (v1, v2, v3) } else { (v3, v1, v2) }),
            },
        },
    }
}

/// Reads a statement, as `read_statement_spec` states.
pub fn read_rdf_statement(bytes: &[u8], document_order: bool) -> (r: Result<RdfStatement, String>)
    ensures
        match read_statement_spec(bytes@, document_order) {
            Ok(st) => r matches Ok(x) && x@ == st,
            Err(e) => r matches Err(x) && x@ == e,
        },
{
    let d1 = if document_order {
        FAMILY_DELIM
    } else {
        INDEX_DELIM
    };
    let (v1, n1) = read_rdf_value(bytes, d1)?;
    let rest = sub_bytes(bytes, n1, bytes.len());
    assert(rest@ =~= bytes@.skip(n1 as int));
    let (v2, n2) = read_rdf_value(rest.as_slice(), FAMILY_DELIM)?;
    let rest2 = sub_bytes(rest.as_slice(), n2, rest.len());
    assert(rest2@ =~= bytes@.skip(n1 + n2));
    let (v3, _) = read_rdf_value(rest2.as_slice(), FAMILY_DELIM)?;
    if document_order {
        Ok(RdfStatement::new(v1, v2, v3))
    } else {
        Ok(RdfStatement::new(v3, v1, v2))
    }
}

/// A shard split at the last occurrence of the delimiter: what comes before it and what
/// after.
pub fn split_shard_date(shard: &str, delimiter: &str) -> (r: Option<(String, String)>)
    ensures
        match crate::code_intel::scan::rsplit_once_str_spec(shard@, delimiter@) {
            Some((a, b)) => r matches Some((x, y)) && x@ == a && y@ == b,
            None => r is None,
        },
{
    crate::code_intel::scan::rsplit_once_str(shard, delimiter)
}

/// The part of a key before its first index delimiter, or the whole key.
pub fn retrieve_embed_key(key: &str) -> (r: String)
    ensures
        r@ == match crate::words::split_once_str_spec(key@, INDEX_DELIM_STR@) {
            Some((a, _)) => a,
            None => key@,
        },
{
    match crate::words::split_once_str(key, INDEX_DELIM_STR) {
        Some((a, _)) => a,
        None => to_owned(key),
    }
}

/// No character of `s` is the one with code `x`.
pub open spec fn lacks(s: Seq<char>, x: u8) -> bool {
    forall|i: int| 0 <= i < s.len() ==> s[i] as u32 != x as u32
}

/// A text that holds neither delimiter.
pub open spec fn plain_text(s: Seq<char>) -> bool {
    lacks(s, FAMILY_DELIM) && lacks(s, INDEX_DELIM)
}

/// A term whose texts hold neither delimiter, and whose literal label holds no marker of its
/// own kind.
pub open spec fn term_writable(v: TermModel) -> bool {
    match v {
        TermModel::Iri(s) => plain_text(s),
        TermModel::BNode(s) => plain_text(s),
        TermModel::PlainLiteral(s) => plain_text(s),
        TermModel::LangLiteral(l, g) => plain_text(l) && lacks(l, LANG_LITERAL_MARKER) && plain_text(g),
        TermModel::DatatypeLiteral(l, t) => plain_text(l) && lacks(l, DATATYPE_LITERAL_MARKER) && plain_text(t),
    }
}

proof fn lemma_first_byte_skip(b: Seq<u8>, x: u8, from: int, to: int)
    requires
        0 <= from <= to <= b.len(),
        forall|i: int| from <= i < to ==> b[i] != x,
    ensures
        first_byte_from(b, x, from) == first_byte_from(b, x, to),
    decreases to - from,
{
    if from < to {
        lemma_first_byte_skip(b, x, from + 1, to);
    }
}

/// A text followed by nothing or by the delimiter reads back from where it starts.
proof fn lemma_simple_read_back(pre: Seq<u8>, s: Seq<char>, tail: Seq<u8>, d: u8)
    requires
        d < 0x80,
        lacks(s, d),
        tail.len() == 0 || tail[0] == d,
    ensures
        read_simple_spec(pre + enc(s) + tail, pre.len() as int, d) == Ok::<(Seq<char>, int), Seq<char>>((
            s,
            pre.len() + enc(s).len() + if tail.len() == 0 { 0int } else { 1int },
        )),
{
    let b = pre + enc(s) + tail;
    let e = enc(s);
    crate::bytes::lemma_encode_lacks_ascii_byte(s, d);
    let start = pre.len() as int;
    let to = start + e.len();
    assert forall|i: int| start <= i < to implies b[i] != d by {
        assert(b[i] == e[i - start]);
    }
    lemma_first_byte_skip(b, d, start, to);
    if tail.len() == 0 {
        assert(first_byte_from(b, d, to) == None::<int>);
    } else {
        assert(b[to] == d);
        assert(first_byte_from(b, d, to) == Some(to));
    }
    assert(b.subrange(start, to) =~= e);
    vstd::utf8::encode_utf8_valid_utf8(s);
    vstd::utf8::encode_utf8_decode_utf8(s);
}

proof fn lemma_lang_read_back(l: Seq<char>, g: Seq<char>, tail: Seq<u8>, d: u8)
    requires
        term_writable(TermModel::LangLiteral(l, g)),
        d == FAMILY_DELIM || d == INDEX_DELIM,
        tail.len() == 0 || tail[0] == d,
    ensures
        read_value_spec(value_bytes(TermModel::LangLiteral(l, g)) + tail, d) == Ok::<(TermModel, int), Seq<char>>((
            TermModel::LangLiteral(l, g),
            value_bytes(TermModel::LangLiteral(l, g)).len() + if tail.len() == 0 { 0int } else { 1int },
        )),
{
    reveal(read_value_spec);
    let b = value_bytes(TermModel::LangLiteral(l, g)) + tail;
    let rest = seq![LANG_LITERAL_MARKER] + enc(g) + tail;
    assert(b =~= seq![LANG_LITERAL_MARKER] + enc(l) + rest);
    lemma_simple_read_back(seq![LANG_LITERAL_MARKER], l, rest, LANG_LITERAL_MARKER);
    let n: int = (1 + enc(l).len() + 1) as int;
    assert(b.skip(n) =~= Seq::<u8>::empty() + enc(g) + tail);
    lemma_simple_read_back(Seq::<u8>::empty(), g, tail, d);
    assert(b[0] == LANG_LITERAL_MARKER);
}

proof fn lemma_datatype_read_back(l: Seq<char>, t: Seq<char>, tail: Seq<u8>, d: u8)
    requires
        term_writable(TermModel::DatatypeLiteral(l, t)),
        d == FAMILY_DELIM || d == INDEX_DELIM,
        tail.len() == 0 || tail[0] == d,
    ensures
        read_value_spec(value_bytes(TermModel::DatatypeLiteral(l, t)) + tail, d) == Ok::<(TermModel, int), Seq<char>>((
            TermModel::DatatypeLiteral(l, t),
            value_bytes(TermModel::DatatypeLiteral(l, t)).len() + if tail.len() == 0 { 0int } else { 1int },
        )),
{
    reveal(read_value_spec);
    let b = value_bytes(TermModel::DatatypeLiteral(l, t)) + tail;
    let rest = seq![DATATYPE_LITERAL_MARKER, URI_MARKER] + enc(t) + tail;
    assert(b =~= seq![DATATYPE_LITERAL_MARKER] + enc(l) + rest);
    lemma_simple_read_back(seq![DATATYPE_LITERAL_MARKER], l, rest, DATATYPE_LITERAL_MARKER);
    let n: int = (1 + enc(l).len() + 1) as int;
    assert(b[n] == URI_MARKER);
    assert(b.skip(n + 1) =~= Seq::<u8>::empty() + enc(t) + tail);
    lemma_simple_read_back(Seq::<u8>::empty(), t, tail, d);
    assert(b[0] == DATATYPE_LITERAL_MARKER);
}

proof fn lemma_single_read_back(v: TermModel, tail: Seq<u8>, d: u8)
    requires
        term_writable(v),
        !(v is LangLiteral),
        !(v is DatatypeLiteral),
        d == FAMILY_DELIM || d == INDEX_DELIM,
        tail.len() == 0 || tail[0] == d,
    ensures
        read_value_spec(value_bytes(v) + tail, d) == Ok::<(TermModel, int), Seq<char>>((
            v,
            value_bytes(v).len() + if tail.len() == 0 { 0int } else { 1int },
        )),
{
    reveal(read_value_spec);
    let b = value_bytes(v) + tail;
    match v {
        TermModel::Iri(s) => {
            assert(b =~= seq![URI_MARKER] + enc(s) + tail);
            lemma_simple_read_back(seq![URI_MARKER], s, tail, d);
        },
        TermModel::BNode(s) => {
            assert(b =~= seq![BNODE_MARKER] + enc(s) + tail);
            lemma_simple_read_back(seq![BNODE_MARKER], s, tail, d);
        },
        TermModel::PlainLiteral(s) => {
            assert(b =~= seq![PLAIN_LITERAL_MARKER] + enc(s) + tail);
            lemma_simple_read_back(seq![PLAIN_LITERAL_MARKER], s, tail, d);
        },
        _ => {},
    }
}

/// A writable term followed by nothing or by the delimiter reads back as itself, using its
/// bytes and the delimiter.
proof fn lemma_value_read_back(v: TermModel, tail: Seq<u8>, d: u8)
    requires
        term_writable(v),
        d == FAMILY_DELIM || d == INDEX_DELIM,
        tail.len() == 0 || tail[0] == d,
    ensures
        read_value_spec(value_bytes(v) + tail, d) == Ok::<(TermModel, int), Seq<char>>((
            v,
            value_bytes(v).len() + if tail.len() == 0 { 0int } else { 1int },
        )),
{
    match v {
        TermModel::LangLiteral(l, g) => lemma_lang_read_back(l, g, tail, d),
        TermModel::DatatypeLiteral(l, t) => lemma_datatype_read_back(l, t, tail, d),
        _ => lemma_single_read_back(v, tail, d),
    }
}

/// A statement whose terms are writable reads back as itself, in either order.
pub proof fn law_statement_bytes_roundtrip(st: StatementModel, document_order: bool)
    requires
        term_writable(st.0),
        term_writable(st.1),
        term_writable(st.2),
    ensures
        read_statement_spec(statement_bytes(st, document_order), document_order) == Ok::<StatementModel, Seq<char>>(st),
{
    let b = statement_bytes(st, document_order);
    let (a, m, z) = if document_order { (st.0, st.1, st.2) } else { (st.1, st.2, st.0) };
    let d1 = if document_order { FAMILY_DELIM } else { INDEX_DELIM };
    let t1 = seq![d1] + value_bytes(m) + seq![FAMILY_DELIM] + value_bytes(z);
    let t2 = seq![FAMILY_DELIM] + value_bytes(z);
    assert(b =~= value_bytes(a) + t1);
    lemma_value_read_back(a, t1, d1);
    let n1: int = (value_bytes(a).len() + 1) as int;
    assert(b.skip(n1) =~= value_bytes(m) + t2);
    lemma_value_read_back(m, t2, FAMILY_DELIM);
    let n2: int = (value_bytes(m).len() + 1) as int;
    assert(b.skip(n1 + n2) =~= value_bytes(z) + Seq::<u8>::empty());
    lemma_value_read_back(z, Seq::<u8>::empty(), FAMILY_DELIM);
}

/// The UTF-16 code units of a character.
pub open spec fn char_units(c: char) -> Seq<u16> {
    let v = c as u32;
    if v < 0x10000 {
        seq![v as u16]
    } else {
        let w = (v - 0x10000) as int;
        seq![(0xD800 + w / 1024) as u16, (0xDC00 + w % 1024) as u16]
    }
}

/// The UTF-16 code units of a text.
pub open spec fn utf16_units(s: Seq<char>) -> Seq<u16>
    decreases s.len(),
{
    if s.len() == 0 {
        Seq::empty()
    } else {
        utf16_units(s.drop_last()) + char_units(s.last())
    }
}

/// Java's string hash of UTF-16 code units: `h * 31 + unit` from 0, wrapping in 32 bits.
pub open spec fn java_hash(u: Seq<u16>) -> i32
    decreases u.len(),
{
    if u.len() == 0 {
        0i32
    } else {
        java_hash(u.drop_last()).wrapping_mul(31i32).wrapping_add(u.last() as i32)
    }
}

fn java_string_hash_code(value: &str) -> (r: i32)
    ensures
        r == java_hash(utf16_units(value@)),
{
    let cs = crate::text::chars_of(value);
    let mut h: i32 = 0;
    let mut i: usize = 0;
    while i < cs.len()
        invariant
            i <= cs@.len(),
            cs@ == value@,
            h == java_hash(utf16_units(cs@.take(i as int))),
        decreases cs.len() - i,
    {
        let c = cs[i];
        let ghost u0 = utf16_units(cs@.take(i as int));
        assert(cs@.take(i as int + 1).drop_last() =~= cs@.take(i as int));
        let v = c as u32;
        if v < 0x10000 {
            let unit = v as u16;
            h = h.wrapping_mul(31).wrapping_add(unit as i32);
            assert(u0 + char_units(c) =~= u0.push(unit));
            assert((u0 + char_units(c)).drop_last() =~= u0);
        } else {
            let w = v - 0x10000;
            let hi = (0xD800 + w / 1024) as u16;
            let lo = (0xDC00 + w % 1024) as u16;
            let ghost h1 = h.wrapping_mul(31i32).wrapping_add(hi as i32);
            h = h.wrapping_mul(31).wrapping_add(hi as i32);
            h = h.wrapping_mul(31).wrapping_add(lo as i32);
            assert(u0 + char_units(c) =~= u0.push(hi).push(lo));
            assert(u0.push(hi).push(lo).drop_last() =~= u0.push(hi));
            assert(u0.push(hi).drop_last() =~= u0);
            assert(java_hash(u0.push(hi)) == h1);
        }
        i = i + 1;
    }
    assert(cs@.take(i as int) =~= cs@);
    h
}

/// An integer as `{:0w}` writes it: zero-padded to `w` characters, the sign counted.
pub open spec fn fmt_padded(n: int, w: nat) -> Seq<char> {
    if n >= 0 {
        crate::resolver::datetime::pad(n as nat, w)
    } else {
        "-"@ + crate::resolver::datetime::pad((-n) as nat, if w > 0 { (w - 1) as nat } else { 0 })
    }
}

fn fmt_padded_exec(n: i64, w: usize) -> (r: String)
    requires
        w > 0,
    ensures
        r@ == fmt_padded(n as int, w as nat),
{
    if n >= 0 {
        crate::resolver::datetime::pad_exec(n as u64, w)
    } else {
        let m: u64 = if n == i64::MIN { 9223372036854775808u64 } else { (-n) as u64 };
        let mut out = to_owned("-");
        push_str(&mut out, crate::resolver::datetime::pad_exec(m, w - 1).as_str());
        proof {
            reveal_strlit("-");
        }
        out
    }
}

/// Truncating division by a positive divisor.
pub open spec fn trunc_div(a: int, d: int) -> int {
    if a >= 0 {
        a / d
    } else {
        -((-a) / d)
    }
}

/// The civil date (year, month, day) of a count of days since 1970-01-01, by the
/// era-based algorithm.
pub open spec fn civil_spec(days: int) -> (int, int, int) {
    let z = days + 719468;
    let era = trunc_div(if z >= 0 { z } else { z - 146096 }, 146097);
    let doe = z - era * 146097;
    let yoe = trunc_div(doe - trunc_div(doe, 1460) + trunc_div(doe, 36524) - trunc_div(doe, 146096), 365);
    let y = yoe + era * 400;
    let doy = doe - (365 * yoe + trunc_div(yoe, 4) - trunc_div(yoe, 100));
    let mp = trunc_div(5 * doy + 2, 153);
    let day = doy - trunc_div(153 * mp + 2, 5) + 1;
    let month = mp + if mp < 10 { 3int } else { -9int };
    let year = y + if month <= 2 { 1int } else { 0int };
    (year, month, day)
}

/// The `yyyyMMdd` text of the day that a time in milliseconds falls on.
pub open spec fn date_text(millis: i64) -> Seq<char> {
    let c = civil_spec(millis as int / 86400000);
    fmt_padded(c.0, 4) + fmt_padded(c.1, 2) + fmt_padded(c.2, 2)
}

fn tdiv(a: i64, d: i64) -> (r: i64)
    requires
        d > 0,
        a > i64::MIN,
    ensures
        r == trunc_div(a as int, d as int),
{
    if a >= 0 {
        a / d
    } else {
        -((-a) / d)
    }
}

fn floor_days(ms: i64) -> (r: i64)
    ensures
        r == ms as int / 86400000,
{
    if ms >= 0 {
        ms / 86400000
    } else {
        let a: i64 = -(ms + 1);
        let q: i64 = a / 86400000;
        assert(ms as int == (-q - 1) * 86400000 + (86400000 - a % 86400000 - 1));
        -q - 1
    }
}

fn civil_exec(days: i64) -> (r: (i64, i64, i64))
    requires
        -200000000000 <= days <= 200000000000,
    ensures
        (r.0 as int, r.1 as int, r.2 as int) == civil_spec(days as int),
{
    let z = days + 719468;
    let era = tdiv(if z >= 0 { z } else { z - 146096 }, 146097);
    let doe = z - era * 146097;
    let yoe = tdiv(doe - tdiv(doe, 1460) + tdiv(doe, 36524) - tdiv(doe, 146096), 365);
    let y = yoe + era * 400;
    let doy = doe - (365 * yoe + tdiv(yoe, 4) - tdiv(yoe, 100));
    let mp = tdiv(5 * doy + 2, 153);
    let day = doy - tdiv(153 * mp + 2, 5) + 1;
    let month = mp + if mp < 10 { 3 } else { -9 };
    let year = y + if month <= 2 { 1 } else { 0 };
    (year, month, day)
}

/// The `yyyyMMdd` text of the day a time in milliseconds falls on, as `date_text` states.
fn format_yyyymmdd(epoch_millis: i64) -> (r: String)
    ensures
        r@ == date_text(epoch_millis),
{
    let days = floor_days(epoch_millis);
    let (year, month, day) = civil_exec(days);
    let mut out = fmt_padded_exec(year, 4);
    push_str(&mut out, fmt_padded_exec(month, 2).as_str());
    push_str(&mut out, fmt_padded_exec(day, 2).as_str());
    out
}

/// The magnitude of an integer.
pub open spec fn magnitude(n: int) -> nat {
    if n < 0 {
        (-n) as nat
    } else {
        n as nat
    }
}

/// Shard values: the day of a time, and for an object `_` and its Java hash's remainder by
/// the base, without sign.
pub struct DateHashModShardValueGenerator {
    pub base_mod: i32,
}

impl DateHashModShardValueGenerator {
    /// A generator with the given base.
    pub fn new(base_mod: i32) -> (r: Self)
        ensures
            r.base_mod == base_mod,
    {
        DateHashModShardValueGenerator { base_mod }
    }

    /// The shard value of a time and an optional object: `yyyyMMdd`, then for an object `_`
    /// and the magnitude of its hash's remainder by the base.
    pub fn generate_shard_value(&self, date_millis: i64, object: Option<&str>) -> (r: String)
        requires
            self.base_mod != 0,
            object matches Some(o) ==> !(self.base_mod == -1 && java_hash(utf16_units(o@)) == i32::MIN),
        ensures
            r@ == date_text(date_millis) + match object {
                Some(o) => "_"@ + decimal(magnitude(java_hash(utf16_units(o@)) as int) % magnitude(self.base_mod as int)),
                None => Seq::<char>::empty(),
            },
    {
        let mut out = format_yyyymmdd(date_millis);
        match object {
            Some(o) => {
                let h = java_string_hash_code(o);
                let ah: u64 = if h < 0 { (-(h as i64)) as u64 } else { h as u64 };
                let b = self.base_mod;
                let ab: u64 = if b < 0 { (-(b as i64)) as u64 } else { b as u64 };
                push_str(&mut out, "_");
                push_str(&mut out, u64_to_string(ah % ab).as_str());
                proof {
                    reveal_strlit("_");
                }
            },
            None => {
                assert(out@ + Seq::<char>::empty() =~= out@);
            },
        }
        out
    }
}

impl Default for DateHashModShardValueGenerator {
    fn default() -> (r: Self)
        ensures
            r.base_mod == 50,
    {
        DateHashModShardValueGenerator { base_mod: 50 }
    }
}

} // verus!
