use vstd::prelude::*;

use crate::bytes::{extend_bytes, str_bytes, sub_bytes, utf8_decode, utf8_error_text};
use crate::domain::{
    iri_model, opt_iri_view, valid_iri_spec, RyaIri, RyaStatement, RyaStatementModel, RyaType,
    RyaTypeModel,
};
use crate::text::{concat, push_str, to_owned, u64_to_string, decimal};

verus! {

/// The version byte that starts every stored statement.
pub const STATEMENT_VALUE_VERSION: u8 = 1;

/// The length written in place of an absent field.
pub const NONE_FIELD_LEN: u32 = 4294967295;

/// The four big-endian bytes of `n`.
pub open spec fn be32(n: int) -> Seq<u8> {
    seq![
        ((n / 16777216) % 256) as u8,
        ((n / 65536) % 256) as u8,
        ((n / 256) % 256) as u8,
        (n % 256) as u8,
    ]
}

/// The eight big-endian bytes of `n`.
pub open spec fn be64(n: int) -> Seq<u8> {
    be32(n / 4294967296) + be32(n % 4294967296)
}

/// The value of the four big-endian bytes at `c`.
pub open spec fn be32_at(b: Seq<u8>, c: int) -> int {
    b[c] as int * 16777216 + b[c + 1] as int * 65536 + b[c + 2] as int * 256 + b[c + 3] as int
}

/// The value of the eight big-endian bytes at `c`.
pub open spec fn be64_at(b: Seq<u8>, c: int) -> int {
    be32_at(b, c) * 4294967296 + be32_at(b, c + 4)
}

/// A present field: its length, then its bytes; an absent one: the sentinel length.
pub open spec fn field_bytes(o: Option<Seq<u8>>) -> Seq<u8> {
    match o {
        Some(b) => be32(b.len() as int) + b,
        None => be32(NONE_FIELD_LEN as int),
    }
}

/// The fields one after the other.
pub open spec fn fields_bytes(f: Seq<Option<Seq<u8>>>) -> Seq<u8>
    decreases f.len(),
{
    if f.len() == 0 {
        Seq::empty()
    } else {
        fields_bytes(f.drop_last()) + field_bytes(f.last())
    }
}

pub open spec fn utf8(s: Seq<char>) -> Seq<u8> {
    vstd::utf8::encode_utf8(s)
}

pub open spec fn opt_utf8(o: Option<Seq<char>>) -> Option<Seq<u8>> {
    match o {
        Some(s) => Some(utf8(s)),
        None => None,
    }
}

pub open spec fn opt_data(o: Option<RyaTypeModel>) -> Option<Seq<char>> {
    match o {
        Some(t) => Some(t.data),
        None => None,
    }
}

/// The stored fields of a statement, in order.
pub open spec fn statement_fields(s: RyaStatementModel) -> Seq<Option<Seq<u8>>> {
    seq![
        Some(utf8(s.subject.data)),
        Some(utf8(s.predicate.data)),
        opt_utf8(s.object.data_type),
        Some(utf8(s.object.data)),
        opt_utf8(s.object.language),
        opt_utf8(opt_data(s.context)),
        opt_utf8(s.qualifier),
        s.column_visibility,
        s.value,
    ]
}

/// The stored form of a statement: the version, the fields, the timestamp.
pub open spec fn statement_bytes(s: RyaStatementModel) -> Seq<u8> {
    seq![STATEMENT_VALUE_VERSION] + fields_bytes(statement_fields(s)) + be64(s.timestamp as int)
}

pub open spec fn field_too_long_text() -> Seq<char> {
    "Fjall statement field exceeds u32 length"@
}

pub open spec fn field_sentinel_text() -> Seq<char> {
    "Fjall statement field length collides with None sentinel"@
}

/// Why a field cannot be stored, if it cannot.
pub open spec fn field_error(o: Option<Seq<u8>>) -> Option<Seq<char>> {
    match o {
        Some(b) => if b.len() > u32::MAX {
            Some(field_too_long_text())
        } else if b.len() == u32::MAX {
            Some(field_sentinel_text())
        } else {
            None
        },
        None => None,
    }
}

/// The error of the first field that cannot be stored.
pub open spec fn first_field_error(f: Seq<Option<Seq<u8>>>) -> Option<Seq<char>>
    decreases f.len(),
{
    if f.len() == 0 {
        None
    } else {
        match first_field_error(f.drop_last()) {
            Some(e) => Some(e),
            None => field_error(f.last()),
        }
    }
}

/// The stored form of a statement, or why it cannot be stored.
pub open spec fn serialize_statement_spec(s: RyaStatementModel) -> Result<Seq<u8>, Seq<char>> {
    match first_field_error(statement_fields(s)) {
        Some(e) => Err(e),
        None => Ok(statement_bytes(s)),
    }
}

fn push_be32(bytes: &mut Vec<u8>, n: u32)
    ensures
        final(bytes)@ == old(bytes)@ + be32(n as int),
{
    bytes.push((n / 16777216) as u8);
    bytes.push(((n / 65536) % 256) as u8);
    bytes.push(((n / 256) % 256) as u8);
    bytes.push((n % 256) as u8);
    assert(final(bytes)@ =~= old(bytes)@ + be32(n as int));
}

fn push_be64(bytes: &mut Vec<u8>, n: u64)
    ensures
        final(bytes)@ == old(bytes)@ + be64(n as int),
{
    push_be32(bytes, (n / 4294967296) as u32);
    push_be32(bytes, (n % 4294967296) as u32);
    assert(final(bytes)@ =~= old(bytes)@ + be64(n as int));
}

/// Appends a present field: its length, then its bytes.
fn write_bytes(bytes: &mut Vec<u8>, value: &[u8]) -> (r: Result<(), String>)
    ensures
        match field_error(Some(value@)) {
            Some(e) => r matches Err(x) && x@ == e,
            None => r is Ok && final(bytes)@ == old(bytes)@ + field_bytes(Some(value@)),
        },
{
    if value.len() > 4294967295 {
        return Err(to_owned("Fjall statement field exceeds u32 length"));
    }
    if value.len() == 4294967295 {
        return Err(to_owned("Fjall statement field length collides with None sentinel"));
    }
    push_be32(bytes, value.len() as u32);
    extend_bytes(bytes, value);
    assert(final(bytes)@ =~= old(bytes)@ + field_bytes(Some(value@)));
    Ok(())
}

/// Appends a field that may be absent.
fn write_optional_bytes(bytes: &mut Vec<u8>, value: Option<&[u8]>) -> (r: Result<(), String>)
    ensures
        match field_error(
            match value {
                Some(v) => Some(v@),
                None => None,
            },
        ) {
            Some(e) => r matches Err(x) && x@ == e,
            None => r is Ok && final(bytes)@ == old(bytes)@ + field_bytes(
                match value {
                    Some(v) => Some(v@),
                    None => None,
                },
            ),
        },
{
    match value {
        Some(v) => write_bytes(bytes, v),
        None => {
            push_be32(bytes, 4294967295);
            Ok(())
        },
    }
}

fn write_text(bytes: &mut Vec<u8>, value: &str) -> (r: Result<(), String>)
    ensures
        match field_error(Some(utf8(value@))) {
            Some(e) => r matches Err(x) && x@ == e,
            None => r is Ok && final(bytes)@ == old(bytes)@ + field_bytes(Some(utf8(value@))),
        },
{
    let b = str_bytes(value);
    write_bytes(bytes, b.as_slice())
}

fn write_optional_text(bytes: &mut Vec<u8>, value: Option<&str>) -> (r: Result<(), String>)
    ensures
        match field_error(
            match value {
                Some(v) => Some(utf8(v@)),
                None => None,
            },
        ) {
            Some(e) => r matches Err(x) && x@ == e,
            None => r is Ok && final(bytes)@ == old(bytes)@ + field_bytes(
                match value {
                    Some(v) => Some(utf8(v@)),
                    None => None,
                },
            ),
        },
{
    match value {
        Some(v) => write_text(bytes, v),
        None => {
            push_be32(bytes, 4294967295);
            Ok(())
        },
    }
}


proof fn lemma_fields_step(f: Seq<Option<Seq<u8>>>, k: int)
    requires
        0 <= k < f.len(),
    ensures
        fields_bytes(f.take(k + 1)) == fields_bytes(f.take(k)) + field_bytes(f[k]),
        first_field_error(f.take(k + 1)) == match first_field_error(f.take(k)) {
            Some(e) => Some(e),
            None => field_error(f[k]),
        },
{
    assert(f.take(k + 1).drop_last() =~= f.take(k));
}

/// Once a prefix of the fields has an error, the first error of all the fields is that one.
proof fn lemma_first_error_prefix(f: Seq<Option<Seq<u8>>>, k: int)
    requires
        0 <= k <= f.len(),
        first_field_error(f.take(k)) is Some,
    ensures
        first_field_error(f) == first_field_error(f.take(k)),
    decreases f.len() - k,
{
    if k == f.len() {
        assert(f.take(k) =~= f);
    } else {
        lemma_fields_step(f, k);
        lemma_first_error_prefix(f, k + 1);
    }
}

pub open spec fn opt_byte_views(s: Seq<Option<Vec<u8>>>) -> Seq<Option<Seq<u8>>> {
    s.map_values(|o: Option<Vec<u8>>| crate::domain::opt_bytes_view(o))
}

fn opt_text_bytes(o: Option<&str>) -> (r: Option<Vec<u8>>)
    ensures
        crate::domain::opt_bytes_view(r) == opt_utf8(
            match o {
                Some(s) => Some(s@),
                None => None,
            },
        ),
{
    match o {
        Some(s) => Some(str_bytes(s)),
        None => None,
    }
}

/// The stored fields of a statement, as bytes.
fn field_values(statement: &RyaStatement) -> (r: Vec<Option<Vec<u8>>>)
    ensures
        opt_byte_views(r@) == statement_fields(statement@),
{
    let mut out: Vec<Option<Vec<u8>>> = Vec::new();
    out.push(Some(str_bytes(statement.subject.data())));
    out.push(Some(str_bytes(statement.predicate.data())));
    out.push(opt_text_bytes(statement.object.data_type()));
    out.push(Some(str_bytes(statement.object.data())));
    out.push(opt_text_bytes(statement.object.language()));
    let context: Option<&str> = match &statement.context {
        Some(c) => Some(c.data()),
        None => None,
    };
    out.push(opt_text_bytes(context));
    out.push(opt_text_bytes(crate::domain::opt_as_str(&statement.qualifier)));
    out.push(crate::domain::opt_bytes_clone(&statement.column_visibility));
    out.push(crate::domain::opt_bytes_clone(&statement.value));
    assert(opt_byte_views(out@) =~= statement_fields(statement@));
    out
}

/// The stored form of a statement: a version byte, the fields (subject, predicate, object
/// datatype, data and language, context, qualifier, visibility, value) each with its
/// big-endian length or the absent sentinel, and the big-endian timestamp.
pub fn serialize_statement(statement: &RyaStatement) -> (r: Result<Vec<u8>, String>)
    ensures
        match serialize_statement_spec(statement@) {
            Ok(b) => r matches Ok(v) && v@ == b,
            Err(e) => r matches Err(x) && x@ == e,
        },
{
    let fields = field_values(statement);
    let ghost f = statement_fields(statement@);
    let mut bytes: Vec<u8> = Vec::new();
    bytes.push(STATEMENT_VALUE_VERSION);
    assert(f.take(0) =~= Seq::<Option<Seq<u8>>>::empty());
    assert(bytes@ =~= seq![STATEMENT_VALUE_VERSION] + fields_bytes(f.take(0)));
    let mut k: usize = 0;
    while k < fields.len()
        invariant
            k <= fields.len(),
            f == opt_byte_views(fields@),
            f == statement_fields(statement@),
            f.len() == fields.len(),
            first_field_error(f.take(k as int)) is None,
            bytes@ == seq![STATEMENT_VALUE_VERSION] + fields_bytes(f.take(k as int)),
        decreases fields.len() - k,
    {
        let field: Option<&[u8]> = match &fields[k] {
            Some(v) => Some(v.as_slice()),
            None => None,
        };
        assert(f[k as int] == match field {
            Some(v) => Some(v@),
            None => None::<Seq<u8>>,
        });
        let res = write_optional_bytes(&mut bytes, field);
        proof {
            lemma_fields_step(f, k as int);
        }
        match res {
            Err(e) => {
                proof {
                    lemma_first_error_prefix(f, k + 1);
                }
                return Err(e);
            },
            Ok(()) => {},
        }
        assert(bytes@ =~= seq![STATEMENT_VALUE_VERSION] + fields_bytes(f.take(k + 1)));
        k = k + 1;
    }
    assert(f.take(f.len() as int) =~= f);
    push_be64(&mut bytes, statement.timestamp);
    Ok(bytes)
}


// ---------------------------------------------------------------------------
// Reading a stored statement
// ---------------------------------------------------------------------------

pub open spec fn cursor_overflow_text() -> Seq<char> {
    "Fjall statement cursor overflow"@
}

/// The byte at `c`, and the cursor after it.
pub open spec fn read_u8_spec(b: Seq<u8>, c: int) -> Result<(u8, int), Seq<char>> {
    if 0 <= c < b.len() {
        Ok((b[c], c + 1))
    } else {
        Err("Truncated Fjall statement version"@)
    }
}

/// The big-endian length at `c`, and the cursor after it.
pub open spec fn read_len_spec(b: Seq<u8>, c: int) -> Result<(int, int), Seq<char>> {
    if c + 4 > usize::MAX {
        Err(cursor_overflow_text())
    } else if c + 4 > b.len() {
        Err("Truncated Fjall statement field length"@)
    } else {
        Ok((be32_at(b, c), c + 4))
    }
}

/// The `len` bytes at `c`, and the cursor after them.
pub open spec fn read_len_bytes_spec(b: Seq<u8>, c: int, len: int) -> Result<(Seq<u8>, int), Seq<char>> {
    if c + len > usize::MAX {
        Err(cursor_overflow_text())
    } else if c + len > b.len() {
        Err("Truncated Fjall statement field"@)
    } else {
        Ok((b.subrange(c, c + len), c + len))
    }
}

/// A field that may be absent, and the cursor after it.
pub open spec fn read_opt_bytes_spec(b: Seq<u8>, c: int) -> Result<(Option<Seq<u8>>, int), Seq<char>> {
    match read_len_spec(b, c) {
        Err(e) => Err(e),
        Ok((len, c1)) => if len == NONE_FIELD_LEN as int {
            Ok((None, c1))
        } else {
            match read_len_bytes_spec(b, c1, len) {
                Err(e) => Err(e),
                Ok((v, c2)) => Ok((Some(v), c2)),
            }
        },
    }
}

/// A present field, and the cursor after it.
pub open spec fn read_bytes_spec(b: Seq<u8>, c: int) -> Result<(Seq<u8>, int), Seq<char>> {
    match read_opt_bytes_spec(b, c) {
        Err(e) => Err(e),
        Ok((None, _)) => Err("Required Fjall statement field is marked None"@),
        Ok((Some(v), c1)) => Ok((v, c1)),
    }
}

/// A present text field, and the cursor after it.
pub open spec fn read_text_spec(b: Seq<u8>, c: int) -> Result<(Seq<char>, int), Seq<char>> {
    match read_bytes_spec(b, c) {
        Err(e) => Err(e),
        Ok((v, c1)) => if vstd::utf8::valid_utf8(v) {
            Ok((vstd::utf8::decode_utf8(v), c1))
        } else {
            Err("Serialized Fjall statement text is not UTF-8: "@ + utf8_error_text(v))
        },
    }
}

/// A text field that may be absent, and the cursor after it.
pub open spec fn read_opt_text_spec(b: Seq<u8>, c: int) -> Result<(Option<Seq<char>>, int), Seq<char>> {
    match read_opt_bytes_spec(b, c) {
        Err(e) => Err(e),
        Ok((None, c1)) => Ok((None, c1)),
        Ok((Some(v), c1)) => if vstd::utf8::valid_utf8(v) {
            Ok((Some(vstd::utf8::decode_utf8(v)), c1))
        } else {
            Err("Serialized Fjall statement optional text is not UTF-8: "@ + utf8_error_text(v))
        },
    }
}

/// The big-endian timestamp at `c`, and the cursor after it.
pub open spec fn read_u64_spec(b: Seq<u8>, c: int) -> Result<(int, int), Seq<char>> {
    if c + 8 > usize::MAX {
        Err("Fjall statement timestamp cursor overflow"@)
    } else if c + 8 > b.len() {
        Err("Truncated Fjall statement timestamp"@)
    } else {
        Ok((be64_at(b, c), c + 8))
    }
}

/// What `RyaIri::new` says of text that is no IRI.
pub open spec fn iri_error_text(d: Seq<char>) -> Seq<char> {
    if d.len() == 0 {
        "Empty not IRI"@
    } else {
        crate::domain::no_local_name_message(d)
    }
}

pub open spec fn opt_iri_model(o: Option<Seq<char>>) -> Option<RyaTypeModel> {
    match o {
        Some(d) => Some(iri_model(d)),
        None => None,
    }
}

/// The tail of a stored statement, from its context on.
pub open spec fn decode_tail(
    b: Seq<u8>,
    c5: int,
    subject: Seq<char>,
    predicate: Seq<char>,
    object: RyaTypeModel,
) -> Result<RyaStatementModel, Seq<char>> {
    match read_opt_text_spec(b, c5) {
        Err(e) => Err(e),
        Ok((ctx, c6)) => if ctx matches Some(d) && !valid_iri_spec(d) {
            Err("Invalid serialized context IRI: "@ + iri_error_text(ctx->0))
        } else {
            match read_opt_text_spec(b, c6) {
                Err(e) => Err(e),
                Ok((qual, c7)) => match read_opt_bytes_spec(b, c7) {
                    Err(e) => Err(e),
                    Ok((cv, c8)) => match read_opt_bytes_spec(b, c8) {
                        Err(e) => Err(e),
                        Ok((val, c9)) => match read_u64_spec(b, c9) {
                            Err(e) => Err(e),
                            Ok((ts, c10)) => if c10 != b.len() {
                                Err("Serialized Fjall statement has trailing bytes"@)
                            } else {
                                Ok(
                                    RyaStatementModel {
                                        subject: iri_model(subject),
                                        predicate: iri_model(predicate),
                                        object,
                                        context: opt_iri_model(ctx),
                                        qualifier: qual,
                                        column_visibility: cv,
                                        value: val,
                                        timestamp: ts as u64,
                                    },
                                )
                            },
                        },
                    },
                },
            }
        },
    }
}

/// The statement that stored bytes hold, or the first fault met in reading them.
pub open spec fn deserialize_statement_spec(b: Seq<u8>) -> Result<RyaStatementModel, Seq<char>> {
    match read_u8_spec(b, 0) {
        Err(e) => Err(e),
        Ok((v, c0)) => if v != STATEMENT_VALUE_VERSION {
            Err("Unsupported Fjall statement value version: "@ + decimal(v as nat))
        } else {
            match read_text_spec(b, c0) {
                Err(e) => Err(e),
                Ok((subject, c1)) => if !valid_iri_spec(subject) {
                    Err("Invalid serialized subject IRI: "@ + iri_error_text(subject))
                } else {
                    match read_text_spec(b, c1) {
                        Err(e) => Err(e),
                        Ok((predicate, c2)) => if !valid_iri_spec(predicate) {
                            Err("Invalid serialized predicate IRI: "@ + iri_error_text(predicate))
                        } else {
                            match read_opt_text_spec(b, c2) {
                                Err(e) => Err(e),
                                Ok((dt, c3)) => match read_text_spec(b, c3) {
                                    Err(e) => Err(e),
                                    Ok((data, c4)) => match read_opt_text_spec(b, c4) {
                                        Err(e) => Err(e),
                                        Ok((lang, c5)) => decode_tail(
                                            b,
                                            c5,
                                            subject,
                                            predicate,
                                            RyaTypeModel { data_type: dt, data, language: lang },
                                        ),
                                    },
                                },
                            }
                        },
                    }
                },
            }
        },
    }
}

fn read_u8(bytes: &[u8], cursor: &mut usize) -> (r: Result<u8, String>)
    ensures
        match read_u8_spec(bytes@, *old(cursor) as int) {
            Ok((v, c)) => r == Ok::<u8, String>(v) && *final(cursor) == c,
            Err(e) => r matches Err(x) && x@ == e,
        },
{
    if *cursor >= bytes.len() {
        return Err(to_owned("Truncated Fjall statement version"));
    }
    let v = bytes[*cursor];
    *cursor = *cursor + 1;
    Ok(v)
}

fn read_len(bytes: &[u8], cursor: &mut usize) -> (r: Result<u32, String>)
    ensures
        match read_len_spec(bytes@, *old(cursor) as int) {
            Ok((v, c)) => r == Ok::<u32, String>(v as u32) && *final(cursor) == c && v <= u32::MAX,
            Err(e) => r matches Err(x) && x@ == e,
        },
{
    let end = match cursor.checked_add(4) {
        Some(e) => e,
        None => {
            return Err(to_owned("Fjall statement cursor overflow"));
        },
    };
    if end > bytes.len() {
        return Err(to_owned("Truncated Fjall statement field length"));
    }
    let c = *cursor;
    let v: u64 = bytes[c] as u64 * 16777216 + bytes[c + 1] as u64 * 65536 + bytes[c + 2] as u64
        * 256 + bytes[c + 3] as u64;
    *cursor = end;
    Ok(v as u32)
}

fn read_len_bytes(bytes: &[u8], cursor: &mut usize, len: u32) -> (r: Result<Vec<u8>, String>)
    ensures
        match read_len_bytes_spec(bytes@, *old(cursor) as int, len as int) {
            Ok((v, c)) => r matches Ok(x) && x@ == v && *final(cursor) == c,
            Err(e) => r matches Err(x) && x@ == e,
        },
{
    let end = match cursor.checked_add(len as usize) {
        Some(e) => e,
        None => {
            return Err(to_owned("Fjall statement cursor overflow"));
        },
    };
    if end > bytes.len() {
        return Err(to_owned("Truncated Fjall statement field"));
    }
    let chunk = sub_bytes(bytes, *cursor, end);
    *cursor = end;
    Ok(chunk)
}

fn read_optional_bytes(bytes: &[u8], cursor: &mut usize) -> (r: Result<Option<Vec<u8>>, String>)
    ensures
        match read_opt_bytes_spec(bytes@, *old(cursor) as int) {
            Ok((v, c)) => r matches Ok(x) && crate::domain::opt_bytes_view(x) == v && *final(cursor) == c,
            Err(e) => r matches Err(x) && x@ == e,
        },
{
    let len = read_len(bytes, cursor)?;
    if len == 4294967295 {
        return Ok(None);
    }
    let v = read_len_bytes(bytes, cursor, len)?;
    Ok(Some(v))
}

fn read_bytes(bytes: &[u8], cursor: &mut usize) -> (r: Result<Vec<u8>, String>)
    ensures
        match read_bytes_spec(bytes@, *old(cursor) as int) {
            Ok((v, c)) => r matches Ok(x) && x@ == v && *final(cursor) == c,
            Err(e) => r matches Err(x) && x@ == e,
        },
{
    match read_optional_bytes(bytes, cursor) {
        Err(e) => Err(e),
        Ok(None) => Err(to_owned("Required Fjall statement field is marked None")),
        Ok(Some(v)) => Ok(v),
    }
}

fn read_text(bytes: &[u8], cursor: &mut usize) -> (r: Result<String, String>)
    ensures
        match read_text_spec(bytes@, *old(cursor) as int) {
            Ok((v, c)) => r matches Ok(x) && x@ == v && *final(cursor) == c,
            Err(e) => r matches Err(x) && x@ == e,
        },
{
    let v = read_bytes(bytes, cursor)?;
    match utf8_decode(v.as_slice()) {
        Ok(s) => Ok(s),
        Err(e) => Err(concat("Serialized Fjall statement text is not UTF-8: ", e.as_str())),
    }
}

fn read_optional_text(bytes: &[u8], cursor: &mut usize) -> (r: Result<Option<String>, String>)
    ensures
        match read_opt_text_spec(bytes@, *old(cursor) as int) {
            Ok((v, c)) => r matches Ok(x) && crate::domain::opt_view(x) == v && *final(cursor) == c,
            Err(e) => r matches Err(x) && x@ == e,
        },
{
    match read_optional_bytes(bytes, cursor)? {
        None => Ok(None),
        Some(v) => match utf8_decode(v.as_slice()) {
            Ok(s) => Ok(Some(s)),
            Err(e) => Err(
                concat("Serialized Fjall statement optional text is not UTF-8: ", e.as_str()),
            ),
        },
    }
}

fn read_u64(bytes: &[u8], cursor: &mut usize) -> (r: Result<u64, String>)
    ensures
        match read_u64_spec(bytes@, *old(cursor) as int) {
            Ok((v, c)) => r == Ok::<u64, String>(v as u64) && *final(cursor) == c && v <= u64::MAX,
            Err(e) => r matches Err(x) && x@ == e,
        },
{
    let end = match cursor.checked_add(8) {
        Some(e) => e,
        None => {
            return Err(to_owned("Fjall statement timestamp cursor overflow"));
        },
    };
    if end > bytes.len() {
        return Err(to_owned("Truncated Fjall statement timestamp"));
    }
    let c = *cursor;
    let hi: u64 = bytes[c] as u64 * 16777216 + bytes[c + 1] as u64 * 65536 + bytes[c + 2] as u64
        * 256 + bytes[c + 3] as u64;
    let lo: u64 = bytes[c + 4] as u64 * 16777216 + bytes[c + 5] as u64 * 65536 + bytes[c + 6] as u64
        * 256 + bytes[c + 7] as u64;
    *cursor = end;
    Ok(hi * 4294967296 + lo)
}


fn deserialize_tail(
    bytes: &[u8],
    cursor: &mut usize,
    subject: RyaIri,
    predicate: RyaIri,
    object: RyaType,
) -> (r: Result<RyaStatement, String>)
    ensures
        match decode_tail(bytes@, *old(cursor) as int, subject@.data, predicate@.data, object@) {
            Ok(m) => r matches Ok(x) && x@ == m,
            Err(e) => r matches Err(x) && x@ == e,
        },
{
    subject.check_wf();
    predicate.check_wf();
    let context_text = read_optional_text(bytes, cursor)?;
    let context = match context_text {
        Some(t) => match RyaIri::new(t.as_str()) {
            Ok(iri) => Some(iri),
            Err(e) => {
                return Err(concat("Invalid serialized context IRI: ", e.as_str()));
            },
        },
        None => None,
    };
    let qualifier = read_optional_text(bytes, cursor)?;
    let column_visibility = read_optional_bytes(bytes, cursor)?;
    let value = read_optional_bytes(bytes, cursor)?;
    let timestamp = read_u64(bytes, cursor)?;
    if *cursor != bytes.len() {
        return Err(to_owned("Serialized Fjall statement has trailing bytes"));
    }
    Ok(
        RyaStatement {
            subject,
            predicate,
            object,
            context,
            qualifier,
            column_visibility,
            value,
            timestamp,
        },
    )
}

/// Reads a stored statement back; the first fault met (a truncated or malformed field, bad
/// UTF-8, an invalid IRI, an unknown version, trailing bytes) is the error.
pub fn deserialize_statement(bytes: &[u8]) -> (r: Result<RyaStatement, String>)
    ensures
        match deserialize_statement_spec(bytes@) {
            Ok(m) => r matches Ok(x) && x@ == m,
            Err(e) => r matches Err(x) && x@ == e,
        },
{
    let mut cursor: usize = 0;
    let version = read_u8(bytes, &mut cursor)?;
    if version != STATEMENT_VALUE_VERSION {
        return Err(concat("Unsupported Fjall statement value version: ", u64_to_string(version as u64).as_str()));
    }
    let subject_text = read_text(bytes, &mut cursor)?;
    let subject = match RyaIri::new(subject_text.as_str()) {
        Ok(iri) => iri,
        Err(e) => {
            return Err(concat("Invalid serialized subject IRI: ", e.as_str()));
        },
    };
    let predicate_text = read_text(bytes, &mut cursor)?;
    let predicate = match RyaIri::new(predicate_text.as_str()) {
        Ok(iri) => iri,
        Err(e) => {
            return Err(concat("Invalid serialized predicate IRI: ", e.as_str()));
        },
    };
    let data_type = read_optional_text(bytes, &mut cursor)?;
    let data = read_text(bytes, &mut cursor)?;
    let language = read_optional_text(bytes, &mut cursor)?;
    let object = RyaType::from_parts(data_type, data, language);
    deserialize_tail(bytes, &mut cursor, subject, predicate, object)
}


// ---------------------------------------------------------------------------
// What a read gives back of a write
// ---------------------------------------------------------------------------

proof fn lemma_be32_roundtrip(b: Seq<u8>, c: int, n: int)
    requires
        0 <= n <= u32::MAX,
        0 <= c,
        c + 4 <= b.len(),
        b.subrange(c, c + 4) == be32(n),
    ensures
        be32_at(b, c) == n,
{
    assert(b[c] == be32(n)[0]);
    assert(b[c + 1] == be32(n)[1]);
    assert(b[c + 2] == be32(n)[2]);
    assert(b[c + 3] == be32(n)[3]);
    assert(n / 16777216 < 256);
    assert(n == (n / 16777216) * 16777216 + ((n / 65536) % 256) * 65536 + ((n / 256) % 256) * 256
        + n % 256);
}

proof fn lemma_be64_roundtrip(b: Seq<u8>, c: int, n: int)
    requires
        0 <= n <= u64::MAX,
        0 <= c,
        c + 8 <= b.len(),
        b.subrange(c, c + 8) == be64(n),
    ensures
        be64_at(b, c) == n,
{
    assert(b.subrange(c, c + 4) =~= be64(n).subrange(0, 4));
    assert(be64(n).subrange(0, 4) =~= be32(n / 4294967296));
    assert(b.subrange(c + 4, c + 8) =~= be64(n).subrange(4, 8));
    assert(be64(n).subrange(4, 8) =~= be32(n % 4294967296));
    lemma_be32_roundtrip(b, c, n / 4294967296);
    lemma_be32_roundtrip(b, c + 4, n % 4294967296);
}

/// A field written at `c` reads back as itself.
proof fn lemma_read_field(b: Seq<u8>, c: int, o: Option<Seq<u8>>)
    requires
        0 <= c,
        c + field_bytes(o).len() <= b.len(),
        b.len() <= usize::MAX,
        b.subrange(c, c + field_bytes(o).len()) == field_bytes(o),
        field_error(o) is None,
    ensures
        read_opt_bytes_spec(b, c) == Ok::<(Option<Seq<u8>>, int), Seq<char>>(
            (o, c + field_bytes(o).len()),
        ),
{
    let fb = field_bytes(o);
    assert(b.subrange(c, c + 4) =~= fb.subrange(0, 4));
    match o {
        Some(v) => {
            assert(fb.subrange(0, 4) =~= be32(v.len() as int));
            lemma_be32_roundtrip(b, c, v.len() as int);
            assert(b.subrange(c + 4, c + 4 + v.len()) =~= fb.subrange(4, fb.len() as int));
            assert(fb.subrange(4, fb.len() as int) =~= v);
        },
        None => {
            assert(fb.subrange(0, 4) =~= be32(NONE_FIELD_LEN as int));
            lemma_be32_roundtrip(b, c, NONE_FIELD_LEN as int);
        },
    }
}

/// The bytes of a prefix of the fields begin the bytes of all of them.
proof fn lemma_fields_prefix(f: Seq<Option<Seq<u8>>>, k: int)
    requires
        0 <= k <= f.len(),
    ensures
        fields_bytes(f.take(k)).len() <= fields_bytes(f).len(),
        fields_bytes(f).subrange(0, fields_bytes(f.take(k)).len() as int) == fields_bytes(f.take(k)),
    decreases f.len() - k,
{
    if k == f.len() {
        assert(f.take(k) =~= f);
        assert(fields_bytes(f).subrange(0, fields_bytes(f).len() as int) =~= fields_bytes(f));
    } else {
        lemma_fields_prefix(f, k + 1);
        lemma_fields_step(f, k);
        let a = fields_bytes(f.take(k));
        let ab = fields_bytes(f.take(k + 1));
        assert(fields_bytes(f).subrange(0, a.len() as int) =~= ab.subrange(0, a.len() as int));
        assert(ab.subrange(0, a.len() as int) =~= a);
    }
}

/// With no field error in the whole, there is none in any field.
proof fn lemma_no_field_error(f: Seq<Option<Seq<u8>>>, k: int)
    requires
        0 <= k < f.len(),
        first_field_error(f) is None,
    ensures
        field_error(f[k]) is None,
    decreases f.len(),
{
    if k < f.len() - 1 {
        assert(f.drop_last()[k] == f[k]);
        lemma_no_field_error(f.drop_last(), k);
    }
}

/// Where field `k` of a stored statement begins.
pub open spec fn field_offset(s: RyaStatementModel, k: int) -> int {
    1 + fields_bytes(statement_fields(s).take(k)).len() as int
}

/// Field `k` of a stored statement reads back as itself.
#[verifier::rlimit(40)]
proof fn lemma_field_at(s: RyaStatementModel, k: int)
    requires
        0 <= k < 9,
        first_field_error(statement_fields(s)) is None,
        statement_bytes(s).len() <= usize::MAX,
    ensures
        read_opt_bytes_spec(statement_bytes(s), field_offset(s, k)) == Ok::<
            (Option<Seq<u8>>, int),
            Seq<char>,
        >((statement_fields(s)[k], field_offset(s, k + 1))),
{
    let f = statement_fields(s);
    let b = statement_bytes(s);
    lemma_fields_step(f, k);
    lemma_fields_prefix(f, k + 1);
    lemma_no_field_error(f, k);
    let a = fields_bytes(f.take(k));
    let ab = fields_bytes(f.take(k + 1));
    let fb = field_bytes(f[k]);
    let al: int = a.len() as int;
    let fbl: int = fb.len() as int;
    assert(b.subrange(1 + al, 1 + al + fbl) =~= fields_bytes(f).subrange(al, al + fbl));
    assert(fields_bytes(f).subrange(al, al + fbl) =~= ab.subrange(al, ab.len() as int));
    assert(ab.subrange(al, ab.len() as int) =~= fb);
    lemma_read_field(b, 1 + al, f[k]);
}

proof fn lemma_text_at(s: RyaStatementModel, k: int, t: Seq<char>)
    requires
        0 <= k < 9,
        first_field_error(statement_fields(s)) is None,
        statement_bytes(s).len() <= usize::MAX,
        statement_fields(s)[k] == Some(utf8(t)),
    ensures
        read_text_spec(statement_bytes(s), field_offset(s, k)) == Ok::<(Seq<char>, int), Seq<char>>(
            (t, field_offset(s, k + 1)),
        ),
{
    lemma_field_at(s, k);
    vstd::utf8::encode_utf8_valid_utf8(t);
    vstd::utf8::encode_utf8_decode_utf8(t);
}

proof fn lemma_opt_text_at(s: RyaStatementModel, k: int, t: Option<Seq<char>>)
    requires
        0 <= k < 9,
        first_field_error(statement_fields(s)) is None,
        statement_bytes(s).len() <= usize::MAX,
        statement_fields(s)[k] == opt_utf8(t),
    ensures
        read_opt_text_spec(statement_bytes(s), field_offset(s, k)) == Ok::<
            (Option<Seq<char>>, int),
            Seq<char>,
        >((t, field_offset(s, k + 1))),
{
    lemma_field_at(s, k);
    if t is Some {
        vstd::utf8::encode_utf8_valid_utf8(t->0);
        vstd::utf8::encode_utf8_decode_utf8(t->0);
    }
}

proof fn lemma_tail_roundtrip(s: RyaStatementModel)
    requires
        crate::domain::iri_wf(s.subject),
        crate::domain::iri_wf(s.predicate),
        s.context matches Some(c) ==> crate::domain::iri_wf(c),
        first_field_error(statement_fields(s)) is None,
        statement_bytes(s).len() <= usize::MAX,
    ensures
        decode_tail(statement_bytes(s), field_offset(s, 5), s.subject.data, s.predicate.data, s.object)
            == Ok::<RyaStatementModel, Seq<char>>(s),
{
    let f = statement_fields(s);
    let b = statement_bytes(s);
    lemma_opt_text_at(s, 5, opt_data(s.context));
    lemma_opt_text_at(s, 6, s.qualifier);
    lemma_field_at(s, 7);
    lemma_field_at(s, 8);
    let c9 = field_offset(s, 9);
    assert(f.take(9) =~= f);
    assert(b.subrange(c9, c9 + 8) =~= be64(s.timestamp as int));
    lemma_be64_roundtrip(b, c9, s.timestamp as int);
    assert(c9 + 8 == b.len());
    assert(opt_iri_model(opt_data(s.context)) == s.context);
    let ctx = opt_data(s.context);
    assert(!(ctx matches Some(d) && !valid_iri_spec(d)));
}

/// Bytes `b2` agree with the stored statement up to where its timestamp begins.
pub open spec fn agrees_before_timestamp(s: RyaStatementModel, b2: Seq<u8>) -> bool {
    let c9 = field_offset(s, 9);
    c9 <= b2.len() && b2.len() <= usize::MAX && forall|i: int| 0 <= i < c9 ==> b2[i]
        == statement_bytes(s)[i]
}

/// Field `k` reads as itself from any bytes that agree with the stored statement up to
/// its timestamp.
#[verifier::rlimit(40)]
proof fn lemma_field_in(s: RyaStatementModel, k: int, b2: Seq<u8>)
    requires
        0 <= k < 9,
        first_field_error(statement_fields(s)) is None,
        statement_bytes(s).len() <= usize::MAX,
        agrees_before_timestamp(s, b2),
    ensures
        read_opt_bytes_spec(b2, field_offset(s, k)) == Ok::<(Option<Seq<u8>>, int), Seq<char>>(
            (statement_fields(s)[k], field_offset(s, k + 1)),
        ),
{
    let f = statement_fields(s);
    let b = statement_bytes(s);
    lemma_fields_step(f, k);
    lemma_fields_prefix(f, k + 1);
    lemma_fields_prefix(f, 9);
    lemma_no_field_error(f, k);
    assert(f.take(9) =~= f);
    let a = fields_bytes(f.take(k));
    let ab = fields_bytes(f.take(k + 1));
    let fb = field_bytes(f[k]);
    let al: int = a.len() as int;
    let fbl: int = fb.len() as int;
    assert(b.subrange(1 + al, 1 + al + fbl) =~= fields_bytes(f).subrange(al, al + fbl));
    assert(fields_bytes(f).subrange(al, al + fbl) =~= ab.subrange(al, ab.len() as int));
    assert(ab.subrange(al, ab.len() as int) =~= fb);
    assert(b2.subrange(1 + al, 1 + al + fbl) =~= b.subrange(1 + al, 1 + al + fbl));
    lemma_read_field(b2, 1 + al, f[k]);
}

proof fn lemma_text_in(s: RyaStatementModel, k: int, t: Seq<char>, b2: Seq<u8>)
    requires
        0 <= k < 9,
        first_field_error(statement_fields(s)) is None,
        statement_bytes(s).len() <= usize::MAX,
        statement_fields(s)[k] == Some(utf8(t)),
        agrees_before_timestamp(s, b2),
    ensures
        read_text_spec(b2, field_offset(s, k)) == Ok::<(Seq<char>, int), Seq<char>>(
            (t, field_offset(s, k + 1)),
        ),
{
    lemma_field_in(s, k, b2);
    vstd::utf8::encode_utf8_valid_utf8(t);
    vstd::utf8::encode_utf8_decode_utf8(t);
}

proof fn lemma_opt_text_in(s: RyaStatementModel, k: int, t: Option<Seq<char>>, b2: Seq<u8>)
    requires
        0 <= k < 9,
        first_field_error(statement_fields(s)) is None,
        statement_bytes(s).len() <= usize::MAX,
        statement_fields(s)[k] == opt_utf8(t),
        agrees_before_timestamp(s, b2),
    ensures
        read_opt_text_spec(b2, field_offset(s, k)) == Ok::<
            (Option<Seq<char>>, int),
            Seq<char>,
        >((t, field_offset(s, k + 1))),
{
    lemma_field_in(s, k, b2);
    if t is Some {
        vstd::utf8::encode_utf8_valid_utf8(t->0);
        vstd::utf8::encode_utf8_decode_utf8(t->0);
    }
}

/// Bytes that agree with a stored statement up to its timestamp decode as it would, up to
/// the reading of the timestamp.
proof fn lemma_decode_prefix(s: RyaStatementModel, b2: Seq<u8>)
    requires
        crate::domain::iri_wf(s.subject),
        crate::domain::iri_wf(s.predicate),
        s.context matches Some(c) ==> crate::domain::iri_wf(c),
        serialize_statement_spec(s) is Ok,
        statement_bytes(s).len() <= usize::MAX,
        agrees_before_timestamp(s, b2),
    ensures
        deserialize_statement_spec(b2) == match read_u64_spec(b2, field_offset(s, 9)) {
            Err(e) => Err(e),
            Ok((ts, c10)) => if c10 != b2.len() {
                Err("Serialized Fjall statement has trailing bytes"@)
            } else {
                Ok::<RyaStatementModel, Seq<char>>(
                    RyaStatementModel {
                        subject: s.subject,
                        predicate: s.predicate,
                        object: s.object,
                        context: s.context,
                        qualifier: s.qualifier,
                        column_visibility: s.column_visibility,
                        value: s.value,
                        timestamp: ts as u64,
                    },
                )
            },
        },
{
    let f = statement_fields(s);
    let b = statement_bytes(s);
    assert(f.take(0) =~= Seq::<Option<Seq<u8>>>::empty());
    assert(field_offset(s, 0) == 1);
    lemma_fields_prefix(f, 1);
    assert(f.take(9) =~= f);
    assert(b2[0] == b[0]);
    assert(b[0] == STATEMENT_VALUE_VERSION);
    lemma_text_in(s, 0, s.subject.data, b2);
    lemma_text_in(s, 1, s.predicate.data, b2);
    lemma_opt_text_in(s, 2, s.object.data_type, b2);
    lemma_text_in(s, 3, s.object.data, b2);
    lemma_opt_text_in(s, 4, s.object.language, b2);
    lemma_opt_text_in(s, 5, opt_data(s.context), b2);
    lemma_opt_text_in(s, 6, s.qualifier, b2);
    lemma_field_in(s, 7, b2);
    lemma_field_in(s, 8, b2);
    assert(opt_iri_model(opt_data(s.context)) == s.context);
    let ctx = opt_data(s.context);
    assert(!(ctx matches Some(d) && !valid_iri_spec(d)));
    let obj = RyaTypeModel {
        data_type: s.object.data_type,
        data: s.object.data,
        language: s.object.language,
    };
    assert(obj == s.object);
}

/// The decoder refuses a stored statement with a byte more ("trailing bytes"), one with
/// its last byte cut ("Truncated ... timestamp"), and no bytes at all ("Truncated ...
/// version").
pub proof fn law_statement_decoder_refuses_damage(s: RyaStatementModel, extra: Seq<u8>)
    requires
        crate::domain::iri_wf(s.subject),
        crate::domain::iri_wf(s.predicate),
        s.context matches Some(c) ==> crate::domain::iri_wf(c),
        serialize_statement_spec(s) is Ok,
        extra.len() > 0,
        statement_bytes(s).len() + extra.len() <= usize::MAX,
    ensures
        deserialize_statement_spec(statement_bytes(s) + extra) == Err::<RyaStatementModel, Seq<char>>(
            "Serialized Fjall statement has trailing bytes"@,
        ),
        deserialize_statement_spec(statement_bytes(s).drop_last()) == Err::<
            RyaStatementModel,
            Seq<char>,
        >("Truncated Fjall statement timestamp"@),
        deserialize_statement_spec(Seq::empty()) == Err::<RyaStatementModel, Seq<char>>(
            "Truncated Fjall statement version"@,
        ),
{
    let f = statement_fields(s);
    let b = statement_bytes(s);
    let c9 = field_offset(s, 9);
    assert(f.take(9) =~= f);
    assert(c9 + 8 == b.len());
    let longer = b + extra;
    let shorter = b.drop_last();
    assert(agrees_before_timestamp(s, longer));
    assert(agrees_before_timestamp(s, shorter));
    lemma_decode_prefix(s, longer);
    lemma_decode_prefix(s, shorter);
    assert(read_u64_spec(shorter, c9) == Err::<(int, int), Seq<char>>(
        "Truncated Fjall statement timestamp"@,
    ));
    assert(read_u64_spec(longer, c9) matches Ok((_, c10)) && c10 != longer.len());
}

/// A statement with valid IRIs that can be stored reads back as itself.
pub proof fn law_statement_codec_roundtrip(s: RyaStatementModel)
    requires
        crate::domain::iri_wf(s.subject),
        crate::domain::iri_wf(s.predicate),
        s.context matches Some(c) ==> crate::domain::iri_wf(c),
        serialize_statement_spec(s) is Ok,
        statement_bytes(s).len() <= usize::MAX,
    ensures
        deserialize_statement_spec(statement_bytes(s)) == Ok::<RyaStatementModel, Seq<char>>(s),
{
    let f = statement_fields(s);
    let b = statement_bytes(s);
    assert(f.take(0) =~= Seq::<Option<Seq<u8>>>::empty());
    assert(b[0] == STATEMENT_VALUE_VERSION);
    assert(field_offset(s, 0) == 1);
    lemma_text_at(s, 0, s.subject.data);
    lemma_text_at(s, 1, s.predicate.data);
    lemma_opt_text_at(s, 2, s.object.data_type);
    lemma_text_at(s, 3, s.object.data);
    lemma_opt_text_at(s, 4, s.object.language);
    lemma_tail_roundtrip(s);
    let obj = RyaTypeModel {
        data_type: s.object.data_type,
        data: s.object.data,
        language: s.object.language,
    };
    assert(obj == s.object);
}

} // verus!
