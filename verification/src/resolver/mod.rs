use vstd::prelude::*;
use vstd::utf8::{decode_utf8, encode_utf8, valid_utf8};

use crate::bytes::{
    extend_bytes, find_byte_from, first_byte_from, lemma_first_byte_from, str_bytes, sub_bytes,
    utf8_decode,
};
use crate::domain::{
    RDF_LANG_STRING, RyaIri, RyaType, RyaTypeModel, XSD_ANY_URI, XSD_STRING, iri_model, opt_view,
    valid_iri_spec,
};
use crate::text::{
    chars_of, last_index, lemma_last_index_before, push_char, push_str, rfind_char, str_eq,
    substring, to_owned,
};

pub mod datetime;
pub mod digest;
pub mod regex;
pub mod triple;

verus! {

pub const DELIM_BYTE: u8 = 0;
pub const TYPE_DELIM_BYTE: u8 = 1;
pub const URI_MARKER: u8 = 2;
pub const PLAIN_LITERAL_MARKER: u8 = 3;
pub const DT_LITERAL_MARKER: u8 = 8;
pub const LANGUAGE_DELIMITER: char = '@';
pub const UNDETERMINED_LANGUAGE: &'static str = "und";

/// An ASCII letter or digit.
pub open spec fn is_ascii_alnum(c: char) -> bool {
    ('a' <= c <= 'z') || ('A' <= c <= 'Z') || ('0' <= c <= '9')
}

/// A language tag: one or more non-empty runs of ASCII letters and digits joined by `-`.
pub open spec fn valid_language_tag(s: Seq<char>) -> bool {
    &&& s.len() > 0
    &&& s[0] != '-'
    &&& s[s.len() - 1] != '-'
    &&& forall|i: int| 0 <= i < s.len() ==> is_ascii_alnum(#[trigger] s[i]) || s[i] == '-'
    &&& forall|i: int| 0 <= i < s.len() - 1 ==> !(#[trigger] s[i] == '-' && s[i + 1] == '-')
}

/// The language stored for a language-tagged string: the tag when valid, `und` otherwise.
pub open spec fn language_or_und(language: Option<Seq<char>>) -> Seq<char> {
    match language {
        Some(l) => if valid_language_tag(l) {
            l
        } else {
            UNDETERMINED_LANGUAGE@
        },
        None => UNDETERMINED_LANGUAGE@,
    }
}

/// The text that is encoded for a value: for `rdf:langString` the data, `@` and the language.
pub open spec fn encoded_data(m: RyaTypeModel) -> Seq<char> {
    if m.data_type == Some(RDF_LANG_STRING@) {
        m.data + seq![LANGUAGE_DELIMITER] + language_or_und(m.language)
    } else {
        m.data
    }
}

/// The suffix that marks the datatype.
pub open spec fn type_suffix(data_type: Seq<char>) -> Seq<u8> {
    if data_type == XSD_STRING@ {
        seq![TYPE_DELIM_BYTE, PLAIN_LITERAL_MARKER]
    } else if data_type == XSD_ANY_URI@ {
        seq![TYPE_DELIM_BYTE, URI_MARKER]
    } else {
        seq![TYPE_DELIM_BYTE] + encode_utf8(data_type) + seq![TYPE_DELIM_BYTE, DT_LITERAL_MARKER]
    }
}

/// Splits `data` at its last `@` into data and language; `und` stands for a missing or invalid tag.
pub open spec fn split_language(data: Seq<char>) -> (Seq<char>, Seq<char>) {
    match last_index(data, LANGUAGE_DELIMITER) {
        Some(i) => {
            let tag = data.subrange(i + 1, data.len() as int);
            (data.take(i), if valid_language_tag(tag) {
                tag
            } else {
                UNDETERMINED_LANGUAGE@
            })
        },
        None => (data, UNDETERMINED_LANGUAGE@),
    }
}

/// The value rebuilt from a stored datatype and text.
pub open spec fn from_serialized_parts(data_type: Seq<char>, data: Seq<char>) -> RyaTypeModel {
    if data_type == RDF_LANG_STRING@ {
        RyaTypeModel {
            data_type: Some(data_type),
            data: split_language(data).0,
            language: Some(split_language(data).1),
        }
    } else {
        RyaTypeModel { data_type: Some(data_type), data, language: None }
    }
}

/// What [`deserialize`] yields for `b`, or `None` where it fails.
pub open spec fn deserialize_spec(b: Seq<u8>) -> Option<RyaTypeModel> {
    if b.len() == 0 {
        None
    } else {
        let marker = b[b.len() - 1];
        let n = b.len() as int;
        if marker == PLAIN_LITERAL_MARKER || marker == URI_MARKER {
            if n >= 2 && b[n - 2] == TYPE_DELIM_BYTE && valid_utf8(b.take(n - 2)) {
                let text = decode_utf8(b.take(n - 2));
                if marker == PLAIN_LITERAL_MARKER {
                    Some(from_serialized_parts(XSD_STRING@, text))
                } else if valid_iri_spec(text) {
                    Some(iri_model(text))
                } else {
                    None
                }
            } else {
                None
            }
        } else if marker == DT_LITERAL_MARKER {
            if n >= 4 && b[n - 2] == TYPE_DELIM_BYTE {
                match first_byte_from(b, TYPE_DELIM_BYTE, 0) {
                    Some(start) => if start >= 1 && valid_utf8(b.take(start)) && valid_utf8(
                        b.subrange(start + 1, n - 2),
                    ) {
                        Some(
                            from_serialized_parts(
                                decode_utf8(b.subrange(start + 1, n - 2)),
                                decode_utf8(b.take(start)),
                            ),
                        )
                    } else {
                        None
                    },
                    None => None,
                }
            } else {
                None
            }
        } else {
            None
        }
    }
}

/// The inputs on which decoding a custom datatype would slice out of order: the first type
/// delimiter is the one just before the marker.
pub open spec fn deserialize_panics(b: Seq<u8>) -> bool {
    let n = b.len() as int;
    &&& n >= 4
    &&& b[n - 1] == DT_LITERAL_MARKER
    &&& b[n - 2] == TYPE_DELIM_BYTE
    &&& first_byte_from(b, TYPE_DELIM_BYTE, 0) == Some(n - 2)
}

/// Whether `language` is a valid tag.
pub fn is_valid_language_tag(language: &str) -> (r: bool)
    ensures
        r == valid_language_tag(language@),
{
    let cs = chars_of(language);
    let n = cs.len();
    if n == 0 || cs[0] == '-' || cs[n - 1] == '-' {
        return false;
    }
    let mut i: usize = 0;
    while i < n
        invariant
            n == cs@.len(),
            cs@ == language@,
            i <= n,
            forall|k: int| 0 <= k < i ==> is_ascii_alnum(#[trigger] cs@[k]) || cs@[k] == '-',
            forall|k: int| 0 <= k < i && k < n - 1 ==> !(#[trigger] cs@[k] == '-' && cs@[k + 1]
                == '-'),
        decreases n - i,
    {
        let c = cs[i];
        let ok = ('a' <= c && c <= 'z') || ('A' <= c && c <= 'Z') || ('0' <= c && c <= '9') || c
            == '-';
        if !ok {
            assert(!(is_ascii_alnum(cs@[i as int]) || cs@[i as int] == '-'));
            return false;
        }
        if i + 1 < n && c == '-' && cs[i + 1] == '-' {
            return false;
        }
        i = i + 1;
    }
    true
}

/// The stored language for a language-tagged string.
fn validate_language(language: Option<&str>) -> (r: String)
    ensures
        r@ == language_or_und(crate::domain::opt_str_view(language)),
{
    match language {
        Some(l) => if is_valid_language_tag(l) {
            to_owned(l)
        } else {
            to_owned(UNDETERMINED_LANGUAGE)
        },
        None => to_owned(UNDETERMINED_LANGUAGE),
    }
}

/// The text that is encoded for `rya_type` (its data, with `@language` for `rdf:langString`).
pub fn append_language(rya_type: &RyaType, data_type: &str) -> (r: String)
    requires
        rya_type@.data_type == Some(data_type@),
    ensures
        r@ == encoded_data(rya_type@),
{
    if str_eq(data_type, RDF_LANG_STRING) {
        let mut out = to_owned(rya_type.data());
        push_char(&mut out, LANGUAGE_DELIMITER);
        let lang = validate_language(rya_type.language());
        push_str(&mut out, lang.as_str());
        out
    } else {
        to_owned(rya_type.data())
    }
}

/// The encoded data and the datatype suffix of a value.
pub fn serialize_type(rya_type: &RyaType) -> (r: Result<(Vec<u8>, Vec<u8>), String>)
    ensures
        r is Ok <==> rya_type@.data_type is Some,
        r matches Ok((d, t)) ==> d@ == encode_utf8(encoded_data(rya_type@)) && t@ == type_suffix(
            rya_type@.data_type->0,
        ),
        r matches Err(e) ==> e@ == "RyaType is missing a datatype"@,
{
    let data_type = match rya_type.data_type() {
        Some(dt) => dt,
        None => return Err(to_owned("RyaType is missing a datatype")),
    };
    let data = append_language(rya_type, data_type);
    let data_bytes = str_bytes(data.as_str());
    if str_eq(data_type, XSD_STRING) {
        let mut suffix: Vec<u8> = Vec::new();
        suffix.push(TYPE_DELIM_BYTE);
        suffix.push(PLAIN_LITERAL_MARKER);
        assert(suffix@ =~= seq![TYPE_DELIM_BYTE, PLAIN_LITERAL_MARKER]);
        Ok((data_bytes, suffix))
    } else if str_eq(data_type, XSD_ANY_URI) {
        let mut suffix: Vec<u8> = Vec::new();
        suffix.push(TYPE_DELIM_BYTE);
        suffix.push(URI_MARKER);
        assert(suffix@ =~= seq![TYPE_DELIM_BYTE, URI_MARKER]);
        Ok((data_bytes, suffix))
    } else {
        let mut suffix: Vec<u8> = Vec::new();
        suffix.push(TYPE_DELIM_BYTE);
        let dt_bytes = str_bytes(data_type);
        extend_bytes(&mut suffix, dt_bytes.as_slice());
        suffix.push(TYPE_DELIM_BYTE);
        suffix.push(DT_LITERAL_MARKER);
        assert(suffix@ =~= seq![TYPE_DELIM_BYTE] + encode_utf8(data_type@) + seq![
            TYPE_DELIM_BYTE,
            DT_LITERAL_MARKER,
        ]);
        Ok((data_bytes, suffix))
    }
}

/// The full encoding of a value: its data followed by its datatype suffix.
pub fn serialize(rya_type: &RyaType) -> (r: Result<Vec<u8>, String>)
    ensures
        r is Ok <==> rya_type@.data_type is Some,
        r matches Ok(b) ==> b@ == encode_utf8(encoded_data(rya_type@)) + type_suffix(
            rya_type@.data_type->0,
        ),
        r matches Err(e) ==> e@ == "RyaType is missing a datatype"@,
{
    let (data, suffix) = serialize_type(rya_type)?;
    let mut bytes = data;
    extend_bytes(&mut bytes, suffix.as_slice());
    Ok(bytes)
}

/// Splits language-tagged text at its last `@`.
pub fn parse_language_data(data: &str) -> (r: (String, String))
    ensures
        r.0@ == split_language(data@).0,
        r.1@ == split_language(data@).1,
{
    let cs = chars_of(data);
    match rfind_char(cs.as_slice(), LANGUAGE_DELIMITER) {
        Some(i) => {
            proof {
                lemma_last_index_before(data@, LANGUAGE_DELIMITER, data@.len() as int);
            }
            let head = substring(cs.as_slice(), 0, i);
            let tag = substring(cs.as_slice(), i + 1, cs.len());
            assert(head@ =~= data@.take(i as int));
            if is_valid_language_tag(tag.as_str()) {
                (head, tag)
            } else {
                (head, to_owned(UNDETERMINED_LANGUAGE))
            }
        },
        None => (to_owned(data), to_owned(UNDETERMINED_LANGUAGE)),
    }
}

/// Rebuilds a value from a stored datatype and text.
pub fn rya_type_from_serialized_parts(data_type: String, data: String) -> (r: RyaType)
    ensures
        r@ == from_serialized_parts(data_type@, data@),
{
    if str_eq(data_type.as_str(), RDF_LANG_STRING) {
        let (parsed, language) = parse_language_data(data.as_str());
        RyaType::from_parts(Some(data_type), parsed, Some(language))
    } else {
        RyaType::from_parts(Some(data_type), data, None)
    }
}

/// Decodes a value from its bytes.
pub fn deserialize(bytes: &[u8]) -> (r: Result<RyaType, String>)
    requires
        !deserialize_panics(bytes@),
    ensures
        r is Ok <==> deserialize_spec(bytes@) is Some,
        r matches Ok(t) ==> t@ == deserialize_spec(bytes@)->0,
        bytes@.len() == 0 ==> (r matches Err(e) && e@ == "Cannot deserialize empty byte slice"@),
{
    let n = bytes.len();
    if n == 0 {
        return Err(to_owned("Cannot deserialize empty byte slice"));
    }
    let marker = bytes[n - 1];
    if marker == PLAIN_LITERAL_MARKER || marker == URI_MARKER {
        if n < 2 || bytes[n - 2] != TYPE_DELIM_BYTE {
            return Err(to_owned("Bytes not deserializable"));
        }
        let body = sub_bytes(bytes, 0, n - 2);
        assert(body@ =~= bytes@.take(n - 2));
        let text = utf8_decode(body.as_slice())?;
        if marker == URI_MARKER {
            let iri = RyaIri::new(text.as_str())?;
            Ok(iri.into_type())
        } else {
            Ok(rya_type_from_serialized_parts(to_owned(XSD_STRING), text))
        }
    } else if marker == DT_LITERAL_MARKER {
        if n < 4 || bytes[n - 2] != TYPE_DELIM_BYTE {
            return Err(to_owned("Bytes not deserializable as a custom datatype"));
        }
        proof {
            lemma_first_byte_from(bytes@, TYPE_DELIM_BYTE, 0);
        }
        let start = match find_byte_from(bytes, TYPE_DELIM_BYTE, 0) {
            Some(s) => s,
            None => return Err(to_owned("Not a datatype literal")),
        };
        if start < 1 {
            return Err(to_owned("Not a datatype literal"));
        }
        assert(start as int <= n - 2) by {
            if start as int > n - 2 {
                assert(bytes@[n - 2] != TYPE_DELIM_BYTE);
            }
        }
        let data_bytes = sub_bytes(bytes, 0, start);
        assert(data_bytes@ =~= bytes@.take(start as int));
        let data = utf8_decode(data_bytes.as_slice())?;
        let dt_bytes = sub_bytes(bytes, start + 1, n - 2);
        let data_type = utf8_decode(dt_bytes.as_slice())?;
        Ok(rya_type_from_serialized_parts(data_type, data))
    } else {
        Err(unknown_marker_message(marker))
    }
}

/// `Unknown Rya type marker byte: ` followed by the marker in decimal.
fn unknown_marker_message(marker: u8) -> (r: String)
    ensures
        r@ == "Unknown Rya type marker byte: "@ + crate::text::decimal(marker as nat),
{
    let mut out = to_owned("Unknown Rya type marker byte: ");
    let digits = crate::text::u64_to_string(marker as u64);
    push_str(&mut out, digits.as_str());
    out
}

} // verus!

verus! {

/// The values that survive a trip through [`serialize`] and [`deserialize`] unchanged: a
/// datatype is present; plain strings and IRIs carry no language; an IRI's text is a valid
/// IRI; a language-tagged string carries a valid tag; any other datatype carries no language;
/// and the text of a value of a custom datatype is non-empty and has no U+0001 character.
pub open spec fn roundtrips(m: RyaTypeModel) -> bool {
    match m.data_type {
        Some(dt) => if dt == XSD_STRING@ {
            m.language is None
        } else if dt == XSD_ANY_URI@ {
            m.language is None && valid_iri_spec(m.data)
        } else {
            &&& forall|i: int| 0 <= i < m.data.len() ==> m.data[i] != '\u{1}'
            &&& if dt == RDF_LANG_STRING@ {
                m.language matches Some(l) && valid_language_tag(l)
            } else {
                m.language is None && m.data.len() > 0
            }
        },
        None => false,
    }
}

proof fn lemma_split_language_of_tagged(d: Seq<char>, l: Seq<char>)
    requires
        valid_language_tag(l),
    ensures
        split_language(d + seq![LANGUAGE_DELIMITER] + l) == (d, l),
{
    let s = d + seq![LANGUAGE_DELIMITER] + l;
    crate::text::lemma_last_index_before(s, LANGUAGE_DELIMITER, s.len() as int);
    let at = d.len() as int;
    assert(s[at] == LANGUAGE_DELIMITER);
    match last_index(s, LANGUAGE_DELIMITER) {
        Some(i) => {
            if i > at {
                assert(s[i] == l[i - at - 1]);
                assert(is_ascii_alnum(l[i - at - 1]) || l[i - at - 1] == '-');
            }
            if i < at {
                assert(s[at] != LANGUAGE_DELIMITER);
            }
            assert(s.subrange(at + 1, s.len() as int) =~= l);
            assert(s.take(at) =~= d);
        },
        None => {
            assert(s[at] != LANGUAGE_DELIMITER);
        },
    }
}

/// Decoding the encoding of a value gives the value back, for every value that [`roundtrips`]
/// describes; nor does decoding it panic.
pub proof fn law_serialize_deserialize_roundtrip(m: RyaTypeModel)
    requires
        roundtrips(m),
    ensures
        !deserialize_panics(encode_utf8(encoded_data(m)) + type_suffix(m.data_type->0)),
        deserialize_spec(encode_utf8(encoded_data(m)) + type_suffix(m.data_type->0)) == Some(m),
{
    let dt = m.data_type->0;
    let d = encoded_data(m);
    let ed = encode_utf8(d);
    let b = ed + type_suffix(dt);
    let n = b.len() as int;
    vstd::utf8::encode_utf8_valid_utf8(d);
    vstd::utf8::encode_utf8_decode_utf8(d);
    crate::domain::lemma_datatype_names_distinct();
    assert('\u{1}' as u32 == 1u32);
    if dt == XSD_STRING@ || dt == XSD_ANY_URI@ {
        assert(b.take(n - 2) =~= ed);
        assert(b[n - 2] == TYPE_DELIM_BYTE);
        if dt == XSD_STRING@ {
            assert(from_serialized_parts(XSD_STRING@, d) == m);
        } else {
            assert(iri_model(d) == m);
        }
    } else {
        let edt = encode_utf8(dt);
        vstd::utf8::encode_utf8_valid_utf8(dt);
        vstd::utf8::encode_utf8_decode_utf8(dt);
        if dt == RDF_LANG_STRING@ {
            let l = m.language->0;
            assert(d == m.data + seq![LANGUAGE_DELIMITER] + l);
            assert forall|i: int| 0 <= i < d.len() implies d[i] as u32 != 1u32 by {
                if d[i] as u32 == 1u32 {
                    vstd::utf8::char_u32_cast(d[i], 1u32);
                    vstd::utf8::char_u32_cast('\u{1}', 1u32);
                }
                if i < m.data.len() {
                    assert(d[i] == m.data[i]);
                } else if i == m.data.len() {
                } else {
                    assert(d[i] == l[i - m.data.len() - 1]);
                    assert(is_ascii_alnum(l[i - m.data.len() - 1]) || l[i - m.data.len() - 1]
                        == '-');
                }
            }
            lemma_split_language_of_tagged(m.data, l);
        } else {
            assert forall|i: int| 0 <= i < d.len() implies d[i] as u32 != 1u32 by {
                assert(d[i] != '\u{1}');
                if d[i] as u32 == 1u32 {
                    vstd::utf8::char_u32_cast(d[i], 1u32);
                    vstd::utf8::char_u32_cast('\u{1}', 1u32);
                }
            }
        }
        crate::bytes::lemma_encode_lacks_ascii_byte(d, TYPE_DELIM_BYTE);
        assert(d.len() > 0);
        assert(ed.len() > 0) by {
            assert(d =~= seq![d[0]] + d.drop_first());
            crate::bytes::lemma_encode_utf8_concat(seq![d[0]], d.drop_first());
            vstd::utf8::char_is_scalar(d[0]);
            crate::bytes::lemma_encode_scalar_bytes(d[0] as u32);
            assert(seq![d[0]].drop_first() =~= Seq::<char>::empty());
        }
        let rest = seq![TYPE_DELIM_BYTE] + edt + seq![TYPE_DELIM_BYTE, DT_LITERAL_MARKER];
        assert(b == ed + rest);
        lemma_first_byte_from(ed, TYPE_DELIM_BYTE, 0);
        lemma_first_byte_from(rest, TYPE_DELIM_BYTE, 0);
        crate::bytes::lemma_first_byte_concat(ed, rest, TYPE_DELIM_BYTE);
        assert(first_byte_from(ed, TYPE_DELIM_BYTE, 0) is None);
        assert(rest[0] == TYPE_DELIM_BYTE);
        assert(first_byte_from(rest, TYPE_DELIM_BYTE, 0) == Some(0int));
        let start = ed.len() as int;
        assert(first_byte_from(b, TYPE_DELIM_BYTE, 0) == Some(start));
        assert(b.take(start) =~= ed);
        assert(b.subrange(start + 1, n - 2) =~= edt);
        assert(b[n - 1] == DT_LITERAL_MARKER);
        assert(b[n - 2] == TYPE_DELIM_BYTE);
        assert(from_serialized_parts(dt, d) == m);
    }
}

} // verus!
