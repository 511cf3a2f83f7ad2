use omrya::bytes::{utf8_decode, utf8_lossy};
use omrya::domain::{RyaIri, RyaStatement, RyaType};
use omrya::fjall::codec::{deserialize_statement, serialize_statement};
use omrya::intparse::{parse_i32_text, parse_usize_text};
use omrya::resolver::{deserialize, serialize};
use omrya::resolver::digest::hex_string;
use omrya::text::u64_to_string;

#[test]
fn typed_value_survives_serialization() {
    let value = RyaType::with_data_type("http://www.w3.org/2001/XMLSchema#int", "42");
    let bytes = serialize(&value).unwrap();
    let back = deserialize(&bytes).unwrap();
    assert_eq!(back.data(), "42");
    assert_eq!(back.data_type(), Some("http://www.w3.org/2001/XMLSchema#int"));
}

#[test]
fn plain_string_survives_serialization() {
    let value = RyaType::new("hello world");
    let bytes = serialize(&value).unwrap();
    let back = deserialize(&bytes).unwrap();
    assert_eq!(back.data(), "hello world");
    assert_eq!(back.data_type(), value.data_type());
}

#[test]
fn statement_survives_the_codec() {
    let mut st = RyaStatement::new(
        RyaIri::new("http://a/s").unwrap(),
        RyaIri::new("http://a/p").unwrap(),
        RyaType::new("o"),
    )
    .with_timestamp(12345);
    st.qualifier = Some("q".to_string());
    st.column_visibility = Some(b"A&B".to_vec());
    let bytes = serialize_statement(&st).unwrap();
    let back = deserialize_statement(&bytes).unwrap();
    assert_eq!(back.subject.to_string(), "http://a/s");
    assert_eq!(back.predicate.to_string(), "http://a/p");
    assert_eq!(back.object.data(), "o");
    assert_eq!(back.timestamp, 12345);
    assert_eq!(back.qualifier, Some("q".to_string()));
    assert_eq!(back.column_visibility, Some(b"A&B".to_vec()));
    assert!(back.context.is_none());
    assert!(back.value.is_none());
}

#[test]
fn empty_iri_is_refused() {
    assert_eq!(RyaIri::new("").err().unwrap(), "Empty not IRI");
}

#[test]
fn unsigned_texts_parse_like_std() {
    assert_eq!(parse_usize_text("12"), Ok(12));
    assert_eq!(parse_usize_text("+7"), Ok(7));
    assert_eq!(parse_usize_text("").unwrap_err(), "cannot parse integer from empty string");
    assert_eq!(parse_usize_text("-1").unwrap_err(), "invalid digit found in string");
    assert_eq!(parse_usize_text("1x").unwrap_err(), "invalid digit found in string");
}

#[test]
fn signed_texts_parse_like_std() {
    assert_eq!(parse_i32_text("-2147483648"), Ok(i32::MIN));
    assert_eq!(parse_i32_text("2147483647"), Ok(i32::MAX));
    assert_eq!(parse_i32_text("2147483648").unwrap_err(), "number too large to fit in target type");
    assert_eq!(parse_i32_text("-2147483649").unwrap_err(), "number too small to fit in target type");
    assert_eq!(parse_i32_text("-").unwrap_err(), "invalid digit found in string");
}

#[test]
fn utf8_decoding() {
    assert_eq!(utf8_decode(&[0x68, 0xc3, 0xa9]).unwrap(), "hé");
    assert!(utf8_decode(&[0xff]).is_err());
    assert_eq!(utf8_lossy(&[0x61, 0xff, 0x62]), "a\u{FFFD}b");
    assert_eq!(utf8_lossy(b"plain"), "plain");
}

#[test]
fn text_helpers_build_strings() {
    assert_eq!(omrya::text::concat("ab", "cd"), "abcd");
    assert_eq!(u64_to_string(0), "0");
    assert_eq!(u64_to_string(18446744073709551615), "18446744073709551615");
}

#[test]
fn bytes_as_lower_hex() {
    assert_eq!(hex_string(&[0x00, 0xab, 0x10]), "00ab10");
}
