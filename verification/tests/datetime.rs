use omrya::domain::RyaType;
use omrya::resolver::datetime::{
    deserialize, matches_milliseconds_no_zone_rya44_oracle, normalize_xml_datetime_to_utc,
    serialize_and_deserialize_with_offset, serialize_with_offset,
};

const XSD_DATETIME: &str = "http://www.w3.org/2001/XMLSchema#dateTime";
const XSD_DATE: &str = "http://www.w3.org/2001/XMLSchema#date";

#[test]
fn offsets_move_times_to_utc() {
    assert_eq!(
        normalize_xml_datetime_to_utc("2002-02-01T12:00:00+01:00", 0).unwrap(),
        "2002-02-01T11:00:00.000Z"
    );
    assert_eq!(
        normalize_xml_datetime_to_utc("2002-02-01T00:30:00.5-02:00", 0).unwrap(),
        "2002-02-01T02:30:00.500Z"
    );
    assert_eq!(
        normalize_xml_datetime_to_utc("2023-12-31T23:30:00-01:00", 0).unwrap(),
        "2024-01-01T00:30:00.000Z"
    );
    assert_eq!(
        normalize_xml_datetime_to_utc("2024-02-29T23:30:00Z", 300).unwrap(),
        "2024-02-29T23:30:00.000Z"
    );
    assert_eq!(
        normalize_xml_datetime_to_utc("2002-02-01T+05:00", 0).unwrap(),
        "2002-01-31T19:00:00.000Z"
    );
}

#[test]
fn dates_take_the_default_offset() {
    assert_eq!(
        normalize_xml_datetime_to_utc("2024-02-28", 60).unwrap(),
        "2024-02-27T23:00:00.000Z"
    );
    assert_eq!(normalize_xml_datetime_to_utc("2024-03-01T", 60).unwrap(), "2024-02-29T23:00:00.000Z");
    assert_eq!(normalize_xml_datetime_to_utc("12345-01-01", 0).unwrap(), "12345-01-01T00:00:00.000Z");
    assert_eq!(normalize_xml_datetime_to_utc("-5-01-01", 0).unwrap(), "-0005-01-01T00:00:00.000Z");
}

#[test]
fn malformed_dates_and_times_are_named() {
    assert_eq!(
        normalize_xml_datetime_to_utc("2023-02-29", 0).unwrap_err(),
        "Invalid format: \"2023-02-29\""
    );
    assert_eq!(
        normalize_xml_datetime_to_utc("2023-01-01T25:00:00", 0).unwrap_err(),
        "Invalid format: \"25:00:00\""
    );
    assert_eq!(
        normalize_xml_datetime_to_utc("2023-01-01T10:00", 0).unwrap_err(),
        "Invalid format: \"10:00\""
    );
}

#[test]
fn stored_datetimes_read_back_in_utc() {
    let t = RyaType::custom(XSD_DATETIME, "2002-02-01T12:00:00+01:00");
    let bytes = serialize_with_offset(&t, 0).unwrap();
    let mut expected = b"2002-02-01T11:00:00.000Z".to_vec();
    expected.push(1);
    expected.push(7);
    assert_eq!(bytes, expected);
    let back = deserialize(&bytes).unwrap();
    assert_eq!(back.data(), "2002-02-01T11:00:00.000Z");
    assert_eq!(back.data_type(), Some(XSD_DATETIME));
    let date = RyaType::custom(XSD_DATE, "2002-02-01");
    let back = serialize_and_deserialize_with_offset(&date, 0).unwrap();
    assert_eq!(back.data(), "2002-02-01T00:00:00.000Z");
}

#[test]
fn other_literals_are_refused() {
    let s = RyaType::custom("http://www.w3.org/2001/XMLSchema#string", "x");
    assert_eq!(
        serialize_with_offset(&s, 0).unwrap_err(),
        "DateTime resolver cannot serialize datatype http://www.w3.org/2001/XMLSchema#string"
    );
    assert_eq!(
        deserialize(b"2002").err(),
        Some("Bytes not deserializable as a dateTime literal".to_string())
    );
}

#[test]
fn millisecond_oracle() {
    assert!(matches_milliseconds_no_zone_rya44_oracle("2002-02-02T10:00:02.222Z"));
    assert!(!matches_milliseconds_no_zone_rya44_oracle("2002-02-04T10:00:02.222Z"));
    assert!(!matches_milliseconds_no_zone_rya44_oracle("2002-02-02T10:00:02.222"));
}
