//! Field mapping configurations and their emitted schemas.

use elastic::date::formats::{BasicDateTime, EpochMillis};
use elastic::date::mapping::DateMapping;
use elastic::field::{
    BooleanMapping, FieldMapping, GeoPointMapping, GeoShapeMapping, IntegerMapping,
    KeywordMapping, TextMapping,
};
use elastic::ip::mapping::{DefaultIpMapping, IpMapping, Ipv4};
use elastic::json::{Decimal, Json};

#[test]
fn serialise_mapping_default() {
    let mapping = DateMapping::of::<BasicDateTime>();
    let ser = mapping.to_json().to_json_string();

    let expected = r#"{"type":"date","format":"basic_date_time"}"#;

    assert_eq!(expected, ser);
}

#[test]
fn serialise_mapping_custom() {
    let mut mapping = DateMapping::of::<EpochMillis>();
    mapping.boost = Some(Decimal::new(101, 2));
    mapping.doc_values = Some(true);
    mapping.include_in_all = Some(false);
    mapping.index = Some(true);
    mapping.store = Some(true);
    mapping.ignore_malformed = Some(true);
    mapping.null_value = Some(String::from("1426351513778"));

    let ser = mapping.to_json().to_json_string();

    let expected = r#"{"type":"date","format":"epoch_millis","boost":1.01,"doc_values":true,"include_in_all":false,"index":true,"store":true,"ignore_malformed":true,"null_value":"1426351513778"}"#;

    assert_eq!(expected, ser);
}

#[test]
fn serialise_elastic_boolean() {
    let ser = Json::Bool(true).to_json_string();

    assert_eq!("true", ser);
}

#[test]
fn boost_override_changes_only_boost() {
    let plain = DateMapping::of::<BasicDateTime>();
    let mut boosted = DateMapping::of::<BasicDateTime>();
    boosted.boost = Some(Decimal::new(15, 1));

    assert_eq!(
        r#"{"type":"date","format":"basic_date_time"}"#,
        plain.to_json().to_json_string()
    );
    assert_eq!(
        r#"{"type":"date","format":"basic_date_time","boost":1.5}"#,
        boosted.to_json().to_json_string()
    );
}

#[test]
fn serialise_ip_mapping_with_boost() {
    let mut mapping = IpMapping::new();
    mapping.boost = Some(Decimal::new(15, 1));

    assert_eq!(
        r#"{"type":"ip","boost":1.5}"#,
        mapping.to_json().to_json_string()
    );
}

#[test]
fn serialise_default_ip_mapping() {
    let mapping = DefaultIpMapping::mapping();
    assert_eq!(r#"{"type":"ip"}"#, mapping.to_json().to_json_string());
}

#[test]
fn serialise_ip_null_value() {
    let mut mapping = IpMapping::new();
    mapping.null_value = Some(Ipv4::new(127, 0, 0, 1));

    assert_eq!(
        r#"{"type":"ip","null_value":"127.0.0.1"}"#,
        mapping.to_json().to_json_string()
    );
}

#[test]
fn serialise_boolean_mapping() {
    let mut mapping = BooleanMapping::new();
    mapping.null_value = Some(false);
    mapping.store = Some(true);

    assert_eq!(
        r#"{"type":"boolean","null_value":false,"store":true}"#,
        mapping.to_json().to_json_string()
    );
}

#[test]
fn serialise_default_string_mapping() {
    let mapping = TextMapping::default_string();

    assert_eq!(
        r#"{"type":"text","fields":{"keyword":{"type":"keyword","ignore_above":256}}}"#,
        mapping.to_json().to_json_string()
    );
}

#[test]
fn serialise_keyword_and_numeric_mappings() {
    assert_eq!(
        r#"{"type":"keyword"}"#,
        KeywordMapping::new().to_json().to_json_string()
    );
    assert_eq!(
        r#"{"type":"integer"}"#,
        IntegerMapping::new().to_json().to_json_string()
    );
    let mut int_mapping = IntegerMapping::new();
    int_mapping.null_value = Some(-7);
    assert_eq!(
        r#"{"type":"integer","null_value":-7}"#,
        int_mapping.to_json().to_json_string()
    );
}

#[test]
fn serialise_geo_mappings() {
    assert_eq!(
        r#"{"type":"geo_point"}"#,
        GeoPointMapping::new().to_json().to_json_string()
    );
    let mut shape = GeoShapeMapping::new();
    shape.ignore_malformed = Some(true);
    assert_eq!(
        r#"{"type":"geo_shape","ignore_malformed":true}"#,
        shape.to_json().to_json_string()
    );
}

#[test]
fn data_types_name_their_kinds() {
    assert_eq!("date", DateMapping::of::<BasicDateTime>().data_type());
    assert_eq!("ip", IpMapping::new().data_type());
    assert_eq!("boolean", BooleanMapping::new().data_type());
    assert_eq!("text", TextMapping::new().data_type());
    assert_eq!("keyword", KeywordMapping::new().data_type());
    assert_eq!("integer", IntegerMapping::new().data_type());
    assert_eq!("geo_point", GeoPointMapping::new().data_type());
    assert_eq!("geo_shape", GeoShapeMapping::new().data_type());
}

#[test]
fn decimals_render_exactly() {
    assert_eq!("1.01", Decimal::new(101, 2).to_text());
    assert_eq!("1.5", Decimal::new(15, 1).to_text());
    assert_eq!("1.0", Decimal::new(10, 1).to_text());
    assert_eq!("0.05", Decimal::new(5, 2).to_text());
    assert_eq!("256", Decimal::integer(256).to_text());
    assert_eq!("-1.5", Decimal::new(-15, 1).to_text());
    assert_eq!("0", Decimal::integer(0).to_text());
}

#[test]
fn json_strings_are_escaped() {
    let value = Json::Str(String::from("a\"b\\c\nd"));
    assert_eq!(r#""a\"b\\c\nd""#, value.to_json_string());
}
