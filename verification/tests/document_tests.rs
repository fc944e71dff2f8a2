//! Document schema derivation and assembly.

use elastic::date::formats::BasicDateTime;
use elastic::date::mapping::DateMapping;
use elastic::document::{
    derive_document, DerivationError, Document, DocumentField, DocumentKind, DocumentMapping,
    Dynamic, FieldDecl, FieldSchema,
};
use elastic::field::{IntegerMapping, TextMapping};

fn decl(name: &str, mapping: FieldSchema) -> FieldDecl {
    FieldDecl {
        name: String::from(name),
        rename: None,
        skip: false,
        skip_serializing: false,
        skip_deserializing: false,
        mapping,
    }
}

fn three_decls() -> Vec<FieldDecl> {
    vec![
        decl("my_date", FieldSchema::Date(DateMapping::of::<BasicDateTime>())),
        decl("my_string", FieldSchema::Text(TextMapping::default_string())),
        decl("my_num", FieldSchema::Integer(IntegerMapping::new())),
    ]
}

#[test]
fn derived_schema_keeps_declaration_order() {
    let doc = derive_document(String::from("my_type"), three_decls()).unwrap();

    assert_eq!(3, doc.properties.len());
    assert_eq!("my_date", doc.properties[0].name);
    assert_eq!("my_string", doc.properties[1].name);
    assert_eq!("my_num", doc.properties[2].name);
}

#[test]
fn root_schema_emits_only_properties() {
    let doc = derive_document(String::from("my_type"), three_decls()).unwrap();
    let ser = Document::new(doc).to_json().to_json_string();

    let expected = r#"{"properties":{"my_date":{"type":"date","format":"basic_date_time"},"my_string":{"type":"text","fields":{"keyword":{"type":"keyword","ignore_above":256}}},"my_num":{"type":"integer"}}}"#;

    assert_eq!(expected, ser);
}

#[test]
fn nested_document_field_recurses() {
    let inner = derive_document(
        String::from("inner"),
        vec![decl("my_date", FieldSchema::Date(DateMapping::of::<BasicDateTime>()))],
    )
    .unwrap();
    let outer = derive_document(
        String::from("outer"),
        vec![
            decl("child", FieldSchema::Doc(inner)),
            decl("my_num", FieldSchema::Integer(IntegerMapping::new())),
        ],
    )
    .unwrap();

    let ser = outer.properties[0].mapping.to_json().to_json_string();
    let expected = r#"{"type":"nested","properties":{"my_date":{"type":"date","format":"basic_date_time"}}}"#;
    assert_eq!(expected, ser);

    let root = Document::new(outer).to_json().to_json_string();
    assert!(root.starts_with(r#"{"properties":{"child":{"type":"nested""#));
}

#[test]
fn object_documents_may_take_enabled_but_nested_never_do() {
    let mut doc = derive_document(
        String::from("my_type"),
        vec![decl("my_num", FieldSchema::Integer(IntegerMapping::new()))],
    )
    .unwrap();
    doc.enabled = Some(false);

    assert_eq!(
        r#"{"type":"nested","properties":{"my_num":{"type":"integer"}}}"#,
        doc.to_field_json().to_json_string()
    );

    doc.data_type = DocumentKind::Object;
    assert_eq!(
        r#"{"type":"object","enabled":false,"properties":{"my_num":{"type":"integer"}}}"#,
        doc.to_field_json().to_json_string()
    );
}

#[test]
fn dynamic_settings_take_their_wire_values() {
    assert_eq!("true", Dynamic::True.to_json().to_json_string());
    assert_eq!("false", Dynamic::False.to_json().to_json_string());
    assert_eq!(r#""strict""#, Dynamic::Strict.to_json().to_json_string());

    let mut doc = derive_document(
        String::from("my_type"),
        vec![decl("my_num", FieldSchema::Integer(IntegerMapping::new()))],
    )
    .unwrap();
    doc.dynamic = Some(Dynamic::Strict);
    assert_eq!(
        r#"{"type":"nested","dynamic":"strict","properties":{"my_num":{"type":"integer"}}}"#,
        doc.to_field_json().to_json_string()
    );
}

#[test]
fn renamed_fields_use_their_alias() {
    let mut renamed = decl("my_date", FieldSchema::Date(DateMapping::of::<BasicDateTime>()));
    renamed.rename = Some(String::from("my_renamed_date"));

    let doc = derive_document(String::from("my_type"), vec![renamed]).unwrap();

    assert_eq!(1, doc.properties.len());
    assert_eq!("my_renamed_date", doc.properties[0].name);
}

#[test]
fn excluded_fields_are_dropped_but_one_way_skips_stay() {
    let mut hidden = decl("ignored", FieldSchema::Integer(IntegerMapping::new()));
    hidden.skip = true;
    let mut write_only = decl("write_only", FieldSchema::Integer(IntegerMapping::new()));
    write_only.skip_serializing = true;
    let mut read_only = decl("read_only", FieldSchema::Integer(IntegerMapping::new()));
    read_only.skip_deserializing = true;

    let doc = derive_document(
        String::from("my_type"),
        vec![hidden, write_only, read_only],
    )
    .unwrap();

    assert_eq!(2, doc.properties.len());
    assert_eq!("write_only", doc.properties[0].name);
    assert_eq!("read_only", doc.properties[1].name);
}

#[test]
fn duplicate_resolved_names_fail_derivation() {
    let mut renamed = decl("other", FieldSchema::Integer(IntegerMapping::new()));
    renamed.rename = Some(String::from("my_date"));

    let result = derive_document(
        String::from("my_type"),
        vec![
            decl("my_date", FieldSchema::Date(DateMapping::of::<BasicDateTime>())),
            renamed,
        ],
    );

    match result {
        Err(DerivationError::DuplicateField(name)) => assert_eq!("my_date", name),
        Ok(_) => panic!("duplicate resolved names must not derive"),
    }
}

#[test]
fn hand_written_schemas_assemble_too() {
    let mut doc = DocumentMapping::new(String::from("by_hand"));
    doc.properties.push(DocumentField {
        name: String::from("my_num"),
        mapping: FieldSchema::Integer(IntegerMapping::new()),
    });

    assert_eq!(
        r#"{"properties":{"my_num":{"type":"integer"}}}"#,
        Document::new(doc).to_json().to_json_string()
    );
}
