use orgbrain::json::{
    extract_first_json_object, parse_document, strings_of, text_as_number, text_as_string,
    JsonShape,
};

#[test]
fn extract_takes_first_open_to_last_close() {
    assert_eq!(
        extract_first_json_object("Sure! {\"a\": {\"b\": 1}} done"),
        Some("{\"a\": {\"b\": 1}}".to_string())
    );
    assert_eq!(extract_first_json_object("{}"), Some("{}".to_string()));
    assert_eq!(extract_first_json_object("x{y}z{w}v"), Some("{y}z{w}".to_string()));
}

#[test]
fn extract_fails_without_a_span() {
    assert_eq!(extract_first_json_object(""), None);
    assert_eq!(extract_first_json_object("no braces"), None);
    assert_eq!(extract_first_json_object("only { open"), None);
    assert_eq!(extract_first_json_object("only } close"), None);
    assert_eq!(extract_first_json_object("} reversed {"), None);
}

#[test]
fn extract_counts_characters_not_bytes() {
    assert_eq!(extract_first_json_object("héé {\"k\":\"ü\"} ñ"), Some("{\"k\":\"ü\"}".to_string()));
}

#[test]
fn parse_document_reads_each_shape() {
    assert_eq!(parse_document("null"), Some(JsonShape::Null));
    assert_eq!(parse_document("true"), Some(JsonShape::Bool(true)));
    assert_eq!(parse_document("0.5"), Some(JsonShape::Number(Some(0x3FE0_0000_0000_0000))));
    assert_eq!(parse_document("1"), Some(JsonShape::Number(Some(0x3FF0_0000_0000_0000))));
    assert_eq!(parse_document("-2"), Some(JsonShape::Number(Some(0xC000_0000_0000_0000))));
    assert_eq!(parse_document("\"a\\nb\""), Some(JsonShape::Str("a\nb".to_string())));
    assert_eq!(
        parse_document("[1, \"x\", {\"k\": null}]"),
        Some(JsonShape::Array(vec![
            "1".to_string(),
            "\"x\"".to_string(),
            "{\"k\":null}".to_string()
        ]))
    );
    assert_eq!(
        parse_document("{\"b\": [1, 2], \"a\": \"s\"}"),
        Some(JsonShape::Object(vec![
            ("a".to_string(), "\"s\"".to_string()),
            ("b".to_string(), "[1,2]".to_string())
        ]))
    );
}

#[test]
fn parse_document_falls_back_to_the_embedded_object() {
    assert_eq!(
        parse_document("Here you go: {\"topic\": \"x\"} -- bye"),
        Some(JsonShape::Object(vec![("topic".to_string(), "\"x\"".to_string())]))
    );
    assert_eq!(parse_document("nothing here"), None);
    assert_eq!(parse_document("{ not json }"), None);
    assert_eq!(parse_document(""), None);
}

#[test]
fn duplicate_members_keep_the_last_value() {
    assert_eq!(
        parse_document("{\"a\": 1, \"a\": 2}"),
        Some(JsonShape::Object(vec![("a".to_string(), "2".to_string())]))
    );
}

#[test]
fn text_readers_tell_strings_from_numbers() {
    assert_eq!(text_as_string("\"q\\\"uote\""), Some("q\"uote".to_string()));
    assert_eq!(text_as_string("12"), None);
    assert_eq!(text_as_string("not json"), None);
    assert_eq!(text_as_number("0.9"), Some(0x3FEC_CCCC_CCCC_CCCD));
    assert_eq!(text_as_number("\"0.9\""), None);
    assert_eq!(text_as_number("{}"), None);
}

#[test]
fn into_readers_pick_their_variant_only() {
    assert_eq!(JsonShape::into_string(Some(JsonShape::Str("s".to_string()))), Some("s".to_string()));
    assert_eq!(JsonShape::into_string(Some(JsonShape::Null)), None);
    assert_eq!(JsonShape::into_string(None), None);
    assert_eq!(JsonShape::into_number(Some(JsonShape::Number(Some(7)))), Some(7));
    assert_eq!(JsonShape::into_number(Some(JsonShape::Number(None))), None);
    assert_eq!(JsonShape::into_number(Some(JsonShape::Bool(false))), None);
    assert_eq!(
        JsonShape::into_elements(Some(JsonShape::Array(vec!["1".to_string()]))),
        Some(vec!["1".to_string()])
    );
    assert_eq!(JsonShape::into_elements(Some(JsonShape::Object(Vec::new()))), None);
    assert_eq!(
        JsonShape::into_members(Some(JsonShape::Object(vec![("k".to_string(), "1".to_string())]))),
        Some(vec![("k".to_string(), "1".to_string())])
    );
    assert_eq!(JsonShape::into_members(Some(JsonShape::Array(Vec::new()))), None);
}

#[test]
fn member_and_field_readers() {
    let doc = parse_document(
        "{\"topic\": \"infra\", \"confidence\": 0.5, \"evidence\": [\"a\", 3, \"b\", null], \
         \"routing\": {\"employee_bob\": \"full\", \"employee_sarah\": 1}, \"n\": null}",
    )
    .unwrap();
    assert_eq!(doc.member("topic"), Some(&"\"infra\"".to_string()));
    assert_eq!(doc.member("missing"), None);
    assert_eq!(doc.string_field("topic"), Some("infra".to_string()));
    assert_eq!(doc.string_field("confidence"), None);
    assert_eq!(doc.string_field("missing"), None);
    assert_eq!(doc.number_field("confidence"), Some(0x3FE0_0000_0000_0000));
    assert_eq!(doc.number_field("topic"), None);
    assert_eq!(doc.strings_field("evidence"), vec!["a".to_string(), "b".to_string()]);
    assert_eq!(doc.strings_field("topic"), Vec::<String>::new());
    assert_eq!(doc.strings_field("missing"), Vec::<String>::new());
    assert_eq!(
        doc.members_field("routing"),
        Some(vec![
            ("employee_bob".to_string(), "\"full\"".to_string()),
            ("employee_sarah".to_string(), "1".to_string())
        ])
    );
    assert_eq!(doc.members_field("evidence"), None);
    assert_eq!(doc.members_field("missing"), None);
}

#[test]
fn readers_on_a_shape_that_is_no_object() {
    let doc = parse_document("[\"topic\"]").unwrap();
    assert_eq!(doc.member("topic"), None);
    assert_eq!(doc.string_field("topic"), None);
    assert_eq!(doc.number_field("topic"), None);
    assert_eq!(doc.strings_field("topic"), Vec::<String>::new());
    assert_eq!(doc.members_field("topic"), None);
}

#[test]
fn strings_of_keeps_only_strings() {
    let texts = vec!["\"x\"".to_string(), "1".to_string(), "\"\"".to_string(), "[]".to_string()];
    assert_eq!(strings_of(&texts), vec!["x".to_string(), "".to_string()]);
    assert_eq!(strings_of(&Vec::new()), Vec::<String>::new());
}
