use metastable::text_enum::{
    CodecError, EnumSchema, Payload, TextEnumCodec, TextEnumValue, TextEnumVariant, TextRepr, VariantKind,
};

fn variant(ident: &str, kind: VariantKind, prefixes: &[(&str, &str)]) -> TextEnumVariant {
    TextEnumVariant {
        ident: ident.to_string(),
        kind,
        prefixes: prefixes.iter().map(|(l, c)| (l.to_string(), c.to_string())).collect(),
        is_catch_all: false,
        catch_all_include_prefix: false,
    }
}

/// Action(String) [zh: 动作], Chat(String) [zh: 对话], Scenario, Text(String) catch-all.
fn test_message_type() -> TextEnumCodec {
    let mut text = variant("Text", VariantKind::String, &[]);
    text.is_catch_all = true;
    TextEnumCodec {
        ident: "TestMessageType".to_string(),
        type_lang: "zh".to_string(),
        schema_lang: "en".to_string(),
        variants: vec![
            variant("Action", VariantKind::String, &[("zh", "动作")]),
            variant("Chat", VariantKind::String, &[("zh", "对话")]),
            variant("Scenario", VariantKind::Unit, &[]),
            text,
        ],
    }
}

fn simple_enum() -> TextEnumCodec {
    TextEnumCodec {
        ident: "SimpleEnum".to_string(),
        type_lang: "en".to_string(),
        schema_lang: "en".to_string(),
        variants: vec![variant("OptionA", VariantKind::Unit, &[]), variant("OptionB", VariantKind::Unit, &[])],
    }
}

const ACTION: usize = 0;
const SCENARIO: usize = 2;
const TEXT: usize = 3;

fn text_value(variant: usize, s: &str) -> TextEnumValue {
    TextEnumValue { variant, payload: Payload::Text(s.to_string()) }
}

fn unit_value(variant: usize) -> TextEnumValue {
    TextEnumValue { variant, payload: Payload::Unit }
}

#[test]
fn test_unit_variant_to_json() {
    let codec = test_message_type();
    let result = codec.to_repr(&unit_value(SCENARIO));
    assert_eq!(result, TextRepr::Unit("Scenario".to_string()));
}

#[test]
fn test_content_variant_to_json() {
    let codec = test_message_type();
    let result = codec.to_repr(&text_value(ACTION, "test action"));
    let expected_type = if codec.type_lang() == "zh" { "动作" } else { "Action" };
    assert_eq!(
        result,
        TextRepr::Content { typ: expected_type.to_string(), content: Some("test action".to_string()) }
    );
}

#[test]
fn test_catch_all_variant_to_json() {
    let codec = test_message_type();
    let result = codec.to_repr(&text_value(TEXT, "some content"));
    assert_eq!(result, TextRepr::Unit("some content".to_string()));
}

#[test]
fn test_to_prompt_text() {
    let codec = test_message_type();
    let result = codec.to_prompt_text(&text_value(ACTION, "test action"), "zh");
    assert_eq!(result, "动作: test action");

    let result = codec.to_prompt_text(&unit_value(SCENARIO), "zh");
    assert_eq!(result, "Scenario");

    let result = codec.to_prompt_text(&text_value(TEXT, "some content"), "zh");
    assert_eq!(result, "some content");
}

#[test]
fn test_round_trip_unit_variant() {
    let codec = test_message_type();
    let written = unit_value(SCENARIO);
    let value = codec.to_repr(&written);
    let parsed = codec.from_repr(&value).unwrap();
    assert_eq!(written, parsed);
}

#[test]
fn test_round_trip_content_variant() {
    let codec = test_message_type();
    let written = text_value(ACTION, "hello world");
    let value = codec.to_repr(&written);
    let parsed = codec.from_repr(&value).unwrap();
    assert_eq!(written, parsed);
}

#[test]
fn test_round_trip_catch_all_variant() {
    let codec = test_message_type();
    let written = text_value(TEXT, "catch all content");
    let value = codec.to_repr(&written);
    let parsed = codec.from_repr(&value).unwrap();
    assert_eq!(written, parsed);
}

#[test]
fn test_parse_pure_string_as_catch_all() {
    let codec = test_message_type();
    let input = "some random text";
    let parsed = codec.from_repr(&TextRepr::Unit(input.to_string())).unwrap();
    match parsed {
        TextEnumValue { variant: TEXT, payload: Payload::Text(content) } => assert_eq!(content, input),
        _ => panic!("Should parse as catch-all Text variant"),
    }
}

#[test]
fn test_parse_structured_json() {
    let codec = test_message_type();
    let input = TextRepr::Content { typ: "动作".to_string(), content: Some("test content".to_string()) };
    let parsed = codec.from_repr(&input).unwrap();
    match parsed {
        TextEnumValue { variant: ACTION, payload: Payload::Text(content) } => assert_eq!(content, "test content"),
        _ => panic!("Should parse as Action variant"),
    }
}

#[test]
fn test_simple_enum_unit_variants() {
    let codec = simple_enum();
    let option_a = unit_value(0);
    let value = codec.to_repr(&option_a);
    assert_eq!(value, TextRepr::Unit("OptionA".to_string()));

    let parsed = codec.from_repr(&value).unwrap();
    assert_eq!(parsed, unit_value(0));
}

#[test]
fn test_configuration_methods() {
    assert_eq!(test_message_type().type_lang(), "zh");
    assert_eq!(test_message_type().schema_lang(), "en");

    assert_eq!(simple_enum().type_lang(), "en");
    assert_eq!(simple_enum().schema_lang(), "en");
}

#[test]
fn test_default_implementation() {
    let default = test_message_type().default_value().unwrap();
    match default {
        TextEnumValue { variant: TEXT, payload: Payload::Text(content) } => assert_eq!(content, ""),
        _ => panic!("Default should be catch-all Text variant"),
    }
}

#[test]
fn test_display_trait() {
    let codec = test_message_type();
    let action = text_value(ACTION, "test content");
    let display_str = codec.display(&action);
    // Display produces a valid JSON string.
    let parsed = codec.parse(&display_str).unwrap();
    assert_eq!(action, parsed);

    let scenario = unit_value(SCENARIO);
    let display_str = codec.display(&scenario);
    assert_eq!(display_str, r#""Scenario""#);
    let parsed = codec.parse(&display_str).unwrap();
    assert_eq!(scenario, parsed);
}

#[test]
fn test_from_str_trait() {
    let codec = test_message_type();
    // Test parsing unit variant
    let result = codec.parse(r#""Scenario""#).unwrap();
    assert!(matches!(result, TextEnumValue { variant: SCENARIO, payload: Payload::Unit }));

    // Test parsing structured JSON
    let json_str = r#"{"content": "test content", "type": "动作"}"#;
    let result = codec.parse(json_str).unwrap();
    match result {
        TextEnumValue { variant: ACTION, payload: Payload::Text(content) } => assert_eq!(content, "test content"),
        _ => panic!("Expected Action variant"),
    }

    // Test parsing catch-all
    let result = codec.parse(r#""some random text""#).unwrap();
    match result {
        TextEnumValue { variant: TEXT, payload: Payload::Text(content) } => assert_eq!(content, "some random text"),
        _ => panic!("Expected Text variant"),
    }
}

#[test]
fn test_default_trait() {
    let default_value = test_message_type().default_value().unwrap();
    match default_value {
        TextEnumValue { variant: TEXT, payload: Payload::Text(content) } => assert_eq!(content, ""),
        _ => panic!("Expected Text variant with empty string"),
    }
}

#[test]
fn test_comprehensive_trait_integration() {
    let codec = test_message_type();
    let written = text_value(ACTION, "hello world");
    let display_str = codec.display(&written);
    let parsed = codec.parse(&display_str).unwrap();
    assert_eq!(written, parsed);

    let original_text = text_value(TEXT, "catch-all content");
    let display_str = codec.display(&original_text);
    let parsed = codec.parse(&display_str).unwrap();
    assert_eq!(original_text, parsed);
}

// ---------------------------------------------------------------------------
// Further cases
// ---------------------------------------------------------------------------

fn with_lists_and_ids() -> TextEnumCodec {
    TextEnumCodec {
        ident: "Tagged".to_string(),
        type_lang: "en".to_string(),
        schema_lang: "en".to_string(),
        variants: vec![
            variant("Items", VariantKind::VecString, &[("zh", "条目")]),
            variant("Entity", VariantKind::Uuid, &[]),
        ],
    }
}

#[test]
fn list_variant_prompt_and_round_trip() {
    let codec = with_lists_and_ids();
    let value = TextEnumValue { variant: 0, payload: Payload::Items(vec!["a".to_string(), "b".to_string()]) };
    assert_eq!(codec.to_prompt_text(&value, "en"), "Items: a,b");
    let repr = codec.to_repr(&value);
    assert_eq!(repr, TextRepr::Content { typ: "Items".to_string(), content: Some("a,b".to_string()) });
    assert_eq!(codec.from_repr(&repr).unwrap(), value);
    // Items are trimmed and a blank list is empty.
    let spaced = TextRepr::Content { typ: "条目".to_string(), content: Some(" x , y ".to_string()) };
    assert_eq!(
        codec.from_repr(&spaced).unwrap().payload,
        Payload::Items(vec!["x".to_string(), "y".to_string()])
    );
    let blank = TextRepr::Content { typ: "Items".to_string(), content: Some("   ".to_string()) };
    assert_eq!(codec.from_repr(&blank).unwrap().payload, Payload::Items(vec![]));
}

#[test]
fn id_variant_prompt_and_round_trip() {
    let codec = with_lists_and_ids();
    let id: u128 = 0x67e5_5044_10b1_426f_9247_bb68_0e5f_e0c8;
    let value = TextEnumValue { variant: 1, payload: Payload::Id(id) };
    assert_eq!(codec.to_prompt_text(&value, "en"), "Entity: 67e55044-10b1-426f-9247-bb680e5fe0c8");
    let repr = codec.to_repr(&value);
    assert_eq!(codec.from_repr(&repr).unwrap(), value);
    let bad = TextRepr::Content { typ: "Entity".to_string(), content: Some("not an id".to_string()) };
    assert_eq!(codec.from_repr(&bad), Err(CodecError::InvalidContent));
}

#[test]
fn errors_for_unknown_names_and_shapes() {
    let simple = simple_enum();
    assert_eq!(simple.from_repr(&TextRepr::Unit("OptionC".to_string())), Err(CodecError::UnknownUnitVariant));
    let codec = test_message_type();
    let unknown = TextRepr::Content { typ: "Nope".to_string(), content: Some("x".to_string()) };
    assert_eq!(codec.from_repr(&unknown), Err(CodecError::UnknownContentType));
    let not_text = TextRepr::Content { typ: "Action".to_string(), content: None };
    assert_eq!(codec.from_repr(&not_text), Err(CodecError::InvalidContent));
    assert_eq!(codec.parse("[1, 2]"), Err(CodecError::ShapeMismatch));
    assert_eq!(codec.parse(r#"{"content": "x"}"#), Err(CodecError::ShapeMismatch));
    // A number in content is not text.
    assert_eq!(codec.parse(r#"{"type": "Action", "content": 3}"#), Err(CodecError::InvalidContent));
    // Text that is not JSON is a plain string.
    assert_eq!(codec.parse("Scenario").unwrap(), unit_value(SCENARIO));
}

#[test]
fn display_escapes_strings() {
    let codec = test_message_type();
    let value = text_value(CHAT_INDEX, "say \"hi\"\n");
    assert_eq!(codec.display(&value), "{\"type\":\"对话\",\"content\":\"say \\\"hi\\\"\\n\"}");
    let back = codec.parse(&codec.display(&value)).unwrap();
    assert_eq!(back, value);
}

const CHAT_INDEX: usize = 1;

#[test]
fn schema_by_language() {
    let codec = test_message_type();
    let names = |v: &[&str]| v.iter().map(|s| s.to_string()).collect::<Vec<String>>();
    // Both structured and unit variants: a string enum.
    assert_eq!(codec.schema(None), EnumSchema::StringEnum(names(&["Action", "Chat", "Scenario", "Text"])));
    assert_eq!(codec.schema(Some("zh")), EnumSchema::StringEnum(names(&["动作", "对话"])));
    // A language without names falls back to the schema language.
    assert_eq!(codec.schema(Some("fr")), EnumSchema::StringEnum(names(&["Action", "Chat", "Scenario", "Text"])));
    let lists = with_lists_and_ids();
    assert_eq!(lists.schema(None), EnumSchema::TypedContent(names(&["Items", "Entity"])));
    assert_eq!(simple_enum().schema(None), EnumSchema::StringEnum(names(&["OptionA", "OptionB"])));
    assert!(simple_enum().default_value().is_none());
}
