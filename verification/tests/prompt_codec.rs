use metastable::prompt_codec::{CodecFormat, PromptCodec, PromptParseError, PromptVariant};
use metastable::text_enum::{Payload, TextEnumValue, VariantKind};

fn variant(ident: &str, kind: VariantKind, prefixes: &[(&str, &str)], is_catch_all: bool) -> PromptVariant {
    PromptVariant {
        ident: ident.to_string(),
        kind,
        is_catch_all,
        prefixes: prefixes.iter().map(|(l, c)| (l.to_string(), c.to_string())).collect(),
    }
}

/// Action(String) [zh 动作], Scenario [zh 场景], Items(Vec<String>), Text(String) catch-all.
fn codec(format: CodecFormat, storage_lang: &str) -> PromptCodec {
    PromptCodec {
        ident: "Message".to_string(),
        format,
        storage_lang: storage_lang.to_string(),
        colon_char: ":".to_string(),
        variants: vec![
            variant("Action", VariantKind::String, &[("zh", "动作")], false),
            variant("Scenario", VariantKind::Unit, &[("zh", "场景")], false),
            variant("Items", VariantKind::VecString, &[("zh", "物品")], false),
            variant("Text", VariantKind::String, &[], true),
        ],
    }
}

fn text(variant: usize, s: &str) -> TextEnumValue {
    TextEnumValue { variant, payload: Payload::Text(s.to_string()) }
}

#[test]
fn paren_format_display_and_parse() {
    let c = codec(CodecFormat::Paren, "en");
    let v = text(0, "wave");
    assert_eq!(c.display(&v), "Action(wave)");
    assert_eq!(c.to_lang(&v, "zh"), "动作(wave)");
    assert_eq!(c.parse("  Action(wave)  ").unwrap(), v);
    assert_eq!(c.parse("动作(wave)").unwrap(), v);
    let items = TextEnumValue { variant: 2, payload: Payload::Items(vec!["a".to_string(), "b".to_string()]) };
    assert_eq!(c.display(&items), "Items([a,b])");
    assert_eq!(c.parse("Items([a, b])").unwrap(), items);
    assert_eq!(
        c.parse("Items([ ])").unwrap(),
        TextEnumValue { variant: 2, payload: Payload::Items(vec![]) }
    );
    assert_eq!(c.parse("Scenario").unwrap(), TextEnumValue { variant: 1, payload: Payload::Unit });
    assert_eq!(c.parse("场景").unwrap(), TextEnumValue { variant: 1, payload: Payload::Unit });
}

#[test]
fn colon_format_display_and_parse() {
    let mut c = codec(CodecFormat::Colon, "zh");
    c.colon_char = "：".to_string();
    let v = text(0, "wave");
    assert_eq!(c.display(&v), "动作： wave");
    assert_eq!(c.to_lang(&v, "en"), "Action： wave");
    assert_eq!(c.parse("动作： wave").unwrap(), v);
    let items = TextEnumValue { variant: 2, payload: Payload::Items(vec!["x".to_string()]) };
    assert_eq!(c.display(&items), "物品： [x]");
    assert_eq!(c.parse("物品： [x]").unwrap(), items);
}

#[test]
fn unknown_text_goes_to_catch_all_or_fails() {
    let c = codec(CodecFormat::Paren, "en");
    assert_eq!(c.parse("  hello there ").unwrap(), text(3, "hello there"));
    assert_eq!(c.parse_any_lang("Action(x)").unwrap(), text(3, "Action(x)"));
    let mut strict = codec(CodecFormat::Paren, "en");
    strict.variants.pop();
    assert_eq!(strict.parse("hello"), Err(PromptParseError::InvalidString));
    assert_eq!(strict.parse_with_type_and_content("Nope", "x"), Err(PromptParseError::InvalidTypeOrContent));
}

#[test]
fn parse_with_type_and_content_reads_declared_names() {
    let c = codec(CodecFormat::Paren, "en");
    assert_eq!(c.parse_with_type_and_content("动作", " hi ").unwrap(), text(0, " hi "));
    assert_eq!(c.parse_with_type_and_content("场景", "ignored").unwrap(), TextEnumValue { variant: 1, payload: Payload::Unit });
    assert_eq!(
        c.parse_with_type_and_content("物品", "a , b").unwrap(),
        TextEnumValue { variant: 2, payload: Payload::Items(vec!["a".to_string(), "b".to_string()]) }
    );
    // Only declared type names are read; an unknown type is kept whole in the catch-all.
    assert_eq!(c.parse_with_type_and_content("Action", "hi").unwrap(), text(3, "Action(hi)"));
}

#[test]
fn schema_and_default() {
    let c = codec(CodecFormat::Paren, "en");
    let names = |v: &[&str]| v.iter().map(|s| s.to_string()).collect::<Vec<String>>();
    assert_eq!(c.schema(None), names(&["Action", "Scenario", "Items", "Text"]));
    assert_eq!(c.schema(Some("zh")), names(&["动作", "场景", "物品", "Text"]));
    assert_eq!(c.schema(Some("fr")), names(&["Action", "Scenario", "Items", "Text"]));
    assert_eq!(c.default_value().unwrap(), text(3, ""));
    let mut strict = codec(CodecFormat::Paren, "en");
    strict.variants.pop();
    assert!(strict.default_value().is_none());
}

#[test]
fn any_language_text_reads_back() {
    let c = codec(CodecFormat::Paren, "en");
    let values = vec![
        text(0, "wave"),
        TextEnumValue { variant: 1, payload: Payload::Unit },
        TextEnumValue { variant: 2, payload: Payload::Items(vec!["a".to_string(), "b".to_string()]) },
    ];
    for v in values {
        let zh = c.to_lang(&v, "zh");
        assert_eq!(c.parse_any_lang(&zh).unwrap(), v);
    }
    // A language without type names falls back to the variant's name, which
    // only the storage-language reading knows.
    assert_eq!(c.to_lang(&text(0, "wave"), "fr"), "Action(wave)");
    assert_eq!(c.parse_any_lang("Action(wave)").unwrap(), text(3, "Action(wave)"));
}

#[test]
fn colon_message_codec_reads_back_its_text() {
    let c = PromptCodec {
        ident: "Msg".to_string(),
        format: CodecFormat::Colon,
        storage_lang: "zh".to_string(),
        colon_char: ":".to_string(),
        variants: vec![
            variant("Action", VariantKind::String, &[("en", "Act"), ("zh", "动作")], false),
            variant("Scenario", VariantKind::Unit, &[], false),
            variant("Text", VariantKind::String, &[], true),
        ],
    };
    let values = vec![
        text(0, "wave"),
        TextEnumValue { variant: 1, payload: Payload::Unit },
        text(2, "hello there"),
    ];
    assert_eq!(c.display(&values[0]), "动作: wave");
    assert_eq!(c.display(&values[2]), "Text: hello there");
    for v in values {
        assert_eq!(c.parse(&c.display(&v)).unwrap(), v);
    }
}
