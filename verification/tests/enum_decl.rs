use metastable::enum_decl::{
    parse_codec_variant, parse_prompt_codec, parse_text_enum, parse_variant, variant_kind, DeclData, DeclError, EnumAttr, VariantAttr, VariantDecl, VariantFields,
};
use metastable::prompt_codec::CodecFormat;
use metastable::text_enum::{TextEnumCodec, VariantKind};

fn prefix(lang: &str, content: &str) -> VariantAttr {
    VariantAttr::Prefix { lang: Some(lang.to_string()), content: Some(content.to_string()) }
}

fn one_field(ty: &str) -> VariantFields {
    VariantFields::Unnamed(vec![ty.to_string()])
}

fn decl(ident: &str, attrs: Vec<VariantAttr>, fields: VariantFields) -> VariantDecl {
    VariantDecl { ident: ident.to_string(), attrs, fields }
}

/// The declaration of the message type used throughout the codec tests.
fn message_type_decl() -> (Vec<EnumAttr>, DeclData) {
    let attrs = vec![EnumAttr::TextEnum { type_lang: Some("zh".to_string()), schema_lang: Some("en".to_string()) }];
    let variants = vec![
        decl("Action", vec![prefix("zh", "动作")], one_field("String")),
        decl("Chat", vec![prefix("zh", "对话")], one_field("String")),
        decl("Scenario", vec![], VariantFields::Unit),
        decl("Text", vec![VariantAttr::CatchAll { include_prefix: Some(false), no_prefix: false }], one_field("String")),
    ];
    (attrs, DeclData::Enum(variants))
}

fn summary(c: &TextEnumCodec) -> Vec<(String, VariantKind, Vec<(String, String)>, bool, bool)> {
    c.variants
        .iter()
        .map(|v| (v.ident.clone(), v.kind, v.prefixes.clone(), v.is_catch_all, v.catch_all_include_prefix))
        .collect()
}

#[test]
fn message_type_declaration() {
    let (attrs, data) = message_type_decl();
    let codec = parse_text_enum("TestMessageType", &attrs, &data).unwrap();
    assert_eq!(codec.ident, "TestMessageType");
    assert_eq!(codec.type_lang, "zh");
    assert_eq!(codec.schema_lang, "en");
    assert_eq!(
        summary(&codec),
        vec![
            ("Action".to_string(), VariantKind::String, vec![("zh".to_string(), "动作".to_string())], false, false),
            ("Chat".to_string(), VariantKind::String, vec![("zh".to_string(), "对话".to_string())], false, false),
            ("Scenario".to_string(), VariantKind::Unit, vec![], false, false),
            ("Text".to_string(), VariantKind::String, vec![], true, false),
        ]
    );
}

#[test]
fn languages_default_to_english() {
    let codec = parse_text_enum("SimpleEnum", &vec![EnumAttr::Other], &DeclData::Enum(vec![])).unwrap();
    assert_eq!((codec.type_lang.as_str(), codec.schema_lang.as_str()), ("en", "en"));
    let attrs = vec![
        EnumAttr::TextEnum { type_lang: Some("zh".to_string()), schema_lang: None },
        EnumAttr::TextEnum { type_lang: Some("ja".to_string()), schema_lang: None },
    ];
    let codec = parse_text_enum("E", &attrs, &DeclData::Enum(vec![])).unwrap();
    assert_eq!((codec.type_lang.as_str(), codec.schema_lang.as_str()), ("ja", "en"));
}

#[test]
fn declaration_errors() {
    assert!(matches!(parse_text_enum("S", &vec![], &DeclData::NotEnum), Err(DeclError::NotAnEnum)));
    let no_lang = VariantAttr::Prefix { lang: None, content: Some("x".to_string()) };
    let no_content = VariantAttr::Prefix { lang: Some("zh".to_string()), content: None };
    assert!(matches!(parse_variant(&decl("A", vec![no_lang], VariantFields::Unit)), Err(DeclError::MissingLang)));
    assert!(matches!(parse_variant(&decl("A", vec![no_content], VariantFields::Unit)), Err(DeclError::MissingContent)));
    let data = DeclData::Enum(vec![
        decl("A", vec![], VariantFields::Unit),
        decl("B", vec![VariantAttr::Prefix { lang: Some("zh".to_string()), content: None }], VariantFields::Unit),
        decl("C", vec![VariantAttr::Prefix { lang: None, content: None }], VariantFields::Unit),
    ]);
    assert!(matches!(parse_text_enum("E", &vec![], &data), Err(DeclError::MissingContent)));
}

#[test]
fn later_prefix_replaces_earlier() {
    let v = parse_variant(&decl("A", vec![prefix("zh", "一"), prefix("en", "one"), prefix("zh", "壹")], VariantFields::Unit)).unwrap();
    assert_eq!(v.prefixes, vec![("zh".to_string(), "壹".to_string()), ("en".to_string(), "one".to_string())]);
    let v = parse_variant(&decl(
        "T",
        vec![VariantAttr::CatchAll { include_prefix: Some(true), no_prefix: false }, VariantAttr::CatchAll { include_prefix: None, no_prefix: false }],
        one_field("String"),
    ))
    .unwrap();
    assert!(v.is_catch_all && v.catch_all_include_prefix);
}

#[test]
fn variant_shapes() {
    assert_eq!(variant_kind(&VariantFields::Unit), VariantKind::Unit);
    assert_eq!(variant_kind(&one_field("String")), VariantKind::String);
    assert_eq!(variant_kind(&one_field("std::string::String")), VariantKind::String);
    assert_eq!(variant_kind(&one_field("Vec<String>")), VariantKind::VecString);
    assert_eq!(variant_kind(&one_field("Uuid")), VariantKind::Uuid);
    assert_eq!(variant_kind(&one_field("sqlx::types::Uuid")), VariantKind::Uuid);
    assert_eq!(variant_kind(&one_field("i32")), VariantKind::Unsupported);
    assert_eq!(variant_kind(&VariantFields::Unnamed(vec!["String".to_string(), "String".to_string()])), VariantKind::Unsupported);
    assert_eq!(variant_kind(&VariantFields::Named), VariantKind::Unsupported);
}

#[test]
fn prompt_codec_declaration() {
    let attrs = vec![EnumAttr::TextCodec { format: Some("colon".to_string()), storage_lang: Some("zh".to_string()), colon_char: Some("：".to_string()) }];
    let data = DeclData::Enum(vec![
        decl("Action", vec![prefix("zh", "动作"), prefix("zh", "行动"), VariantAttr::Prefix { lang: Some("en".to_string()), content: None }], one_field("String")),
        decl("Items", vec![], one_field("Vec<std::string::String>")),
        decl("Scenario", vec![VariantAttr::CatchAll { include_prefix: None, no_prefix: false }], VariantFields::Unit),
        decl("Text", vec![VariantAttr::CatchAll { include_prefix: None, no_prefix: true }], one_field("String")),
    ]);
    let codec = match parse_prompt_codec("Message", &attrs, &data) {
        Ok(c) => c,
        Err(_) => panic!("an enum is a prompt codec"),
    };
    assert_eq!(codec.ident, "Message");
    assert_eq!(codec.format, CodecFormat::Colon);
    assert_eq!(codec.storage_lang, "zh");
    assert_eq!(codec.colon_char, "：");
    let kinds: Vec<VariantKind> = codec.variants.iter().map(|v| v.kind).collect();
    assert_eq!(kinds, vec![VariantKind::String, VariantKind::VecString, VariantKind::Unit, VariantKind::String]);
    assert_eq!(
        codec.variants[0].prefixes,
        vec![("zh".to_string(), "动作".to_string()), ("zh".to_string(), "行动".to_string())]
    );
    let catch_alls: Vec<bool> = codec.variants.iter().map(|v| v.is_catch_all).collect();
    assert_eq!(catch_alls, vec![false, false, false, true]);

    let plain = match parse_prompt_codec("P", &vec![EnumAttr::Other], &DeclData::Enum(vec![])) {
        Ok(c) => c,
        Err(_) => panic!("an enum is a prompt codec"),
    };
    assert_eq!(plain.format, CodecFormat::Paren);
    assert_eq!(plain.storage_lang, "en");
    assert_eq!(plain.colon_char, ":");
    assert!(matches!(parse_prompt_codec("S", &vec![], &DeclData::NotEnum), Err(DeclError::NotAnEnum)));
    let v = parse_codec_variant(&decl("Other", vec![], VariantFields::Named));
    assert_eq!(v.kind, VariantKind::Unsupported);
}
