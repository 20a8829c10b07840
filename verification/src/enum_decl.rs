//! Reading the declaration of a text enum: the `text_enum` attributes that set
//! its languages, and for each variant its `prefix` and `catch_all`
//! attributes and the shape of its data.
use vstd::prelude::*;
use crate::assoc::{assoc_insert, assoc_insert_exec, keys_unique, lemma_assoc_insert, pairs_view};
use crate::prompt_codec::{CodecFormat, PromptCodec, PromptVariant};
use crate::text::{owned, str_eq};
use crate::text_enum::{variant_wf, TextEnumCodec, TextEnumVariant, VariantKind};

verus! {

broadcast use vstd::string::group_string_axioms;

/// An attribute on a variant, with what it gives.
pub enum VariantAttr {
    /// `#[prefix(lang = .., content = ..)]`: the language and the type name
    /// given in it (the last of each), if any.
    Prefix { lang: Option<String>, content: Option<String> },
    /// `#[catch_all]` or `#[catch_all(..)]`: the `include_prefix` flag given
    /// in it, if any, and whether it is a list that sets `no_prefix`.
    CatchAll { include_prefix: Option<bool>, no_prefix: bool },
    /// Any other attribute, or a `prefix` not written as a list.
    Other,
}

/// The data of a variant as declared.
pub enum VariantFields {
    /// No data.
    Unit,
    /// Unnamed fields, each type as written without spaces.
    Unnamed(Vec<String>),
    /// Named fields.
    Named,
}

/// A variant as declared: its name, its attributes in order, and its data.
pub struct VariantDecl {
    pub ident: String,
    pub attrs: Vec<VariantAttr>,
    pub fields: VariantFields,
}

/// An attribute on the enum, with what it gives.
pub enum EnumAttr {
    /// `#[text_enum(type_lang = .., schema_lang = ..)]`: the languages given
    /// in it (the last of each), if any.
    TextEnum { type_lang: Option<String>, schema_lang: Option<String> },
    /// `#[text_codec(format = .., storage_lang = .., colon_char = ..)]`: the
    /// settings given in it (the last of each), if any.
    TextCodec { format: Option<String>, storage_lang: Option<String>, colon_char: Option<String> },
    /// Any other attribute.
    Other,
}

/// The body of the declaration.
pub enum DeclData {
    /// An enum with its variants in declaration order.
    Enum(Vec<VariantDecl>),
    /// A struct or a union.
    NotEnum,
}

/// Why a declaration is not a text enum.
#[derive(Debug, Clone, Copy, PartialEq, Eq, Structural)]
pub enum DeclError {
    /// The declaration is not an enum.
    NotAnEnum,
    /// A `prefix` attribute gives no language.
    MissingLang,
    /// A `prefix` attribute gives a language but no type name.
    MissingContent,
}

/// What the attributes of a variant set: its type names by language, and
/// whether it is the catch-all and shows its type name.
pub struct AttrSummary {
    pub prefixes: Seq<(Seq<char>, Seq<char>)>,
    pub catch_all: bool,
    pub include_prefix: bool,
}

/// The attributes of a variant read in order: each `prefix` registers its
/// type name for its language (replacing an earlier one), `catch_all` marks
/// the catch-all and sets whether it shows its type name when given; the
/// first `prefix` without a language, or without a type name, is an error.
pub open spec fn read_variant_attrs(attrs: Seq<VariantAttr>) -> Result<AttrSummary, DeclError>
    decreases attrs.len(),
{
    if attrs.len() == 0 {
        Ok(AttrSummary { prefixes: Seq::empty(), catch_all: false, include_prefix: false })
    } else {
        match read_variant_attrs(attrs.drop_last()) {
            Err(e) => Err(e),
            Ok(s) => match attrs.last() {
                VariantAttr::Prefix { lang, content } => match lang {
                    None => Err(DeclError::MissingLang),
                    Some(l) => match content {
                        None => Err(DeclError::MissingContent),
                        Some(c) => Ok(AttrSummary { prefixes: assoc_insert(s.prefixes, l@, c@), ..s }),
                    },
                },
                VariantAttr::CatchAll { include_prefix, .. } => Ok(AttrSummary {
                    catch_all: true,
                    include_prefix: match include_prefix {
                        Some(b) => b,
                        None => s.include_prefix,
                    },
                    ..s
                }),
                VariantAttr::Other => Ok(s),
            },
        }
    }
}

/// The shape of the data of one unnamed field of type `t`.
pub open spec fn kind_of_type(t: Seq<char>) -> VariantKind {
    if t == "String"@ || t == "std::string::String"@ {
        VariantKind::String
    } else if t == "Vec<String>"@ {
        VariantKind::VecString
    } else if t == "Uuid"@ || t == "sqlx::types::Uuid"@ {
        VariantKind::Uuid
    } else {
        VariantKind::Unsupported
    }
}

/// The shape of a variant's data: none, or one supported unnamed field.
pub open spec fn kind_of_fields(f: VariantFields) -> VariantKind {
    match f {
        VariantFields::Unit => VariantKind::Unit,
        VariantFields::Unnamed(ts) => if ts@.len() == 1 { kind_of_type(ts@[0]@) } else { VariantKind::Unsupported },
        VariantFields::Named => VariantKind::Unsupported,
    }
}

/// `v` is the variant that `d` declares.
pub open spec fn variant_from_decl(v: TextEnumVariant, d: VariantDecl) -> bool {
    match read_variant_attrs(d.attrs@) {
        Ok(s) => {
            &&& v.ident@ == d.ident@
            &&& v.kind == kind_of_fields(d.fields)
            &&& pairs_view(v.prefixes@) == s.prefixes
            &&& v.is_catch_all == s.catch_all
            &&& v.catch_all_include_prefix == s.include_prefix
        },
        Err(_) => false,
    }
}

/// The error of the first variant whose attributes are in error.
pub open spec fn first_decl_error(vs: Seq<VariantDecl>) -> Option<DeclError>
    decreases vs.len(),
{
    if vs.len() == 0 {
        None
    } else {
        match first_decl_error(vs.drop_last()) {
            Some(e) => Some(e),
            None => match read_variant_attrs(vs.last().attrs@) {
                Err(e) => Some(e),
                Ok(_) => None,
            },
        }
    }
}

/// The type language and schema language set by the enum's attributes: the
/// last given of each, `en` when none is.
pub open spec fn langs_of(attrs: Seq<EnumAttr>) -> (Seq<char>, Seq<char>)
    decreases attrs.len(),
{
    if attrs.len() == 0 {
        ("en"@, "en"@)
    } else {
        let prev = langs_of(attrs.drop_last());
        match attrs.last() {
            EnumAttr::TextEnum { type_lang, schema_lang } => (
                match type_lang {
                    Some(t) => t@,
                    None => prev.0,
                },
                match schema_lang {
                    Some(s) => s@,
                    None => prev.1,
                },
            ),
            _ => prev,
        }
    }
}

/// Once reading the attributes fails, reading more of them fails the same way.
proof fn lemma_attr_error_stays(attrs: Seq<VariantAttr>, n: int, m: int)
    requires
        0 <= n <= m <= attrs.len(),
        read_variant_attrs(attrs.take(n)) is Err,
    ensures
        read_variant_attrs(attrs.take(m)) == read_variant_attrs(attrs.take(n)),
    decreases m - n,
{
    if m > n {
        lemma_attr_error_stays(attrs, n, m - 1);
        assert(attrs.take(m).drop_last() =~= attrs.take(m - 1));
    }
}

/// Read attributes register at most one type name per language.
proof fn lemma_attr_keys_unique(attrs: Seq<VariantAttr>)
    ensures
        read_variant_attrs(attrs) matches Ok(s) ==> keys_unique(s.prefixes),
    decreases attrs.len(),
{
    if attrs.len() > 0 {
        lemma_attr_keys_unique(attrs.drop_last());
        if let Ok(s) = read_variant_attrs(attrs.drop_last()) {
            if let VariantAttr::Prefix { lang: Some(l), content: Some(c) } = attrs.last() {
                lemma_assoc_insert(s.prefixes, l@, c@);
            }
        }
    }
}

/// Once a variant is in error, the first error stays.
proof fn lemma_decl_error_stays(vs: Seq<VariantDecl>, n: int, m: int)
    requires
        0 <= n <= m <= vs.len(),
        first_decl_error(vs.take(n)) is Some,
    ensures
        first_decl_error(vs.take(m)) == first_decl_error(vs.take(n)),
    decreases m - n,
{
    if m > n {
        lemma_decl_error_stays(vs, n, m - 1);
        assert(vs.take(m).drop_last() =~= vs.take(m - 1));
    }
}

/// The shape of a variant's data from its declared fields.
pub fn variant_kind(fields: &VariantFields) -> (r: VariantKind)
    ensures
        r == kind_of_fields(*fields),
{
    match fields {
        VariantFields::Unit => VariantKind::Unit,
        VariantFields::Unnamed(ts) => {
            if ts.len() == 1 {
                let t = ts[0].as_str();
                if str_eq(t, "String") || str_eq(t, "std::string::String") {
                    VariantKind::String
                } else if str_eq(t, "Vec<String>") {
                    VariantKind::VecString
                } else if str_eq(t, "Uuid") || str_eq(t, "sqlx::types::Uuid") {
                    VariantKind::Uuid
                } else {
                    VariantKind::Unsupported
                }
            } else {
                VariantKind::Unsupported
            }
        },
        VariantFields::Named => VariantKind::Unsupported,
    }
}

/// The variant a declaration declares, or the error of its first bad
/// `prefix` attribute. A variant holds at most one type name per language,
/// the last one given.
pub fn parse_variant(decl: &VariantDecl) -> (r: Result<TextEnumVariant, DeclError>)
    ensures
        match read_variant_attrs(decl.attrs@) {
            Ok(_) => r matches Ok(v) && variant_from_decl(v, *decl) && variant_wf(v),
            Err(e) => r == Err::<TextEnumVariant, DeclError>(e),
        },
{
    let mut prefixes: Vec<(String, String)> = Vec::new();
    let mut catch_all = false;
    let mut include_prefix = false;
    let mut i: usize = 0;
    assert(decl.attrs@.take(0) =~= Seq::<VariantAttr>::empty());
    assert(pairs_view(prefixes@) =~= Seq::<(Seq<char>, Seq<char>)>::empty());
    while i < decl.attrs.len()
        invariant
            i <= decl.attrs@.len(),
            read_variant_attrs(decl.attrs@.take(i as int))
                == Ok::<AttrSummary, DeclError>(AttrSummary { prefixes: pairs_view(prefixes@), catch_all, include_prefix }),
        decreases decl.attrs@.len() - i,
    {
        assert(decl.attrs@.take(i + 1).drop_last() =~= decl.attrs@.take(i as int));
        match &decl.attrs[i] {
            VariantAttr::Prefix { lang, content } => match lang {
                None => {
                    proof {
                        lemma_attr_error_stays(decl.attrs@, i + 1, decl.attrs@.len() as int);
                        assert(decl.attrs@.take(decl.attrs@.len() as int) =~= decl.attrs@);
                    }
                    return Err(DeclError::MissingLang);
                },
                Some(l) => match content {
                    None => {
                        proof {
                            lemma_attr_error_stays(decl.attrs@, i + 1, decl.attrs@.len() as int);
                            assert(decl.attrs@.take(decl.attrs@.len() as int) =~= decl.attrs@);
                        }
                        return Err(DeclError::MissingContent);
                    },
                    Some(c) => {
                        assoc_insert_exec(&mut prefixes, l.clone(), c.clone());
                    },
                },
            },
            VariantAttr::CatchAll { include_prefix: given, .. } => {
                catch_all = true;
                match given {
                    Some(b) => {
                        include_prefix = *b;
                    },
                    None => {},
                }
            },
            VariantAttr::Other => {},
        }
        i = i + 1;
    }
    proof {
        assert(decl.attrs@.take(decl.attrs@.len() as int) =~= decl.attrs@);
        lemma_attr_keys_unique(decl.attrs@);
    }
    let v = TextEnumVariant {
        ident: owned(decl.ident.as_str()),
        kind: variant_kind(&decl.fields),
        prefixes,
        is_catch_all: catch_all,
        catch_all_include_prefix: include_prefix,
    };
    assert(variant_wf(v)) by {
        assert forall|a: int, b: int| 0 <= a < b < v.prefixes@.len() implies
            (#[trigger] v.prefixes@[a]).0@ != (#[trigger] v.prefixes@[b]).0@ by {
            assert(pairs_view(v.prefixes@)[a].0 == v.prefixes@[a].0@);
            assert(pairs_view(v.prefixes@)[b].0 == v.prefixes@[b].0@);
        }
    }
    Ok(v)
}

/// The text enum a declaration declares: its name, its languages, and its
/// variants in order; an error when it is not an enum, else the error of its
/// first variant in error.
pub fn parse_text_enum(ident: &str, attrs: &Vec<EnumAttr>, data: &DeclData) -> (r: Result<TextEnumCodec, DeclError>)
    ensures
        match data {
            DeclData::NotEnum => r == Err::<TextEnumCodec, DeclError>(DeclError::NotAnEnum),
            DeclData::Enum(vs) => match first_decl_error(vs@) {
                Some(e) => r == Err::<TextEnumCodec, DeclError>(e),
                None => r matches Ok(c) && {
                    &&& c.ident@ == ident@
                    &&& (c.type_lang@, c.schema_lang@) == langs_of(attrs@)
                    &&& c.variants@.len() == vs@.len()
                    &&& forall|i: int| 0 <= i < vs@.len() ==>
                        variant_from_decl(#[trigger] c.variants@[i], vs@[i]) && variant_wf(c.variants@[i])
                },
            },
        },
{
    let mut type_lang = owned("en");
    let mut schema_lang = owned("en");
    let mut i: usize = 0;
    while i < attrs.len()
        invariant
            i <= attrs@.len(),
            (type_lang@, schema_lang@) == langs_of(attrs@.take(i as int)),
        decreases attrs@.len() - i,
    {
        assert(attrs@.take(i + 1).drop_last() =~= attrs@.take(i as int));
        match &attrs[i] {
            EnumAttr::TextEnum { type_lang: t, schema_lang: s } => {
                match t {
                    Some(x) => {
                        type_lang = x.clone();
                    },
                    None => {},
                }
                match s {
                    Some(x) => {
                        schema_lang = x.clone();
                    },
                    None => {},
                }
            },
            _ => {},
        }
        i = i + 1;
    }
    assert(attrs@.take(attrs@.len() as int) =~= attrs@);
    let vs = match data {
        DeclData::Enum(vs) => vs,
        DeclData::NotEnum => {
            return Err(DeclError::NotAnEnum);
        },
    };
    let mut variants: Vec<TextEnumVariant> = Vec::new();
    let mut j: usize = 0;
    while j < vs.len()
        invariant
            j <= vs@.len(),
            *data == DeclData::Enum(*vs),
            first_decl_error(vs@.take(j as int)) is None,
            variants@.len() == j,
            forall|k: int| 0 <= k < j ==> variant_from_decl(#[trigger] variants@[k], vs@[k]) && variant_wf(variants@[k]),
        decreases vs@.len() - j,
    {
        assert(vs@.take(j + 1).drop_last() =~= vs@.take(j as int));
        match parse_variant(&vs[j]) {
            Ok(v) => {
                variants.push(v);
            },
            Err(e) => {
                proof {
                    lemma_decl_error_stays(vs@, j + 1, vs@.len() as int);
                    assert(vs@.take(vs@.len() as int) =~= vs@);
                }
                return Err(e);
            },
        }
        j = j + 1;
    }
    assert(vs@.take(vs@.len() as int) =~= vs@);
    Ok(TextEnumCodec { ident: owned(ident), type_lang, schema_lang, variants })
}

// ---------------------------------------------------------------------------
// Prompt codec declarations
// ---------------------------------------------------------------------------

/// The type names a variant of a prompt codec registers: each `prefix` that
/// gives both a language and a name, in order (a language may repeat).
pub open spec fn codec_prefixes(attrs: Seq<VariantAttr>) -> Seq<(Seq<char>, Seq<char>)>
    decreases attrs.len(),
{
    if attrs.len() == 0 {
        Seq::empty()
    } else {
        let prev = codec_prefixes(attrs.drop_last());
        match attrs.last() {
            VariantAttr::Prefix { lang: Some(l), content: Some(c) } => prev.push((l@, c@)),
            _ => prev,
        }
    }
}

/// A variant of a prompt codec is the catch-all when one of its `catch_all`
/// attributes sets `no_prefix`.
pub open spec fn codec_catch_all(attrs: Seq<VariantAttr>) -> bool {
    exists|i: int| 0 <= i < attrs.len() && (#[trigger] attrs[i]) matches VariantAttr::CatchAll { no_prefix: true, .. }
}

/// The shape of a prompt codec variant: none, one string, one list of strings.
pub open spec fn codec_kind_of_fields(f: VariantFields) -> VariantKind {
    match f {
        VariantFields::Unit => VariantKind::Unit,
        VariantFields::Unnamed(ts) => if ts@.len() == 1 {
            let t = ts@[0]@;
            if t == "String"@ || t == "std::string::String"@ {
                VariantKind::String
            } else if t == "Vec<String>"@ || t == "Vec<std::string::String>"@ {
                VariantKind::VecString
            } else {
                VariantKind::Unsupported
            }
        } else {
            VariantKind::Unsupported
        },
        VariantFields::Named => VariantKind::Unsupported,
    }
}

/// The settings of a prompt codec: its format name (if given), its storage
/// language (`en` by default) and its colon (`:` by default); the last given wins.
pub open spec fn codec_settings(attrs: Seq<EnumAttr>) -> (Option<Seq<char>>, Seq<char>, Seq<char>)
    decreases attrs.len(),
{
    if attrs.len() == 0 {
        (None, "en"@, ":"@)
    } else {
        let prev = codec_settings(attrs.drop_last());
        match attrs.last() {
            EnumAttr::TextCodec { format, storage_lang, colon_char } => (
                match format {
                    Some(f) => Some(f@),
                    None => prev.0,
                },
                match storage_lang {
                    Some(l) => l@,
                    None => prev.1,
                },
                match colon_char {
                    Some(c) => c@,
                    None => prev.2,
                },
            ),
            _ => prev,
        }
    }
}

/// The format a format name selects: `paren` when none is given or it is
/// `paren`, else the colon format.
pub open spec fn format_named(f: Option<Seq<char>>) -> CodecFormat {
    match f {
        None => CodecFormat::Paren,
        Some(n) => if n == "paren"@ { CodecFormat::Paren } else { CodecFormat::Colon },
    }
}

/// `v` is the prompt codec variant that `d` declares.
pub open spec fn codec_variant_from_decl(v: PromptVariant, d: VariantDecl) -> bool {
    &&& v.ident@ == d.ident@
    &&& v.kind == codec_kind_of_fields(d.fields)
    &&& pairs_view(v.prefixes@) == codec_prefixes(d.attrs@)
    &&& v.is_catch_all == codec_catch_all(d.attrs@)
}

/// The prompt codec variant a declaration declares.
pub fn parse_codec_variant(decl: &VariantDecl) -> (r: PromptVariant)
    ensures
        codec_variant_from_decl(r, *decl),
{
    let mut prefixes: Vec<(String, String)> = Vec::new();
    let mut catch_all = false;
    let mut i: usize = 0;
    assert(decl.attrs@.take(0) =~= Seq::<VariantAttr>::empty());
    assert(pairs_view(prefixes@) =~= Seq::<(Seq<char>, Seq<char>)>::empty());
    while i < decl.attrs.len()
        invariant
            i <= decl.attrs@.len(),
            pairs_view(prefixes@) == codec_prefixes(decl.attrs@.take(i as int)),
            catch_all == codec_catch_all(decl.attrs@.take(i as int)),
        decreases decl.attrs@.len() - i,
    {
        let ghost before = decl.attrs@.take(i as int);
        let ghost after = decl.attrs@.take(i + 1);
        assert(after.drop_last() =~= before);
        assert(after.last() == decl.attrs@[i as int]);
        match &decl.attrs[i] {
            VariantAttr::Prefix { lang: Some(l), content: Some(c) } => {
                let ghost p0 = pairs_view(prefixes@);
                prefixes.push((l.clone(), c.clone()));
                assert(pairs_view(prefixes@) =~= p0.push((l@, c@)));
            },
            VariantAttr::CatchAll { no_prefix: true, .. } => {
                catch_all = true;
                assert(after[i as int] matches VariantAttr::CatchAll { no_prefix: true, .. });
            },
            _ => {},
        }
        assert(codec_catch_all(after) == (codec_catch_all(before)
            || after[i as int] matches VariantAttr::CatchAll { no_prefix: true, .. })) by {
            if codec_catch_all(before) {
                let k = choose|k: int| 0 <= k < before.len() && (#[trigger] before[k]) matches VariantAttr::CatchAll { no_prefix: true, .. };
                assert(after[k] == before[k]);
            }
            if codec_catch_all(after) {
                let k = choose|k: int| 0 <= k < after.len() && (#[trigger] after[k]) matches VariantAttr::CatchAll { no_prefix: true, .. };
                if k < i {
                    assert(before[k] == after[k]);
                }
            }
        }
        i = i + 1;
    }
    assert(decl.attrs@.take(decl.attrs@.len() as int) =~= decl.attrs@);
    let kind = match &decl.fields {
        VariantFields::Unit => VariantKind::Unit,
        VariantFields::Unnamed(ts) => if ts.len() == 1 {
            let t = ts[0].as_str();
            if str_eq(t, "String") || str_eq(t, "std::string::String") {
                VariantKind::String
            } else if str_eq(t, "Vec<String>") || str_eq(t, "Vec<std::string::String>") {
                VariantKind::VecString
            } else {
                VariantKind::Unsupported
            }
        } else {
            VariantKind::Unsupported
        },
        VariantFields::Named => VariantKind::Unsupported,
    };
    PromptVariant { ident: owned(decl.ident.as_str()), kind, is_catch_all: catch_all, prefixes }
}

/// The prompt codec a declaration declares: its name, its settings and its
/// variants in order; an error when it is not an enum.
pub fn parse_prompt_codec(ident: &str, attrs: &Vec<EnumAttr>, data: &DeclData) -> (r: Result<PromptCodec, DeclError>)
    ensures
        match data {
            DeclData::NotEnum => r == Err::<PromptCodec, DeclError>(DeclError::NotAnEnum),
            DeclData::Enum(vs) => r matches Ok(c) && {
                let settings = codec_settings(attrs@);
                &&& c.ident@ == ident@
                &&& c.format == format_named(settings.0)
                &&& c.storage_lang@ == settings.1
                &&& c.colon_char@ == settings.2
                &&& c.variants@.len() == vs@.len()
                &&& forall|i: int| 0 <= i < vs@.len() ==> codec_variant_from_decl(#[trigger] c.variants@[i], vs@[i])
            },
        },
{
    let mut format: Option<String> = None;
    let mut storage_lang = owned("en");
    let mut colon_char = owned(":");
    let mut i: usize = 0;
    while i < attrs.len()
        invariant
            i <= attrs@.len(),
            (match format { Some(f) => Some(f@), None => None::<Seq<char>> }, storage_lang@, colon_char@)
                == codec_settings(attrs@.take(i as int)),
        decreases attrs@.len() - i,
    {
        assert(attrs@.take(i + 1).drop_last() =~= attrs@.take(i as int));
        match &attrs[i] {
            EnumAttr::TextCodec { format: f, storage_lang: l, colon_char: c } => {
                match f {
                    Some(x) => {
                        format = Some(x.clone());
                    },
                    None => {},
                }
                match l {
                    Some(x) => {
                        storage_lang = x.clone();
                    },
                    None => {},
                }
                match c {
                    Some(x) => {
                        colon_char = x.clone();
                    },
                    None => {},
                }
            },
            _ => {},
        }
        i = i + 1;
    }
    assert(attrs@.take(attrs@.len() as int) =~= attrs@);
    let vs = match data {
        DeclData::Enum(vs) => vs,
        DeclData::NotEnum => {
            return Err(DeclError::NotAnEnum);
        },
    };
    let format = match format {
        None => CodecFormat::Paren,
        Some(f) => if str_eq(f.as_str(), "paren") { CodecFormat::Paren } else { CodecFormat::Colon },
    };
    let mut variants: Vec<PromptVariant> = Vec::new();
    let mut j: usize = 0;
    while j < vs.len()
        invariant
            j <= vs@.len(),
            variants@.len() == j,
            forall|k: int| 0 <= k < j ==> codec_variant_from_decl(#[trigger] variants@[k], vs@[k]),
        decreases vs@.len() - j,
    {
        variants.push(parse_codec_variant(&vs[j]));
        j = j + 1;
    }
    Ok(PromptCodec { ident: owned(ident), format, storage_lang, colon_char, variants })
}

} // verus!
