//! Text enums: enums whose variants carry nothing, a string, a list of strings
//! or an identifier, rendered as prompt text in a configured language, stored
//! as a plain string or as a `{type, content}` object, and read back from either.
use vstd::prelude::*;
use crate::assoc::pairs_view;
use crate::text::{chars_of, concat, has_char, is_space, join, join_strings, lemma_split_join, lemma_trim_empty_all_space, owned, split_chars, split_on, str_eq, string_from, trim, trim_bounds};
use crate::uuid_text::{hex_digit, law_uuid_text_read_back, uuid_parse, uuid_read, uuid_text, uuid_to_string};

verus! {

broadcast use vstd::string::group_string_axioms;

/// The shape of a variant's data.
#[derive(Debug, Clone, Copy, PartialEq, Eq, Structural)]
pub enum VariantKind {
    /// No data, like `Scenario`.
    Unit,
    /// One `String`, like `Scenario(String)`.
    String,
    /// One `Vec<String>`, like `Items(Vec<String>)`.
    VecString,
    /// One identifier, like `Entity(Uuid)`.
    Uuid,
    /// Any other shape.
    Unsupported,
}

/// A variant of a text enum: its name, its shape, its type name in each
/// language (`(lang, name)` pairs), and whether it takes any text that no
/// other variant claims.
pub struct TextEnumVariant {
    pub ident: String,
    pub kind: VariantKind,
    pub prefixes: Vec<(String, String)>,
    pub is_catch_all: bool,
    pub catch_all_include_prefix: bool,
}

/// A text enum: its name, the language of type names in prompt text, the
/// default language of its schema, and its variants in declaration order.
pub struct TextEnumCodec {
    pub ident: String,
    pub type_lang: String,
    pub schema_lang: String,
    pub variants: Vec<TextEnumVariant>,
}

/// The data held by a value of a text enum.
#[derive(Debug, Clone, PartialEq, Eq)]
pub enum Payload {
    Unit,
    Text(String),
    Items(Vec<String>),
    Id(u128),
}

/// A value of a text enum: the index of its variant and its data.
#[derive(Debug, Clone, PartialEq, Eq)]
pub struct TextEnumValue {
    pub variant: usize,
    pub payload: Payload,
}

/// The stored form of a value: a plain string, or a type name with content
/// (`None` when the stored content is not a string).
#[derive(Debug, Clone, PartialEq, Eq)]
pub enum TextRepr {
    Unit(String),
    Content { typ: String, content: Option<String> },
}

/// Why a stored form or a text is not a value of the enum.
#[derive(Debug, Clone, Copy, PartialEq, Eq, Structural)]
pub enum CodecError {
    /// A plain string that names no unit variant, and there is no catch-all variant.
    UnknownUnitVariant,
    /// A type name that names no variant with content.
    UnknownContentType,
    /// Content that the named variant cannot read.
    InvalidContent,
    /// Text that is neither a string nor an object with `type` and `content`.
    ShapeMismatch,
}

/// The JSON schema of the type names: a string enum, or an object with string
/// `content` and an enumerated `type`.
#[derive(Debug, Clone, PartialEq, Eq)]
pub enum EnumSchema {
    StringEnum(Vec<String>),
    TypedContent(Vec<String>),
}

/// The data of a value, as sequences.
pub enum PayloadView {
    Unit,
    Text(Seq<char>),
    Items(Seq<Seq<char>>),
    Id(u128),
}

/// A value, as sequences.
pub struct ValueView {
    pub variant: usize,
    pub payload: PayloadView,
}

/// A stored form, as sequences.
pub enum ReprView {
    Unit(Seq<char>),
    Content(Seq<char>, Option<Seq<char>>),
}

/// A schema, as sequences.
pub enum SchemaView {
    StringEnum(Seq<Seq<char>>),
    TypedContent(Seq<Seq<char>>),
}

pub open spec fn strings_view(v: Seq<String>) -> Seq<Seq<char>> {
    v.map_values(|s: String| s@)
}

impl View for Payload {
    type V = PayloadView;

    open spec fn view(&self) -> PayloadView {
        match self {
            Payload::Unit => PayloadView::Unit,
            Payload::Text(s) => PayloadView::Text(s@),
            Payload::Items(v) => PayloadView::Items(strings_view(v@)),
            Payload::Id(u) => PayloadView::Id(*u),
        }
    }
}

impl View for TextEnumValue {
    type V = ValueView;

    open spec fn view(&self) -> ValueView {
        ValueView { variant: self.variant, payload: self.payload@ }
    }
}

impl View for TextRepr {
    type V = ReprView;

    open spec fn view(&self) -> ReprView {
        match self {
            TextRepr::Unit(s) => ReprView::Unit(s@),
            TextRepr::Content { typ, content } => ReprView::Content(
                typ@,
                match content {
                    Some(c) => Some(c@),
                    None => None,
                },
            ),
        }
    }
}

impl View for EnumSchema {
    type V = SchemaView;

    open spec fn view(&self) -> SchemaView {
        match self {
            EnumSchema::StringEnum(v) => SchemaView::StringEnum(strings_view(v@)),
            EnumSchema::TypedContent(v) => SchemaView::TypedContent(strings_view(v@)),
        }
    }
}

// ---------------------------------------------------------------------------
// Specification
// ---------------------------------------------------------------------------

/// A variant is well formed when each language has at most one type name.
pub open spec fn variant_wf(v: TextEnumVariant) -> bool {
    forall|i: int, j: int|
        0 <= i < j < v.prefixes@.len() ==> (#[trigger] v.prefixes@[i]).0@ != (#[trigger] v.prefixes@[j]).0@
}

/// An enum is well formed when its variants are, no variant has an
/// unsupported shape, and every catch-all variant holds a string.
pub open spec fn codec_wf(c: TextEnumCodec) -> bool {
    forall|i: int| 0 <= i < c.variants@.len() ==> {
        let v = #[trigger] c.variants@[i];
        &&& variant_wf(v)
        &&& v.kind != VariantKind::Unsupported
        &&& v.is_catch_all ==> v.kind == VariantKind::String
    }
}

/// The data fits the shape of the variant.
pub open spec fn payload_fits(kind: VariantKind, p: PayloadView) -> bool {
    match kind {
        VariantKind::Unit => p is Unit,
        VariantKind::String => p is Text,
        VariantKind::VecString => p is Items,
        VariantKind::Uuid => p is Id,
        VariantKind::Unsupported => false,
    }
}

/// `v` is a value of `c`.
pub open spec fn value_wf(c: TextEnumCodec, v: ValueView) -> bool {
    &&& v.variant < c.variants@.len()
    &&& payload_fits(c.variants@[v.variant as int].kind, v.payload)
}

/// The type name registered for `lang`; the last registration wins.
pub open spec fn lookup_prefix(ps: Seq<(String, String)>, lang: Seq<char>) -> Option<Seq<char>>
    decreases ps.len(),
{
    if ps.len() == 0 {
        None
    } else if ps.last().0@ == lang {
        Some(ps.last().1@)
    } else {
        lookup_prefix(ps.drop_last(), lang)
    }
}

/// The type name of a variant in `lang`, falling back to its name.
pub open spec fn variant_type_name(v: TextEnumVariant, lang: Seq<char>) -> Seq<char> {
    match lookup_prefix(v.prefixes@, lang) {
        Some(p) => p,
        None => v.ident@,
    }
}

/// `s` is the variant's name or one of its type names.
pub open spec fn is_name_of(v: TextEnumVariant, s: Seq<char>) -> bool {
    v.ident@ == s || exists|i: int| 0 <= i < v.prefixes@.len() && (#[trigger] v.prefixes@[i]).1@ == s
}

/// The prompt text of a value: the type name in the enum's type language, then
/// the content; a catch-all variant shows its content alone.
pub open spec fn prompt_text(c: TextEnumCodec, v: ValueView) -> Seq<char> {
    let var = c.variants@[v.variant as int];
    let t = variant_type_name(var, c.type_lang@);
    match v.payload {
        PayloadView::Unit => t,
        PayloadView::Text(x) => if var.is_catch_all { x } else { t + ": "@ + x },
        PayloadView::Items(xs) => t + ": "@ + join(xs, ","@),
        PayloadView::Id(u) => t + ": "@ + uuid_text(u),
    }
}

/// The stored form of a value. Unit variants are stored as their name; a
/// catch-all variant without prefix as its content alone; every other
/// variant as its type name in the enum's type language with its content.
pub open spec fn repr_of(c: TextEnumCodec, v: ValueView) -> ReprView {
    let var = c.variants@[v.variant as int];
    let t = variant_type_name(var, c.type_lang@);
    match v.payload {
        PayloadView::Unit => ReprView::Unit(var.ident@),
        PayloadView::Text(x) => if var.is_catch_all && !var.catch_all_include_prefix {
            ReprView::Unit(x)
        } else {
            ReprView::Content(t, Some(x))
        },
        PayloadView::Items(xs) => ReprView::Content(t, Some(join(xs, ","@))),
        PayloadView::Id(u) => ReprView::Content(t, Some(uuid_text(u))),
    }
}

/// The first unit variant at or after `i` named `s`.
pub open spec fn first_unit_named(vs: Seq<TextEnumVariant>, s: Seq<char>, i: int) -> Option<int>
    decreases vs.len() - i,
{
    if i < 0 || i >= vs.len() {
        None
    } else if vs[i].kind == VariantKind::Unit && is_name_of(vs[i], s) {
        Some(i)
    } else {
        first_unit_named(vs, s, i + 1)
    }
}

/// The first catch-all variant at or after `i`.
pub open spec fn first_catch_all(vs: Seq<TextEnumVariant>, i: int) -> Option<int>
    decreases vs.len() - i,
{
    if i < 0 || i >= vs.len() {
        None
    } else if vs[i].is_catch_all {
        Some(i)
    } else {
        first_catch_all(vs, i + 1)
    }
}

/// The variant is read from a `{type, content}` object.
pub open spec fn reads_content(v: TextEnumVariant) -> bool {
    v.kind != VariantKind::Unit && (!v.is_catch_all || v.catch_all_include_prefix)
}

/// The first variant at or after `i` read from an object whose type is `s`.
pub open spec fn first_content_named(vs: Seq<TextEnumVariant>, s: Seq<char>, i: int) -> Option<int>
    decreases vs.len() - i,
{
    if i < 0 || i >= vs.len() {
        None
    } else if reads_content(vs[i]) && is_name_of(vs[i], s) {
        Some(i)
    } else {
        first_content_named(vs, s, i + 1)
    }
}

/// The items of a comma-separated list, each trimmed; blank text is no items.
pub open spec fn parse_items(s: Seq<char>) -> Seq<Seq<char>> {
    if trim(s).len() == 0 {
        Seq::empty()
    } else {
        split_on(s, ',').map_values(|p: Seq<char>| trim(p))
    }
}

/// The value that a stored form stands for.
pub open spec fn value_of_repr(c: TextEnumCodec, r: ReprView) -> Result<ValueView, CodecError> {
    let vs = c.variants@;
    match r {
        ReprView::Unit(s) => match first_unit_named(vs, s, 0) {
            Some(i) => Ok(ValueView { variant: i as usize, payload: PayloadView::Unit }),
            None => match first_catch_all(vs, 0) {
                Some(i) => Ok(ValueView { variant: i as usize, payload: PayloadView::Text(s) }),
                None => Err(CodecError::UnknownUnitVariant),
            },
        },
        ReprView::Content(t, content) => match first_content_named(vs, t, 0) {
            Some(i) => match content {
                None => Err(CodecError::InvalidContent),
                Some(x) => match vs[i].kind {
                    VariantKind::String => Ok(ValueView { variant: i as usize, payload: PayloadView::Text(x) }),
                    VariantKind::VecString => Ok(ValueView { variant: i as usize, payload: PayloadView::Items(parse_items(x)) }),
                    VariantKind::Uuid => match uuid_read(x) {
                        Some(u) => Ok(ValueView { variant: i as usize, payload: PayloadView::Id(u) }),
                        None => Err(CodecError::InvalidContent),
                    },
                    _ => Err(CodecError::InvalidContent),
                },
            },
            None => Err(CodecError::UnknownContentType),
        },
    }
}

/// How `serde_json` writes the character `c` inside a string literal: quote
/// and backslash escaped, the short escapes for backspace, tab, line feed,
/// form feed and carriage return, `\u00XX` (lowercase hex) for the other
/// control characters, and every other character as it is.
pub open spec fn json_escape(c: char) -> Seq<char> {
    if c == '"' {
        seq!['\\', '"']
    } else if c == '\\' {
        seq!['\\', '\\']
    } else if c == '\u{8}' {
        seq!['\\', 'b']
    } else if c == '\t' {
        seq!['\\', 't']
    } else if c == '\n' {
        seq!['\\', 'n']
    } else if c == '\u{c}' {
        seq!['\\', 'f']
    } else if c == '\r' {
        seq!['\\', 'r']
    } else if (c as int) < 0x20 {
        seq!['\\', 'u', '0', '0', hex_digit((c as int / 16) as nat), hex_digit((c as int % 16) as nat)]
    } else {
        seq![c]
    }
}

/// Every character of `s` escaped.
pub open spec fn json_escaped(s: Seq<char>) -> Seq<char>
    decreases s.len(),
{
    if s.len() == 0 {
        Seq::empty()
    } else {
        json_escaped(s.drop_last()) + json_escape(s.last())
    }
}

/// The JSON string literal of `s`.
pub open spec fn json_string_text(s: Seq<char>) -> Seq<char> {
    seq!['"'] + json_escaped(s) + seq!['"']
}

/// The JSON text of a stored form: a string literal, or an object with `type` then `content`.
pub open spec fn repr_json(r: ReprView) -> Seq<char> {
    match r {
        ReprView::Unit(s) => json_string_text(s),
        ReprView::Content(t, Some(x)) => "{\"type\":"@ + json_string_text(t) + ",\"content\":"@ + json_string_text(x) + "}"@,
        ReprView::Content(t, None) => "{\"type\":"@ + json_string_text(t) + ",\"content\":null}"@,
    }
}

/// The JSON text of a value.
pub open spec fn display_text(c: TextEnumCodec, v: ValueView) -> Seq<char> {
    repr_json(repr_of(c, v))
}

/// What a JSON reader makes of a text: not JSON, a string, an object (its
/// fields, each with its value when that is a string), or any other value.
pub enum JsonShape {
    Invalid,
    Str(String),
    Object(Vec<(String, Option<String>)>),
    Other,
}

/// A JSON reading, as sequences.
pub enum JsonShapeView {
    Invalid,
    Str(Seq<char>),
    Object(Seq<(Seq<char>, Option<Seq<char>>)>),
    Other,
}

pub open spec fn opt_view(o: Option<String>) -> Option<Seq<char>> {
    match o {
        Some(s) => Some(s@),
        None => None,
    }
}

impl View for JsonShape {
    type V = JsonShapeView;

    open spec fn view(&self) -> JsonShapeView {
        match self {
            JsonShape::Invalid => JsonShapeView::Invalid,
            JsonShape::Str(s) => JsonShapeView::Str(s@),
            JsonShape::Object(f) => JsonShapeView::Object(fields_view(f@)),
            JsonShape::Other => JsonShapeView::Other,
        }
    }
}

/// What `serde_json` reads from the text `s`.
pub uninterp spec fn json_shape(s: Seq<char>) -> JsonShapeView;

/// The value of the first field named `key`.
pub open spec fn field_of(fields: Seq<(Seq<char>, Option<Seq<char>>)>, key: Seq<char>) -> Option<Option<Seq<char>>>
    decreases fields.len(),
{
    if fields.len() == 0 {
        None
    } else if fields[0].0 == key {
        Some(fields[0].1)
    } else {
        field_of(fields.skip(1), key)
    }
}

/// The value a text stands for: a JSON string or a `{type, content}` object
/// is read as a stored form, and text that is not JSON as a plain string.
pub open spec fn value_of_text(c: TextEnumCodec, s: Seq<char>) -> Result<ValueView, CodecError> {
    match json_shape(s) {
        JsonShapeView::Invalid => value_of_repr(c, ReprView::Unit(s)),
        JsonShapeView::Str(x) => value_of_repr(c, ReprView::Unit(x)),
        JsonShapeView::Object(f) => match (field_of(f, "type"@), field_of(f, "content"@)) {
            (Some(Some(t)), Some(x)) => value_of_repr(c, ReprView::Content(t, x)),
            _ => Err(CodecError::ShapeMismatch),
        },
        JsonShapeView::Other => Err(CodecError::ShapeMismatch),
    }
}

/// `list` with `x` appended unless already present.
pub open spec fn push_unique(list: Seq<Seq<char>>, x: Seq<char>) -> Seq<Seq<char>> {
    if list.contains(x) { list } else { list.push(x) }
}

/// The schema names listed for `lang` after the first `n` variants: each
/// variant's name when `lang` is the schema language, then its type name in
/// `lang` if it has one, without repeats.
pub open spec fn schema_names(c: TextEnumCodec, lang: Seq<char>, n: int) -> Seq<Seq<char>>
    decreases n,
{
    if n <= 0 {
        Seq::empty()
    } else {
        let prev = schema_names(c, lang, n - 1);
        let v = c.variants@[n - 1];
        let with_ident = if lang == c.schema_lang@ { push_unique(prev, v.ident@) } else { prev };
        match lookup_prefix(v.prefixes@, lang) {
            Some(p) => push_unique(with_ident, p),
            None => with_ident,
        }
    }
}

/// Some variant holds data and is not a catch-all.
pub open spec fn has_structured(c: TextEnumCodec) -> bool {
    exists|i: int| 0 <= i < c.variants@.len() && {
        let v = #[trigger] c.variants@[i];
        (v.kind == VariantKind::String || v.kind == VariantKind::VecString || v.kind == VariantKind::Uuid) && !v.is_catch_all
    }
}

/// Some variant is a unit variant.
pub open spec fn has_unit(c: TextEnumCodec) -> bool {
    exists|i: int| 0 <= i < c.variants@.len() && (#[trigger] c.variants@[i]).kind == VariantKind::Unit
}

/// The schema for `lang` (the schema language when absent); a language with
/// no names falls back to the schema language.
pub open spec fn schema_of(c: TextEnumCodec, lang: Option<Seq<char>>) -> SchemaView {
    let l = match lang {
        Some(x) => x,
        None => c.schema_lang@,
    };
    let n = c.variants@.len() as int;
    let names = if schema_names(c, l, n).len() > 0 { schema_names(c, l, n) } else { schema_names(c, c.schema_lang@, n) };
    if has_structured(c) && !has_unit(c) {
        SchemaView::TypedContent(names)
    } else {
        SchemaView::StringEnum(names)
    }
}

/// The default value: the first catch-all variant with empty content, if there
/// is a catch-all variant holding a string.
pub open spec fn default_of(c: TextEnumCodec) -> Option<ValueView> {
    match first_catch_all(c.variants@, 0) {
        Some(i) => if c.variants@[i].kind == VariantKind::String {
            Some(ValueView { variant: i as usize, payload: PayloadView::Text(Seq::empty()) })
        } else {
            None
        },
        None => None,
    }
}

// ---------------------------------------------------------------------------
// Outside calls
// ---------------------------------------------------------------------------

/// `s` as a JSON string literal, by `serde_json::to_string` on a `str`, which
/// cannot fail for a string.
#[verifier::external_body]
fn json_quote(s: &str) -> (r: String)
    ensures
        r@ == json_string_text(s@),
{
    match serde_json::to_string(s) {
        Ok(t) => t,
        Err(_) => String::new(),
    }
}

/// A JSON reading gives back the stored form whose JSON text was read: the
/// string of a string literal, and the type and content of a `{type, content}` object.
pub open spec fn reads_back(shape: JsonShapeView, r: ReprView) -> bool {
    match r {
        ReprView::Unit(t) => shape == JsonShapeView::Str(t),
        ReprView::Content(t, x) => shape matches JsonShapeView::Object(f)
            && field_of(f, "type"@) == Some(Some(t)) && field_of(f, "content"@) == Some(x),
    }
}

/// What `serde_json::from_str::<serde_json::Value>` reads from `s`: an error,
/// a string, an object (each field with its value when that is a string), or
/// another value. Reading the JSON text that `serde_json` writes for a string
/// gives that string, and for an object of string (or null) fields gives those fields.
#[verifier::external_body]
fn read_json(s: &str) -> (r: JsonShape)
    ensures
        r@ == json_shape(s@),
        forall|rv: ReprView| #[trigger] repr_json(rv) == s@ ==> reads_back(r@, rv),
{
    match serde_json::from_str::<serde_json::Value>(s) {
        Err(_) => JsonShape::Invalid,
        Ok(serde_json::Value::String(x)) => JsonShape::Str(x),
        Ok(serde_json::Value::Object(m)) => JsonShape::Object(
            m.into_iter().map(|(k, v)| (k, match v { serde_json::Value::String(x) => Some(x), _ => None })).collect(),
        ),
        Ok(_) => JsonShape::Other,
    }
}

// ---------------------------------------------------------------------------
// Implementation
// ---------------------------------------------------------------------------

/// A result, as sequences.
pub open spec fn result_view(r: Result<TextEnumValue, CodecError>) -> Result<ValueView, CodecError> {
    match r {
        Ok(v) => Ok(v@),
        Err(e) => Err(e),
    }
}

/// An optional language, as a sequence.
pub open spec fn lang_view(l: Option<&str>) -> Option<Seq<char>> {
    match l {
        Some(x) => Some(x@),
        None => None,
    }
}

/// The type name registered for `lang`, the last registration winning.
fn find_prefix(ps: &Vec<(String, String)>, lang: &str) -> (r: Option<String>)
    ensures
        opt_view(r) == lookup_prefix(ps@, lang@),
{
    let mut i = ps.len();
    assert(ps@.take(i as int) =~= ps@);
    while i > 0
        invariant
            i <= ps@.len(),
            lookup_prefix(ps@, lang@) == lookup_prefix(ps@.take(i as int), lang@),
        decreases i,
    {
        assert(ps@.take(i as int).drop_last() =~= ps@.take(i - 1));
        if str_eq(ps[i - 1].0.as_str(), lang) {
            return Some(ps[i - 1].1.clone());
        }
        i = i - 1;
    }
    None
}

/// The type name of `v` in `lang`, falling back to its name.
fn type_name_of(v: &TextEnumVariant, lang: &str) -> (r: String)
    ensures
        r@ == variant_type_name(*v, lang@),
{
    match find_prefix(&v.prefixes, lang) {
        Some(p) => p,
        None => v.ident.clone(),
    }
}

/// Whether `s` is the name or one of the type names of `v`.
fn is_name(v: &TextEnumVariant, s: &str) -> (r: bool)
    ensures
        r == is_name_of(*v, s@),
{
    if str_eq(v.ident.as_str(), s) {
        return true;
    }
    let mut i: usize = 0;
    while i < v.prefixes.len()
        invariant
            i <= v.prefixes@.len(),
            v.ident@ != s@,
            forall|j: int| 0 <= j < i ==> (#[trigger] v.prefixes@[j]).1@ != s@,
        decreases v.prefixes@.len() - i,
    {
        if str_eq(v.prefixes[i].1.as_str(), s) {
            assert(v.prefixes@[i as int].1@ == s@);
            return true;
        }
        i = i + 1;
    }
    false
}

/// The items of a comma-separated list, each trimmed; blank text is no items.
pub(crate) fn item_list(s: &str) -> (r: Vec<String>)
    ensures
        strings_view(r@) == parse_items(s@),
{
    let cs = chars_of(s);
    let (a, b) = trim_bounds(cs.as_slice());
    if a == b {
        assert(trim(s@).len() == 0);
        let empty: Vec<String> = Vec::new();
        assert(strings_view(empty@) =~= Seq::<Seq<char>>::empty());
        return empty;
    }
    let pieces = split_chars(cs.as_slice(), ',');
    let ghost parts = split_on(s@, ',');
    let mut out: Vec<String> = Vec::new();
    let mut i: usize = 0;
    while i < pieces.len()
        invariant
            i <= pieces@.len(),
            pieces@.len() == parts.len(),
            forall|k: int| 0 <= k < pieces@.len() ==> #[trigger] pieces@[k]@ == parts[k],
            out@.len() == i,
            forall|k: int| 0 <= k < i ==> #[trigger] out@[k]@ == trim(parts[k]),
        decreases pieces@.len() - i,
    {
        let (x, y) = trim_bounds(pieces[i].as_slice());
        out.push(string_from(pieces[i].as_slice(), x, y));
        i = i + 1;
    }
    assert(strings_view(out@) =~= parts.map_values(|p: Seq<char>| trim(p)));
    out
}

/// Whether `v` holds a string equal to `s`.
fn contains_string(v: &Vec<String>, s: &str) -> (r: bool)
    ensures
        r == strings_view(v@).contains(s@),
{
    let mut i: usize = 0;
    while i < v.len()
        invariant
            i <= v@.len(),
            forall|j: int| 0 <= j < i ==> (#[trigger] v@[j])@ != s@,
        decreases v@.len() - i,
    {
        if str_eq(v[i].as_str(), s) {
            assert(strings_view(v@)[i as int] == s@);
            return true;
        }
        i = i + 1;
    }
    assert forall|j: int| 0 <= j < strings_view(v@).len() implies strings_view(v@)[j] != s@ by {
        assert(strings_view(v@)[j] == v@[j]@);
    }
    false
}

/// Appends `s` to `v` unless it is already there.
fn push_unique_string(v: &mut Vec<String>, s: &str)
    ensures
        strings_view(final(v)@) == push_unique(strings_view(old(v)@), s@),
{
    if !contains_string(v, s) {
        v.push(owned(s));
        assert(strings_view(v@) =~= strings_view(old(v)@).push(s@));
    }
}

/// The first field named `key` in a JSON object's fields.
fn field_value(fields: &Vec<(String, Option<String>)>, key: &str) -> (r: Option<Option<String>>)
    ensures
        match r {
            Some(x) => field_of(fields_view(fields@), key@) == Some(opt_view(x)),
            None => field_of(fields_view(fields@), key@) is None,
        },
{
    let ghost fv = fields_view(fields@);
    let mut i: usize = 0;
    assert(fv.skip(0) =~= fv);
    while i < fields.len()
        invariant
            i <= fields@.len(),
            fv == fields_view(fields@),
            field_of(fv, key@) == field_of(fv.skip(i as int), key@),
        decreases fields@.len() - i,
    {
        assert(fv.skip(i as int).skip(1) =~= fv.skip(i + 1));
        assert(fv.skip(i as int)[0] == fv[i as int]);
        if str_eq(fields[i].0.as_str(), key) {
            return Some(fields[i].1.clone());
        }
        i = i + 1;
    }
    None
}

impl TextEnumCodec {
    /// The language of type names in prompt text.
    pub fn type_lang(&self) -> (r: &str)
        ensures
            r@ == self.type_lang@,
    {
        self.type_lang.as_str()
    }

    /// The default language of the schema.
    pub fn schema_lang(&self) -> (r: &str)
        ensures
            r@ == self.schema_lang@,
    {
        self.schema_lang.as_str()
    }

    /// The prompt text of a value. Type names are taken in the enum's type
    /// language whatever `lang` says.
    pub fn to_prompt_text(&self, value: &TextEnumValue, lang: &str) -> (r: String)
        requires
            value_wf(*self, value@),
        ensures
            r@ == prompt_text(*self, value@),
    {
        let var = &self.variants[value.variant];
        let t = type_name_of(var, self.type_lang.as_str());
        match &value.payload {
            Payload::Unit => t,
            Payload::Text(x) => {
                if var.is_catch_all {
                    x.clone()
                } else {
                    let head = concat(t.as_str(), ": ");
                    concat(head.as_str(), x.as_str())
                }
            },
            Payload::Items(xs) => {
                let head = concat(t.as_str(), ": ");
                let body = join_strings(xs, ",");
                assert(xs@.map_values(|p: String| p@) =~= strings_view(xs@));
                concat(head.as_str(), body.as_str())
            },
            Payload::Id(u) => {
                let head = concat(t.as_str(), ": ");
                let id = uuid_to_string(*u);
                concat(head.as_str(), id.as_str())
            },
        }
    }

    /// The stored form of a value.
    pub fn to_repr(&self, value: &TextEnumValue) -> (r: TextRepr)
        requires
            value_wf(*self, value@),
        ensures
            r@ == repr_of(*self, value@),
    {
        let var = &self.variants[value.variant];
        match &value.payload {
            Payload::Unit => TextRepr::Unit(var.ident.clone()),
            Payload::Text(x) => {
                if var.is_catch_all && !var.catch_all_include_prefix {
                    TextRepr::Unit(x.clone())
                } else {
                    TextRepr::Content { typ: type_name_of(var, self.type_lang.as_str()), content: Some(x.clone()) }
                }
            },
            Payload::Items(xs) => {
                let body = join_strings(xs, ",");
                assert(xs@.map_values(|p: String| p@) =~= strings_view(xs@));
                TextRepr::Content { typ: type_name_of(var, self.type_lang.as_str()), content: Some(body) }
            },
            Payload::Id(u) => {
                TextRepr::Content { typ: type_name_of(var, self.type_lang.as_str()), content: Some(uuid_to_string(*u)) }
            },
        }
    }

    /// The first unit variant named `s`.
    fn unit_named(&self, s: &str) -> (r: Option<usize>)
        ensures
            match r {
                Some(k) => first_unit_named(self.variants@, s@, 0) == Some(k as int),
                None => first_unit_named(self.variants@, s@, 0) is None,
            },
    {
        let mut i: usize = 0;
        while i < self.variants.len()
            invariant
                i <= self.variants@.len(),
                first_unit_named(self.variants@, s@, 0) == first_unit_named(self.variants@, s@, i as int),
            decreases self.variants@.len() - i,
        {
            if self.variants[i].kind == VariantKind::Unit && is_name(&self.variants[i], s) {
                return Some(i);
            }
            i = i + 1;
        }
        None
    }

    /// The first catch-all variant.
    fn catch_all_index(&self) -> (r: Option<usize>)
        ensures
            match r {
                Some(k) => first_catch_all(self.variants@, 0) == Some(k as int),
                None => first_catch_all(self.variants@, 0) is None,
            },
    {
        let mut i: usize = 0;
        while i < self.variants.len()
            invariant
                i <= self.variants@.len(),
                first_catch_all(self.variants@, 0) == first_catch_all(self.variants@, i as int),
            decreases self.variants@.len() - i,
        {
            if self.variants[i].is_catch_all {
                return Some(i);
            }
            i = i + 1;
        }
        None
    }

    /// The first variant read from an object whose type is `s`.
    fn content_named(&self, s: &str) -> (r: Option<usize>)
        ensures
            match r {
                Some(k) => first_content_named(self.variants@, s@, 0) == Some(k as int),
                None => first_content_named(self.variants@, s@, 0) is None,
            },
    {
        let mut i: usize = 0;
        while i < self.variants.len()
            invariant
                i <= self.variants@.len(),
                first_content_named(self.variants@, s@, 0) == first_content_named(self.variants@, s@, i as int),
            decreases self.variants@.len() - i,
        {
            let v = &self.variants[i];
            if v.kind != VariantKind::Unit && (!v.is_catch_all || v.catch_all_include_prefix) && is_name(v, s) {
                return Some(i);
            }
            i = i + 1;
        }
        None
    }

    /// The value that a stored form stands for.
    pub fn from_repr(&self, repr: &TextRepr) -> (r: Result<TextEnumValue, CodecError>)
        ensures
            result_view(r) == value_of_repr(*self, repr@),
    {
        match repr {
            TextRepr::Unit(s) => match self.unit_named(s.as_str()) {
                Some(i) => Ok(TextEnumValue { variant: i, payload: Payload::Unit }),
                None => match self.catch_all_index() {
                    Some(i) => Ok(TextEnumValue { variant: i, payload: Payload::Text(s.clone()) }),
                    None => Err(CodecError::UnknownUnitVariant),
                },
            },
            TextRepr::Content { typ, content } => match self.content_named(typ.as_str()) {
                Some(i) => match content {
                    None => Err(CodecError::InvalidContent),
                    Some(x) => {
                        proof {
                            lemma_first_content_named_bound(self.variants@, typ@, 0);
                        }
                        match self.variants[i].kind {
                            VariantKind::String => Ok(TextEnumValue { variant: i, payload: Payload::Text(x.clone()) }),
                            VariantKind::VecString => Ok(TextEnumValue { variant: i, payload: Payload::Items(item_list(x.as_str())) }),
                            VariantKind::Uuid => match uuid_parse(x.as_str()) {
                                Some(u) => Ok(TextEnumValue { variant: i, payload: Payload::Id(u) }),
                                None => Err(CodecError::InvalidContent),
                            },
                            _ => Err(CodecError::InvalidContent),
                        }
                    },
                },
                None => Err(CodecError::UnknownContentType),
            },
        }
    }

    /// The JSON text of a value.
    pub fn display(&self, value: &TextEnumValue) -> (r: String)
        requires
            value_wf(*self, value@),
        ensures
            r@ == display_text(*self, value@),
    {
        match self.to_repr(value) {
            TextRepr::Unit(s) => json_quote(s.as_str()),
            TextRepr::Content { typ, content } => {
                let head = concat("{\"type\":", json_quote(typ.as_str()).as_str());
                match content {
                    Some(x) => {
                        let mid = concat(head.as_str(), ",\"content\":");
                        let body = concat(mid.as_str(), json_quote(x.as_str()).as_str());
                        concat(body.as_str(), "}")
                    },
                    None => concat(head.as_str(), ",\"content\":null}"),
                }
            },
        }
    }

    /// The value a text stands for: JSON is read as a stored form, and text
    /// that is not JSON as a plain string.
    pub fn parse(&self, s: &str) -> (r: Result<TextEnumValue, CodecError>)
        ensures
            result_view(r) == value_of_text(*self, s@),
            forall|rv: ReprView| #[trigger] repr_json(rv) == s@ ==> result_view(r) == value_of_repr(*self, rv),
    {
        let shape = read_json(s);
        proof {
            assert forall|rv: ReprView| #[trigger] repr_json(rv) == s@ implies
                value_of_text(*self, s@) == value_of_repr(*self, rv) by {
                assert(reads_back(shape@, rv));
            }
        }
        match shape {
            JsonShape::Invalid => self.from_repr(&TextRepr::Unit(owned(s))),
            JsonShape::Str(x) => self.from_repr(&TextRepr::Unit(x)),
            JsonShape::Object(fields) => {
                let t = field_value(&fields, "type");
                let c = field_value(&fields, "content");
                match (t, c) {
                    (Some(Some(t)), Some(x)) => self.from_repr(&TextRepr::Content { typ: t, content: x }),
                    _ => Err(CodecError::ShapeMismatch),
                }
            },
            JsonShape::Other => Err(CodecError::ShapeMismatch),
        }
    }

    /// The schema names for `lang`.
    fn names_for(&self, lang: &str) -> (r: Vec<String>)
        ensures
            strings_view(r@) == schema_names(*self, lang@, self.variants@.len() as int),
    {
        let mut out: Vec<String> = Vec::new();
        let is_schema_lang = str_eq(lang, self.schema_lang.as_str());
        let mut i: usize = 0;
        assert(strings_view(out@) =~= schema_names(*self, lang@, 0));
        while i < self.variants.len()
            invariant
                i <= self.variants@.len(),
                is_schema_lang == (lang@ == self.schema_lang@),
                strings_view(out@) == schema_names(*self, lang@, i as int),
            decreases self.variants@.len() - i,
        {
            let v = &self.variants[i];
            if is_schema_lang {
                push_unique_string(&mut out, v.ident.as_str());
            }
            match find_prefix(&v.prefixes, lang) {
                Some(p) => push_unique_string(&mut out, p.as_str()),
                None => {},
            }
            i = i + 1;
        }
        out
    }

    /// Whether some variant holds data and is not a catch-all.
    fn any_structured(&self) -> (r: bool)
        ensures
            r == has_structured(*self),
    {
        let mut i: usize = 0;
        while i < self.variants.len()
            invariant
                i <= self.variants@.len(),
                forall|j: int| 0 <= j < i ==> {
                    let v = #[trigger] self.variants@[j];
                    !((v.kind == VariantKind::String || v.kind == VariantKind::VecString || v.kind == VariantKind::Uuid) && !v.is_catch_all)
                },
            decreases self.variants@.len() - i,
        {
            let v = &self.variants[i];
            if (v.kind == VariantKind::String || v.kind == VariantKind::VecString || v.kind == VariantKind::Uuid) && !v.is_catch_all {
                assert(self.variants@[i as int] == *v);
                return true;
            }
            i = i + 1;
        }
        false
    }

    /// Whether some variant is a unit variant.
    fn any_unit(&self) -> (r: bool)
        ensures
            r == has_unit(*self),
    {
        let mut i: usize = 0;
        while i < self.variants.len()
            invariant
                i <= self.variants@.len(),
                forall|j: int| 0 <= j < i ==> (#[trigger] self.variants@[j]).kind != VariantKind::Unit,
            decreases self.variants@.len() - i,
        {
            if self.variants[i].kind == VariantKind::Unit {
                return true;
            }
            i = i + 1;
        }
        false
    }

    /// The JSON schema of the type names for `lang`, or for the schema
    /// language when `lang` is absent or has no names.
    pub fn schema(&self, lang: Option<&str>) -> (r: EnumSchema)
        ensures
            r@ == schema_of(*self, lang_view(lang)),
    {
        let l = match lang {
            Some(x) => x,
            None => self.schema_lang.as_str(),
        };
        let mut names = self.names_for(l);
        if names.len() == 0 {
            names = self.names_for(self.schema_lang.as_str());
        }
        if self.any_structured() && !self.any_unit() {
            EnumSchema::TypedContent(names)
        } else {
            EnumSchema::StringEnum(names)
        }
    }

    /// The default value: the first catch-all variant with empty content,
    /// when that variant holds a string.
    pub fn default_value(&self) -> (r: Option<TextEnumValue>)
        ensures
            match r {
                Some(v) => default_of(*self) == Some(v@),
                None => default_of(*self) is None,
            },
    {
        match self.catch_all_index() {
            Some(i) => {
                proof {
                    lemma_first_catch_all_bound(self.variants@, 0);
                }
                if self.variants[i].kind == VariantKind::String {
                    Some(TextEnumValue { variant: i, payload: Payload::Text(String::new()) })
                } else {
                    None
                }
            },
            None => None,
        }
    }
}

/// The fields of a JSON object, as sequences.
pub open spec fn fields_view(f: Seq<(String, Option<String>)>) -> Seq<(Seq<char>, Option<Seq<char>>)> {
    f.map_values(|p: (String, Option<String>)| (p.0@, opt_view(p.1)))
}

proof fn lemma_first_content_named_bound(vs: Seq<TextEnumVariant>, s: Seq<char>, i: int)
    ensures
        first_content_named(vs, s, i) matches Some(k) ==> i <= k < vs.len() && reads_content(vs[k]) && is_name_of(vs[k], s),
    decreases vs.len() - i,
{
    if 0 <= i < vs.len() {
        lemma_first_content_named_bound(vs, s, i + 1);
    }
}

proof fn lemma_first_catch_all_bound(vs: Seq<TextEnumVariant>, i: int)
    ensures
        first_catch_all(vs, i) matches Some(k) ==> i <= k < vs.len() && vs[k].is_catch_all,
    decreases vs.len() - i,
{
    if 0 <= i < vs.len() {
        lemma_first_catch_all_bound(vs, i + 1);
    }
}

// ---------------------------------------------------------------------------
// Laws
// ---------------------------------------------------------------------------

/// No item holds a comma, each is trimmed, and the list is not a single
/// empty item: such a list is read back from its comma-joined text.
pub open spec fn items_read_back(xs: Seq<Seq<char>>) -> bool {
    &&& forall|i: int| 0 <= i < xs.len() ==> !has_char(#[trigger] xs[i], ',') && trim(xs[i]) == xs[i]
    &&& !(xs.len() == 1 && xs[0].len() == 0)
}

/// No variant before the `k`-th is read from an object whose type is `t`.
pub open spec fn first_to_claim_content(vs: Seq<TextEnumVariant>, k: int, t: Seq<char>) -> bool {
    forall|j: int| 0 <= j < k ==> !(reads_content(#[trigger] vs[j]) && is_name_of(vs[j], t))
}

/// The stored form of `v` leads back to `v`'s variant and data: the name it is
/// stored under is claimed by no variant that is tried before it, and its
/// content is read back as it was written.
pub open spec fn stored_form_unambiguous(c: TextEnumCodec, v: ValueView) -> bool {
    let vs = c.variants@;
    let k = v.variant as int;
    let var = vs[k];
    let t = variant_type_name(var, c.type_lang@);
    match v.payload {
        PayloadView::Unit => forall|j: int| 0 <= j < k ==> !((#[trigger] vs[j]).kind == VariantKind::Unit && is_name_of(vs[j], var.ident@)),
        PayloadView::Text(x) => if var.is_catch_all && !var.catch_all_include_prefix {
            &&& forall|j: int| 0 <= j < vs.len() ==> !((#[trigger] vs[j]).kind == VariantKind::Unit && is_name_of(vs[j], x))
            &&& forall|j: int| 0 <= j < k ==> !(#[trigger] vs[j]).is_catch_all
        } else {
            first_to_claim_content(vs, k, t)
        },
        PayloadView::Items(xs) => first_to_claim_content(vs, k, t) && items_read_back(xs),
        PayloadView::Id(u) => first_to_claim_content(vs, k, t),
    }
}

proof fn lemma_lookup_prefix_is_name(ps: Seq<(String, String)>, lang: Seq<char>)
    ensures
        lookup_prefix(ps, lang) matches Some(p) ==> exists|i: int| 0 <= i < ps.len() && (#[trigger] ps[i]).1@ == p,
    decreases ps.len(),
{
    if ps.len() > 0 {
        lemma_lookup_prefix_is_name(ps.drop_last(), lang);
        if ps.last().0@ != lang {
            if let Some(p) = lookup_prefix(ps.drop_last(), lang) {
                let i = choose|i: int| 0 <= i < ps.drop_last().len() && (#[trigger] ps.drop_last()[i]).1@ == p;
                assert(ps[i] == ps.drop_last()[i]);
            }
        } else {
            assert(ps[ps.len() - 1] == ps.last());
        }
    }
}

proof fn lemma_type_name_is_name(v: TextEnumVariant, lang: Seq<char>)
    ensures
        is_name_of(v, variant_type_name(v, lang)),
{
    lemma_lookup_prefix_is_name(v.prefixes@, lang);
}

proof fn lemma_first_unit_at(vs: Seq<TextEnumVariant>, s: Seq<char>, i: int, k: int)
    requires
        0 <= i <= k < vs.len(),
        vs[k].kind == VariantKind::Unit && is_name_of(vs[k], s),
        forall|j: int| i <= j < k ==> !((#[trigger] vs[j]).kind == VariantKind::Unit && is_name_of(vs[j], s)),
    ensures
        first_unit_named(vs, s, i) == Some(k),
    decreases k - i,
{
    if i < k {
        lemma_first_unit_at(vs, s, i + 1, k);
    }
}

proof fn lemma_no_unit(vs: Seq<TextEnumVariant>, s: Seq<char>, i: int)
    requires
        0 <= i,
        forall|j: int| i <= j < vs.len() ==> !((#[trigger] vs[j]).kind == VariantKind::Unit && is_name_of(vs[j], s)),
    ensures
        first_unit_named(vs, s, i) is None,
    decreases vs.len() - i,
{
    if i < vs.len() {
        lemma_no_unit(vs, s, i + 1);
    }
}

proof fn lemma_first_catch_all_at(vs: Seq<TextEnumVariant>, i: int, k: int)
    requires
        0 <= i <= k < vs.len(),
        vs[k].is_catch_all,
        forall|j: int| i <= j < k ==> !(#[trigger] vs[j]).is_catch_all,
    ensures
        first_catch_all(vs, i) == Some(k),
    decreases k - i,
{
    if i < k {
        lemma_first_catch_all_at(vs, i + 1, k);
    }
}

proof fn lemma_first_content_at(vs: Seq<TextEnumVariant>, s: Seq<char>, i: int, k: int)
    requires
        0 <= i <= k < vs.len(),
        reads_content(vs[k]) && is_name_of(vs[k], s),
        forall|j: int| i <= j < k ==> !(reads_content(#[trigger] vs[j]) && is_name_of(vs[j], s)),
    ensures
        first_content_named(vs, s, i) == Some(k),
    decreases k - i,
{
    if i < k {
        lemma_first_content_at(vs, s, i + 1, k);
    }
}

/// A list that meets `items_read_back` is read back from its joined text.
pub(crate) proof fn lemma_items_read_back(xs: Seq<Seq<char>>)
    requires
        items_read_back(xs),
    ensures
        parse_items(join(xs, ","@)) == xs,
{
    reveal_strlit(",");
    assert(","@ =~= seq![',']);
    let s = join(xs, seq![',']);
    if xs.len() == 0 {
        assert(trim(s).len() == 0);
    } else {
        if xs.len() == 1 {
            assert(s == xs[0]);
            assert(trim(s).len() != 0);
        } else {
            let head = join(xs.drop_last(), seq![',']);
            assert(s == head + seq![','] + xs.last());
            assert(s[head.len() as int] == ',');
            if trim(s).len() == 0 {
                lemma_trim_empty_all_space(s);
                assert(is_space(s[head.len() as int]));
            }
        }
        lemma_split_join(xs, ',');
        assert(split_on(s, ',').map_values(|p: Seq<char>| trim(p)) =~= xs);
    }
}

/// What is stored for a value reads back as that value, when its stored form
/// is unambiguous.
pub proof fn law_repr_round_trip(c: TextEnumCodec, v: ValueView)
    requires
        codec_wf(c),
        value_wf(c, v),
        stored_form_unambiguous(c, v),
    ensures
        value_of_repr(c, repr_of(c, v)) == Ok::<ValueView, CodecError>(v),
{
    let vs = c.variants@;
    let k = v.variant as int;
    let var = vs[k];
    let t = variant_type_name(var, c.type_lang@);
    lemma_type_name_is_name(var, c.type_lang@);
    match v.payload {
        PayloadView::Unit => {
            assert(is_name_of(var, var.ident@));
            lemma_first_unit_at(vs, var.ident@, 0, k);
        },
        PayloadView::Text(x) => {
            if var.is_catch_all && !var.catch_all_include_prefix {
                lemma_no_unit(vs, x, 0);
                lemma_first_catch_all_at(vs, 0, k);
            } else {
                lemma_first_content_at(vs, t, 0, k);
            }
        },
        PayloadView::Items(xs) => {
            lemma_first_content_at(vs, t, 0, k);
            lemma_items_read_back(xs);
        },
        PayloadView::Id(u) => {
            lemma_first_content_at(vs, t, 0, k);
            law_uuid_text_read_back(u);
        },
    }
}

/// Reading back the JSON text of a value gives the value, when its stored
/// form is unambiguous: `r` is any result that reading a text gives back for
/// the stored form that text is written from, as `parse` does.
pub proof fn law_display_parse_round_trip(c: TextEnumCodec, v: ValueView, r: Result<ValueView, CodecError>)
    requires
        codec_wf(c),
        value_wf(c, v),
        stored_form_unambiguous(c, v),
        forall|rv: ReprView| #[trigger] repr_json(rv) == display_text(c, v) ==> r == value_of_repr(c, rv),
    ensures
        r == Ok::<ValueView, CodecError>(v),
{
    law_repr_round_trip(c, v);
    assert(repr_json(repr_of(c, v)) == display_text(c, v));
}

/// The message type: `Action(String)` and `Chat(String)`, named `动作` and
/// `对话` in Chinese, the unit variant `Scenario`, and the catch-all
/// `Text(String)` stored without a type name; type names in Chinese.
pub open spec fn is_message_type(c: TextEnumCodec) -> bool {
    let vs = c.variants@;
    &&& c.type_lang@ == "zh"@
    &&& vs.len() == 4
    &&& vs[0].ident@ == "Action"@ && vs[0].kind == VariantKind::String && !vs[0].is_catch_all
    &&& pairs_view(vs[0].prefixes@) == seq![("zh"@, "动作"@)]
    &&& vs[1].ident@ == "Chat"@ && vs[1].kind == VariantKind::String && !vs[1].is_catch_all
    &&& pairs_view(vs[1].prefixes@) == seq![("zh"@, "对话"@)]
    &&& vs[2].ident@ == "Scenario"@ && vs[2].kind == VariantKind::Unit && !vs[2].is_catch_all
    &&& vs[2].prefixes@.len() == 0
    &&& vs[3].ident@ == "Text"@ && vs[3].kind == VariantKind::String
    &&& vs[3].is_catch_all && !vs[3].catch_all_include_prefix
    &&& vs[3].prefixes@.len() == 0
}

proof fn lemma_message_type_unambiguous(c: TextEnumCodec, v: ValueView)
    requires
        is_message_type(c),
        value_wf(c, v),
        !(v.variant == 3 && v.payload == PayloadView::Text("Scenario"@)),
    ensures
        codec_wf(c),
        stored_form_unambiguous(c, v),
{
    let vs = c.variants@;
    reveal_strlit("Action");
    reveal_strlit("Chat");
    reveal_strlit("Scenario");
    reveal_strlit("Text");
    reveal_strlit("zh");
    reveal_strlit("动作");
    reveal_strlit("对话");
    assert(pairs_view(vs[0].prefixes@).len() == 1);
    assert(pairs_view(vs[1].prefixes@).len() == 1);
    assert(vs[0].prefixes@.len() == 1 && vs[1].prefixes@.len() == 1);
    assert(pairs_view(vs[0].prefixes@)[0] == (vs[0].prefixes@[0].0@, vs[0].prefixes@[0].1@));
    assert(pairs_view(vs[1].prefixes@)[0] == (vs[1].prefixes@[0].0@, vs[1].prefixes@[0].1@));
    assert(vs[0].prefixes@[0].1@ == "动作"@);
    assert(vs[1].prefixes@[0].0@ == "zh"@ && vs[1].prefixes@[0].1@ == "对话"@);
    assert forall|i: int| 0 <= i < vs.len() implies {
        let w = #[trigger] vs[i];
        &&& variant_wf(w)
        &&& w.kind != VariantKind::Unsupported
        &&& w.is_catch_all ==> w.kind == VariantKind::String
    } by {}
    let k = v.variant as int;
    if k == 1 {
        let t = variant_type_name(vs[1], c.type_lang@);
        assert(vs[1].prefixes@.drop_last().len() == 0);
        assert(t == "对话"@);
        assert("Action"@ != "对话"@);
        assert("动作"@[0] != "对话"@[0]);
        assert(!is_name_of(vs[0], t)) by {
            if exists|i: int| 0 <= i < vs[0].prefixes@.len() && (#[trigger] vs[0].prefixes@[i]).1@ == t {
                let i = choose|i: int| 0 <= i < vs[0].prefixes@.len() && (#[trigger] vs[0].prefixes@[i]).1@ == t;
                assert(i == 0);
            }
        }
    }
    if k == 3 {
        if let PayloadView::Text(x) = v.payload {
            assert(!is_name_of(vs[2], x));
        }
    }
}

/// The message type's stored form of every value reads back as the value,
/// but for the catch-all holding the unit variant's name, `Scenario`, which
/// is read back as that unit variant.
pub proof fn law_message_type_round_trip(c: TextEnumCodec, v: ValueView)
    requires
        is_message_type(c),
        value_wf(c, v),
        !(v.variant == 3 && v.payload == PayloadView::Text("Scenario"@)),
    ensures
        value_of_repr(c, repr_of(c, v)) == Ok::<ValueView, CodecError>(v),
{
    lemma_message_type_unambiguous(c, v);
    law_repr_round_trip(c, v);
}

/// Reading back the JSON text of a message-type value gives the value, but
/// for the catch-all holding `Scenario`: `r` is what reading that text gives
/// back, as `parse` does.
pub proof fn law_message_type_display_parse(c: TextEnumCodec, v: ValueView, r: Result<ValueView, CodecError>)
    requires
        is_message_type(c),
        value_wf(c, v),
        !(v.variant == 3 && v.payload == PayloadView::Text("Scenario"@)),
        forall|rv: ReprView| #[trigger] repr_json(rv) == display_text(c, v) ==> r == value_of_repr(c, rv),
    ensures
        r == Ok::<ValueView, CodecError>(v),
{
    lemma_message_type_unambiguous(c, v);
    law_display_parse_round_trip(c, v, r);
}

} // verus!
