//! Prompt codecs: enums rendered as `Type(content)` or `Type: content` with a
//! type name per language, stored in one language, and read back from the
//! storage language first, then from any language, then into a catch-all.
use vstd::prelude::*;
use crate::assoc::pairs_view;
use crate::text::{chars_of, is_space, lead_spaces, lemma_lead_spaces_bound, lemma_trail_spaces_bound, trail_spaces, concat, ends_with, has_prefix, has_suffix, join, join_strings, owned, starts_with, str_eq, string_from, trim, trim_str};
use crate::text_enum::{item_list, items_read_back, lemma_items_read_back, parse_items, strings_view, Payload, PayloadView, TextEnumValue, ValueView, VariantKind};

verus! {

broadcast use vstd::string::group_string_axioms;

/// How a variant with content is written.
#[derive(Debug, Clone, Copy, PartialEq, Eq, Structural)]
pub enum CodecFormat {
    /// `Type(content)`, and `Type([a,b])` for a list.
    Paren,
    /// `Type: content` (with the configured colon), and `Type: [a,b]` for a list.
    Colon,
}

/// A variant: its name, its shape (`Unit`, `String` or `VecString`), whether it
/// takes any text that no other variant claims, and its type names as
/// `(lang, name)` pairs in declaration order.
pub struct PromptVariant {
    pub ident: String,
    pub kind: VariantKind,
    pub is_catch_all: bool,
    pub prefixes: Vec<(String, String)>,
}

/// A prompt codec: the enum's name, its format, the language its values are
/// stored in, the colon used by the colon format, and its variants.
pub struct PromptCodec {
    pub ident: String,
    pub format: CodecFormat,
    pub storage_lang: String,
    pub colon_char: String,
    pub variants: Vec<PromptVariant>,
}

/// Why a text is not a value of the enum (there is no catch-all variant).
#[derive(Debug, Clone, Copy, PartialEq, Eq, Structural)]
pub enum PromptParseError {
    /// The text matches no variant.
    InvalidString,
    /// The type names no variant.
    InvalidTypeOrContent,
}

// ---------------------------------------------------------------------------
// Specification
// ---------------------------------------------------------------------------

/// The first type name registered for `lang` at or after `j`.
pub open spec fn first_prefix(ps: Seq<(String, String)>, lang: Seq<char>, j: int) -> Option<Seq<char>>
    decreases ps.len() - j,
{
    if j < 0 || j >= ps.len() {
        None
    } else if ps[j].0@ == lang {
        Some(ps[j].1@)
    } else {
        first_prefix(ps, lang, j + 1)
    }
}

/// The type name of a variant in `lang`: the first one registered, else its name.
pub open spec fn prefix_in(v: PromptVariant, lang: Seq<char>) -> Seq<char> {
    match first_prefix(v.prefixes@, lang, 0) {
        Some(p) => p,
        None => v.ident@,
    }
}

/// The data fits the variant's shape.
pub open spec fn fits(kind: VariantKind, p: PayloadView) -> bool {
    match kind {
        VariantKind::Unit => p is Unit,
        VariantKind::String => p is Text,
        VariantKind::VecString => p is Items,
        _ => false,
    }
}

/// `v` is a value of `c`.
pub open spec fn prompt_value_wf(c: PromptCodec, v: ValueView) -> bool {
    v.variant < c.variants@.len() && fits(c.variants@[v.variant as int].kind, v.payload)
}

/// What opens a variant with content: `p(` or `p: `.
pub open spec fn opening(c: PromptCodec, p: Seq<char>) -> Seq<char> {
    match c.format {
        CodecFormat::Paren => p + "("@,
        CodecFormat::Colon => p + c.colon_char@ + " "@,
    }
}

/// What closes a variant with content: `)` or nothing.
pub open spec fn closing(c: PromptCodec) -> Seq<char> {
    match c.format {
        CodecFormat::Paren => ")"@,
        CodecFormat::Colon => Seq::empty(),
    }
}

/// The text of data under the type name `p`.
pub open spec fn render(c: PromptCodec, p: Seq<char>, payload: PayloadView) -> Seq<char> {
    match payload {
        PayloadView::Unit => p,
        PayloadView::Text(x) => opening(c, p) + x + closing(c),
        PayloadView::Items(xs) => opening(c, p) + "["@ + join(xs, ","@) + "]"@ + closing(c),
        PayloadView::Id(_) => p,
    }
}

/// The text of a value in `lang`.
pub open spec fn text_in(c: PromptCodec, v: ValueView, lang: Seq<char>) -> Seq<char> {
    render(c, prefix_in(c.variants@[v.variant as int], lang), v.payload)
}

/// The part of `s` between `open` and `close`, when `s` has that form.
pub open spec fn between(s: Seq<char>, open: Seq<char>, close: Seq<char>) -> Option<Seq<char>> {
    if has_prefix(s, open) && has_suffix(s.skip(open.len() as int), close) {
        let rest = s.skip(open.len() as int);
        Some(rest.take(rest.len() - close.len()))
    } else {
        None
    }
}

/// The data that `s` holds when written under the type name `p` for a
/// variant of shape `kind`.
pub open spec fn read_form(c: PromptCodec, p: Seq<char>, kind: VariantKind, s: Seq<char>) -> Option<PayloadView> {
    match kind {
        VariantKind::Unit => if s == p { Some(PayloadView::Unit) } else { None },
        VariantKind::String => match between(s, opening(c, p), closing(c)) {
            Some(x) => Some(PayloadView::Text(x)),
            None => None,
        },
        VariantKind::VecString => match between(s, opening(c, p), closing(c)) {
            Some(x) => match between(x, "["@, "]"@) {
                Some(y) => Some(PayloadView::Items(parse_items(y))),
                None => None,
            },
            None => None,
        },
        _ => None,
    }
}

/// The first variant at or after `i` whose storage-language form `s` has.
pub open spec fn try_storage(c: PromptCodec, s: Seq<char>, i: int) -> Option<ValueView>
    decreases c.variants@.len() - i,
{
    if i < 0 || i >= c.variants@.len() {
        None
    } else {
        let v = c.variants@[i];
        match read_form(c, prefix_in(v, c.storage_lang@), v.kind, s) {
            Some(p) => Some(ValueView { variant: i as usize, payload: p }),
            None => try_storage(c, s, i + 1),
        }
    }
}

/// The first type name of variant `i`, at or after `j`, whose form `s` has.
pub open spec fn try_names(c: PromptCodec, s: Seq<char>, i: int, j: int) -> Option<ValueView>
    decreases c.variants@[i].prefixes@.len() - j,
{
    if i < 0 || i >= c.variants@.len() || j < 0 || j >= c.variants@[i].prefixes@.len() {
        None
    } else {
        let v = c.variants@[i];
        match read_form(c, v.prefixes@[j].1@, v.kind, s) {
            Some(p) => Some(ValueView { variant: i as usize, payload: p }),
            None => try_names(c, s, i, j + 1),
        }
    }
}

/// The first variant at or after `i` with a type name in some language whose form `s` has.
pub open spec fn try_any(c: PromptCodec, s: Seq<char>, i: int) -> Option<ValueView>
    decreases c.variants@.len() - i,
{
    if i < 0 || i >= c.variants@.len() {
        None
    } else {
        match try_names(c, s, i, 0) {
            Some(v) => Some(v),
            None => try_any(c, s, i + 1),
        }
    }
}

/// The first catch-all variant at or after `i` that holds a string.
pub open spec fn first_text_catch_all(vs: Seq<PromptVariant>, i: int) -> Option<int>
    decreases vs.len() - i,
{
    if i < 0 || i >= vs.len() {
        None
    } else if vs[i].is_catch_all && vs[i].kind == VariantKind::String {
        Some(i)
    } else {
        first_text_catch_all(vs, i + 1)
    }
}

/// The catch-all reading of `s`, if the enum has a catch-all variant.
pub open spec fn catch_all_of(c: PromptCodec, s: Seq<char>) -> Option<ValueView> {
    match first_text_catch_all(c.variants@, 0) {
        Some(k) => Some(ValueView { variant: k as usize, payload: PayloadView::Text(s) }),
        None => None,
    }
}

/// The value a text stands for: trimmed, read in the storage language, then
/// in any language, then as the catch-all.
pub open spec fn parse_spec(c: PromptCodec, s: Seq<char>) -> Result<ValueView, PromptParseError> {
    let t = trim(s);
    match try_storage(c, t, 0) {
        Some(v) => Ok(v),
        None => match try_any(c, t, 0) {
            Some(v) => Ok(v),
            None => match catch_all_of(c, t) {
                Some(v) => Ok(v),
                None => Err(PromptParseError::InvalidString),
            },
        },
    }
}

/// The value a text stands for, read in any language, then as the catch-all.
pub open spec fn parse_any_lang_spec(c: PromptCodec, s: Seq<char>) -> Result<ValueView, PromptParseError> {
    let t = trim(s);
    match try_any(c, t, 0) {
        Some(v) => Ok(v),
        None => match catch_all_of(c, t) {
            Some(v) => Ok(v),
            None => Err(PromptParseError::InvalidString),
        },
    }
}

/// The data of a variant of shape `kind` given its content.
pub open spec fn content_payload(kind: VariantKind, content: Seq<char>) -> PayloadView {
    match kind {
        VariantKind::Unit => PayloadView::Unit,
        VariantKind::String => PayloadView::Text(content),
        _ => PayloadView::Items(parse_items(content)),
    }
}

/// The first variant at or after `i` with a type name equal to `t`, tried from name `j` on.
pub open spec fn typed_names(c: PromptCodec, t: Seq<char>, i: int, j: int) -> Option<int>
    decreases c.variants@[i].prefixes@.len() - j,
{
    if i < 0 || i >= c.variants@.len() || j < 0 || j >= c.variants@[i].prefixes@.len() {
        None
    } else if c.variants@[i].prefixes@[j].1@ == t {
        Some(i)
    } else {
        typed_names(c, t, i, j + 1)
    }
}

/// The first variant at or after `i` with a type name equal to `t`.
pub open spec fn typed_variant(c: PromptCodec, t: Seq<char>, i: int) -> Option<int>
    decreases c.variants@.len() - i,
{
    if i < 0 || i >= c.variants@.len() {
        None
    } else {
        match typed_names(c, t, i, 0) {
            Some(k) => Some(k),
            None => typed_variant(c, t, i + 1),
        }
    }
}

/// The value given a type name and content; an unknown type goes to the
/// catch-all with the type and content written back together.
pub open spec fn typed_spec(c: PromptCodec, t: Seq<char>, content: Seq<char>) -> Result<ValueView, PromptParseError> {
    match typed_variant(c, t, 0) {
        Some(k) => Ok(ValueView { variant: k as usize, payload: content_payload(c.variants@[k].kind, content) }),
        None => match catch_all_of(c, opening(c, t) + content + closing(c)) {
            Some(v) => Ok(v),
            None => Err(PromptParseError::InvalidTypeOrContent),
        },
    }
}

/// The type names listed in the schema for `lang`: each variant's name in that
/// language, or its own name when no language is given.
pub open spec fn schema_spec(c: PromptCodec, lang: Option<Seq<char>>) -> Seq<Seq<char>> {
    Seq::new(
        c.variants@.len(),
        |i: int| match lang {
            Some(l) => prefix_in(c.variants@[i], l),
            None => c.variants@[i].ident@,
        },
    )
}

/// A result, as sequences.
pub open spec fn prompt_result_view(r: Result<TextEnumValue, PromptParseError>) -> Result<ValueView, PromptParseError> {
    match r {
        Ok(v) => Ok(v@),
        Err(e) => Err(e),
    }
}

// ---------------------------------------------------------------------------
// Implementation
// ---------------------------------------------------------------------------

/// The first type name registered for `lang`.
fn first_prefix_of(ps: &Vec<(String, String)>, lang: &str) -> (r: Option<String>)
    ensures
        match r {
            Some(p) => first_prefix(ps@, lang@, 0) == Some(p@),
            None => first_prefix(ps@, lang@, 0) is None,
        },
{
    let mut j: usize = 0;
    while j < ps.len()
        invariant
            j <= ps@.len(),
            first_prefix(ps@, lang@, 0) == first_prefix(ps@, lang@, j as int),
        decreases ps@.len() - j,
    {
        if str_eq(ps[j].0.as_str(), lang) {
            return Some(ps[j].1.clone());
        }
        j = j + 1;
    }
    None
}

/// The part of `s` between `open` and `close`, when `s` has that form.
fn between_exec(s: &[char], open: &str, close: &str) -> (r: Option<String>)
    ensures
        match r {
            Some(x) => between(s@, open@, close@) == Some(x@),
            None => between(s@, open@, close@) is None,
        },
{
    let o = chars_of(open);
    let c = chars_of(close);
    if !starts_with(s, o.as_slice()) {
        return None;
    }
    let rest = string_from(s, o.len(), s.len());
    let rv = chars_of(rest.as_str());
    if !ends_with(rv.as_slice(), c.as_slice()) {
        return None;
    }
    assert(rv@ == s@.skip(o@.len() as int));
    Some(string_from(rv.as_slice(), 0, rv.len() - c.len()))
}

impl PromptCodec {
    /// The type name of variant `i` in `lang`.
    fn prefix_of(&self, i: usize, lang: &str) -> (r: String)
        requires
            i < self.variants@.len(),
        ensures
            r@ == prefix_in(self.variants@[i as int], lang@),
    {
        match first_prefix_of(&self.variants[i].prefixes, lang) {
            Some(p) => p,
            None => self.variants[i].ident.clone(),
        }
    }

    /// What opens a variant with content written under `p`.
    fn opening_of(&self, p: &str) -> (r: String)
        ensures
            r@ == opening(*self, p@),
    {
        match self.format {
            CodecFormat::Paren => concat(p, "("),
            CodecFormat::Colon => {
                let head = concat(p, self.colon_char.as_str());
                concat(head.as_str(), " ")
            },
        }
    }

    /// What closes a variant with content.
    fn closing_of(&self) -> (r: &'static str)
        ensures
            r@ == closing(*self),
    {
        match self.format {
            CodecFormat::Paren => ")",
            CodecFormat::Colon => {
                proof {
                    reveal_strlit("");
                }
                ""
            },
        }
    }

    /// The text of `payload` under the type name `p`.
    fn render_exec(&self, p: &str, payload: &Payload) -> (r: String)
        ensures
            r@ == render(*self, p@, payload@),
    {
        match payload {
            Payload::Unit => owned(p),
            Payload::Text(x) => {
                let open = self.opening_of(p);
                let body = concat(open.as_str(), x.as_str());
                concat(body.as_str(), self.closing_of())
            },
            Payload::Items(xs) => {
                let open = self.opening_of(p);
                let list = join_strings(xs, ",");
                assert(xs@.map_values(|q: String| q@) =~= strings_view(xs@));
                let a = concat(open.as_str(), "[");
                let b = concat(a.as_str(), list.as_str());
                let d = concat(b.as_str(), "]");
                concat(d.as_str(), self.closing_of())
            },
            Payload::Id(_) => owned(p),
        }
    }

    /// The text of a value with type names in `lang`.
    pub fn to_lang(&self, value: &TextEnumValue, lang: &str) -> (r: String)
        requires
            prompt_value_wf(*self, value@),
        ensures
            r@ == text_in(*self, value@, lang@),
    {
        let p = self.prefix_of(value.variant, lang);
        self.render_exec(p.as_str(), &value.payload)
    }

    /// The stored text of a value: its text in the storage language.
    pub fn display(&self, value: &TextEnumValue) -> (r: String)
        requires
            prompt_value_wf(*self, value@),
        ensures
            r@ == text_in(*self, value@, self.storage_lang@),
    {
        self.to_lang(value, self.storage_lang.as_str())
    }

    /// The data that `s` holds when written under `p` for a variant of shape `kind`.
    fn read_form_exec(&self, p: &str, kind: VariantKind, s: &[char]) -> (r: Option<Payload>)
        ensures
            match r {
                Some(x) => read_form(*self, p@, kind, s@) == Some(x@),
                None => read_form(*self, p@, kind, s@) is None,
            },
    {
        match kind {
            VariantKind::Unit => {
                let pv = chars_of(p);
                if s.len() == pv.len() && starts_with(s, pv.as_slice()) {
                    assert(s@ =~= pv@);
                    Some(Payload::Unit)
                } else {
                    proof {
                        if s@ == p@ {
                            assert(s@.take(pv@.len() as int) =~= s@);
                        }
                    }
                    None
                }
            },
            VariantKind::String => {
                let open = self.opening_of(p);
                match between_exec(s, open.as_str(), self.closing_of()) {
                    Some(x) => Some(Payload::Text(x)),
                    None => None,
                }
            },
            VariantKind::VecString => {
                let open = self.opening_of(p);
                match between_exec(s, open.as_str(), self.closing_of()) {
                    Some(x) => {
                        let xv = chars_of(x.as_str());
                        match between_exec(xv.as_slice(), "[", "]") {
                            Some(y) => Some(Payload::Items(item_list(y.as_str()))),
                            None => None,
                        }
                    },
                    None => None,
                }
            },
            _ => None,
        }
    }

    /// The first variant whose storage-language form `s` has.
    fn try_storage_exec(&self, s: &[char]) -> (r: Option<TextEnumValue>)
        ensures
            match r {
                Some(v) => try_storage(*self, s@, 0) == Some(v@),
                None => try_storage(*self, s@, 0) is None,
            },
    {
        let mut i: usize = 0;
        while i < self.variants.len()
            invariant
                i <= self.variants@.len(),
                try_storage(*self, s@, 0) == try_storage(*self, s@, i as int),
            decreases self.variants@.len() - i,
        {
            let p = self.prefix_of(i, self.storage_lang.as_str());
            match self.read_form_exec(p.as_str(), self.variants[i].kind, s) {
                Some(x) => {
                    return Some(TextEnumValue { variant: i, payload: x });
                },
                None => {},
            }
            i = i + 1;
        }
        None
    }

    /// The first type name of variant `i` whose form `s` has.
    fn try_names_exec(&self, s: &[char], i: usize) -> (r: Option<TextEnumValue>)
        requires
            i < self.variants@.len(),
        ensures
            match r {
                Some(v) => try_names(*self, s@, i as int, 0) == Some(v@),
                None => try_names(*self, s@, i as int, 0) is None,
            },
    {
        let v = &self.variants[i];
        let mut j: usize = 0;
        while j < v.prefixes.len()
            invariant
                i < self.variants@.len(),
                *v == self.variants@[i as int],
                j <= v.prefixes@.len(),
                try_names(*self, s@, i as int, 0) == try_names(*self, s@, i as int, j as int),
            decreases v.prefixes@.len() - j,
        {
            match self.read_form_exec(v.prefixes[j].1.as_str(), v.kind, s) {
                Some(x) => {
                    return Some(TextEnumValue { variant: i, payload: x });
                },
                None => {},
            }
            j = j + 1;
        }
        None
    }

    /// The first variant with a type name in some language whose form `s` has.
    fn try_any_exec(&self, s: &[char]) -> (r: Option<TextEnumValue>)
        ensures
            match r {
                Some(v) => try_any(*self, s@, 0) == Some(v@),
                None => try_any(*self, s@, 0) is None,
            },
    {
        let mut i: usize = 0;
        while i < self.variants.len()
            invariant
                i <= self.variants@.len(),
                try_any(*self, s@, 0) == try_any(*self, s@, i as int),
            decreases self.variants@.len() - i,
        {
            match self.try_names_exec(s, i) {
                Some(v) => {
                    return Some(v);
                },
                None => {},
            }
            i = i + 1;
        }
        None
    }

    /// The first catch-all variant that holds a string.
    fn text_catch_all(&self) -> (r: Option<usize>)
        ensures
            match r {
                Some(k) => first_text_catch_all(self.variants@, 0) == Some(k as int),
                None => first_text_catch_all(self.variants@, 0) is None,
            },
    {
        let mut i: usize = 0;
        while i < self.variants.len()
            invariant
                i <= self.variants@.len(),
                first_text_catch_all(self.variants@, 0) == first_text_catch_all(self.variants@, i as int),
            decreases self.variants@.len() - i,
        {
            if self.variants[i].is_catch_all && self.variants[i].kind == VariantKind::String {
                return Some(i);
            }
            i = i + 1;
        }
        None
    }

    /// The catch-all reading of `s`.
    fn catch_all_exec(&self, s: String) -> (r: Option<TextEnumValue>)
        ensures
            match r {
                Some(v) => catch_all_of(*self, s@) == Some(v@),
                None => catch_all_of(*self, s@) is None,
            },
    {
        match self.text_catch_all() {
            Some(k) => Some(TextEnumValue { variant: k, payload: Payload::Text(s) }),
            None => None,
        }
    }

    /// The value a text stands for: trimmed, read in the storage language,
    /// then in any language, then as the catch-all.
    pub fn parse(&self, s: &str) -> (r: Result<TextEnumValue, PromptParseError>)
        ensures
            prompt_result_view(r) == parse_spec(*self, s@),
    {
        let t = trim_str(s);
        let tv = chars_of(t.as_str());
        match self.try_storage_exec(tv.as_slice()) {
            Some(v) => Ok(v),
            None => match self.try_any_exec(tv.as_slice()) {
                Some(v) => Ok(v),
                None => match self.catch_all_exec(t) {
                    Some(v) => Ok(v),
                    None => Err(PromptParseError::InvalidString),
                },
            },
        }
    }

    /// The value a text stands for, read in any language, then as the catch-all.
    pub fn parse_any_lang(&self, s: &str) -> (r: Result<TextEnumValue, PromptParseError>)
        ensures
            prompt_result_view(r) == parse_any_lang_spec(*self, s@),
    {
        let t = trim_str(s);
        let tv = chars_of(t.as_str());
        match self.try_any_exec(tv.as_slice()) {
            Some(v) => Ok(v),
            None => match self.catch_all_exec(t) {
                Some(v) => Ok(v),
                None => Err(PromptParseError::InvalidString),
            },
        }
    }

    /// The first variant with a type name equal to `t`.
    fn typed_variant_exec(&self, t: &str) -> (r: Option<usize>)
        ensures
            match r {
                Some(k) => typed_variant(*self, t@, 0) == Some(k as int),
                None => typed_variant(*self, t@, 0) is None,
            },
    {
        let mut i: usize = 0;
        while i < self.variants.len()
            invariant
                i <= self.variants@.len(),
                typed_variant(*self, t@, 0) == typed_variant(*self, t@, i as int),
            decreases self.variants@.len() - i,
        {
            let v = &self.variants[i];
            let mut j: usize = 0;
            while j < v.prefixes.len()
                invariant
                    i < self.variants@.len(),
                    *v == self.variants@[i as int],
                    j <= v.prefixes@.len(),
                    typed_variant(*self, t@, 0) == typed_variant(*self, t@, i as int),
                    typed_names(*self, t@, i as int, 0) == typed_names(*self, t@, i as int, j as int),
                decreases v.prefixes@.len() - j,
            {
                if str_eq(v.prefixes[j].1.as_str(), t) {
                    return Some(i);
                }
                j = j + 1;
            }
            i = i + 1;
        }
        None
    }

    /// The value given a type name and its content.
    pub fn parse_with_type_and_content(&self, type_str: &str, content_str: &str) -> (r: Result<TextEnumValue, PromptParseError>)
        ensures
            prompt_result_view(r) == typed_spec(*self, type_str@, content_str@),
    {
        match self.typed_variant_exec(type_str) {
            Some(k) => {
                proof {
                    lemma_typed_variant_bound(*self, type_str@, 0);
                }
                let payload = match self.variants[k].kind {
                    VariantKind::Unit => Payload::Unit,
                    VariantKind::String => Payload::Text(owned(content_str)),
                    _ => Payload::Items(item_list(content_str)),
                };
                Ok(TextEnumValue { variant: k, payload })
            },
            None => {
                let open = self.opening_of(type_str);
                let body = concat(open.as_str(), content_str);
                let whole = concat(body.as_str(), self.closing_of());
                match self.catch_all_exec(whole) {
                    Some(v) => Ok(v),
                    None => Err(PromptParseError::InvalidTypeOrContent),
                }
            },
        }
    }

    /// The type names listed in the schema for `lang`.
    pub fn schema(&self, lang: Option<&str>) -> (r: Vec<String>)
        ensures
            strings_view(r@) == schema_spec(*self, match lang { Some(l) => Some(l@), None => None }),
    {
        let ghost spec_lang = match lang { Some(l) => Some(l@), None => None };
        let mut out: Vec<String> = Vec::new();
        let mut i: usize = 0;
        while i < self.variants.len()
            invariant
                i <= self.variants@.len(),
                spec_lang == match lang { Some(l) => Some(l@), None => None::<Seq<char>> },
                out@.len() == i,
                forall|k: int| 0 <= k < i ==> (#[trigger] out@[k])@ == schema_spec(*self, spec_lang)[k],
            decreases self.variants@.len() - i,
        {
            let name = match lang {
                Some(l) => self.prefix_of(i, l),
                None => self.variants[i].ident.clone(),
            };
            out.push(name);
            i = i + 1;
        }
        assert(strings_view(out@) =~= schema_spec(*self, spec_lang));
        out
    }

    /// The default value: the first catch-all variant holding a string, with
    /// empty content.
    pub fn default_value(&self) -> (r: Option<TextEnumValue>)
        ensures
            match r {
                Some(v) => catch_all_of(*self, Seq::empty()) == Some(v@),
                None => catch_all_of(*self, Seq::empty()) is None,
            },
    {
        self.catch_all_exec(String::new())
    }
}

proof fn lemma_typed_variant_bound(c: PromptCodec, t: Seq<char>, i: int)
    ensures
        typed_variant(c, t, i) matches Some(k) ==> 0 <= k < c.variants@.len(),
    decreases c.variants@.len() - i,
{
    if 0 <= i < c.variants@.len() {
        lemma_typed_names_bound(c, t, i, 0);
        lemma_typed_variant_bound(c, t, i + 1);
    }
}

proof fn lemma_typed_names_bound(c: PromptCodec, t: Seq<char>, i: int, j: int)
    ensures
        typed_names(c, t, i, j) matches Some(k) ==> k == i && 0 <= i < c.variants@.len(),
    decreases c.variants@[i].prefixes@.len() - j,
{
    if 0 <= i < c.variants@.len() && 0 <= j < c.variants@[i].prefixes@.len() {
        lemma_typed_names_bound(c, t, i, j + 1);
    }
}

// ---------------------------------------------------------------------------
// Laws
// ---------------------------------------------------------------------------

/// The stored text of `v` is read back as `v`: trimming leaves it as it is, no
/// variant tried before `v`'s own reads it in the storage language, and a
/// list's items are read back from their joined text.
pub open spec fn stored_text_unclaimed(c: PromptCodec, v: ValueView) -> bool {
    let d = text_in(c, v, c.storage_lang@);
    &&& trim(d) == d
    &&& forall|j: int| 0 <= j < v.variant ==> read_form(c, prefix_in(#[trigger] c.variants@[j], c.storage_lang@), c.variants@[j].kind, d) is None
    &&& (v.payload matches PayloadView::Items(xs) ==> items_read_back(xs))
}

proof fn lemma_between(open: Seq<char>, x: Seq<char>, close: Seq<char>)
    ensures
        between(open + x + close, open, close) == Some(x),
{
    let s = open + x + close;
    assert(s.take(open.len() as int) =~= open);
    let rest = s.skip(open.len() as int);
    assert(rest =~= x + close);
    assert(rest.skip(rest.len() - close.len()) =~= close);
    assert(rest.take(rest.len() - close.len()) =~= x);
}

proof fn lemma_read_own_form(c: PromptCodec, p: Seq<char>, kind: VariantKind, payload: PayloadView)
    requires
        fits(kind, payload),
        payload matches PayloadView::Items(xs) ==> items_read_back(xs),
    ensures
        read_form(c, p, kind, render(c, p, payload)) == Some(payload),
{
    match payload {
        PayloadView::Text(x) => {
            lemma_between(opening(c, p), x, closing(c));
        },
        PayloadView::Items(xs) => {
            let inner = "["@ + join(xs, ","@) + "]"@;
            lemma_between(opening(c, p), inner, closing(c));
            assert(opening(c, p) + "["@ + join(xs, ","@) + "]"@ + closing(c) =~= opening(c, p) + inner + closing(c));
            lemma_between("["@, join(xs, ","@), "]"@);
            lemma_items_read_back(xs);
        },
        _ => {},
    }
}

proof fn lemma_try_storage_at(c: PromptCodec, s: Seq<char>, i: int, k: int, p: PayloadView)
    requires
        0 <= i <= k < c.variants@.len(),
        read_form(c, prefix_in(c.variants@[k], c.storage_lang@), c.variants@[k].kind, s) == Some(p),
        forall|j: int| i <= j < k ==> read_form(c, prefix_in(#[trigger] c.variants@[j], c.storage_lang@), c.variants@[j].kind, s) is None,
    ensures
        try_storage(c, s, i) == Some(ValueView { variant: k as usize, payload: p }),
    decreases k - i,
{
    if i < k {
        lemma_try_storage_at(c, s, i + 1, k, p);
    }
}

/// Reading back the stored text of a value gives the value, when no earlier
/// variant claims that text.
pub proof fn law_display_parse_round_trip(c: PromptCodec, v: ValueView)
    requires
        prompt_value_wf(c, v),
        stored_text_unclaimed(c, v),
    ensures
        parse_spec(c, text_in(c, v, c.storage_lang@)) == Ok::<ValueView, PromptParseError>(v),
{
    let k = v.variant as int;
    let var = c.variants@[k];
    let p = prefix_in(var, c.storage_lang@);
    lemma_read_own_form(c, p, var.kind, v.payload);
    lemma_try_storage_at(c, text_in(c, v, c.storage_lang@), 0, k, v.payload);
}

/// The text of `v` with type names in `lang` is read back as `v` from any
/// language: its variant has a type name in `lang`, trimming leaves the text
/// as it is, no type name of an earlier variant reads it, every type name of
/// its own variant that reads it reads `v`'s data, and a list's items are
/// read back from their joined text.
pub open spec fn text_unclaimed_in_any_lang(c: PromptCodec, v: ValueView, lang: Seq<char>) -> bool {
    let k = v.variant as int;
    let var = c.variants@[k];
    let d = text_in(c, v, lang);
    &&& first_prefix(var.prefixes@, lang, 0) is Some
    &&& trim(d) == d
    &&& forall|j: int, m: int| 0 <= j < k && 0 <= m < c.variants@[j].prefixes@.len() ==>
        read_form(c, (#[trigger] c.variants@[j].prefixes@[m]).1@, c.variants@[j].kind, d) is None
    &&& forall|m: int| 0 <= m < var.prefixes@.len() ==>
        (read_form(c, (#[trigger] var.prefixes@[m]).1@, var.kind, d) is None
            || read_form(c, var.prefixes@[m].1@, var.kind, d) == Some(v.payload))
    &&& (v.payload matches PayloadView::Items(xs) ==> items_read_back(xs))
}

proof fn lemma_first_prefix_found(ps: Seq<(String, String)>, lang: Seq<char>, j: int)
    requires
        0 <= j,
    ensures
        first_prefix(ps, lang, j) matches Some(p) ==> exists|m: int| j <= m < ps.len() && (#[trigger] ps[m]).1@ == p,
    decreases ps.len() - j,
{
    if j < ps.len() && ps[j].0@ != lang {
        lemma_first_prefix_found(ps, lang, j + 1);
    }
}

proof fn lemma_try_names_reads(c: PromptCodec, s: Seq<char>, k: int, j: int, m0: int, p: PayloadView)
    requires
        0 <= k < c.variants@.len(),
        0 <= j <= m0 < c.variants@[k].prefixes@.len(),
        read_form(c, c.variants@[k].prefixes@[m0].1@, c.variants@[k].kind, s) == Some(p),
        forall|m: int| 0 <= m < c.variants@[k].prefixes@.len() ==>
            (read_form(c, (#[trigger] c.variants@[k].prefixes@[m]).1@, c.variants@[k].kind, s) is None
                || read_form(c, c.variants@[k].prefixes@[m].1@, c.variants@[k].kind, s) == Some(p)),
    ensures
        try_names(c, s, k, j) == Some(ValueView { variant: k as usize, payload: p }),
    decreases m0 - j,
{
    let q = c.variants@[k].prefixes@[j];
    if read_form(c, q.1@, c.variants@[k].kind, s) is None {
        lemma_try_names_reads(c, s, k, j + 1, m0, p);
    }
}

proof fn lemma_try_names_none(c: PromptCodec, s: Seq<char>, k: int, j: int)
    requires
        0 <= k < c.variants@.len(),
        0 <= j,
        forall|m: int| 0 <= m < c.variants@[k].prefixes@.len() ==>
            read_form(c, (#[trigger] c.variants@[k].prefixes@[m]).1@, c.variants@[k].kind, s) is None,
    ensures
        try_names(c, s, k, j) is None,
    decreases c.variants@[k].prefixes@.len() - j,
{
    if j < c.variants@[k].prefixes@.len() {
        lemma_try_names_none(c, s, k, j + 1);
    }
}

proof fn lemma_try_any_at(c: PromptCodec, s: Seq<char>, i: int, k: int, v: ValueView)
    requires
        0 <= i <= k < c.variants@.len(),
        try_names(c, s, k, 0) == Some(v),
        forall|j: int, m: int| 0 <= j < k && 0 <= m < c.variants@[j].prefixes@.len() ==>
            read_form(c, (#[trigger] c.variants@[j].prefixes@[m]).1@, c.variants@[j].kind, s) is None,
    ensures
        try_any(c, s, i) == Some(v),
    decreases k - i,
{
    if i < k {
        assert forall|m: int| 0 <= m < c.variants@[i].prefixes@.len() implies
            read_form(c, (#[trigger] c.variants@[i].prefixes@[m]).1@, c.variants@[i].kind, s) is None by {}
        lemma_try_names_none(c, s, i, 0);
        lemma_try_any_at(c, s, i + 1, k, v);
    }
}

/// The text of a value in any language that names its variant is read back
/// as the value by reading in any language, when no other reading claims it.
pub proof fn law_any_lang_round_trip(c: PromptCodec, v: ValueView, lang: Seq<char>)
    requires
        prompt_value_wf(c, v),
        text_unclaimed_in_any_lang(c, v, lang),
    ensures
        parse_any_lang_spec(c, text_in(c, v, lang)) == Ok::<ValueView, PromptParseError>(v),
{
    let k = v.variant as int;
    let var = c.variants@[k];
    let d = text_in(c, v, lang);
    let p = prefix_in(var, lang);
    lemma_first_prefix_found(var.prefixes@, lang, 0);
    let m0 = choose|m: int| 0 <= m < var.prefixes@.len() && (#[trigger] var.prefixes@[m]).1@ == p;
    lemma_read_own_form(c, p, var.kind, v.payload);
    lemma_try_names_reads(c, d, k, 0, m0, v.payload);
    assert(v == ValueView { variant: k as usize, payload: v.payload });
    lemma_try_any_at(c, d, 0, k, v);
}

/// A text that starts and ends with something other than whitespace is its own trim.
proof fn lemma_trim_unchanged(s: Seq<char>)
    requires
        s.len() > 0,
        !is_space(s[0]),
        !is_space(s.last()),
    ensures
        trim(s) == s,
{
    assert(lead_spaces(s) == 0);
    assert(s.skip(0) =~= s);
    assert(trail_spaces(s) == 0);
    assert(s.take(s.len() as int) =~= s);
}

/// A non-empty text that is its own trim starts and ends with something other than whitespace.
proof fn lemma_trimmed_ends(s: Seq<char>)
    requires
        s.len() > 0,
        trim(s) == s,
    ensures
        !is_space(s[0]),
        !is_space(s.last()),
{
    lemma_lead_spaces_bound(s);
    let t = s.skip(lead_spaces(s) as int);
    lemma_trail_spaces_bound(t);
    assert(trim(s).len() == s.len() - lead_spaces(s) - trail_spaces(t));
    assert(lead_spaces(s) == 0);
    assert(t =~= s);
    assert(trail_spaces(s) == 0);
}

/// Texts whose first characters differ do not start the same way.
proof fn lemma_no_prefix(s: Seq<char>, p: Seq<char>)
    requires
        s.len() > 0,
        p.len() > 0,
        s[0] != p[0],
    ensures
        !has_prefix(s, p),
{
    if p.len() <= s.len() {
        assert(s.take(p.len() as int)[0] == s[0]);
    }
}

/// A colon-format codec, stored in Chinese, with the variants `Action(String)`
/// (named `Act` in English and `动作` in Chinese), `Scenario`, and the
/// catch-all `Text(String)`.
pub open spec fn is_colon_message_codec(c: PromptCodec) -> bool {
    let vs = c.variants@;
    &&& c.format == CodecFormat::Colon
    &&& c.storage_lang@ == "zh"@
    &&& c.colon_char@ == ":"@
    &&& vs.len() == 3
    &&& vs[0].ident@ == "Action"@ && vs[0].kind == VariantKind::String && !vs[0].is_catch_all
    &&& pairs_view(vs[0].prefixes@) == seq![("en"@, "Act"@), ("zh"@, "动作"@)]
    &&& vs[1].ident@ == "Scenario"@ && vs[1].kind == VariantKind::Unit && !vs[1].is_catch_all
    &&& vs[1].prefixes@.len() == 0
    &&& vs[2].ident@ == "Text"@ && vs[2].kind == VariantKind::String && vs[2].is_catch_all
    &&& vs[2].prefixes@.len() == 0
}

/// Every value of the colon message codec whose text, if any, is non-empty
/// and trimmed is read back from its stored text.
pub proof fn law_colon_message_round_trip(c: PromptCodec, v: ValueView)
    requires
        is_colon_message_codec(c),
        prompt_value_wf(c, v),
        v.payload matches PayloadView::Text(x) ==> x.len() > 0 && trim(x) == x,
    ensures
        parse_spec(c, text_in(c, v, c.storage_lang@)) == Ok::<ValueView, PromptParseError>(v),
{
    let vs = c.variants@;
    reveal_strlit("Action");
    reveal_strlit("Scenario");
    reveal_strlit("Text");
    reveal_strlit("zh");
    reveal_strlit("en");
    reveal_strlit("Act");
    reveal_strlit("动作");
    reveal_strlit(":");
    reveal_strlit(" ");
    assert(pairs_view(vs[0].prefixes@).len() == 2);
    assert(vs[0].prefixes@.len() == 2);
    assert(pairs_view(vs[0].prefixes@)[0] == (vs[0].prefixes@[0].0@, vs[0].prefixes@[0].1@));
    assert(pairs_view(vs[0].prefixes@)[1] == (vs[0].prefixes@[1].0@, vs[0].prefixes@[1].1@));
    assert(vs[0].prefixes@[0].0@ == "en"@);
    assert("en"@[0] != "zh"@[0]);
    assert(vs[0].prefixes@[0].0@ != "zh"@);
    assert(vs[0].prefixes@[1].0@ == "zh"@);
    assert(first_prefix(vs[0].prefixes@, "zh"@, 2) is None);
    assert(first_prefix(vs[0].prefixes@, "zh"@, 1) == Some("动作"@));
    assert(prefix_in(vs[0], "zh"@) == "动作"@);
    assert(prefix_in(vs[1], "zh"@) == "Scenario"@);
    assert(prefix_in(vs[2], "zh"@) == "Text"@);
    let d = text_in(c, v, c.storage_lang@);
    let open0 = opening(c, "动作"@);
    assert(open0[0] == '动');
    let k = v.variant as int;
    if k == 0 {
        if let PayloadView::Text(x) = v.payload {
            lemma_trimmed_ends(x);
            assert(d == open0 + x);
            assert(d[0] == '动');
            assert(d.last() == x.last());
            lemma_trim_unchanged(d);
        }
    } else if k == 1 {
        assert(d == "Scenario"@);
        lemma_trim_unchanged(d);
        lemma_no_prefix(d, open0);
        assert(read_form(c, prefix_in(vs[0], c.storage_lang@), vs[0].kind, d) is None);
    } else {
        if let PayloadView::Text(x) = v.payload {
            lemma_trimmed_ends(x);
            assert(d == opening(c, "Text"@) + x);
            assert(d[0] == 'T');
            assert(d.last() == x.last());
            lemma_trim_unchanged(d);
            lemma_no_prefix(d, open0);
            assert(read_form(c, prefix_in(vs[0], c.storage_lang@), vs[0].kind, d) is None);
            assert(d != "Scenario"@) by {
                assert("Scenario"@[0] == 'S');
            }
            assert(read_form(c, prefix_in(vs[1], c.storage_lang@), vs[1].kind, d) is None);
        }
    }
    assert(stored_text_unclaimed(c, v));
    law_display_parse_round_trip(c, v);
}

} // verus!
