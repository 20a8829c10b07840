//! Reading the fields of a stored record from their declarations: the
//! attributes that name referenced tables, fix a vector's dimension, mark a
//! field unique, indexed or not stored, and the SQL description that follows.
use vstd::prelude::*;
use crate::schema::{FieldData, ForeignKeyInfo, ForeignKeyManyInfo};
use crate::type_map::{field_data, field_sql_type, is_option_spec, SqlTypeError};

verus! {

broadcast use vstd::string::group_string_axioms;

/// An attribute on a field, with what it gives.
pub enum FieldAttr {
    /// `#[foreign_key(referenced_table = .., related_rust_type = ..)]`: the
    /// table and type given in it as strings (the last of each), if any;
    /// both absent when it is not written as a list.
    ForeignKey { referenced_table: Option<String>, related_rust_type: Option<String> },
    /// `#[foreign_key_many(..)]`, read as `ForeignKey`.
    ForeignKeyMany { referenced_table: Option<String>, related_rust_type: Option<String> },
    /// `#[vector_dimension(..)]`: the decimal digits of its first item when
    /// that is an integer literal.
    VectorDimension { first_int_digits: Option<String> },
    /// `#[unique]`.
    Unique,
    /// `#[indexed]`.
    Indexed,
    /// `#[sqlx_skip_column]`.
    SkipColumn,
    /// Any other attribute.
    Other,
}

/// A field as declared: its name, its type as written without spaces, and
/// its attributes in order.
pub struct FieldDecl {
    pub name: String,
    pub ty: String,
    pub attrs: Vec<FieldAttr>,
}

/// `s` is made of ASCII digits only.
pub open spec fn all_digits(s: Seq<char>) -> bool {
    forall|i: int| 0 <= i < s.len() ==> '0' <= #[trigger] s[i] <= '9'
}

/// The number the digits of `s` write in base ten.
pub open spec fn digits_value(s: Seq<char>) -> nat
    decreases s.len(),
{
    if s.len() == 0 {
        0
    } else {
        digits_value(s.drop_last()) * 10 + ((s.last() as int - '0' as int) as nat)
    }
}

/// The `usize` that non-empty decimal digits write, when it fits.
pub open spec fn parse_usize_spec(s: Seq<char>) -> Option<usize> {
    if s.len() > 0 && all_digits(s) && digits_value(s) <= usize::MAX {
        Some(digits_value(s) as usize)
    } else {
        None
    }
}

/// The referenced table and type of the first `foreign_key` attribute that
/// gives both.
pub open spec fn foreign_key_of(attrs: Seq<FieldAttr>) -> Option<(Seq<char>, Seq<char>)>
    decreases attrs.len(),
{
    if attrs.len() == 0 {
        None
    } else {
        match attrs[0] {
            FieldAttr::ForeignKey { referenced_table: Some(t), related_rust_type: Some(r) } => Some((t@, r@)),
            _ => foreign_key_of(attrs.drop_first()),
        }
    }
}

/// The referenced table and type of the first `foreign_key_many` attribute
/// that gives both.
pub open spec fn foreign_key_many_of(attrs: Seq<FieldAttr>) -> Option<(Seq<char>, Seq<char>)>
    decreases attrs.len(),
{
    if attrs.len() == 0 {
        None
    } else {
        match attrs[0] {
            FieldAttr::ForeignKeyMany { referenced_table: Some(t), related_rust_type: Some(r) } => Some((t@, r@)),
            _ => foreign_key_many_of(attrs.drop_first()),
        }
    }
}

/// The dimension given by the first `vector_dimension` attribute whose first
/// item is an integer literal (`None` when it does not fit a `usize`).
pub open spec fn vector_dimension_of(attrs: Seq<FieldAttr>) -> Option<usize>
    decreases attrs.len(),
{
    if attrs.len() == 0 {
        None
    } else {
        match attrs[0] {
            FieldAttr::VectorDimension { first_int_digits: Some(d) } => parse_usize_spec(d@),
            _ => vector_dimension_of(attrs.drop_first()),
        }
    }
}

/// Some attribute is `#[unique]`.
pub open spec fn has_unique(attrs: Seq<FieldAttr>) -> bool {
    exists|i: int| 0 <= i < attrs.len() && (#[trigger] attrs[i]) is Unique
}

/// Some attribute is `#[indexed]`.
pub open spec fn has_indexed(attrs: Seq<FieldAttr>) -> bool {
    exists|i: int| 0 <= i < attrs.len() && (#[trigger] attrs[i]) is Indexed
}

/// Some attribute is `#[sqlx_skip_column]`.
pub open spec fn has_skip(attrs: Seq<FieldAttr>) -> bool {
    exists|i: int| 0 <= i < attrs.len() && (#[trigger] attrs[i]) is SkipColumn
}

/// A table and type as a foreign key.
pub open spec fn fk_view(f: Option<ForeignKeyInfo>) -> Option<(Seq<char>, Seq<char>)> {
    match f {
        Some(k) => Some((k.referenced_table@, k.related_rust_type@)),
        None => None,
    }
}

/// A table and type as a list foreign key.
pub open spec fn fk_many_view(f: Option<ForeignKeyManyInfo>) -> Option<(Seq<char>, Seq<char>)> {
    match f {
        Some(k) => Some((k.referenced_table@, k.related_rust_type@)),
        None => None,
    }
}

/// `f` describes the field `d` declares.
pub open spec fn field_from_decl(f: FieldData, d: FieldDecl) -> bool {
    let dim = vector_dimension_of(d.attrs@);
    let skipped = has_skip(d.attrs@);
    &&& field_sql_type(d.name@, d.ty@, skipped, dim) == Ok::<Seq<char>, SqlTypeError>(f.sql_type@)
    &&& f.name@ == d.name@
    &&& f.ty@ == d.ty@
    &&& f.is_option == is_option_spec(d.ty@)
    &&& f.is_pk == (d.name@ == "id"@)
    &&& f.is_skipped == skipped
    &&& f.unique == has_unique(d.attrs@)
    &&& f.indexed == has_indexed(d.attrs@)
    &&& f.vector_dimension == dim
    &&& fk_view(f.foreign_key) == foreign_key_of(d.attrs@)
    &&& fk_many_view(f.foreign_key_many) == foreign_key_many_of(d.attrs@)
}

/// The number that decimal digits write, when there are some, they are all
/// digits, and it fits a `usize`.
pub fn parse_usize(s: &str) -> (r: Option<usize>)
    ensures
        r == parse_usize_spec(s@),
{
    let cs = crate::text::chars_of(s);
    if cs.len() == 0 {
        return None;
    }
    let mut acc: usize = 0;
    let mut i: usize = 0;
    while i < cs.len()
        invariant
            i <= cs@.len(),
            cs@ == s@,
            all_digits(cs@.take(i as int)),
            acc == digits_value(cs@.take(i as int)),
        decreases cs@.len() - i,
    {
        let c = cs[i];
        assert(cs@.take(i + 1).drop_last() =~= cs@.take(i as int));
        if !('0' <= c && c <= '9') {
            assert(!all_digits(cs@)) by {
                assert(cs@[i as int] == c);
            }
            return None;
        }
        let d: usize = (c as u32 - '0' as u32) as usize;
        let next = match acc.checked_mul(10) {
            Some(m) => m.checked_add(d),
            None => None,
        };
        match next {
            Some(n) => {
                acc = n;
            },
            None => {
                proof {
                    lemma_digits_grow(cs@, i + 1);
                }
                return None;
            },
        }
        i = i + 1;
    }
    assert(cs@.take(cs@.len() as int) =~= cs@);
    Some(acc)
}

/// Reading more digits never makes the number smaller.
proof fn lemma_digits_grow(s: Seq<char>, n: int)
    requires
        0 <= n <= s.len(),
    ensures
        digits_value(s.take(n)) <= digits_value(s),
    decreases s.len() - n,
{
    if n < s.len() {
        lemma_digits_grow(s, n + 1);
        assert(s.take(n + 1).drop_last() =~= s.take(n));
    } else {
        assert(s.take(n) =~= s);
    }
}

/// The referenced table and type of the first `foreign_key` attribute that gives both.
pub fn parse_foreign_key_attr(attrs: &Vec<FieldAttr>) -> (r: Option<ForeignKeyInfo>)
    ensures
        fk_view(r) == foreign_key_of(attrs@),
{
    let mut i: usize = 0;
    assert(attrs@.skip(0) =~= attrs@);
    while i < attrs.len()
        invariant
            i <= attrs@.len(),
            foreign_key_of(attrs@) == foreign_key_of(attrs@.skip(i as int)),
        decreases attrs@.len() - i,
    {
        assert(attrs@.skip(i as int)[0] == attrs@[i as int]);
        assert(attrs@.skip(i as int).drop_first() =~= attrs@.skip(i + 1));
        match &attrs[i] {
            FieldAttr::ForeignKey { referenced_table: Some(t), related_rust_type: Some(rt) } => {
                return Some(ForeignKeyInfo { referenced_table: t.clone(), related_rust_type: rt.clone() });
            },
            _ => {},
        }
        i = i + 1;
    }
    assert(attrs@.skip(attrs@.len() as int).len() == 0);
    None
}

/// The referenced table and type of the first `foreign_key_many` attribute that gives both.
pub fn parse_foreign_key_many_attr(attrs: &Vec<FieldAttr>) -> (r: Option<ForeignKeyManyInfo>)
    ensures
        fk_many_view(r) == foreign_key_many_of(attrs@),
{
    let mut i: usize = 0;
    assert(attrs@.skip(0) =~= attrs@);
    while i < attrs.len()
        invariant
            i <= attrs@.len(),
            foreign_key_many_of(attrs@) == foreign_key_many_of(attrs@.skip(i as int)),
        decreases attrs@.len() - i,
    {
        assert(attrs@.skip(i as int)[0] == attrs@[i as int]);
        assert(attrs@.skip(i as int).drop_first() =~= attrs@.skip(i + 1));
        match &attrs[i] {
            FieldAttr::ForeignKeyMany { referenced_table: Some(t), related_rust_type: Some(rt) } => {
                return Some(ForeignKeyManyInfo { referenced_table: t.clone(), related_rust_type: rt.clone() });
            },
            _ => {},
        }
        i = i + 1;
    }
    assert(attrs@.skip(attrs@.len() as int).len() == 0);
    None
}

/// The dimension given by the first `vector_dimension` attribute whose first
/// item is an integer literal.
pub fn parse_vector_dimension_attr(attrs: &Vec<FieldAttr>) -> (r: Option<usize>)
    ensures
        r == vector_dimension_of(attrs@),
{
    let mut i: usize = 0;
    assert(attrs@.skip(0) =~= attrs@);
    while i < attrs.len()
        invariant
            i <= attrs@.len(),
            vector_dimension_of(attrs@) == vector_dimension_of(attrs@.skip(i as int)),
        decreases attrs@.len() - i,
    {
        assert(attrs@.skip(i as int)[0] == attrs@[i as int]);
        assert(attrs@.skip(i as int).drop_first() =~= attrs@.skip(i + 1));
        match &attrs[i] {
            FieldAttr::VectorDimension { first_int_digits: Some(d) } => {
                return parse_usize(d.as_str());
            },
            _ => {},
        }
        i = i + 1;
    }
    assert(attrs@.skip(attrs@.len() as int).len() == 0);
    None
}

/// Some attribute among the first `n` sets the flag `kind`.
spec fn some_attr(attrs: Seq<FieldAttr>, n: int, kind: int) -> bool {
    exists|k: int| 0 <= k < n && attr_kind(#[trigger] attrs[k]) == kind
}

/// The flag an attribute sets: 1 for `unique`, 2 for `indexed`, 3 for
/// `sqlx_skip_column`, 0 for any other.
spec fn attr_kind(a: FieldAttr) -> int {
    match a {
        FieldAttr::Unique => 1,
        FieldAttr::Indexed => 2,
        FieldAttr::SkipColumn => 3,
        _ => 0,
    }
}

/// Whether some attribute sets the flag `kind`.
fn has_flag(attrs: &Vec<FieldAttr>, kind: u8) -> (r: bool)
    requires
        1 <= kind <= 3,
    ensures
        r == some_attr(attrs@, attrs@.len() as int, kind as int),
{
    let mut i: usize = 0;
    while i < attrs.len()
        invariant
            i <= attrs@.len(),
            1 <= kind <= 3,
            !some_attr(attrs@, i as int, kind as int),
        decreases attrs@.len() - i,
    {
        let k: u8 = match &attrs[i] {
            FieldAttr::Unique => 1,
            FieldAttr::Indexed => 2,
            FieldAttr::SkipColumn => 3,
            _ => 0,
        };
        assert(attrs@[i as int] == attrs[i as int]);
        if k == kind {
            return true;
        }
        i = i + 1;
    }
    false
}

/// Whether the field carries `#[unique]`.
pub fn has_unique_attr(attrs: &Vec<FieldAttr>) -> (r: bool)
    ensures
        r == has_unique(attrs@),
{
    let r = has_flag(attrs, 1);
    assert(r == has_unique(attrs@)) by {
        if r {
            let k = choose|k: int| 0 <= k < attrs@.len() && attr_kind(#[trigger] attrs@[k]) == 1;
            assert(attrs@[k] is Unique);
        }
    }
    r
}

/// Whether the field carries `#[indexed]`.
pub fn has_indexed_attr(attrs: &Vec<FieldAttr>) -> (r: bool)
    ensures
        r == has_indexed(attrs@),
{
    let r = has_flag(attrs, 2);
    assert(r == has_indexed(attrs@)) by {
        if r {
            let k = choose|k: int| 0 <= k < attrs@.len() && attr_kind(#[trigger] attrs@[k]) == 2;
            assert(attrs@[k] is Indexed);
        }
    }
    r
}

/// Whether the field carries `#[sqlx_skip_column]`.
pub fn has_sqlx_skip_column_attr(attrs: &Vec<FieldAttr>) -> (r: bool)
    ensures
        r == has_skip(attrs@),
{
    let r = has_flag(attrs, 3);
    assert(r == has_skip(attrs@)) by {
        if r {
            let k = choose|k: int| 0 <= k < attrs@.len() && attr_kind(#[trigger] attrs@[k]) == 3;
            assert(attrs@[k] is SkipColumn);
        }
    }
    r
}

/// The description of a declared field: its attributes read, then its SQL
/// type from its type; an error when its type has no SQL type.
pub fn read_field(decl: &FieldDecl) -> (r: Result<FieldData, SqlTypeError>)
    ensures
        match field_sql_type(decl.name@, decl.ty@, has_skip(decl.attrs@), vector_dimension_of(decl.attrs@)) {
            Ok(_) => r matches Ok(f) && field_from_decl(f, *decl),
            Err(e) => r == Err::<FieldData, SqlTypeError>(e),
        },
{
    let unique = has_unique_attr(&decl.attrs);
    let indexed = has_indexed_attr(&decl.attrs);
    let skip = has_sqlx_skip_column_attr(&decl.attrs);
    let dim = parse_vector_dimension_attr(&decl.attrs);
    let fk = parse_foreign_key_attr(&decl.attrs);
    let fk_many = parse_foreign_key_many_attr(&decl.attrs);
    field_data(decl.name.as_str(), decl.ty.as_str(), skip, unique, indexed, dim, fk, fk_many)
}

/// The descriptions of a record's declared fields, in order, for fields
/// whose types all have an SQL type (`read_field` tells which do not).
pub fn get_fields_data(decls: &Vec<FieldDecl>) -> (r: Vec<FieldData>)
    requires
        forall|i: int| 0 <= i < decls@.len() ==>
            (#[trigger] field_sql_type(decls@[i].name@, decls@[i].ty@, has_skip(decls@[i].attrs@), vector_dimension_of(decls@[i].attrs@))) is Ok,
    ensures
        r@.len() == decls@.len(),
        forall|i: int| 0 <= i < decls@.len() ==> field_from_decl(#[trigger] r@[i], decls@[i]),
{
    let mut out: Vec<FieldData> = Vec::new();
    let mut i: usize = 0;
    while i < decls.len()
        invariant
            i <= decls@.len(),
            out@.len() == i,
            forall|k: int| 0 <= k < i ==> field_from_decl(#[trigger] out@[k], decls@[k]),
            forall|k: int| 0 <= k < decls@.len() ==>
                (#[trigger] field_sql_type(decls@[k].name@, decls@[k].ty@, has_skip(decls@[k].attrs@), vector_dimension_of(decls@[k].attrs@))) is Ok,
        decreases decls@.len() - i,
    {
        let ghost k = i as int;
        assert(field_sql_type(decls@[k].name@, decls@[k].ty@, has_skip(decls@[k].attrs@), vector_dimension_of(decls@[k].attrs@)) is Ok);
        match read_field(&decls[i]) {
            Ok(f) => {
                out.push(f);
            },
            Err(_) => {
                assert(false);
            },
        }
        i = i + 1;
    }
    out
}

} // verus!
