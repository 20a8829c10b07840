//! The SQL column type of a record field, read from the field's Rust type as
//! written (without spaces). A path type's last segment is the text after its
//! last `::` outside angle brackets; a segment `Name<Arg>` has the single
//! argument `Arg` when `Arg` holds no comma outside angle brackets and is not
//! a lifetime.
use vstd::prelude::*;
use crate::schema::{FieldData, ForeignKeyInfo, ForeignKeyManyInfo};
use crate::text::{chars_of, concat, find_from, find_in, has_prefix, has_suffix, owned, starts_with, str_eq, string_from};

verus! {

broadcast use vstd::string::group_string_axioms;

/// Why a field's type has no SQL column type.
#[derive(Debug, Clone, Copy, PartialEq, Eq, Structural)]
pub enum SqlTypeError {
    /// A list of lists other than of ids.
    MultiDimensional,
    /// A list whose items map to JSON or bytes.
    NotArrayable,
    /// A vector without a dimension.
    MissingDimension,
    /// A type with no mapping.
    Unsupported,
}

/// The nesting of angle brackets before position `i`.
pub open spec fn angle_depth(s: Seq<char>, i: int) -> int
    decreases i,
{
    if i <= 0 {
        0
    } else {
        angle_depth(s, i - 1) + if s[i - 1] == '<' { 1int } else if s[i - 1] == '>' { -1int } else { 0int }
    }
}

/// The last `::` that ends at or before `n` and is outside angle brackets.
pub open spec fn last_path_sep(s: Seq<char>, n: int) -> Option<int>
    decreases n,
{
    if n < 2 {
        None
    } else if s[n - 2] == ':' && s[n - 1] == ':' && angle_depth(s, n - 2) == 0 {
        Some(n - 2)
    } else {
        last_path_sep(s, n - 1)
    }
}

/// The last path segment of a type.
pub open spec fn last_segment(s: Seq<char>) -> Seq<char> {
    match last_path_sep(s, s.len() as int) {
        Some(j) => s.skip(j + 2),
        None => s,
    }
}

/// The name of a segment: the text before its `<`.
pub open spec fn segment_ident(seg: Seq<char>) -> Seq<char> {
    match find_from(seg, "<"@, 0) {
        Some(k) => seg.take(k),
        None => seg,
    }
}

/// `s` holds a comma outside angle brackets.
pub open spec fn has_top_level_comma(s: Seq<char>) -> bool {
    exists|i: int| 0 <= i < s.len() && s[i] == ',' && angle_depth(s, i) == 0
}

/// The single argument of the last segment when it is `name<Arg>`.
pub open spec fn single_arg(ty: Seq<char>, name: Seq<char>) -> Option<Seq<char>> {
    let seg = last_segment(ty);
    let open = name + "<"@;
    if has_prefix(seg, open) && has_suffix(seg, ">"@) && seg.len() > open.len() {
        let inner = seg.subrange(open.len() as int, seg.len() - 1);
        if inner.len() > 0 && inner[0] != '\'' && !has_top_level_comma(inner) {
            Some(inner)
        } else {
            None
        }
    } else {
        None
    }
}

/// The type's last segment is named `Option`.
pub open spec fn is_option_spec(ty: Seq<char>) -> bool {
    segment_ident(last_segment(ty)) == "Option"@
}

/// A type the database stores as it is (text, numbers, bytes, ids, times,
/// vectors and JSON).
pub open spec fn is_simple_spec(t: Seq<char>) -> bool {
    ||| t == "String"@ || t == "i32"@ || t == "u32"@ || t == "i64"@ || t == "u64"@ || t == "isize"@ || t == "usize"@
    ||| t == "f32"@ || t == "f64"@ || t == "bool"@ || t == "Vec<u8>"@
    ||| t == "Uuid"@ || t == "::sqlx::types::Uuid"@ || t == "sqlx::types::Uuid"@
    ||| t == "DateTime<Utc>"@ || t == "::chrono::DateTime<::chrono::Utc>"@ || t == "chrono::DateTime<chrono::Utc>"@
    ||| t == "NaiveDateTime"@ || t == "::chrono::NaiveDateTime"@ || t == "chrono::NaiveDateTime"@
    ||| t == "NaiveDate"@ || t == "::chrono::NaiveDate"@ || t == "chrono::NaiveDate"@
    ||| t == "NaiveTime"@ || t == "::chrono::NaiveTime"@ || t == "chrono::NaiveTime"@
    ||| t == "Vector"@ || t == "::pgvector::Vector"@ || t == "pgvector::Vector"@
    ||| is_json_spec(t)
}

/// A JSON-wrapped type.
pub open spec fn is_json_spec(t: Seq<char>) -> bool {
    has_prefix(t, "Json<"@) || has_prefix(t, "::sqlx::types::Json<"@) || has_prefix(t, "sqlx::types::Json<"@)
}

/// An id type.
pub open spec fn is_uuid_spec(t: Seq<char>) -> bool {
    t == "Uuid"@ || t == "::sqlx::types::Uuid"@ || t == "sqlx::types::Uuid"@
}

/// `t` mentions `Uuid`.
pub open spec fn mentions_uuid(t: Seq<char>) -> bool {
    find_from(t, "Uuid"@, 0) is Some
}

/// The SQL type of a scalar (not a list) type.
pub open spec fn scalar_sql(t: Seq<char>, dim: Option<usize>) -> Result<Seq<char>, SqlTypeError> {
    if t == "String"@ || t == "std::string::String"@ {
        Ok("TEXT"@)
    } else if t == "i32"@ {
        Ok("INTEGER"@)
    } else if t == "u32"@ || t == "i64"@ || t == "isize"@ || t == "u64"@ || t == "usize"@ {
        Ok("BIGINT"@)
    } else if t == "f32"@ {
        Ok("REAL"@)
    } else if t == "f64"@ {
        Ok("DOUBLE PRECISION"@)
    } else if t == "bool"@ {
        Ok("BOOLEAN"@)
    } else if is_uuid_spec(t) {
        Ok("UUID"@)
    } else if t == "Vector"@ || t == "::pgvector::Vector"@ || t == "pgvector::Vector"@ {
        match dim {
            Some(d) => Ok("VECTOR("@ + crate::text::decimal(d as nat) + ")"@),
            None => Err(SqlTypeError::MissingDimension),
        }
    } else if is_json_spec(t) {
        Ok("JSONB"@)
    } else if t == "DateTime<Utc>"@ || t == "::chrono::DateTime<::chrono::Utc>"@ || t == "chrono::DateTime<chrono::Utc>"@ {
        Ok("TIMESTAMPTZ"@)
    } else if t == "NaiveDateTime"@ || t == "::chrono::NaiveDateTime"@ || t == "chrono::NaiveDateTime"@ {
        Ok("TIMESTAMP"@)
    } else if t == "NaiveDate"@ || t == "::chrono::NaiveDate"@ || t == "chrono::NaiveDate"@ {
        Ok("DATE"@)
    } else if t == "NaiveTime"@ || t == "::chrono::NaiveTime"@ || t == "chrono::NaiveTime"@ {
        Ok("TIME"@)
    } else if !is_simple_spec(t) && !has_prefix(t, "Option<"@) && !has_prefix(t, "Vec<"@) {
        Ok("TEXT"@)
    } else {
        Err(SqlTypeError::Unsupported)
    }
}

/// The SQL type of a type read without looking into lists.
pub open spec fn flat_sql(t: Seq<char>, dim: Option<usize>) -> Result<Seq<char>, SqlTypeError> {
    if t == "Vec<u8>"@ {
        Ok("BYTEA"@)
    } else if t == "Vec<::sqlx::types::Uuid>"@ || t == "Vec<sqlx::types::Uuid>"@ || t == "Vec<Uuid>"@ {
        Ok("UUID[]"@)
    } else if t == "Vec<String>"@ || t == "Vec<std::string::String>"@ {
        Ok("TEXT[]"@)
    } else {
        scalar_sql(t, dim)
    }
}

/// The SQL type of a field type: bytes, id lists and text lists have their
/// own types; another list is an array of its item's type (not of a list,
/// unless of ids, nor of JSON or bytes); anything else maps as a scalar.
pub open spec fn sql_type_spec(t: Seq<char>, dim: Option<usize>) -> Result<Seq<char>, SqlTypeError> {
    if t == "Vec<u8>"@ || t == "Vec<::sqlx::types::Uuid>"@ || t == "Vec<sqlx::types::Uuid>"@ || t == "Vec<Uuid>"@
        || t == "Vec<String>"@ || t == "Vec<std::string::String>"@ {
        flat_sql(t, dim)
    } else {
        match single_arg(t, "Vec"@) {
            Some(inner) => match flat_sql(inner, None) {
                Err(e) => Err(e),
                Ok(s) => if has_suffix(s, "[]"@) && !mentions_uuid(inner) {
                    Err(SqlTypeError::MultiDimensional)
                } else if s == "JSONB"@ || (s == "BYTEA"@ && !mentions_uuid(inner)) {
                    Err(SqlTypeError::NotArrayable)
                } else {
                    Ok(s + "[]"@)
                },
            },
            None => scalar_sql(t, dim),
        }
    }
}

// ---------------------------------------------------------------------------
// Implementation
// ---------------------------------------------------------------------------

/// The last `::` outside angle brackets.
fn last_path_sep_exec(s: &[char]) -> (r: Option<usize>)
    ensures
        match r {
            Some(j) => last_path_sep(s@, s@.len() as int) == Some(j as int) && j + 2 <= s@.len(),
            None => last_path_sep(s@, s@.len() as int) is None,
        },
{
    let mut depth: i128 = 0;
    let mut last: Option<usize> = None;
    let mut i: usize = 0;
    while i < s.len()
        invariant
            i <= s@.len(),
            depth == angle_depth(s@, i as int),
            -(i as int) <= depth <= i,
            match last {
                Some(j) => last_path_sep(s@, i as int) == Some(j as int) && j + 2 <= i,
                None => last_path_sep(s@, i as int) is None,
            },
        decreases s@.len() - i,
    {
        let c = s[i];
        if i >= 1 && s[i - 1] == ':' && c == ':' && depth == 0 {
            assert(angle_depth(s@, i as int) == angle_depth(s@, i - 1));
            last = Some(i - 1);
        } else {
            proof {
                if i >= 1 && s@[i - 1] == ':' && c == ':' {
                    assert(angle_depth(s@, i as int) == angle_depth(s@, i - 1));
                }
            }
        }
        assert(angle_depth(s@, i + 1) == angle_depth(s@, i as int) + if s@[i as int] == '<' { 1int } else if s@[i as int] == '>' { -1int } else { 0int });
        if c == '<' {
            depth = depth + 1;
        } else if c == '>' {
            depth = depth - 1;
        }
        i = i + 1;
    }
    last
}

/// The last path segment of a type.
fn last_segment_exec(ty: &[char]) -> (r: Vec<char>)
    ensures
        r@ == last_segment(ty@),
{
    let mut out: Vec<char> = Vec::new();
    let n = ty.len();
    let start = match last_path_sep_exec(ty) {
        Some(j) => j + 2,
        None => 0,
    };
    let mut i = start;
    while i < ty.len()
        invariant
            start <= i <= ty@.len(),
            out@ == ty@.subrange(start as int, i as int),
        decreases ty@.len() - i,
    {
        out.push(ty[i]);
        i = i + 1;
        assert(out@ =~= ty@.subrange(start as int, i as int));
    }
    assert(ty@.skip(start as int) =~= ty@.subrange(start as int, ty@.len() as int));
    assert(ty@.skip(0) =~= ty@);
    out
}

/// Whether `s` holds a comma outside angle brackets.
fn has_top_level_comma_exec(s: &[char]) -> (r: bool)
    ensures
        r == has_top_level_comma(s@),
{
    let mut depth: i128 = 0;
    let mut i: usize = 0;
    while i < s.len()
        invariant
            i <= s@.len(),
            depth == angle_depth(s@, i as int),
            -(i as int) <= depth <= i,
            forall|k: int| 0 <= k < i ==> !(s@[k] == ',' && angle_depth(s@, k) == 0),
        decreases s@.len() - i,
    {
        if s[i] == ',' && depth == 0 {
            return true;
        }
        proof {
            assert(angle_depth(s@, i + 1) == angle_depth(s@, i as int) + if s@[i as int] == '<' { 1int } else if s@[i as int] == '>' { -1int } else { 0int });
        }
        if s[i] == '<' {
            depth = depth + 1;
        } else if s[i] == '>' {
            depth = depth - 1;
        }
        i = i + 1;
    }
    false
}

/// The single argument of the last segment when it is `name<Arg>`.
fn single_arg_exec(ty: &[char], name: &str) -> (r: Option<String>)
    ensures
        match r {
            Some(x) => single_arg(ty@, name@) == Some(x@),
            None => single_arg(ty@, name@) is None,
        },
{
    let seg = last_segment_exec(ty);
    let open = chars_of(concat(name, "<").as_str());
    let close = chars_of(">");
    if starts_with(seg.as_slice(), open.as_slice()) && crate::text::ends_with(seg.as_slice(), close.as_slice())
        && seg.len() > open.len() {
        let inner = string_from(seg.as_slice(), open.len(), seg.len() - 1);
        let iv = chars_of(inner.as_str());
        if iv.len() > 0 && iv[0] != '\'' && !has_top_level_comma_exec(iv.as_slice()) {
            return Some(inner);
        }
    }
    None
}

/// Whether the type's last segment is named `Option`.
pub fn is_option_type(ty: &str) -> (r: bool)
    ensures
        r == is_option_spec(ty@),
{
    let tv = chars_of(ty);
    let seg = last_segment_exec(tv.as_slice());
    let lt = chars_of("<");
    let ident = match find_in(seg.as_slice(), lt.as_slice(), 0) {
        Some(k) => {
            proof {
                crate::text::lemma_find_from(seg@, lt@, 0);
            }
            string_from(seg.as_slice(), 0, k)
        },
        None => crate::text::string_of(seg.as_slice()),
    };
    proof {
        assert(seg@.subrange(0, seg@.len() as int) =~= seg@);
    }
    str_eq(ident.as_str(), "Option")
}

/// The argument of an `Option<Arg>` type.
pub fn get_option_inner_type(ty: &str) -> (r: Option<String>)
    ensures
        match r {
            Some(x) => single_arg(ty@, "Option"@) == Some(x@),
            None => single_arg(ty@, "Option"@) is None,
        },
{
    single_arg_exec(chars_of(ty).as_slice(), "Option")
}

/// The item type of a `Vec<Item>` type.
pub fn get_vec_inner_type(ty: &str) -> (r: Option<String>)
    ensures
        match r {
            Some(x) => single_arg(ty@, "Vec"@) == Some(x@),
            None => single_arg(ty@, "Vec"@) is None,
        },
{
    single_arg_exec(chars_of(ty).as_slice(), "Vec")
}

/// Whether a type is JSON-wrapped.
fn is_json_type(t: &str) -> (r: bool)
    ensures
        r == is_json_spec(t@),
{
    let tv = chars_of(t);
    starts_with(tv.as_slice(), chars_of("Json<").as_slice()) || starts_with(tv.as_slice(), chars_of("::sqlx::types::Json<").as_slice())
        || starts_with(tv.as_slice(), chars_of("sqlx::types::Json<").as_slice())
}

/// Whether the database stores a type as it is.
pub fn is_simple_type(t: &str) -> (r: bool)
    ensures
        r == is_simple_spec(t@),
{
    str_eq(t, "String") || str_eq(t, "i32") || str_eq(t, "u32") || str_eq(t, "i64") || str_eq(t, "u64") || str_eq(t, "isize")
        || str_eq(t, "usize") || str_eq(t, "f32") || str_eq(t, "f64") || str_eq(t, "bool") || str_eq(t, "Vec<u8>")
        || str_eq(t, "Uuid") || str_eq(t, "::sqlx::types::Uuid") || str_eq(t, "sqlx::types::Uuid")
        || str_eq(t, "DateTime<Utc>") || str_eq(t, "::chrono::DateTime<::chrono::Utc>") || str_eq(t, "chrono::DateTime<chrono::Utc>")
        || str_eq(t, "NaiveDateTime") || str_eq(t, "::chrono::NaiveDateTime") || str_eq(t, "chrono::NaiveDateTime")
        || str_eq(t, "NaiveDate") || str_eq(t, "::chrono::NaiveDate") || str_eq(t, "chrono::NaiveDate")
        || str_eq(t, "NaiveTime") || str_eq(t, "::chrono::NaiveTime") || str_eq(t, "chrono::NaiveTime")
        || str_eq(t, "Vector") || str_eq(t, "::pgvector::Vector") || str_eq(t, "pgvector::Vector")
        || is_json_type(t)
}

/// The SQL type of a scalar type.
fn scalar_sql_exec(t: &str, dim: Option<usize>) -> (r: Result<String, SqlTypeError>)
    ensures
        match r {
            Ok(s) => scalar_sql(t@, dim) == Ok::<Seq<char>, SqlTypeError>(s@),
            Err(e) => scalar_sql(t@, dim) == Err::<Seq<char>, SqlTypeError>(e),
        },
{
    if str_eq(t, "String") || str_eq(t, "std::string::String") {
        Ok(owned("TEXT"))
    } else if str_eq(t, "i32") {
        Ok(owned("INTEGER"))
    } else if str_eq(t, "u32") || str_eq(t, "i64") || str_eq(t, "isize") || str_eq(t, "u64") || str_eq(t, "usize") {
        Ok(owned("BIGINT"))
    } else if str_eq(t, "f32") {
        Ok(owned("REAL"))
    } else if str_eq(t, "f64") {
        Ok(owned("DOUBLE PRECISION"))
    } else if str_eq(t, "bool") {
        Ok(owned("BOOLEAN"))
    } else if str_eq(t, "Uuid") || str_eq(t, "::sqlx::types::Uuid") || str_eq(t, "sqlx::types::Uuid") {
        Ok(owned("UUID"))
    } else if str_eq(t, "Vector") || str_eq(t, "::pgvector::Vector") || str_eq(t, "pgvector::Vector") {
        match dim {
            Some(d) => {
                let a = concat("VECTOR(", crate::text::decimal_string(d as u64).as_str());
                Ok(concat(a.as_str(), ")"))
            },
            None => Err(SqlTypeError::MissingDimension),
        }
    } else if is_json_type(t) {
        Ok(owned("JSONB"))
    } else if str_eq(t, "DateTime<Utc>") || str_eq(t, "::chrono::DateTime<::chrono::Utc>") || str_eq(t, "chrono::DateTime<chrono::Utc>") {
        Ok(owned("TIMESTAMPTZ"))
    } else if str_eq(t, "NaiveDateTime") || str_eq(t, "::chrono::NaiveDateTime") || str_eq(t, "chrono::NaiveDateTime") {
        Ok(owned("TIMESTAMP"))
    } else if str_eq(t, "NaiveDate") || str_eq(t, "::chrono::NaiveDate") || str_eq(t, "chrono::NaiveDate") {
        Ok(owned("DATE"))
    } else if str_eq(t, "NaiveTime") || str_eq(t, "::chrono::NaiveTime") || str_eq(t, "chrono::NaiveTime") {
        Ok(owned("TIME"))
    } else {
        let tv = chars_of(t);
        if !is_simple_type(t) && !starts_with(tv.as_slice(), chars_of("Option<").as_slice())
            && !starts_with(tv.as_slice(), chars_of("Vec<").as_slice()) {
            Ok(owned("TEXT"))
        } else {
            Err(SqlTypeError::Unsupported)
        }
    }
}

/// The SQL type of a type read without looking into lists.
fn flat_sql_exec(t: &str, dim: Option<usize>) -> (r: Result<String, SqlTypeError>)
    ensures
        match r {
            Ok(s) => flat_sql(t@, dim) == Ok::<Seq<char>, SqlTypeError>(s@),
            Err(e) => flat_sql(t@, dim) == Err::<Seq<char>, SqlTypeError>(e),
        },
{
    if str_eq(t, "Vec<u8>") {
        Ok(owned("BYTEA"))
    } else if str_eq(t, "Vec<::sqlx::types::Uuid>") || str_eq(t, "Vec<sqlx::types::Uuid>") || str_eq(t, "Vec<Uuid>") {
        Ok(owned("UUID[]"))
    } else if str_eq(t, "Vec<String>") || str_eq(t, "Vec<std::string::String>") {
        Ok(owned("TEXT[]"))
    } else {
        scalar_sql_exec(t, dim)
    }
}

/// Whether `t` mentions `Uuid`.
fn mentions_uuid_exec(t: &str) -> (r: bool)
    ensures
        r == mentions_uuid(t@),
{
    let tv = chars_of(t);
    find_in(tv.as_slice(), chars_of("Uuid").as_slice(), 0).is_some()
}

/// The SQL column type of a field type (as written, without spaces), with
/// the vector dimension the field declares, or why the type has none: the
/// test to make before `map_rust_type_to_sql`.
pub fn rust_type_sql(ty: &str, vector_dimension: Option<usize>) -> (r: Result<String, SqlTypeError>)
    ensures
        match r {
            Ok(s) => sql_type_spec(ty@, vector_dimension) == Ok::<Seq<char>, SqlTypeError>(s@),
            Err(e) => sql_type_spec(ty@, vector_dimension) == Err::<Seq<char>, SqlTypeError>(e),
        },
{
    if str_eq(ty, "Vec<u8>") || str_eq(ty, "Vec<::sqlx::types::Uuid>") || str_eq(ty, "Vec<sqlx::types::Uuid>") || str_eq(ty, "Vec<Uuid>")
        || str_eq(ty, "Vec<String>") || str_eq(ty, "Vec<std::string::String>") {
        return flat_sql_exec(ty, vector_dimension);
    }
    match get_vec_inner_type(ty) {
        Some(inner) => match flat_sql_exec(inner.as_str(), None) {
            Err(e) => Err(e),
            Ok(s) => {
                let sv = chars_of(s.as_str());
                let uuid = mentions_uuid_exec(inner.as_str());
                if crate::text::ends_with(sv.as_slice(), chars_of("[]").as_slice()) && !uuid {
                    Err(SqlTypeError::MultiDimensional)
                } else if str_eq(s.as_str(), "JSONB") || (str_eq(s.as_str(), "BYTEA") && !uuid) {
                    Err(SqlTypeError::NotArrayable)
                } else {
                    Ok(concat(s.as_str(), "[]"))
                }
            },
        },
        None => scalar_sql_exec(ty, vector_dimension),
    }
}

/// The SQL column type of a field type (as written, without spaces), with
/// the vector dimension the field declares; for a type that has one (a
/// vector without a dimension, a list of lists other than of ids, a list of
/// JSON or bytes, and a type with no mapping, such as a bare `Option`, have none).
pub fn map_rust_type_to_sql(ty: &str, vector_dimension: Option<usize>) -> (r: String)
    requires
        sql_type_spec(ty@, vector_dimension) is Ok,
    ensures
        sql_type_spec(ty@, vector_dimension) == Ok::<Seq<char>, SqlTypeError>(r@),
{
    match rust_type_sql(ty, vector_dimension) {
        Ok(s) => s,
        Err(_) => {
            assert(false);
            String::new()
        },
    }
}

/// The stored description of a field: optional when its type is an
/// `Option`, the key when named `id`, and typed `SKIP` when not stored,
/// `JSONB` when JSON-wrapped (inside an `Option` too), else by its type
/// (inside an `Option` when optional).
pub open spec fn field_sql_type(name: Seq<char>, ty: Seq<char>, is_skipped: bool, dim: Option<usize>) -> Result<Seq<char>, SqlTypeError> {
    let analysed = match single_arg(ty, "Option"@) {
        Some(x) => x,
        None => ty,
    };
    if is_skipped {
        Ok("SKIP"@)
    } else if is_json_spec(analysed) {
        Ok("JSONB"@)
    } else {
        sql_type_spec(if is_option_spec(ty) { analysed } else { ty }, dim)
    }
}

/// The description of a field from its name, type and attributes.
pub fn field_data(
    name: &str,
    ty: &str,
    is_skipped: bool,
    unique: bool,
    indexed: bool,
    vector_dimension: Option<usize>,
    foreign_key: Option<ForeignKeyInfo>,
    foreign_key_many: Option<ForeignKeyManyInfo>,
) -> (r: Result<FieldData, SqlTypeError>)
    ensures
        match r {
            Ok(f) => field_sql_type(name@, ty@, is_skipped, vector_dimension) == Ok::<Seq<char>, SqlTypeError>(f.sql_type@)
                && f.name@ == name@ && f.ty@ == ty@ && f.is_option == is_option_spec(ty@) && f.is_pk == (name@ == "id"@)
                && f.is_skipped == is_skipped && f.unique == unique && f.indexed == indexed
                && f.vector_dimension == vector_dimension && f.foreign_key == foreign_key && f.foreign_key_many == foreign_key_many,
            Err(e) => field_sql_type(name@, ty@, is_skipped, vector_dimension) == Err::<Seq<char>, SqlTypeError>(e),
        },
{
    let is_option = is_option_type(ty);
    let analysed = match get_option_inner_type(ty) {
        Some(x) => x,
        None => owned(ty),
    };
    let sql_type = if is_skipped {
        owned("SKIP")
    } else if is_json_type(analysed.as_str()) {
        owned("JSONB")
    } else {
        let mapped = if is_option { rust_type_sql(analysed.as_str(), vector_dimension) } else { rust_type_sql(ty, vector_dimension) };
        match mapped {
            Ok(s) => s,
            Err(e) => {
                return Err(e);
            },
        }
    };
    Ok(FieldData {
        name: owned(name),
        ty: owned(ty),
        is_option,
        is_pk: str_eq(name, "id"),
        is_skipped,
        sql_type,
        foreign_key,
        foreign_key_many,
        unique,
        indexed,
        vector_dimension,
    })
}


// ---------------------------------------------------------------------------
// How values travel between a record and its row
// ---------------------------------------------------------------------------

/// How a field's values travel between the record and its row: as they are,
/// as the text they print to (parsed back when read, the type's default when
/// that fails), or as a list of such texts.
#[derive(Debug, Clone, Copy, PartialEq, Eq, Structural)]
pub enum ColumnEncoding {
    /// The value itself.
    Native,
    /// The value's text.
    Text,
    /// The texts of the list's items.
    TextList,
}

/// The type a field's values have, looking through an `Option`.
pub open spec fn analysed_type(ty: Seq<char>) -> Seq<char> {
    match single_arg(ty, "Option"@) {
        Some(x) => x,
        None => ty,
    }
}

/// A type with no column kind of its own, kept as text: not stored as it
/// is, and neither an `Option` nor a `Vec`.
pub open spec fn is_text_mapped(t: Seq<char>) -> bool {
    !is_simple_spec(t) && !has_prefix(t, "Option<"@) && !has_prefix(t, "Vec<"@)
}

/// How a field of type `ty` is read from its row: as text when its
/// (optional) type is kept as text, as a list of texts when it is a `Vec` of
/// such items, else as it is.
pub open spec fn row_encoding(ty: Seq<char>) -> ColumnEncoding {
    if is_text_mapped(analysed_type(ty)) {
        ColumnEncoding::Text
    } else {
        match single_arg(ty, "Vec"@) {
            Some(item) => if is_text_mapped(item) { ColumnEncoding::TextList } else { ColumnEncoding::Native },
            None => ColumnEncoding::Native,
        }
    }
}

/// How a field of type `ty` is bound into a statement: as text when its
/// (optional) type is not stored as it is, is not JSON and is not a `Vec`,
/// as a list of texts when it is a `Vec` of items kept as text, else as it is.
pub open spec fn bind_encoding(ty: Seq<char>) -> ColumnEncoding {
    let a = analysed_type(ty);
    if !is_simple_spec(a) && !has_prefix(a, "Json<"@) && single_arg(a, "Vec"@) is None {
        ColumnEncoding::Text
    } else {
        match single_arg(ty, "Vec"@) {
            Some(item) => if is_text_mapped(item) { ColumnEncoding::TextList } else { ColumnEncoding::Native },
            None => ColumnEncoding::Native,
        }
    }
}

/// The type a field's values have, looking through an `Option`.
fn analysed_type_exec(ty: &str) -> (r: String)
    ensures
        r@ == analysed_type(ty@),
{
    match get_option_inner_type(ty) {
        Some(x) => x,
        None => owned(ty),
    }
}

/// Whether a type is kept as text.
fn is_text_mapped_exec(t: &str) -> (r: bool)
    ensures
        r == is_text_mapped(t@),
{
    let tv = chars_of(t);
    !is_simple_type(t) && !starts_with(tv.as_slice(), chars_of("Option<").as_slice())
        && !starts_with(tv.as_slice(), chars_of("Vec<").as_slice())
}

/// The encoding of a `Vec` whose items are kept as text, else none.
fn list_encoding(ty: &str) -> (r: ColumnEncoding)
    ensures
        r == match single_arg(ty@, "Vec"@) {
            Some(item) => if is_text_mapped(item) { ColumnEncoding::TextList } else { ColumnEncoding::Native },
            None => ColumnEncoding::Native,
        },
{
    match get_vec_inner_type(ty) {
        Some(item) => if is_text_mapped_exec(item.as_str()) { ColumnEncoding::TextList } else { ColumnEncoding::Native },
        None => ColumnEncoding::Native,
    }
}

/// How a field of type `ty` (as written, without spaces) is read from its row.
pub fn row_column_encoding(ty: &str) -> (r: ColumnEncoding)
    ensures
        r == row_encoding(ty@),
{
    let a = analysed_type_exec(ty);
    if is_text_mapped_exec(a.as_str()) {
        ColumnEncoding::Text
    } else {
        list_encoding(ty)
    }
}

/// How a field of type `ty` (as written, without spaces) is bound into a statement.
pub fn bind_column_encoding(ty: &str) -> (r: ColumnEncoding)
    ensures
        r == bind_encoding(ty@),
{
    let a = analysed_type_exec(ty);
    let av = chars_of(a.as_str());
    if !is_simple_type(a.as_str()) && !starts_with(av.as_slice(), chars_of("Json<").as_slice())
        && get_vec_inner_type(a.as_str()).is_none() {
        ColumnEncoding::Text
    } else {
        list_encoding(ty)
    }
}

/// The type of a field in the row read from the database: `String` (or
/// `Option<String>` for an optional field) for values kept as text,
/// `Vec<String>` for lists of them, else the field's own type.
pub open spec fn row_field_type_spec(ty: Seq<char>) -> Seq<char> {
    match row_encoding(ty) {
        ColumnEncoding::Text => if is_option_spec(ty) { "Option<String>"@ } else { "String"@ },
        ColumnEncoding::TextList => "Vec<String>"@,
        ColumnEncoding::Native => ty,
    }
}

/// The type of a field (as written, without spaces) in the row read from the database.
pub fn row_field_type(ty: &str) -> (r: String)
    ensures
        r@ == row_field_type_spec(ty@),
{
    match row_column_encoding(ty) {
        ColumnEncoding::Text => if is_option_type(ty) { owned("Option<String>") } else { owned("String") },
        ColumnEncoding::TextList => owned("Vec<String>"),
        ColumnEncoding::Native => owned(ty),
    }
}

/// `s` without its spaces.
pub open spec fn without_spaces(s: Seq<char>) -> Seq<char> {
    s.filter(|c: char| c != ' ')
}

/// A type as this module reads it: its printed tokens with the spaces
/// between them removed.
pub fn get_fully_qualified_type_string(printed: &str) -> (r: String)
    ensures
        r@ == without_spaces(printed@),
{
    let cs = chars_of(printed);
    let mut out: Vec<char> = Vec::new();
    let mut i: usize = 0;
    while i < cs.len()
        invariant
            i <= cs@.len(),
            cs@ == printed@,
            out@ == without_spaces(cs@.take(i as int)),
        decreases cs@.len() - i,
    {
        proof {
            assert(cs@.take(i + 1).drop_last() =~= cs@.take(i as int));
            reveal(Seq::filter);
        }
        if cs[i] != ' ' {
            out.push(cs[i]);
        }
        i = i + 1;
    }
    assert(cs@.take(cs@.len() as int) =~= cs@);
    crate::text::string_of(out.as_slice())
}


/// A type without `::` is its own last segment.
proof fn lemma_no_path_sep(s: Seq<char>, n: int)
    requires
        n <= s.len(),
        forall|i: int| 0 <= i < s.len() ==> s[i] != ':',
    ensures
        last_path_sep(s, n) is None,
    decreases n,
{
    if n >= 2 {
        lemma_no_path_sep(s, n - 1);
    }
}

/// The SQL type of a scalar field type written without a path, whatever
/// vector dimension the field declares.
proof fn lemma_plain_scalar(t: Seq<char>, dim: Option<usize>)
    requires
        t.len() >= 1,
        t[0] != 'V' || (t.len() >= 4 && t[3] != '<'),
        forall|i: int| 0 <= i < t.len() ==> t[i] != ':',
    ensures
        sql_type_spec(t, dim) == scalar_sql(t, dim),
{
    lemma_no_path_sep(t, t.len() as int);
    reveal_strlit("Vec<");
    reveal_strlit("Vec<u8>");
    reveal_strlit("Vec<::sqlx::types::Uuid>");
    reveal_strlit("Vec<sqlx::types::Uuid>");
    reveal_strlit("Vec<Uuid>");
    reveal_strlit("Vec<String>");
    reveal_strlit("Vec<std::string::String>");
    reveal_strlit("Vec");
    assert("Vec"@ + "<"@ =~= "Vec<"@) by { reveal_strlit("<"); }
    assert(last_segment(t) == t);
    assert(!has_prefix(t, "Vec<"@)) by {
        if has_prefix(t, "Vec<"@) {
            assert(t.take(4)[0] == t[0]);
            assert(t.take(4)[3] == t[3]);
        }
    }
}

/// A type not starting as a JSON wrapper does is not one.
proof fn lemma_not_json(t: Seq<char>)
    requires
        t.len() >= 1,
        t[0] != 'J',
        t[0] != ':',
        t[0] != 's',
    ensures
        !is_json_spec(t),
{
    reveal_strlit("Json<");
    reveal_strlit("::sqlx::types::Json<");
    reveal_strlit("sqlx::types::Json<");
    if t.len() >= 5 {
        assert(t.take(5)[0] == t[0]);
    }
    if t.len() >= 18 {
        assert(t.take(18)[0] == t[0]);
    }
    if t.len() >= 20 {
        assert(t.take(20)[0] == t[0]);
    }
}

/// The SQL column types of the plain field types: text, numbers, booleans,
/// ids and times map to their SQL types, byte lists to `BYTEA`, id and text
/// lists to `UUID[]` and `TEXT[]`, whatever vector dimension is declared;
/// a vector to `VECTOR` of its declared dimension, and to none without one.
pub proof fn law_plain_sql_types(dim: Option<usize>)
    ensures
        sql_type_spec("String"@, dim) == Ok::<Seq<char>, SqlTypeError>("TEXT"@),
        sql_type_spec("i32"@, dim) == Ok::<Seq<char>, SqlTypeError>("INTEGER"@),
        sql_type_spec("u32"@, dim) == Ok::<Seq<char>, SqlTypeError>("BIGINT"@),
        sql_type_spec("i64"@, dim) == Ok::<Seq<char>, SqlTypeError>("BIGINT"@),
        sql_type_spec("u64"@, dim) == Ok::<Seq<char>, SqlTypeError>("BIGINT"@),
        sql_type_spec("isize"@, dim) == Ok::<Seq<char>, SqlTypeError>("BIGINT"@),
        sql_type_spec("usize"@, dim) == Ok::<Seq<char>, SqlTypeError>("BIGINT"@),
        sql_type_spec("f32"@, dim) == Ok::<Seq<char>, SqlTypeError>("REAL"@),
        sql_type_spec("f64"@, dim) == Ok::<Seq<char>, SqlTypeError>("DOUBLE PRECISION"@),
        sql_type_spec("bool"@, dim) == Ok::<Seq<char>, SqlTypeError>("BOOLEAN"@),
        sql_type_spec("Uuid"@, dim) == Ok::<Seq<char>, SqlTypeError>("UUID"@),
        sql_type_spec("DateTime<Utc>"@, dim) == Ok::<Seq<char>, SqlTypeError>("TIMESTAMPTZ"@),
        sql_type_spec("NaiveDateTime"@, dim) == Ok::<Seq<char>, SqlTypeError>("TIMESTAMP"@),
        sql_type_spec("NaiveDate"@, dim) == Ok::<Seq<char>, SqlTypeError>("DATE"@),
        sql_type_spec("NaiveTime"@, dim) == Ok::<Seq<char>, SqlTypeError>("TIME"@),
        sql_type_spec("Vec<u8>"@, dim) == Ok::<Seq<char>, SqlTypeError>("BYTEA"@),
        sql_type_spec("Vec<Uuid>"@, dim) == Ok::<Seq<char>, SqlTypeError>("UUID[]"@),
        sql_type_spec("Vec<String>"@, dim) == Ok::<Seq<char>, SqlTypeError>("TEXT[]"@),
        sql_type_spec("Vector"@, dim) == match dim {
            Some(d) => Ok::<Seq<char>, SqlTypeError>("VECTOR("@ + crate::text::decimal(d as nat) + ")"@),
            None => Err::<Seq<char>, SqlTypeError>(SqlTypeError::MissingDimension),
        },
{
    reveal_strlit("String");
    reveal_strlit("std::string::String");
    reveal_strlit("i32");
    reveal_strlit("u32");
    reveal_strlit("i64");
    reveal_strlit("u64");
    reveal_strlit("isize");
    reveal_strlit("usize");
    reveal_strlit("f32");
    reveal_strlit("f64");
    reveal_strlit("bool");
    reveal_strlit("Uuid");
    reveal_strlit("::sqlx::types::Uuid");
    reveal_strlit("sqlx::types::Uuid");
    reveal_strlit("Vector");
    reveal_strlit("::pgvector::Vector");
    reveal_strlit("pgvector::Vector");
    reveal_strlit("DateTime<Utc>");
    reveal_strlit("::chrono::DateTime<::chrono::Utc>");
    reveal_strlit("chrono::DateTime<chrono::Utc>");
    reveal_strlit("NaiveDateTime");
    reveal_strlit("::chrono::NaiveDateTime");
    reveal_strlit("chrono::NaiveDateTime");
    reveal_strlit("NaiveDate");
    reveal_strlit("::chrono::NaiveDate");
    reveal_strlit("chrono::NaiveDate");
    reveal_strlit("NaiveTime");
    reveal_strlit("::chrono::NaiveTime");
    reveal_strlit("chrono::NaiveTime");
    reveal_strlit("Json<");
    reveal_strlit("::sqlx::types::Json<");
    reveal_strlit("sqlx::types::Json<");
    reveal_strlit("Vec<u8>");
    reveal_strlit("Vec<::sqlx::types::Uuid>");
    reveal_strlit("Vec<sqlx::types::Uuid>");
    reveal_strlit("Vec<Uuid>");
    reveal_strlit("Vec<String>");
    reveal_strlit("Vec<std::string::String>");
    lemma_plain_scalar("String"@, dim);
    lemma_plain_scalar("i32"@, dim);
    lemma_plain_scalar("u32"@, dim);
    lemma_plain_scalar("i64"@, dim);
    lemma_plain_scalar("u64"@, dim);
    lemma_plain_scalar("isize"@, dim);
    lemma_plain_scalar("usize"@, dim);
    lemma_plain_scalar("f32"@, dim);
    lemma_plain_scalar("f64"@, dim);
    lemma_plain_scalar("bool"@, dim);
    lemma_plain_scalar("Vector"@, dim);
    assert("f64"@[0] != "i64"@[0]);
    assert("f64"@[0] != "u64"@[0]);
    assert("f64"@[1] != "f32"@[1]);
    lemma_plain_scalar("Uuid"@, dim);
    lemma_plain_scalar("DateTime<Utc>"@, dim);
    lemma_not_json("DateTime<Utc>"@);
    lemma_not_json("NaiveDateTime"@);
    lemma_not_json("NaiveDate"@);
    lemma_not_json("NaiveTime"@);
    assert("u32"@[0] != "i32"@[0]);
    assert("NaiveTime"@[5] != "NaiveDate"@[5]);
    assert("NaiveDate"@[0] != "DateTime<Utc>"@[0]);
    assert("NaiveTime"@[0] != "DateTime<Utc>"@[0]);
    lemma_plain_scalar("NaiveDateTime"@, dim);
    lemma_plain_scalar("NaiveDate"@, dim);
    lemma_plain_scalar("NaiveTime"@, dim);
}

} // verus!
