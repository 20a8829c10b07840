//! Table schemas of stored records: the SQL that creates, fills, updates and
//! deletes a table's rows, and the plan that brings an existing table in line
//! with the record's fields.
use vstd::prelude::*;
use crate::text::{chars_of, concat, decimal, decimal_string, has_prefix, has_suffix, join, join_strings, owned, split_chars, split_on, str_eq, string_from, string_of, trim, trim_str};
use crate::text_enum::strings_view;
use crate::type_map::{bind_column_encoding, bind_encoding, row_column_encoding, row_encoding, row_field_type, row_field_type_spec, ColumnEncoding};

verus! {

broadcast use vstd::string::group_string_axioms;

/// A table a column refers to, and the record type stored there.
#[derive(Debug, Clone)]
pub struct ForeignKeyInfo {
    pub referenced_table: String,
    pub related_rust_type: String,
}

/// A table a list of ids refers to, and the record type stored there.
#[derive(Debug, Clone)]
pub struct ForeignKeyManyInfo {
    pub referenced_table: String,
    pub related_rust_type: String,
}

/// A field of a stored record: its name, its Rust type (as written, without
/// spaces), whether it is optional, the primary key or not stored, its SQL
/// type, the tables it refers to, and whether it is unique or indexed.
#[derive(Debug, Clone)]
pub struct FieldData {
    pub name: String,
    pub ty: String,
    pub is_option: bool,
    pub is_pk: bool,
    pub is_skipped: bool,
    pub sql_type: String,
    pub foreign_key: Option<ForeignKeyInfo>,
    pub foreign_key_many: Option<ForeignKeyManyInfo>,
    pub unique: bool,
    pub indexed: bool,
    pub vector_dimension: Option<usize>,
}

// ---------------------------------------------------------------------------
// Specification
// ---------------------------------------------------------------------------

/// `"name"`.
pub open spec fn quoted(name: Seq<char>) -> Seq<char> {
    "\""@ + name + "\""@
}

/// The stored fields, in order.
pub open spec fn active(fs: Seq<FieldData>) -> Seq<FieldData> {
    fs.filter(|f: FieldData| !f.is_skipped)
}

/// A timestamp kept by the database.
pub open spec fn is_timestamp_name(n: Seq<char>) -> bool {
    n == "created_at"@ || n == "updated_at"@
}

/// A stored field the record writes itself (not the key, not a timestamp).
pub open spec fn is_written(f: FieldData) -> bool {
    !f.is_skipped && !is_timestamp_name(f.name@) && !f.is_pk
}

/// The fields the record writes itself, in order.
pub open spec fn written(fs: Seq<FieldData>) -> Seq<FieldData> {
    fs.filter(|f: FieldData| is_written(f))
}

/// The quoted names of fields.
pub open spec fn quoted_names(fs: Seq<FieldData>) -> Seq<Seq<char>> {
    fs.map_values(|f: FieldData| quoted(f.name@))
}

/// The parts of a column definition: name and type, then the key's default,
/// the timestamp type and default, or `NOT NULL` for a required field, then
/// `UNIQUE` when unique.
pub open spec fn column_parts(f: FieldData) -> Seq<Seq<char>> {
    let base = seq![quoted(f.name@), f.sql_type@];
    let with_kind = if f.is_pk {
        base + seq!["PRIMARY KEY"@, "DEFAULT gen_random_uuid()"@]
    } else if is_timestamp_name(f.name@) {
        let idx = if quoted(f.name@) == f.sql_type@ { 0int } else { 1int };
        base.update(idx, "BIGINT"@).push("NOT NULL DEFAULT floor(extract(epoch from now()))"@)
    } else if !f.is_option {
        base.push("NOT NULL"@)
    } else {
        base
    };
    if f.unique { with_kind.push("UNIQUE"@) } else { with_kind }
}

/// A column definition.
pub open spec fn column_def(f: FieldData) -> Seq<char> {
    join(column_parts(f), " "@)
}

/// The index statement of an indexed field.
pub open spec fn index_sql(table: Seq<char>, f: FieldData) -> Seq<char> {
    "CREATE INDEX IF NOT EXISTS \"idx_"@ + table + "_"@ + f.name@ + "\" ON \""@ + table + "\"(\""@ + f.name@ + "\")"@
}

/// The foreign key clause of a field that refers to another table.
pub open spec fn foreign_key_clause(name: Seq<char>, referenced: Seq<char>) -> Seq<char> {
    "FOREIGN KEY (\""@ + name + "\") REFERENCES \""@ + referenced + "\"(\"id\") ON DELETE SET NULL ON UPDATE CASCADE"@
}

/// The foreign key clauses of the stored fields, in order.
pub open spec fn foreign_keys(fs: Seq<FieldData>) -> Seq<Seq<char>>
    decreases fs.len(),
{
    if fs.len() == 0 {
        Seq::empty()
    } else {
        let prev = foreign_keys(fs.drop_last());
        let f = fs.last();
        match f.foreign_key {
            Some(fk) => if f.is_skipped { prev } else { prev.push(foreign_key_clause(f.name@, fk.referenced_table@)) },
            None => prev,
        }
    }
}

/// The index statements of the stored indexed fields, in order.
pub open spec fn index_sqls(table: Seq<char>, fs: Seq<FieldData>) -> Seq<Seq<char>>
    decreases fs.len(),
{
    if fs.len() == 0 {
        Seq::empty()
    } else {
        let prev = index_sqls(table, fs.drop_last());
        let f = fs.last();
        if !f.is_skipped && f.indexed { prev.push(index_sql(table, f)) } else { prev }
    }
}

/// The statement that creates the table: every stored field's column, then
/// the foreign keys.
pub open spec fn create_table_spec(table: Seq<char>, fs: Seq<FieldData>) -> Seq<char> {
    "CREATE TABLE IF NOT EXISTS "@ + quoted(table) + " ("@
        + join(active(fs).map_values(|f: FieldData| column_def(f)) + foreign_keys(fs), ", "@) + ")"@
}

/// `$1, $2, ..., $n`.
pub open spec fn placeholders(n: nat) -> Seq<char> {
    join(Seq::new(n, |i: int| "$"@ + decimal((i + 1) as nat)), ", "@)
}

/// The statement that inserts a record and returns the stored row.
pub open spec fn insert_sql_spec(table: Seq<char>, fs: Seq<FieldData>) -> Seq<char> {
    "INSERT INTO "@ + quoted(table) + " ("@ + join(quoted_names(written(fs)), ", "@) + ") VALUES ("@
        + placeholders(written(fs).len()) + ") RETURNING "@ + join(quoted_names(active(fs)), ", "@)
}

/// The `"name" = $i` assignments of the written fields, numbered from 1.
pub open spec fn set_clauses(fs: Seq<FieldData>) -> Seq<Seq<char>> {
    Seq::new(written(fs).len(), |i: int| quoted(written(fs)[i].name@) + " = $"@ + decimal((i + 1) as nat))
}

/// The statement that updates a record by id and returns the stored row (a
/// plain select when nothing is written), and whether it is a select.
pub open spec fn update_sql_spec(table: Seq<char>, fs: Seq<FieldData>) -> (Seq<char>, bool) {
    let all = join(quoted_names(active(fs)), ", "@);
    if written(fs).len() == 0 {
        ("SELECT "@ + all + " FROM "@ + quoted(table) + " WHERE \"id\" = $1"@, true)
    } else {
        (
            "UPDATE "@ + quoted(table) + " SET "@ + join(set_clauses(fs), ", "@) + " WHERE \"id\" = $"@
                + decimal((written(fs).len() + 1) as nat) + " RETURNING "@ + all,
            false,
        )
    }
}

/// Some stored field is named `updated_at`.
pub open spec fn has_updated_at(fs: Seq<FieldData>) -> bool {
    exists|i: int| 0 <= i < fs.len() && !(#[trigger] fs[i]).is_skipped && fs[i].name@ == "updated_at"@
}

/// The statements that recreate the trigger keeping `updated_at` current, or
/// nothing when there is no such field.
pub open spec fn trigger_sql_spec(table: Seq<char>, fs: Seq<FieldData>) -> Seq<char> {
    if has_updated_at(fs) {
        "DROP TRIGGER IF EXISTS set_updated_at_"@ + table + " ON "@ + quoted(table) + "; CREATE TRIGGER set_updated_at_"@
            + table + " BEFORE UPDATE ON "@ + quoted(table)
            + " FOR EACH ROW EXECUTE PROCEDURE set_updated_at_unix_timestamp();"@
    } else {
        Seq::empty()
    }
}

// ---------------------------------------------------------------------------
// Statements
// ---------------------------------------------------------------------------

/// `"name"`.
fn quote_name(name: &str) -> (r: String)
    ensures
        r@ == quoted(name@),
{
    let a = concat("\"", name);
    concat(a.as_str(), "\"")
}

/// A column definition.
fn column_def_exec(f: &FieldData) -> (r: String)
    ensures
        r@ == column_def(*f),
{
    let mut parts: Vec<String> = Vec::new();
    let q = quote_name(f.name.as_str());
    let name_is_type = str_eq(q.as_str(), f.sql_type.as_str());
    parts.push(q);
    parts.push(f.sql_type.clone());
    let ghost base = seq![quoted(f.name@), f.sql_type@];
    assert(strings_view(parts@) =~= base);
    let is_ts = str_eq(f.name.as_str(), "created_at") || str_eq(f.name.as_str(), "updated_at");
    if f.is_pk {
        parts.push(owned("PRIMARY KEY"));
        parts.push(owned("DEFAULT gen_random_uuid()"));
        assert(strings_view(parts@) =~= base + seq!["PRIMARY KEY"@, "DEFAULT gen_random_uuid()"@]);
    } else if is_ts {
        let idx: usize = if name_is_type { 0 } else { 1 };
        parts.set(idx, owned("BIGINT"));
        parts.push(owned("NOT NULL DEFAULT floor(extract(epoch from now()))"));
        assert(strings_view(parts@) =~= base.update(idx as int, "BIGINT"@).push("NOT NULL DEFAULT floor(extract(epoch from now()))"@));
    } else if !f.is_option {
        parts.push(owned("NOT NULL"));
        assert(strings_view(parts@) =~= base.push("NOT NULL"@));
    }
    let ghost before_unique = strings_view(parts@);
    if f.unique {
        parts.push(owned("UNIQUE"));
        assert(strings_view(parts@) =~= before_unique.push("UNIQUE"@));
    }
    assert(parts@.map_values(|p: String| p@) =~= strings_view(parts@));
    join_strings(&parts, " ")
}

/// The index statement of an indexed field.
fn index_sql_exec(table: &str, name: &str) -> (r: String)
    ensures
        forall|f: FieldData| f.name@ == name@ ==> r@ == index_sql(table@, f),
{
    let a = concat("CREATE INDEX IF NOT EXISTS \"idx_", table);
    let b = concat(a.as_str(), "_");
    let c = concat(b.as_str(), name);
    let d = concat(c.as_str(), "\" ON \"");
    let e = concat(d.as_str(), table);
    let g = concat(e.as_str(), "\"(\"");
    let h = concat(g.as_str(), name);
    concat(h.as_str(), "\")")
}

pub(crate) proof fn lemma_active_step(fs: Seq<FieldData>, i: int)
    requires
        0 <= i < fs.len(),
    ensures
        active(fs.take(i + 1)) == if fs[i].is_skipped { active(fs.take(i)) } else { active(fs.take(i)).push(fs[i]) },
        written(fs.take(i + 1)) == if is_written(fs[i]) { written(fs.take(i)) .push(fs[i]) } else { written(fs.take(i)) },
        foreign_keys(fs.take(i + 1)) == match fs[i].foreign_key {
            Some(fk) => if fs[i].is_skipped { foreign_keys(fs.take(i)) } else { foreign_keys(fs.take(i)).push(foreign_key_clause(fs[i].name@, fk.referenced_table@)) },
            None => foreign_keys(fs.take(i)),
        },
        forall|t: Seq<char>| #[trigger] index_sqls(t, fs.take(i + 1)) == if !fs[i].is_skipped && fs[i].indexed { index_sqls(t, fs.take(i)).push(index_sql(t, fs[i])) } else { index_sqls(t, fs.take(i)) },
{
    assert(fs.take(i + 1).drop_last() =~= fs.take(i));
    assert(fs.take(i + 1).last() == fs[i]);
    reveal(Seq::filter);
}

/// The statement that creates the table, and the statements that create its indexes.
pub fn create_table_sql(table: &str, fields: &Vec<FieldData>) -> (r: (String, Vec<String>))
    ensures
        r.0@ == create_table_spec(table@, fields@),
        strings_view(r.1@) == index_sqls(table@, fields@),
{
    let mut defs: Vec<String> = Vec::new();
    let mut fks: Vec<String> = Vec::new();
    let mut indexes: Vec<String> = Vec::new();
    let mut i: usize = 0;
    while i < fields.len()
        invariant
            i <= fields@.len(),
            strings_view(defs@) == active(fields@.take(i as int)).map_values(|f: FieldData| column_def(f)),
            strings_view(fks@) == foreign_keys(fields@.take(i as int)),
            strings_view(indexes@) == index_sqls(table@, fields@.take(i as int)),
        decreases fields@.len() - i,
    {
        proof {
            lemma_active_step(fields@, i as int);
        }
        let f = &fields[i];
        if !f.is_skipped {
            let ghost d0 = strings_view(defs@);
            defs.push(column_def_exec(f));
            assert(strings_view(defs@) =~= d0.push(column_def(*f)));
            assert(active(fields@.take(i + 1)).map_values(|g: FieldData| column_def(g)) =~= d0.push(column_def(*f)));
            if f.indexed {
                let ghost x0 = strings_view(indexes@);
                indexes.push(index_sql_exec(table, f.name.as_str()));
                assert(strings_view(indexes@) =~= x0.push(index_sql(table@, *f)));
            }
            match &f.foreign_key {
                Some(fk) => {
                    let ghost k0 = strings_view(fks@);
                    let a = concat("FOREIGN KEY (\"", f.name.as_str());
                    let b = concat(a.as_str(), "\") REFERENCES \"");
                    let c = concat(b.as_str(), fk.referenced_table.as_str());
                    fks.push(concat(c.as_str(), "\"(\"id\") ON DELETE SET NULL ON UPDATE CASCADE"));
                    assert(strings_view(fks@) =~= k0.push(foreign_key_clause(f.name@, fk.referenced_table@)));
                },
                None => {},
            }
        }
        i = i + 1;
    }
    assert(fields@.take(fields@.len() as int) =~= fields@);
    let ghost dv = strings_view(defs@);
    let mut parts = defs;
    append_strings(&mut parts, &fks);
    assert(parts@.map_values(|p: String| p@) =~= strings_view(parts@));
    let body = join_strings(&parts, ", ");
    let a = concat("CREATE TABLE IF NOT EXISTS ", quote_name(table).as_str());
    let b = concat(a.as_str(), " (");
    let c = concat(b.as_str(), body.as_str());
    (concat(c.as_str(), ")"), indexes)
}

/// Appends the strings of `src` to `dst`.
fn append_strings(dst: &mut Vec<String>, src: &Vec<String>)
    ensures
        strings_view(final(dst)@) == strings_view(old(dst)@) + strings_view(src@),
{
    let ghost d0 = strings_view(dst@);
    let mut j: usize = 0;
    while j < src.len()
        invariant
            j <= src@.len(),
            dst@.len() == d0.len() + j,
            strings_view(dst@) == d0 + strings_view(src@).take(j as int),
        decreases src@.len() - j,
    {
        let ghost before = dst@;
        dst.push(src[j].clone());
        proof {
            assert(dst@[before.len() as int]@ == src@[j as int]@);
            assert(strings_view(dst@) =~= strings_view(before).push(strings_view(src@)[j as int]));
        }
        j = j + 1;
        assert(strings_view(dst@) =~= d0 + strings_view(src@).take(j as int));
    }
    assert(strings_view(src@).take(src@.len() as int) =~= strings_view(src@));
}

/// The quoted names of the stored fields, and of the fields written.
fn column_lists(fields: &Vec<FieldData>) -> (r: (Vec<String>, Vec<String>))
    ensures
        strings_view(r.0@) == quoted_names(active(fields@)),
        strings_view(r.1@) == quoted_names(written(fields@)),
{
    let mut all: Vec<String> = Vec::new();
    let mut own: Vec<String> = Vec::new();
    let mut i: usize = 0;
    while i < fields.len()
        invariant
            i <= fields@.len(),
            strings_view(all@) == quoted_names(active(fields@.take(i as int))),
            strings_view(own@) == quoted_names(written(fields@.take(i as int))),
        decreases fields@.len() - i,
    {
        proof {
            lemma_active_step(fields@, i as int);
        }
        let f = &fields[i];
        if !f.is_skipped {
            let ghost a0 = strings_view(all@);
            all.push(quote_name(f.name.as_str()));
            assert(strings_view(all@) =~= a0.push(quoted(f.name@)));
            assert(quoted_names(active(fields@.take(i + 1))) =~= a0.push(quoted(f.name@)));
            let is_ts = str_eq(f.name.as_str(), "created_at") || str_eq(f.name.as_str(), "updated_at");
            if !is_ts && !f.is_pk {
                let ghost o0 = strings_view(own@);
                own.push(quote_name(f.name.as_str()));
                assert(strings_view(own@) =~= o0.push(quoted(f.name@)));
                assert(quoted_names(written(fields@.take(i + 1))) =~= o0.push(quoted(f.name@)));
            }
        }
        i = i + 1;
    }
    assert(fields@.take(fields@.len() as int) =~= fields@);
    (all, own)
}

/// `$1, ..., $n`.
fn placeholders_exec(n: usize) -> (r: String)
    ensures
        r@ == placeholders(n as nat),
{
    let mut ps: Vec<String> = Vec::new();
    let mut i: usize = 0;
    while i < n
        invariant
            i <= n,
            strings_view(ps@) == Seq::new(i as nat, |k: int| "$"@ + decimal((k + 1) as nat)),
        decreases n - i,
    {
        let ghost before = ps@;
        ps.push(concat("$", decimal_string((i + 1) as u64).as_str()));
        proof {
            assert(strings_view(ps@) =~= strings_view(before).push("$"@ + decimal((i + 1) as nat)));
        }
        i = i + 1;
        assert(strings_view(ps@) =~= Seq::new(i as nat, |k: int| "$"@ + decimal((k + 1) as nat)));
    }
    assert(ps@.map_values(|p: String| p@) =~= strings_view(ps@));
    join_strings(&ps, ", ")
}

/// The statement that inserts a record and returns the stored row.
pub fn insert_sql(table: &str, fields: &Vec<FieldData>) -> (r: String)
    ensures
        r@ == insert_sql_spec(table@, fields@),
{
    let (all, own) = column_lists(fields);
    assert(own@.map_values(|p: String| p@) =~= strings_view(own@));
    assert(all@.map_values(|p: String| p@) =~= strings_view(all@));
    let a = concat("INSERT INTO ", quote_name(table).as_str());
    let b = concat(a.as_str(), " (");
    let c = concat(b.as_str(), join_strings(&own, ", ").as_str());
    let d = concat(c.as_str(), ") VALUES (");
    let e = concat(d.as_str(), placeholders_exec(own.len()).as_str());
    let g = concat(e.as_str(), ") RETURNING ");
    concat(g.as_str(), join_strings(&all, ", ").as_str())
}

/// The statement that updates a record by id and returns the stored row, and
/// whether it is a plain select.
pub fn update_sql(table: &str, fields: &Vec<FieldData>) -> (r: (String, bool))
    requires
        fields@.len() < usize::MAX,
    ensures
        (r.0@, r.1) == update_sql_spec(table@, fields@),
{
    let (all, own) = column_lists(fields);
    assert(all@.map_values(|p: String| p@) =~= strings_view(all@));
    let all_text = join_strings(&all, ", ");
    let ghost wf = written(fields@);
    proof {
        fields@.lemma_filter_len(|f: FieldData| is_written(f));
    }
    assert(strings_view(own@).len() == own@.len());
    assert(quoted_names(wf).len() == wf.len());
    if own.len() == 0 {
        let a = concat("SELECT ", all_text.as_str());
        let b = concat(a.as_str(), " FROM ");
        let c = concat(b.as_str(), quote_name(table).as_str());
        return (concat(c.as_str(), " WHERE \"id\" = $1"), true);
    }
    let mut sets: Vec<String> = Vec::new();
    let mut i: usize = 0;
    while i < own.len()
        invariant
            i <= own@.len(),
            strings_view(own@) == quoted_names(wf),
            own@.len() == wf.len(),
            wf == written(fields@),
            strings_view(sets@) == set_clauses(fields@).take(i as int),
        decreases own@.len() - i,
    {
        assert(strings_view(own@)[i as int] == own@[i as int]@);
        assert(quoted_names(wf)[i as int] == quoted(wf[i as int].name@));
        let s = concat(own[i].as_str(), " = $");
        let ghost before = sets@;
        sets.push(concat(s.as_str(), decimal_string((i + 1) as u64).as_str()));
        proof {
            assert(set_clauses(fields@)[i as int] == quoted(wf[i as int].name@) + " = $"@ + decimal((i + 1) as nat));
            assert(strings_view(sets@) =~= strings_view(before).push(set_clauses(fields@)[i as int]));
        }
        i = i + 1;
        assert(strings_view(sets@) =~= set_clauses(fields@).take(i as int));
    }
    assert(set_clauses(fields@).take(own@.len() as int) =~= set_clauses(fields@));
    assert(sets@.map_values(|p: String| p@) =~= strings_view(sets@));
    let a = concat("UPDATE ", quote_name(table).as_str());
    let b = concat(a.as_str(), " SET ");
    let c = concat(b.as_str(), join_strings(&sets, ", ").as_str());
    let d = concat(c.as_str(), " WHERE \"id\" = $");
    let e = concat(d.as_str(), decimal_string((own.len() + 1) as u64).as_str());
    let g = concat(e.as_str(), " RETURNING ");
    (concat(g.as_str(), all_text.as_str()), false)
}

/// The statement that deletes a record by id.
pub fn delete_sql(table: &str) -> (r: String)
    ensures
        r@ == "DELETE FROM "@ + quoted(table@) + " WHERE \"id\" = $1"@,
{
    let a = concat("DELETE FROM ", quote_name(table).as_str());
    concat(a.as_str(), " WHERE \"id\" = $1")
}

/// The statement that drops the table and what depends on it.
pub fn drop_table_sql(table: &str) -> (r: String)
    ensures
        r@ == "DROP TABLE IF EXISTS "@ + quoted(table@) + " CASCADE"@,
{
    let a = concat("DROP TABLE IF EXISTS ", quote_name(table).as_str());
    concat(a.as_str(), " CASCADE")
}

/// Whether some stored field is named `updated_at`.
pub fn has_updated_at_field(fields: &Vec<FieldData>) -> (r: bool)
    ensures
        r == has_updated_at(fields@),
{
    let mut i: usize = 0;
    while i < fields.len()
        invariant
            i <= fields@.len(),
            forall|k: int| 0 <= k < i ==> !(!(#[trigger] fields@[k]).is_skipped && fields@[k].name@ == "updated_at"@),
        decreases fields@.len() - i,
    {
        if !fields[i].is_skipped && str_eq(fields[i].name.as_str(), "updated_at") {
            assert(!fields@[i as int].is_skipped && fields@[i as int].name@ == "updated_at"@);
            return true;
        }
        i = i + 1;
    }
    false
}

/// The statements that recreate the `updated_at` trigger, or nothing.
pub fn trigger_sql(table: &str, fields: &Vec<FieldData>) -> (r: String)
    ensures
        r@ == trigger_sql_spec(table@, fields@),
{
    if has_updated_at_field(fields) {
        let q = quote_name(table);
        let a = concat("DROP TRIGGER IF EXISTS set_updated_at_", table);
        let b = concat(a.as_str(), " ON ");
        let c = concat(b.as_str(), q.as_str());
        let d = concat(c.as_str(), "; CREATE TRIGGER set_updated_at_");
        let e = concat(d.as_str(), table);
        let g = concat(e.as_str(), " BEFORE UPDATE ON ");
        let h = concat(g.as_str(), q.as_str());
        concat(h.as_str(), " FOR EACH ROW EXECUTE PROCEDURE set_updated_at_unix_timestamp();")
    } else {
        proof {
            reveal_strlit("");
        }
        owned("")
    }
}

// ---------------------------------------------------------------------------
// Migration
// ---------------------------------------------------------------------------

/// The uppercase of a text, as `str::to_uppercase` gives it (Unicode-wide).
pub uninterp spec fn uppercase_text(s: Seq<char>) -> Seq<char>;

/// `str::to_uppercase`: the Unicode uppercase of the text; ASCII text is
/// uppercased letter by letter.
#[verifier::external_body]
fn to_uppercase(s: &str) -> (r: String)
    ensures
        r@ == uppercase_text(s@),
        (forall|i: int| 0 <= i < s@.len() ==> (#[trigger] s@[i] as int) < 128) ==> r@ == upper(s@),
{
    s.to_uppercase()
}

/// `c` with ASCII lowercase letters made uppercase.
pub open spec fn upper_char(c: char) -> char {
    if 'a' <= c && c <= 'z' {
        ((c as int) - 32) as char
    } else {
        c
    }
}

/// `s` with ASCII lowercase letters made uppercase.
pub open spec fn upper(s: Seq<char>) -> Seq<char> {
    s.map_values(|c: char| upper_char(c))
}

/// `s` without every trailing repetition of `p`.
pub open spec fn strip_suffixes(s: Seq<char>, p: Seq<char>) -> Seq<char>
    decreases s.len(),
{
    if p.len() > 0 && has_suffix(s, p) {
        strip_suffixes(s.take(s.len() - p.len()), p)
    } else {
        s
    }
}

/// `s` without its leading run of `c`.
pub open spec fn strip_leading(s: Seq<char>, c: char) -> Seq<char>
    decreases s.len(),
{
    if s.len() > 0 && s[0] == c {
        strip_leading(s.skip(1), c)
    } else {
        s
    }
}

/// The part of `s` before its first `(` or `[`.
pub open spec fn before_bracket(s: Seq<char>) -> Seq<char>
    decreases s.len(),
{
    if s.len() == 0 {
        s
    } else if s[0] == '(' || s[0] == '[' {
        Seq::empty()
    } else {
        seq![s[0]] + before_bracket(s.skip(1))
    }
}

/// The database's names for the struct's base types.
pub open spec fn known_alias(base: Seq<char>, db: Seq<char>) -> bool {
    ||| base == "BIGINT"@ && db == "INT8"@
    ||| base == "INTEGER"@ && db == "INT4"@
    ||| base == "REAL"@ && db == "FLOAT4"@
    ||| base == "BOOLEAN"@ && db == "BOOL"@
    ||| base == "DOUBLE PRECISION"@ && db == "FLOAT8"@
    ||| base == "TEXT"@ && has_prefix(db, "VARCHAR"@)
}

/// A column type the struct expects agrees with the database's, looking at
/// most `levels` array levels deep: both trimmed and uppercased, an array
/// agrees with an array type (`_` prefix) of an agreeing element type;
/// otherwise the database type starts with the struct type's base (the part
/// before `(` or `[`), or is its known alias.
pub open spec fn types_equiv_within(struct_type: Seq<char>, db_type: Seq<char>, levels: nat) -> bool
    decreases levels,
{
    let su = uppercase_text(trim(struct_type));
    let du = uppercase_text(trim(db_type));
    if has_suffix(su, "[]"@) && du.len() > 0 && du[0] == '_' {
        if levels == 0 {
            false
        } else {
            types_equiv_within(strip_suffixes(su, "[]"@), strip_leading(du, '_'), (levels - 1) as nat)
        }
    } else {
        let base = trim(before_bracket(su));
        has_prefix(du, base) || known_alias(base, du)
    }
}

/// A column type the struct expects agrees with the database's, through as
/// many array levels as the struct type has characters (each level takes at
/// least its `[]`, so this reaches every level of a type that uppercasing
/// does not lengthen).
pub open spec fn types_equiv(struct_type: Seq<char>, db_type: Seq<char>) -> bool {
    types_equiv_within(struct_type, db_type, struct_type.len())
}

/// A column as the database reports it: name, type (in capitals) and whether it is nullable.
#[derive(Debug, Clone)]
pub struct DbColumn {
    pub name: String,
    pub udt_type: String,
    pub nullable: bool,
}

/// A column as the database reports it, from `information_schema` values.
pub fn db_column(name: String, udt_name: &str, is_nullable: &str) -> (r: DbColumn)
    ensures
        r.name == name,
        r.udt_type@ == uppercase_text(udt_name@),
        r.nullable == (is_nullable@ == "YES"@),
{
    DbColumn { name, udt_type: to_uppercase(udt_name), nullable: str_eq(is_nullable, "YES") }
}

/// Whether a struct column type agrees with a database column type, at most
/// `levels` array levels deep.
fn types_equiv_exec(struct_type: &str, db_type_raw: &str, levels: usize) -> (r: bool)
    ensures
        r == types_equiv_within(struct_type@, db_type_raw@, levels as nat),
    decreases levels,
{
    let su = to_uppercase(trim_str(struct_type).as_str());
    let du = to_uppercase(trim_str(db_type_raw).as_str());
    let sv = chars_of(su.as_str());
    let dv = chars_of(du.as_str());
    let brackets = chars_of("[]");
    proof {
        reveal_strlit("[]");
    }
    if crate::text::ends_with(sv.as_slice(), brackets.as_slice()) && dv.len() > 0 && dv[0] == '_' {
        if levels == 0 {
            return false;
        }
        let mut end = sv.len();
        assert(sv@.take(sv@.len() as int) =~= sv@);
        assert("[]"@ =~= seq!['[', ']']);
        while end >= 2 && sv[end - 2] == '[' && sv[end - 1] == ']'
            invariant
                end <= sv@.len(),
                "[]"@ == seq!['[', ']'],
                strip_suffixes(sv@, "[]"@) == strip_suffixes(sv@.take(end as int), "[]"@),
            decreases end,
        {
            let ghost t = sv@.take(end as int);
            assert(t.skip(t.len() - 2) =~= "[]"@);
            assert(t.take(t.len() - 2) =~= sv@.take(end - 2));
            end = end - 2;
        }
        proof {
            let t = sv@.take(end as int);
            if has_suffix(t, "[]"@) {
                assert(t[t.len() - 2] == "[]"@[0]);
                assert(t[t.len() - 1] == "[]"@[1]);
            }
        }
        let mut start: usize = 0;
        assert(dv@.skip(0) =~= dv@);
        while start < dv.len() && dv[start] == '_'
            invariant
                start <= dv@.len(),
                strip_leading(dv@, '_') == strip_leading(dv@.skip(start as int), '_'),
            decreases dv@.len() - start,
        {
            assert(dv@.skip(start as int).skip(1) =~= dv@.skip(start + 1));
            start = start + 1;
        }
        let inner_s = string_from(sv.as_slice(), 0, end);
        let inner_d = string_from(dv.as_slice(), start, dv.len());
        assert(dv@.subrange(start as int, dv@.len() as int) =~= dv@.skip(start as int));
        return types_equiv_exec(inner_s.as_str(), inner_d.as_str(), levels - 1);
    }
    let mut k: usize = 0;
    assert(sv@.take(0) =~= Seq::<char>::empty());
    assert(sv@.skip(0) =~= sv@);
    while k < sv.len() && sv[k] != '(' && sv[k] != '['
        invariant
            k <= sv@.len(),
            before_bracket(sv@) == sv@.take(k as int) + before_bracket(sv@.skip(k as int)),
        decreases sv@.len() - k,
    {
        assert(sv@.skip(k as int).skip(1) =~= sv@.skip(k + 1));
        assert(sv@.take(k + 1) =~= sv@.take(k as int) + seq![sv@[k as int]]);
        k = k + 1;
    }
    assert(sv@.take(0) =~= Seq::<char>::empty());
    assert(before_bracket(sv@.skip(k as int)) =~= Seq::<char>::empty());
    let base = trim_str(string_from(sv.as_slice(), 0, k).as_str());
    let bv = chars_of(base.as_str());
    if crate::text::starts_with(dv.as_slice(), bv.as_slice()) {
        return true;
    }
    (str_eq(base.as_str(), "BIGINT") && str_eq(du.as_str(), "INT8"))
        || (str_eq(base.as_str(), "INTEGER") && str_eq(du.as_str(), "INT4"))
        || (str_eq(base.as_str(), "REAL") && str_eq(du.as_str(), "FLOAT4"))
        || (str_eq(base.as_str(), "BOOLEAN") && str_eq(du.as_str(), "BOOL"))
        || (str_eq(base.as_str(), "DOUBLE PRECISION") && str_eq(du.as_str(), "FLOAT8"))
        || (str_eq(base.as_str(), "TEXT") && crate::text::starts_with(dv.as_slice(), chars_of("VARCHAR").as_slice()))
}

/// Whether a struct column type agrees with a database column type.
pub fn are_sql_types_equivalent(struct_type: &str, db_type_raw: &str) -> (r: bool)
    ensures
        r == types_equiv(struct_type@, db_type_raw@),
{
    let n = crate::text::chars_of(struct_type).len();
    types_equiv_exec(struct_type, db_type_raw, n)
}

/// The default a new required column of this type is filled with: by the
/// type in capitals, an empty array, empty text, zero, false, an empty JSON
/// object, the nil id, a zero vector of the field's dimension, the epoch, or
/// nothing.
pub open spec fn sql_default_spec(sql_type: Seq<char>, vector_dimension: Option<usize>) -> Seq<char> {
    let u = uppercase_text(sql_type);
    if has_suffix(u, "[]"@) {
        "DEFAULT '{}'"@
    } else if has_prefix(u, "TEXT"@) || has_prefix(u, "VARCHAR"@) {
        "DEFAULT ''"@
    } else if has_prefix(u, "INT"@) || has_prefix(u, "BIGINT"@) || has_prefix(u, "REAL"@) || has_prefix(u, "DOUBLE"@) {
        "DEFAULT 0"@
    } else if has_prefix(u, "BOOL"@) {
        "DEFAULT false"@
    } else if has_prefix(u, "JSON"@) {
        "DEFAULT '{}'"@
    } else if has_prefix(u, "UUID"@) {
        "DEFAULT '00000000-0000-0000-0000-000000000000'"@
    } else if has_prefix(u, "VECTOR"@) {
        let dim = match vector_dimension { Some(d) => d as nat, None => 0 };
        "DEFAULT '["@ + join(Seq::new(dim, |i: int| "0"@), ","@) + "]'"@
    } else if crate::text::find_from(u, "TIMESTAMP"@, 0) is Some {
        "DEFAULT to_timestamp(0)"@
    } else {
        Seq::empty()
    }
}

/// The default a new required column of this type is filled with.
pub fn get_sql_default_value(field: &FieldData) -> (r: String)
    ensures
        r@ == sql_default_spec(field.sql_type@, field.vector_dimension),
{
    let u = to_uppercase(field.sql_type.as_str());
    let uv = chars_of(u.as_str());
    let us = uv.as_slice();
    if crate::text::ends_with(us, chars_of("[]").as_slice()) {
        owned("DEFAULT '{}'")
    } else if crate::text::starts_with(us, chars_of("TEXT").as_slice()) || crate::text::starts_with(us, chars_of("VARCHAR").as_slice()) {
        owned("DEFAULT ''")
    } else if crate::text::starts_with(us, chars_of("INT").as_slice()) || crate::text::starts_with(us, chars_of("BIGINT").as_slice())
        || crate::text::starts_with(us, chars_of("REAL").as_slice()) || crate::text::starts_with(us, chars_of("DOUBLE").as_slice()) {
        owned("DEFAULT 0")
    } else if crate::text::starts_with(us, chars_of("BOOL").as_slice()) {
        owned("DEFAULT false")
    } else if crate::text::starts_with(us, chars_of("JSON").as_slice()) {
        owned("DEFAULT '{}'")
    } else if crate::text::starts_with(us, chars_of("UUID").as_slice()) {
        owned("DEFAULT '00000000-0000-0000-0000-000000000000'")
    } else if crate::text::starts_with(us, chars_of("VECTOR").as_slice()) {
        let dim: usize = match field.vector_dimension {
            Some(d) => d,
            None => 0,
        };
        let mut zeros: Vec<String> = Vec::new();
        let mut i: usize = 0;
        while i < dim
            invariant
                i <= dim,
                strings_view(zeros@) == Seq::new(i as nat, |k: int| "0"@),
            decreases dim - i,
        {
            let ghost z0 = strings_view(zeros@);
            zeros.push(owned("0"));
            assert(strings_view(zeros@) =~= z0.push("0"@));
            i = i + 1;
            assert(strings_view(zeros@) =~= Seq::new(i as nat, |k: int| "0"@));
        }
        assert(zeros@.map_values(|p: String| p@) =~= strings_view(zeros@));
        let a = concat("DEFAULT '[", crate::text::join_strings(&zeros, ",").as_str());
        concat(a.as_str(), "]'")
    } else {
        let t = chars_of("TIMESTAMP");
        match crate::text::find_in(us, t.as_slice(), 0) {
            Some(_) => owned("DEFAULT to_timestamp(0)"),
            None => {
                proof {
                    reveal_strlit("");
                }
                owned("")
            },
        }
    }
}

/// The statement that adds a field's column: `NOT NULL` with the type's
/// default (when it has one) for a required field.
pub open spec fn add_column_spec(table: Seq<char>, f: FieldData) -> Seq<char> {
    let base = seq!["ALTER TABLE "@ + quoted(table), "ADD COLUMN"@, quoted(f.name@), f.sql_type@];
    let d = sql_default_spec(f.sql_type@, f.vector_dimension);
    let parts = if f.is_option {
        base
    } else if d.len() == 0 {
        base.push("NOT NULL"@)
    } else {
        base.push("NOT NULL"@).push(d)
    };
    join(parts, " "@)
}

/// The statement that adds a field's column.
pub fn add_column_sql(table: &str, f: &FieldData) -> (r: String)
    ensures
        r@ == add_column_spec(table@, *f),
{
    let mut parts: Vec<String> = Vec::new();
    parts.push(concat("ALTER TABLE ", quote_name(table).as_str()));
    parts.push(owned("ADD COLUMN"));
    parts.push(quote_name(f.name.as_str()));
    parts.push(f.sql_type.clone());
    let ghost base = seq!["ALTER TABLE "@ + quoted(table@), "ADD COLUMN"@, quoted(f.name@), f.sql_type@];
    assert(strings_view(parts@) =~= base);
    if !f.is_option {
        parts.push(owned("NOT NULL"));
        let d = get_sql_default_value(f);
        if !d.as_str().is_empty() {
            parts.push(d);
            assert(strings_view(parts@) =~= base.push("NOT NULL"@).push(sql_default_spec(f.sql_type@, f.vector_dimension)));
        } else {
            assert(strings_view(parts@) =~= base.push("NOT NULL"@));
        }
    }
    assert(parts@.map_values(|p: String| p@) =~= strings_view(parts@));
    join_strings(&parts, " ")
}

/// The database has a column named `name`.
pub open spec fn db_has(db: Seq<DbColumn>, name: Seq<char>) -> bool {
    exists|i: int| 0 <= i < db.len() && (#[trigger] db[i]).name@ == name
}

/// The stored field named `name` (the last one, should two share it).
pub open spec fn struct_column(fs: Seq<FieldData>, name: Seq<char>) -> Option<FieldData>
    decreases fs.len(),
{
    if fs.len() == 0 {
        None
    } else if !fs.last().is_skipped && fs.last().name@ == name {
        Some(fs.last())
    } else {
        struct_column(fs.drop_last(), name)
    }
}

/// The columns to add: each stored field the database lacks, in field order.
pub open spec fn add_statements(table: Seq<char>, fs: Seq<FieldData>, db: Seq<DbColumn>) -> Seq<Seq<char>>
    decreases fs.len(),
{
    if fs.len() == 0 {
        Seq::empty()
    } else {
        let prev = add_statements(table, fs.drop_last(), db);
        let f = fs.last();
        if !f.is_skipped && !db_has(db, f.name@) { prev.push(add_column_spec(table, f)) } else { prev }
    }
}

/// The database's columns that no stored field has, in the database's order.
pub open spec fn extra_columns(fs: Seq<FieldData>, db: Seq<DbColumn>) -> Seq<Seq<char>>
    decreases db.len(),
{
    if db.len() == 0 {
        Seq::empty()
    } else {
        let prev = extra_columns(fs, db.drop_last());
        let c = db.last();
        if struct_column(fs, c.name@) is None { prev.push(c.name@) } else { prev }
    }
}

/// The statement that drops a column.
pub open spec fn drop_column_spec(table: Seq<char>, name: Seq<char>) -> Seq<char> {
    "ALTER TABLE "@ + quoted(table) + " DROP COLUMN "@ + quoted(name)
}

/// The statements that make each shared column's nullability the field's,
/// in the database's order.
pub open spec fn nullability_statements(table: Seq<char>, fs: Seq<FieldData>, db: Seq<DbColumn>) -> Seq<Seq<char>>
    decreases db.len(),
{
    if db.len() == 0 {
        Seq::empty()
    } else {
        let prev = nullability_statements(table, fs, db.drop_last());
        let c = db.last();
        match struct_column(fs, c.name@) {
            Some(f) => if c.nullable != f.is_option {
                prev.push("ALTER TABLE "@ + quoted(table) + " ALTER COLUMN "@ + quoted(c.name@) + " "@
                    + if f.is_option { "DROP NOT NULL"@ } else { "SET NOT NULL"@ })
            } else {
                prev
            },
            None => prev,
        }
    }
}

/// The shared columns whose database type disagrees with the field's, in the
/// database's order.
pub open spec fn mismatched_columns(fs: Seq<FieldData>, db: Seq<DbColumn>) -> Seq<Seq<char>>
    decreases db.len(),
{
    if db.len() == 0 {
        Seq::empty()
    } else {
        let prev = mismatched_columns(fs, db.drop_last());
        let c = db.last();
        match struct_column(fs, c.name@) {
            Some(f) => if !types_equiv(f.sql_type@, c.udt_type@) { prev.push(c.name@) } else { prev },
            None => prev,
        }
    }
}

/// What bringing an existing table in line takes: the statements to run (new
/// columns, then dropped columns, then nullability changes), the columns whose
/// type disagrees (left as they are), and the extra columns kept because
/// dropping is not allowed.
#[derive(Debug, Clone)]
pub struct MigrationPlan {
    pub alter_statements: Vec<String>,
    pub mismatched_columns: Vec<String>,
    pub kept_columns: Vec<String>,
}

/// The stored field named `name`.
fn struct_column_exec(fields: &Vec<FieldData>, name: &str) -> (r: Option<usize>)
    ensures
        match r {
            Some(k) => k < fields@.len() && struct_column(fields@, name@) == Some(fields@[k as int]),
            None => struct_column(fields@, name@) is None,
        },
{
    let mut i = fields.len();
    assert(fields@.take(i as int) =~= fields@);
    while i > 0
        invariant
            i <= fields@.len(),
            struct_column(fields@, name@) == struct_column(fields@.take(i as int), name@),
        decreases i,
    {
        let ghost t = fields@.take(i as int);
        assert(t.drop_last() =~= fields@.take(i - 1));
        assert(t.last() == fields@[i - 1]);
        if !fields[i - 1].is_skipped && str_eq(fields[i - 1].name.as_str(), name) {
            return Some(i - 1);
        }
        i = i - 1;
    }
    None
}

/// Whether the database has a column named `name`.
fn db_has_exec(db: &Vec<DbColumn>, name: &str) -> (r: bool)
    ensures
        r == db_has(db@, name@),
{
    let mut i: usize = 0;
    while i < db.len()
        invariant
            i <= db@.len(),
            forall|k: int| 0 <= k < i ==> (#[trigger] db@[k]).name@ != name@,
        decreases db@.len() - i,
    {
        if str_eq(db[i].name.as_str(), name) {
            assert(db@[i as int].name@ == name@);
            return true;
        }
        i = i + 1;
    }
    false
}

/// What bringing the table's columns (as the database reports them, one
/// entry per column) in line with the fields takes.
pub fn plan_migration(table: &str, fields: &Vec<FieldData>, allow_column_dropping: bool, db_columns: &Vec<DbColumn>) -> (r: MigrationPlan)
    ensures
        strings_view(r.alter_statements@) == add_statements(table@, fields@, db_columns@) + (if allow_column_dropping {
            extra_columns(fields@, db_columns@).map_values(|n: Seq<char>| drop_column_spec(table@, n))
        } else {
            Seq::empty()
        }) + nullability_statements(table@, fields@, db_columns@),
        strings_view(r.mismatched_columns@) == mismatched_columns(fields@, db_columns@),
        strings_view(r.kept_columns@) == if allow_column_dropping { Seq::empty() } else { extra_columns(fields@, db_columns@) },
{
    let mut adds: Vec<String> = Vec::new();
    let mut i: usize = 0;
    while i < fields.len()
        invariant
            i <= fields@.len(),
            strings_view(adds@) == add_statements(table@, fields@.take(i as int), db_columns@),
        decreases fields@.len() - i,
    {
        let ghost t = fields@.take(i + 1);
        assert(t.drop_last() =~= fields@.take(i as int));
        assert(t.last() == fields@[i as int]);
        let f = &fields[i];
        if !f.is_skipped && !db_has_exec(db_columns, f.name.as_str()) {
            let ghost a0 = strings_view(adds@);
            adds.push(add_column_sql(table, f));
            assert(strings_view(adds@) =~= a0.push(add_column_spec(table@, *f)));
        }
        i = i + 1;
    }
    assert(fields@.take(fields@.len() as int) =~= fields@);
    let mut extras: Vec<String> = Vec::new();
    let mut drops: Vec<String> = Vec::new();
    let mut nulls: Vec<String> = Vec::new();
    let mut mismatches: Vec<String> = Vec::new();
    let mut j: usize = 0;
    while j < db_columns.len()
        invariant
            j <= db_columns@.len(),
            strings_view(extras@) == extra_columns(fields@, db_columns@.take(j as int)),
            strings_view(drops@) == extra_columns(fields@, db_columns@.take(j as int)).map_values(|n: Seq<char>| drop_column_spec(table@, n)),
            strings_view(nulls@) == nullability_statements(table@, fields@, db_columns@.take(j as int)),
            strings_view(mismatches@) == mismatched_columns(fields@, db_columns@.take(j as int)),
        decreases db_columns@.len() - j,
    {
        let ghost t = db_columns@.take(j + 1);
        assert(t.drop_last() =~= db_columns@.take(j as int));
        assert(t.last() == db_columns@[j as int]);
        let c = &db_columns[j];
        match struct_column_exec(fields, c.name.as_str()) {
            None => {
                let ghost e0 = strings_view(extras@);
                let ghost d0 = strings_view(drops@);
                extras.push(c.name.clone());
                let a = concat("ALTER TABLE ", quote_name(table).as_str());
                let b = concat(a.as_str(), " DROP COLUMN ");
                drops.push(concat(b.as_str(), quote_name(c.name.as_str()).as_str()));
                assert(strings_view(extras@) =~= e0.push(c.name@));
                assert(strings_view(drops@) =~= d0.push(drop_column_spec(table@, c.name@)));
                assert(strings_view(extras@).map_values(|n: Seq<char>| drop_column_spec(table@, n)) =~= strings_view(drops@));
            },
            Some(k) => {
                let f = &fields[k];
                if !are_sql_types_equivalent(f.sql_type.as_str(), c.udt_type.as_str()) {
                    let ghost m0 = strings_view(mismatches@);
                    mismatches.push(c.name.clone());
                    assert(strings_view(mismatches@) =~= m0.push(c.name@));
                }
                if c.nullable != f.is_option {
                    let ghost n0 = strings_view(nulls@);
                    let a = concat("ALTER TABLE ", quote_name(table).as_str());
                    let b = concat(a.as_str(), " ALTER COLUMN ");
                    let cc = concat(b.as_str(), quote_name(c.name.as_str()).as_str());
                    let d = concat(cc.as_str(), " ");
                    let change = if f.is_option { "DROP NOT NULL" } else { "SET NOT NULL" };
                    nulls.push(concat(d.as_str(), change));
                    assert(strings_view(nulls@) =~= n0.push(
                        "ALTER TABLE "@ + quoted(table@) + " ALTER COLUMN "@ + quoted(c.name@) + " "@
                            + if f.is_option { "DROP NOT NULL"@ } else { "SET NOT NULL"@ },
                    ));
                }
            },
        }
        j = j + 1;
    }
    assert(db_columns@.take(db_columns@.len() as int) =~= db_columns@);
    let ghost av = strings_view(adds@);
    let mut statements = adds;
    if allow_column_dropping {
        append_strings(&mut statements, &drops);
    } else {
        assert(av + Seq::<Seq<char>>::empty() =~= av);
    }
    append_strings(&mut statements, &nulls);
    if allow_column_dropping {
        MigrationPlan { alter_statements: statements, mismatched_columns: mismatches, kept_columns: Vec::new() }
    } else {
        let empty: Vec<String> = Vec::new();
        assert(strings_view(empty@) =~= Seq::<Seq<char>>::empty());
        MigrationPlan { alter_statements: statements, mismatched_columns: mismatches, kept_columns: extras }
    }
}

/// The function the `updated_at` trigger runs, created before a new table.
pub const TRIGGER_FUNCTION_SQL: &'static str = "\n                    CREATE OR REPLACE FUNCTION set_updated_at_unix_timestamp()\n                    RETURNS TRIGGER AS $$\n                    BEGIN NEW.updated_at = floor(extract(epoch from now())); RETURN NEW; END;\n                    $$ language 'plpgsql';\n                    ";

/// The non-blank `;`-separated statements of a script.
pub fn script_statements(script: &str) -> (r: Vec<String>)
    ensures
        strings_view(r@) == split_on(script@, ';').filter(|p: Seq<char>| trim(p).len() > 0),
{
    let cs = chars_of(script);
    let pieces = split_chars(cs.as_slice(), ';');
    let ghost ps = split_on(script@, ';');
    let mut out: Vec<String> = Vec::new();
    let mut i: usize = 0;
    while i < pieces.len()
        invariant
            i <= pieces@.len(),
            pieces@.len() == ps.len(),
            forall|k: int| 0 <= k < pieces@.len() ==> #[trigger] pieces@[k]@ == ps[k],
            strings_view(out@) == ps.take(i as int).filter(|p: Seq<char>| trim(p).len() > 0),
        decreases pieces@.len() - i,
    {
        assert(ps.take(i + 1).drop_last() =~= ps.take(i as int));
        let (a, b) = crate::text::trim_bounds(pieces[i].as_slice());
        let ghost o0 = strings_view(out@);
        if a < b {
            out.push(string_of(pieces[i].as_slice()));
            assert(strings_view(out@) =~= o0.push(ps[i as int]));
        }
        proof {
            reveal(Seq::filter);
        }
        i = i + 1;
    }
    assert(ps.take(ps.len() as int) =~= ps);
    out
}

/// The statements that create a missing table: the trigger function (whose
/// failure is tolerated), the table, its indexes, then the trigger's statements.
pub fn creation_statements(table: &str, fields: &Vec<FieldData>) -> (r: (String, Vec<String>))
    ensures
        r.0@ == TRIGGER_FUNCTION_SQL@,
        strings_view(r.1@) == seq![create_table_spec(table@, fields@)] + index_sqls(table@, fields@)
            + split_on(trigger_sql_spec(table@, fields@), ';').filter(|p: Seq<char>| trim(p).len() > 0),
{
    let (create, indexes) = create_table_sql(table, fields);
    let mut out: Vec<String> = Vec::new();
    out.push(create);
    let ghost c0 = strings_view(out@);
    assert(c0 =~= seq![create_table_spec(table@, fields@)]);
    append_strings(&mut out, &indexes);
    let trig = trigger_sql(table, fields);
    let stmts = script_statements(trig.as_str());
    append_strings(&mut out, &stmts);
    (owned(TRIGGER_FUNCTION_SQL), out)
}

/// The statement that pauses (`ENABLE` false) or resumes the table's
/// `updated_at` trigger around changes.
pub fn trigger_toggle_sql(table: &str, enable: bool) -> (r: String)
    ensures
        r@ == "ALTER TABLE "@ + quoted(table@) + (if enable { " ENABLE TRIGGER "@ } else { " DISABLE TRIGGER "@ })
            + quoted("set_updated_at_"@ + table@),
{
    let a = concat("ALTER TABLE ", quote_name(table).as_str());
    let b = concat(a.as_str(), if enable { " ENABLE TRIGGER " } else { " DISABLE TRIGGER " });
    let name = concat("set_updated_at_", table);
    concat(b.as_str(), quote_name(name.as_str()).as_str())
}

proof fn lemma_no_adds(table: Seq<char>, fs: Seq<FieldData>, db: Seq<DbColumn>)
    requires
        forall|i: int| 0 <= i < fs.len() && !(#[trigger] fs[i]).is_skipped ==> db_has(db, fs[i].name@),
    ensures
        add_statements(table, fs, db).len() == 0,
    decreases fs.len(),
{
    if fs.len() > 0 {
        let init = fs.drop_last();
        assert forall|i: int| 0 <= i < init.len() && !(#[trigger] init[i]).is_skipped implies db_has(db, init[i].name@) by {
            assert(init[i] == fs[i]);
        }
        lemma_no_adds(table, init, db);
        assert(fs.last() == fs[fs.len() - 1]);
    }
}

proof fn lemma_no_extras_or_nulls(table: Seq<char>, fs: Seq<FieldData>, db: Seq<DbColumn>)
    requires
        forall|j: int| 0 <= j < db.len() ==> match struct_column(fs, (#[trigger] db[j]).name@) {
            Some(f) => db[j].nullable == f.is_option,
            None => false,
        },
    ensures
        extra_columns(fs, db).len() == 0,
        nullability_statements(table, fs, db).len() == 0,
    decreases db.len(),
{
    if db.len() > 0 {
        let init = db.drop_last();
        assert forall|j: int| 0 <= j < init.len() implies match struct_column(fs, (#[trigger] init[j]).name@) {
            Some(f) => init[j].nullable == f.is_option,
            None => false,
        } by {
            assert(init[j] == db[j]);
        }
        lemma_no_extras_or_nulls(table, fs, init);
        assert(db.last() == db[db.len() - 1]);
    }
}

/// A table that has a column for every stored field, no other column, and
/// each column's nullability as its field's, needs no statement (whatever
/// dropping allows); type disagreements are only reported.
pub proof fn law_matching_table_needs_no_change(table: Seq<char>, fs: Seq<FieldData>, db: Seq<DbColumn>, allow_column_dropping: bool)
    requires
        forall|i: int| 0 <= i < fs.len() && !(#[trigger] fs[i]).is_skipped ==> db_has(db, fs[i].name@),
        forall|j: int| 0 <= j < db.len() ==> match struct_column(fs, (#[trigger] db[j]).name@) {
            Some(f) => db[j].nullable == f.is_option,
            None => false,
        },
    ensures
        add_statements(table, fs, db) + (if allow_column_dropping {
            extra_columns(fs, db).map_values(|n: Seq<char>| drop_column_spec(table, n))
        } else {
            Seq::empty()
        }) + nullability_statements(table, fs, db) == Seq::<Seq<char>>::empty(),
{
    lemma_no_adds(table, fs, db);
    lemma_no_extras_or_nulls(table, fs, db);
    let whole = add_statements(table, fs, db) + (if allow_column_dropping {
        extra_columns(fs, db).map_values(|n: Seq<char>| drop_column_spec(table, n))
    } else {
        Seq::empty()
    }) + nullability_statements(table, fs, db);
    assert(whole =~= Seq::<Seq<char>>::empty());
}

/// The query that fetches the records a list of ids refers to.
pub fn fetch_many_sql(referenced_table: &str) -> (r: String)
    ensures
        r@ == "SELECT * FROM "@ + quoted(referenced_table@) + " WHERE \"id\" = ANY($1)"@,
{
    let a = concat("SELECT * FROM ", quote_name(referenced_table).as_str());
    concat(a.as_str(), " WHERE \"id\" = ANY($1)")
}


// ---------------------------------------------------------------------------
// Reading rows and binding values
// ---------------------------------------------------------------------------

/// The row read for a record: each stored field with its row type.
pub open spec fn row_fields_spec(fs: Seq<FieldData>) -> Seq<(Seq<char>, Seq<char>)> {
    active(fs).map_values(|f: FieldData| (f.name@, row_field_type_spec(f.ty@)))
}

/// How each field of a record is filled from its row, in field order: a
/// stored field by its encoding, a field that is not stored with its
/// default (`None`).
pub open spec fn row_assignments_spec(fs: Seq<FieldData>) -> Seq<(Seq<char>, Option<ColumnEncoding>)> {
    fs.map_values(|f: FieldData| (f.name@, if f.is_skipped { None } else { Some(row_encoding(f.ty@)) }))
}

/// The values bound into an insert or update, in placeholder order: each
/// written field with its encoding.
pub open spec fn bound_columns_spec(fs: Seq<FieldData>) -> Seq<(Seq<char>, ColumnEncoding)> {
    written(fs).map_values(|f: FieldData| (f.name@, bind_encoding(f.ty@)))
}

/// The view of a list of name and text pairs.
pub open spec fn name_type_view(v: Seq<(String, String)>) -> Seq<(Seq<char>, Seq<char>)> {
    v.map_values(|p: (String, String)| (p.0@, p.1@))
}

/// The fields of the row read for a record, with their types.
fn row_fields(fields: &Vec<FieldData>) -> (r: Vec<(String, String)>)
    ensures
        name_type_view(r@) == row_fields_spec(fields@),
{
    let mut out: Vec<(String, String)> = Vec::new();
    let mut i: usize = 0;
    while i < fields.len()
        invariant
            i <= fields@.len(),
            name_type_view(out@) == row_fields_spec(fields@.take(i as int)),
        decreases fields@.len() - i,
    {
        proof {
            lemma_active_step(fields@, i as int);
        }
        let f = &fields[i];
        if !f.is_skipped {
            let ghost o0 = name_type_view(out@);
            out.push((owned(f.name.as_str()), row_field_type(f.ty.as_str())));
            assert(name_type_view(out@) =~= o0.push((f.name@, row_field_type_spec(f.ty@))));
        }
        assert(row_fields_spec(fields@.take(i + 1)) =~= name_type_view(out@));
        i = i + 1;
    }
    assert(fields@.take(fields@.len() as int) =~= fields@);
    out
}

/// The row a record is read from: its name, and each stored field with its type.
pub struct RowStruct {
    pub name: String,
    pub fields: Vec<(String, String)>,
}

/// The row named `row_struct_name` that a record with these fields is read from.
pub fn generate_row_struct(row_struct_name: &str, fields_data: &Vec<FieldData>) -> (r: RowStruct)
    ensures
        r.name@ == row_struct_name@,
        name_type_view(r.fields@) == row_fields_spec(fields_data@),
{
    RowStruct { name: owned(row_struct_name), fields: row_fields(fields_data) }
}

/// How each field of a record is filled from its row.
pub fn row_assignments(fields: &Vec<FieldData>) -> (r: Vec<(String, Option<ColumnEncoding>)>)
    ensures
        r@.map_values(|p: (String, Option<ColumnEncoding>)| (p.0@, p.1)) == row_assignments_spec(fields@),
{
    let mut out: Vec<(String, Option<ColumnEncoding>)> = Vec::new();
    let mut i: usize = 0;
    while i < fields.len()
        invariant
            i <= fields@.len(),
            out@.map_values(|p: (String, Option<ColumnEncoding>)| (p.0@, p.1)) == row_assignments_spec(fields@.take(i as int)),
        decreases fields@.len() - i,
    {
        let f = &fields[i];
        let how = if f.is_skipped { None } else { Some(row_column_encoding(f.ty.as_str())) };
        let ghost o0 = out@.map_values(|p: (String, Option<ColumnEncoding>)| (p.0@, p.1));
        out.push((owned(f.name.as_str()), how));
        assert(out@.map_values(|p: (String, Option<ColumnEncoding>)| (p.0@, p.1)) =~= o0.push((f.name@, how)));
        assert(row_assignments_spec(fields@.take(i + 1)) =~= o0.push((f.name@, how)));
        i = i + 1;
    }
    assert(fields@.take(fields@.len() as int) =~= fields@);
    out
}

/// The values bound into an insert or update, in placeholder order.
pub fn bound_columns(fields: &Vec<FieldData>) -> (r: Vec<(String, ColumnEncoding)>)
    ensures
        r@.map_values(|p: (String, ColumnEncoding)| (p.0@, p.1)) == bound_columns_spec(fields@),
{
    let mut out: Vec<(String, ColumnEncoding)> = Vec::new();
    let mut i: usize = 0;
    while i < fields.len()
        invariant
            i <= fields@.len(),
            out@.map_values(|p: (String, ColumnEncoding)| (p.0@, p.1)) == bound_columns_spec(fields@.take(i as int)),
        decreases fields@.len() - i,
    {
        proof {
            lemma_active_step(fields@, i as int);
        }
        let f = &fields[i];
        if !f.is_skipped && !(str_eq(f.name.as_str(), "created_at") || str_eq(f.name.as_str(), "updated_at")) && !f.is_pk {
            let how = bind_column_encoding(f.ty.as_str());
            let ghost o0 = out@.map_values(|p: (String, ColumnEncoding)| (p.0@, p.1));
            out.push((owned(f.name.as_str()), how));
            assert(out@.map_values(|p: (String, ColumnEncoding)| (p.0@, p.1)) =~= o0.push((f.name@, how)));
        }
        assert(bound_columns_spec(fields@.take(i + 1)) =~= out@.map_values(|p: (String, ColumnEncoding)| (p.0@, p.1)));
        i = i + 1;
    }
    assert(fields@.take(fields@.len() as int) =~= fields@);
    out
}

/// Each value bound into an insert goes to the column its placeholder
/// stands for: the `k`-th bound value is the `k`-th inserted column, and
/// there are as many values as placeholders.
pub proof fn law_bindings_match_insert_columns(fs: Seq<FieldData>)
    ensures
        bound_columns_spec(fs).len() == written(fs).len(),
        forall|k: int| 0 <= k < written(fs).len() ==>
            quoted(#[trigger] bound_columns_spec(fs)[k].0) == quoted_names(written(fs))[k],
{
}

} // verus!
