use metastable::schema::{
    add_column_sql, are_sql_types_equivalent, create_table_sql, creation_statements, db_column, delete_sql, drop_table_sql, fetch_many_sql,
    has_updated_at_field,
    get_sql_default_value, insert_sql, plan_migration, script_statements, trigger_sql, trigger_toggle_sql, update_sql, DbColumn,
    FieldData, ForeignKeyInfo,
};
use metastable::schema::{bound_columns, generate_row_struct, row_assignments};
use metastable::type_map::{get_fully_qualified_type_string, bind_column_encoding, row_column_encoding, row_field_type, ColumnEncoding, field_data, get_option_inner_type, get_vec_inner_type, is_option_type, is_simple_type, map_rust_type_to_sql, rust_type_sql, SqlTypeError};

fn field(name: &str, sql_type: &str, is_option: bool) -> FieldData {
    FieldData {
        name: name.to_string(),
        ty: String::new(),
        is_option,
        is_pk: name == "id",
        is_skipped: false,
        sql_type: sql_type.to_string(),
        foreign_key: None,
        foreign_key_many: None,
        unique: false,
        indexed: false,
        vector_dimension: None,
    }
}

fn fields() -> Vec<FieldData> {
    let mut owner = field("owner", "UUID", false);
    owner.foreign_key = Some(ForeignKeyInfo { referenced_table: "users".to_string(), related_rust_type: "User".to_string() });
    owner.indexed = true;
    let mut code = field("code", "TEXT", true);
    code.unique = true;
    let mut cache = field("cache", "SKIP", false);
    cache.is_skipped = true;
    vec![field("id", "UUID", false), owner, code, cache, field("created_at", "BIGINT", false), field("updated_at", "BIGINT", false)]
}

#[test]
fn table_statements() {
    let (create, indexes) = create_table_sql("codes", &fields());
    assert_eq!(
        create,
        "CREATE TABLE IF NOT EXISTS \"codes\" (\"id\" UUID PRIMARY KEY DEFAULT gen_random_uuid(), \"owner\" UUID NOT NULL, \"code\" TEXT UNIQUE, \"created_at\" BIGINT NOT NULL DEFAULT floor(extract(epoch from now())), \"updated_at\" BIGINT NOT NULL DEFAULT floor(extract(epoch from now())), FOREIGN KEY (\"owner\") REFERENCES \"users\"(\"id\") ON DELETE SET NULL ON UPDATE CASCADE)"
    );
    assert_eq!(indexes, vec!["CREATE INDEX IF NOT EXISTS \"idx_codes_owner\" ON \"codes\"(\"owner\")".to_string()]);
    assert_eq!(
        insert_sql("codes", &fields()),
        "INSERT INTO \"codes\" (\"owner\", \"code\") VALUES ($1, $2) RETURNING \"id\", \"owner\", \"code\", \"created_at\", \"updated_at\""
    );
    assert_eq!(
        update_sql("codes", &fields()),
        (
            "UPDATE \"codes\" SET \"owner\" = $1, \"code\" = $2 WHERE \"id\" = $3 RETURNING \"id\", \"owner\", \"code\", \"created_at\", \"updated_at\"".to_string(),
            false
        )
    );
    assert_eq!(
        update_sql("t", &vec![field("id", "UUID", false)]),
        ("SELECT \"id\" FROM \"t\" WHERE \"id\" = $1".to_string(), true)
    );
    assert_eq!(delete_sql("codes"), "DELETE FROM \"codes\" WHERE \"id\" = $1");
    assert_eq!(drop_table_sql("codes"), "DROP TABLE IF EXISTS \"codes\" CASCADE");
    assert_eq!(
        trigger_sql("codes", &fields()),
        "DROP TRIGGER IF EXISTS set_updated_at_codes ON \"codes\"; CREATE TRIGGER set_updated_at_codes BEFORE UPDATE ON \"codes\" FOR EACH ROW EXECUTE PROCEDURE set_updated_at_unix_timestamp();"
    );
    assert_eq!(trigger_sql("t", &vec![field("id", "UUID", false)]), "");
    let (func, stmts) = creation_statements("codes", &fields());
    assert!(func.contains("CREATE OR REPLACE FUNCTION set_updated_at_unix_timestamp()"));
    assert_eq!(stmts.len(), 4);
    assert_eq!(stmts[2], "DROP TRIGGER IF EXISTS set_updated_at_codes ON \"codes\"");
    assert_eq!(script_statements("a; ;b;"), vec!["a".to_string(), "b".to_string()]);
    assert_eq!(trigger_toggle_sql("codes", false), "ALTER TABLE \"codes\" DISABLE TRIGGER \"set_updated_at_codes\"");
    assert_eq!(trigger_toggle_sql("codes", true), "ALTER TABLE \"codes\" ENABLE TRIGGER \"set_updated_at_codes\"");
}

#[test]
fn column_defaults() {
    let with = |t: &str, d: Option<usize>| {
        let mut f = field("x", t, false);
        f.vector_dimension = d;
        get_sql_default_value(&f)
    };
    assert_eq!(with("TEXT[]", None), "DEFAULT '{}'");
    assert_eq!(with("text", None), "DEFAULT ''");
    assert_eq!(with("BIGINT", None), "DEFAULT 0");
    assert_eq!(with("DOUBLE PRECISION", None), "DEFAULT 0");
    assert_eq!(with("BOOLEAN", None), "DEFAULT false");
    assert_eq!(with("JSONB", None), "DEFAULT '{}'");
    assert_eq!(with("UUID", None), "DEFAULT '00000000-0000-0000-0000-000000000000'");
    assert_eq!(with("VECTOR(3)", Some(3)), "DEFAULT '[0,0,0]'");
    assert_eq!(with("TIMESTAMPTZ", None), "DEFAULT to_timestamp(0)");
    assert_eq!(with("BYTEA", None), "");
    assert_eq!(add_column_sql("t", &field("n", "INTEGER", false)), "ALTER TABLE \"t\" ADD COLUMN \"n\" INTEGER NOT NULL DEFAULT 0");
    assert_eq!(add_column_sql("t", &field("b", "BYTEA", false)), "ALTER TABLE \"t\" ADD COLUMN \"b\" BYTEA NOT NULL");
    assert_eq!(add_column_sql("t", &field("o", "TEXT", true)), "ALTER TABLE \"t\" ADD COLUMN \"o\" TEXT");
}

#[test]
fn type_agreement() {
    assert!(are_sql_types_equivalent("BIGINT", "INT8"));
    assert!(are_sql_types_equivalent("integer", "int4"));
    assert!(are_sql_types_equivalent("TEXT", "VARCHAR"));
    assert!(are_sql_types_equivalent("TEXT[]", "_TEXT"));
    assert!(are_sql_types_equivalent("UUID[]", "_uuid"));
    assert!(are_sql_types_equivalent("VECTOR(1024)", "VECTOR"));
    assert!(are_sql_types_equivalent("DOUBLE PRECISION", "FLOAT8"));
    assert!(!are_sql_types_equivalent("BOOLEAN", "INT4"));
    assert!(are_sql_types_equivalent("TEXT[]", "TEXT"));
    // Uppercasing is Unicode-wide: `ß` becomes `SS`.
    assert!(are_sql_types_equivalent("straße", "STRASSE"));
    assert!(are_sql_types_equivalent("TEXT[][]", "__text"));
}

#[test]
fn migration_plans() {
    let db = vec![
        db_column("id".to_string(), "uuid", "NO"),
        db_column("owner".to_string(), "int4", "YES"),
        db_column("legacy".to_string(), "text", "YES"),
    ];
    assert_eq!(db[1].udt_type, "INT4");
    assert!(db[1].nullable);
    let plan = plan_migration("codes", &fields(), true, &db);
    assert_eq!(
        plan.alter_statements,
        vec![
            "ALTER TABLE \"codes\" ADD COLUMN \"code\" TEXT".to_string(),
            "ALTER TABLE \"codes\" ADD COLUMN \"created_at\" BIGINT NOT NULL DEFAULT 0".to_string(),
            "ALTER TABLE \"codes\" ADD COLUMN \"updated_at\" BIGINT NOT NULL DEFAULT 0".to_string(),
            "ALTER TABLE \"codes\" DROP COLUMN \"legacy\"".to_string(),
            "ALTER TABLE \"codes\" ALTER COLUMN \"owner\" SET NOT NULL".to_string(),
        ]
    );
    assert_eq!(plan.mismatched_columns, vec!["owner".to_string()]);
    assert!(plan.kept_columns.is_empty());
    let kept = plan_migration("codes", &fields(), false, &db);
    assert_eq!(kept.kept_columns, vec!["legacy".to_string()]);
    assert_eq!(kept.alter_statements.len(), 4);
    let up_to_date: Vec<DbColumn> = vec![db_column("id".to_string(), "uuid", "NO")];
    assert!(plan_migration("t", &vec![field("id", "UUID", false)], true, &up_to_date).alter_statements.is_empty());
}

#[test]
fn rust_types_to_sql() {
    assert_eq!(map_rust_type_to_sql("String", None), "TEXT".to_string());
    assert_eq!(rust_type_sql("String", None), Ok("TEXT".to_string()));
    assert_eq!(map_rust_type_to_sql("i32", None), "INTEGER".to_string());
    assert_eq!(rust_type_sql("i32", None), Ok("INTEGER".to_string()));
    assert_eq!(map_rust_type_to_sql("u64", None), "BIGINT".to_string());
    assert_eq!(rust_type_sql("u64", None), Ok("BIGINT".to_string()));
    assert_eq!(map_rust_type_to_sql("f64", None), "DOUBLE PRECISION".to_string());
    assert_eq!(rust_type_sql("f64", None), Ok("DOUBLE PRECISION".to_string()));
    assert_eq!(map_rust_type_to_sql("Vec<u8>", None), "BYTEA".to_string());
    assert_eq!(rust_type_sql("Vec<u8>", None), Ok("BYTEA".to_string()));
    assert_eq!(map_rust_type_to_sql("Vec<Uuid>", None), "UUID[]".to_string());
    assert_eq!(rust_type_sql("Vec<Uuid>", None), Ok("UUID[]".to_string()));
    assert_eq!(map_rust_type_to_sql("Vec<i64>", None), "BIGINT[]".to_string());
    assert_eq!(rust_type_sql("Vec<i64>", None), Ok("BIGINT[]".to_string()));
    assert_eq!(map_rust_type_to_sql("std::vec::Vec<i32>", None), "INTEGER[]".to_string());
    assert_eq!(rust_type_sql("std::vec::Vec<i32>", None), Ok("INTEGER[]".to_string()));
    assert_eq!(rust_type_sql("Vec<Vec<i32>>", None), Err(SqlTypeError::Unsupported));
    assert_eq!(rust_type_sql("Vec<Vec<String>>", None), Err(SqlTypeError::MultiDimensional));
    assert_eq!(map_rust_type_to_sql("Vec<Vec<Uuid>>", None), "UUID[][]".to_string());
    assert_eq!(rust_type_sql("Vec<Vec<Uuid>>", None), Ok("UUID[][]".to_string()));
    assert_eq!(rust_type_sql("Vec<Json<Foo>>", None), Err(SqlTypeError::NotArrayable));
    assert_eq!(map_rust_type_to_sql("Vector", Some(8)), "VECTOR(8)".to_string());
    assert_eq!(rust_type_sql("Vector", Some(8)), Ok("VECTOR(8)".to_string()));
    assert_eq!(rust_type_sql("Vector", None), Err(SqlTypeError::MissingDimension));
    assert_eq!(map_rust_type_to_sql("Json<Meta>", None), "JSONB".to_string());
    assert_eq!(rust_type_sql("Json<Meta>", None), Ok("JSONB".to_string()));
    assert_eq!(map_rust_type_to_sql("chrono::DateTime<chrono::Utc>", None), "TIMESTAMPTZ".to_string());
    assert_eq!(rust_type_sql("chrono::DateTime<chrono::Utc>", None), Ok("TIMESTAMPTZ".to_string()));
    assert_eq!(map_rust_type_to_sql("Status", None), "TEXT".to_string());
    assert_eq!(rust_type_sql("Status", None), Ok("TEXT".to_string()));
    assert_eq!(rust_type_sql("Option<i32>", None), Err(SqlTypeError::Unsupported));
    assert!(is_option_type("Option<String>"));
    assert!(is_option_type("std::option::Option<i32>"));
    assert!(!is_option_type("Vec<Option<i32>>"));
    assert_eq!(get_option_inner_type("Option<Vec<u8>>"), Some("Vec<u8>".to_string()));
    assert_eq!(get_vec_inner_type("Vec<HashMap<A,B>>"), Some("HashMap<A,B>".to_string()));
    assert_eq!(get_vec_inner_type("HashMap<A,B>"), None);
    assert!(is_simple_type("::sqlx::types::Json<X>"));
    assert!(!is_simple_type("Status"));
}

#[test]
fn fields_from_types() {
    let f = field_data("note", "Option<String>", false, false, false, None, None, None).unwrap();
    assert!(f.is_option);
    assert!(!f.is_pk);
    assert_eq!(f.sql_type, "TEXT");
    let id = field_data("id", "Uuid", false, false, false, None, None, None).unwrap();
    assert!(id.is_pk);
    assert_eq!(id.sql_type, "UUID");
    let j = field_data("meta", "Option<Json<Meta>>", false, false, false, None, None, None).unwrap();
    assert_eq!(j.sql_type, "JSONB");
    let skip = field_data("cache", "Whatever<T>", true, false, false, None, None, None).unwrap();
    assert_eq!(skip.sql_type, "SKIP");
    assert_eq!(field_data("v", "Vector", false, false, false, None, None, None).err(), Some(SqlTypeError::MissingDimension));
}

#[test]
fn small_statements() {
    assert_eq!(fetch_many_sql("users"), "SELECT * FROM \"users\" WHERE \"id\" = ANY($1)");
    assert!(has_updated_at_field(&vec![field("id", "UUID", false), field("updated_at", "BIGINT", false)]));
    assert!(!has_updated_at_field(&vec![field("id", "UUID", false)]));
    let mut skipped = field("updated_at", "BIGINT", false);
    skipped.is_skipped = true;
    assert!(!has_updated_at_field(&vec![skipped]));
}

#[test]
fn row_and_binding_encodings() {
    assert_eq!(row_column_encoding("String"), ColumnEncoding::Native);
    assert_eq!(row_column_encoding("MessageType"), ColumnEncoding::Text);
    assert_eq!(row_column_encoding("Option<MessageType>"), ColumnEncoding::Text);
    assert_eq!(row_column_encoding("Vec<MessageType>"), ColumnEncoding::TextList);
    assert_eq!(row_column_encoding("Vec<Uuid>"), ColumnEncoding::Native);
    assert_eq!(row_column_encoding("Json<Vec<MessageType>>"), ColumnEncoding::Native);
    assert_eq!(row_field_type("Option<MessageType>"), "Option<String>");
    assert_eq!(row_field_type("MessageType"), "String");
    assert_eq!(row_field_type("Vec<MessageType>"), "Vec<String>");
    assert_eq!(row_field_type("Option<i64>"), "Option<i64>");
    assert_eq!(bind_column_encoding("MessageType"), ColumnEncoding::Text);
    assert_eq!(bind_column_encoding("Option<MessageType>"), ColumnEncoding::Text);
    assert_eq!(bind_column_encoding("Vec<MessageType>"), ColumnEncoding::TextList);
    assert_eq!(bind_column_encoding("Json<Foo>"), ColumnEncoding::Native);
    assert_eq!(bind_column_encoding("i64"), ColumnEncoding::Native);
}

#[test]
fn row_and_binding_columns() {
    let mut kind = field("kind", "TEXT", false);
    kind.ty = "MessageType".to_string();
    let mut id = field("id", "UUID", false);
    id.ty = "Uuid".to_string();
    let mut created = field("created_at", "BIGINT", false);
    created.ty = "i64".to_string();
    let mut cache = field("cache", "SKIP", false);
    cache.ty = "Vec<u8>".to_string();
    cache.is_skipped = true;
    let fields = vec![id, kind, created, cache];
    let row = generate_row_struct("RecordRow", &fields);
    assert_eq!(row.name, "RecordRow");
    assert_eq!(
        row.fields,
        vec![
            ("id".to_string(), "Uuid".to_string()),
            ("kind".to_string(), "String".to_string()),
            ("created_at".to_string(), "i64".to_string()),
        ]
    );
    assert_eq!(
        row_assignments(&fields),
        vec![
            ("id".to_string(), Some(ColumnEncoding::Native)),
            ("kind".to_string(), Some(ColumnEncoding::Text)),
            ("created_at".to_string(), Some(ColumnEncoding::Native)),
            ("cache".to_string(), None),
        ]
    );
    assert_eq!(bound_columns(&fields), vec![("kind".to_string(), ColumnEncoding::Text)]);
}

#[test]
fn printed_types_lose_their_spaces() {
    assert_eq!(get_fully_qualified_type_string("Option < Vec < String > >"), "Option<Vec<String>>");
    assert_eq!(get_fully_qualified_type_string(":: sqlx :: types :: Uuid"), "::sqlx::types::Uuid");
    assert_eq!(get_fully_qualified_type_string("i32"), "i32");
}
