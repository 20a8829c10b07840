use metastable::field_decl::{
    get_fields_data, has_indexed_attr, has_sqlx_skip_column_attr, has_unique_attr, parse_foreign_key_attr, parse_foreign_key_many_attr, parse_usize, parse_vector_dimension_attr, read_field,
    FieldAttr, FieldDecl,
};
use metastable::type_map::SqlTypeError;

fn decl(name: &str, ty: &str, attrs: Vec<FieldAttr>) -> FieldDecl {
    FieldDecl { name: name.to_string(), ty: ty.to_string(), attrs }
}

fn fk(table: Option<&str>, ty: Option<&str>) -> FieldAttr {
    FieldAttr::ForeignKey { referenced_table: table.map(|s| s.to_string()), related_rust_type: ty.map(|s| s.to_string()) }
}

fn dim(d: &str) -> FieldAttr {
    FieldAttr::VectorDimension { first_int_digits: Some(d.to_string()) }
}

#[test]
fn record_fields() {
    let decls = vec![
        decl("id", "Uuid", vec![]),
        decl("name", "String", vec![FieldAttr::Unique]),
        decl("owner", "Uuid", vec![fk(Some("users"), Some("User")), FieldAttr::Indexed]),
        decl(
            "members",
            "Vec<Uuid>",
            vec![FieldAttr::ForeignKeyMany { referenced_table: Some("users".to_string()), related_rust_type: Some("User".to_string()) }],
        ),
        decl("embedding", "Vector", vec![dim("1024")]),
        decl("cache", "Option<String>", vec![FieldAttr::SkipColumn]),
        decl("nickname", "Option<String>", vec![FieldAttr::Other]),
    ];
    for d in &decls {
        assert!(read_field(d).is_ok());
    }
    let fields = get_fields_data(&decls);
    let types: Vec<&str> = fields.iter().map(|f| f.sql_type.as_str()).collect();
    assert_eq!(types, vec!["UUID", "TEXT", "UUID", "UUID[]", "VECTOR(1024)", "SKIP", "TEXT"]);
    assert!(fields[0].is_pk && !fields[1].is_pk);
    assert!(fields[1].unique && !fields[1].indexed);
    assert!(fields[2].indexed);
    let owner = fields[2].foreign_key.as_ref().unwrap();
    assert_eq!((owner.referenced_table.as_str(), owner.related_rust_type.as_str()), ("users", "User"));
    assert_eq!(fields[3].foreign_key_many.as_ref().unwrap().referenced_table, "users");
    assert_eq!(fields[4].vector_dimension, Some(1024));
    assert!(fields[5].is_skipped && fields[5].is_option);
    assert!(fields[6].is_option && !fields[6].is_skipped);
}

#[test]
fn field_errors() {
    assert_eq!(read_field(&decl("embedding", "Vector", vec![])).err(), Some(SqlTypeError::MissingDimension));
    assert_eq!(read_field(&decl("grid", "Vec<Vec<String>>", vec![])).err(), Some(SqlTypeError::MultiDimensional));
    assert_eq!(read_field(&decl("grid", "Vec<Vec<i32>>", vec![])).err(), Some(SqlTypeError::Unsupported));
    let decls = vec![decl("a", "i32", vec![]), decl("v", "Vector", vec![dim("99999999999999999999999")]), decl("g", "Vec<Vec<i32>>", vec![])];
    let first_error = decls.iter().find_map(|d| read_field(d).err());
    assert_eq!(first_error, Some(SqlTypeError::MissingDimension));
}

#[test]
fn attribute_reading() {
    assert_eq!(parse_usize("1536"), Some(1536));
    assert_eq!(parse_usize("0"), Some(0));
    assert_eq!(parse_usize(""), None);
    assert_eq!(parse_usize("12a"), None);
    assert_eq!(parse_usize("18446744073709551616"), None);
    assert_eq!(parse_vector_dimension_attr(&vec![FieldAttr::VectorDimension { first_int_digits: None }, dim("8"), dim("9")]), Some(8));
    assert_eq!(parse_vector_dimension_attr(&vec![dim("x"), dim("9")]), None);
    let first_complete = parse_foreign_key_attr(&vec![fk(Some("a"), None), fk(Some("b"), Some("B")), fk(Some("c"), Some("C"))]).unwrap();
    assert_eq!(first_complete.referenced_table, "b");
    assert!(parse_foreign_key_attr(&vec![fk(None, Some("B"))]).is_none());
    assert!(parse_foreign_key_many_attr(&vec![fk(Some("b"), Some("B"))]).is_none());
    let a = vec![FieldAttr::Indexed, FieldAttr::Other];
    assert_eq!((has_unique_attr(&a), has_indexed_attr(&a), has_sqlx_skip_column_attr(&a)), (false, true, false));
    let b = vec![FieldAttr::SkipColumn, FieldAttr::Unique];
    assert_eq!((has_unique_attr(&b), has_indexed_attr(&b), has_sqlx_skip_column_attr(&b)), (true, false, true));
}
