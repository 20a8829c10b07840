use metastable::query::{build_delete, build_select, single_result, OrderDirection, QueryArg, QueryCriteria};

fn cols() -> Vec<String> {
    vec!["id".to_string(), "name".to_string()]
}

#[test]
fn order_keywords() {
    assert_eq!(OrderDirection::Asc.as_sql(), "ASC");
    assert_eq!(OrderDirection::Desc.as_sql(), "DESC");
}

#[test]
fn plain_select() {
    let c: QueryCriteria<i64> = QueryCriteria::new();
    let q = build_select("users", &cols(), &c);
    assert_eq!(q.sql, "SELECT id, name FROM \"users\"");
    assert!(q.args.is_empty());
}

#[test]
fn filtered_ordered_paged_select() {
    let c: QueryCriteria<i64> = QueryCriteria::new()
        .add_valued_filter("age", ">", 18)
        .add_filter("deleted_at", "IS NULL", None)
        .add_valued_filter("id", "= ANY($9)", 7)
        .order_by("created_at", OrderDirection::Desc)
        .limit(10)
        .offset(20);
    let q = build_select("users", &cols(), &c);
    assert_eq!(
        q.sql,
        "SELECT id, name FROM \"users\" WHERE \"age\" > $1 AND \"deleted_at\" IS NULL AND \"id\" = ANY($9) ORDER BY \"created_at\" DESC LIMIT $3 OFFSET $4"
    );
    assert_eq!(q.args, vec![QueryArg::Condition(0), QueryArg::Condition(2), QueryArg::Limit, QueryArg::Offset]);
}

#[test]
fn similarity_select() {
    let c: QueryCriteria<i64> = QueryCriteria::new()
        .find_similarity(1, "similarity")
        .with_similarity_threshold(2)
        .add_valued_filter("user_id", "=", 3)
        .order_by("similarity", OrderDirection::Desc)
        .limit(5);
    let q = build_select("embeddings", &cols(), &c);
    assert_eq!(
        q.sql,
        "SELECT *, 1 - (embedding <=> $1) as similarity FROM \"embeddings\" WHERE 1 - (embedding <=> $1) >= $2 AND \"user_id\" = $3 ORDER BY similarity DESC LIMIT $4"
    );
    assert_eq!(
        q.args,
        vec![QueryArg::SimilarityVector, QueryArg::SimilarityThreshold, QueryArg::Condition(0), QueryArg::Limit]
    );
}

#[test]
fn single_row_and_delete() {
    let one: QueryCriteria<i64> = QueryCriteria::new().add_valued_filter("id", "=", 1).for_single();
    assert_eq!(one.limit, Some(1));
    let kept: QueryCriteria<i64> = QueryCriteria::new().limit(4).for_single();
    assert_eq!(kept.limit, Some(4));
    let c: QueryCriteria<i64> = QueryCriteria::new().add_valued_filter("id", " = ANY($1)", 1);
    let d = build_delete("embeddings", &c);
    assert_eq!(d.sql, "DELETE FROM \"embeddings\" WHERE \"id\"  = ANY($1)");
    assert_eq!(d.args, vec![QueryArg::Condition(0)]);
    let all: QueryCriteria<i64> = QueryCriteria::new();
    assert_eq!(build_delete("t", &all).sql, "DELETE FROM \"t\"");
}

#[test]
fn single_record_is_the_first_row() {
    assert_eq!(single_result::<u32>(vec![]), None);
    assert_eq!(single_result(vec![4, 5, 6]), Some(4));
}
