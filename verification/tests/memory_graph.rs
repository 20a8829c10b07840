use metastable::memory_graph::{
    initialize_statements, plan_batch_update, search_query, similar_entity_query, unique_entity_names, EntityTag, GraphEntities, GraphParam, Mem0Filter,
    MemoryEvent, MemoryUpdateEntry, Relationship,
};

fn rel(s: &str, r: &str, d: &str) -> Relationship {
    Relationship { source: s.to_string(), relationship: r.to_string(), destination: d.to_string() }
}

fn tag(n: &str, t: &str) -> EntityTag {
    EntityTag { entity_name: n.to_string(), entity_tag: t.to_string() }
}

fn text(name: &str, v: &str) -> (String, GraphParam) {
    (name.to_string(), GraphParam::Text(v.to_string()))
}

#[test]
fn entity_tags_keep_the_last_tag() {
    let filter = Mem0Filter { user_id: 1, character_id: None, session_id: None };
    let g = GraphEntities::new(vec![], vec![tag("alice", "Person"), tag("acme", "Company"), tag("alice", "Founder")], filter);
    assert_eq!(
        g.entity_tags,
        vec![("alice".to_string(), "Founder".to_string()), ("acme".to_string(), "Company".to_string())]
    );
}

#[test]
fn entity_names_once_each() {
    let names = unique_entity_names(&vec![rel("a", "knows", "b"), rel("b", "likes", "c"), rel("a", "likes", "a")]);
    assert_eq!(names, vec!["a".to_string(), "b".to_string(), "c".to_string()]);
    assert!(unique_entity_names(&vec![]).is_empty());
}

#[test]
fn add_statements_by_known_entities() {
    let filter = Mem0Filter { user_id: 1, character_id: Some(2), session_id: None };
    let g = GraphEntities::new(vec![], vec![tag("bob", "Person")], filter);
    let r = rel("alice", "knows", "bob");
    let both = g.add_statement(&r, Some("10".to_string()), Some("11".to_string()));
    assert_eq!(
        both.cypher,
        "MATCH (source:Entity {id: $source_id}), (destination:Entity {id: $dest_id}) MERGE (source)-[r:`knows`]->(destination) ON CREATE SET r.created_at = timestamp(), r.updated_at = timestamp()"
    );
    assert_eq!(both.params, vec![text("source_id", "10"), text("dest_id", "11")]);
    let src_only = g.add_statement(&r, Some("10".to_string()), None);
    assert_eq!(
        src_only.cypher,
        "MATCH (source:Entity {id: $source_id}) MERGE (destination:`Person`:Entity {name: $destination_name, user_id: $user_id, character_id: $character_id}) ON CREATE SET destination.created_at = timestamp(), destination.embedding = $destination_embedding MERGE (source)-[r:`knows`]->(destination) ON CREATE SET r.created_at = timestamp(), r.updated_at = timestamp()"
    );
    assert_eq!(
        src_only.params,
        vec![
            text("source_id", "10"),
            text("destination_name", "bob"),
            text("user_id", "00000000-0000-0000-0000-000000000001"),
            ("destination_embedding".to_string(), GraphParam::DestinationEmbedding),
            text("character_id", "00000000-0000-0000-0000-000000000002"),
        ]
    );
    let none = g.add_statement(&r, None, None);
    assert!(none.cypher.starts_with("MERGE (source:`Entity`:Entity {name: $source_name, user_id: $user_id, character_id: $character_id})"));
    assert!(none.cypher.contains("MERGE (destination:`Person`:Entity {name: $dest_name, user_id: $user_id, character_id: $character_id})"));
    assert_eq!(none.params.len(), 6);
    let dest_only = g.add_statement(&r, None, Some("11".to_string()));
    assert!(dest_only.cypher.starts_with("MATCH (destination:Entity {id: $dest_id}) MERGE (source:`Entity`:Entity {name: $source_name"));
}

#[test]
fn delete_and_search_statements() {
    let filter = Mem0Filter { user_id: 1, character_id: None, session_id: Some(3) };
    let g = GraphEntities::new(vec![], vec![], filter);
    let del = g.delete_statement(&rel("a", "knows", "b"));
    assert_eq!(
        del.cypher,
        "\n                MATCH (n:Entity {name: $source_name, user_id: $user_id, session_id: $session_id})\n                -[r:`knows`]->\n                (m:Entity {name: $dest_name, user_id: $user_id, session_id: $session_id})\n                DELETE r\n            "
    );
    assert_eq!(del.params.len(), 4);
    let q = search_query(&filter);
    assert!(q.contains("AND n.user_id = $user_id  AND n.session_id = '00000000-0000-0000-0000-000000000003'"));
    assert!(q.contains("LIMIT 100"));
    let s = similar_entity_query(&Mem0Filter { user_id: 1, character_id: None, session_id: None });
    assert!(s.contains("AND similarity >= 0.9"));
}

fn entry(id: u128, event: MemoryEvent, content: &str) -> MemoryUpdateEntry {
    MemoryUpdateEntry { id, filter: Mem0Filter { user_id: 1, character_id: None, session_id: None }, event, content: content.to_string() }
}

#[test]
fn batch_updates_are_sorted_by_kind() {
    let plan = plan_batch_update(vec![
        entry(1, MemoryEvent::Add, "a1"),
        entry(2, MemoryEvent::Delete, ""),
        entry(3, MemoryEvent::Update, "u1"),
        entry(4, MemoryEvent::Keep, "k"),
        entry(5, MemoryEvent::Add, "a2"),
    ]);
    assert_eq!(plan.to_add.iter().map(|e| e.id).collect::<Vec<_>>(), vec![1, 5]);
    assert_eq!(plan.to_update.iter().map(|e| e.id).collect::<Vec<_>>(), vec![3]);
    assert_eq!(plan.to_delete_ids, vec![2]);
    let s = plan.summary();
    assert_eq!((s.added, s.updated, s.deleted), (2, 1, 1));
    assert_eq!(plan.contents_to_embed(), vec!["a1".to_string(), "a2".to_string(), "u1".to_string()]);
    assert_eq!(plan.rows_written(3), Some((2, 1)));
    assert_eq!(plan.rows_written(2), Some((2, 0)));
    assert_eq!(plan.rows_written(1), None);
}

#[test]
fn index_statements() {
    let (vector, by_user) = initialize_statements();
    assert!(vector.starts_with("CREATE VECTOR INDEX memzero IF NOT EXISTS FOR (n:Entity) ON (n.embedding)"));
    assert!(vector.contains("`vector.dimensions`: 1024"));
    assert_eq!(by_user, "CREATE INDEX entity_user_id_index IF NOT EXISTS FOR (n:Entity) ON (n.user_id)");
    let e = MemoryUpdateEntry { id: 3, filter: Mem0Filter { user_id: 1, character_id: None, session_id: None }, event: MemoryEvent::Add, content: "x".to_string() };
    let c = e.clone_entry();
    assert_eq!(c.id, 3);
    assert_eq!(c.content, "x");
}

#[test]
fn batch_of_statements_uses_found_ids() {
    let filter = Mem0Filter { user_id: 1, character_id: None, session_id: None };
    let rels = vec![rel("alice", "knows", "bob"), rel("bob", "works_at", "acme")];
    let g = GraphEntities::new(rels.clone(), vec![tag("bob", "Person")], filter);
    let found = vec![("bob".to_string(), "11".to_string())];
    let batch = g.add_statements(&found);
    assert_eq!(batch.len(), 2);
    let first = g.add_statement(&rels[0], None, Some("11".to_string()));
    let second = g.add_statement(&rels[1], Some("11".to_string()), None);
    assert_eq!((batch[0].cypher.clone(), batch[0].params.clone()), (first.cypher, first.params));
    assert_eq!((batch[1].cypher.clone(), batch[1].params.clone()), (second.cypher, second.params));
}
