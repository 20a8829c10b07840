use metastable::knowledge_graph::{
    delete_graph_memory_prompts, extract_relationship_prompts, kg_add_statement, DeleteGraphMemoryToolcall, RelationshipsToolcall,
    EXTRACT_RELATIONS_PROMPT_HEAD, EXTRACT_RELATIONS_PROMPT_TAIL, kg_delete_statement, EntityTag, KgParam, Relationship,
};

fn rel(s: &str, r: &str, d: &str) -> Relationship {
    Relationship { source: s.to_string(), relationship: r.to_string(), destination: d.to_string(), user_id: "u1".to_string() }
}

#[test]
fn tags_by_name() {
    let tags = vec![
        EntityTag { entity_name: "Elon Musk".to_string(), entity_tag: "Person".to_string() },
        EntityTag { entity_name: "SpaceX".to_string(), entity_tag: "Company".to_string() },
        EntityTag { entity_name: "Elon Musk".to_string(), entity_tag: "Founder".to_string() },
    ];
    let map = EntityTag::batch_into_hashmap(&tags);
    assert_eq!(
        map,
        vec![("Elon Musk".to_string(), "Founder".to_string()), ("SpaceX".to_string(), "Company".to_string())]
    );
}

#[test]
fn add_and_delete_statements() {
    let tags = EntityTag::batch_into_hashmap(&[EntityTag { entity_name: "SpaceX".to_string(), entity_tag: "Company".to_string() }]);
    let r = rel("Elon Musk", "FOUNDED", "SpaceX");
    let st = kg_add_statement(&tags, &r, Some("7".to_string()), None);
    assert_eq!(
        st.cypher,
        "MATCH (source:Entity {id: $source_id}) MERGE (destination:Company:Entity {name: $destination_name, user_id: $user_id}) ON CREATE SET destination.created_at = timestamp(), destination.embedding = $destination_embedding MERGE (source)-[r:FOUNDED]->(destination) ON CREATE SET r.created_at = timestamp(), r.updated_at = timestamp()"
    );
    assert_eq!(
        st.params,
        vec![
            ("source_id".to_string(), KgParam::Text("7".to_string())),
            ("destination_name".to_string(), KgParam::Text("SpaceX".to_string())),
            ("destination_embedding".to_string(), KgParam::DestinationEmbedding),
            ("user_id".to_string(), KgParam::Text("u1".to_string())),
        ]
    );
    let both = kg_add_statement(&tags, &r, None, None);
    assert!(both.cypher.starts_with("MERGE (source:Entity:Entity {name: $source_name, user_id: $user_id})"));
    assert_eq!(both.params.len(), 5);
    let del = kg_delete_statement(&r);
    assert!(del.cypher.contains("-[r:FOUNDED]->"));
    assert_eq!(del.params[2], ("user_id".to_string(), KgParam::Text("u1".to_string())));
}

#[test]
fn deletion_prompts() {
    let (system, user) = delete_graph_memory_prompts("123", "a -- b -- c", "new");
    assert!(system.contains("Use \"123\" as node for any self-references"));
    assert!(!system.contains("{user_id}"));
    assert_eq!(user, "Here are the existing memories: a -- b -- c \n\n New Information: new");
}

#[test]
fn relationship_extraction_prompts() {
    let names = vec!["xiaoming".to_string(), "say \"hi\"".to_string()];
    let (system, user) = extract_relationship_prompts("u42", &names, "xiaoming works_at beijing");
    assert_eq!(system, format!("{}u42{}", EXTRACT_RELATIONS_PROMPT_HEAD, EXTRACT_RELATIONS_PROMPT_TAIL));
    assert!(system.contains("Use \"u42\" as the source entity for any self-references"));
    assert!(system.ends_with("to ensure high-quality knowledge graph extraction."));
    assert_eq!(user, "List of entities: [\"xiaoming\", \"say \\\"hi\\\"\"]. \n\nText: xiaoming works_at beijing");
    assert_eq!(RelationshipsToolcall::name(), "establish_relations");
    assert_eq!(DeleteGraphMemoryToolcall::name(), "delete_graph_memory");
}
