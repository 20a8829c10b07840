//! The knowledge graph: relationships between named entities of a user,
//! the Cypher statements that store and delete them, the tool calls a model
//! answers with, and the prompts that ask for deletions.
use vstd::prelude::*;
use crate::assoc::{assoc_build, assoc_from_pairs, assoc_get, assoc_lookup, pairs_view};
use crate::text::{concat, owned, replace_all, replace_str};
use crate::text_enum::strings_view;

verus! {

broadcast use vstd::string::group_string_axioms;

/// A stored relation.
#[derive(Debug, Clone, PartialEq, Eq)]
pub struct Relation {
    pub id: String,
    pub name: String,
    pub mentions: i64,
    pub created_at: i64,
    pub updated_at: i64,
}

/// A relationship `source -- relationship -- destination` of a user.
#[derive(Debug, Clone, PartialEq, Eq)]
pub struct Relationship {
    pub source: String,
    pub relationship: String,
    pub destination: String,
    pub user_id: String,
}

/// The type given to a named entity.
#[derive(Debug, Clone, PartialEq, Eq)]
pub struct EntityTag {
    pub entity_name: String,
    pub entity_tag: String,
}

/// The `(name, type)` pairs of entity tags, as sequences.
pub open spec fn tag_pairs(tags: Seq<EntityTag>) -> Seq<(Seq<char>, Seq<char>)> {
    tags.map_values(|t: EntityTag| (t.entity_name@, t.entity_tag@))
}

impl EntityTag {
    /// The type of each tagged entity: one entry per name, in order of first
    /// tagging, holding the type of its last tag.
    pub fn batch_into_hashmap(entity_tags: &[Self]) -> (r: Vec<(String, String)>)
        ensures
            pairs_view(r@) == assoc_build(tag_pairs(entity_tags@)),
    {
        let mut pairs: Vec<(String, String)> = Vec::new();
        let mut i: usize = 0;
        while i < entity_tags.len()
            invariant
                i <= entity_tags@.len(),
                pairs@.len() == i,
                pairs_view(pairs@) == tag_pairs(entity_tags@).take(i as int),
            decreases entity_tags@.len() - i,
        {
            let name = entity_tags[i].entity_name.clone();
            let tag = entity_tags[i].entity_tag.clone();
            let ghost prev = pairs@;
            pairs.push((name, tag));
            proof {
                assert(pairs@[i as int] == (name, tag));
                assert(pairs_view(pairs@)[i as int] == tag_pairs(entity_tags@)[i as int]);
                assert forall|k: int| 0 <= k < i implies pairs_view(pairs@)[k] == pairs_view(prev)[k] by {
                    assert(pairs@[k] == prev[k]);
                }
            }
            i = i + 1;
            assert(pairs_view(pairs@) =~= tag_pairs(entity_tags@).take(i as int));
        }
        assert(tag_pairs(entity_tags@).take(entity_tags@.len() as int) =~= tag_pairs(entity_tags@));
        assoc_from_pairs(&pairs)
    }
}

/// A statement parameter: text, or the embedding of the relationship's source
/// or destination entity (attached by the caller).
#[derive(Debug, Clone, PartialEq, Eq)]
pub enum KgParam {
    Text(String),
    SourceEmbedding,
    DestinationEmbedding,
}

/// A Cypher statement and its named parameters, in order.
#[derive(Debug, Clone, PartialEq, Eq)]
pub struct KgStatement {
    pub cypher: String,
    pub params: Vec<(String, KgParam)>,
}

/// A parameter, as sequences.
pub enum KgParamView {
    Text(Seq<char>),
    SourceEmbedding,
    DestinationEmbedding,
}

pub open spec fn kg_param_view(p: KgParam) -> KgParamView {
    match p {
        KgParam::Text(s) => KgParamView::Text(s@),
        KgParam::SourceEmbedding => KgParamView::SourceEmbedding,
        KgParam::DestinationEmbedding => KgParamView::DestinationEmbedding,
    }
}

pub open spec fn kg_params_view(ps: Seq<(String, KgParam)>) -> Seq<(Seq<char>, KgParamView)> {
    ps.map_values(|p: (String, KgParam)| (p.0@, kg_param_view(p.1)))
}

/// The type of an entity: its tag, or `Entity`.
pub open spec fn kg_entity_type(tags: Seq<(Seq<char>, Seq<char>)>, name: Seq<char>) -> Seq<char> {
    match assoc_get(tags, name) {
        Some(t) => t,
        None => "Entity"@,
    }
}

/// The clause that merges the relationship between `source` and `destination`.
pub open spec fn kg_merge_relationship(rel: Seq<char>) -> Seq<char> {
    " MERGE (source)-[r:"@ + rel + "]->(destination) ON CREATE SET r.created_at = timestamp(), r.updated_at = timestamp()"@
}

/// The statement that stores a relationship, given the ids of its source and
/// destination entities when they already exist and the entities' types.
pub open spec fn kg_add_statement_spec(
    tags: Seq<(Seq<char>, Seq<char>)>,
    rel: Relationship,
    source_id: Option<Seq<char>>,
    dest_id: Option<Seq<char>>,
) -> (Seq<char>, Seq<(Seq<char>, KgParamView)>) {
    let user = ("user_id"@, KgParamView::Text(rel.user_id@));
    match (source_id, dest_id) {
        (Some(s), Some(d)) => (
            "MATCH (source:Entity {id: $source_id}), (destination:Entity {id: $dest_id})"@ + kg_merge_relationship(rel.relationship@),
            seq![("source_id"@, KgParamView::Text(s)), ("dest_id"@, KgParamView::Text(d))],
        ),
        (Some(s), None) => (
            "MATCH (source:Entity {id: $source_id}) MERGE (destination:"@ + kg_entity_type(tags, rel.destination@)
                + ":Entity {name: $destination_name, user_id: $user_id}) ON CREATE SET destination.created_at = timestamp(), destination.embedding = $destination_embedding"@
                + kg_merge_relationship(rel.relationship@),
            seq![
                ("source_id"@, KgParamView::Text(s)),
                ("destination_name"@, KgParamView::Text(rel.destination@)),
                ("destination_embedding"@, KgParamView::DestinationEmbedding),
                user,
            ],
        ),
        (None, Some(d)) => (
            "MATCH (destination:Entity {id: $dest_id}) MERGE (source:"@ + kg_entity_type(tags, rel.source@)
                + ":Entity {name: $source_name, user_id: $user_id}) ON CREATE SET source.created_at = timestamp(), source.embedding = $source_embedding"@
                + kg_merge_relationship(rel.relationship@),
            seq![
                ("dest_id"@, KgParamView::Text(d)),
                ("source_name"@, KgParamView::Text(rel.source@)),
                ("source_embedding"@, KgParamView::SourceEmbedding),
                user,
            ],
        ),
        (None, None) => (
            "MERGE (source:"@ + kg_entity_type(tags, rel.source@)
                + ":Entity {name: $source_name, user_id: $user_id}) ON CREATE SET source.created_at = timestamp(), source.embedding = $source_embedding MERGE (destination:"@
                + kg_entity_type(tags, rel.destination@)
                + ":Entity {name: $dest_name, user_id: $user_id}) ON CREATE SET destination.created_at = timestamp(), destination.embedding = $dest_embedding"@
                + kg_merge_relationship(rel.relationship@),
            seq![
                ("source_name"@, KgParamView::Text(rel.source@)),
                ("dest_name"@, KgParamView::Text(rel.destination@)),
                ("source_embedding"@, KgParamView::SourceEmbedding),
                ("dest_embedding"@, KgParamView::DestinationEmbedding),
                user,
            ],
        ),
    }
}

/// The statement that deletes a relationship between a user's entities.
pub open spec fn kg_delete_statement_spec(rel: Relationship) -> (Seq<char>, Seq<(Seq<char>, KgParamView)>) {
    (
        "\n                MATCH (n:Entity {name: $source_name, user_id: $user_id})\n                -[r:"@ + rel.relationship@
            + "]->\n                (m:Entity {name: $dest_name, user_id: $user_id})\n                DELETE r\n            "@,
        seq![
            ("source_name"@, KgParamView::Text(rel.source@)),
            ("dest_name"@, KgParamView::Text(rel.destination@)),
            ("user_id"@, KgParamView::Text(rel.user_id@)),
        ],
    )
}

fn kg_text(name: &str, text: String) -> (r: (String, KgParam))
    ensures
        r.0@ == name@,
        r.1 == KgParam::Text(text),
{
    (owned(name), KgParam::Text(text))
}

/// The type of the entity `name`.
fn kg_type_of(tags: &Vec<(String, String)>, name: &str) -> (r: String)
    ensures
        r@ == kg_entity_type(pairs_view(tags@), name@),
{
    match assoc_lookup(tags, name) {
        Some(t) => t,
        None => owned("Entity"),
    }
}

/// The statement that stores `rel`, given the entities' types (as built by
/// `batch_into_hashmap`) and the ids of its entities when they already exist.
pub fn kg_add_statement(
    tags: &Vec<(String, String)>,
    rel: &Relationship,
    source_id: Option<String>,
    dest_id: Option<String>,
) -> (r: KgStatement)
    ensures
        (r.cypher@, kg_params_view(r.params@)) == kg_add_statement_spec(
            pairs_view(tags@),
            *rel,
            match source_id { Some(s) => Some(s@), None => None },
            match dest_id { Some(d) => Some(d@), None => None },
        ),
        kg_add_statement_binds(
            *rel,
            match source_id { Some(s) => Some(s@), None => None },
            match dest_id { Some(d) => Some(d@), None => None },
            kg_params_view(r.params@),
        ),
        kg_add_statement_shape(
            pairs_view(tags@),
            *rel,
            match source_id { Some(s) => Some(s@), None => None },
            match dest_id { Some(d) => Some(d@), None => None },
            r.cypher@,
        ),
{
    proof {
        law_kg_add_statement_binds_entities(
            pairs_view(tags@),
            *rel,
            match &source_id { Some(s) => Some(s@), None => None },
            match &dest_id { Some(d) => Some(d@), None => None },
        );
    }
    let a0 = concat(" MERGE (source)-[r:", rel.relationship.as_str());
    let tail = concat(a0.as_str(), "]->(destination) ON CREATE SET r.created_at = timestamp(), r.updated_at = timestamp()");
    let mut params: Vec<(String, KgParam)> = Vec::new();
    match (source_id, dest_id) {
        (Some(s), Some(d)) => {
            let cypher = concat("MATCH (source:Entity {id: $source_id}), (destination:Entity {id: $dest_id})", tail.as_str());
            params.push(kg_text("source_id", s));
            params.push(kg_text("dest_id", d));
            assert(kg_params_view(params@) =~= kg_add_statement_spec(pairs_view(tags@), *rel, Some(s@), Some(d@)).1);
            KgStatement { cypher, params }
        },
        (Some(s), None) => {
            let a = concat("MATCH (source:Entity {id: $source_id}) MERGE (destination:", kg_type_of(tags, rel.destination.as_str()).as_str());
            let b = concat(a.as_str(), ":Entity {name: $destination_name, user_id: $user_id}) ON CREATE SET destination.created_at = timestamp(), destination.embedding = $destination_embedding");
            let cypher = concat(b.as_str(), tail.as_str());
            params.push(kg_text("source_id", s));
            params.push(kg_text("destination_name", rel.destination.clone()));
            params.push((owned("destination_embedding"), KgParam::DestinationEmbedding));
            params.push(kg_text("user_id", rel.user_id.clone()));
            assert(kg_params_view(params@) =~= kg_add_statement_spec(pairs_view(tags@), *rel, Some(s@), None).1);
            KgStatement { cypher, params }
        },
        (None, Some(d)) => {
            let a = concat("MATCH (destination:Entity {id: $dest_id}) MERGE (source:", kg_type_of(tags, rel.source.as_str()).as_str());
            let b = concat(a.as_str(), ":Entity {name: $source_name, user_id: $user_id}) ON CREATE SET source.created_at = timestamp(), source.embedding = $source_embedding");
            let cypher = concat(b.as_str(), tail.as_str());
            params.push(kg_text("dest_id", d));
            params.push(kg_text("source_name", rel.source.clone()));
            params.push((owned("source_embedding"), KgParam::SourceEmbedding));
            params.push(kg_text("user_id", rel.user_id.clone()));
            assert(kg_params_view(params@) =~= kg_add_statement_spec(pairs_view(tags@), *rel, None, Some(d@)).1);
            KgStatement { cypher, params }
        },
        (None, None) => {
            let a = concat("MERGE (source:", kg_type_of(tags, rel.source.as_str()).as_str());
            let b = concat(a.as_str(), ":Entity {name: $source_name, user_id: $user_id}) ON CREATE SET source.created_at = timestamp(), source.embedding = $source_embedding MERGE (destination:");
            let c = concat(b.as_str(), kg_type_of(tags, rel.destination.as_str()).as_str());
            let e = concat(c.as_str(), ":Entity {name: $dest_name, user_id: $user_id}) ON CREATE SET destination.created_at = timestamp(), destination.embedding = $dest_embedding");
            let cypher = concat(e.as_str(), tail.as_str());
            params.push(kg_text("source_name", rel.source.clone()));
            params.push(kg_text("dest_name", rel.destination.clone()));
            params.push((owned("source_embedding"), KgParam::SourceEmbedding));
            params.push((owned("dest_embedding"), KgParam::DestinationEmbedding));
            params.push(kg_text("user_id", rel.user_id.clone()));
            assert(kg_params_view(params@) =~= kg_add_statement_spec(pairs_view(tags@), *rel, None, None).1);
            KgStatement { cypher, params }
        },
    }
}

/// The statement that deletes `rel` between the user's entities.
pub fn kg_delete_statement(rel: &Relationship) -> (r: KgStatement)
    ensures
        (r.cypher@, kg_params_view(r.params@)) == kg_delete_statement_spec(*rel),
        kg_delete_statement_binds(*rel, kg_params_view(r.params@)),
        kg_delete_statement_shape(*rel, r.cypher@),
{
    proof {
        law_kg_delete_statement_binds_entities(*rel);
    }
    let a = concat("\n                MATCH (n:Entity {name: $source_name, user_id: $user_id})\n                -[r:", rel.relationship.as_str());
    let cypher = concat(a.as_str(), "]->\n                (m:Entity {name: $dest_name, user_id: $user_id})\n                DELETE r\n            ");
    let mut params: Vec<(String, KgParam)> = Vec::new();
    params.push(kg_text("source_name", rel.source.clone()));
    params.push(kg_text("dest_name", rel.destination.clone()));
    params.push(kg_text("user_id", rel.user_id.clone()));
    assert(kg_params_view(params@) =~= kg_delete_statement_spec(*rel).1);
    KgStatement { cypher, params }
}

/// `name` is bound in `ps`, and every binding of it is `v`.
pub open spec fn kg_binds(ps: Seq<(Seq<char>, KgParamView)>, name: Seq<char>, v: KgParamView) -> bool {
    &&& exists|i: int| 0 <= i < ps.len() && #[trigger] ps[i] == (name, v)
    &&& forall|i: int| 0 <= i < ps.len() && (#[trigger] ps[i]).0 == name ==> ps[i].1 == v
}

/// The bindings of a statement that stores `rel`: each entity by its id
/// when it is already stored, else by its own name (the source's as
/// `source_name`; the destination's as `dest_name`, or as `destination_name`
/// beside a stored source), and the relationship's user whenever an entity
/// is merged.
pub open spec fn kg_add_statement_binds(
    rel: Relationship,
    source_id: Option<Seq<char>>,
    dest_id: Option<Seq<char>>,
    ps: Seq<(Seq<char>, KgParamView)>,
) -> bool {
    &&& match source_id {
        Some(s) => kg_binds(ps, "source_id"@, KgParamView::Text(s)),
        None => kg_binds(ps, "source_name"@, KgParamView::Text(rel.source@)),
    }
    &&& match dest_id {
        Some(d) => kg_binds(ps, "dest_id"@, KgParamView::Text(d)),
        None => kg_binds(
            ps,
            if source_id is Some { "destination_name"@ } else { "dest_name"@ },
            KgParamView::Text(rel.destination@),
        ),
    }
    &&& (source_id is None || dest_id is None) ==> kg_binds(ps, "user_id"@, KgParamView::Text(rel.user_id@))
}

/// The text of a statement that stores `rel`: it ends by merging the
/// relationship's type from `source` to `destination`; with neither entity
/// stored it starts by merging the user's source, typed by its tag and named
/// by `$source_name`, and later merges the user's destination, typed by its
/// tag and named by `$dest_name`.
pub open spec fn kg_add_statement_shape(
    tags: Seq<(Seq<char>, Seq<char>)>,
    rel: Relationship,
    source_id: Option<Seq<char>>,
    dest_id: Option<Seq<char>>,
    cypher: Seq<char>,
) -> bool {
    &&& crate::text::has_suffix(
        cypher,
        " MERGE (source)-[r:"@ + rel.relationship@ + "]->(destination) ON CREATE SET r.created_at = timestamp(), r.updated_at = timestamp()"@,
    )
    &&& (source_id is None && dest_id is None) ==> {
        &&& crate::text::has_prefix(
            cypher,
            "MERGE (source:"@ + kg_entity_type(tags, rel.source@) + ":Entity {name: $source_name, user_id: $user_id})"@,
        )
        &&& exists|a: Seq<char>, b: Seq<char>|
            cypher == a + ("MERGE (destination:"@ + kg_entity_type(tags, rel.destination@)
                + ":Entity {name: $dest_name, user_id: $user_id})"@) + b
    }
}

/// The bindings of a statement that deletes `rel`: the source's name as
/// `source_name`, the destination's as `dest_name`, and the user.
pub open spec fn kg_delete_statement_binds(rel: Relationship, ps: Seq<(Seq<char>, KgParamView)>) -> bool {
    &&& kg_binds(ps, "source_name"@, KgParamView::Text(rel.source@))
    &&& kg_binds(ps, "dest_name"@, KgParamView::Text(rel.destination@))
    &&& kg_binds(ps, "user_id"@, KgParamView::Text(rel.user_id@))
}

/// The text of a statement that deletes `rel`: it matches the user's node
/// named by `$source_name`, a relationship of `rel`'s type from it to the
/// user's node named by `$dest_name`, and deletes that relationship only.
pub open spec fn kg_delete_statement_shape(rel: Relationship, cypher: Seq<char>) -> bool {
    &&& crate::text::has_prefix(cypher, "\n                MATCH (n:Entity {name: $source_name, user_id: $user_id})"@)
    &&& exists|a: Seq<char>, b: Seq<char>|
        cypher == a + ("-[r:"@ + rel.relationship@ + "]->\n                (m:Entity {name: $dest_name, user_id: $user_id})"@) + b
    &&& crate::text::has_suffix(cypher, "\n                DELETE r\n            "@)
}

proof fn lemma_kg_binds_at(ps: Seq<(Seq<char>, KgParamView)>, k: int)
    requires
        0 <= k < ps.len(),
        forall|j: int| 0 <= j < ps.len() && j != k ==> (#[trigger] ps[j]).0 != ps[k].0,
    ensures
        kg_binds(ps, ps[k].0, ps[k].1),
{
    assert(ps[k] == (ps[k].0, ps[k].1));
}

/// A statement that stores a relationship binds each entity to what
/// identifies it: its id when it is already stored, else its own name (the
/// source's name as the source, the destination's as the destination), and
/// the relationship's user whenever an entity is merged; and it merges the
/// relationship's type from the source to the destination, the source named
/// by `$source_name` and the destination by `$dest_name` when both are new.
pub proof fn law_kg_add_statement_binds_entities(
    tags: Seq<(Seq<char>, Seq<char>)>,
    rel: Relationship,
    source_id: Option<Seq<char>>,
    dest_id: Option<Seq<char>>,
)
    ensures
        kg_add_statement_binds(rel, source_id, dest_id, kg_add_statement_spec(tags, rel, source_id, dest_id).1),
        kg_add_statement_shape(tags, rel, source_id, dest_id, kg_add_statement_spec(tags, rel, source_id, dest_id).0),
{
    let st = kg_add_statement_spec(tags, rel, source_id, dest_id);
    let ps = st.1;
    let c = st.0;
    crate::memory_graph::lemma_param_names_distinct();
    let m = kg_merge_relationship(rel.relationship@);
    assert(c.skip(c.len() - m.len()) =~= m);
    match (source_id, dest_id) {
        (Some(s), Some(d)) => {
            lemma_kg_binds_at(ps, 0);
            lemma_kg_binds_at(ps, 1);
        },
        (Some(s), None) => {
            lemma_kg_binds_at(ps, 0);
            lemma_kg_binds_at(ps, 1);
            lemma_kg_binds_at(ps, 3);
        },
        (None, Some(d)) => {
            lemma_kg_binds_at(ps, 0);
            lemma_kg_binds_at(ps, 1);
            lemma_kg_binds_at(ps, 3);
        },
        (None, None) => {
            lemma_kg_binds_at(ps, 0);
            lemma_kg_binds_at(ps, 1);
            lemma_kg_binds_at(ps, 4);
            let ts = kg_entity_type(tags, rel.source@);
            let td = kg_entity_type(tags, rel.destination@);
            let l2 = ":Entity {name: $source_name, user_id: $user_id}) ON CREATE SET source.created_at = timestamp(), source.embedding = $source_embedding MERGE (destination:"@;
            let l2a = ":Entity {name: $source_name, user_id: $user_id})"@;
            let l2b = " ON CREATE SET source.created_at = timestamp(), source.embedding = $source_embedding "@;
            let md = "MERGE (destination:"@;
            let l3 = ":Entity {name: $dest_name, user_id: $user_id}) ON CREATE SET destination.created_at = timestamp(), destination.embedding = $dest_embedding"@;
            let l3a = ":Entity {name: $dest_name, user_id: $user_id})"@;
            let l3b = " ON CREATE SET destination.created_at = timestamp(), destination.embedding = $dest_embedding"@;
            reveal_strlit(":Entity {name: $source_name, user_id: $user_id}) ON CREATE SET source.created_at = timestamp(), source.embedding = $source_embedding MERGE (destination:");
            reveal_strlit(":Entity {name: $source_name, user_id: $user_id})");
            reveal_strlit(" ON CREATE SET source.created_at = timestamp(), source.embedding = $source_embedding ");
            reveal_strlit("MERGE (destination:");
            reveal_strlit(":Entity {name: $dest_name, user_id: $user_id}) ON CREATE SET destination.created_at = timestamp(), destination.embedding = $dest_embedding");
            reveal_strlit(":Entity {name: $dest_name, user_id: $user_id})");
            reveal_strlit(" ON CREATE SET destination.created_at = timestamp(), destination.embedding = $dest_embedding");
            assert(l2 =~= l2a + l2b + md);
            assert(l3 =~= l3a + l3b);
            let p = "MERGE (source:"@ + ts + l2a;
            let a = p + l2b;
            let b = l3b + m;
            assert(c =~= p + (l2b + md + td + l3a + b));
            assert(c.take(p.len() as int) =~= p);
            assert(c =~= a + (md + td + l3a) + b);
        },
    }
}

/// A statement that deletes a relationship binds the source's name as the
/// source, the destination's as the destination, and the relationship's
/// user; it matches the relationship's type from the source's node to the
/// destination's and deletes only that relationship.
pub proof fn law_kg_delete_statement_binds_entities(rel: Relationship)
    ensures
        kg_delete_statement_binds(rel, kg_delete_statement_spec(rel).1),
        kg_delete_statement_shape(rel, kg_delete_statement_spec(rel).0),
{
    let st = kg_delete_statement_spec(rel);
    let ps = st.1;
    let c = st.0;
    crate::memory_graph::lemma_param_names_distinct();
    lemma_kg_binds_at(ps, 0);
    lemma_kg_binds_at(ps, 1);
    lemma_kg_binds_at(ps, 2);
    let k1 = "\n                MATCH (n:Entity {name: $source_name, user_id: $user_id})\n                -[r:"@;
    let k1a = "\n                MATCH (n:Entity {name: $source_name, user_id: $user_id})"@;
    let k1b = "\n                "@;
    let k2 = "]->\n                (m:Entity {name: $dest_name, user_id: $user_id})\n                DELETE r\n            "@;
    let k2a = "]->\n                (m:Entity {name: $dest_name, user_id: $user_id})"@;
    let k2b = "\n                DELETE r\n            "@;
    reveal_strlit("\n                MATCH (n:Entity {name: $source_name, user_id: $user_id})\n                -[r:");
    reveal_strlit("\n                MATCH (n:Entity {name: $source_name, user_id: $user_id})");
    reveal_strlit("\n                ");
    reveal_strlit("-[r:");
    reveal_strlit("]->\n                (m:Entity {name: $dest_name, user_id: $user_id})\n                DELETE r\n            ");
    reveal_strlit("]->\n                (m:Entity {name: $dest_name, user_id: $user_id})");
    reveal_strlit("\n                DELETE r\n            ");
    assert(k1 =~= k1a + k1b + "-[r:"@);
    assert(k2 =~= k2a + k2b);
    assert(c =~= k1a + (k1b + ("-[r:"@ + rel.relationship@ + k2a) + k2b));
    assert(c.take(k1a.len() as int) =~= k1a);
    assert(c =~= (k1a + k1b) + ("-[r:"@ + rel.relationship@ + k2a) + k2b);
    assert(c.skip(c.len() - k2b.len()) =~= k2b);
}

/// One relationship a model asks to store.
#[derive(Debug, Clone, PartialEq, Eq)]
pub struct SingleRelationshipToolcall {
    pub source_entity: String,
    pub relatationship: String,
    pub destination_entity: String,
}

/// The relationships a model asks to store.
#[derive(Debug, Clone, PartialEq, Eq)]
pub struct RelationshipsToolcall {
    pub relationships: Vec<SingleRelationshipToolcall>,
}

/// One relationship a model asks to delete.
#[derive(Debug, Clone, PartialEq, Eq)]
pub struct SingleDelRelationshipToolcall {
    pub source_entity: String,
    pub relatationship: String,
    pub destination_entity: String,
}

/// The relationships a model asks to delete.
#[derive(Debug, Clone, PartialEq, Eq)]
pub struct DeleteGraphMemoryToolcall {
    pub relationships: Vec<SingleDelRelationshipToolcall>,
}

/// The instructions for deciding which stored relationships new information
/// makes outdated; `{user_id}` stands for the user.
pub const DELETE_RELATIONS_SYSTEM_PROMPT: &'static str = r#"You are a graph memory manager specializing in identifying, managing, and optimizing relationships within graph-based memories. Your primary task is to analyze a list of existing relationships and determine which ones should be deleted based on the new information provided.
Input:
1. Existing Graph Memories: A list of current graph memories, each containing source, relationship, and destination information.
2. New Text: The new information to be integrated into the existing graph structure.
3. Use "{user_id}" as node for any self-references (e.g., "I," "me," "my," etc.) in user messages.

Guidelines:
1. Identification: Use the new information to evaluate existing relationships in the memory graph.
2. Deletion Criteria: Delete a relationship only if it meets at least one of these conditions:
   - Outdated or Inaccurate: The new information is more recent or accurate.
   - Contradictory: The new information conflicts with or negates the existing information.
3. DO NOT DELETE if their is a possibility of same type of relationship but different destination nodes.
4. Comprehensive Analysis:
   - Thoroughly examine each existing relationship against the new information and delete as necessary.
   - Multiple deletions may be required based on the new information.
5. Semantic Integrity:
   - Ensure that deletions maintain or improve the overall semantic structure of the graph.
   - Avoid deleting relationships that are NOT contradictory/outdated to the new information.
6. Temporal Awareness: Prioritize recency when timestamps are available.
7. Necessity Principle: Only DELETE relationships that must be deleted and are contradictory/outdated to the new information to maintain an accurate and coherent memory graph.

Note: DO NOT DELETE if their is a possibility of same type of relationship but different destination nodes. 

For example: 
Existing Memory: alice -- loves_to_eat -- pizza
New Information: Alice also loves to eat burger.

Do not delete in the above example because there is a possibility that Alice loves to eat both pizza and burger.

Memory Format:
source -- relationship -- destination

Provide a list of deletion instructions, each specifying the relationship to be deleted."#;

/// The system prompt (the instructions with the user put in for `{user_id}`)
/// and the user prompt (the existing memories and the new information) of a
/// request for deletions.
pub fn delete_graph_memory_prompts(user_id: &str, existing_memories: &str, new_text: &str) -> (r: (String, String))
    ensures
        r.0@ == replace_all(DELETE_RELATIONS_SYSTEM_PROMPT@, "{user_id}"@, user_id@),
        r.1@ == "Here are the existing memories: "@ + existing_memories@ + " \n\n New Information: "@ + new_text@,
{
    proof {
        reveal_strlit("{user_id}");
    }
    let system_prompt = replace_str(DELETE_RELATIONS_SYSTEM_PROMPT, "{user_id}", user_id);
    let a = concat("Here are the existing memories: ", existing_memories);
    let b = concat(a.as_str(), " \n\n New Information: ");
    (system_prompt, concat(b.as_str(), new_text))
}

/// The instructions for extracting relationships, before the user's name.
pub const EXTRACT_RELATIONS_PROMPT_HEAD: &'static str = r#"You are an advanced algorithm designed to extract structured information from text to construct knowledge graphs. Your goal is to capture comprehensive and accurate information. Follow these key principles:

1. Extract only explicitly stated information from the text.
2. Establish relationships among the entities provided.
3. Use ""#;

/// The instructions for extracting relationships, after the user's name.
pub const EXTRACT_RELATIONS_PROMPT_TAIL: &'static str = r#"" as the source entity for any self-references (e.g., "I," "me," "my," etc.) in user messages.

Relationships:
    - Use consistent, general, and timeless relationship types.
    - Example: Prefer "professor" over "became_professor."
    - Relationships should only be established among the entities explicitly mentioned in the user message.

Entity Consistency:
    - Ensure that relationships are coherent and logically align with the context of the message.
    - Maintain consistent naming for entities across the extracted data.

Strive to construct a coherent and easily understandable knowledge graph by eshtablishing all the relationships among the entities and adherence to the user’s context.

Adhere strictly to these guidelines to ensure high-quality knowledge graph extraction."#;

/// The debug rendering of a list of names (`["a", "b"]`, each name quoted
/// and escaped).
pub uninterp spec fn debug_name_list(names: Seq<Seq<char>>) -> Seq<char>;

/// The debug rendering of a list of names, by std's `Debug` for a vector of strings.
#[verifier::external_body]
fn debug_names(names: &Vec<String>) -> (r: String)
    ensures
        r@ == debug_name_list(strings_view(names@)),
{
    format!("{:?}", names)
}

/// The system prompt (the instructions, with the user's name as the source
/// of self-references) and the user prompt (the entities, in the order
/// given, and the text) of a request to extract relationships.
pub fn extract_relationship_prompts(user_id: &str, entity_names: &Vec<String>, data: &str) -> (r: (String, String))
    ensures
        r.0@ == EXTRACT_RELATIONS_PROMPT_HEAD@ + user_id@ + EXTRACT_RELATIONS_PROMPT_TAIL@,
        r.1@ == "List of entities: "@ + debug_name_list(strings_view(entity_names@)) + ". \n\nText: "@ + data@,
{
    let a = concat(EXTRACT_RELATIONS_PROMPT_HEAD, user_id);
    let system_prompt = concat(a.as_str(), EXTRACT_RELATIONS_PROMPT_TAIL);
    let b = concat("List of entities: ", debug_names(entity_names).as_str());
    let c = concat(b.as_str(), ". \n\nText: ");
    (system_prompt, concat(c.as_str(), data))
}

impl RelationshipsToolcall {
    /// The name of the tool that establishes relationships.
    pub fn name() -> (r: &'static str)
        ensures
            r@ == "establish_relations"@,
    {
        "establish_relations"
    }
}

impl DeleteGraphMemoryToolcall {
    /// The name of the tool that deletes relationships.
    pub fn name() -> (r: &'static str)
        ensures
            r@ == "delete_graph_memory"@,
    {
        "delete_graph_memory"
    }
}

/// Tags gathered by name keep, for each entity, the type of its last tag,
/// and list each entity once.
pub proof fn law_batch_into_hashmap_last_wins(tags: Seq<EntityTag>)
    ensures
        crate::assoc::keys_unique(assoc_build(tag_pairs(tags))),
        forall|name: Seq<char>| #[trigger] assoc_get(assoc_build(tag_pairs(tags)), name) == crate::assoc::last_value(tag_pairs(tags), name),
{
    crate::assoc::lemma_assoc_build(tag_pairs(tags));
}

} // verus!
