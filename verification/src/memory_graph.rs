//! The memory graph: relationships between named entities, scoped to a user
//! and optionally to a character and a session, written to and read from a
//! graph database with Cypher statements; and the batching of memory updates.
use vstd::prelude::*;
use crate::assoc::{assoc_build, assoc_from_pairs, assoc_get, assoc_lookup, pairs_view};
use crate::text::{concat, join, join_strings, owned, str_eq};
use crate::text_enum::strings_view;
use crate::uuid_text::{uuid_text, uuid_to_string};

verus! {

broadcast use vstd::string::group_string_axioms;

/// The scope of memories: a user, and optionally a character and a session.
#[derive(Debug, Clone, Copy, PartialEq, Eq, Structural)]
pub struct Mem0Filter {
    pub user_id: u128,
    pub character_id: Option<u128>,
    pub session_id: Option<u128>,
}

/// A relationship `source -- relationship -- destination`.
#[derive(Debug, Clone, PartialEq, Eq)]
pub struct Relationship {
    pub source: String,
    pub relationship: String,
    pub destination: String,
}

/// The type given to a named entity.
#[derive(Debug, Clone, PartialEq, Eq)]
pub struct EntityTag {
    pub entity_name: String,
    pub entity_tag: String,
}

/// Relationships to store, the type of each entity by name, and their scope.
#[derive(Debug, Clone)]
pub struct GraphEntities {
    pub relationships: Vec<Relationship>,
    pub entity_tags: Vec<(String, String)>,
    pub filter: Mem0Filter,
}

/// The `(name, type)` pairs of entity tags, as sequences.
pub open spec fn tag_pairs(tags: Seq<EntityTag>) -> Seq<(Seq<char>, Seq<char>)> {
    tags.map_values(|t: EntityTag| (t.entity_name@, t.entity_tag@))
}

impl GraphEntities {
    /// The relationships with their entities' types, each name keeping the
    /// type of its last tag.
    pub fn new(relationships: Vec<Relationship>, entity_tags: Vec<EntityTag>, filter: Mem0Filter) -> (r: Self)
        ensures
            r.relationships@ == relationships@,
            pairs_view(r.entity_tags@) == assoc_build(tag_pairs(entity_tags@)),
            r.filter == filter,
    {
        let mut pairs: Vec<(String, String)> = Vec::new();
        let mut i: usize = 0;
        while i < entity_tags.len()
            invariant
                i <= entity_tags@.len(),
                pairs@.len() == i,
                pairs_view(pairs@) == tag_pairs(entity_tags@).take(i as int),
            decreases entity_tags@.len() - i,
        {
            let name = entity_tags[i].entity_name.clone();
            let tag = entity_tags[i].entity_tag.clone();
            let ghost prev = pairs@;
            pairs.push((name, tag));
            proof {
                assert(pairs@[i as int] == (name, tag));
                assert(pairs_view(pairs@)[i as int] == tag_pairs(entity_tags@)[i as int]);
                assert forall|k: int| 0 <= k < i implies pairs_view(pairs@)[k] == pairs_view(prev)[k] by {
                    assert(pairs@[k] == prev[k]);
                }
            }
            i = i + 1;
            assert(pairs_view(pairs@) =~= tag_pairs(entity_tags@).take(i as int));
        }
        assert(tag_pairs(entity_tags@).take(entity_tags@.len() as int) =~= tag_pairs(entity_tags@));
        GraphEntities { relationships, entity_tags: assoc_from_pairs(&pairs), filter }
    }
}

/// `name` is the source or the destination of some relationship.
pub open spec fn names_entity(rels: Seq<Relationship>, name: Seq<char>) -> bool {
    exists|i: int| 0 <= i < rels.len() && ((#[trigger] rels[i]).source@ == name || rels[i].destination@ == name)
}

/// Whether `v` holds `s`.
fn holds(v: &Vec<String>, s: &str) -> (r: bool)
    ensures
        r == strings_view(v@).contains(s@),
{
    let mut i: usize = 0;
    while i < v.len()
        invariant
            i <= v@.len(),
            forall|j: int| 0 <= j < i ==> (#[trigger] v@[j])@ != s@,
        decreases v@.len() - i,
    {
        if str_eq(v[i].as_str(), s) {
            assert(strings_view(v@)[i as int] == s@);
            return true;
        }
        i = i + 1;
    }
    assert forall|j: int| 0 <= j < strings_view(v@).len() implies strings_view(v@)[j] != s@ by {
        assert(strings_view(v@)[j] == v@[j]@);
    }
    false
}

/// The names of the entities the relationships mention, each once.
pub fn unique_entity_names(rels: &Vec<Relationship>) -> (r: Vec<String>)
    ensures
        forall|i: int, j: int| 0 <= i < j < r@.len() ==> (#[trigger] r@[i])@ != (#[trigger] r@[j])@,
        forall|name: Seq<char>| strings_view(r@).contains(name) <==> names_entity(rels@, name),
{
    let mut out: Vec<String> = Vec::new();
    let mut i: usize = 0;
    while i < rels.len()
        invariant
            i <= rels@.len(),
            forall|a: int, b: int| 0 <= a < b < out@.len() ==> (#[trigger] out@[a])@ != (#[trigger] out@[b])@,
            forall|name: Seq<char>| strings_view(out@).contains(name) <==> names_entity(rels@.take(i as int), name),
        decreases rels@.len() - i,
    {
        let ghost before = out@;
        let r = &rels[i];
        if !holds(&out, r.source.as_str()) {
            out.push(r.source.clone());
            proof {
                assert forall|a: int, b: int| 0 <= a < b < out@.len() implies (#[trigger] out@[a])@ != (#[trigger] out@[b])@ by {
                    if b == before.len() {
                        assert(strings_view(before)[a] == before[a]@);
                    }
                }
            }
        }
        let ghost mid = out@;
        if !holds(&out, r.destination.as_str()) {
            out.push(r.destination.clone());
            proof {
                assert forall|a: int, b: int| 0 <= a < b < out@.len() implies (#[trigger] out@[a])@ != (#[trigger] out@[b])@ by {
                    if b == mid.len() {
                        assert(strings_view(mid)[a] == mid[a]@);
                    }
                }
            }
        }
        proof {
            let t = rels@.take(i + 1);
            assert forall|name: Seq<char>| strings_view(out@).contains(name) <==> names_entity(t, name) by {
                if strings_view(out@).contains(name) {
                    let k = choose|k: int| 0 <= k < strings_view(out@).len() && strings_view(out@)[k] == name;
                    if k < before.len() {
                        assert(strings_view(before)[k] == name);
                        assert(strings_view(before).contains(name));
                        let w = choose|w: int| 0 <= w < i && ((#[trigger] rels@.take(i as int)[w]).source@ == name || rels@.take(i as int)[w].destination@ == name);
                        assert(t[w] == rels@.take(i as int)[w]);
                    } else {
                        assert(t[i as int] == rels@[i as int]);
                    }
                }
                if names_entity(t, name) {
                    let w = choose|w: int| 0 <= w < i + 1 && ((#[trigger] t[w]).source@ == name || t[w].destination@ == name);
                    if w < i {
                        assert(rels@.take(i as int)[w] == t[w]);
                        assert(names_entity(rels@.take(i as int), name));
                        assert(strings_view(before).contains(name));
                        let k = choose|k: int| 0 <= k < strings_view(before).len() && strings_view(before)[k] == name;
                        assert(strings_view(out@)[k] == name);
                    } else {
                        if t[w].source@ == name {
                            if strings_view(before).contains(name) {
                                let k = choose|k: int| 0 <= k < strings_view(before).len() && strings_view(before)[k] == name;
                                assert(strings_view(out@)[k] == name);
                            } else {
                                assert(strings_view(mid)[before.len() as int] == name);
                                assert(strings_view(out@)[before.len() as int] == name);
                            }
                        } else {
                            if strings_view(mid).contains(name) {
                                let k = choose|k: int| 0 <= k < strings_view(mid).len() && strings_view(mid)[k] == name;
                                assert(strings_view(out@)[k] == name);
                            } else {
                                assert(strings_view(out@)[mid.len() as int] == name);
                            }
                        }
                    }
                }
            }
        }
        i = i + 1;
    }
    assert(rels@.take(rels@.len() as int) =~= rels@);
    out
}

/// What a statement parameter holds: text, or the embedding of the
/// relationship's source or destination entity (attached by the caller).
#[derive(Debug, Clone, PartialEq, Eq)]
pub enum GraphParam {
    Text(String),
    SourceEmbedding,
    DestinationEmbedding,
}

/// A Cypher statement and its named parameters, in order.
#[derive(Debug, Clone, PartialEq, Eq)]
pub struct GraphStatement {
    pub cypher: String,
    pub params: Vec<(String, GraphParam)>,
}

/// A parameter, as sequences.
pub enum GraphParamView {
    Text(Seq<char>),
    SourceEmbedding,
    DestinationEmbedding,
}

pub open spec fn param_view(p: GraphParam) -> GraphParamView {
    match p {
        GraphParam::Text(s) => GraphParamView::Text(s@),
        GraphParam::SourceEmbedding => GraphParamView::SourceEmbedding,
        GraphParam::DestinationEmbedding => GraphParamView::DestinationEmbedding,
    }
}

pub open spec fn params_view(ps: Seq<(String, GraphParam)>) -> Seq<(Seq<char>, GraphParamView)> {
    ps.map_values(|p: (String, GraphParam)| (p.0@, param_view(p.1)))
}

/// The property list that identifies an entity: its name parameter, the user,
/// and the character and session when the scope has them.
pub open spec fn scope_props(name_prop: Seq<char>, f: Mem0Filter) -> Seq<char> {
    let base = seq![name_prop, "user_id: $user_id"@];
    let with_char = if f.character_id is Some { base.push("character_id: $character_id"@) } else { base };
    let with_session = if f.session_id is Some { with_char.push("session_id: $session_id"@) } else { with_char };
    join(with_session, ", "@)
}

/// The scope's optional parameters: character, then session.
pub open spec fn scope_params(f: Mem0Filter) -> Seq<(Seq<char>, GraphParamView)> {
    let c = match f.character_id {
        Some(cid) => seq![("character_id"@, GraphParamView::Text(uuid_text(cid)))],
        None => Seq::empty(),
    };
    let s = match f.session_id {
        Some(sid) => seq![("session_id"@, GraphParamView::Text(uuid_text(sid)))],
        None => Seq::empty(),
    };
    c + s
}

/// The clause that merges the relationship between `source` and `destination`.
pub open spec fn merge_relationship(rel: Seq<char>) -> Seq<char> {
    " MERGE (source)-[r:`"@ + rel + "`]->(destination) ON CREATE SET r.created_at = timestamp(), r.updated_at = timestamp()"@
}

/// The type of an entity: its tag, or `Entity`.
pub open spec fn entity_type(tags: Seq<(Seq<char>, Seq<char>)>, name: Seq<char>) -> Seq<char> {
    match assoc_get(tags, name) {
        Some(t) => t,
        None => "Entity"@,
    }
}

/// The statement that stores a relationship, given the ids of its source and
/// destination entities when they already exist.
pub open spec fn add_statement_spec(
    g: GraphEntities,
    rel: Relationship,
    source_id: Option<Seq<char>>,
    dest_id: Option<Seq<char>>,
) -> (Seq<char>, Seq<(Seq<char>, GraphParamView)>) {
    let f = g.filter;
    let tags = pairs_view(g.entity_tags@);
    let user = ("user_id"@, GraphParamView::Text(uuid_text(f.user_id)));
    match (source_id, dest_id) {
        (Some(s), Some(d)) => (
            "MATCH (source:Entity {id: $source_id}), (destination:Entity {id: $dest_id})"@ + merge_relationship(rel.relationship@),
            seq![("source_id"@, GraphParamView::Text(s)), ("dest_id"@, GraphParamView::Text(d))],
        ),
        (Some(s), None) => (
            "MATCH (source:Entity {id: $source_id}) MERGE (destination:`"@ + entity_type(tags, rel.destination@) + "`:Entity {"@
                + scope_props("name: $destination_name"@, f)
                + "}) ON CREATE SET destination.created_at = timestamp(), destination.embedding = $destination_embedding"@
                + merge_relationship(rel.relationship@),
            seq![
                ("source_id"@, GraphParamView::Text(s)),
                ("destination_name"@, GraphParamView::Text(rel.destination@)),
                user,
                ("destination_embedding"@, GraphParamView::DestinationEmbedding),
            ] + scope_params(f),
        ),
        (None, Some(d)) => (
            "MATCH (destination:Entity {id: $dest_id}) MERGE (source:`"@ + entity_type(tags, rel.source@) + "`:Entity {"@
                + scope_props("name: $source_name"@, f)
                + "}) ON CREATE SET source.created_at = timestamp(), source.embedding = $source_embedding"@
                + merge_relationship(rel.relationship@),
            seq![
                ("dest_id"@, GraphParamView::Text(d)),
                ("source_name"@, GraphParamView::Text(rel.source@)),
                user,
                ("source_embedding"@, GraphParamView::SourceEmbedding),
            ] + scope_params(f),
        ),
        (None, None) => (
            "MERGE (source:`"@ + entity_type(tags, rel.source@) + "`:Entity {"@ + scope_props("name: $source_name"@, f)
                + "}) ON CREATE SET source.created_at = timestamp(), source.embedding = $source_embedding MERGE (destination:`"@
                + entity_type(tags, rel.destination@) + "`:Entity {"@ + scope_props("name: $dest_name"@, f)
                + "}) ON CREATE SET destination.created_at = timestamp(), destination.embedding = $dest_embedding"@
                + merge_relationship(rel.relationship@),
            seq![
                ("source_name"@, GraphParamView::Text(rel.source@)),
                ("dest_name"@, GraphParamView::Text(rel.destination@)),
                ("source_embedding"@, GraphParamView::SourceEmbedding),
                ("dest_embedding"@, GraphParamView::DestinationEmbedding),
                user,
            ] + scope_params(f),
        ),
    }
}

/// The statement that deletes a relationship between the scope's entities.
pub open spec fn delete_statement_spec(f: Mem0Filter, rel: Relationship) -> (Seq<char>, Seq<(Seq<char>, GraphParamView)>) {
    (
        "\n                MATCH (n:Entity {"@ + scope_props("name: $source_name"@, f) + "})\n                -[r:`"@ + rel.relationship@
            + "`]->\n                (m:Entity {"@ + scope_props("name: $dest_name"@, f) + "})\n                DELETE r\n            "@,
        seq![
            ("source_name"@, GraphParamView::Text(rel.source@)),
            ("dest_name"@, GraphParamView::Text(rel.destination@)),
            ("user_id"@, GraphParamView::Text(uuid_text(f.user_id))),
        ] + scope_params(f),
    )
}

/// `AND <var>.<field> = '<id>'`, or nothing without an id.
pub open spec fn id_condition(var: Seq<char>, field: Seq<char>, id: Option<u128>) -> Seq<char> {
    match id {
        Some(x) => "AND "@ + var + "."@ + field + " = '"@ + uuid_text(x) + "'"@,
        None => Seq::empty(),
    }
}

/// The search for relationships around entities similar to an embedding,
/// within the scope.
pub open spec fn search_query_spec(f: Mem0Filter) -> Seq<char> {
    let cn = id_condition("n"@, "character_id"@, f.character_id);
    let cm = id_condition("m"@, "character_id"@, f.character_id);
    let sn = id_condition("n"@, "session_id"@, f.session_id);
    let sm = id_condition("m"@, "session_id"@, f.session_id);
    "\n                MATCH (n:Entity)\n                WHERE n.embedding IS NOT NULL AND n.user_id = $user_id "@ + cn + " "@ + sn
        + "\n                WITH n, round(2 * vector.similarity.cosine(n.embedding, $embedding) - 1, 4) AS similarity\n                WHERE similarity >= 0.7\n                CALL {\n                    WITH n\n                    MATCH (n)-[r]->(m:Entity)\n                    WHERE m.user_id = $user_id "@
        + cm + " "@ + sm
        + "\n                    RETURN n.name AS source, elementId(n) AS source_id, type(r) AS relationship, elementId(r) AS relation_id, m.name AS destination, elementId(m) AS destination_id\n                    UNION\n                    WITH n\n                    MATCH (m:Entity)-[r]->(n)\n                    WHERE m.user_id = $user_id "@
        + cm + " "@ + sm
        + "\n                    RETURN m.name AS source, elementId(m) AS source_id, type(r) AS relationship, elementId(r) AS relation_id, n.name AS destination, elementId(n) AS destination_id\n                }\n                WITH distinct source, source_id, relationship, relation_id, destination, destination_id, similarity\n                RETURN\n                    source,\n                    relationship,\n                    destination,\n                    similarity\n                ORDER BY similarity DESC\n                LIMIT 100\n            "@
}

/// The lookup of the existing entity most similar to an embedding, within the scope.
pub open spec fn similar_entity_query_spec(f: Mem0Filter) -> Seq<char> {
    "\n            CALL db.index.vector.queryNodes(\"memzero\", 1, $source_embedding)\n            YIELD node AS candidate, score AS similarity\n            WHERE candidate.user_id = $user_id\n            "@
        + id_condition("candidate"@, "character_id"@, f.character_id) + "\n            "@
        + id_condition("candidate"@, "session_id"@, f.session_id)
        + "\n            AND similarity >= 0.9\n            RETURN id(candidate);\n        "@
}

/// The scope's identifying properties for an entity.
fn scope_props_exec(name_prop: &str, f: &Mem0Filter) -> (r: String)
    ensures
        r@ == scope_props(name_prop@, *f),
{
    let mut parts: Vec<String> = Vec::new();
    parts.push(owned(name_prop));
    parts.push(owned("user_id: $user_id"));
    if f.character_id.is_some() {
        parts.push(owned("character_id: $character_id"));
    }
    if f.session_id.is_some() {
        parts.push(owned("session_id: $session_id"));
    }
    let ghost base = seq![name_prop@, "user_id: $user_id"@];
    let ghost with_char = if f.character_id is Some { base.push("character_id: $character_id"@) } else { base };
    let ghost with_session = if f.session_id is Some { with_char.push("session_id: $session_id"@) } else { with_char };
    assert(parts@.map_values(|p: String| p@) =~= with_session);
    join_strings(&parts, ", ")
}

/// Appends the scope's optional parameters.
fn push_scope_params(params: &mut Vec<(String, GraphParam)>, f: &Mem0Filter)
    ensures
        params_view(final(params)@) == params_view(old(params)@) + scope_params(*f),
{
    match f.character_id {
        Some(cid) => params.push((owned("character_id"), GraphParam::Text(uuid_to_string(cid)))),
        None => {},
    }
    match f.session_id {
        Some(sid) => params.push((owned("session_id"), GraphParam::Text(uuid_to_string(sid)))),
        None => {},
    }
    assert(params_view(params@) =~= params_view(old(params)@) + scope_params(*f));
}

/// The relationship-merging clause.
fn merge_relationship_exec(rel: &str) -> (r: String)
    ensures
        r@ == merge_relationship(rel@),
{
    let a = concat(" MERGE (source)-[r:`", rel);
    concat(a.as_str(), "`]->(destination) ON CREATE SET r.created_at = timestamp(), r.updated_at = timestamp()")
}

/// `text` as a text parameter named `name`.
fn text_param(name: &str, text: String) -> (r: (String, GraphParam))
    ensures
        r.0@ == name@,
        r.1 == GraphParam::Text(text),
{
    (owned(name), GraphParam::Text(text))
}

impl GraphEntities {
    /// The type of the entity `name`.
    fn entity_type_of(&self, name: &str) -> (r: String)
        ensures
            r@ == entity_type(pairs_view(self.entity_tags@), name@),
    {
        match assoc_lookup(&self.entity_tags, name) {
            Some(t) => t,
            None => owned("Entity"),
        }
    }

    /// The statement that stores `rel`, given the ids of its entities when
    /// they already exist: existing entities are matched by id, others are
    /// merged by name within the scope, with their type and embedding.
    pub fn add_statement(&self, rel: &Relationship, source_id: Option<String>, dest_id: Option<String>) -> (r: GraphStatement)
        ensures
            (r.cypher@, params_view(r.params@)) == add_statement_spec(
                *self,
                *rel,
                match source_id { Some(s) => Some(s@), None => None },
                match dest_id { Some(d) => Some(d@), None => None },
            ),
            add_statement_binds(
                self.filter.user_id,
                *rel,
                match source_id { Some(s) => Some(s@), None => None },
                match dest_id { Some(d) => Some(d@), None => None },
                params_view(r.params@),
            ),
            add_statement_shape(
                pairs_view(self.entity_tags@),
                *rel,
                match source_id { Some(s) => Some(s@), None => None },
                match dest_id { Some(d) => Some(d@), None => None },
                r.cypher@,
            ),
    {
        let ghost sv: Option<Seq<char>> = match &source_id { Some(s) => Some(s@), None => None };
        let ghost dv: Option<Seq<char>> = match &dest_id { Some(d) => Some(d@), None => None };
        let f = &self.filter;
        let tail = merge_relationship_exec(rel.relationship.as_str());
        let mut params: Vec<(String, GraphParam)> = Vec::new();
        let r = match (source_id, dest_id) {
            (Some(s), Some(d)) => {
                let cypher = concat("MATCH (source:Entity {id: $source_id}), (destination:Entity {id: $dest_id})", tail.as_str());
                params.push(text_param("source_id", s));
                params.push(text_param("dest_id", d));
                assert(params_view(params@) =~= add_statement_spec(*self, *rel, Some(s@), Some(d@)).1);
                GraphStatement { cypher, params }
            },
            (Some(s), None) => {
                let a = concat("MATCH (source:Entity {id: $source_id}) MERGE (destination:`", self.entity_type_of(rel.destination.as_str()).as_str());
                let b = concat(a.as_str(), "`:Entity {");
                let c = concat(b.as_str(), scope_props_exec("name: $destination_name", f).as_str());
                let e = concat(c.as_str(), "}) ON CREATE SET destination.created_at = timestamp(), destination.embedding = $destination_embedding");
                let cypher = concat(e.as_str(), tail.as_str());
                params.push(text_param("source_id", s));
                params.push(text_param("destination_name", rel.destination.clone()));
                params.push(text_param("user_id", uuid_to_string(f.user_id)));
                params.push((owned("destination_embedding"), GraphParam::DestinationEmbedding));
                push_scope_params(&mut params, f);
                assert(params_view(params@) =~= add_statement_spec(*self, *rel, Some(s@), None).1);
                GraphStatement { cypher, params }
            },
            (None, Some(d)) => {
                let a = concat("MATCH (destination:Entity {id: $dest_id}) MERGE (source:`", self.entity_type_of(rel.source.as_str()).as_str());
                let b = concat(a.as_str(), "`:Entity {");
                let c = concat(b.as_str(), scope_props_exec("name: $source_name", f).as_str());
                let e = concat(c.as_str(), "}) ON CREATE SET source.created_at = timestamp(), source.embedding = $source_embedding");
                let cypher = concat(e.as_str(), tail.as_str());
                params.push(text_param("dest_id", d));
                params.push(text_param("source_name", rel.source.clone()));
                params.push(text_param("user_id", uuid_to_string(f.user_id)));
                params.push((owned("source_embedding"), GraphParam::SourceEmbedding));
                push_scope_params(&mut params, f);
                assert(params_view(params@) =~= add_statement_spec(*self, *rel, None, Some(d@)).1);
                GraphStatement { cypher, params }
            },
            (None, None) => {
                let a = concat("MERGE (source:`", self.entity_type_of(rel.source.as_str()).as_str());
                let b = concat(a.as_str(), "`:Entity {");
                let c = concat(b.as_str(), scope_props_exec("name: $source_name", f).as_str());
                let e = concat(c.as_str(), "}) ON CREATE SET source.created_at = timestamp(), source.embedding = $source_embedding MERGE (destination:`");
                let g = concat(e.as_str(), self.entity_type_of(rel.destination.as_str()).as_str());
                let h = concat(g.as_str(), "`:Entity {");
                let k = concat(h.as_str(), scope_props_exec("name: $dest_name", f).as_str());
                let l = concat(k.as_str(), "}) ON CREATE SET destination.created_at = timestamp(), destination.embedding = $dest_embedding");
                let cypher = concat(l.as_str(), tail.as_str());
                params.push(text_param("source_name", rel.source.clone()));
                params.push(text_param("dest_name", rel.destination.clone()));
                params.push((owned("source_embedding"), GraphParam::SourceEmbedding));
                params.push((owned("dest_embedding"), GraphParam::DestinationEmbedding));
                params.push(text_param("user_id", uuid_to_string(f.user_id)));
                push_scope_params(&mut params, f);
                assert(params_view(params@) =~= add_statement_spec(*self, *rel, None, None).1);
                GraphStatement { cypher, params }
            },
        };
        proof {
            law_add_statement_binds_entities(*self, *rel, sv, dv);
        }
        r
    }

    /// The statements that store every relationship, in order, given the ids
    /// of the entities found already stored (`(name, id)` pairs): each
    /// relationship's source and destination are matched by id when found.
    pub fn add_statements(&self, found_ids: &Vec<(String, String)>) -> (r: Vec<GraphStatement>)
        ensures
            r@.len() == self.relationships@.len(),
            forall|i: int| 0 <= i < r@.len() ==> ((#[trigger] r@[i]).cypher@, params_view(r@[i].params@)) == add_statement_spec(
                *self,
                self.relationships@[i],
                assoc_get(pairs_view(found_ids@), self.relationships@[i].source@),
                assoc_get(pairs_view(found_ids@), self.relationships@[i].destination@),
            ),
    {
        let mut out: Vec<GraphStatement> = Vec::new();
        let mut i: usize = 0;
        while i < self.relationships.len()
            invariant
                i <= self.relationships@.len(),
                out@.len() == i,
                forall|k: int| 0 <= k < i ==> ((#[trigger] out@[k]).cypher@, params_view(out@[k].params@)) == add_statement_spec(
                    *self,
                    self.relationships@[k],
                    assoc_get(pairs_view(found_ids@), self.relationships@[k].source@),
                    assoc_get(pairs_view(found_ids@), self.relationships@[k].destination@),
                ),
            decreases self.relationships@.len() - i,
        {
            let rel = &self.relationships[i];
            let source_id = assoc_lookup(found_ids, rel.source.as_str());
            let dest_id = assoc_lookup(found_ids, rel.destination.as_str());
            proof {
                assert(match source_id { Some(s) => Some(s@), None => None::<Seq<char>> } == assoc_get(pairs_view(found_ids@), rel.source@));
                assert(match dest_id { Some(d) => Some(d@), None => None::<Seq<char>> } == assoc_get(pairs_view(found_ids@), rel.destination@));
            }
            let st = self.add_statement(rel, source_id, dest_id);
            out.push(st);
            i = i + 1;
        }
        out
    }

    /// The statement that deletes `rel` between the scope's entities.
    pub fn delete_statement(&self, rel: &Relationship) -> (r: GraphStatement)
        ensures
            (r.cypher@, params_view(r.params@)) == delete_statement_spec(self.filter, *rel),
            delete_statement_binds(self.filter.user_id, *rel, params_view(r.params@)),
            delete_statement_shape(*rel, r.cypher@),
    {
        proof {
            law_delete_statement_binds_entities(self.filter, *rel);
        }
        let f = &self.filter;
        let a = concat("\n                MATCH (n:Entity {", scope_props_exec("name: $source_name", f).as_str());
        let b = concat(a.as_str(), "})\n                -[r:`");
        let c = concat(b.as_str(), rel.relationship.as_str());
        let d = concat(c.as_str(), "`]->\n                (m:Entity {");
        let e = concat(d.as_str(), scope_props_exec("name: $dest_name", f).as_str());
        let cypher = concat(e.as_str(), "})\n                DELETE r\n            ");
        let mut params: Vec<(String, GraphParam)> = Vec::new();
        params.push(text_param("source_name", rel.source.clone()));
        params.push(text_param("dest_name", rel.destination.clone()));
        params.push(text_param("user_id", uuid_to_string(f.user_id)));
        push_scope_params(&mut params, f);
        assert(params_view(params@) =~= delete_statement_spec(self.filter, *rel).1);
        GraphStatement { cypher, params }
    }
}

/// `AND <var>.<field> = '<id>'`, or nothing without an id.
fn id_condition_exec(var: &str, field: &str, id: Option<u128>) -> (r: String)
    ensures
        r@ == id_condition(var@, field@, id),
{
    match id {
        Some(x) => {
            let a = concat("AND ", var);
            let b = concat(a.as_str(), ".");
            let c = concat(b.as_str(), field);
            let d = concat(c.as_str(), " = '");
            let e = concat(d.as_str(), uuid_to_string(x).as_str());
            concat(e.as_str(), "'")
        },
        None => {
            proof {
                reveal_strlit("");
            }
            owned("")
        },
    }
}

/// The search for relationships around entities similar to an embedding
/// (passed as `$embedding`, with the user as `$user_id`), within the scope.
pub fn search_query(f: &Mem0Filter) -> (r: String)
    ensures
        r@ == search_query_spec(*f),
        search_query_shape(r@),
{
    proof {
        law_search_most_similar_first(*f);
    }
    let cn = id_condition_exec("n", "character_id", f.character_id);
    let cm = id_condition_exec("m", "character_id", f.character_id);
    let sn = id_condition_exec("n", "session_id", f.session_id);
    let sm = id_condition_exec("m", "session_id", f.session_id);
    let mut q = concat("\n                MATCH (n:Entity)\n                WHERE n.embedding IS NOT NULL AND n.user_id = $user_id ", cn.as_str());
    q = concat(q.as_str(), " ");
    q = concat(q.as_str(), sn.as_str());
    q = concat(q.as_str(), "\n                WITH n, round(2 * vector.similarity.cosine(n.embedding, $embedding) - 1, 4) AS similarity\n                WHERE similarity >= 0.7\n                CALL {\n                    WITH n\n                    MATCH (n)-[r]->(m:Entity)\n                    WHERE m.user_id = $user_id ");
    q = concat(q.as_str(), cm.as_str());
    q = concat(q.as_str(), " ");
    q = concat(q.as_str(), sm.as_str());
    q = concat(q.as_str(), "\n                    RETURN n.name AS source, elementId(n) AS source_id, type(r) AS relationship, elementId(r) AS relation_id, m.name AS destination, elementId(m) AS destination_id\n                    UNION\n                    WITH n\n                    MATCH (m:Entity)-[r]->(n)\n                    WHERE m.user_id = $user_id ");
    q = concat(q.as_str(), cm.as_str());
    q = concat(q.as_str(), " ");
    q = concat(q.as_str(), sm.as_str());
    concat(q.as_str(), "\n                    RETURN m.name AS source, elementId(m) AS source_id, type(r) AS relationship, elementId(r) AS relation_id, n.name AS destination, elementId(n) AS destination_id\n                }\n                WITH distinct source, source_id, relationship, relation_id, destination, destination_id, similarity\n                RETURN\n                    source,\n                    relationship,\n                    destination,\n                    similarity\n                ORDER BY similarity DESC\n                LIMIT 100\n            ")
}

/// The lookup of the existing entity most similar to an embedding (passed as
/// `$source_embedding`, with the user as `$user_id`), within the scope.
pub fn similar_entity_query(f: &Mem0Filter) -> (r: String)
    ensures
        r@ == similar_entity_query_spec(*f),
        similar_entity_query_shape(r@),
{
    proof {
        law_similar_entity_nearest_only(*f);
    }
    let a = concat("\n            CALL db.index.vector.queryNodes(\"memzero\", 1, $source_embedding)\n            YIELD node AS candidate, score AS similarity\n            WHERE candidate.user_id = $user_id\n            ", id_condition_exec("candidate", "character_id", f.character_id).as_str());
    let b = concat(a.as_str(), "\n            ");
    let c = concat(b.as_str(), id_condition_exec("candidate", "session_id", f.session_id).as_str());
    concat(c.as_str(), "\n            AND similarity >= 0.9\n            RETURN id(candidate);\n        ")
}

// ---------------------------------------------------------------------------
// Batched memory updates
// ---------------------------------------------------------------------------

/// What to do with a memory.
#[derive(Debug, Clone, Copy, PartialEq, Eq, Structural)]
pub enum MemoryEvent {
    Add,
    Update,
    Delete,
    /// Nothing to do.
    Keep,
}

/// A memory change: the memory's id, its scope, the change and its content.
#[derive(Debug, Clone)]
pub struct MemoryUpdateEntry {
    pub id: u128,
    pub filter: Mem0Filter,
    pub event: MemoryEvent,
    pub content: String,
}

/// How many memories were added, updated and deleted.
#[derive(Debug, Clone, Copy, PartialEq, Eq, Structural)]
pub struct BatchUpdateSummary {
    pub added: usize,
    pub updated: usize,
    pub deleted: usize,
}

/// The changes of a batch sorted by kind, each kind in the batch's order.
#[derive(Debug, Clone)]
pub struct BatchUpdatePlan {
    pub to_add: Vec<MemoryUpdateEntry>,
    pub to_update: Vec<MemoryUpdateEntry>,
    pub to_delete_ids: Vec<u128>,
}

/// The entries of `us` with event `e`, in order.
pub open spec fn with_event(us: Seq<MemoryUpdateEntry>, e: MemoryEvent) -> Seq<MemoryUpdateEntry>
    decreases us.len(),
{
    if us.len() == 0 {
        Seq::empty()
    } else if us.last().event == e {
        with_event(us.drop_last(), e).push(us.last())
    } else {
        with_event(us.drop_last(), e)
    }
}

/// The ids of the entries to delete, in order.
pub open spec fn ids_to_delete(us: Seq<MemoryUpdateEntry>) -> Seq<u128> {
    with_event(us, MemoryEvent::Delete).map_values(|u: MemoryUpdateEntry| u.id)
}

proof fn lemma_with_event_len(us: Seq<MemoryUpdateEntry>, e: MemoryEvent)
    ensures
        with_event(us, e).len() <= us.len(),
    decreases us.len(),
{
    if us.len() > 0 {
        lemma_with_event_len(us.drop_last(), e);
    }
}

/// Sorts a batch of changes into additions, updates and deletions; changes
/// with no event are dropped.
pub fn plan_batch_update(updates: Vec<MemoryUpdateEntry>) -> (r: BatchUpdatePlan)
    ensures
        r.to_add@ == with_event(updates@, MemoryEvent::Add),
        r.to_update@ == with_event(updates@, MemoryEvent::Update),
        r.to_delete_ids@ == ids_to_delete(updates@),
{
    let mut to_add: Vec<MemoryUpdateEntry> = Vec::new();
    let mut to_update: Vec<MemoryUpdateEntry> = Vec::new();
    let mut to_delete_ids: Vec<u128> = Vec::new();
    let mut i: usize = 0;
    while i < updates.len()
        invariant
            i <= updates@.len(),
            to_add@ == with_event(updates@.take(i as int), MemoryEvent::Add),
            to_update@ == with_event(updates@.take(i as int), MemoryEvent::Update),
            to_delete_ids@ == ids_to_delete(updates@.take(i as int)),
        decreases updates@.len() - i,
    {
        assert(updates@.take(i + 1).drop_last() =~= updates@.take(i as int));
        let u = &updates[i];
        match u.event {
            MemoryEvent::Add => to_add.push(u.clone_entry()),
            MemoryEvent::Update => to_update.push(u.clone_entry()),
            MemoryEvent::Delete => to_delete_ids.push(u.id),
            MemoryEvent::Keep => {},
        }
        i = i + 1;
        assert(to_delete_ids@ =~= ids_to_delete(updates@.take(i as int)));
    }
    assert(updates@.take(updates@.len() as int) =~= updates@);
    BatchUpdatePlan { to_add, to_update, to_delete_ids }
}

impl MemoryUpdateEntry {
    /// A copy of the entry.
    pub fn clone_entry(&self) -> (r: Self)
        ensures
            r == *self,
    {
        MemoryUpdateEntry { id: self.id, filter: self.filter, event: self.event, content: self.content.clone() }
    }
}

impl BatchUpdatePlan {
    /// The counts of the plan.
    pub fn summary(&self) -> (r: BatchUpdateSummary)
        ensures
            r.added == self.to_add@.len(),
            r.updated == self.to_update@.len(),
            r.deleted == self.to_delete_ids@.len(),
    {
        BatchUpdateSummary { added: self.to_add.len(), updated: self.to_update.len(), deleted: self.to_delete_ids.len() }
    }

    /// The contents to embed: those of the additions, then of the updates.
    pub fn contents_to_embed(&self) -> (r: Vec<String>)
        ensures
            r@.len() == self.to_add@.len() + self.to_update@.len(),
            forall|i: int| 0 <= i < self.to_add@.len() ==> #[trigger] r@[i] == self.to_add@[i].content,
            forall|i: int| 0 <= i < self.to_update@.len() ==> #[trigger] r@[self.to_add@.len() + i] == self.to_update@[i].content,
    {
        let mut out: Vec<String> = Vec::new();
        let mut i: usize = 0;
        while i < self.to_add.len()
            invariant
                i <= self.to_add@.len(),
                out@.len() == i,
                forall|k: int| 0 <= k < i ==> #[trigger] out@[k] == self.to_add@[k].content,
            decreases self.to_add@.len() - i,
        {
            out.push(self.to_add[i].content.clone());
            i = i + 1;
        }
        let mut j: usize = 0;
        while j < self.to_update.len()
            invariant
                j <= self.to_update@.len(),
                out@.len() == self.to_add@.len() + j,
                forall|k: int| 0 <= k < self.to_add@.len() ==> #[trigger] out@[k] == self.to_add@[k].content,
                forall|k: int| 0 <= k < j ==> #[trigger] out@[self.to_add@.len() + k] == self.to_update@[k].content,
            decreases self.to_update@.len() - j,
        {
            out.push(self.to_update[j].content.clone());
            j = j + 1;
        }
        out
    }

    /// How many additions and updates are written given `n` embeddings (the
    /// first embeddings go to the additions, the rest to the updates); `None`
    /// when there are fewer embeddings than additions.
    pub fn rows_written(&self, n: usize) -> (r: Option<(usize, usize)>)
        ensures
            n < self.to_add@.len() ==> r is None,
            n >= self.to_add@.len() ==> r == Some((
                self.to_add@.len() as usize,
                if n - self.to_add@.len() < self.to_update@.len() { (n - self.to_add@.len()) as usize } else { self.to_update@.len() as usize },
            )),
    {
        let adds = self.to_add.len();
        if n < adds {
            return None;
        }
        let rest = n - adds;
        let ups = if rest < self.to_update.len() { rest } else { self.to_update.len() };
        Some((adds, ups))
    }
}

proof fn lemma_with_event_counts(us: Seq<MemoryUpdateEntry>)
    ensures
        with_event(us, MemoryEvent::Add).len() + with_event(us, MemoryEvent::Update).len()
            + with_event(us, MemoryEvent::Delete).len() + with_event(us, MemoryEvent::Keep).len() == us.len(),
    decreases us.len(),
{
    if us.len() > 0 {
        lemma_with_event_counts(us.drop_last());
    }
}

/// Every change of a batch is counted once: as an addition, an update, a
/// deletion, or a change with nothing to do; so the summary never counts
/// more changes than the batch holds.
pub proof fn law_batch_partition(us: Seq<MemoryUpdateEntry>)
    ensures
        with_event(us, MemoryEvent::Add).len() + with_event(us, MemoryEvent::Update).len()
            + ids_to_delete(us).len() + with_event(us, MemoryEvent::Keep).len() == us.len(),
{
    lemma_with_event_counts(us);
}

/// The graph's entity types keep, for each name, the type of its last tag,
/// and list each name once.
pub proof fn law_entity_tags_last_wins(tags: Seq<EntityTag>)
    ensures
        crate::assoc::keys_unique(assoc_build(tag_pairs(tags))),
        forall|name: Seq<char>| #[trigger] assoc_get(assoc_build(tag_pairs(tags)), name) == crate::assoc::last_value(tag_pairs(tags), name),
{
    crate::assoc::lemma_assoc_build(tag_pairs(tags));
}

// ---------------------------------------------------------------------------
// What the statements bind and match
// ---------------------------------------------------------------------------

/// `name` is bound in `ps`, and every binding of it is `v`.
pub open spec fn binds(ps: Seq<(Seq<char>, GraphParamView)>, name: Seq<char>, v: GraphParamView) -> bool {
    &&& exists|i: int| 0 <= i < ps.len() && #[trigger] ps[i] == (name, v)
    &&& forall|i: int| 0 <= i < ps.len() && (#[trigger] ps[i]).0 == name ==> ps[i].1 == v
}

/// The bindings of a statement that stores `rel`: each entity by its id
/// when it is already stored, else by its own name (the source's as
/// `source_name`; the destination's as `dest_name`, or as `destination_name`
/// beside a stored source), and the user whenever an entity is merged.
pub open spec fn add_statement_binds(
    user: u128,
    rel: Relationship,
    source_id: Option<Seq<char>>,
    dest_id: Option<Seq<char>>,
    ps: Seq<(Seq<char>, GraphParamView)>,
) -> bool {
    &&& match source_id {
        Some(s) => binds(ps, "source_id"@, GraphParamView::Text(s)),
        None => binds(ps, "source_name"@, GraphParamView::Text(rel.source@)),
    }
    &&& match dest_id {
        Some(d) => binds(ps, "dest_id"@, GraphParamView::Text(d)),
        None => binds(
            ps,
            if source_id is Some { "destination_name"@ } else { "dest_name"@ },
            GraphParamView::Text(rel.destination@),
        ),
    }
    &&& (source_id is None || dest_id is None) ==> binds(ps, "user_id"@, GraphParamView::Text(uuid_text(user)))
}

/// The text of a statement that stores `rel`: it ends by merging the
/// relationship's type from `source` to `destination`; with neither entity
/// stored it starts by merging the source, typed by its tag and named by
/// `$source_name`, and later merges the destination, typed by its tag and
/// named by `$dest_name`.
pub open spec fn add_statement_shape(
    tags: Seq<(Seq<char>, Seq<char>)>,
    rel: Relationship,
    source_id: Option<Seq<char>>,
    dest_id: Option<Seq<char>>,
    cypher: Seq<char>,
) -> bool {
    &&& crate::text::has_suffix(
        cypher,
        " MERGE (source)-[r:`"@ + rel.relationship@ + "`]->(destination) ON CREATE SET r.created_at = timestamp(), r.updated_at = timestamp()"@,
    )
    &&& (source_id is None && dest_id is None) ==> {
        &&& crate::text::has_prefix(cypher, "MERGE (source:`"@ + entity_type(tags, rel.source@) + "`:Entity {name: $source_name"@)
        &&& exists|a: Seq<char>, b: Seq<char>|
            cypher == a + ("MERGE (destination:`"@ + entity_type(tags, rel.destination@) + "`:Entity {name: $dest_name"@) + b
    }
}

/// The bindings of a statement that deletes `rel`: the source's name as
/// `source_name`, the destination's as `dest_name`, and the user.
pub open spec fn delete_statement_binds(user: u128, rel: Relationship, ps: Seq<(Seq<char>, GraphParamView)>) -> bool {
    &&& binds(ps, "source_name"@, GraphParamView::Text(rel.source@))
    &&& binds(ps, "dest_name"@, GraphParamView::Text(rel.destination@))
    &&& binds(ps, "user_id"@, GraphParamView::Text(uuid_text(user)))
}

/// The text of a statement that deletes `rel`: it matches a node named by
/// `$source_name`, a relationship of `rel`'s type from it to a node named by
/// `$dest_name`, and deletes that relationship only.
pub open spec fn delete_statement_shape(rel: Relationship, cypher: Seq<char>) -> bool {
    &&& crate::text::has_prefix(cypher, "\n                MATCH (n:Entity {name: $source_name"@)
    &&& exists|a: Seq<char>, b: Seq<char>|
        cypher == a + ("-[r:`"@ + rel.relationship@ + "`]->\n                (m:Entity {name: $dest_name"@) + b
    &&& crate::text::has_suffix(cypher, "})\n                DELETE r\n            "@)
}

/// The text of the search: it keeps entities at least 0.7 similar to the
/// embedding and returns the hundred most similar relationships, most
/// similar first.
pub open spec fn search_query_shape(q: Seq<char>) -> bool {
    &&& exists|a: Seq<char>, b: Seq<char>| q == a + "WHERE similarity >= 0.7"@ + b
    &&& crate::text::has_suffix(q, "ORDER BY similarity DESC\n                LIMIT 100\n            "@)
}

proof fn lemma_binds_at(ps: Seq<(Seq<char>, GraphParamView)>, k: int)
    requires
        0 <= k < ps.len(),
        forall|j: int| 0 <= j < ps.len() && j != k ==> (#[trigger] ps[j]).0 != ps[k].0,
    ensures
        binds(ps, ps[k].0, ps[k].1),
{
    assert(ps[k] == (ps[k].0, ps[k].1));
}

proof fn lemma_join_first(parts: Seq<Seq<char>>, sep: Seq<char>)
    requires
        parts.len() >= 1,
    ensures
        exists|t: Seq<char>| join(parts, sep) == parts[0] + t,
    decreases parts.len(),
{
    if parts.len() == 1 {
        assert(join(parts, sep) =~= parts[0] + Seq::<char>::empty());
    } else {
        lemma_join_first(parts.drop_last(), sep);
        let t = choose|t: Seq<char>| join(parts.drop_last(), sep) == parts.drop_last()[0] + t;
        assert(join(parts, sep) =~= parts[0] + (t + sep + parts.last()));
    }
}

/// An entity's scope properties start with its name property.
proof fn lemma_scope_props_start(name_prop: Seq<char>, f: Mem0Filter)
    ensures
        exists|t: Seq<char>| scope_props(name_prop, f) == name_prop + t,
{
    let base = seq![name_prop, "user_id: $user_id"@];
    let with_char = if f.character_id is Some { base.push("character_id: $character_id"@) } else { base };
    let with_session = if f.session_id is Some { with_char.push("session_id: $session_id"@) } else { with_char };
    assert(with_session[0] == name_prop);
    lemma_join_first(with_session, ", "@);
}

/// The scope's parameters are the character and the session.
proof fn lemma_scope_param_names(f: Mem0Filter)
    ensures
        forall|i: int| 0 <= i < scope_params(f).len() ==>
            (#[trigger] scope_params(f)[i]).0 == "character_id"@ || scope_params(f)[i].0 == "session_id"@,
        scope_params(f).len() <= 2,
{
}

pub(crate) proof fn lemma_param_names_distinct()
    ensures
        "source_name"@.len() == 11,
        "dest_name"@.len() == 9,
        "destination_name"@.len() == 16,
        "source_embedding"@.len() == 16,
        "dest_embedding"@.len() == 14,
        "destination_embedding"@.len() == 21,
        "user_id"@.len() == 7,
        "source_id"@.len() == 9,
        "dest_id"@.len() == 7,
        "character_id"@.len() == 12,
        "session_id"@.len() == 10,
        "dest_id"@[0] != "user_id"@[0],
        "source_id"@[0] != "dest_name"@[0],
        "destination_name"@[0] != "source_embedding"@[0],
{
    reveal_strlit("source_name");
    reveal_strlit("dest_name");
    reveal_strlit("destination_name");
    reveal_strlit("source_embedding");
    reveal_strlit("dest_embedding");
    reveal_strlit("destination_embedding");
    reveal_strlit("user_id");
    reveal_strlit("source_id");
    reveal_strlit("dest_id");
    reveal_strlit("character_id");
    reveal_strlit("session_id");
}

/// A statement that stores a relationship binds each entity to what
/// identifies it: its id when it is already stored, else its own name (the
/// source's name as the source, the destination's as the destination), and
/// the user whenever an entity is merged; and it merges the relationship's
/// type from the source to the destination, the source named by
/// `$source_name` and the destination by `$dest_name` when both are new.
pub proof fn law_add_statement_binds_entities(
    g: GraphEntities,
    rel: Relationship,
    source_id: Option<Seq<char>>,
    dest_id: Option<Seq<char>>,
)
    ensures
        add_statement_binds(g.filter.user_id, rel, source_id, dest_id, add_statement_spec(g, rel, source_id, dest_id).1),
        add_statement_shape(pairs_view(g.entity_tags@), rel, source_id, dest_id, add_statement_spec(g, rel, source_id, dest_id).0),
{
    let f = g.filter;
    let tags = pairs_view(g.entity_tags@);
    let st = add_statement_spec(g, rel, source_id, dest_id);
    let ps = st.1;
    let c = st.0;
    lemma_param_names_distinct();
    lemma_scope_param_names(f);
    let m = merge_relationship(rel.relationship@);
    assert(m == " MERGE (source)-[r:`"@ + rel.relationship@ + "`]->(destination) ON CREATE SET r.created_at = timestamp(), r.updated_at = timestamp()"@);
    assert(c.skip(c.len() - m.len()) =~= m);
    let sp = scope_params(f);
    match (source_id, dest_id) {
        (Some(s), Some(d)) => {
            lemma_binds_at(ps, 0);
            lemma_binds_at(ps, 1);
        },
        (Some(s), None) => {
            assert forall|j: int| 0 <= j < ps.len() && j != 0 implies (#[trigger] ps[j]).0 != ps[0].0 by {
                if j >= 4 { assert(ps[j] == sp[j - 4]); }
            }
            assert forall|j: int| 0 <= j < ps.len() && j != 1 implies (#[trigger] ps[j]).0 != ps[1].0 by {
                if j >= 4 { assert(ps[j] == sp[j - 4]); }
            }
            assert forall|j: int| 0 <= j < ps.len() && j != 2 implies (#[trigger] ps[j]).0 != ps[2].0 by {
                if j >= 4 { assert(ps[j] == sp[j - 4]); }
            }
            lemma_binds_at(ps, 0);
            lemma_binds_at(ps, 1);
            lemma_binds_at(ps, 2);
        },
        (None, Some(d)) => {
            assert forall|j: int| 0 <= j < ps.len() && j != 0 implies (#[trigger] ps[j]).0 != ps[0].0 by {
                if j >= 4 { assert(ps[j] == sp[j - 4]); }
            }
            assert forall|j: int| 0 <= j < ps.len() && j != 1 implies (#[trigger] ps[j]).0 != ps[1].0 by {
                if j >= 4 { assert(ps[j] == sp[j - 4]); }
            }
            assert forall|j: int| 0 <= j < ps.len() && j != 2 implies (#[trigger] ps[j]).0 != ps[2].0 by {
                if j >= 4 { assert(ps[j] == sp[j - 4]); }
            }
            lemma_binds_at(ps, 0);
            lemma_binds_at(ps, 1);
            lemma_binds_at(ps, 2);
        },
        (None, None) => {
            assert forall|j: int| 0 <= j < ps.len() && j != 0 implies (#[trigger] ps[j]).0 != ps[0].0 by {
                if j >= 5 { assert(ps[j] == sp[j - 5]); }
            }
            assert forall|j: int| 0 <= j < ps.len() && j != 1 implies (#[trigger] ps[j]).0 != ps[1].0 by {
                if j >= 5 { assert(ps[j] == sp[j - 5]); }
            }
            assert forall|j: int| 0 <= j < ps.len() && j != 4 implies (#[trigger] ps[j]).0 != ps[4].0 by {
                if j >= 5 { assert(ps[j] == sp[j - 5]); }
            }
            lemma_binds_at(ps, 0);
            lemma_binds_at(ps, 1);
            lemma_binds_at(ps, 4);
            // The text: the source merged first, the destination after it.
            let ts = entity_type(tags, rel.source@);
            let td = entity_type(tags, rel.destination@);
            lemma_scope_props_start("name: $source_name"@, f);
            lemma_scope_props_start("name: $dest_name"@, f);
            let t1 = choose|t: Seq<char>| scope_props("name: $source_name"@, f) == "name: $source_name"@ + t;
            let t2 = choose|t: Seq<char>| scope_props("name: $dest_name"@, f) == "name: $dest_name"@ + t;
            reveal_strlit("`:Entity {");
            reveal_strlit("name: $source_name");
            reveal_strlit("name: $dest_name");
            reveal_strlit("`:Entity {name: $source_name");
            reveal_strlit("`:Entity {name: $dest_name");
            reveal_strlit("}) ON CREATE SET source.created_at = timestamp(), source.embedding = $source_embedding MERGE (destination:`");
            reveal_strlit("}) ON CREATE SET source.created_at = timestamp(), source.embedding = $source_embedding ");
            reveal_strlit("MERGE (destination:`");
            let l3a = "}) ON CREATE SET source.created_at = timestamp(), source.embedding = $source_embedding "@;
            assert("}) ON CREATE SET source.created_at = timestamp(), source.embedding = $source_embedding MERGE (destination:`"@
                =~= l3a + "MERGE (destination:`"@);
            assert("`:Entity {"@ + "name: $source_name"@ =~= "`:Entity {name: $source_name"@);
            assert("`:Entity {"@ + "name: $dest_name"@ =~= "`:Entity {name: $dest_name"@);
            let p = "MERGE (source:`"@ + ts + "`:Entity {name: $source_name"@;
            let rest = "}) ON CREATE SET destination.created_at = timestamp(), destination.embedding = $dest_embedding"@ + m;
            let a = p + t1 + l3a;
            let b = t2 + rest;
            assert(c =~= p + (t1 + l3a + ("MERGE (destination:`"@ + td + "`:Entity {name: $dest_name"@) + b));
            assert(c.take(p.len() as int) =~= p);
            assert(c =~= a + ("MERGE (destination:`"@ + td + "`:Entity {name: $dest_name"@) + b);
        },
    }
}

/// A statement that deletes a relationship binds the source's name as the
/// source, the destination's as the destination, and the user; it matches
/// the relationship's type from the source's node to the destination's and
/// deletes only that relationship.
pub proof fn law_delete_statement_binds_entities(f: Mem0Filter, rel: Relationship)
    ensures
        delete_statement_binds(f.user_id, rel, delete_statement_spec(f, rel).1),
        delete_statement_shape(rel, delete_statement_spec(f, rel).0),
{
    let st = delete_statement_spec(f, rel);
    let ps = st.1;
    let c = st.0;
    let sp = scope_params(f);
    lemma_param_names_distinct();
    lemma_scope_param_names(f);
    assert forall|j: int| 0 <= j < ps.len() && j != 0 implies (#[trigger] ps[j]).0 != ps[0].0 by {
        if j >= 3 { assert(ps[j] == sp[j - 3]); }
    }
    assert forall|j: int| 0 <= j < ps.len() && j != 1 implies (#[trigger] ps[j]).0 != ps[1].0 by {
        if j >= 3 { assert(ps[j] == sp[j - 3]); }
    }
    assert forall|j: int| 0 <= j < ps.len() && j != 2 implies (#[trigger] ps[j]).0 != ps[2].0 by {
        if j >= 3 { assert(ps[j] == sp[j - 3]); }
    }
    lemma_binds_at(ps, 0);
    lemma_binds_at(ps, 1);
    lemma_binds_at(ps, 2);
    lemma_scope_props_start("name: $source_name"@, f);
    lemma_scope_props_start("name: $dest_name"@, f);
    let t1 = choose|t: Seq<char>| scope_props("name: $source_name"@, f) == "name: $source_name"@ + t;
    let t2 = choose|t: Seq<char>| scope_props("name: $dest_name"@, f) == "name: $dest_name"@ + t;
    reveal_strlit("\n                MATCH (n:Entity {");
    reveal_strlit("name: $source_name");
    reveal_strlit("name: $dest_name");
    reveal_strlit("\n                MATCH (n:Entity {name: $source_name");
    reveal_strlit("})\n                -[r:`");
    reveal_strlit("})\n                ");
    reveal_strlit("-[r:`");
    reveal_strlit("`]->\n                (m:Entity {");
    reveal_strlit("`]->\n                (m:Entity {name: $dest_name");
    let d1 = "\n                MATCH (n:Entity {"@;
    let d4 = "})\n                DELETE r\n            "@;
    assert(d1 + "name: $source_name"@ =~= "\n                MATCH (n:Entity {name: $source_name"@);
    assert("})\n                -[r:`"@ =~= "})\n                "@ + "-[r:`"@);
    assert("`]->\n                (m:Entity {"@ + "name: $dest_name"@ =~= "`]->\n                (m:Entity {name: $dest_name"@);
    let a = d1 + scope_props("name: $source_name"@, f) + "})\n                "@;
    let b = t2 + d4;
    assert(c =~= a + ("-[r:`"@ + rel.relationship@ + "`]->\n                (m:Entity {name: $dest_name"@) + b);
    assert(c =~= "\n                MATCH (n:Entity {name: $source_name"@ + (t1 + "})\n                -[r:`"@ + rel.relationship@
        + "`]->\n                (m:Entity {"@ + scope_props("name: $dest_name"@, f) + d4));
    assert(c.take("\n                MATCH (n:Entity {name: $source_name"@.len() as int) =~= "\n                MATCH (n:Entity {name: $source_name"@);
    assert(c.skip(c.len() - d4.len()) =~= d4);
}

/// The search keeps entities at least 0.7 similar to the embedding and
/// returns the hundred most similar relationships, most similar first,
/// whatever the scope.
pub proof fn law_search_most_similar_first(f: Mem0Filter)
    ensures
        search_query_shape(search_query_spec(f)),
{
    let q = search_query_spec(f);
    let cn = id_condition("n"@, "character_id"@, f.character_id);
    let cm = id_condition("m"@, "character_id"@, f.character_id);
    let sn = id_condition("n"@, "session_id"@, f.session_id);
    let sm = id_condition("m"@, "session_id"@, f.session_id);
    let l1 = "\n                MATCH (n:Entity)\n                WHERE n.embedding IS NOT NULL AND n.user_id = $user_id "@;
    let l2 = "\n                WITH n, round(2 * vector.similarity.cosine(n.embedding, $embedding) - 1, 4) AS similarity\n                WHERE similarity >= 0.7\n                CALL {\n                    WITH n\n                    MATCH (n)-[r]->(m:Entity)\n                    WHERE m.user_id = $user_id "@;
    let l2a = "\n                WITH n, round(2 * vector.similarity.cosine(n.embedding, $embedding) - 1, 4) AS similarity\n                "@;
    let l2b = "\n                CALL {\n                    WITH n\n                    MATCH (n)-[r]->(m:Entity)\n                    WHERE m.user_id = $user_id "@;
    let l3 = "\n                    RETURN n.name AS source, elementId(n) AS source_id, type(r) AS relationship, elementId(r) AS relation_id, m.name AS destination, elementId(m) AS destination_id\n                    UNION\n                    WITH n\n                    MATCH (m:Entity)-[r]->(n)\n                    WHERE m.user_id = $user_id "@;
    let l4 = "\n                    RETURN m.name AS source, elementId(m) AS source_id, type(r) AS relationship, elementId(r) AS relation_id, n.name AS destination, elementId(n) AS destination_id\n                }\n                WITH distinct source, source_id, relationship, relation_id, destination, destination_id, similarity\n                RETURN\n                    source,\n                    relationship,\n                    destination,\n                    similarity\n                ORDER BY similarity DESC\n                LIMIT 100\n            "@;
    let l4a = "\n                    RETURN m.name AS source, elementId(m) AS source_id, type(r) AS relationship, elementId(r) AS relation_id, n.name AS destination, elementId(n) AS destination_id\n                }\n                WITH distinct source, source_id, relationship, relation_id, destination, destination_id, similarity\n                RETURN\n                    source,\n                    relationship,\n                    destination,\n                    similarity\n                "@;
    let tail = "ORDER BY similarity DESC\n                LIMIT 100\n            "@;
    let thr = "WHERE similarity >= 0.7"@;
    reveal_strlit("\n                WITH n, round(2 * vector.similarity.cosine(n.embedding, $embedding) - 1, 4) AS similarity\n                WHERE similarity >= 0.7\n                CALL {\n                    WITH n\n                    MATCH (n)-[r]->(m:Entity)\n                    WHERE m.user_id = $user_id ");
    reveal_strlit("\n                WITH n, round(2 * vector.similarity.cosine(n.embedding, $embedding) - 1, 4) AS similarity\n                ");
    reveal_strlit("\n                CALL {\n                    WITH n\n                    MATCH (n)-[r]->(m:Entity)\n                    WHERE m.user_id = $user_id ");
    reveal_strlit("WHERE similarity >= 0.7");
    reveal_strlit("\n                    RETURN m.name AS source, elementId(m) AS source_id, type(r) AS relationship, elementId(r) AS relation_id, n.name AS destination, elementId(n) AS destination_id\n                }\n                WITH distinct source, source_id, relationship, relation_id, destination, destination_id, similarity\n                RETURN\n                    source,\n                    relationship,\n                    destination,\n                    similarity\n                ORDER BY similarity DESC\n                LIMIT 100\n            ");
    reveal_strlit("\n                    RETURN m.name AS source, elementId(m) AS source_id, type(r) AS relationship, elementId(r) AS relation_id, n.name AS destination, elementId(n) AS destination_id\n                }\n                WITH distinct source, source_id, relationship, relation_id, destination, destination_id, similarity\n                RETURN\n                    source,\n                    relationship,\n                    destination,\n                    similarity\n                ");
    reveal_strlit("ORDER BY similarity DESC\n                LIMIT 100\n            ");
    assert(l2 =~= l2a + thr + l2b);
    assert(l4 =~= l4a + tail);
    let sp = " "@;
    assert(q == l1 + cn + sp + sn + l2 + cm + sp + sm + l3 + cm + sp + sm + l4);
    let a = l1 + cn + sp + sn + l2a;
    let b = l2b + cm + sp + sm + l3 + cm + sp + sm + l4;
    assert(q =~= a + thr + b);
    let front = l1 + cn + sp + sn + l2 + cm + sp + sm + l3 + cm + sp + sm + l4a;
    assert(q =~= front + tail);
    assert(q.skip(q.len() - tail.len()) =~= tail);
}

/// The text of the entity lookup: it asks the vector index for the single
/// nearest entity to `$source_embedding`, keeps it only for the user, and
/// only when it is at least 0.9 similar, returning its id.
pub open spec fn similar_entity_query_shape(q: Seq<char>) -> bool {
    &&& crate::text::has_prefix(
        q,
        "\n            CALL db.index.vector.queryNodes(\"memzero\", 1, $source_embedding)\n            YIELD node AS candidate, score AS similarity\n            WHERE candidate.user_id = $user_id"@,
    )
    &&& crate::text::has_suffix(q, "AND similarity >= 0.9\n            RETURN id(candidate);\n        "@)
}

/// The entity lookup takes the one nearest entity of the user and keeps it
/// only when it is at least 0.9 similar, whatever the scope.
pub proof fn law_similar_entity_nearest_only(f: Mem0Filter)
    ensures
        similar_entity_query_shape(similar_entity_query_spec(f)),
{
    let q = similar_entity_query_spec(f);
    let l1 = "\n            CALL db.index.vector.queryNodes(\"memzero\", 1, $source_embedding)\n            YIELD node AS candidate, score AS similarity\n            WHERE candidate.user_id = $user_id\n            "@;
    let l1a = "\n            CALL db.index.vector.queryNodes(\"memzero\", 1, $source_embedding)\n            YIELD node AS candidate, score AS similarity\n            WHERE candidate.user_id = $user_id"@;
    let l1b = "\n            "@;
    let le = "\n            AND similarity >= 0.9\n            RETURN id(candidate);\n        "@;
    let le2 = "AND similarity >= 0.9\n            RETURN id(candidate);\n        "@;
    reveal_strlit("\n            CALL db.index.vector.queryNodes(\"memzero\", 1, $source_embedding)\n            YIELD node AS candidate, score AS similarity\n            WHERE candidate.user_id = $user_id\n            ");
    reveal_strlit("\n            CALL db.index.vector.queryNodes(\"memzero\", 1, $source_embedding)\n            YIELD node AS candidate, score AS similarity\n            WHERE candidate.user_id = $user_id");
    reveal_strlit("\n            ");
    reveal_strlit("\n            AND similarity >= 0.9\n            RETURN id(candidate);\n        ");
    reveal_strlit("AND similarity >= 0.9\n            RETURN id(candidate);\n        ");
    assert(l1 =~= l1a + l1b);
    assert(le =~= l1b + le2);
    let cc = id_condition("candidate"@, "character_id"@, f.character_id);
    let cs = id_condition("candidate"@, "session_id"@, f.session_id);
    assert(q =~= l1a + (l1b + cc + l1b + cs + le));
    assert(q.take(l1a.len() as int) =~= l1a);
    assert(q =~= (l1 + cc + l1b + cs + l1b) + le2);
    assert(q.skip(q.len() - le2.len()) =~= le2);
}

/// The statements that prepare the graph: the vector index over entity
/// embeddings (1024 dimensions, cosine) and the index over entities' users.
pub fn initialize_statements() -> (r: (String, String))
    ensures
        r.0@ == "CREATE VECTOR INDEX memzero IF NOT EXISTS FOR (n:Entity) ON (n.embedding) OPTIONS {indexConfig: {`vector.dimensions`: 1024, `vector.similarity_function`: 'cosine'}}"@,
        r.1@ == "CREATE INDEX entity_user_id_index IF NOT EXISTS FOR (n:Entity) ON (n.user_id)"@,
{
    (
        owned("CREATE VECTOR INDEX memzero IF NOT EXISTS FOR (n:Entity) ON (n.embedding) OPTIONS {indexConfig: {`vector.dimensions`: 1024, `vector.similarity_function`: 'cosine'}}"),
        owned("CREATE INDEX entity_user_id_index IF NOT EXISTS FOR (n:Entity) ON (n.user_id)"),
    )
}

} // verus!
