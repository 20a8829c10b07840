//! Verified core of a role-play chat backend: text encodings, storage keys,
//! query and schema builders, graph-memory statements and request rules.
pub mod text;
pub mod random;
pub mod uuid_text;
pub mod query;
pub mod text_enum;
pub mod enum_decl;
pub mod prompt_codec;
pub mod storage;
pub mod cache_keys;
pub mod ttl;
pub mod crypto_hash;
pub mod clock;
pub mod otp;
pub mod env;
pub mod assoc;
pub mod memory_graph;
pub mod knowledge_graph;
pub mod api;
pub mod voice;
pub mod schema;
pub mod type_map;
pub mod field_decl;
