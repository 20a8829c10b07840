//! Cache keys, one builder per kind of cached entry.
use vstd::prelude::*;
use crate::text::concat;
use crate::uuid_text::{uuid_text, uuid_to_string};

verus! {

broadcast use vstd::string::group_string_axioms;

/// `user:session:<user id>`.
pub fn user_session(user_id: &str) -> (r: String)
    ensures
        r@ == "user:session:"@ + user_id@,
{
    concat("user:session:", user_id)
}

/// `character:<character id>`.
pub fn character(character_id: u128) -> (r: String)
    ensures
        r@ == "character:"@ + uuid_text(character_id),
{
    concat("character:", uuid_to_string(character_id).as_str())
}

/// `session:<session id>`.
pub fn session(session_id: u128) -> (r: String)
    ensures
        r@ == "session:"@ + uuid_text(session_id),
{
    concat("session:", uuid_to_string(session_id).as_str())
}

/// `character:prompt:<character id>:<user name>`.
pub fn character_prompt(character_id: u128, user_name: &str) -> (r: String)
    ensures
        r@ == "character:prompt:"@ + uuid_text(character_id) + ":"@ + user_name@,
{
    let a = concat("character:prompt:", uuid_to_string(character_id).as_str());
    let b = concat(a.as_str(), ":");
    concat(b.as_str(), user_name)
}

/// `user:balance:<user id>`.
pub fn user_balance(user_id: u128) -> (r: String)
    ensures
        r@ == "user:balance:"@ + uuid_text(user_id),
{
    concat("user:balance:", uuid_to_string(user_id).as_str())
}

/// `gql:query:<query hash>:<user id>`.
pub fn graphql_query(query_hash: &str, user_id: &str) -> (r: String)
    ensures
        r@ == "gql:query:"@ + query_hash@ + ":"@ + user_id@,
{
    let a = concat("gql:query:", query_hash);
    let b = concat(a.as_str(), ":");
    concat(b.as_str(), user_id)
}

/// The pattern of every prompt cached for a character: `character:prompt:<id>:*`.
pub fn character_prompt_pattern(character_id: u128) -> (r: String)
    ensures
        r@ == "character:prompt:"@ + uuid_text(character_id) + ":*"@,
{
    let a = concat("character:prompt:", uuid_to_string(character_id).as_str());
    concat(a.as_str(), ":*")
}

/// Invalidating a character reaches every prompt cached for it: each prompt
/// key is the invalidation pattern with the user's name in place of `*`.
pub proof fn law_prompt_keys_match_invalidation(character_id: u128, user_name: Seq<char>)
    ensures
        ("character:prompt:"@ + uuid_text(character_id) + ":*"@).drop_last() + user_name
            == "character:prompt:"@ + uuid_text(character_id) + ":"@ + user_name,
{
    reveal_strlit(":*");
    reveal_strlit(":");
    assert(("character:prompt:"@ + uuid_text(character_id) + ":*"@).drop_last() =~= "character:prompt:"@ + uuid_text(character_id) + ":"@);
    assert(("character:prompt:"@ + uuid_text(character_id) + ":*"@).drop_last() + user_name
        =~= "character:prompt:"@ + uuid_text(character_id) + ":"@ + user_name);
}

} // verus!
