use metastable::cache_keys::{character, character_prompt, character_prompt_pattern, graphql_query, session, user_balance, user_session};
use metastable::ttl;

#[test]
fn key_formats() {
    let id: u128 = 0x67e5_5044_10b1_426f_9247_bb68_0e5f_e0c8;
    assert_eq!(user_session("email_a"), "user:session:email_a");
    assert_eq!(character(id), "character:67e55044-10b1-426f-9247-bb680e5fe0c8");
    assert_eq!(session(1), "session:00000000-0000-0000-0000-000000000001");
    assert_eq!(character_prompt(id, "bob"), "character:prompt:67e55044-10b1-426f-9247-bb680e5fe0c8:bob");
    assert_eq!(user_balance(0), "user:balance:00000000-0000-0000-0000-000000000000");
    assert_eq!(graphql_query("abc", "u1"), "gql:query:abc:u1");
}

#[test]
fn lifetimes() {
    assert_eq!(ttl::USER_SESSION, 1800);
    assert_eq!(ttl::CHARACTER, 3600);
    assert_eq!(ttl::SESSION, 1800);
    assert_eq!(ttl::CHARACTER_PROMPT, 3600);
    assert_eq!(ttl::USER_BALANCE, 300);
    assert_eq!(ttl::GRAPHQL_QUERY, 180);
}

#[test]
fn prompt_invalidation_pattern() {
    let id: u128 = 0x67e5_5044_10b1_426f_9247_bb68_0e5f_e0c8;
    let pattern = character_prompt_pattern(id);
    assert_eq!(pattern, "character:prompt:67e55044-10b1-426f-9247-bb680e5fe0c8:*");
    let key = character_prompt(id, "bob");
    assert_eq!(format!("{}bob", &pattern[..pattern.len() - 1]), key);
}
