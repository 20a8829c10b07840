//! How long each kind of cached entry lives, in seconds.
use vstd::prelude::*;

verus! {

/// A user's session: 30 minutes.
pub const USER_SESSION: u64 = 1800;
/// A character: 1 hour.
pub const CHARACTER: u64 = 3600;
/// A chat session: 30 minutes.
pub const SESSION: u64 = 1800;
/// A character's prompt: 1 hour.
pub const CHARACTER_PROMPT: u64 = 3600;
/// A user's balance: 5 minutes.
pub const USER_BALANCE: u64 = 300;
/// A query result: 3 minutes.
pub const GRAPHQL_QUERY: u64 = 180;

} // verus!
