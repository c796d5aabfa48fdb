use crate::snowflake::{generated_by, Snowflake};
use vstd::prelude::*;

verus! {

/// Expiry, in seconds since the UNIX epoch, written into every new session.
pub const SESSION_EXPIRY: u64 = 10000000000;

/// A login session; its fields are the claims of the session's token.
#[derive(Debug, Clone, Copy, PartialEq, Eq, Structural)]
pub struct Session {
    pub id: Snowflake,
    pub user_id: Snowflake,
    pub exp: u64,
}

impl Session {
    /// A session of `user_id` with a fresh identifier.
    pub fn new(user_id: Snowflake, generator: &mut snowflake::SnowflakeIdGenerator) -> (s: Session)
        ensures
            s.user_id == user_id,
            s.exp == SESSION_EXPIRY,
            generated_by(*old(generator), *final(generator), s.id),
    {
        let id = Snowflake::generate(generator);
        Session { id, user_id, exp: SESSION_EXPIRY }
    }
}

} // verus!
