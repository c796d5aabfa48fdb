//! Verified core of the party-sync server: identifiers, users, sessions,
//! parties with their messages and videos, and the shared application state
//! together with the decisions taken by its HTTP and socket handlers.

pub mod snowflake;
pub mod user;
pub mod video;
pub mod message;
pub mod party;
pub mod session;
pub mod prelude;
pub mod state;
pub mod gateway;
