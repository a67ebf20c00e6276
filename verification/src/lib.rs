//! A read-through cache in front of a leaderboard service, and the shaping of
//! its records.
//!
//! A request names a player and a game mode. The name is trimmed and checked
//! ([`name`]), a cache key is derived from it ([`key`]), and the store is
//! asked for a fresh record ([`cache`]). On a miss the caller fetches the
//! record at the address it is given ([`upstream`]); what comes back is shaped
//! ([`transform`], [`average`]), stored and handed out ([`fetch`]).
//!
//! The library does no input or output and reads no clock: the caller makes
//! the request to the ranking service and passes the time in milliseconds.

pub mod average;
pub mod cache;
pub mod fetch;
pub mod key;
pub mod name;
pub mod record;
pub mod text;
pub mod transform;
pub mod upstream;
