//! A verified user-account service core.
//!
//! The library models a user table keyed by a 128-bit id, with a unique
//! phone number per row and a bcrypt credential digest in place of every
//! cleartext password. Registration, login, listing, update and deletion
//! are verified against that model; bcrypt itself and the fresh-id source
//! are called through a small set of trusted wrappers.

pub mod user_model;
pub mod hashing;
pub mod ids;
pub mod store;
pub mod http;
pub mod laws;
pub mod uuid_text;
