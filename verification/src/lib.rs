//! An in-memory identity and session directory.
//!
//! The credential directory ([`users::UsersImpl`]) stores accounts with
//! salted, one-way hashed passwords and answers credential checks; the
//! session directory ([`sessions::SessionsImpl`]) mints and revokes opaque
//! bearer tokens. Contracts are stated over sequence views of the stores.

pub mod hashing;
mod ids;
pub mod sessions;
pub mod users;
