//! Client-side request modeling for a key/value and counter store exposed
//! over HTTP. Callers describe an operation (create a cache with a given
//! replication topology, read or write an entry with optional expiry, mutate
//! a distributed counter) as a typed value; the library deterministically
//! translates that value into a well-formed HTTP request and drives the
//! HTTP Digest Authentication handshake needed to execute it.
#![allow(unused_imports)]
use vstd::prelude::*;

pub mod auth;
pub mod request;
pub mod text;

verus! {

/// A client for the store: the base server URL plus the credentials used to
/// answer digest authentication challenges. Every instance is independent;
/// the engine holds no per-call mutable state.
pub struct Infinispan {
    pub base_url: String,
    pub username: String,
    pub password: String,
}

impl Infinispan {
    /// Creates a client for the server at `base_url` with the given
    /// credentials. Performs no I/O.
    pub fn new(base_url: &str, username: &str, password: &str) -> (r: Infinispan)
        ensures
            r.base_url@ == base_url@,
            r.username@ == username@,
            r.password@ == password@,
    {
        Infinispan {
            base_url: base_url.to_owned(),
            username: username.to_owned(),
            password: password.to_owned(),
        }
    }
}

} // verus!
