//! Connection settings.

use vstd::prelude::*;

verus! {

/// The settings file's contents: where to connect, which certificates and
/// keys to use, and the account to log in with.
pub struct Config {
    pub listen: String,
    pub certs: String,
    pub server_key: String,
    pub client_key: String,
    pub maxconnections: usize,
    pub database: String,
    pub username: String,
    pub password: String,
    pub host: String,
    pub port: u16,
}

} // verus!
