//! Where the API token is kept.
use vstd::prelude::*;
use crate::config::{is_config_dir, join, join_path, Config};

verus! {

/// Manages API token storage via the OS keyring with a file-based fallback.
pub struct TokenStorage;

impl TokenStorage {
    /// The path of the file that holds the token when the keyring cannot
    /// (`~/.config/clickup-rs/.token`).
    pub fn token_file_path() -> (r: String)
        ensures
            exists|d: Seq<char>| is_config_dir(d) && r@ == join_path(d, ".token"@),
    {
        let d = Config::config_dir();
        join(d.as_str(), ".token")
    }

    /// The token the `CLICKUP_TOKEN` environment variable gives, read first:
    /// its value when it is set and not empty (else the keyring, then the
    /// token file, are tried).
    pub fn env_token(env: Option<String>) -> (r: Option<String>)
        ensures
            match env {
                Some(t) => if t@.len() > 0 { r == Some(t) } else { r is None },
                None => r is None,
            },
    {
        match env {
            Some(t) => if t.as_str().is_empty() { None } else { Some(t) },
            None => None,
        }
    }
}

} // verus!
