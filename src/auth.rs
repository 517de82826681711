use vstd::prelude::*;

verus! {

/// The server's configuration: the shared secret that requests must carry.
/// It is read once when the server starts; with no key configured every
/// request is refused.
#[derive(Debug)]
pub struct ApiConfig {
    pub api_key: Option<String>,
}

impl ApiConfig {
    /// A configuration with the given key, or with none.
    pub fn new(api_key: Option<String>) -> (r: ApiConfig)
        ensures
            r.api_key == api_key,
    {
        ApiConfig { api_key }
    }

    /// Whether a request carrying `secret` is let through: only when a key is
    /// configured and equals the secret exactly.
    pub open spec fn accepts(&self, secret: Seq<char>) -> bool {
        match self.api_key {
            Some(key) => key@ == secret,
            None => false,
        }
    }

    /// Checks the secret of a request by plain equality with the key.
    pub fn authorize(&self, secret: &String) -> (r: bool)
        ensures
            r == self.accepts(secret@),
    {
        match &self.api_key {
            Some(key) => *key == *secret,
            None => false,
        }
    }
}

} // verus!
