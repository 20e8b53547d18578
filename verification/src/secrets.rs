//! The token store's configuration: where the fallback file lives and
//! whether the system keyring is skipped. Keyring and file access are the
//! caller's.

use vstd::prelude::*;

verus! {

/// Token store: the system keyring by profile name, with a private file
/// fallback.
#[derive(Debug, Clone)]
pub struct Secrets {
    pub fallback_path: String,
    /// Use only the fallback file, never the keyring.
    pub file_only: bool,
}

impl Secrets {
    /// A store that prefers the keyring and falls back to `fallback_path`.
    pub fn new(fallback_path: String) -> (s: Secrets)
        ensures
            s.fallback_path@ == fallback_path@,
            !s.file_only,
    {
        Secrets { fallback_path, file_only: false }
    }

    /// The store the environment selects: an `OPENPROJECT_SECRETS` path (read
    /// by the caller) is the only store; otherwise the default path with the
    /// keyring preferred.
    pub fn resolve_with(env_path: Option<String>, default_path: String) -> (s: Secrets)
        ensures
            match env_path {
                Some(p) => s.fallback_path@ == p@ && s.file_only,
                None => s.fallback_path@ == default_path@ && !s.file_only,
            },
    {
        match env_path {
            Some(p) => Secrets { fallback_path: p, file_only: true },
            None => Secrets::new(default_path),
        }
    }
}

} // verus!
