use vstd::prelude::*;

use vstd::string::StringExecFns;

verus! {

/// Where model weights are cached on disk. Configurable effectively once:
/// the first `set` sticks, later calls are no-ops, and an unconfigured
/// resolver silently falls back to a fixed default relative path.
pub struct ModelsDirConfig {
    dir: Option<String>,
}

impl ModelsDirConfig {
    /// The configured directory, if one was ever set.
    pub closed spec fn configured(&self) -> Option<Seq<char>> {
        match self.dir {
            Some(d) => Some(d@),
            None => None,
        }
    }

    /// A resolver with no directory configured yet.
    pub fn new() -> (r: Self)
        ensures
            r.configured() is None,
    {
        ModelsDirConfig { dir: None }
    }

    /// Establishes the cache directory. Only the first call has an effect;
    /// a directory once set is never replaced.
    pub fn set(&mut self, path: String)
        ensures
            old(self).configured() is None ==> final(self).configured() == Some(path@),
            old(self).configured() is Some ==> final(self).configured() == old(self).configured(),
    {
        if self.dir.is_none() {
            self.dir = Some(path);
        }
    }

    /// The directory to use: the configured one, else the default
    /// relative path.
    pub fn resolve(&self) -> (r: String)
        ensures
            match self.configured() {
                Some(p) => r@ == p,
                None => r@ == ".fastembed_cache"@,
            },
    {
        match &self.dir {
            Some(d) => d.clone(),
            None => ".fastembed_cache".to_owned(),
        }
    }
}

/// The model-weight subdirectory derived from the host's root directory.
pub fn models_subdir(root: &str) -> (r: String)
    ensures
        r@ == root@ + "/models"@,
{
    let mut s: String = root.to_owned();
    s.append("/models");
    s
}

} // verus!
