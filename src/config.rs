//! Named remotes and depots, resolved by name.

use vstd::prelude::*;

verus! {

/// A named remote: the base URL that project paths are appended to, and the
/// depot that caches its objects.
#[derive(Clone, Debug)]
pub struct RemoteConfig {
    pub name: String,
    pub url: String,
    pub depot: String,
}

/// A named depot root.
#[derive(Clone, Debug)]
pub struct DepotConfig {
    pub name: String,
    pub path: String,
}

/// The remotes and depots known to the tool.
#[derive(Clone, Debug)]
pub struct Config {
    pub remotes: Vec<RemoteConfig>,
    pub depots: Vec<DepotConfig>,
}

/// A lookup by name found nothing.
#[derive(Clone, Debug, PartialEq, Eq)]
pub enum ConfigError {
    UnknownRemote(String),
    UnknownDepot(String),
}

/// Whether `r` is the first remote of `remotes` named `name`, at index `i`.
pub open spec fn is_first_remote(remotes: Seq<RemoteConfig>, name: Seq<char>, i: int) -> bool {
    &&& 0 <= i < remotes.len()
    &&& remotes[i].name@ == name
    &&& forall|j: int| 0 <= j < i ==> remotes[j].name@ != name
}

/// Field-wise equality of two remotes.
pub open spec fn same_remote(a: RemoteConfig, b: RemoteConfig) -> bool {
    a.name@ == b.name@ && a.url@ == b.url@ && a.depot@ == b.depot@
}

impl Config {
    /// Finds the first remote with the given name.
    pub fn find_remote(&self, name: &str) -> (r: Result<RemoteConfig, ConfigError>)
        ensures
            r is Ok <==> exists|i: int| 0 <= i < self.remotes@.len() && self.remotes@[i].name@ == name@,
            r matches Ok(rc) ==> exists|i: int|
                is_first_remote(self.remotes@, name@, i) && same_remote(rc, self.remotes@[i]),
            r matches Err(e) ==> (e matches ConfigError::UnknownRemote(n) && n@ == name@),
    {
        let key = name.to_owned();
        let mut i: usize = 0;
        while i < self.remotes.len()
            invariant
                0 <= i <= self.remotes@.len(),
                key@ == name@,
                forall|j: int| 0 <= j < i ==> self.remotes@[j].name@ != name@,
            decreases self.remotes@.len() - i,
        {
            if self.remotes[i].name == key {
                let rc = &self.remotes[i];
                assert(is_first_remote(self.remotes@, name@, i as int));
                return Ok(
                    RemoteConfig {
                        name: rc.name.clone(),
                        url: rc.url.clone(),
                        depot: rc.depot.clone(),
                    },
                );
            }
            i = i + 1;
        }
        Err(ConfigError::UnknownRemote(key))
    }
}

} // verus!
