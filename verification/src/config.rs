//! Blackboard configuration and flavor selection.
//!
//! Configuration values are plain data; discovering them (environment
//! variables, process-wide defaults) is the embedding program's concern.

use vstd::prelude::*;
use vstd::string::{StringExecFns, StrSliceExecFns};
use vstd::utf8::{encode_utf8, encode_utf8_decode_utf8};

verus! {

/// Which blackboard implementation to use.
#[derive(Clone, Copy, PartialEq, Eq, Structural, Debug)]
pub enum BlackboardFlavor {
    /// Drop-in store without hashing or epochs: a plain deduplicated list.
    Original,
    /// Content-addressed store with epochs and cache thumbprints.
    Hashed,
    /// Vector-database-backed store; falls back to the hashed store when no
    /// vector backend is available.
    Lance,
}

/// Compare two byte vectors.
pub fn bytes_eq(a: &Vec<u8>, b: &Vec<u8>) -> (r: bool)
    ensures
        r == (a@ == b@),
{
    if a.len() != b.len() {
        proof {
            assert(a@ != b@);
        }
        return false;
    }
    let n = a.len();
    for i in 0..n
        invariant
            n == a@.len() && n == b@.len(),
            forall|j: int| 0 <= j < i ==> a@[j] == b@[j],
    {
        if a[i] != b[i] {
            proof {
                assert(a@[i as int] != b@[i as int]);
            }
            return false;
        }
    }
    proof {
        assert(a@ =~= b@);
    }
    true
}

/// Compare two string slices by their characters.
pub fn str_eq(a: &str, b: &str) -> (r: bool)
    ensures
        r == (a@ == b@),
{
    let ab = a.as_bytes_vec();
    let bb = b.as_bytes_vec();
    let r = bytes_eq(&ab, &bb);
    proof {
        if ab@ == bb@ {
            encode_utf8_decode_utf8(a@);
            encode_utf8_decode_utf8(b@);
        }
    }
    r
}

/// The flavor a (lowercased) selector string names.
pub open spec fn flavor_of_name(s: Seq<char>) -> BlackboardFlavor {
    if s == "hashed"@ || s == "blackboard"@ || s == "content-addressed"@ {
        BlackboardFlavor::Hashed
    } else if s == "lance"@ || s == "lancedb"@ {
        BlackboardFlavor::Lance
    } else {
        BlackboardFlavor::Original
    }
}

impl BlackboardFlavor {
    /// Resolve a flavor from its lowercased selector string; unknown names
    /// fall back to the original flavor.
    pub fn from_name(s: &str) -> (r: Self)
        ensures
            r == flavor_of_name(s@),
    {
        if str_eq(s, "hashed") || str_eq(s, "blackboard")
            || str_eq(s, "content-addressed") {
            BlackboardFlavor::Hashed
        } else if str_eq(s, "lance") || str_eq(s, "lancedb") {
            BlackboardFlavor::Lance
        } else {
            BlackboardFlavor::Original
        }
    }
}

/// Configuration for blackboard behavior.
#[derive(Debug)]
pub struct BlackboardConfig {
    /// Which implementation backs the store.
    pub flavor: BlackboardFlavor,
    /// Whether compaction physically removes expired entries (true) or
    /// leaves them tombstoned in place (false).
    pub prune_expired: bool,
    /// Whether the store uses its own persistent database rather than a
    /// shared one. Advisory for the in-memory stores.
    pub separate_db: bool,
    /// Remote backup URI for the vector-backed flavor.
    pub lance_s3_uri: Option<String>,
    /// Local directory for the vector-backed flavor.
    pub lance_path: String,
    /// Capacity: live entries beyond this are evicted by compaction.
    pub max_entries: usize,
    /// Default TTL for short-term entries, in seconds; zero means no expiry.
    pub stm_ttl_seconds: u64,
}

/// The mathematical image of a configuration.
pub ghost struct ConfigView {
    pub flavor: BlackboardFlavor,
    pub prune_expired: bool,
    pub separate_db: bool,
    pub lance_s3_uri: Option<Seq<char>>,
    pub lance_path: Seq<char>,
    pub max_entries: usize,
    pub stm_ttl_seconds: u64,
}

impl View for BlackboardConfig {
    type V = ConfigView;

    open spec fn view(&self) -> ConfigView {
        ConfigView {
            flavor: self.flavor,
            prune_expired: self.prune_expired,
            separate_db: self.separate_db,
            lance_s3_uri: self.lance_s3_uri.deep_view(),
            lance_path: self.lance_path@,
            max_entries: self.max_entries,
            stm_ttl_seconds: self.stm_ttl_seconds,
        }
    }
}

/// The built-in default configuration.
pub open spec fn default_config_view() -> ConfigView {
    ConfigView {
        flavor: BlackboardFlavor::Original,
        prune_expired: false,
        separate_db: true,
        lance_s3_uri: Option::None,
        lance_path: "./blackboard_lance"@,
        max_entries: 10000usize,
        stm_ttl_seconds: 3600u64,
    }
}

impl Default for BlackboardConfig {
    fn default() -> (r: Self)
        ensures
            r@ == default_config_view(),
    {
        BlackboardConfig {
            flavor: BlackboardFlavor::Original,
            prune_expired: false,
            separate_db: true,
            lance_s3_uri: Option::None,
            lance_path: String::from_str("./blackboard_lance"),
            max_entries: 10000,
            stm_ttl_seconds: 3600,
        }
    }
}

impl Clone for BlackboardConfig {
    fn clone(&self) -> (r: Self)
        ensures
            r@ == self@,
    {
        BlackboardConfig {
            flavor: self.flavor,
            prune_expired: self.prune_expired,
            separate_db: self.separate_db,
            lance_s3_uri: match &self.lance_s3_uri {
                Option::Some(s) => Option::Some(s.clone()),
                Option::None => Option::None,
            },
            lance_path: self.lance_path.clone(),
            max_entries: self.max_entries,
            stm_ttl_seconds: self.stm_ttl_seconds,
        }
    }
}

/// The default short-term TTL in milliseconds that a configuration implies,
/// saturating at the top of the range.
pub open spec fn stm_ttl_ms_spec(c: ConfigView) -> u64 {
    if c.stm_ttl_seconds * 1000 > u64::MAX {
        u64::MAX
    } else {
        (c.stm_ttl_seconds * 1000) as u64
    }
}

impl BlackboardConfig {
    /// The default short-term TTL in milliseconds.
    pub fn stm_ttl_ms(&self) -> (r: u64)
        ensures
            r == stm_ttl_ms_spec(self@),
    {
        if self.stm_ttl_seconds > u64::MAX / 1000 {
            u64::MAX
        } else {
            self.stm_ttl_seconds * 1000
        }
    }
}

/// A blackboard of whichever flavor the configuration selects.
pub enum Blackboard {
    /// The drop-in deduplicated list.
    Original(crate::original::OriginalBlackboard),
    /// The content-addressed, epoch-aware store.
    Hashed(crate::hashed::HashedBlackboard),
    /// The vector-backed store (falling back to the hashed store while no
    /// vector backend is available).
    Lance(crate::lance::LanceBlackboard),
}

/// Create the blackboard the configuration asks for.
pub fn create_blackboard(config: BlackboardConfig) -> (r: Blackboard)
    ensures
        config@.flavor == BlackboardFlavor::Original ==> (r matches
            Blackboard::Original(s) && s.wf() && s@.config == config@
            && s@.entries.len() == 0),
        config@.flavor == BlackboardFlavor::Hashed ==> (r matches
            Blackboard::Hashed(s) && s.wf() && s@.config == config@
            && s@.live.len() == 0 && s@.pending.len() == 0 && s@.epoch == 0),
        config@.flavor == BlackboardFlavor::Lance ==> (r matches
            Blackboard::Lance(s) && s.wf() && !s@.lance_available
            && s@.inner.config == config@ && s@.inner.epoch == 0),
{
    match config.flavor {
        BlackboardFlavor::Original => Blackboard::Original(
            crate::original::OriginalBlackboard::new(config)),
        BlackboardFlavor::Hashed => Blackboard::Hashed(
            crate::hashed::HashedBlackboard::new(config)),
        BlackboardFlavor::Lance => Blackboard::Lance(
            crate::lance::LanceBlackboard::new(config)),
    }
}

impl Blackboard {
    /// The name of the selected flavor.
    pub fn flavor_name(&self) -> (r: &'static str)
        ensures
            self matches Blackboard::Original(_) ==> r@ == "original"@,
            self matches Blackboard::Hashed(_) ==> r@ == "hashed"@,
    {
        match self {
            Blackboard::Original(s) => s.flavor_name(),
            Blackboard::Hashed(s) => s.flavor_name(),
            Blackboard::Lance(s) => s.flavor_name(),
        }
    }
}

} // verus!
