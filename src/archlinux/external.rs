use vstd::prelude::*;

verus! {

/// The mirror status feed, one record per mirror.
#[derive(Debug, PartialEq, Default)]
pub struct ArchLinuxMirrors {
    pub cutoff: i64,
    pub last_check: String,
    pub num_checks: i64,
    pub check_frequency: i64,
    pub urls: Vec<Url>,
    pub version: i64,
}

/// One record of the status feed.
///
/// The fractional statistics are kept as the bit patterns of their
/// IEEE-754 double values: the catalog carries them without reading them.
#[derive(Debug, PartialEq, Default)]
pub struct Url {
    pub url: String,
    pub protocol: String,
    pub last_sync: Option<String>,
    pub completion_pct: Option<u64>,
    pub delay: Option<i64>,
    pub duration_avg: Option<u64>,
    pub duration_stddev: Option<u64>,
    pub score: Option<u64>,
    pub active: bool,
    pub country: String,
    pub country_code: String,
    pub isos: bool,
    pub ipv4: bool,
    pub ipv6: bool,
    pub details: String,
}

} // verus!
