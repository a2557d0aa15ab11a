use vstd::prelude::*;

verus! {

/// One host metric: the id the host assigned and its globally unique name
/// in reverse-DNS form.
#[derive(Debug)]
pub struct ThreescaleStat(pub u32, pub String);

impl ThreescaleStat {
    pub fn clone(&self) -> (r: Self)
        ensures
            r.0 == self.0,
            r.1@ == self.1@,
    {
        ThreescaleStat(self.0, self.1.clone())
    }
}

/// The filter's counters.  Defining and bumping them are host calls and
/// live with the host adapter; the library only carries the handles.
#[derive(Debug)]
pub struct ThreescaleStats {
    /// Applications saved in shared data.
    pub cached_apps: ThreescaleStat,
    /// Cache misses.
    pub cache_misses: ThreescaleStat,
    /// Cache hits.
    pub cache_hits: ThreescaleStat,
    /// Denied authorize responses.
    pub unauthorized: ThreescaleStat,
    /// Timeouts on authorize calls.
    pub authorize_timeouts: ThreescaleStat,
    /// Requests refused for missing metadata.
    pub auth_metadata_errors: ThreescaleStat,
}

} // verus!
