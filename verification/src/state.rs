//! The router's persisted settings: how often to refresh quotas, whether
//! to refresh automatically, and which profile was selected last.  The
//! file I/O that carries this record to and from disk lives outside the
//! library.

use vstd::prelude::*;

verus! {

/// Settings that survive a restart.
#[derive(Debug, Clone, PartialEq)]
pub struct RouterState {
    pub refresh_interval_seconds: u64,
    pub auto_refresh_enabled: bool,
    pub last_selected_profile: Option<String>,
}

impl Default for RouterState {
    /// Fresh settings: refresh every ten minutes, automatically, with no
    /// profile selected yet.
    fn default() -> (r: Self)
        ensures
            r.refresh_interval_seconds == 600,
            r.auto_refresh_enabled,
            r.last_selected_profile is None,
    {
        Self { refresh_interval_seconds: 600, auto_refresh_enabled: true, last_selected_profile: None }
    }
}

} // verus!
