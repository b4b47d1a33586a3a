//! The frozen configuration record.
//!
//! The binary parses its command line into this record once at startup
//! and hands it to the core; nothing here changes afterwards.

use crate::endpoint::Threshold;
use vstd::prelude::*;

verus! {

/// The configuration of one controller run.
#[derive(Debug, Clone)]
pub struct AppOpt {
    /// When present, the working set is exactly these service names.
    pub allow_list: Option<Vec<String>>,
    /// When the allow list is absent, the working set is the listed
    /// services minus these (default block: the cluster's own service).
    pub block_list: Option<Vec<String>>,
    /// Period of the refresh loop, in seconds.
    pub refresh_interval: u64,
    /// Period of the probe loop, in milliseconds.
    pub probe_interval: u64,
    /// Per-endpoint probe deadline, in milliseconds.
    pub connection_timeout: u64,
    /// Consecutive successes to promote a removed endpoint.
    pub restore: u32,
    /// Consecutive failures to demote a healthy endpoint.
    pub remove: u32,
    /// Label included in alerts.
    pub cluster_name: Option<String>,
    /// `scheme://target`; the scheme selects the alert sink.
    pub alert_url: Option<String>,
}

impl Default for AppOpt {
    /// The documented defaults: refresh every second, probe every
    /// second, a 100 ms connection deadline, three consecutive outcomes
    /// in either direction, no lists, no alerting.
    fn default() -> (r: Self)
        ensures
            r.allow_list is None,
            r.block_list is None,
            r.refresh_interval == 1,
            r.probe_interval == 1000,
            r.connection_timeout == 100,
            r.restore == 3,
            r.remove == 3,
            r.cluster_name is None,
            r.alert_url is None,
    {
        AppOpt {
            allow_list: None,
            block_list: None,
            refresh_interval: 1,
            probe_interval: 1000,
            connection_timeout: 100,
            restore: 3,
            remove: 3,
            cluster_name: None,
            alert_url: None,
        }
    }
}

impl AppOpt {
    /// The endpoint thresholds this configuration selects.
    pub fn threshold(&self) -> (r: Threshold)
        ensures
            r.restore == self.restore,
            r.remove == self.remove,
    {
        Threshold { restore: self.restore, remove: self.remove }
    }
}

} // verus!
