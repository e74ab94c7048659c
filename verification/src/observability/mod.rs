//! Settings for logs and metrics.

pub mod labels;

use vstd::prelude::*;

verus! {

/// Settings for logs and metrics.
#[derive(Debug, Clone)]
pub struct ObservabilityConfig {
    /// Log filter, unless the environment gives one.
    pub default_filter: String,
    /// Logs as JSON, or else for people to read.
    pub json: bool,
    /// Address of the metrics endpoint; `None` for no endpoint.
    pub prometheus_bind: Option<String>,
}

impl Default for ObservabilityConfig {
    fn default() -> (r: Self)
        ensures
            r.default_filter@ == "info"@,
            r.json,
            r.prometheus_bind matches Some(a) && a@ == "0.0.0.0:9100"@,
    {
        ObservabilityConfig {
            default_filter: "info".to_owned(),
            json: true,
            prometheus_bind: Some("0.0.0.0:9100".to_owned()),
        }
    }
}

} // verus!
