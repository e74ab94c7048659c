//! Names of metric labels, the same everywhere.
use vstd::prelude::*;

verus! {

pub const TICKER: &'static str = "ticker";

pub const MARKET: &'static str = "market";

pub const KIND: &'static str = "kind";

pub const REASON: &'static str = "reason";

pub const ENDPOINT: &'static str = "endpoint";

pub const STATUS: &'static str = "status";

pub const CHANNEL: &'static str = "channel";

/// The labels by name.
pub proof fn law_labels_are_named()
    ensures
        TICKER == "ticker",
        MARKET == "market",
        KIND == "kind",
        REASON == "reason",
        ENDPOINT == "endpoint",
        STATUS == "status",
        CHANNEL == "channel",
{
}

} // verus!
