//! Listing metrics: what a list of them is called and how a row of it is
//! identified.

use vstd::prelude::*;

verus! {

/// One metric as a list shows it.
#[derive(Debug)]
pub struct MetricRow {
    pub key: String,
    pub created_at: String,
    pub node_name: String,
    pub kind: String,
}

impl MetricRow {
    /// The name under which metrics are listed.
    pub fn object_name() -> (name: &'static str)
        ensures
            name@ == "metrics"@,
    {
        "metrics"
    }

    /// The key that identifies the row in a list.
    pub fn get_key(&self) -> (key: String)
        ensures
            key@ == self.key@,
    {
        self.key.clone()
    }
}

} // verus!
