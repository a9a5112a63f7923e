//! The labels under which forwarded requests are counted.

use vstd::prelude::*;

verus! {

/// The label values of one recorded request.
pub struct Labels<'a> {
    pub method: &'static str,
    pub path: &'a str,
}

/// The handle through which requests are recorded. It holds nothing: the
/// counters are the process's own.
#[derive(Clone, Copy, Debug)]
pub struct Metrics;

impl Metrics {
    /// A handle.
    pub fn new() -> Metrics {
        Metrics
    }

    /// The labels under which a forward of `path` is recorded: the method
    /// label is always `POST`, the path label is the path as it came.
    pub fn labels<'a>(&self, path: &'a str) -> (labels: Labels<'a>)
        ensures
            labels.method@ == "POST"@,
            labels.path@ == path@,
    {
        Labels { method: "POST", path }
    }
}

impl Default for Metrics {
    fn default() -> Metrics {
        Metrics::new()
    }
}

} // verus!
