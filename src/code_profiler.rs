use vstd::prelude::*;
use std::collections::HashMap;
use std::time::Duration;

verus! {

/// Timings gathered under named sections of code.
pub struct CodeProfiler {
    measurements: HashMap<String, Vec<Duration>>,
}

impl CodeProfiler {
    /// The recorded timings, by section name.
    pub closed spec fn spec_measurements(&self) -> Map<String, Vec<Duration>> {
        self.measurements@
    }

    /// A profiler with nothing recorded yet.
    pub fn new() -> (r: Self)
        ensures
            r.spec_measurements() == Map::<String, Vec<Duration>>::empty(),
    {
        CodeProfiler { measurements: HashMap::new() }
    }
}

} // verus!
