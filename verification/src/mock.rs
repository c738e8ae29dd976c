use vstd::prelude::*;

verus! {

/// A stand-in telemetry source for trying the pipeline without hardware: it
/// emits a fixed packet on a cadence that stalls every third read.
#[derive(Debug)]
pub struct MockDataSource {
    counter: u64,
}

impl View for MockDataSource {
    type V = u64;

    closed spec fn view(&self) -> u64 {
        self.counter
    }
}

impl MockDataSource {
    pub fn new() -> (r: MockDataSource)
        ensures
            r@ == 0,
    {
        MockDataSource { counter: 0 }
    }

    /// The delay before the next mock packet: every third read takes long
    /// enough to trip the ingest timeout, the rest arrive promptly.
    pub fn next_delay_ms(&mut self) -> (d: u64)
        requires
            old(self)@ < u64::MAX,
        ensures
            final(self)@ == old(self)@ + 1,
            d == if final(self)@ % 3 == 0 {
                4000u64
            } else {
                900u64
            },
    {
        self.counter = self.counter + 1;
        if self.counter % 3 == 0 {
            4000
        } else {
            900
        }
    }
}

/// Why the mock source refused an operation.
#[derive(Debug, Clone, Copy, PartialEq, Eq, Structural)]
pub enum MockDataSourceError {
    Unsupported,
}

impl MockDataSourceError {
    /// The failure, described for an operator.
    pub fn message(&self) -> (r: &'static str)
        ensures
            r@ == "unsupported on mock"@,
    {
        "unsupported on mock"
    }
}

} // verus!
