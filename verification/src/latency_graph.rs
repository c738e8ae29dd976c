use vstd::prelude::*;

verus! {

/// One completed delivery: when it finished and how long it took, both in
/// milliseconds (timestamps count from an arbitrary session origin).
#[derive(Debug, Clone, Copy, PartialEq, Eq, Structural)]
pub struct LatencySample {
    pub timestamp: u64,
    pub latency: u64,
}

/// One snapshot received from the telemetry source, in milliseconds.
#[derive(Debug, Clone, Copy, PartialEq, Eq, Structural)]
pub struct SerialEvent {
    pub timestamp: u64,
}

/// The retained telemetry history: delivery latencies and source updates.
#[derive(Debug)]
pub struct LatencyGraphData {
    pub samples: Vec<LatencySample>,
    pub serial_events: Vec<SerialEvent>,
}

} // verus!
