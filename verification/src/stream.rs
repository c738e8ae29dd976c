use vstd::prelude::*;
use vstd::string::StringExecFns;

use crate::json::{spec_json, spec_json_pretty, to_json, to_json_pretty};
use crate::latency_graph::{LatencyGraphData, LatencySample, SerialEvent};
use crate::mapping::spec_map_error_message;
use crate::profile::ProfileV2CompositionMapping;
use crate::serializer::{serialize_mappings, spec_serialize, spec_targets_of};
use crate::value::{SpecValue, Value};

verus! {

broadcast use crate::value::lemma_value_view;

/// How long latency samples and source-update events are retained, in
/// milliseconds.
pub const RETENTION_MS: u64 = 5 * 60 * 1000;

/// How many recent errors are kept for the operator.
pub const MAX_ERRORS: usize = 20;

/// One reported failure: its text and when it happened (milliseconds).
#[derive(Debug)]
pub struct ErrorInfo {
    pub msg: String,
    pub timestamp: u64,
}

impl ErrorInfo {
    pub fn new(msg: String, timestamp_ms: u64) -> (r: ErrorInfo)
        ensures
            r.msg@ == msg@,
            r.timestamp == timestamp_ms,
    {
        ErrorInfo { msg, timestamp: timestamp_ms }
    }
}

/// A unit of telemetry emitted by the background activities: a failure, a
/// source update, or a completed delivery (its latency sample, the rendered
/// payload preview, and the payload size in bytes).
#[derive(Debug)]
pub enum WorkerEvent {
    ErrorEvent(ErrorInfo),
    SerialEvent(SerialEvent),
    LatencySampleEvent(LatencySample, Option<String>, usize),
}

// ----- the single-slot coalescing cell -----

/// Storing overwrites whatever the cell held: only the latest value stays.
pub open spec fn spec_cell_store(cell: Option<SpecValue>, v: SpecValue) -> Option<SpecValue> {
    Some(v)
}

/// Taking empties the cell and yields what it held.
pub open spec fn spec_cell_take(cell: Option<SpecValue>) -> (Option<SpecValue>, Option<
    SpecValue,
>) {
    (cell, None)
}

/// The single-slot cell between the ingest and dispatch activities: it holds
/// at most the most recent snapshot; older ones are discarded, never queued.
#[derive(Debug)]
pub struct CoalescingCell {
    slot: Option<Value>,
}

impl View for CoalescingCell {
    type V = Option<SpecValue>;

    closed spec fn view(&self) -> Option<SpecValue> {
        match self.slot {
            Some(v) => Some(v@),
            None => None,
        }
    }
}

impl CoalescingCell {
    /// An empty cell.
    pub fn new() -> (r: CoalescingCell)
        ensures
            r@ is None,
    {
        CoalescingCell { slot: None }
    }

    /// Stores a snapshot, overwriting any previous one (freshest wins).
    pub fn store(&mut self, v: Value)
        ensures
            final(self)@ == spec_cell_store(old(self)@, v@),
    {
        self.slot = Some(v);
    }

    /// Takes and clears the cell's contents.
    pub fn take(&mut self) -> (r: Option<Value>)
        ensures
            final(self)@ == spec_cell_take(old(self)@).1,
            match r {
                Some(v) => spec_cell_take(old(self)@).0 == Some(v@),
                None => spec_cell_take(old(self)@).0 is None,
            },
    {
        let mut slot: Option<Value> = None;
        core::mem::swap(&mut self.slot, &mut slot);
        slot
    }
}

/// However a cell started, after two stores one take observes only the
/// second value: the first snapshot is coalesced away.
pub proof fn lemma_coalescing_latest(c0: Option<SpecValue>, v1: SpecValue, v2: SpecValue)
    ensures
        spec_cell_take(spec_cell_store(spec_cell_store(c0, v1), v2)).0 == Some(v2),
{
}

// ----- the wake-up signal conduit -----

/// The wake-up conduit between ingest and dispatch: a merging counter, not a
/// queue. Any positive count means "work pending"; draining handles all
/// pending wake-ups at once.
#[derive(Debug)]
pub struct SignalCounter {
    pending: u64,
}

impl View for SignalCounter {
    type V = u64;

    closed spec fn view(&self) -> u64 {
        self.pending
    }
}

impl SignalCounter {
    pub fn new() -> (r: SignalCounter)
        ensures
            r@ == 0,
    {
        SignalCounter { pending: 0 }
    }

    /// One wake-up from the ingest side; counts saturate rather than wrap.
    pub fn signal(&mut self)
        ensures
            final(self)@ == if old(self)@ < u64::MAX {
                (old(self)@ + 1) as u64
            } else {
                old(self)@
            },
    {
        if self.pending < u64::MAX {
            self.pending = self.pending + 1;
        }
    }

    /// Whether any wake-up is pending.
    pub fn is_pending(&self) -> (b: bool)
        ensures
            b == (self@ > 0),
    {
        self.pending > 0
    }

    /// Consumes every pending wake-up at once and reports whether there was
    /// any: repeated signals merge into one round of work.
    pub fn drain(&mut self) -> (had: bool)
        ensures
            final(self)@ == 0,
            had == (old(self)@ > 0),
    {
        let had = self.pending > 0;
        self.pending = 0;
        had
    }
}

// ----- the ingest activity's decision step -----

/// What one ingest cycle observed from the telemetry source. Error texts
/// arrive already rendered by the source adapter.
#[derive(Debug)]
pub enum IngestOutcome {
    NewData(Value),
    NoChange,
    SerializeFailed(String),
    UpdateFailed(String),
    TimedOut,
}

/// One cycle of the ingest activity: new data is stored into the coalescing
/// cell (overwriting), the dispatch side is signalled exactly once, and a
/// source-update event is reported; `NoChange` does nothing; every failure
/// only produces an error event — the ingest loop never stops on one.
pub fn ingest_step(
    outcome: IngestOutcome,
    cell: &mut CoalescingCell,
    signals: &mut SignalCounter,
    now_ms: u64,
) -> (r: Option<WorkerEvent>)
    ensures
        match outcome {
            IngestOutcome::NewData(v) => final(cell)@ == spec_cell_store(old(cell)@, v@) && final(signals)@ == (if old(signals)@ < u64::MAX {
                (old(signals)@ + 1) as u64
            } else {
                old(signals)@
            }) && r == Some(WorkerEvent::SerialEvent(SerialEvent { timestamp: now_ms })),
            IngestOutcome::NoChange => final(cell)@ == old(cell)@ && final(signals)@ == old(signals)@ && r is None,
            IngestOutcome::SerializeFailed(e) => final(cell)@ == old(cell)@ && final(signals)@ == old(signals)@ && (r matches Some(WorkerEvent::ErrorEvent(info))
                && info.msg@ == "couldn't serialize sport: "@ + e@
                + "\nThis might be caused by the DSU sport type not matching the Daktronics sport type"@
                && info.timestamp == now_ms),
            IngestOutcome::UpdateFailed(e) => final(cell)@ == old(cell)@ && final(signals)@ == old(signals)@ && (r matches Some(WorkerEvent::ErrorEvent(info)) && info.msg@
                == "failed to update RTD state: "@ + e@ && info.timestamp == now_ms),
            IngestOutcome::TimedOut => final(cell)@ == old(cell)@ && final(signals)@ == old(signals)@ && (r matches Some(WorkerEvent::ErrorEvent(info)) && info.msg@
                == "timeout when waiting for new score data from the serial connection"@
                && info.timestamp == now_ms),
        },
{
    match outcome {
        IngestOutcome::NewData(v) => {
            cell.store(v);
            signals.signal();
            Some(WorkerEvent::SerialEvent(SerialEvent { timestamp: now_ms }))
        },
        IngestOutcome::NoChange => None,
        IngestOutcome::SerializeFailed(e) => {
            let msg = String::from_str("couldn't serialize sport: ").concat(e.as_str()).concat(
                "\nThis might be caused by the DSU sport type not matching the Daktronics sport type",
            );
            Some(WorkerEvent::ErrorEvent(ErrorInfo::new(msg, now_ms)))
        },
        IngestOutcome::UpdateFailed(e) => {
            let msg = String::from_str("failed to update RTD state: ").concat(e.as_str());
            Some(WorkerEvent::ErrorEvent(ErrorInfo::new(msg, now_ms)))
        },
        IngestOutcome::TimedOut => {
            let msg = String::from_str(
                "timeout when waiting for new score data from the serial connection",
            );
            Some(WorkerEvent::ErrorEvent(ErrorInfo::new(msg, now_ms)))
        },
    }
}

// ----- the dispatch activity's decision step -----

/// A payload ready to deliver: the JSON text to send, the operator-facing
/// preview of it, and its size in bytes.
#[derive(Debug)]
pub struct PreparedDispatch {
    pub payload: String,
    pub preview: String,
    pub byte_size: usize,
}

/// What one dispatch cycle decided: nothing was pending, a payload is ready
/// to deliver, or composing the payload failed.
#[derive(Debug)]
pub enum DispatchOutcome {
    Idle,
    Prepared(PreparedDispatch),
    Failed(ErrorInfo),
}

/// One cycle of the dispatch activity, up to the network call: take (and
/// clear) the freshest snapshot from the coalescing cell; if one is present,
/// serialize the configured targets against it with the shared timestamp and
/// render the envelope to its JSON transport text. A composition failure
/// becomes an error event; the loop goes on.
pub fn dispatch_step(
    cell: &mut CoalescingCell,
    mappings: &Vec<ProfileV2CompositionMapping>,
    exclude_incomplete_data: bool,
    timestamp_ms: i64,
    now_ms: u64,
) -> (r: DispatchOutcome)
    ensures
        final(cell)@ is None,
        match old(cell)@ {
            None => r is Idle,
            Some(src) => match spec_serialize(
                spec_targets_of(mappings@),
                src,
                exclude_incomplete_data,
                Some(timestamp_ms as int),
            ) {
                Ok(env) => r matches DispatchOutcome::Prepared(p) && p.payload@ == spec_json(
                    SpecValue::Obj(env),
                ) && p.preview@ == spec_json_pretty(SpecValue::Obj(env), Seq::<char>::empty())
                    && p.byte_size == vstd::utf8::encode_utf8(p.payload@).len() as usize,
                Err(e) => r matches DispatchOutcome::Failed(info) && info.msg@
                    == "failed to map from serial stream to network: "@ + spec_map_error_message(
                    e,
                ) && info.timestamp == now_ms,
            },
        },
{
    let taken = cell.take();
    match taken {
        None => DispatchOutcome::Idle,
        Some(value) => {
            match serialize_mappings(
                mappings,
                &value,
                exclude_incomplete_data,
                Some(timestamp_ms),
            ) {
                Ok(envelope) => {
                    let payload = to_json(&envelope);
                    let sref = payload.as_str();
                    let byte_size = sref.len();
                    proof {
                        assert(vstd::string::StringSliceAdditionalSpecFns::spec_bytes(sref)
                            == vstd::utf8::encode_utf8(payload@));
                    }
                    let preview = to_json_pretty(&envelope);
                    DispatchOutcome::Prepared(PreparedDispatch { payload, preview, byte_size })
                },
                Err(e) => {
                    let m = e.message();
                    let msg = String::from_str("failed to map from serial stream to network: ")
                        .concat(m.as_str());
                    DispatchOutcome::Failed(ErrorInfo::new(msg, now_ms))
                },
            }
        },
    }
}

/// The telemetry record of one finished delivery attempt: a success becomes
/// a latency sample carrying the preview and payload size; a failure becomes
/// an error event naming the delivery mode.
pub fn delivery_event(
    outcome: Result<u64, String>,
    preview: String,
    byte_size: usize,
    now_ms: u64,
    multiple_requests: bool,
) -> (r: WorkerEvent)
    ensures
        match outcome {
            Ok(latency_ms) => r matches WorkerEvent::LatencySampleEvent(s, p, sz) && s
                == (LatencySample { timestamp: now_ms, latency: latency_ms }) && (p matches Some(
                pv,
            ) && pv@ == preview@) && sz == byte_size,
            Err(e) => r matches WorkerEvent::ErrorEvent(info) && info.msg@
                == "server PUT failed (multiple_requests="@ + (if multiple_requests {
                "true"@
            } else {
                "false"@
            }) + "): "@ + e@ && info.timestamp == now_ms,
        },
{
    match outcome {
        Ok(latency_ms) => WorkerEvent::LatencySampleEvent(
            LatencySample { timestamp: now_ms, latency: latency_ms },
            Some(preview),
            byte_size,
        ),
        Err(e) => {
            let mode: &str = if multiple_requests {
                "true"
            } else {
                "false"
            };
            let msg = String::from_str("server PUT failed (multiple_requests=").concat(
                mode,
            ).concat("): ").concat(e.as_str());
            WorkerEvent::ErrorEvent(ErrorInfo::new(msg, now_ms))
        },
    }
}

// ----- the telemetry store -----

/// Abstract state of the telemetry store.
pub struct SpecStreamStats {
    pub samples: Seq<LatencySample>,
    pub serial_events: Seq<SerialEvent>,
    pub latest_payload: Option<Seq<char>>,
    pub latest_payload_size: Option<usize>,
    pub errors: Seq<(Seq<char>, u64)>,
}

/// How old a timestamp is at `now`; a timestamp from the future counts as
/// fresh.
pub open spec fn spec_age(now: u64, t: u64) -> u64 {
    if now >= t {
        (now - t) as u64
    } else {
        0
    }
}

/// How one telemetry event changes the store: errors accumulate, a delivery
/// result records its sample and replaces the latest payload and size, and a
/// source update appends its event.
pub open spec fn spec_apply_event(st: SpecStreamStats, ev: WorkerEvent) -> SpecStreamStats {
    match ev {
        WorkerEvent::ErrorEvent(e) => SpecStreamStats {
            errors: st.errors.push((e.msg@, e.timestamp)),
            ..st
        },
        WorkerEvent::LatencySampleEvent(s, p, sz) => SpecStreamStats {
            samples: st.samples.push(s),
            latest_payload: match p {
                Some(x) => Some(x@),
                None => None,
            },
            latest_payload_size: Some(sz),
            ..st
        },
        WorkerEvent::SerialEvent(e) => SpecStreamStats {
            serial_events: st.serial_events.push(e),
            ..st
        },
    }
}

/// The events applied to the store, in order.
pub open spec fn spec_apply_events(st: SpecStreamStats, evs: Seq<WorkerEvent>) -> SpecStreamStats
    decreases evs.len(),
{
    if evs.len() == 0 {
        st
    } else {
        spec_apply_event(spec_apply_events(st, evs.drop_last()), evs.last())
    }
}

/// Eviction: samples and source updates older than the horizon leave; the
/// error list keeps only its newest `cap` entries; the latest payload stays.
pub open spec fn spec_purge(st: SpecStreamStats, now: u64, keep_ms: u64, cap: usize) -> SpecStreamStats {
    SpecStreamStats {
        samples: st.samples.filter(|s: LatencySample| spec_age(now, s.timestamp) < keep_ms),
        serial_events: st.serial_events.filter(
            |e: SerialEvent| spec_age(now, e.timestamp) < keep_ms,
        ),
        latest_payload: st.latest_payload,
        latest_payload_size: st.latest_payload_size,
        errors: st.errors.skip(
            if st.errors.len() <= cap {
                0
            } else {
                st.errors.len() - cap
            },
        ),
    }
}

/// The telemetry store one live session accumulates: bounded-retention
/// latency samples and source-update events, the latest delivered payload,
/// and the most recent errors.
#[derive(Debug)]
pub struct ActiveStream {
    latency_graph_data: LatencyGraphData,
    latest_payload: Option<String>,
    latest_payload_size: Option<usize>,
    errors: Vec<ErrorInfo>,
}

impl View for ActiveStream {
    type V = SpecStreamStats;

    closed spec fn view(&self) -> SpecStreamStats {
        SpecStreamStats {
            samples: self.latency_graph_data.samples@,
            serial_events: self.latency_graph_data.serial_events@,
            latest_payload: match self.latest_payload {
                Some(p) => Some(p@),
                None => None,
            },
            latest_payload_size: self.latest_payload_size,
            errors: self.errors@.map_values(|e: ErrorInfo| (e.msg@, e.timestamp)),
        }
    }
}

impl ActiveStream {
    /// A fresh store: no samples, no payload, no errors.
    pub fn new() -> (r: ActiveStream)
        ensures
            r@.samples == Seq::<LatencySample>::empty(),
            r@.serial_events == Seq::<SerialEvent>::empty(),
            r@.latest_payload is None,
            r@.latest_payload_size is None,
            r@.errors == Seq::<(Seq<char>, u64)>::empty(),
    {
        let r = ActiveStream {
            latency_graph_data: LatencyGraphData { samples: Vec::new(), serial_events: Vec::new() },
            latest_payload: None,
            latest_payload_size: None,
            errors: Vec::new(),
        };
        proof {
            assert(r@.errors =~= Seq::<(Seq<char>, u64)>::empty());
        }
        r
    }

    fn update_from_event(&mut self, event: WorkerEvent)
        ensures
            final(self)@ == spec_apply_event(old(self)@, event),
    {
        match event {
            WorkerEvent::ErrorEvent(err) => {
                self.errors.push(err);
                proof {
                    assert(self@.errors =~= spec_apply_event(old(self)@, event).errors);
                    assert(self@ == spec_apply_event(old(self)@, event));
                }
            },
            WorkerEvent::LatencySampleEvent(sample, new_latest_payload, new_latest_payload_size) => {
                self.latest_payload = new_latest_payload;
                self.latest_payload_size = Some(new_latest_payload_size);
                self.latency_graph_data.samples.push(sample);
                proof {
                    assert(self@ == spec_apply_event(old(self)@, event));
                }
            },
            WorkerEvent::SerialEvent(ev) => {
                self.latency_graph_data.serial_events.push(ev);
                proof {
                    assert(self@ == spec_apply_event(old(self)@, event));
                }
            },
        }
    }

    /// Applies a drained batch of telemetry events in order, then evicts
    /// entries past the retention horizon and caps the error list.
    pub fn update_from_events(&mut self, events: Vec<WorkerEvent>, now_ms: u64)
        ensures
            final(self)@ == spec_purge(
                spec_apply_events(old(self)@, events@),
                now_ms,
                RETENTION_MS,
                MAX_ERRORS,
            ),
    {
        let ghost evs = events@;
        let mut events = events;
        let mut i: usize = 0;
        let n = events.len();
        proof {
            assert(evs.take(0) =~= Seq::<WorkerEvent>::empty());
        }
        while i < n
            invariant
                n == evs.len(),
                i <= n,
                events@ == evs.skip(i as int),
                self@ == spec_apply_events(old(self)@, evs.take(i as int)),
            decreases n - i,
        {
            let ev = events.remove(0);
            proof {
                assert(evs.skip(i as int)[0] == evs[i as int]);
                assert(evs.skip(i as int).remove(0) =~= evs.skip(i as int + 1));
                assert(evs.take(i as int + 1).drop_last() =~= evs.take(i as int));
                assert(evs.take(i as int + 1).last() == evs[i as int]);
            }
            self.update_from_event(ev);
            i += 1;
        }
        proof {
            assert(evs.take(n as int) =~= evs);
        }
        self.purge_old_data(RETENTION_MS, MAX_ERRORS, now_ms);
    }

    /// Evicts latency samples and source-update events older than
    /// `keep_graph_ms` and keeps only the newest `keep_errors` errors.
    pub fn purge_old_data(&mut self, keep_graph_ms: u64, keep_errors: usize, now_ms: u64)
        ensures
            final(self)@ == spec_purge(old(self)@, now_ms, keep_graph_ms, keep_errors),
    {
        let ghost pred_s = |s: LatencySample| spec_age(now_ms, s.timestamp) < keep_graph_ms;
        let sv = &self.latency_graph_data.samples;
        let mut kept_samples: Vec<LatencySample> = Vec::new();
        let ns = sv.len();
        proof {
            reveal(Seq::filter);
            assert(sv@.take(0).filter(pred_s) =~= Seq::<LatencySample>::empty());
        }
        for i in 0..ns
            invariant
                ns == sv@.len(),
                kept_samples@ == sv@.take(i as int).filter(pred_s),
                pred_s == (|s: LatencySample| spec_age(now_ms, s.timestamp) < keep_graph_ms),
        {
            let s = sv[i];
            if now_ms.saturating_sub(s.timestamp) < keep_graph_ms {
                kept_samples.push(s);
            }
            proof {
                assert(sv@.take(i as int + 1).drop_last() =~= sv@.take(i as int));
                assert(sv@.take(i as int + 1).last() == sv@[i as int]);
                reveal(Seq::filter);
                assert(sv@.take(i as int + 1).filter(pred_s) == (if pred_s(sv@[i as int]) {
                    sv@.take(i as int).filter(pred_s).push(sv@[i as int])
                } else {
                    sv@.take(i as int).filter(pred_s)
                }));
            }
        }
        proof {
            assert(sv@.take(ns as int) =~= sv@);
        }
        self.latency_graph_data.samples = kept_samples;
        let ghost pred_e = |e: SerialEvent| spec_age(now_ms, e.timestamp) < keep_graph_ms;
        let ev = &self.latency_graph_data.serial_events;
        let mut kept_events: Vec<SerialEvent> = Vec::new();
        let ne = ev.len();
        proof {
            reveal(Seq::filter);
            assert(ev@.take(0).filter(pred_e) =~= Seq::<SerialEvent>::empty());
        }
        for i in 0..ne
            invariant
                ne == ev@.len(),
                kept_events@ == ev@.take(i as int).filter(pred_e),
                pred_e == (|e: SerialEvent| spec_age(now_ms, e.timestamp) < keep_graph_ms),
        {
            let e = ev[i];
            if now_ms.saturating_sub(e.timestamp) < keep_graph_ms {
                kept_events.push(e);
            }
            proof {
                assert(ev@.take(i as int + 1).drop_last() =~= ev@.take(i as int));
                assert(ev@.take(i as int + 1).last() == ev@[i as int]);
                reveal(Seq::filter);
                assert(ev@.take(i as int + 1).filter(pred_e) == (if pred_e(ev@[i as int]) {
                    ev@.take(i as int).filter(pred_e).push(ev@[i as int])
                } else {
                    ev@.take(i as int).filter(pred_e)
                }));
            }
        }
        proof {
            assert(ev@.take(ne as int) =~= ev@);
        }
        self.latency_graph_data.serial_events = kept_events;
        let start = if self.errors.len() <= keep_errors {
            0
        } else {
            self.errors.len() - keep_errors
        };
        let tail = self.errors.split_off(start);
        self.errors = tail;
        proof {
            assert(self@.errors =~= spec_purge(
                old(self)@,
                now_ms,
                keep_graph_ms,
                keep_errors,
            ).errors);
            assert(self@ == spec_purge(old(self)@, now_ms, keep_graph_ms, keep_errors));
        }
    }

    /// The retained latency samples and source-update events.
    pub fn latency_graph_data(&self) -> (r: &LatencyGraphData)
        ensures
            r.samples@ == self@.samples,
            r.serial_events@ == self@.serial_events,
    {
        &self.latency_graph_data
    }

    /// The size in bytes of the last delivered payload, if any.
    pub fn latest_payload_size(&self) -> (r: Option<usize>)
        ensures
            r == self@.latest_payload_size,
    {
        self.latest_payload_size
    }

    /// The last delivered payload's rendered preview, if any.
    pub fn latest_payload(&self) -> (r: Option<&str>)
        ensures
            match r {
                Some(p) => self@.latest_payload == Some(p@),
                None => self@.latest_payload is None,
            },
    {
        match &self.latest_payload {
            Some(p) => Some(p.as_str()),
            None => None,
        }
    }

    /// The retained errors, oldest first.
    pub fn errors(&self) -> (r: &[ErrorInfo])
        ensures
            r@.map_values(|e: ErrorInfo| (e.msg@, e.timestamp)) == self@.errors,
    {
        self.errors.as_slice()
    }

    /// Forgets every retained error.
    pub fn clear_errors(&mut self)
        ensures
            final(self)@.errors == Seq::<(Seq<char>, u64)>::empty(),
            final(self)@.samples == old(self)@.samples,
            final(self)@.serial_events == old(self)@.serial_events,
            final(self)@.latest_payload == old(self)@.latest_payload,
            final(self)@.latest_payload_size == old(self)@.latest_payload_size,
    {
        self.errors.clear();
        proof {
            assert(self@.errors =~= Seq::<(Seq<char>, u64)>::empty());
        }
    }
}

/// After eviction — and every telemetry read-out evicts — each retained
/// latency sample and source-update event is younger than the horizon, and
/// the error list never exceeds its cap.
pub proof fn lemma_purge_evicts(st: SpecStreamStats, now: u64, keep_ms: u64, cap: usize)
    ensures
        forall|i: int|
            0 <= i < spec_purge(st, now, keep_ms, cap).samples.len() ==> spec_age(
                now,
                (#[trigger] spec_purge(st, now, keep_ms, cap).samples[i]).timestamp,
            ) < keep_ms,
        forall|i: int|
            0 <= i < spec_purge(st, now, keep_ms, cap).serial_events.len() ==> spec_age(
                now,
                (#[trigger] spec_purge(st, now, keep_ms, cap).serial_events[i]).timestamp,
            ) < keep_ms,
        spec_purge(st, now, keep_ms, cap).errors.len() <= cap,
{
    let purged = spec_purge(st, now, keep_ms, cap);
    let pred_s = |s: LatencySample| spec_age(now, s.timestamp) < keep_ms;
    let pred_e = |e: SerialEvent| spec_age(now, e.timestamp) < keep_ms;
    assert forall|i: int| 0 <= i < purged.samples.len() implies spec_age(
        now,
        (#[trigger] purged.samples[i]).timestamp,
    ) < keep_ms by {
        st.samples.lemma_filter_pred(pred_s, i);
    }
    assert forall|i: int| 0 <= i < purged.serial_events.len() implies spec_age(
        now,
        (#[trigger] purged.serial_events[i]).timestamp,
    ) < keep_ms by {
        st.serial_events.lemma_filter_pred(pred_e, i);
    }
}

} // verus!
