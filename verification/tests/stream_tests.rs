use daktronics_singular_ui::latency_graph::{LatencySample, SerialEvent};
use daktronics_singular_ui::mapping::{Mapping, MappingItem};
use daktronics_singular_ui::profile::ProfileV2CompositionMapping;
use daktronics_singular_ui::stream::{
    delivery_event, dispatch_step, ingest_step, ActiveStream, CoalescingCell, DispatchOutcome,
    IngestOutcome, SignalCounter, WorkerEvent,
};
use daktronics_singular_ui::transform::Transformation;
use daktronics_singular_ui::value::{Record, Value};

fn snapshot(clock: &str) -> Value {
    let mut rec = Record::new();
    rec.insert("clock".to_string(), Value::Str(clock.to_string()));
    Value::Object(rec)
}

fn clock_targets() -> Vec<ProfileV2CompositionMapping> {
    vec![ProfileV2CompositionMapping {
        subcomp_name: "scorebug".to_string(),
        mapping: Mapping {
            items: vec![
                MappingItem {
                    enabled: true,
                    source_field: "clock".to_string(),
                    transformation: Transformation::TimeMinutes,
                    destination_field: "min".to_string(),
                },
                MappingItem {
                    enabled: true,
                    source_field: "clock".to_string(),
                    transformation: Transformation::TimeSeconds,
                    destination_field: "sec".to_string(),
                },
            ],
        },
        enabled_checkbox_name: None,
    }]
}

#[test]
fn coalescing_cell_keeps_only_the_latest_snapshot() {
    let mut cell = CoalescingCell::new();
    cell.store(snapshot("1:00.0"));
    cell.store(snapshot("2:00.0"));
    let taken = cell.take().expect("a value should be present");
    let mut again = CoalescingCell::new();
    again.store(taken);
    let rendered = match again.take().unwrap() {
        Value::Object(rec) => {
            let v = rec.get("clock").unwrap();
            match v {
                Value::Str(s) => s.clone(),
                other => panic!("unexpected {:?}", other),
            }
        },
        other => panic!("unexpected {:?}", other),
    };
    assert_eq!(rendered, "2:00.0");
    assert!(cell.take().is_none());
}

#[test]
fn signal_counter_merges_wakeups() {
    let mut signals = SignalCounter::new();
    assert!(!signals.is_pending());
    assert!(!signals.drain());
    signals.signal();
    signals.signal();
    signals.signal();
    assert!(signals.is_pending());
    assert!(signals.drain());
    assert!(!signals.is_pending());
    assert!(!signals.drain());
}

#[test]
fn ingest_new_data_stores_signals_and_reports() {
    let mut cell = CoalescingCell::new();
    let mut signals = SignalCounter::new();
    let ev = ingest_step(IngestOutcome::NewData(snapshot("0:10.0")), &mut cell, &mut signals, 123);
    assert!(matches!(ev, Some(WorkerEvent::SerialEvent(SerialEvent { timestamp: 123 }))));
    assert!(signals.is_pending());
    assert!(cell.take().is_some());
}

#[test]
fn ingest_no_change_does_nothing() {
    let mut cell = CoalescingCell::new();
    let mut signals = SignalCounter::new();
    let ev = ingest_step(IngestOutcome::NoChange, &mut cell, &mut signals, 1);
    assert!(ev.is_none());
    assert!(!signals.is_pending());
    assert!(cell.take().is_none());
}

#[test]
fn ingest_timeout_reports_but_never_stops() {
    let mut cell = CoalescingCell::new();
    let mut signals = SignalCounter::new();
    let ev = ingest_step(IngestOutcome::TimedOut, &mut cell, &mut signals, 9);
    match ev {
        Some(WorkerEvent::ErrorEvent(info)) => {
            assert_eq!(
                info.msg,
                "timeout when waiting for new score data from the serial connection"
            );
            assert_eq!(info.timestamp, 9);
        },
        other => panic!("unexpected {:?}", other),
    }
}

#[test]
fn ingest_update_failure_carries_the_source_error() {
    let mut cell = CoalescingCell::new();
    let mut signals = SignalCounter::new();
    let ev = ingest_step(
        IngestOutcome::UpdateFailed("port closed".to_string()),
        &mut cell,
        &mut signals,
        4,
    );
    match ev {
        Some(WorkerEvent::ErrorEvent(info)) => {
            assert_eq!(info.msg, "failed to update RTD state: port closed");
        },
        other => panic!("unexpected {:?}", other),
    }
}

#[test]
fn dispatch_prepares_the_latest_snapshot() {
    let mut cell = CoalescingCell::new();
    cell.store(snapshot("9:59.0"));
    cell.store(snapshot("1:02.3"));
    let out = dispatch_step(&mut cell, &clock_targets(), false, 1700000000000, 55);
    match out {
        DispatchOutcome::Prepared(p) => {
            assert_eq!(
                p.payload,
                "{\"__TIMESTAMP\":1700000000000,\"scorebug\":{\"min\":1,\"sec\":2}}"
            );
            assert_eq!(
                p.preview,
                "{\n  \"__TIMESTAMP\": 1700000000000,\n  \"scorebug\": {\n    \"min\": 1,\n    \"sec\": 2\n  }\n}"
            );
            assert_eq!(p.byte_size, p.payload.len());
        },
        other => panic!("unexpected {:?}", other),
    }
    assert!(matches!(
        dispatch_step(&mut cell, &clock_targets(), false, 1700000000000, 56),
        DispatchOutcome::Idle
    ));
}

#[test]
fn dispatch_reports_composition_failures() {
    let mut cell = CoalescingCell::new();
    let mut rec = Record::new();
    rec.insert("other".to_string(), Value::Number(1));
    cell.store(Value::Object(rec));
    let out = dispatch_step(&mut cell, &clock_targets(), false, 0, 77);
    match out {
        DispatchOutcome::Failed(info) => {
            assert_eq!(
                info.msg,
                "failed to map from serial stream to network: source field clock does not exist"
            );
            assert_eq!(info.timestamp, 77);
        },
        other => panic!("unexpected {:?}", other),
    }
}

#[test]
fn delivery_success_becomes_a_latency_sample() {
    let ev = delivery_event(Ok(31), "{}".to_string(), 2, 1000, true);
    match ev {
        WorkerEvent::LatencySampleEvent(sample, preview, size) => {
            assert_eq!(sample, LatencySample { timestamp: 1000, latency: 31 });
            assert_eq!(preview.as_deref(), Some("{}"));
            assert_eq!(size, 2);
        },
        other => panic!("unexpected {:?}", other),
    }
}

#[test]
fn delivery_failure_names_the_mode() {
    let ev = delivery_event(Err("connection refused".to_string()), String::new(), 0, 5, true);
    match ev {
        WorkerEvent::ErrorEvent(info) => assert_eq!(
            info.msg,
            "server PUT failed (multiple_requests=true): connection refused"
        ),
        other => panic!("unexpected {:?}", other),
    }
    let ev = delivery_event(Err("reset".to_string()), String::new(), 0, 5, false);
    match ev {
        WorkerEvent::ErrorEvent(info) => assert_eq!(
            info.msg,
            "server PUT failed (multiple_requests=false): reset"
        ),
        other => panic!("unexpected {:?}", other),
    }
}

#[test]
fn concurrent_deliveries_record_independent_samples() {
    let mut stream = ActiveStream::new();
    let first = delivery_event(Ok(80), "a".to_string(), 1, 1000, true);
    let second = delivery_event(Ok(15), "b".to_string(), 1, 900, true);
    stream.update_from_events(vec![second, first], 1100);
    let samples = &stream.latency_graph_data().samples;
    assert_eq!(samples.len(), 2);
    assert_eq!(samples[0], LatencySample { timestamp: 900, latency: 15 });
    assert_eq!(samples[1], LatencySample { timestamp: 1000, latency: 80 });
    assert_eq!(stream.latest_payload(), Some("a"));
    assert_eq!(stream.latest_payload_size(), Some(1));
}

#[test]
fn telemetry_readout_evicts_old_entries() {
    let mut stream = ActiveStream::new();
    let now: u64 = 10 * 60 * 1000;
    let events = vec![
        WorkerEvent::SerialEvent(SerialEvent { timestamp: 1000 }),
        WorkerEvent::SerialEvent(SerialEvent { timestamp: now - 1000 }),
        WorkerEvent::LatencySampleEvent(
            LatencySample { timestamp: 2000, latency: 5 },
            None,
            0,
        ),
        WorkerEvent::LatencySampleEvent(
            LatencySample { timestamp: now - 500, latency: 6 },
            None,
            0,
        ),
    ];
    stream.update_from_events(events, now);
    let data = stream.latency_graph_data();
    assert_eq!(data.serial_events.len(), 1);
    assert_eq!(data.serial_events[0].timestamp, now - 1000);
    assert_eq!(data.samples.len(), 1);
    assert_eq!(data.samples[0], LatencySample { timestamp: now - 500, latency: 6 });
}

#[test]
fn error_list_is_capped_to_the_newest_twenty() {
    let mut stream = ActiveStream::new();
    let mut events = Vec::new();
    for i in 0..25u64 {
        events.push(ingest_step(
            IngestOutcome::TimedOut,
            &mut CoalescingCell::new(),
            &mut SignalCounter::new(),
            i,
        )
        .unwrap());
    }
    stream.update_from_events(events, 30);
    let errors = stream.errors();
    assert_eq!(errors.len(), 20);
    assert_eq!(errors[0].timestamp, 5);
    assert_eq!(errors[19].timestamp, 24);
    stream.clear_errors();
    assert!(stream.errors().is_empty());
}

#[test]
fn purge_keeps_fresh_entries_and_latest_payload() {
    let mut stream = ActiveStream::new();
    stream.update_from_events(
        vec![WorkerEvent::LatencySampleEvent(
            LatencySample { timestamp: 50, latency: 7 },
            Some("payload".to_string()),
            7,
        )],
        60,
    );
    stream.purge_old_data(100, 20, 120);
    assert_eq!(stream.latency_graph_data().samples.len(), 1);
    stream.purge_old_data(100, 20, 200);
    assert_eq!(stream.latency_graph_data().samples.len(), 0);
    assert_eq!(stream.latest_payload(), Some("payload"));
    assert_eq!(stream.latest_payload_size(), Some(7));
}
