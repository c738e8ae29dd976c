use daktronics_singular_ui::header::{Header, HeaderMessage, HeaderScreen, Update};
use daktronics_singular_ui::mock::{MockDataSource, MockDataSourceError};
use daktronics_singular_ui::profile::{ProfileV1, ProfileV2};
use daktronics_singular_ui::sports::DynamicSportType;
use daktronics_singular_ui::stream_running;
use daktronics_singular_ui::stream_running::{StreamRunning, StreamRunningMessage};
use daktronics_singular_ui::transform::Transformation;
use daktronics_singular_ui::value::{Record, Value};

#[test]
fn record_lookup_and_replacement() {
    let mut rec = Record::new();
    assert_eq!(rec.len(), 0);
    assert!(rec.get("a").is_none());
    assert!(rec.insert("a".to_string(), Value::Number(1)).is_none());
    assert!(rec.insert("b".to_string(), Value::Number(2)).is_none());
    assert_eq!(rec.len(), 2);
    assert!(rec.contains_key("a"));
    assert!(!rec.contains_key("c"));
    match rec.insert("a".to_string(), Value::Number(3)) {
        Some(Value::Number(1)) => {},
        other => panic!("unexpected {:?}", other),
    }
    assert_eq!(rec.len(), 2);
    assert_eq!(rec.key_at(0).as_str(), "a");
    match rec.get("a") {
        Some(Value::Number(3)) => {},
        other => panic!("unexpected {:?}", other),
    }
}

#[test]
fn value_deep_clone_is_structural() {
    let mut rec = Record::new();
    rec.insert("xs".to_string(), Value::Array(vec![Value::Str("v".to_string())]));
    let v = Value::Object(rec);
    let c = v.deep_clone();
    assert_eq!(
        daktronics_singular_ui::json::to_json(&v),
        daktronics_singular_ui::json::to_json(&c)
    );
}

#[test]
fn header_confirmation_flow() {
    let mut header = Header::new();
    assert!(matches!(
        header.update(HeaderMessage::ScreenTabClicked(HeaderScreen::Stream)),
        Update::Switch(HeaderScreen::Stream)
    ));
    assert!(matches!(header.update(HeaderMessage::OpenEndStreamConfirm), Update::Idle));
    assert!(matches!(header.update(HeaderMessage::EndStreamConfirmCancel), Update::Idle));
    assert!(matches!(header.update(HeaderMessage::OpenEndStreamConfirm), Update::Idle));
    assert!(matches!(header.update(HeaderMessage::EndStreamConfirmYes), Update::EndStream));
    match header.update(HeaderMessage::ProfileNameChange("game night".to_string())) {
        Update::ChangeProfileName(n) => assert_eq!(n, "game night"),
        other => panic!("unexpected {:?}", other),
    }
    assert!(matches!(header.update(HeaderMessage::ProfileImport), Update::ImportProfile));
    assert!(matches!(header.update(HeaderMessage::ProfileExport), Update::ExportProfile));
    assert!(matches!(header.update(HeaderMessage::ProfileAdd), Update::NewProfile));
}

#[test]
fn stream_running_clear_errors() {
    let mut screen = StreamRunning::new();
    assert_eq!(
        screen.update(StreamRunningMessage::ClearErrors),
        stream_running::Update::ClearErrors
    );
}

#[test]
fn mock_source_stalls_every_third_read() {
    let mut source = MockDataSource::new();
    assert_eq!(source.next_delay_ms(), 900);
    assert_eq!(source.next_delay_ms(), 900);
    assert_eq!(source.next_delay_ms(), 4000);
    assert_eq!(source.next_delay_ms(), 900);
    assert_eq!(MockDataSourceError::Unsupported.message(), "unsupported on mock");
}

#[test]
fn sport_names_and_catalog() {
    assert_eq!(DynamicSportType::all().len(), 22);
    assert_eq!(DynamicSportType::Basketball.name(), "Basketball");
    assert_eq!(DynamicSportType::EventCounterDayTime.name(), "Event Counter: Day/Time");
    assert_eq!(DynamicSportType::HockeyLacrosse.name(), "Hockey/Lacrosse");
}

#[test]
fn transformation_catalog_is_complete() {
    let all = Transformation::all();
    assert_eq!(all.len(), 8);
    assert!(matches!(all[0], Transformation::NoTransform));
    assert!(matches!(Transformation::default(), Transformation::NoTransform));
}

#[test]
fn default_profiles_enable_both_policies() {
    let p2 = ProfileV2::default();
    assert_eq!(p2.name, "New profile");
    assert!(p2.multiple_requests);
    assert!(p2.exclude_incomplete_data);
    assert!(p2.sport_type.is_none());
    assert!(p2.mappings.is_empty());
    let p1 = ProfileV1::default();
    assert!(p1.multiple_requests);
    assert!(p1.exclude_incomplete_data);
}

#[test]
fn profile_upgrade_wraps_the_single_mapping() {
    let mut p1 = ProfileV1::default();
    p1.name = "court A".to_string();
    p1.subcomp_name = "main".to_string();
    p1.data_stream_url = "http://example.test/stream".to_string();
    p1.sport_type = Some(DynamicSportType::Basketball);
    let p2 = p1.into_v2();
    assert_eq!(p2.name, "court A");
    assert_eq!(p2.data_stream_url, "http://example.test/stream");
    assert!(matches!(p2.sport_type, Some(DynamicSportType::Basketball)));
    assert_eq!(p2.mappings.len(), 1);
    assert_eq!(p2.mappings[0].subcomp_name, "main");
    assert!(p2.mappings[0].enabled_checkbox_name.is_none());
}
