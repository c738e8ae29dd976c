use daktronics_singular_ui::configure::{ConfigureMessage, ProfileCompositionMessage, Update};
use daktronics_singular_ui::profile::{ProfileV2, ProfileV2CompositionMapping};
use daktronics_singular_ui::sports::DynamicSportType;
use daktronics_singular_ui::transform::Transformation;

#[test]
fn composition_edits_build_a_target() {
    let mut target = ProfileV2CompositionMapping::default();
    target.update(ProfileCompositionMessage::SubcompNameUpdated("scorebug".to_string()));
    target.update(ProfileCompositionMessage::ItemAdded);
    target.update(ProfileCompositionMessage::ItemSourceFieldUpdated(0, "clock".to_string()));
    target.update(ProfileCompositionMessage::ItemTransformationUpdated(
        0,
        Transformation::TimeMinutes,
    ));
    target.update(ProfileCompositionMessage::ItemDestinationFieldUpdated(0, "min".to_string()));
    target.update(ProfileCompositionMessage::CheckboxNameUpdated("showBug".to_string()));
    assert_eq!(target.subcomp_name, "scorebug");
    assert_eq!(target.mapping.items.len(), 1);
    let item = &target.mapping.items[0];
    assert!(item.enabled);
    assert_eq!(item.source_field, "clock");
    assert!(matches!(item.transformation, Transformation::TimeMinutes));
    assert_eq!(item.destination_field, "min");
    assert_eq!(target.enabled_checkbox_name.as_deref(), Some("showBug"));

    target.update(ProfileCompositionMessage::ItemEnabledUpdated(0, false));
    assert!(!target.mapping.items[0].enabled);
    target.update(ProfileCompositionMessage::CheckboxNameUpdated(String::new()));
    assert!(target.enabled_checkbox_name.is_none());
    target.update(ProfileCompositionMessage::ItemRemoved(0));
    assert!(target.mapping.items.is_empty());
}

#[test]
fn profile_edits_update_the_configuration_surface() {
    let mut profile = ProfileV2::default();
    assert!(matches!(
        profile.update(ConfigureMessage::DataStreamUrlUpdated(
            "http://example.test/in".to_string()
        )),
        Update::Idle
    ));
    assert_eq!(profile.data_stream_url, "http://example.test/in");
    assert!(matches!(
        profile.update(ConfigureMessage::MultipleRequestsUpdated(false)),
        Update::Idle
    ));
    assert!(!profile.multiple_requests);
    assert!(matches!(
        profile.update(ConfigureMessage::ExcludeIncompleteDataUpdated(false)),
        Update::Idle
    ));
    assert!(!profile.exclude_incomplete_data);
    assert!(matches!(
        profile.update(ConfigureMessage::SportTypeUpdated(DynamicSportType::Basketball)),
        Update::RefreshSports(DynamicSportType::Basketball)
    ));
    assert!(matches!(profile.sport_type, Some(DynamicSportType::Basketball)));
    assert!(matches!(profile.update(ConfigureMessage::AddSubcompMapping), Update::Idle));
    assert_eq!(profile.mappings.len(), 1);
    assert!(matches!(
        profile.update(ConfigureMessage::MappingMessage(
            0,
            ProfileCompositionMessage::SubcompNameUpdated("bug".to_string())
        )),
        Update::Idle
    ));
    assert_eq!(profile.mappings[0].subcomp_name, "bug");
}
