use vstd::prelude::*;

use crate::mapping::{MappingItem, SpecMappingItem};
use crate::profile::{ProfileV2, ProfileV2CompositionMapping, SpecCompositionMapping};
use crate::sports::DynamicSportType;
use crate::transform::Transformation;

verus! {

/// One edit of a composition target's configuration.
#[derive(Clone, Debug)]
pub enum ProfileCompositionMessage {
    ItemAdded,
    ItemRemoved(usize),
    ItemEnabledUpdated(usize, bool),
    ItemSourceFieldUpdated(usize, String),
    ItemTransformationUpdated(usize, Transformation),
    ItemDestinationFieldUpdated(usize, String),
    SubcompNameUpdated(String),
    CheckboxNameUpdated(String),
}

/// The rule a fresh mapping row starts as: enabled and empty.
pub open spec fn spec_default_item() -> SpecMappingItem {
    SpecMappingItem {
        enabled: true,
        source_field: Seq::empty(),
        transformation: Transformation::NoTransform,
        destination_field: Seq::empty(),
    }
}

/// Whether the edit's row index (if it has one) exists in the target.
pub open spec fn spec_composition_message_in_bounds(
    m: SpecCompositionMapping,
    message: ProfileCompositionMessage,
) -> bool {
    match message {
        ProfileCompositionMessage::ItemRemoved(i) => i < m.items.len(),
        ProfileCompositionMessage::ItemEnabledUpdated(i, _) => i < m.items.len(),
        ProfileCompositionMessage::ItemSourceFieldUpdated(i, _) => i < m.items.len(),
        ProfileCompositionMessage::ItemTransformationUpdated(i, _) => i < m.items.len(),
        ProfileCompositionMessage::ItemDestinationFieldUpdated(i, _) => i < m.items.len(),
        _ => true,
    }
}

/// What each edit does to a composition target.
pub open spec fn spec_apply_composition_message(
    m: SpecCompositionMapping,
    message: ProfileCompositionMessage,
) -> SpecCompositionMapping {
    match message {
        ProfileCompositionMessage::ItemAdded => SpecCompositionMapping {
            items: m.items.push(spec_default_item()),
            ..m
        },
        ProfileCompositionMessage::ItemRemoved(i) => SpecCompositionMapping {
            items: m.items.remove(i as int),
            ..m
        },
        ProfileCompositionMessage::ItemEnabledUpdated(i, new) => SpecCompositionMapping {
            items: m.items.update(
                i as int,
                SpecMappingItem { enabled: new, ..m.items[i as int] },
            ),
            ..m
        },
        ProfileCompositionMessage::ItemSourceFieldUpdated(i, new) => SpecCompositionMapping {
            items: m.items.update(
                i as int,
                SpecMappingItem { source_field: new@, ..m.items[i as int] },
            ),
            ..m
        },
        ProfileCompositionMessage::ItemTransformationUpdated(i, new) => SpecCompositionMapping {
            items: m.items.update(
                i as int,
                SpecMappingItem { transformation: new, ..m.items[i as int] },
            ),
            ..m
        },
        ProfileCompositionMessage::ItemDestinationFieldUpdated(i, new) => SpecCompositionMapping {
            items: m.items.update(
                i as int,
                SpecMappingItem { destination_field: new@, ..m.items[i as int] },
            ),
            ..m
        },
        ProfileCompositionMessage::SubcompNameUpdated(new) => SpecCompositionMapping {
            subcomp_name: new@,
            ..m
        },
        ProfileCompositionMessage::CheckboxNameUpdated(new) => SpecCompositionMapping {
            enabled_checkbox_name: if new@.len() == 0 {
                None
            } else {
                Some(new@)
            },
            ..m
        },
    }
}

impl ProfileV2CompositionMapping {
    /// Applies one configuration edit to this target, exactly as
    /// `spec_apply_composition_message` describes.
    pub fn update(&mut self, message: ProfileCompositionMessage)
        requires
            spec_composition_message_in_bounds(old(self)@, message),
        ensures
            final(self)@ == spec_apply_composition_message(old(self)@, message),
    {
        match message {
            ProfileCompositionMessage::ItemAdded => {
                let fresh = MappingItem::default();
                proof {
                    assert(fresh@ == spec_default_item());
                }
                self.mapping.items.push(fresh);
                proof {
                    assert(self@.items =~= old(self)@.items.push(spec_default_item()));
                }
            },
            ProfileCompositionMessage::ItemRemoved(i) => {
                let _removed = self.mapping.items.remove(i);
                proof {
                    assert(self@.items =~= old(self)@.items.remove(i as int));
                }
            },
            ProfileCompositionMessage::ItemEnabledUpdated(i, new) => {
                let mut it = self.mapping.items.remove(i);
                it.enabled = new;
                self.mapping.items.insert(i, it);
                proof {
                    assert(self.mapping.items@ =~= old(self).mapping.items@.update(
                        i as int,
                        self.mapping.items@[i as int],
                    ));
                    assert(self@.items =~= spec_apply_composition_message(
                        old(self)@,
                        message,
                    ).items);
                }
            },
            ProfileCompositionMessage::ItemSourceFieldUpdated(i, new) => {
                let mut it = self.mapping.items.remove(i);
                it.source_field = new;
                self.mapping.items.insert(i, it);
                proof {
                    assert(self.mapping.items@ =~= old(self).mapping.items@.update(
                        i as int,
                        self.mapping.items@[i as int],
                    ));
                    assert(self@.items =~= spec_apply_composition_message(
                        old(self)@,
                        message,
                    ).items);
                }
            },
            ProfileCompositionMessage::ItemTransformationUpdated(i, new) => {
                let mut it = self.mapping.items.remove(i);
                it.transformation = new;
                self.mapping.items.insert(i, it);
                proof {
                    assert(self.mapping.items@ =~= old(self).mapping.items@.update(
                        i as int,
                        self.mapping.items@[i as int],
                    ));
                    assert(self@.items =~= spec_apply_composition_message(
                        old(self)@,
                        message,
                    ).items);
                }
            },
            ProfileCompositionMessage::ItemDestinationFieldUpdated(i, new) => {
                let mut it = self.mapping.items.remove(i);
                it.destination_field = new;
                self.mapping.items.insert(i, it);
                proof {
                    assert(self.mapping.items@ =~= old(self).mapping.items@.update(
                        i as int,
                        self.mapping.items@[i as int],
                    ));
                    assert(self@.items =~= spec_apply_composition_message(
                        old(self)@,
                        message,
                    ).items);
                }
            },
            ProfileCompositionMessage::SubcompNameUpdated(new) => {
                self.subcomp_name = new;
            },
            ProfileCompositionMessage::CheckboxNameUpdated(new) => {
                self.enabled_checkbox_name = if new.as_str().is_empty() {
                    None
                } else {
                    Some(new)
                };
            },
        }
    }
}

/// What the surrounding application should do after a configuration edit.
#[derive(Debug, Copy, Clone, PartialEq, Eq, Structural)]
pub enum Update {
    Idle,
    RefreshSports(DynamicSportType),
}

/// One edit of the profile's configuration surface.
#[derive(Clone, Debug)]
pub enum ConfigureMessage {
    DataStreamUrlUpdated(String),
    SportTypeUpdated(DynamicSportType),
    MultipleRequestsUpdated(bool),
    ExcludeIncompleteDataUpdated(bool),
    MappingMessage(usize, ProfileCompositionMessage),
    AddSubcompMapping,
}

/// An unconfigured composition target: empty names, no rules, no gate.
pub open spec fn spec_default_target() -> SpecCompositionMapping {
    SpecCompositionMapping {
        subcomp_name: Seq::empty(),
        items: Seq::empty(),
        enabled_checkbox_name: None,
    }
}

/// Whether the edit's target index (if it has one) exists in the profile.
pub open spec fn spec_configure_message_in_bounds(
    targets: Seq<SpecCompositionMapping>,
    message: ConfigureMessage,
) -> bool {
    match message {
        ConfigureMessage::MappingMessage(i, msg) => i < targets.len()
            && spec_composition_message_in_bounds(targets[i as int], msg),
        _ => true,
    }
}

impl ProfileV2 {
    /// Applies one configuration edit to the profile; choosing a sport asks
    /// the application to refresh the sport's field list.
    pub fn update(&mut self, message: ConfigureMessage) -> (r: Update)
        requires
            spec_configure_message_in_bounds(
                crate::serializer::spec_targets_of(old(self).mappings@),
                message,
            ),
        ensures
            old(self).name@ == final(self).name@,
            old(self).ui_version@ == final(self).ui_version@,
            match message {
                ConfigureMessage::AddSubcompMapping => final(self).data_stream_url@ == old(self).data_stream_url@ && final(self).multiple_requests == old(self).multiple_requests
                    && final(self).exclude_incomplete_data == old(self).exclude_incomplete_data
                    && final(self).sport_type == old(self).sport_type
                    && crate::serializer::spec_targets_of(final(self).mappings@)
                    == crate::serializer::spec_targets_of(old(self).mappings@).push(
                    spec_default_target(),
                ) && r == Update::Idle,
                ConfigureMessage::DataStreamUrlUpdated(new) => final(self).data_stream_url@ == new@
                    && final(self).multiple_requests == old(self).multiple_requests && final(self).exclude_incomplete_data == old(self).exclude_incomplete_data && final(self).sport_type == old(self).sport_type && final(self).mappings@ == old(self).mappings@ && r == Update::Idle,
                ConfigureMessage::ExcludeIncompleteDataUpdated(new) => final(self).exclude_incomplete_data == new && final(self).data_stream_url@ == old(self).data_stream_url@ && final(self).multiple_requests == old(self).multiple_requests
                    && final(self).sport_type == old(self).sport_type && final(self).mappings@
                    == old(self).mappings@ && r == Update::Idle,
                ConfigureMessage::MultipleRequestsUpdated(new) => final(self).multiple_requests
                    == new && final(self).data_stream_url@ == old(self).data_stream_url@ && final(self).exclude_incomplete_data == old(self).exclude_incomplete_data && final(self).sport_type == old(self).sport_type && final(self).mappings@ == old(self).mappings@ && r == Update::Idle,
                ConfigureMessage::SportTypeUpdated(new) => final(self).sport_type == Some(new)
                    && final(self).data_stream_url@ == old(self).data_stream_url@ && final(self).multiple_requests == old(self).multiple_requests && final(self).exclude_incomplete_data == old(self).exclude_incomplete_data && final(self).mappings@ == old(self).mappings@ && r == Update::RefreshSports(new),
                ConfigureMessage::MappingMessage(i, msg) => final(self).data_stream_url@ == old(self).data_stream_url@ && final(self).multiple_requests == old(self).multiple_requests
                    && final(self).exclude_incomplete_data == old(self).exclude_incomplete_data
                    && final(self).sport_type == old(self).sport_type
                    && crate::serializer::spec_targets_of(final(self).mappings@)
                    == crate::serializer::spec_targets_of(old(self).mappings@).update(
                    i as int,
                    spec_apply_composition_message(
                        crate::serializer::spec_targets_of(old(self).mappings@)[i as int],
                        msg,
                    ),
                ) && r == Update::Idle,
            },
    {
        match message {
            ConfigureMessage::AddSubcompMapping => {
                let fresh = ProfileV2CompositionMapping::default();
                proof {
                    assert(fresh@ == spec_default_target());
                }
                self.mappings.push(fresh);
                proof {
                    assert(crate::serializer::spec_targets_of(self.mappings@)
                        =~= crate::serializer::spec_targets_of(old(self).mappings@).push(
                        spec_default_target(),
                    ));
                }
                Update::Idle
            },
            ConfigureMessage::DataStreamUrlUpdated(new) => {
                self.data_stream_url = new;
                Update::Idle
            },
            ConfigureMessage::ExcludeIncompleteDataUpdated(new) => {
                self.exclude_incomplete_data = new;
                Update::Idle
            },
            ConfigureMessage::MappingMessage(i, msg) => {
                let mut target = self.mappings.remove(i);
                target.update(msg);
                self.mappings.insert(i, target);
                proof {
                    assert(self.mappings@ =~= old(self).mappings@.update(
                        i as int,
                        self.mappings@[i as int],
                    ));
                    assert(crate::serializer::spec_targets_of(self.mappings@)
                        =~= crate::serializer::spec_targets_of(old(self).mappings@).update(
                        i as int,
                        spec_apply_composition_message(
                            crate::serializer::spec_targets_of(old(self).mappings@)[i as int],
                            msg,
                        ),
                    ));
                }
                Update::Idle
            },
            ConfigureMessage::MultipleRequestsUpdated(new) => {
                self.multiple_requests = new;
                Update::Idle
            },
            ConfigureMessage::SportTypeUpdated(new) => {
                self.sport_type = Some(new);
                Update::RefreshSports(new)
            },
        }
    }
}

} // verus!
