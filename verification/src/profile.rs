use vstd::prelude::*;

use vstd::string::StringExecFns;

use crate::mapping::{Mapping, SpecMappingItem};
use crate::sports::DynamicSportType;

verus! {

/// Abstract model of one composition target.
pub struct SpecCompositionMapping {
    pub subcomp_name: Seq<char>,
    pub items: Seq<SpecMappingItem>,
    pub enabled_checkbox_name: Option<Seq<char>>,
}

/// One named target of the outgoing envelope: a mapping, the sub-composition
/// name its output is keyed under, and an optional gating field name.
#[derive(Debug)]
pub struct ProfileV2CompositionMapping {
    pub subcomp_name: String,
    pub mapping: Mapping,
    pub enabled_checkbox_name: Option<String>,
}

impl Default for ProfileV2CompositionMapping {
    /// An unconfigured target: empty names, no rules, no gate.
    fn default() -> (r: ProfileV2CompositionMapping)
        ensures
            r@.subcomp_name == Seq::<char>::empty(),
            r@.items == Seq::<SpecMappingItem>::empty(),
            r@.enabled_checkbox_name is None,
    {
        let r = ProfileV2CompositionMapping {
            subcomp_name: String::new(),
            mapping: Mapping { items: Vec::new() },
            enabled_checkbox_name: None,
        };
        proof {
            assert(r@.items =~= Seq::<SpecMappingItem>::empty());
        }
        r
    }
}

pub type ProfileCompositionMapping = ProfileV2CompositionMapping;

impl View for ProfileV2CompositionMapping {
    type V = SpecCompositionMapping;

    open spec fn view(&self) -> SpecCompositionMapping {
        SpecCompositionMapping {
            subcomp_name: self.subcomp_name@,
            items: self.mapping@,
            enabled_checkbox_name: match self.enabled_checkbox_name {
                Some(g) => Some(g@),
                None => None,
            },
        }
    }
}

/// The current profile shape: one delivery endpoint and any number of named
/// composition targets, plus the two delivery policies.
#[derive(Debug)]
pub struct ProfileV2 {
    pub name: String,
    pub ui_version: String,
    pub data_stream_url: String,
    pub multiple_requests: bool,
    pub exclude_incomplete_data: bool,
    pub sport_type: Option<DynamicSportType>,
    pub mappings: Vec<ProfileV2CompositionMapping>,
}

pub type Profile = ProfileV2;

impl Default for ProfileV2 {
    /// A fresh profile: concurrent deliveries and null-tolerant mapping are
    /// on, nothing else is configured yet.
    fn default() -> (r: ProfileV2)
        ensures
            r.name@ == "New profile"@,
            r.ui_version@ == "2.0.0"@,
            r.data_stream_url@ == Seq::<char>::empty(),
            r.multiple_requests == true,
            r.exclude_incomplete_data == true,
            r.sport_type is None,
            r.mappings@ == Seq::<ProfileV2CompositionMapping>::empty(),
    {
        ProfileV2 {
            name: String::from_str("New profile"),
            ui_version: String::from_str("2.0.0"),
            data_stream_url: String::new(),
            multiple_requests: true,
            exclude_incomplete_data: true,
            sport_type: None,
            mappings: Vec::new(),
        }
    }
}

/// The first profile shape: a single unnamed composition target.
#[derive(Debug)]
pub struct ProfileV1 {
    pub ui_version: String,
    pub data_stream_url: String,
    pub subcomp_name: String,
    pub sport_type: Option<DynamicSportType>,
    pub multiple_requests: bool,
    pub exclude_incomplete_data: bool,
    pub mapping: Mapping,
    pub name: String,
}

impl Default for ProfileV1 {
    /// A fresh single-target profile, with the same policies as `ProfileV2`.
    fn default() -> (r: ProfileV1)
        ensures
            r.name@ == "New profile"@,
            r.ui_version@ == "2.0.0"@,
            r.data_stream_url@ == Seq::<char>::empty(),
            r.subcomp_name@ == Seq::<char>::empty(),
            r.multiple_requests == true,
            r.exclude_incomplete_data == true,
            r.sport_type is None,
            r.mapping@ == Seq::<SpecMappingItem>::empty(),
    {
        let r = ProfileV1 {
            ui_version: String::from_str("2.0.0"),
            data_stream_url: String::new(),
            subcomp_name: String::new(),
            sport_type: None,
            multiple_requests: true,
            exclude_incomplete_data: true,
            mapping: Mapping { items: Vec::new() },
            name: String::from_str("New profile"),
        };
        proof {
            assert(r.mapping@ =~= Seq::<SpecMappingItem>::empty());
        }
        r
    }
}

impl ProfileV1 {
    /// Upgrades a single-target profile: its one mapping becomes the sole
    /// composition target, keyed by the old sub-composition name, without a
    /// gating key.
    pub fn into_v2(self) -> (r: ProfileV2)
        ensures
            r.name@ == self.name@,
            r.data_stream_url@ == self.data_stream_url@,
            r.multiple_requests == self.multiple_requests,
            r.exclude_incomplete_data == self.exclude_incomplete_data,
            r.sport_type == self.sport_type,
            r.mappings@.len() == 1,
            r.mappings@[0]@ == (SpecCompositionMapping {
                subcomp_name: self.subcomp_name@,
                items: self.mapping@,
                enabled_checkbox_name: None,
            }),
    {
        let mut mappings: Vec<ProfileV2CompositionMapping> = Vec::new();
        mappings.push(
            ProfileV2CompositionMapping {
                enabled_checkbox_name: None,
                mapping: self.mapping,
                subcomp_name: self.subcomp_name,
            },
        );
        ProfileV2 {
            name: self.name,
            ui_version: String::from_str("2.0.0"),
            data_stream_url: self.data_stream_url,
            multiple_requests: self.multiple_requests,
            exclude_incomplete_data: self.exclude_incomplete_data,
            sport_type: self.sport_type,
            mappings,
        }
    }
}

} // verus!
