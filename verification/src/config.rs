use vstd::prelude::*;

use crate::mapping::Mapping;
use crate::sports::DynamicSportType;

verus! {

/// A fully-resolved streaming configuration: where to deliver, under which
/// sub-composition name, with which sport decoder and mapping, and whether
/// deliveries may overlap.
#[derive(Debug)]
pub struct Config {
    pub data_stream_url: String,
    pub subcomp_name: String,
    pub sport_type: DynamicSportType,
    pub multiple_requests: bool,
    pub mapping: Mapping,
}

} // verus!
