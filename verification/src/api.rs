//! The in-memory command model: what a caller hands to the encoder.

use vstd::prelude::*;

verus! {

/// How the robot vendor addresses a region: by room identifier or by zone
/// identifier. On the wire this discriminant travels under the field name
/// `type`, with the lower-case value `rid` or `zid`.
#[derive(Debug, Clone, PartialEq, Eq)]
pub enum InternalRegionType {
    Rid,
    Zid,
}

/// Per-region cleaning options. On the wire these fields use camelCase
/// (`noAutoPasses`, `twoPass`) while the rest of the envelope is snake_case;
/// the divergence is the vendor's, and is preserved deliberately.
#[derive(Debug, Clone, PartialEq, Eq)]
pub struct RegionCleaningParams {
    pub no_auto_passes: bool,
    pub two_pass: bool,
}

/// One region of a stored map. `params` is omitted from the wire entirely
/// when absent; the other fields are always present.
#[derive(Debug, Clone, PartialEq, Eq)]
pub struct Region {
    pub region_id: String,
    pub region_name: String,
    pub region_type: String,
    pub params: Option<RegionCleaningParams>,
    pub internal_region_type: InternalRegionType,
}

/// The payload a `Start` command may carry: which map and which regions to
/// clean, in order.
#[derive(Debug, Clone, PartialEq, Eq)]
pub struct StartRegions {
    pub pmap_id: String,
    pub user_pmapv_id: String,
    pub ordered: i64,
    pub regions: Vec<Region>,
}

/// The closed set of commands the controller can send. The variant tag is
/// emitted in lower case under the field `command`; a `Start` payload is
/// flattened beside it rather than nested.
#[derive(Debug, Clone, PartialEq, Eq)]
pub enum Command {
    Start { start_regions: Option<StartRegions> },
    Clean,
    Pause,
    Stop,
    Resume,
    Dock,
    Evac,
    Train,
}

} // verus!
