//! The in-memory telemetry model: one tagged variant per known state field,
//! plus the wire-string tables for the mission enums. The vendor's wire
//! vocabulary differs from the semantic names (`"none"` means ready,
//! `"hmUsrDock"` means sent home); the tables here are the single place
//! where that mapping is written down.

use vstd::prelude::*;
use vstd::string::*;
use crate::json::bytes_eq;

verus! {

#[derive(Debug, Clone, PartialEq, Eq)]
pub struct HardwareDebugRevision {
    pub sw_ver: String,
    pub hw: String,
    pub status: u8,
}

#[derive(Debug, Clone, Copy, PartialEq, Eq, Structural)]
pub enum CleanMissionPhase {
    Charge,
    Run,
    Empty,
    Paused,
    Stuck,
    SentHome,
    MidDock,
    FinalDock,
}

#[derive(Debug, Clone, Copy, PartialEq, Eq, Structural)]
pub enum CleanMissionCycle {
    Clean,
    QuickClean,
    Spot,
    Empty,
    Dock,
    Train,
    Ready,
}

/// Who started a mission, as the vendor names originators on the wire:
/// `schedule`, `rmtApp`, `manual` or `localApp`.
#[derive(Debug, Clone, Copy, PartialEq, Eq, Structural)]
pub enum CleanMissionInitiator {
    Plan,
    App,
    Robot,
    HA,
}

/// Status of the running or most recent cleaning mission. `initiator` stays
/// the raw wire string: the semantic mapping exists (see
/// `CleanMissionInitiator`) but the status record deliberately keeps what
/// the robot sent.
#[derive(Debug, Clone, PartialEq, Eq)]
pub struct CleanMissionStatus {
    pub cycle: CleanMissionCycle,
    pub error: u8,
    pub expire_m: u32,
    pub expire_tm: u32,
    pub initiator: String,
    pub mission_id: String,
    pub mssn_m: u8,
    pub mssn_strt_tm: u32,
    pub n_mssn: u32,
    pub not_ready: u8,
    pub operating_mode: u8,
    pub phase: CleanMissionPhase,
    pub rechrg_m: u32,
    pub rechrg_tm: u32,
}

/// One decoded telemetry fragment: a variant per known state field. Fields
/// whose payload shape is still open upstream take a deliberately loose
/// form (`CleanSchedule2` as a count of empty entries, `Pmaps` as records
/// of string pairs) so that schema growth does not break the decoder.
#[derive(Debug, PartialEq)]
pub enum RoombaMessage {
    Audio { volume: u8 },
    BatAuthEnable(Option<bool>),
    BatInfo {},
    BatPct(u8),
    BatteryType(String),
    Bbchg {},
    Bbchg3 {},
    Bbmssn {},
    Bbnav {},
    Bbpause {},
    Bbrstinfo {},
    Bbrun {},
    Bbswitch {},
    Bbsys {},
    BehaviorFwk(Option<bool>),
    Bin { full: bool, present: bool },
    BinPause(bool),
    BleDevLoc(bool),
    Cap {},
    CarpetBoost(bool),
    ChildLock(bool),
    ChrgLrPtrn(u32),
    CleanMissionStatus(CleanMissionStatus),
    CleanSchedule2(Vec<()>),
    CloudEnv(String),
    Connected(bool),
    Country(String),
    DeploymentState(u8),
    Dock {},
    EcoCharge(bool),
    EvacAllowed(bool),
    FeatureFlags {},
    HwDbgr(Option<HardwareDebugRevision>),
    HwPartsRev {},
    Langs2 {},
    LastCommand {},
    LastDisconnect(u16),
    MapUploadAllowed(bool),
    MissionTelemetry {},
    MssnNavStats {},
    Name(String),
    Netinfo {},
    NoAutoPasses(bool),
    OpenOnly(bool),
    PmapCL(bool),
    PmapLearningAllowed(bool),
    PmapSGen(u8),
    PmapShare {},
    Pmaps(Vec<Vec<(String, String)>>),
    RankOverlap(u32),
    ReflexSettings {},
    RuntimeStats { hr: u32, min: u32, sqft: u32 },
    SceneRecog(Option<u16>),
    SchedHold(bool),
    SecureBoot {},
    Signal {},
    Sku(String),
    SoftwareVer(String),
    SubModSwVer {},
    SvcEndpoints {},
    Timezone(String),
    Tls {},
    TwoPass(bool),
    Tz {},
    VacHigh(bool),
    WDevLoc(bool),
    Wifistat {},
    Wlcfg {},
}

/// The wire table for `phase`.
pub open spec fn spec_phase_from_wire(b: Seq<u8>) -> Option<CleanMissionPhase> {
    if b == ("charge").spec_bytes() {
        Option::Some(CleanMissionPhase::Charge)
    } else if b == ("run").spec_bytes() {
        Option::Some(CleanMissionPhase::Run)
    } else if b == ("evac").spec_bytes() {
        Option::Some(CleanMissionPhase::Empty)
    } else if b == ("stop").spec_bytes() {
        Option::Some(CleanMissionPhase::Paused)
    } else if b == ("stuck").spec_bytes() {
        Option::Some(CleanMissionPhase::Stuck)
    } else if b == ("hmUsrDock").spec_bytes() {
        Option::Some(CleanMissionPhase::SentHome)
    } else if b == ("hmMidMsn").spec_bytes() {
        Option::Some(CleanMissionPhase::MidDock)
    } else if b == ("hmPostMsn").spec_bytes() {
        Option::Some(CleanMissionPhase::FinalDock)
    } else {
        Option::None
    }
}

/// The wire table for `cycle`.
pub open spec fn spec_cycle_from_wire(b: Seq<u8>) -> Option<CleanMissionCycle> {
    if b == ("clean").spec_bytes() {
        Option::Some(CleanMissionCycle::Clean)
    } else if b == ("quick").spec_bytes() {
        Option::Some(CleanMissionCycle::QuickClean)
    } else if b == ("spot").spec_bytes() {
        Option::Some(CleanMissionCycle::Spot)
    } else if b == ("evac").spec_bytes() {
        Option::Some(CleanMissionCycle::Empty)
    } else if b == ("dock").spec_bytes() {
        Option::Some(CleanMissionCycle::Dock)
    } else if b == ("train").spec_bytes() {
        Option::Some(CleanMissionCycle::Train)
    } else if b == ("none").spec_bytes() {
        Option::Some(CleanMissionCycle::Ready)
    } else {
        Option::None
    }
}

/// The wire table for mission originators.
pub open spec fn spec_initiator_from_wire(b: Seq<u8>) -> Option<CleanMissionInitiator> {
    if b == ("schedule").spec_bytes() {
        Option::Some(CleanMissionInitiator::Plan)
    } else if b == ("rmtApp").spec_bytes() {
        Option::Some(CleanMissionInitiator::App)
    } else if b == ("manual").spec_bytes() {
        Option::Some(CleanMissionInitiator::Robot)
    } else if b == ("localApp").spec_bytes() {
        Option::Some(CleanMissionInitiator::HA)
    } else {
        Option::None
    }
}

pub fn phase_from_wire(b: &[u8]) -> (r: Option<CleanMissionPhase>)
    ensures
        r == spec_phase_from_wire(b@),
{
    if bytes_eq(b, ("charge").as_bytes()) {
        Option::Some(CleanMissionPhase::Charge)
    } else if bytes_eq(b, ("run").as_bytes()) {
        Option::Some(CleanMissionPhase::Run)
    } else if bytes_eq(b, ("evac").as_bytes()) {
        Option::Some(CleanMissionPhase::Empty)
    } else if bytes_eq(b, ("stop").as_bytes()) {
        Option::Some(CleanMissionPhase::Paused)
    } else if bytes_eq(b, ("stuck").as_bytes()) {
        Option::Some(CleanMissionPhase::Stuck)
    } else if bytes_eq(b, ("hmUsrDock").as_bytes()) {
        Option::Some(CleanMissionPhase::SentHome)
    } else if bytes_eq(b, ("hmMidMsn").as_bytes()) {
        Option::Some(CleanMissionPhase::MidDock)
    } else if bytes_eq(b, ("hmPostMsn").as_bytes()) {
        Option::Some(CleanMissionPhase::FinalDock)
    } else {
        Option::None
    }
}

pub fn cycle_from_wire(b: &[u8]) -> (r: Option<CleanMissionCycle>)
    ensures
        r == spec_cycle_from_wire(b@),
{
    if bytes_eq(b, ("clean").as_bytes()) {
        Option::Some(CleanMissionCycle::Clean)
    } else if bytes_eq(b, ("quick").as_bytes()) {
        Option::Some(CleanMissionCycle::QuickClean)
    } else if bytes_eq(b, ("spot").as_bytes()) {
        Option::Some(CleanMissionCycle::Spot)
    } else if bytes_eq(b, ("evac").as_bytes()) {
        Option::Some(CleanMissionCycle::Empty)
    } else if bytes_eq(b, ("dock").as_bytes()) {
        Option::Some(CleanMissionCycle::Dock)
    } else if bytes_eq(b, ("train").as_bytes()) {
        Option::Some(CleanMissionCycle::Train)
    } else if bytes_eq(b, ("none").as_bytes()) {
        Option::Some(CleanMissionCycle::Ready)
    } else {
        Option::None
    }
}

pub fn initiator_from_wire(b: &[u8]) -> (r: Option<CleanMissionInitiator>)
    ensures
        r == spec_initiator_from_wire(b@),
{
    if bytes_eq(b, ("schedule").as_bytes()) {
        Option::Some(CleanMissionInitiator::Plan)
    } else if bytes_eq(b, ("rmtApp").as_bytes()) {
        Option::Some(CleanMissionInitiator::App)
    } else if bytes_eq(b, ("manual").as_bytes()) {
        Option::Some(CleanMissionInitiator::Robot)
    } else if bytes_eq(b, ("localApp").as_bytes()) {
        Option::Some(CleanMissionInitiator::HA)
    } else {
        Option::None
    }
}

/// Law: the wire tables send the dock-request phase word `hmUsrDock` to
/// `SentHome` and the idle cycle word `none` to `Ready`; with the decoder's
/// contract this pins the variants every `cleanMissionStatus` fragment
/// carrying those words decodes to.
pub proof fn lemma_mission_wire_tables()
    ensures
        spec_phase_from_wire(("hmUsrDock").spec_bytes()) == Option::Some(
            CleanMissionPhase::SentHome,
        ),
        spec_cycle_from_wire(("none").spec_bytes()) == Option::Some(CleanMissionCycle::Ready),
{
    reveal_strlit("charge");
    reveal_strlit("run");
    reveal_strlit("evac");
    reveal_strlit("stop");
    reveal_strlit("stuck");
    reveal_strlit("hmUsrDock");
    reveal_strlit("clean");
    reveal_strlit("quick");
    reveal_strlit("spot");
    reveal_strlit("dock");
    reveal_strlit("train");
    reveal_strlit("none");
    assert(("hmUsrDock")@.len() == 9 && ("charge")@.len() == 6 && ("run")@.len() == 3 && (
    "evac")@.len() == 4 && ("stop")@.len() == 4 && ("stuck")@.len() == 5);
    crate::json::lemma_bytes_distinct("hmUsrDock", "charge");
    crate::json::lemma_bytes_distinct("hmUsrDock", "run");
    crate::json::lemma_bytes_distinct("hmUsrDock", "evac");
    crate::json::lemma_bytes_distinct("hmUsrDock", "stop");
    crate::json::lemma_bytes_distinct("hmUsrDock", "stuck");
    assert(("none")@.len() == 4 && ("clean")@.len() == 5 && ("quick")@.len() == 5 && (
    "spot")@.len() == 4 && ("dock")@.len() == 4 && ("train")@.len() == 5);
    assert(("none")@ != ("spot")@) by {
        assert(("none")@[0] == 'n' && ("spot")@[0] == 's');
    }
    assert(("none")@ != ("evac")@) by {
        assert(("none")@[0] == 'n' && ("evac")@[0] == 'e');
    }
    assert(("none")@ != ("dock")@) by {
        assert(("none")@[0] == 'n' && ("dock")@[0] == 'd');
    }
    crate::json::lemma_bytes_distinct("none", "clean");
    crate::json::lemma_bytes_distinct("none", "quick");
    crate::json::lemma_bytes_distinct("none", "spot");
    crate::json::lemma_bytes_distinct("none", "evac");
    crate::json::lemma_bytes_distinct("none", "dock");
    crate::json::lemma_bytes_distinct("none", "train");
}

} // verus!
