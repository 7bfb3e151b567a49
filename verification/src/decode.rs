//! The state decoder: one inbound telemetry fragment, named by the
//! transport, becomes one `RoombaMessage`. Decoding is stateless and local
//! to the fragment: an unknown field name or a malformed payload fails that
//! fragment alone, with a field-scoped error.

use vstd::prelude::*;
use vstd::string::*;
use vstd::utf8::{decode_utf8, valid_utf8};
use crate::json::{obj_get_unique, view_members, bytes_eq, get_unique, Json, JsonV};
use crate::parse::{parse_bytes, sp_parse};
use crate::state::{
    spec_cycle_from_wire, spec_phase_from_wire, cycle_from_wire, phase_from_wire,
    CleanMissionStatus, HardwareDebugRevision, RoombaMessage,
};

verus! {

/// Why one fragment failed to decode.
#[derive(Debug, Clone, Copy, PartialEq, Eq, Structural)]
pub enum DecodeErrorKind {
    UnknownField,
    Malformed,
    UnknownEnumValue,
}

/// A field-scoped decode failure: the fragment's field name and the cause.
/// Never fatal to the stream; the caller drops the one fragment.
#[derive(Debug, Clone, PartialEq, Eq)]
pub struct DecodeError {
    pub field: String,
    pub kind: DecodeErrorKind,
}

/// Relies on `std::str::from_utf8`: succeeds exactly on valid UTF-8 and
/// yields the characters those bytes encode.
#[verifier::external_body]
fn bytes_to_string(v: &[u8]) -> (r: Option<String>)
    ensures
        r is Some <==> valid_utf8(v@),
        r matches Some(s) ==> s@ == decode_utf8(v@),
{
    match std::str::from_utf8(v) {
        Result::Ok(s) => Option::Some(s.to_string()),
        Result::Err(_) => Option::None,
    }
}

pub open spec fn sh_bool(j: JsonV) -> Option<bool> {
    match j {
        JsonV::Bool(b) => Option::Some(b),
        _ => Option::None,
    }
}

pub open spec fn sh_u8(j: JsonV) -> Option<u8> {
    match j {
        JsonV::Int(v) => if 0 <= v <= u8::MAX as int {
            Option::Some(v as u8)
        } else {
            Option::None
        },
        _ => Option::None,
    }
}

pub open spec fn sh_u16(j: JsonV) -> Option<u16> {
    match j {
        JsonV::Int(v) => if 0 <= v <= u16::MAX as int {
            Option::Some(v as u16)
        } else {
            Option::None
        },
        _ => Option::None,
    }
}

pub open spec fn sh_u32(j: JsonV) -> Option<u32> {
    match j {
        JsonV::Int(v) => if 0 <= v <= u32::MAX as int {
            Option::Some(v as u32)
        } else {
            Option::None
        },
        _ => Option::None,
    }
}

pub open spec fn sh_opt_bool(j: JsonV) -> Option<Option<bool>> {
    match j {
        JsonV::Null => Option::Some(Option::None),
        JsonV::Bool(b) => Option::Some(Option::Some(b)),
        _ => Option::None,
    }
}

pub open spec fn sh_opt_u16(j: JsonV) -> Option<Option<u16>> {
    match j {
        JsonV::Null => Option::Some(Option::None),
        JsonV::Int(v) => if 0 <= v <= u16::MAX as int {
            Option::Some(Option::Some(v as u16))
        } else {
            Option::None
        },
        _ => Option::None,
    }
}

pub open spec fn sh_str_ok(j: JsonV) -> bool {
    j matches JsonV::Str(b) && valid_utf8(b)
}

pub open spec fn sh_str(j: JsonV) -> Seq<char>
    recommends
        sh_str_ok(j),
{
    decode_utf8(j->Str_0)
}

pub open spec fn mem_bool(o: Seq<(Seq<u8>, JsonV)>, k: Seq<u8>) -> Option<bool> {
    match obj_get_unique(o, k) {
        Option::Some(v) => sh_bool(v),
        Option::None => Option::None,
    }
}

pub open spec fn mem_u8(o: Seq<(Seq<u8>, JsonV)>, k: Seq<u8>) -> Option<u8> {
    match obj_get_unique(o, k) {
        Option::Some(v) => sh_u8(v),
        Option::None => Option::None,
    }
}

pub open spec fn mem_u32(o: Seq<(Seq<u8>, JsonV)>, k: Seq<u8>) -> Option<u32> {
    match obj_get_unique(o, k) {
        Option::Some(v) => sh_u32(v),
        Option::None => Option::None,
    }
}

pub open spec fn mem_str_ok(o: Seq<(Seq<u8>, JsonV)>, k: Seq<u8>) -> bool {
    obj_get_unique(o, k) matches Some(v) && sh_str_ok(v)
}

pub open spec fn mem_str(o: Seq<(Seq<u8>, JsonV)>, k: Seq<u8>) -> Seq<char>
    recommends
        mem_str_ok(o, k),
{
    sh_str(obj_get_unique(o, k)->Some_0)
}

pub open spec fn mem_str_bytes(o: Seq<(Seq<u8>, JsonV)>, k: Seq<u8>) -> Option<Seq<u8>> {
    match obj_get_unique(o, k) {
        Option::Some(JsonV::Str(b)) => Option::Some(b),
        _ => Option::None,
    }
}

pub open spec fn fld_bool(j: JsonV, k: Seq<u8>) -> Option<bool> {
    match j {
        JsonV::Obj(o) => mem_bool(o, k),
        _ => Option::None,
    }
}

pub open spec fn fld_u8(j: JsonV, k: Seq<u8>) -> Option<u8> {
    match j {
        JsonV::Obj(o) => mem_u8(o, k),
        _ => Option::None,
    }
}

pub open spec fn fld_u32(j: JsonV, k: Seq<u8>) -> Option<u32> {
    match j {
        JsonV::Obj(o) => mem_u32(o, k),
        _ => Option::None,
    }
}

/// The required shape of a `cleanMissionStatus` payload apart from the two
/// enum tables: every counter in range, both strings valid UTF-8, and
/// `cycle` and `phase` present as strings.
pub open spec fn cms_base_ok(j: JsonV) -> bool {
    &&& j is Obj
    &&& fld_u8(j, ("error").spec_bytes()) is Some
    &&& fld_u32(j, ("expireM").spec_bytes()) is Some
    &&& fld_u32(j, ("expireTm").spec_bytes()) is Some
    &&& mem_str_ok(j->Obj_0, ("initiator").spec_bytes())
    &&& mem_str_ok(j->Obj_0, ("missionId").spec_bytes())
    &&& fld_u8(j, ("mssnM").spec_bytes()) is Some
    &&& fld_u32(j, ("mssnStrtTm").spec_bytes()) is Some
    &&& fld_u32(j, ("nMssn").spec_bytes()) is Some
    &&& fld_u8(j, ("notReady").spec_bytes()) is Some
    &&& fld_u8(j, ("operatingMode").spec_bytes()) is Some
    &&& fld_u32(j, ("rechrgM").spec_bytes()) is Some
    &&& fld_u32(j, ("rechrgTm").spec_bytes()) is Some
    &&& mem_str_bytes(j->Obj_0, ("cycle").spec_bytes()) is Some
    &&& mem_str_bytes(j->Obj_0, ("phase").spec_bytes()) is Some
}

/// Shape holds but a `cycle` or `phase` string falls outside its table:
/// the one decode failure that is reported as an unrecognized enum value.
pub open spec fn cms_enum_miss(j: JsonV) -> bool {
    cms_base_ok(j) && !(spec_cycle_from_wire(mem_str_bytes(j->Obj_0, ("cycle").spec_bytes())->Some_0)
        is Some && spec_phase_from_wire(
        mem_str_bytes(j->Obj_0, ("phase").spec_bytes())->Some_0,
    ) is Some)
}

pub open spec fn cms_ok(j: JsonV) -> bool {
    cms_base_ok(j) && spec_cycle_from_wire(mem_str_bytes(j->Obj_0, ("cycle").spec_bytes())->Some_0)
        is Some && spec_phase_from_wire(mem_str_bytes(j->Obj_0, ("phase").spec_bytes())->Some_0)
        is Some
}

pub open spec fn cms_matches(j: JsonV, c: CleanMissionStatus) -> bool {
    &&& cms_ok(j)
    &&& fld_u8(j, ("error").spec_bytes()) == Option::Some(c.error)
    &&& fld_u32(j, ("expireM").spec_bytes()) == Option::Some(c.expire_m)
    &&& fld_u32(j, ("expireTm").spec_bytes()) == Option::Some(c.expire_tm)
    &&& c.initiator@ == mem_str(j->Obj_0, ("initiator").spec_bytes())
    &&& c.mission_id@ == mem_str(j->Obj_0, ("missionId").spec_bytes())
    &&& fld_u8(j, ("mssnM").spec_bytes()) == Option::Some(c.mssn_m)
    &&& fld_u32(j, ("mssnStrtTm").spec_bytes()) == Option::Some(c.mssn_strt_tm)
    &&& fld_u32(j, ("nMssn").spec_bytes()) == Option::Some(c.n_mssn)
    &&& fld_u8(j, ("notReady").spec_bytes()) == Option::Some(c.not_ready)
    &&& fld_u8(j, ("operatingMode").spec_bytes()) == Option::Some(c.operating_mode)
    &&& fld_u32(j, ("rechrgM").spec_bytes()) == Option::Some(c.rechrg_m)
    &&& fld_u32(j, ("rechrgTm").spec_bytes()) == Option::Some(c.rechrg_tm)
    &&& spec_cycle_from_wire(mem_str_bytes(j->Obj_0, ("cycle").spec_bytes())->Some_0)
        == Option::Some(c.cycle)
    &&& spec_phase_from_wire(mem_str_bytes(j->Obj_0, ("phase").spec_bytes())->Some_0)
        == Option::Some(c.phase)
}

/// A `hwDbgr` payload: `null`, or an object with `swVer`, `hw` and `status`.
pub open spec fn hwdbgr_ok(j: JsonV) -> bool {
    match j {
        JsonV::Null => true,
        JsonV::Obj(o) => mem_str_ok(o, ("swVer").spec_bytes()) && mem_str_ok(
            o,
            ("hw").spec_bytes(),
        ) && mem_u8(o, ("status").spec_bytes()) is Some,
        _ => false,
    }
}

pub open spec fn hwdbgr_matches(j: JsonV, m: Option<HardwareDebugRevision>) -> bool {
    match j {
        JsonV::Null => m is None,
        JsonV::Obj(o) => m matches Some(h) && (h.sw_ver@ == mem_str(o, ("swVer").spec_bytes())
            && h.hw@ == mem_str(o, ("hw").spec_bytes()) && mem_u8(o, ("status").spec_bytes())
            == Option::Some(h.status)),
        _ => false,
    }
}

/// A `cleanSchedule2` payload: a sequence of empty entries, each `null`.
pub open spec fn sched2_ok(j: JsonV) -> bool {
    j matches JsonV::Arr(a) && forall|i: int| 0 <= i < a.len() ==> (#[trigger] a[i]) is Null
}

/// One `pmaps` record: an object whose keys and values are all strings.
pub open spec fn pmap_rec_ok(j: JsonV) -> bool {
    j matches JsonV::Obj(o) && forall|i: int|
        0 <= i < o.len() ==> valid_utf8((#[trigger] o[i]).0) && o[i].1 is Str && valid_utf8(
            o[i].1->Str_0,
        )
}

pub open spec fn pmap_rec_matches(j: JsonV, rec: Vec<(String, String)>) -> bool {
    j matches JsonV::Obj(o) && rec@.len() == o.len() && forall|i: int|
        0 <= i < o.len() ==> (#[trigger] rec@[i]).0@ == decode_utf8(o[i].0) && rec@[i].1@
            == decode_utf8(o[i].1->Str_0)
}

pub open spec fn pmaps_ok(j: JsonV) -> bool {
    j matches JsonV::Arr(a) && forall|i: int| 0 <= i < a.len() ==> pmap_rec_ok(#[trigger] a[i])
}

pub open spec fn pmaps_matches(j: JsonV, v: Vec<Vec<(String, String)>>) -> bool {
    j matches JsonV::Arr(a) && (pmaps_ok(j) && v@.len() == a.len() && forall|i: int|
        0 <= i < a.len() ==> pmap_rec_matches(#[trigger] a[i], v@[i]))
}

/// Whether a whole fragment decodes: its field is known, its payload
/// parses, and the parsed value has the field's shape.
pub open spec fn spec_decode_ok(name: Seq<u8>, payload: Seq<u8>) -> bool {
    match sp_parse(payload) {
        Option::Some(jv) => spec_decodable(name, jv),
        Option::None => false,
    }
}

/// Which error a failing fragment carries.
pub open spec fn spec_err_kind(name: Seq<u8>, payload: Seq<u8>) -> DecodeErrorKind {
    if !spec_known_field(name) {
        DecodeErrorKind::UnknownField
    } else {
        match sp_parse(payload) {
            Option::None => DecodeErrorKind::Malformed,
            Option::Some(jv) => err_at_known(spec_field_index(name), jv),
        }
    }
}

/// The position of a field name in the decoder's table, or 68 for a name
/// it does not know. Every later table is keyed by this index.
pub open spec fn spec_field_index(name: Seq<u8>) -> int {
    if name == ("cleanMissionStatus").spec_bytes() {
        0
    } else     if name == ("audio").spec_bytes() {
        1
    } else     if name == ("batAuthEnable").spec_bytes() {
        2
    } else     if name == ("batInfo").spec_bytes() {
        3
    } else     if name == ("batPct").spec_bytes() {
        4
    } else     if name == ("batteryType").spec_bytes() {
        5
    } else     if name == ("bbchg").spec_bytes() {
        6
    } else     if name == ("bbchg3").spec_bytes() {
        7
    } else     if name == ("bbmssn").spec_bytes() {
        8
    } else     if name == ("bbnav").spec_bytes() {
        9
    } else     if name == ("bbpause").spec_bytes() {
        10
    } else     if name == ("bbrstinfo").spec_bytes() {
        11
    } else     if name == ("bbrun").spec_bytes() {
        12
    } else     if name == ("bbswitch").spec_bytes() {
        13
    } else     if name == ("bbsys").spec_bytes() {
        14
    } else     if name == ("behaviorFwk").spec_bytes() {
        15
    } else     if name == ("bin").spec_bytes() {
        16
    } else     if name == ("binPause").spec_bytes() {
        17
    } else     if name == ("bleDevLoc").spec_bytes() {
        18
    } else     if name == ("cap").spec_bytes() {
        19
    } else     if name == ("carpetBoost").spec_bytes() {
        20
    } else     if name == ("childLock").spec_bytes() {
        21
    } else     if name == ("chrgLrPtrn").spec_bytes() {
        22
    } else     if name == ("cleanSchedule2").spec_bytes() {
        23
    } else     if name == ("cloudEnv").spec_bytes() {
        24
    } else     if name == ("connected").spec_bytes() {
        25
    } else     if name == ("country").spec_bytes() {
        26
    } else     if name == ("deploymentState").spec_bytes() {
        27
    } else     if name == ("dock").spec_bytes() {
        28
    } else     if name == ("ecoCharge").spec_bytes() {
        29
    } else     if name == ("evacAllowed").spec_bytes() {
        30
    } else     if name == ("featureFlags").spec_bytes() {
        31
    } else     if name == ("hwDbgr").spec_bytes() {
        32
    } else     if name == ("hwPartsRev").spec_bytes() {
        33
    } else     if name == ("langs2").spec_bytes() {
        34
    } else     if name == ("lastCommand").spec_bytes() {
        35
    } else     if name == ("lastDisconnect").spec_bytes() {
        36
    } else     if name == ("mapUploadAllowed").spec_bytes() {
        37
    } else     if name == ("missionTelemetry").spec_bytes() {
        38
    } else     if name == ("mssnNavStats").spec_bytes() {
        39
    } else     if name == ("name").spec_bytes() {
        40
    } else     if name == ("netinfo").spec_bytes() {
        41
    } else     if name == ("noAutoPasses").spec_bytes() {
        42
    } else     if name == ("openOnly").spec_bytes() {
        43
    } else     if name == ("pmapCL").spec_bytes() {
        44
    } else     if name == ("pmapLearningAllowed").spec_bytes() {
        45
    } else     if name == ("pmapSGen").spec_bytes() {
        46
    } else     if name == ("pmapShare").spec_bytes() {
        47
    } else     if name == ("pmaps").spec_bytes() {
        48
    } else     if name == ("rankOverlap").spec_bytes() {
        49
    } else     if name == ("reflexSettings").spec_bytes() {
        50
    } else     if name == ("runtimeStats").spec_bytes() {
        51
    } else     if name == ("sceneRecog").spec_bytes() {
        52
    } else     if name == ("schedHold").spec_bytes() {
        53
    } else     if name == ("secureBoot").spec_bytes() {
        54
    } else     if name == ("signal").spec_bytes() {
        55
    } else     if name == ("sku").spec_bytes() {
        56
    } else     if name == ("softwareVer").spec_bytes() {
        57
    } else     if name == ("subModSwVer").spec_bytes() {
        58
    } else     if name == ("svcEndpoints").spec_bytes() {
        59
    } else     if name == ("timezone").spec_bytes() {
        60
    } else     if name == ("tls").spec_bytes() {
        61
    } else     if name == ("twoPass").spec_bytes() {
        62
    } else     if name == ("tz").spec_bytes() {
        63
    } else     if name == ("vacHigh").spec_bytes() {
        64
    } else     if name == ("wDevLoc").spec_bytes() {
        65
    } else     if name == ("wifistat").spec_bytes() {
        66
    } else     if name == ("wlcfg").spec_bytes() {
        67
    } else {
        68
    }
}

pub open spec fn known_part1(name: Seq<u8>) -> bool {
    name == ("cleanMissionStatus").spec_bytes()
        || name == ("audio").spec_bytes()
        || name == ("batAuthEnable").spec_bytes()
        || name == ("batInfo").spec_bytes()
        || name == ("batPct").spec_bytes()
        || name == ("batteryType").spec_bytes()
        || name == ("bbchg").spec_bytes()
        || name == ("bbchg3").spec_bytes()
        || name == ("bbmssn").spec_bytes()
        || name == ("bbnav").spec_bytes()
        || name == ("bbpause").spec_bytes()
        || name == ("bbrstinfo").spec_bytes()
        || name == ("bbrun").spec_bytes()
        || name == ("bbswitch").spec_bytes()
        || name == ("bbsys").spec_bytes()
        || name == ("behaviorFwk").spec_bytes()
        || name == ("bin").spec_bytes()
}

pub open spec fn known_part2(name: Seq<u8>) -> bool {
    name == ("binPause").spec_bytes()
        || name == ("bleDevLoc").spec_bytes()
        || name == ("cap").spec_bytes()
        || name == ("carpetBoost").spec_bytes()
        || name == ("childLock").spec_bytes()
        || name == ("chrgLrPtrn").spec_bytes()
        || name == ("cleanSchedule2").spec_bytes()
        || name == ("cloudEnv").spec_bytes()
        || name == ("connected").spec_bytes()
        || name == ("country").spec_bytes()
        || name == ("deploymentState").spec_bytes()
        || name == ("dock").spec_bytes()
        || name == ("ecoCharge").spec_bytes()
        || name == ("evacAllowed").spec_bytes()
        || name == ("featureFlags").spec_bytes()
        || name == ("hwDbgr").spec_bytes()
        || name == ("hwPartsRev").spec_bytes()
}

pub open spec fn known_part3(name: Seq<u8>) -> bool {
    name == ("langs2").spec_bytes()
        || name == ("lastCommand").spec_bytes()
        || name == ("lastDisconnect").spec_bytes()
        || name == ("mapUploadAllowed").spec_bytes()
        || name == ("missionTelemetry").spec_bytes()
        || name == ("mssnNavStats").spec_bytes()
        || name == ("name").spec_bytes()
        || name == ("netinfo").spec_bytes()
        || name == ("noAutoPasses").spec_bytes()
        || name == ("openOnly").spec_bytes()
        || name == ("pmapCL").spec_bytes()
        || name == ("pmapLearningAllowed").spec_bytes()
        || name == ("pmapSGen").spec_bytes()
        || name == ("pmapShare").spec_bytes()
        || name == ("pmaps").spec_bytes()
        || name == ("rankOverlap").spec_bytes()
        || name == ("reflexSettings").spec_bytes()
}

pub open spec fn known_part4(name: Seq<u8>) -> bool {
    name == ("runtimeStats").spec_bytes()
        || name == ("sceneRecog").spec_bytes()
        || name == ("schedHold").spec_bytes()
        || name == ("secureBoot").spec_bytes()
        || name == ("signal").spec_bytes()
        || name == ("sku").spec_bytes()
        || name == ("softwareVer").spec_bytes()
        || name == ("subModSwVer").spec_bytes()
        || name == ("svcEndpoints").spec_bytes()
        || name == ("timezone").spec_bytes()
        || name == ("tls").spec_bytes()
        || name == ("twoPass").spec_bytes()
        || name == ("tz").spec_bytes()
        || name == ("vacHigh").spec_bytes()
        || name == ("wDevLoc").spec_bytes()
        || name == ("wifistat").spec_bytes()
        || name == ("wlcfg").spec_bytes()
}

/// Every telemetry field name this decoder knows.
pub open spec fn spec_known_field(name: Seq<u8>) -> bool {
    spec_field_index(name) != 68
}

/// Whether a parsed payload has the shape the field at index `i` expects.
pub open spec fn decodable_at(i: int, j: JsonV) -> bool {
    if i == 0 {
        cms_ok(j)
    } else     if i == 1 {
        fld_u8(j, ("volume").spec_bytes()) is Some
    } else     if i == 2 {
        sh_opt_bool(j) is Some
    } else     if i == 3 {
        j is Obj
    } else     if i == 4 {
        sh_u8(j) is Some
    } else     if i == 5 {
        sh_str_ok(j)
    } else     if i == 6 {
        j is Obj
    } else     if i == 7 {
        j is Obj
    } else     if i == 8 {
        j is Obj
    } else     if i == 9 {
        j is Obj
    } else     if i == 10 {
        j is Obj
    } else     if i == 11 {
        j is Obj
    } else     if i == 12 {
        j is Obj
    } else     if i == 13 {
        j is Obj
    } else     if i == 14 {
        j is Obj
    } else     if i == 15 {
        sh_opt_bool(j) is Some
    } else     if i == 16 {
        fld_bool(j, ("full").spec_bytes()) is Some && fld_bool(j, ("present").spec_bytes()) is Some
    } else     if i == 17 {
        sh_bool(j) is Some
    } else     if i == 18 {
        sh_bool(j) is Some
    } else     if i == 19 {
        j is Obj
    } else     if i == 20 {
        sh_bool(j) is Some
    } else     if i == 21 {
        sh_bool(j) is Some
    } else     if i == 22 {
        sh_u32(j) is Some
    } else     if i == 23 {
        sched2_ok(j)
    } else     if i == 24 {
        sh_str_ok(j)
    } else     if i == 25 {
        sh_bool(j) is Some
    } else     if i == 26 {
        sh_str_ok(j)
    } else     if i == 27 {
        sh_u8(j) is Some
    } else     if i == 28 {
        j is Obj
    } else     if i == 29 {
        sh_bool(j) is Some
    } else     if i == 30 {
        sh_bool(j) is Some
    } else     if i == 31 {
        j is Obj
    } else     if i == 32 {
        hwdbgr_ok(j)
    } else     if i == 33 {
        j is Obj
    } else     if i == 34 {
        j is Obj
    } else     if i == 35 {
        j is Obj
    } else     if i == 36 {
        sh_u16(j) is Some
    } else     if i == 37 {
        sh_bool(j) is Some
    } else     if i == 38 {
        j is Obj
    } else     if i == 39 {
        j is Obj
    } else     if i == 40 {
        sh_str_ok(j)
    } else     if i == 41 {
        j is Obj
    } else     if i == 42 {
        sh_bool(j) is Some
    } else     if i == 43 {
        sh_bool(j) is Some
    } else     if i == 44 {
        sh_bool(j) is Some
    } else     if i == 45 {
        sh_bool(j) is Some
    } else     if i == 46 {
        sh_u8(j) is Some
    } else     if i == 47 {
        j is Obj
    } else     if i == 48 {
        pmaps_ok(j)
    } else     if i == 49 {
        sh_u32(j) is Some
    } else     if i == 50 {
        j is Obj
    } else     if i == 51 {
        fld_u32(j, ("hr").spec_bytes()) is Some && fld_u32(j, ("min").spec_bytes()) is Some && fld_u32(j, ("sqft").spec_bytes()) is Some
    } else     if i == 52 {
        sh_opt_u16(j) is Some
    } else     if i == 53 {
        sh_bool(j) is Some
    } else     if i == 54 {
        j is Obj
    } else     if i == 55 {
        j is Obj
    } else     if i == 56 {
        sh_str_ok(j)
    } else     if i == 57 {
        sh_str_ok(j)
    } else     if i == 58 {
        j is Obj
    } else     if i == 59 {
        j is Obj
    } else     if i == 60 {
        sh_str_ok(j)
    } else     if i == 61 {
        j is Obj
    } else     if i == 62 {
        sh_bool(j) is Some
    } else     if i == 63 {
        j is Obj
    } else     if i == 64 {
        sh_bool(j) is Some
    } else     if i == 65 {
        sh_bool(j) is Some
    } else     if i == 66 {
        j is Obj
    } else     if i == 67 {
        j is Obj
    } else {
        false
    }
}

/// The one message the field at index `i` decodes to from payload `j`:
/// this relation pins every field of `m`.
pub open spec fn msg_at(i: int, j: JsonV, m: RoombaMessage) -> bool {
    if i == 0 {
        m matches RoombaMessage::CleanMissionStatus(c) && cms_matches(j, c)
    } else     if i == 1 {
        m matches RoombaMessage::Audio { volume } && fld_u8(j, ("volume").spec_bytes()) == Option::Some(volume)
    } else     if i == 2 {
        m matches RoombaMessage::BatAuthEnable(ob) && sh_opt_bool(j) == Option::Some(ob)
    } else     if i == 3 {
        m is BatInfo && j is Obj
    } else     if i == 4 {
        m matches RoombaMessage::BatPct(x) && sh_u8(j) == Option::Some(x)
    } else     if i == 5 {
        m matches RoombaMessage::BatteryType(s) && (sh_str_ok(j) && s@ == sh_str(j))
    } else     if i == 6 {
        m is Bbchg && j is Obj
    } else     if i == 7 {
        m is Bbchg3 && j is Obj
    } else     if i == 8 {
        m is Bbmssn && j is Obj
    } else     if i == 9 {
        m is Bbnav && j is Obj
    } else     if i == 10 {
        m is Bbpause && j is Obj
    } else     if i == 11 {
        m is Bbrstinfo && j is Obj
    } else     if i == 12 {
        m is Bbrun && j is Obj
    } else     if i == 13 {
        m is Bbswitch && j is Obj
    } else     if i == 14 {
        m is Bbsys && j is Obj
    } else     if i == 15 {
        m matches RoombaMessage::BehaviorFwk(ob) && sh_opt_bool(j) == Option::Some(ob)
    } else     if i == 16 {
        m matches RoombaMessage::Bin { full, present } && (fld_bool(j, ("full").spec_bytes()) == Option::Some(full) && fld_bool(j, ("present").spec_bytes()) == Option::Some(present))
    } else     if i == 17 {
        m matches RoombaMessage::BinPause(b) && sh_bool(j) == Option::Some(b)
    } else     if i == 18 {
        m matches RoombaMessage::BleDevLoc(b) && sh_bool(j) == Option::Some(b)
    } else     if i == 19 {
        m is Cap && j is Obj
    } else     if i == 20 {
        m matches RoombaMessage::CarpetBoost(b) && sh_bool(j) == Option::Some(b)
    } else     if i == 21 {
        m matches RoombaMessage::ChildLock(b) && sh_bool(j) == Option::Some(b)
    } else     if i == 22 {
        m matches RoombaMessage::ChrgLrPtrn(x) && sh_u32(j) == Option::Some(x)
    } else     if i == 23 {
        m matches RoombaMessage::CleanSchedule2(v) && (sched2_ok(j) && v@.len() == j->Arr_0.len())
    } else     if i == 24 {
        m matches RoombaMessage::CloudEnv(s) && (sh_str_ok(j) && s@ == sh_str(j))
    } else     if i == 25 {
        m matches RoombaMessage::Connected(b) && sh_bool(j) == Option::Some(b)
    } else     if i == 26 {
        m matches RoombaMessage::Country(s) && (sh_str_ok(j) && s@ == sh_str(j))
    } else     if i == 27 {
        m matches RoombaMessage::DeploymentState(x) && sh_u8(j) == Option::Some(x)
    } else     if i == 28 {
        m is Dock && j is Obj
    } else     if i == 29 {
        m matches RoombaMessage::EcoCharge(b) && sh_bool(j) == Option::Some(b)
    } else     if i == 30 {
        m matches RoombaMessage::EvacAllowed(b) && sh_bool(j) == Option::Some(b)
    } else     if i == 31 {
        m is FeatureFlags && j is Obj
    } else     if i == 32 {
        m matches RoombaMessage::HwDbgr(h) && (hwdbgr_ok(j) && hwdbgr_matches(j, h))
    } else     if i == 33 {
        m is HwPartsRev && j is Obj
    } else     if i == 34 {
        m is Langs2 && j is Obj
    } else     if i == 35 {
        m is LastCommand && j is Obj
    } else     if i == 36 {
        m matches RoombaMessage::LastDisconnect(x) && sh_u16(j) == Option::Some(x)
    } else     if i == 37 {
        m matches RoombaMessage::MapUploadAllowed(b) && sh_bool(j) == Option::Some(b)
    } else     if i == 38 {
        m is MissionTelemetry && j is Obj
    } else     if i == 39 {
        m is MssnNavStats && j is Obj
    } else     if i == 40 {
        m matches RoombaMessage::Name(s) && (sh_str_ok(j) && s@ == sh_str(j))
    } else     if i == 41 {
        m is Netinfo && j is Obj
    } else     if i == 42 {
        m matches RoombaMessage::NoAutoPasses(b) && sh_bool(j) == Option::Some(b)
    } else     if i == 43 {
        m matches RoombaMessage::OpenOnly(b) && sh_bool(j) == Option::Some(b)
    } else     if i == 44 {
        m matches RoombaMessage::PmapCL(b) && sh_bool(j) == Option::Some(b)
    } else     if i == 45 {
        m matches RoombaMessage::PmapLearningAllowed(b) && sh_bool(j) == Option::Some(b)
    } else     if i == 46 {
        m matches RoombaMessage::PmapSGen(x) && sh_u8(j) == Option::Some(x)
    } else     if i == 47 {
        m is PmapShare && j is Obj
    } else     if i == 48 {
        m matches RoombaMessage::Pmaps(v) && pmaps_matches(j, v)
    } else     if i == 49 {
        m matches RoombaMessage::RankOverlap(x) && sh_u32(j) == Option::Some(x)
    } else     if i == 50 {
        m is ReflexSettings && j is Obj
    } else     if i == 51 {
        m matches RoombaMessage::RuntimeStats { hr, min, sqft } && (fld_u32(j, ("hr").spec_bytes()) == Option::Some(hr) && fld_u32(j, ("min").spec_bytes()) == Option::Some(min) && fld_u32(j, ("sqft").spec_bytes()) == Option::Some(sqft))
    } else     if i == 52 {
        m matches RoombaMessage::SceneRecog(ox) && sh_opt_u16(j) == Option::Some(ox)
    } else     if i == 53 {
        m matches RoombaMessage::SchedHold(b) && sh_bool(j) == Option::Some(b)
    } else     if i == 54 {
        m is SecureBoot && j is Obj
    } else     if i == 55 {
        m is Signal && j is Obj
    } else     if i == 56 {
        m matches RoombaMessage::Sku(s) && (sh_str_ok(j) && s@ == sh_str(j))
    } else     if i == 57 {
        m matches RoombaMessage::SoftwareVer(s) && (sh_str_ok(j) && s@ == sh_str(j))
    } else     if i == 58 {
        m is SubModSwVer && j is Obj
    } else     if i == 59 {
        m is SvcEndpoints && j is Obj
    } else     if i == 60 {
        m matches RoombaMessage::Timezone(s) && (sh_str_ok(j) && s@ == sh_str(j))
    } else     if i == 61 {
        m is Tls && j is Obj
    } else     if i == 62 {
        m matches RoombaMessage::TwoPass(b) && sh_bool(j) == Option::Some(b)
    } else     if i == 63 {
        m is Tz && j is Obj
    } else     if i == 64 {
        m matches RoombaMessage::VacHigh(b) && sh_bool(j) == Option::Some(b)
    } else     if i == 65 {
        m matches RoombaMessage::WDevLoc(b) && sh_bool(j) == Option::Some(b)
    } else     if i == 66 {
        m is Wifistat && j is Obj
    } else     if i == 67 {
        m is Wlcfg && j is Obj
    } else {
        false
    }
}

/// Whether a parsed payload has the shape the named field expects.
pub open spec fn spec_decodable(name: Seq<u8>, j: JsonV) -> bool {
    decodable_at(spec_field_index(name), j)
}

/// The one message a fragment decodes to, by field name.
pub open spec fn spec_msg(name: Seq<u8>, j: JsonV, m: RoombaMessage) -> bool {
    msg_at(spec_field_index(name), j, m)
}

/// The error a known field's parsed-but-wrong payload carries.
pub open spec fn err_at_known(i: int, j: JsonV) -> DecodeErrorKind {
    if i == 0 && cms_enum_miss(j) {
        DecodeErrorKind::UnknownEnumValue
    } else {
        DecodeErrorKind::Malformed
    }
}

fn mal(field_name: &str) -> (e: DecodeError)
    ensures
        e.field@ == field_name@,
        e.kind == DecodeErrorKind::Malformed,
{
    DecodeError { field: field_name.to_owned(), kind: DecodeErrorKind::Malformed }
}

fn dec_parse(field_name: &str, payload: &[u8]) -> (r: Result<Json, DecodeError>)
    ensures
        r matches Ok(j) ==> sp_parse(payload@) == Option::Some(j@),
        r matches Err(e) ==> sp_parse(payload@) is None && e.field@ == field_name@ && e.kind
            == DecodeErrorKind::Malformed,
        r is Ok <==> sp_parse(payload@) is Some,
{
    match parse_bytes(payload) {
        Option::Some(j) => Result::Ok(j),
        Option::None => Result::Err(mal(field_name)),
    }
}

fn dec_bool(j: &Json) -> (r: Option<bool>)
    ensures
        r == sh_bool(j@),
{
    match j {
        Json::Bool(b) => Option::Some(*b),
        _ => Option::None,
    }
}

fn dec_u8(j: &Json) -> (r: Option<u8>)
    ensures
        r == sh_u8(j@),
{
    match j {
        Json::Int(v) => if 0 <= *v && *v <= 255 {
            Option::Some(*v as u8)
        } else {
            Option::None
        },
        _ => Option::None,
    }
}

fn dec_u16(j: &Json) -> (r: Option<u16>)
    ensures
        r == sh_u16(j@),
{
    match j {
        Json::Int(v) => if 0 <= *v && *v <= 65535 {
            Option::Some(*v as u16)
        } else {
            Option::None
        },
        _ => Option::None,
    }
}

fn dec_u32(j: &Json) -> (r: Option<u32>)
    ensures
        r == sh_u32(j@),
{
    match j {
        Json::Int(v) => if 0 <= *v && *v <= 0xffff_ffff {
            Option::Some(*v as u32)
        } else {
            Option::None
        },
        _ => Option::None,
    }
}

fn dec_opt_bool(j: &Json) -> (r: Option<Option<bool>>)
    ensures
        r == sh_opt_bool(j@),
{
    match j {
        Json::Null => Option::Some(Option::None),
        Json::Bool(b) => Option::Some(Option::Some(*b)),
        _ => Option::None,
    }
}

fn dec_opt_u16(j: &Json) -> (r: Option<Option<u16>>)
    ensures
        r == sh_opt_u16(j@),
{
    match j {
        Json::Null => Option::Some(Option::None),
        Json::Int(v) => if 0 <= *v && *v <= 65535 {
            Option::Some(Option::Some(*v as u16))
        } else {
            Option::None
        },
        _ => Option::None,
    }
}

fn dec_string(j: &Json) -> (r: Option<String>)
    ensures
        r is Some <==> sh_str_ok(j@),
        r matches Some(s) ==> s@ == sh_str(j@),
{
    match j {
        Json::Str(b) => bytes_to_string(b.as_slice()),
        _ => Option::None,
    }
}

fn is_obj(j: &Json) -> (r: bool)
    ensures
        r == (j@ is Obj),
{
    match j {
        Json::Obj(_) => true,
        _ => false,
    }
}

fn dec_fld_bool(o: &Vec<(Vec<u8>, Json)>, k: &[u8]) -> (r: Option<bool>)
    ensures
        r == mem_bool(view_members(o@), k@),
{
    match get_unique(o, k) {
        Option::Some(j) => dec_bool(j),
        Option::None => Option::None,
    }
}

fn dec_fld_u8(o: &Vec<(Vec<u8>, Json)>, k: &[u8]) -> (r: Option<u8>)
    ensures
        r == mem_u8(view_members(o@), k@),
{
    match get_unique(o, k) {
        Option::Some(j) => dec_u8(j),
        Option::None => Option::None,
    }
}

fn dec_fld_u32(o: &Vec<(Vec<u8>, Json)>, k: &[u8]) -> (r: Option<u32>)
    ensures
        r == mem_u32(view_members(o@), k@),
{
    match get_unique(o, k) {
        Option::Some(j) => dec_u32(j),
        Option::None => Option::None,
    }
}

fn dec_fld_string(o: &Vec<(Vec<u8>, Json)>, k: &[u8]) -> (r: Option<String>)
    ensures
        r is Some <==> mem_str_ok(view_members(o@), k@),
        r matches Some(s) ==> s@ == mem_str(view_members(o@), k@),
{
    match get_unique(o, k) {
        Option::Some(j) => dec_string(j),
        Option::None => Option::None,
    }
}

fn dec_fld_raw_str<'a>(o: &'a Vec<(Vec<u8>, Json)>, k: &[u8]) -> (r: Option<&'a Vec<u8>>)
    ensures
        match r {
            Option::Some(b) => mem_str_bytes(view_members(o@), k@) == Option::Some(b@),
            Option::None => mem_str_bytes(view_members(o@), k@) is None,
        },
{
    match get_unique(o, k) {
        Option::Some(j) => match j {
            Json::Str(b) => Option::Some(b),
            _ => Option::None,
        },
        Option::None => Option::None,
    }
}

fn dec_bin(j: &Json) -> (r: Option<(bool, bool)>)
    ensures
        r is Some <==> (fld_bool(j@, ("full").spec_bytes()) is Some && fld_bool(
            j@,
            ("present").spec_bytes(),
        ) is Some),
        r matches Some(p) ==> fld_bool(j@, ("full").spec_bytes()) == Option::Some(p.0) && fld_bool(
            j@,
            ("present").spec_bytes(),
        ) == Option::Some(p.1),
{
    match j {
        Json::Obj(o) => {
            let full = dec_fld_bool(o, ("full").as_bytes());
            let present = dec_fld_bool(o, ("present").as_bytes());
            match (full, present) {
                (Option::Some(f), Option::Some(p)) => Option::Some((f, p)),
                _ => Option::None,
            }
        },
        _ => Option::None,
    }
}

fn dec_audio(j: &Json) -> (r: Option<u8>)
    ensures
        r == fld_u8(j@, ("volume").spec_bytes()),
{
    match j {
        Json::Obj(o) => dec_fld_u8(o, ("volume").as_bytes()),
        _ => Option::None,
    }
}

fn dec_runtime(j: &Json) -> (r: Option<(u32, u32, u32)>)
    ensures
        r is Some <==> (fld_u32(j@, ("hr").spec_bytes()) is Some && fld_u32(
            j@,
            ("min").spec_bytes(),
        ) is Some && fld_u32(j@, ("sqft").spec_bytes()) is Some),
        r matches Some(t) ==> fld_u32(j@, ("hr").spec_bytes()) == Option::Some(t.0) && fld_u32(
            j@,
            ("min").spec_bytes(),
        ) == Option::Some(t.1) && fld_u32(j@, ("sqft").spec_bytes()) == Option::Some(t.2),
{
    match j {
        Json::Obj(o) => {
            let hr = dec_fld_u32(o, ("hr").as_bytes());
            let min = dec_fld_u32(o, ("min").as_bytes());
            let sqft = dec_fld_u32(o, ("sqft").as_bytes());
            match (hr, min, sqft) {
                (Option::Some(a), Option::Some(b), Option::Some(c)) => Option::Some((a, b, c)),
                _ => Option::None,
            }
        },
        _ => Option::None,
    }
}

fn dec_hwdbgr(j: &Json) -> (r: Option<Option<HardwareDebugRevision>>)
    ensures
        r is Some <==> hwdbgr_ok(j@),
        r matches Some(m) ==> hwdbgr_matches(j@, m),
{
    match j {
        Json::Null => Option::Some(Option::None),
        Json::Obj(o) => {
            let sw_ver = dec_fld_string(o, ("swVer").as_bytes());
            let hw = dec_fld_string(o, ("hw").as_bytes());
            let status = dec_fld_u8(o, ("status").as_bytes());
            match (sw_ver, hw, status) {
                (Option::Some(s), Option::Some(h), Option::Some(st)) => Option::Some(
                    Option::Some(HardwareDebugRevision { sw_ver: s, hw: h, status: st }),
                ),
                _ => Option::None,
            }
        },
        _ => Option::None,
    }
}

fn dec_cms(field_name: &str, j: &Json) -> (r: Result<CleanMissionStatus, DecodeError>)
    ensures
        r matches Ok(c) ==> cms_matches(j@, c),
        r is Ok <==> cms_ok(j@),
        r matches Err(e) ==> e.field@ == field_name@ && e.kind == (if cms_enum_miss(j@) {
            DecodeErrorKind::UnknownEnumValue
        } else {
            DecodeErrorKind::Malformed
        }),
{
    let o = match j {
        Json::Obj(o) => o,
        _ => {
            return Result::Err(mal(field_name));
        },
    };
    let error = match dec_fld_u8(o, ("error").as_bytes()) {
        Option::Some(v) => v,
        Option::None => {
            return Result::Err(mal(field_name));
        },
    };
    let expire_m = match dec_fld_u32(o, ("expireM").as_bytes()) {
        Option::Some(v) => v,
        Option::None => {
            return Result::Err(mal(field_name));
        },
    };
    let expire_tm = match dec_fld_u32(o, ("expireTm").as_bytes()) {
        Option::Some(v) => v,
        Option::None => {
            return Result::Err(mal(field_name));
        },
    };
    let initiator = match dec_fld_string(o, ("initiator").as_bytes()) {
        Option::Some(v) => v,
        Option::None => {
            return Result::Err(mal(field_name));
        },
    };
    let mission_id = match dec_fld_string(o, ("missionId").as_bytes()) {
        Option::Some(v) => v,
        Option::None => {
            return Result::Err(mal(field_name));
        },
    };
    let mssn_m = match dec_fld_u8(o, ("mssnM").as_bytes()) {
        Option::Some(v) => v,
        Option::None => {
            return Result::Err(mal(field_name));
        },
    };
    let mssn_strt_tm = match dec_fld_u32(o, ("mssnStrtTm").as_bytes()) {
        Option::Some(v) => v,
        Option::None => {
            return Result::Err(mal(field_name));
        },
    };
    let n_mssn = match dec_fld_u32(o, ("nMssn").as_bytes()) {
        Option::Some(v) => v,
        Option::None => {
            return Result::Err(mal(field_name));
        },
    };
    let not_ready = match dec_fld_u8(o, ("notReady").as_bytes()) {
        Option::Some(v) => v,
        Option::None => {
            return Result::Err(mal(field_name));
        },
    };
    let operating_mode = match dec_fld_u8(o, ("operatingMode").as_bytes()) {
        Option::Some(v) => v,
        Option::None => {
            return Result::Err(mal(field_name));
        },
    };
    let rechrg_m = match dec_fld_u32(o, ("rechrgM").as_bytes()) {
        Option::Some(v) => v,
        Option::None => {
            return Result::Err(mal(field_name));
        },
    };
    let rechrg_tm = match dec_fld_u32(o, ("rechrgTm").as_bytes()) {
        Option::Some(v) => v,
        Option::None => {
            return Result::Err(mal(field_name));
        },
    };
    let cycle_b = match dec_fld_raw_str(o, ("cycle").as_bytes()) {
        Option::Some(b) => b,
        Option::None => {
            return Result::Err(mal(field_name));
        },
    };
    let phase_b = match dec_fld_raw_str(o, ("phase").as_bytes()) {
        Option::Some(b) => b,
        Option::None => {
            return Result::Err(mal(field_name));
        },
    };
    let cycle = match cycle_from_wire(cycle_b.as_slice()) {
        Option::Some(c) => c,
        Option::None => {
            return Result::Err(
                DecodeError { field: field_name.to_owned(), kind: DecodeErrorKind::UnknownEnumValue },
            );
        },
    };
    let phase = match phase_from_wire(phase_b.as_slice()) {
        Option::Some(p) => p,
        Option::None => {
            return Result::Err(
                DecodeError { field: field_name.to_owned(), kind: DecodeErrorKind::UnknownEnumValue },
            );
        },
    };
    Result::Ok(
        CleanMissionStatus {
            cycle,
            error,
            expire_m,
            expire_tm,
            initiator,
            mission_id,
            mssn_m,
            mssn_strt_tm,
            n_mssn,
            not_ready,
            operating_mode,
            phase,
            rechrg_m,
            rechrg_tm,
        },
    )
}

fn dec_sched2(j: &Json) -> (r: Option<Vec<()>>)
    ensures
        r is Some <==> sched2_ok(j@),
        r matches Some(v) ==> (j@ matches JsonV::Arr(a) && v@.len() == a.len()),
{
    match j {
        Json::Arr(a) => {
            proof {
                crate::json::lemma_view_arr(a@);
            }
            let mut v: Vec<()> = Vec::new();
            let n = a.len();
            let mut i: usize = 0;
            while i < n
                invariant
                    n == a@.len(),
                    i <= n,
                    v@.len() == i,
                    j@ == JsonV::Arr(crate::json::view_arr(a@)),
                    crate::json::view_arr(a@).len() == a@.len(),
                    forall|k: int|
                        0 <= k < a@.len() ==> crate::json::view_arr(a@)[k] == crate::json::view_json(
                            #[trigger] a@[k],
                        ),
                    forall|k: int| 0 <= k < i ==> (#[trigger] crate::json::view_arr(a@)[k]) is Null,
                decreases n - i,
            {
                match &a[i] {
                    Json::Null => {
                        v.push(());
                        i += 1;
                    },
                    _ => {
                        proof {
                            let ghost x = a@[i as int];
                            assert(crate::json::view_arr(a@)[i as int]
                                == crate::json::view_json(x));
                            match x {
                                Json::Null => {
                                    assert(false);
                                },
                                _ => {},
                            }
                            assert(!(crate::json::view_arr(a@)[i as int] is Null));
                            assert(j@ == JsonV::Arr(crate::json::view_arr(a@)));
                            assert(!sched2_ok(j@));
                        }
                        return Option::None;
                    },
                }
            }
            Option::Some(v)
        },
        _ => Option::None,
    }
}

fn dec_pmap_rec(j: &Json) -> (r: Option<Vec<(String, String)>>)
    ensures
        r is Some <==> pmap_rec_ok(j@),
        r matches Some(v) ==> pmap_rec_matches(j@, v),
{
    match j {
        Json::Obj(o) => {
            proof {
                crate::json::lemma_view_members(o@);
            }
            let ghost vm = view_members(o@);
            let mut v: Vec<(String, String)> = Vec::new();
            let n = o.len();
            let mut i: usize = 0;
            while i < n
                invariant
                    n == o@.len(),
                    i <= n,
                    v@.len() == i,
                    j@ == JsonV::Obj(vm),
                    vm == view_members(o@),
                    vm.len() == o@.len(),
                    forall|k: int|
                        0 <= k < o@.len() ==> vm[k] == ((#[trigger] o@[k]).0@, crate::json::view_json(
                            o@[k].1,
                        )),
                    forall|k: int|
                        0 <= k < i ==> valid_utf8((#[trigger] vm[k]).0) && vm[k].1 is Str
                            && valid_utf8(vm[k].1->Str_0),
                    forall|k: int|
                        0 <= k < i ==> (#[trigger] v@[k]).0@ == decode_utf8(vm[k].0) && v@[k].1@
                            == decode_utf8(vm[k].1->Str_0),
                decreases n - i,
            {
                let ks = match bytes_to_string(o[i].0.as_slice()) {
                    Option::Some(s) => s,
                    Option::None => {
                        proof {
                            assert(vm[i as int].0 == o@[i as int].0@);
                            assert(!valid_utf8(vm[i as int].0));
                            assert(j@ == JsonV::Obj(vm));
                            assert(!pmap_rec_ok(j@));
                        }
                        return Option::None;
                    },
                };
                let vs = match &o[i].1 {
                    Json::Str(b) => match bytes_to_string(b.as_slice()) {
                        Option::Some(s) => s,
                        Option::None => {
                            proof {
                                assert(vm[i as int].1 == crate::json::view_json(o@[i as int].1));
                                assert(!valid_utf8(vm[i as int].1->Str_0));
                                assert(j@ == JsonV::Obj(vm));
                                assert(vm[i as int].1 is Str);
                                assert(!pmap_rec_ok(j@));
                            }
                            return Option::None;
                        },
                    },
                    _ => {
                        proof {
                            let ghost x = o@[i as int].1;
                            assert(vm[i as int].1 == crate::json::view_json(x));
                            match x {
                                Json::Str(_) => {
                                    assert(false);
                                },
                                _ => {},
                            }
                            assert(!(vm[i as int].1 is Str));
                            assert(j@ == JsonV::Obj(vm));
                            assert(!pmap_rec_ok(j@));
                        }
                        return Option::None;
                    },
                };
                v.push((ks, vs));
                i += 1;
            }
            Option::Some(v)
        },
        _ => Option::None,
    }
}

fn dec_pmaps(j: &Json) -> (r: Option<Vec<Vec<(String, String)>>>)
    ensures
        r is Some <==> pmaps_ok(j@),
        r matches Some(v) ==> pmaps_matches(j@, v),
{
    match j {
        Json::Arr(a) => {
            proof {
                crate::json::lemma_view_arr(a@);
            }
            let ghost va = crate::json::view_arr(a@);
            let mut v: Vec<Vec<(String, String)>> = Vec::new();
            let n = a.len();
            let mut i: usize = 0;
            while i < n
                invariant
                    n == a@.len(),
                    i <= n,
                    v@.len() == i,
                    j@ == JsonV::Arr(va),
                    va == crate::json::view_arr(a@),
                    va.len() == a@.len(),
                    forall|k: int|
                        0 <= k < a@.len() ==> va[k] == crate::json::view_json(#[trigger] a@[k]),
                    forall|k: int| 0 <= k < i ==> pmap_rec_ok(#[trigger] va[k]),
                    forall|k: int| 0 <= k < i ==> pmap_rec_matches(#[trigger] va[k], v@[k]),
                decreases n - i,
            {
                match dec_pmap_rec(&a[i]) {
                    Option::Some(rec) => {
                        v.push(rec);
                        i += 1;
                    },
                    Option::None => {
                        proof {
                            assert(va[i as int] == crate::json::view_json(a@[i as int]));
                            assert(!pmap_rec_ok(va[i as int]));
                            assert(j@ == JsonV::Arr(va));
                            assert(!pmaps_ok(j@)) by {
                                if pmaps_ok(j@) {
                                    assert(j@->Arr_0 == va);
                                    assert((i as int) < va.len());
                                    assert(pmap_rec_ok(va[i as int]));
                                }
                            }
                        }
                        return Option::None;
                    },
                }
            }
            Option::Some(v)
        },
        _ => Option::None,
    }
}

/// Find a field name's position in the decoder's table.
#[verifier::rlimit(100)]
fn field_index(nb: &[u8]) -> (idx: usize)
    ensures
        idx as int == spec_field_index(nb@),
        idx <= 68,
{
    if bytes_eq(nb, ("cleanMissionStatus").as_bytes()) {
        0
    } else if bytes_eq(nb, ("audio").as_bytes()) {
        1
    } else if bytes_eq(nb, ("batAuthEnable").as_bytes()) {
        2
    } else if bytes_eq(nb, ("batInfo").as_bytes()) {
        3
    } else if bytes_eq(nb, ("batPct").as_bytes()) {
        4
    } else if bytes_eq(nb, ("batteryType").as_bytes()) {
        5
    } else if bytes_eq(nb, ("bbchg").as_bytes()) {
        6
    } else if bytes_eq(nb, ("bbchg3").as_bytes()) {
        7
    } else if bytes_eq(nb, ("bbmssn").as_bytes()) {
        8
    } else if bytes_eq(nb, ("bbnav").as_bytes()) {
        9
    } else if bytes_eq(nb, ("bbpause").as_bytes()) {
        10
    } else if bytes_eq(nb, ("bbrstinfo").as_bytes()) {
        11
    } else if bytes_eq(nb, ("bbrun").as_bytes()) {
        12
    } else if bytes_eq(nb, ("bbswitch").as_bytes()) {
        13
    } else if bytes_eq(nb, ("bbsys").as_bytes()) {
        14
    } else if bytes_eq(nb, ("behaviorFwk").as_bytes()) {
        15
    } else if bytes_eq(nb, ("bin").as_bytes()) {
        16
    }     else {
        field_index_part2(nb)
    }
}

#[verifier::rlimit(100)]
fn field_index_part2(nb: &[u8]) -> (idx: usize)
    requires
        !known_part1(nb@),
    ensures
        idx as int == spec_field_index(nb@),
        idx <= 68,
{
    if bytes_eq(nb, ("binPause").as_bytes()) {
        17
    } else if bytes_eq(nb, ("bleDevLoc").as_bytes()) {
        18
    } else if bytes_eq(nb, ("cap").as_bytes()) {
        19
    } else if bytes_eq(nb, ("carpetBoost").as_bytes()) {
        20
    } else if bytes_eq(nb, ("childLock").as_bytes()) {
        21
    } else if bytes_eq(nb, ("chrgLrPtrn").as_bytes()) {
        22
    } else if bytes_eq(nb, ("cleanSchedule2").as_bytes()) {
        23
    } else if bytes_eq(nb, ("cloudEnv").as_bytes()) {
        24
    } else if bytes_eq(nb, ("connected").as_bytes()) {
        25
    } else if bytes_eq(nb, ("country").as_bytes()) {
        26
    } else if bytes_eq(nb, ("deploymentState").as_bytes()) {
        27
    } else if bytes_eq(nb, ("dock").as_bytes()) {
        28
    } else if bytes_eq(nb, ("ecoCharge").as_bytes()) {
        29
    } else if bytes_eq(nb, ("evacAllowed").as_bytes()) {
        30
    } else if bytes_eq(nb, ("featureFlags").as_bytes()) {
        31
    } else if bytes_eq(nb, ("hwDbgr").as_bytes()) {
        32
    } else if bytes_eq(nb, ("hwPartsRev").as_bytes()) {
        33
    }     else {
        field_index_part3(nb)
    }
}

#[verifier::rlimit(100)]
fn field_index_part3(nb: &[u8]) -> (idx: usize)
    requires
        !known_part1(nb@),
        !known_part2(nb@),
    ensures
        idx as int == spec_field_index(nb@),
        idx <= 68,
{
    if bytes_eq(nb, ("langs2").as_bytes()) {
        34
    } else if bytes_eq(nb, ("lastCommand").as_bytes()) {
        35
    } else if bytes_eq(nb, ("lastDisconnect").as_bytes()) {
        36
    } else if bytes_eq(nb, ("mapUploadAllowed").as_bytes()) {
        37
    } else if bytes_eq(nb, ("missionTelemetry").as_bytes()) {
        38
    } else if bytes_eq(nb, ("mssnNavStats").as_bytes()) {
        39
    } else if bytes_eq(nb, ("name").as_bytes()) {
        40
    } else if bytes_eq(nb, ("netinfo").as_bytes()) {
        41
    } else if bytes_eq(nb, ("noAutoPasses").as_bytes()) {
        42
    } else if bytes_eq(nb, ("openOnly").as_bytes()) {
        43
    } else if bytes_eq(nb, ("pmapCL").as_bytes()) {
        44
    } else if bytes_eq(nb, ("pmapLearningAllowed").as_bytes()) {
        45
    } else if bytes_eq(nb, ("pmapSGen").as_bytes()) {
        46
    } else if bytes_eq(nb, ("pmapShare").as_bytes()) {
        47
    } else if bytes_eq(nb, ("pmaps").as_bytes()) {
        48
    } else if bytes_eq(nb, ("rankOverlap").as_bytes()) {
        49
    } else if bytes_eq(nb, ("reflexSettings").as_bytes()) {
        50
    }     else {
        field_index_part4(nb)
    }
}

#[verifier::rlimit(100)]
fn field_index_part4(nb: &[u8]) -> (idx: usize)
    requires
        !known_part1(nb@),
        !known_part2(nb@),
        !known_part3(nb@),
    ensures
        idx as int == spec_field_index(nb@),
        idx <= 68,
{
    if bytes_eq(nb, ("runtimeStats").as_bytes()) {
        51
    } else if bytes_eq(nb, ("sceneRecog").as_bytes()) {
        52
    } else if bytes_eq(nb, ("schedHold").as_bytes()) {
        53
    } else if bytes_eq(nb, ("secureBoot").as_bytes()) {
        54
    } else if bytes_eq(nb, ("signal").as_bytes()) {
        55
    } else if bytes_eq(nb, ("sku").as_bytes()) {
        56
    } else if bytes_eq(nb, ("softwareVer").as_bytes()) {
        57
    } else if bytes_eq(nb, ("subModSwVer").as_bytes()) {
        58
    } else if bytes_eq(nb, ("svcEndpoints").as_bytes()) {
        59
    } else if bytes_eq(nb, ("timezone").as_bytes()) {
        60
    } else if bytes_eq(nb, ("tls").as_bytes()) {
        61
    } else if bytes_eq(nb, ("twoPass").as_bytes()) {
        62
    } else if bytes_eq(nb, ("tz").as_bytes()) {
        63
    } else if bytes_eq(nb, ("vacHigh").as_bytes()) {
        64
    } else if bytes_eq(nb, ("wDevLoc").as_bytes()) {
        65
    } else if bytes_eq(nb, ("wifistat").as_bytes()) {
        66
    } else if bytes_eq(nb, ("wlcfg").as_bytes()) {
        67
    }     else {
        68
    }
}

#[verifier::rlimit(100)]
fn decode_at(idx: usize, field_name: &str, j: &Json) -> (r: Result<RoombaMessage, DecodeError>)
    requires
        0 <= idx < 68,
    ensures
        r is Ok <==> decodable_at(idx as int, j@),
        r matches Ok(m) ==> msg_at(idx as int, j@, m),
        r matches Err(e) ==> e.field@ == field_name@ && e.kind == err_at_known(idx as int, j@),
{
    if idx == 0 {
        match dec_cms(field_name, j) {
                Result::Ok(c) => Result::Ok(RoombaMessage::CleanMissionStatus(c)),
                Result::Err(e) => Result::Err(e),
            }
    } else if idx == 1 {
        match dec_audio(j) {
                Option::Some(x) => Result::Ok(RoombaMessage::Audio { volume: x }),
                Option::None => Result::Err(mal(field_name)),
            }
    } else if idx == 2 {
        match dec_opt_bool(j) {
                Option::Some(ob) => Result::Ok(RoombaMessage::BatAuthEnable(ob)),
                Option::None => Result::Err(mal(field_name)),
            }
    } else if idx == 3 {
        if is_obj(j) {
                Result::Ok(RoombaMessage::BatInfo {  })
            } else {
                Result::Err(mal(field_name))
            }
    } else if idx == 4 {
        match dec_u8(j) {
                Option::Some(x) => Result::Ok(RoombaMessage::BatPct(x)),
                Option::None => Result::Err(mal(field_name)),
            }
    } else if idx == 5 {
        match dec_string(j) {
                Option::Some(s) => Result::Ok(RoombaMessage::BatteryType(s)),
                Option::None => Result::Err(mal(field_name)),
            }
    } else if idx == 6 {
        if is_obj(j) {
                Result::Ok(RoombaMessage::Bbchg {  })
            } else {
                Result::Err(mal(field_name))
            }
    } else if idx == 7 {
        if is_obj(j) {
                Result::Ok(RoombaMessage::Bbchg3 {  })
            } else {
                Result::Err(mal(field_name))
            }
    } else if idx == 8 {
        if is_obj(j) {
                Result::Ok(RoombaMessage::Bbmssn {  })
            } else {
                Result::Err(mal(field_name))
            }
    } else if idx == 9 {
        if is_obj(j) {
                Result::Ok(RoombaMessage::Bbnav {  })
            } else {
                Result::Err(mal(field_name))
            }
    } else if idx == 10 {
        if is_obj(j) {
                Result::Ok(RoombaMessage::Bbpause {  })
            } else {
                Result::Err(mal(field_name))
            }
    } else if idx == 11 {
        if is_obj(j) {
                Result::Ok(RoombaMessage::Bbrstinfo {  })
            } else {
                Result::Err(mal(field_name))
            }
    } else if idx == 12 {
        if is_obj(j) {
                Result::Ok(RoombaMessage::Bbrun {  })
            } else {
                Result::Err(mal(field_name))
            }
    } else if idx == 13 {
        if is_obj(j) {
                Result::Ok(RoombaMessage::Bbswitch {  })
            } else {
                Result::Err(mal(field_name))
            }
    } else if idx == 14 {
        if is_obj(j) {
                Result::Ok(RoombaMessage::Bbsys {  })
            } else {
                Result::Err(mal(field_name))
            }
    } else if idx == 15 {
        match dec_opt_bool(j) {
                Option::Some(ob) => Result::Ok(RoombaMessage::BehaviorFwk(ob)),
                Option::None => Result::Err(mal(field_name)),
            }
    } else if idx == 16 {
        match dec_bin(j) {
                Option::Some(p) => Result::Ok(RoombaMessage::Bin { full: p.0, present: p.1 }),
                Option::None => Result::Err(mal(field_name)),
            }
    } else {
        decode_at_part2(idx, field_name, j)
    }
}

#[verifier::rlimit(100)]
fn decode_at_part2(idx: usize, field_name: &str, j: &Json) -> (r: Result<RoombaMessage, DecodeError>)
    requires
        17 <= idx < 68,
    ensures
        r is Ok <==> decodable_at(idx as int, j@),
        r matches Ok(m) ==> msg_at(idx as int, j@, m),
        r matches Err(e) ==> e.field@ == field_name@ && e.kind == err_at_known(idx as int, j@),
{
    if idx == 17 {
        match dec_bool(j) {
                Option::Some(b) => Result::Ok(RoombaMessage::BinPause(b)),
                Option::None => Result::Err(mal(field_name)),
            }
    } else if idx == 18 {
        match dec_bool(j) {
                Option::Some(b) => Result::Ok(RoombaMessage::BleDevLoc(b)),
                Option::None => Result::Err(mal(field_name)),
            }
    } else if idx == 19 {
        if is_obj(j) {
                Result::Ok(RoombaMessage::Cap {  })
            } else {
                Result::Err(mal(field_name))
            }
    } else if idx == 20 {
        match dec_bool(j) {
                Option::Some(b) => Result::Ok(RoombaMessage::CarpetBoost(b)),
                Option::None => Result::Err(mal(field_name)),
            }
    } else if idx == 21 {
        match dec_bool(j) {
                Option::Some(b) => Result::Ok(RoombaMessage::ChildLock(b)),
                Option::None => Result::Err(mal(field_name)),
            }
    } else if idx == 22 {
        match dec_u32(j) {
                Option::Some(x) => Result::Ok(RoombaMessage::ChrgLrPtrn(x)),
                Option::None => Result::Err(mal(field_name)),
            }
    } else if idx == 23 {
        match dec_sched2(j) {
                Option::Some(v) => Result::Ok(RoombaMessage::CleanSchedule2(v)),
                Option::None => Result::Err(mal(field_name)),
            }
    } else if idx == 24 {
        match dec_string(j) {
                Option::Some(s) => Result::Ok(RoombaMessage::CloudEnv(s)),
                Option::None => Result::Err(mal(field_name)),
            }
    } else if idx == 25 {
        match dec_bool(j) {
                Option::Some(b) => Result::Ok(RoombaMessage::Connected(b)),
                Option::None => Result::Err(mal(field_name)),
            }
    } else if idx == 26 {
        match dec_string(j) {
                Option::Some(s) => Result::Ok(RoombaMessage::Country(s)),
                Option::None => Result::Err(mal(field_name)),
            }
    } else if idx == 27 {
        match dec_u8(j) {
                Option::Some(x) => Result::Ok(RoombaMessage::DeploymentState(x)),
                Option::None => Result::Err(mal(field_name)),
            }
    } else if idx == 28 {
        if is_obj(j) {
                Result::Ok(RoombaMessage::Dock {  })
            } else {
                Result::Err(mal(field_name))
            }
    } else if idx == 29 {
        match dec_bool(j) {
                Option::Some(b) => Result::Ok(RoombaMessage::EcoCharge(b)),
                Option::None => Result::Err(mal(field_name)),
            }
    } else if idx == 30 {
        match dec_bool(j) {
                Option::Some(b) => Result::Ok(RoombaMessage::EvacAllowed(b)),
                Option::None => Result::Err(mal(field_name)),
            }
    } else if idx == 31 {
        if is_obj(j) {
                Result::Ok(RoombaMessage::FeatureFlags {  })
            } else {
                Result::Err(mal(field_name))
            }
    } else if idx == 32 {
        match dec_hwdbgr(j) {
                Option::Some(h) => Result::Ok(RoombaMessage::HwDbgr(h)),
                Option::None => Result::Err(mal(field_name)),
            }
    } else if idx == 33 {
        if is_obj(j) {
                Result::Ok(RoombaMessage::HwPartsRev {  })
            } else {
                Result::Err(mal(field_name))
            }
    } else {
        decode_at_part3(idx, field_name, j)
    }
}

#[verifier::rlimit(100)]
fn decode_at_part3(idx: usize, field_name: &str, j: &Json) -> (r: Result<RoombaMessage, DecodeError>)
    requires
        34 <= idx < 68,
    ensures
        r is Ok <==> decodable_at(idx as int, j@),
        r matches Ok(m) ==> msg_at(idx as int, j@, m),
        r matches Err(e) ==> e.field@ == field_name@ && e.kind == err_at_known(idx as int, j@),
{
    if idx == 34 {
        if is_obj(j) {
                Result::Ok(RoombaMessage::Langs2 {  })
            } else {
                Result::Err(mal(field_name))
            }
    } else if idx == 35 {
        if is_obj(j) {
                Result::Ok(RoombaMessage::LastCommand {  })
            } else {
                Result::Err(mal(field_name))
            }
    } else if idx == 36 {
        match dec_u16(j) {
                Option::Some(x) => Result::Ok(RoombaMessage::LastDisconnect(x)),
                Option::None => Result::Err(mal(field_name)),
            }
    } else if idx == 37 {
        match dec_bool(j) {
                Option::Some(b) => Result::Ok(RoombaMessage::MapUploadAllowed(b)),
                Option::None => Result::Err(mal(field_name)),
            }
    } else if idx == 38 {
        if is_obj(j) {
                Result::Ok(RoombaMessage::MissionTelemetry {  })
            } else {
                Result::Err(mal(field_name))
            }
    } else if idx == 39 {
        if is_obj(j) {
                Result::Ok(RoombaMessage::MssnNavStats {  })
            } else {
                Result::Err(mal(field_name))
            }
    } else if idx == 40 {
        match dec_string(j) {
                Option::Some(s) => Result::Ok(RoombaMessage::Name(s)),
                Option::None => Result::Err(mal(field_name)),
            }
    } else if idx == 41 {
        if is_obj(j) {
                Result::Ok(RoombaMessage::Netinfo {  })
            } else {
                Result::Err(mal(field_name))
            }
    } else if idx == 42 {
        match dec_bool(j) {
                Option::Some(b) => Result::Ok(RoombaMessage::NoAutoPasses(b)),
                Option::None => Result::Err(mal(field_name)),
            }
    } else if idx == 43 {
        match dec_bool(j) {
                Option::Some(b) => Result::Ok(RoombaMessage::OpenOnly(b)),
                Option::None => Result::Err(mal(field_name)),
            }
    } else if idx == 44 {
        match dec_bool(j) {
                Option::Some(b) => Result::Ok(RoombaMessage::PmapCL(b)),
                Option::None => Result::Err(mal(field_name)),
            }
    } else if idx == 45 {
        match dec_bool(j) {
                Option::Some(b) => Result::Ok(RoombaMessage::PmapLearningAllowed(b)),
                Option::None => Result::Err(mal(field_name)),
            }
    } else if idx == 46 {
        match dec_u8(j) {
                Option::Some(x) => Result::Ok(RoombaMessage::PmapSGen(x)),
                Option::None => Result::Err(mal(field_name)),
            }
    } else if idx == 47 {
        if is_obj(j) {
                Result::Ok(RoombaMessage::PmapShare {  })
            } else {
                Result::Err(mal(field_name))
            }
    } else if idx == 48 {
        match dec_pmaps(j) {
                Option::Some(v) => Result::Ok(RoombaMessage::Pmaps(v)),
                Option::None => Result::Err(mal(field_name)),
            }
    } else if idx == 49 {
        match dec_u32(j) {
                Option::Some(x) => Result::Ok(RoombaMessage::RankOverlap(x)),
                Option::None => Result::Err(mal(field_name)),
            }
    } else if idx == 50 {
        if is_obj(j) {
                Result::Ok(RoombaMessage::ReflexSettings {  })
            } else {
                Result::Err(mal(field_name))
            }
    } else {
        decode_at_part4(idx, field_name, j)
    }
}

#[verifier::rlimit(100)]
fn decode_at_part4(idx: usize, field_name: &str, j: &Json) -> (r: Result<RoombaMessage, DecodeError>)
    requires
        51 <= idx < 68,
    ensures
        r is Ok <==> decodable_at(idx as int, j@),
        r matches Ok(m) ==> msg_at(idx as int, j@, m),
        r matches Err(e) ==> e.field@ == field_name@ && e.kind == err_at_known(idx as int, j@),
{
    if idx == 51 {
        match dec_runtime(j) {
                Option::Some(t) => Result::Ok(RoombaMessage::RuntimeStats { hr: t.0, min: t.1, sqft: t.2 }),
                Option::None => Result::Err(mal(field_name)),
            }
    } else if idx == 52 {
        match dec_opt_u16(j) {
                Option::Some(ox) => Result::Ok(RoombaMessage::SceneRecog(ox)),
                Option::None => Result::Err(mal(field_name)),
            }
    } else if idx == 53 {
        match dec_bool(j) {
                Option::Some(b) => Result::Ok(RoombaMessage::SchedHold(b)),
                Option::None => Result::Err(mal(field_name)),
            }
    } else if idx == 54 {
        if is_obj(j) {
                Result::Ok(RoombaMessage::SecureBoot {  })
            } else {
                Result::Err(mal(field_name))
            }
    } else if idx == 55 {
        if is_obj(j) {
                Result::Ok(RoombaMessage::Signal {  })
            } else {
                Result::Err(mal(field_name))
            }
    } else if idx == 56 {
        match dec_string(j) {
                Option::Some(s) => Result::Ok(RoombaMessage::Sku(s)),
                Option::None => Result::Err(mal(field_name)),
            }
    } else if idx == 57 {
        match dec_string(j) {
                Option::Some(s) => Result::Ok(RoombaMessage::SoftwareVer(s)),
                Option::None => Result::Err(mal(field_name)),
            }
    } else if idx == 58 {
        if is_obj(j) {
                Result::Ok(RoombaMessage::SubModSwVer {  })
            } else {
                Result::Err(mal(field_name))
            }
    } else if idx == 59 {
        if is_obj(j) {
                Result::Ok(RoombaMessage::SvcEndpoints {  })
            } else {
                Result::Err(mal(field_name))
            }
    } else if idx == 60 {
        match dec_string(j) {
                Option::Some(s) => Result::Ok(RoombaMessage::Timezone(s)),
                Option::None => Result::Err(mal(field_name)),
            }
    } else if idx == 61 {
        if is_obj(j) {
                Result::Ok(RoombaMessage::Tls {  })
            } else {
                Result::Err(mal(field_name))
            }
    } else if idx == 62 {
        match dec_bool(j) {
                Option::Some(b) => Result::Ok(RoombaMessage::TwoPass(b)),
                Option::None => Result::Err(mal(field_name)),
            }
    } else if idx == 63 {
        if is_obj(j) {
                Result::Ok(RoombaMessage::Tz {  })
            } else {
                Result::Err(mal(field_name))
            }
    } else if idx == 64 {
        match dec_bool(j) {
                Option::Some(b) => Result::Ok(RoombaMessage::VacHigh(b)),
                Option::None => Result::Err(mal(field_name)),
            }
    } else if idx == 65 {
        match dec_bool(j) {
                Option::Some(b) => Result::Ok(RoombaMessage::WDevLoc(b)),
                Option::None => Result::Err(mal(field_name)),
            }
    } else if idx == 66 {
        if is_obj(j) {
                Result::Ok(RoombaMessage::Wifistat {  })
            } else {
                Result::Err(mal(field_name))
            }
    } else if idx == 67 {
        if is_obj(j) {
                Result::Ok(RoombaMessage::Wlcfg {  })
            } else {
                Result::Err(mal(field_name))
            }
    } else {
        proof {
            assert(false);
        }
        Result::Err(mal(field_name))
    }
}

/// Decode one telemetry fragment. The result is pinned exactly: it is `Ok`
/// precisely when the field is known, the payload parses, and the parsed
/// value has the field's shape; otherwise the error carries the field name
/// and the cause.
#[verifier::rlimit(100)]
#[verifier::spinoff_prover]
pub fn decode(field_name: &str, payload: &[u8]) -> (r: Result<RoombaMessage, DecodeError>)
    ensures
        r is Ok <==> spec_decode_ok(field_name.spec_bytes(), payload@),
        r matches Ok(m) ==> sp_parse(payload@) matches Some(jv) && spec_msg(
            field_name.spec_bytes(),
            jv,
            m,
        ),
        r matches Err(e) ==> e.field@ == field_name@ && e.kind == spec_err_kind(
            field_name.spec_bytes(),
            payload@,
        ),
{
    let nb = field_name.as_bytes();
    let idx = field_index(nb);
    if idx == 68 {
        return Result::Err(
            DecodeError { field: field_name.to_owned(), kind: DecodeErrorKind::UnknownField },
        );
    }
    match dec_parse(field_name, payload) {
        Result::Err(e) => Result::Err(e),
        Result::Ok(j) => decode_at(idx, field_name, &j),
    }
}

} // verus!
