//! The command encoder: a `Command` becomes a JSON envelope on the fixed
//! outbound topic, with `time` and `initiator` injected beside the flattened
//! command fields. `spec_command_json` is the written-down wire format; the
//! executable encoder is proved to produce exactly its serialization.

use vstd::prelude::*;
use vstd::string::*;
use vstd::utf8::encode_utf8;
use crate::api::{Command, InternalRegionType, Region};
use crate::json::{
    first_value, key_count, spec_ser, to_bytes, view_arr, view_json, view_members, Json, JsonV,
};

verus! {

/// The lower-case tag emitted under the `command` field.
pub open spec fn spec_command_tag(c: Command) -> Seq<u8> {
    match c {
        Command::Start { .. } => ("start").spec_bytes(),
        Command::Clean => ("clean").spec_bytes(),
        Command::Pause => ("pause").spec_bytes(),
        Command::Stop => ("stop").spec_bytes(),
        Command::Resume => ("resume").spec_bytes(),
        Command::Dock => ("dock").spec_bytes(),
        Command::Evac => ("evac").spec_bytes(),
        Command::Train => ("train").spec_bytes(),
    }
}

/// The wire value of the region discriminant: the lower-case variant name.
pub open spec fn spec_region_type_tag(t: InternalRegionType) -> Seq<u8> {
    match t {
        InternalRegionType::Rid => ("rid").spec_bytes(),
        InternalRegionType::Zid => ("zid").spec_bytes(),
    }
}

/// One encoded region: snake_case fields, `params` omitted entirely when
/// absent, the discriminant renamed to `type`, and the cleaning parameters
/// in the vendor's camelCase.
pub open spec fn spec_region_json(r: Region) -> JsonV {
    JsonV::Obj(
        seq![
            (("region_id").spec_bytes(), JsonV::Str(encode_utf8(r.region_id@))),
            (("region_name").spec_bytes(), JsonV::Str(encode_utf8(r.region_name@))),
            (("region_type").spec_bytes(), JsonV::Str(encode_utf8(r.region_type@))),
        ] + (match r.params {
            Option::Some(p) => seq![
                (
                    ("params").spec_bytes(),
                    JsonV::Obj(
                        seq![
                            (("noAutoPasses").spec_bytes(), JsonV::Bool(p.no_auto_passes)),
                            (("twoPass").spec_bytes(), JsonV::Bool(p.two_pass)),
                        ],
                    ),
                ),
            ],
            Option::None => Seq::empty(),
        }) + seq![(("type").spec_bytes(), JsonV::Str(spec_region_type_tag(r.internal_region_type)))],
    )
}

pub open spec fn spec_regions_json(rs: Seq<Region>) -> Seq<JsonV> {
    Seq::new(rs.len(), |i: int| spec_region_json(rs[i]))
}

/// The fields a `Start` payload flattens into the envelope; every other
/// command contributes nothing.
pub open spec fn spec_start_fields(c: Command) -> Seq<(Seq<u8>, JsonV)> {
    match c {
        Command::Start { start_regions } => match start_regions {
            Option::Some(sr) => seq![
                (("pmap_id").spec_bytes(), JsonV::Str(encode_utf8(sr.pmap_id@))),
                (("user_pmapv_id").spec_bytes(), JsonV::Str(encode_utf8(sr.user_pmapv_id@))),
                (("ordered").spec_bytes(), JsonV::Int(sr.ordered as int)),
                (("regions").spec_bytes(), JsonV::Arr(spec_regions_json(sr.regions@))),
            ],
            Option::None => Seq::empty(),
        },
        _ => Seq::empty(),
    }
}

/// The whole outbound envelope for a command sent at `time`.
pub open spec fn spec_command_json(c: Command, time: u64) -> JsonV {
    JsonV::Obj(
        seq![
            (("command").spec_bytes(), JsonV::Str(spec_command_tag(c))),
            (("time").spec_bytes(), JsonV::Int(time as int)),
            (("initiator").spec_bytes(), JsonV::Str(("localApp").spec_bytes())),
        ] + spec_start_fields(c),
    )
}

fn command_tag_bytes(c: &Command) -> (r: Vec<u8>)
    ensures
        r@ == spec_command_tag(*c),
{
    match c {
        Command::Start { .. } => ("start").as_bytes_vec(),
        Command::Clean => ("clean").as_bytes_vec(),
        Command::Pause => ("pause").as_bytes_vec(),
        Command::Stop => ("stop").as_bytes_vec(),
        Command::Resume => ("resume").as_bytes_vec(),
        Command::Dock => ("dock").as_bytes_vec(),
        Command::Evac => ("evac").as_bytes_vec(),
        Command::Train => ("train").as_bytes_vec(),
    }
}

fn region_to_json(r: &Region) -> (j: Json)
    ensures
        j@ == spec_region_json(*r),
{
    let mut o: Vec<(Vec<u8>, Json)> = Vec::new();
    o.push((("region_id").as_bytes_vec(), Json::Str(r.region_id.as_str().as_bytes_vec())));
    o.push((("region_name").as_bytes_vec(), Json::Str(r.region_name.as_str().as_bytes_vec())));
    o.push((("region_type").as_bytes_vec(), Json::Str(r.region_type.as_str().as_bytes_vec())));
    match &r.params {
        Option::Some(p) => {
            let mut po: Vec<(Vec<u8>, Json)> = Vec::new();
            po.push((("noAutoPasses").as_bytes_vec(), Json::Bool(p.no_auto_passes)));
            po.push((("twoPass").as_bytes_vec(), Json::Bool(p.two_pass)));
            proof {
                crate::json::lemma_view_members(po@);
                assert(po@.len() == 2);
                assert(po@[0].0@ == ("noAutoPasses").spec_bytes() && view_json(po@[0].1)
                    == JsonV::Bool(p.no_auto_passes));
                assert(po@[1].0@ == ("twoPass").spec_bytes() && view_json(po@[1].1) == JsonV::Bool(
                    p.two_pass,
                ));
                assert(view_members(po@) =~= seq![
                    (("noAutoPasses").spec_bytes(), JsonV::Bool(p.no_auto_passes)),
                    (("twoPass").spec_bytes(), JsonV::Bool(p.two_pass)),
                ]);
            }
            o.push((("params").as_bytes_vec(), Json::Obj(po)));
        },
        Option::None => {},
    }
    let tag = match &r.internal_region_type {
        InternalRegionType::Rid => ("rid").as_bytes_vec(),
        InternalRegionType::Zid => ("zid").as_bytes_vec(),
    };
    o.push((("type").as_bytes_vec(), Json::Str(tag)));
    let j = Json::Obj(o);
    proof {
        crate::json::lemma_view_members(o@);
        let m = view_members(o@);
        let n = spec_region_json(*r)->Obj_0;
        assert forall|k: int| 0 <= k < m.len() implies m[k] == (o@[k].0@, view_json(o@[k].1)) by {}
        if r.params is Some {
            assert(o@.len() == 5);
            assert(n.len() == 5);
            assert(o@[0].0@ == ("region_id").spec_bytes() && view_json(o@[0].1) == JsonV::Str(
                encode_utf8(r.region_id@),
            ));
            assert(o@[1].0@ == ("region_name").spec_bytes() && view_json(o@[1].1) == JsonV::Str(
                encode_utf8(r.region_name@),
            ));
            assert(o@[2].0@ == ("region_type").spec_bytes() && view_json(o@[2].1) == JsonV::Str(
                encode_utf8(r.region_type@),
            ));
            assert(o@[3].0@ == ("params").spec_bytes() && view_json(o@[3].1) == n[3].1);
            assert(o@[4].0@ == ("type").spec_bytes() && view_json(o@[4].1) == JsonV::Str(
                spec_region_type_tag(r.internal_region_type),
            ));
            assert(n[0] == (("region_id").spec_bytes(), JsonV::Str(encode_utf8(r.region_id@))));
            assert(n[1] == (("region_name").spec_bytes(), JsonV::Str(encode_utf8(r.region_name@))));
            assert(n[2] == (("region_type").spec_bytes(), JsonV::Str(encode_utf8(r.region_type@))));
            assert(n[4] == (("type").spec_bytes(), JsonV::Str(
                spec_region_type_tag(r.internal_region_type),
            )));
        } else {
            assert(o@.len() == 4);
            assert(n.len() == 4);
            assert(o@[0].0@ == ("region_id").spec_bytes() && view_json(o@[0].1) == JsonV::Str(
                encode_utf8(r.region_id@),
            ));
            assert(o@[1].0@ == ("region_name").spec_bytes() && view_json(o@[1].1) == JsonV::Str(
                encode_utf8(r.region_name@),
            ));
            assert(o@[2].0@ == ("region_type").spec_bytes() && view_json(o@[2].1) == JsonV::Str(
                encode_utf8(r.region_type@),
            ));
            assert(o@[3].0@ == ("type").spec_bytes() && view_json(o@[3].1) == JsonV::Str(
                spec_region_type_tag(r.internal_region_type),
            ));
            assert(n[0] == (("region_id").spec_bytes(), JsonV::Str(encode_utf8(r.region_id@))));
            assert(n[1] == (("region_name").spec_bytes(), JsonV::Str(encode_utf8(r.region_name@))));
            assert(n[2] == (("region_type").spec_bytes(), JsonV::Str(encode_utf8(r.region_type@))));
            assert(n[3] == (("type").spec_bytes(), JsonV::Str(
                spec_region_type_tag(r.internal_region_type),
            )));
        }
        assert(m =~= n);
        assert(j@ == spec_region_json(*r));
    }
    j
}

fn regions_to_json(rs: &Vec<Region>) -> (a: Vec<Json>)
    ensures
        view_arr(a@) == spec_regions_json(rs@),
{
    let mut a: Vec<Json> = Vec::new();
    let n = rs.len();
    let mut i: usize = 0;
    while i < n
        invariant
            n == rs@.len(),
            i <= n,
            a@.len() == i,
            forall|k: int| 0 <= k < i ==> view_json(#[trigger] a@[k]) == spec_region_json(rs@[k]),
        decreases n - i,
    {
        let j = region_to_json(&rs[i]);
        a.push(j);
        i += 1;
    }
    proof {
        crate::json::lemma_view_arr(a@);
        assert forall|k: int| 0 <= k < a@.len() implies view_arr(a@)[k] == spec_regions_json(
            rs@,
        )[k] by {
            assert(view_arr(a@)[k] == view_json(a@[k]));
            assert(spec_regions_json(rs@)[k] == spec_region_json(rs@[k]));
        }
        assert(view_arr(a@) =~= spec_regions_json(rs@));
    }
    a
}

/// Build the envelope tree for a command sent at `time`.
pub fn command_to_json(c: &Command, time: u64) -> (j: Json)
    ensures
        j@ == spec_command_json(*c, time),
{
    let mut o: Vec<(Vec<u8>, Json)> = Vec::new();
    o.push((("command").as_bytes_vec(), Json::Str(command_tag_bytes(c))));
    o.push((("time").as_bytes_vec(), Json::Int(time as i128)));
    o.push((("initiator").as_bytes_vec(), Json::Str(("localApp").as_bytes_vec())));
    match c {
        Command::Start { start_regions: Option::Some(sr) } => {
            o.push((("pmap_id").as_bytes_vec(), Json::Str(sr.pmap_id.as_str().as_bytes_vec())));
            o.push(
                (
                    ("user_pmapv_id").as_bytes_vec(),
                    Json::Str(sr.user_pmapv_id.as_str().as_bytes_vec()),
                ),
            );
            o.push((("ordered").as_bytes_vec(), Json::Int(sr.ordered as i128)));
            o.push((("regions").as_bytes_vec(), Json::Arr(regions_to_json(&sr.regions))));
        },
        _ => {},
    }
    let j = Json::Obj(o);
    proof {
        crate::json::lemma_view_members(o@);
        let m = view_members(o@);
        let n = spec_command_json(*c, time)->Obj_0;
        assert forall|k: int| 0 <= k < m.len() implies m[k] == (o@[k].0@, view_json(o@[k].1)) by {}
        assert(o@[0].0@ == ("command").spec_bytes() && view_json(o@[0].1) == JsonV::Str(
            spec_command_tag(*c),
        ));
        assert(o@[1].0@ == ("time").spec_bytes() && view_json(o@[1].1) == JsonV::Int(time as int));
        assert(o@[2].0@ == ("initiator").spec_bytes() && view_json(o@[2].1) == JsonV::Str(
            ("localApp").spec_bytes(),
        ));
        assert(n[0] == (("command").spec_bytes(), JsonV::Str(spec_command_tag(*c))));
        assert(n[1] == (("time").spec_bytes(), JsonV::Int(time as int)));
        assert(n[2] == (("initiator").spec_bytes(), JsonV::Str(("localApp").spec_bytes())));
        match c {
            Command::Start { start_regions: Option::Some(sr) } => {
            assert(o@.len() == 7);
            assert(n.len() == 7);
            assert(o@[3].0@ == ("pmap_id").spec_bytes() && view_json(o@[3].1) == JsonV::Str(
                encode_utf8(sr.pmap_id@),
            ));
            assert(o@[4].0@ == ("user_pmapv_id").spec_bytes() && view_json(o@[4].1) == JsonV::Str(
                encode_utf8(sr.user_pmapv_id@),
            ));
            assert(o@[5].0@ == ("ordered").spec_bytes() && view_json(o@[5].1) == JsonV::Int(
                sr.ordered as int,
            ));
            assert(o@[6].0@ == ("regions").spec_bytes() && view_json(o@[6].1) == JsonV::Arr(
                spec_regions_json(sr.regions@),
            ));
            assert(n[3] == (("pmap_id").spec_bytes(), JsonV::Str(encode_utf8(sr.pmap_id@))));
            assert(n[4] == (("user_pmapv_id").spec_bytes(), JsonV::Str(
                encode_utf8(sr.user_pmapv_id@),
            )));
            assert(n[5] == (("ordered").spec_bytes(), JsonV::Int(sr.ordered as int)));
            assert(n[6] == (("regions").spec_bytes(), JsonV::Arr(spec_regions_json(sr.regions@))));
            },
            _ => {
                assert(o@.len() == 3);
                assert(n.len() == 3);
            },
        }
        assert(m =~= n);
        assert(j@ == spec_command_json(*c, time));
    }
    j
}

/// One outbound publication: the fixed topic, the payload bytes, and the
/// timestamp that was injected into them.
pub struct Message {
    pub topic: &'static str,
    pub payload: Vec<u8>,
    pub time: u64,
}

/// Encode a command as it would be sent at `time`. Never fails: every
/// well-typed command has an envelope.
pub fn encode_command(c: &Command, time: u64) -> (m: Message)
    ensures
        m.payload@ == spec_ser(spec_command_json(*c, time)),
        m.topic@ == ("cmd")@,
        m.time == time,
{
    let j = command_to_json(c, time);
    let payload = to_bytes(&j);
    Message { topic: "cmd", payload, time }
}

/// Relies on `std::time::SystemTime::now` and `duration_since`: the clock
/// reading as whole seconds since the Unix epoch, or zero if the clock
/// reads earlier than the epoch.
#[verifier::external_body]
fn now_epoch_seconds() -> u64 {
    match std::time::SystemTime::now().duration_since(std::time::SystemTime::UNIX_EPOCH) {
        Result::Ok(d) => d.as_secs(),
        Result::Err(_) => 0,
    }
}

impl Message {
    /// Encode a command at the current wall-clock time; the injected
    /// timestamp is carried in `time`.
    pub fn from_command(c: &Command) -> (m: Message)
        ensures
            m.payload@ == spec_ser(spec_command_json(*c, m.time)),
            m.topic@ == ("cmd")@,
    {
        let time = now_epoch_seconds();
        encode_command(c, time)
    }
}

/// Law: every command without payload fields (any non-`Start` command, and
/// `Start` without regions) encodes to an envelope holding exactly the
/// three members `command`, `time` and `initiator`, in that order, and no
/// `pmap_id` or `regions` member at all.
pub proof fn lemma_plain_envelope_keys(c: Command, time: u64)
    requires
        !(c matches Command::Start { start_regions: Option::Some(_) }),
    ensures
        spec_command_json(c, time) matches JsonV::Obj(o) && o.len() == 3 && o[0].0 == (
        "command").spec_bytes() && o[1].0 == ("time").spec_bytes() && o[2].0 == (
        "initiator").spec_bytes() && key_count(o, ("pmap_id").spec_bytes()) == 0 && key_count(
            o,
            ("regions").spec_bytes(),
        ) == 0,
{
    let o = spec_command_json(c, time)->Obj_0;
    assert(spec_start_fields(c) =~= Seq::<(Seq<u8>, JsonV)>::empty());
    assert(o.len() == 3);
    reveal_strlit("command");
    reveal_strlit("time");
    reveal_strlit("initiator");
    reveal_strlit("pmap_id");
    reveal_strlit("regions");
    assert(("command")@ != ("pmap_id")@) by {
        assert(("command")@[0] == 'c' && ("pmap_id")@[0] == 'p');
    }
    assert(("command")@ != ("regions")@) by {
        assert(("command")@[0] == 'c' && ("regions")@[0] == 'r');
    }
    assert(("time")@.len() == 4 && ("initiator")@.len() == 9 && ("pmap_id")@.len() == 7 && (
    "regions")@.len() == 7 && ("command")@.len() == 7);
    crate::json::lemma_bytes_distinct("command", "pmap_id");
    crate::json::lemma_bytes_distinct("command", "regions");
    crate::json::lemma_bytes_distinct("time", "pmap_id");
    crate::json::lemma_bytes_distinct("time", "regions");
    crate::json::lemma_bytes_distinct("initiator", "pmap_id");
    crate::json::lemma_bytes_distinct("initiator", "regions");
    crate::json::lemma_key_count_zero(o, ("pmap_id").spec_bytes());
    crate::json::lemma_key_count_zero(o, ("regions").spec_bytes());
}

/// Law: an encoded region never carries a member named
/// `internal_region_type`; it always carries exactly one member named
/// `type`, whose value is the string `rid` or `zid`.
pub proof fn lemma_region_type_key(r: Region)
    ensures
        spec_region_json(r) matches JsonV::Obj(o) && key_count(
            o,
            ("internal_region_type").spec_bytes(),
        ) == 0 && key_count(o, ("type").spec_bytes()) == 1 && first_value(
            o,
            ("type").spec_bytes(),
        ) == JsonV::Str(spec_region_type_tag(r.internal_region_type)),
{
    let o = spec_region_json(r)->Obj_0;
    reveal_strlit("region_id");
    reveal_strlit("region_name");
    reveal_strlit("region_type");
    reveal_strlit("params");
    reveal_strlit("type");
    reveal_strlit("internal_region_type");
    assert(("internal_region_type")@.len() == 20 && ("region_id")@.len() == 9 && (
    "region_name")@.len() == 11 && ("region_type")@.len() == 11 && ("params")@.len() == 6 && (
    "type")@.len() == 4);
    crate::json::lemma_bytes_distinct("internal_region_type", "region_id");
    crate::json::lemma_bytes_distinct("internal_region_type", "region_name");
    crate::json::lemma_bytes_distinct("internal_region_type", "region_type");
    crate::json::lemma_bytes_distinct("internal_region_type", "params");
    crate::json::lemma_bytes_distinct("internal_region_type", "type");
    crate::json::lemma_bytes_distinct("type", "region_id");
    crate::json::lemma_bytes_distinct("type", "region_name");
    crate::json::lemma_bytes_distinct("type", "region_type");
    crate::json::lemma_bytes_distinct("type", "params");
    crate::json::lemma_key_count_zero(o, ("internal_region_type").spec_bytes());
    let idx = o.len() - 1;
    assert(o[idx].0 == ("type").spec_bytes() && o[idx].1 == JsonV::Str(
        spec_region_type_tag(r.internal_region_type),
    ));
    crate::json::lemma_key_count_unique(o, ("type").spec_bytes(), idx);
}

/// Law: when a region carries cleaning parameters, the encoded `params`
/// object holds exactly the camelCase members `noAutoPasses` and `twoPass`,
/// carrying the two flags, and no snake_case spelling of either.
pub proof fn lemma_region_params_keys(r: Region)
    requires
        r.params is Some,
    ensures
        spec_region_json(r) matches JsonV::Obj(o) && (key_count(o, ("params").spec_bytes()) == 1
            && (first_value(o, ("params").spec_bytes()) matches JsonV::Obj(po) && (po.len() == 2
            && po[0] == (
            ("noAutoPasses").spec_bytes(),
            JsonV::Bool(r.params->Some_0.no_auto_passes),
        ) && po[1] == (("twoPass").spec_bytes(), JsonV::Bool(r.params->Some_0.two_pass))
            && key_count(po, ("no_auto_passes").spec_bytes()) == 0 && key_count(
            po,
            ("two_pass").spec_bytes(),
        ) == 0))),
{
    let o = spec_region_json(r)->Obj_0;
    reveal_strlit("region_id");
    reveal_strlit("region_name");
    reveal_strlit("region_type");
    reveal_strlit("params");
    reveal_strlit("type");
    reveal_strlit("noAutoPasses");
    reveal_strlit("twoPass");
    reveal_strlit("no_auto_passes");
    reveal_strlit("two_pass");
    assert(("params")@.len() == 6 && ("region_id")@.len() == 9 && ("region_name")@.len() == 11 && (
    "region_type")@.len() == 11 && ("type")@.len() == 4);
    crate::json::lemma_bytes_distinct("params", "region_id");
    crate::json::lemma_bytes_distinct("params", "region_name");
    crate::json::lemma_bytes_distinct("params", "region_type");
    crate::json::lemma_bytes_distinct("params", "type");
    crate::json::lemma_key_count_unique(o, ("params").spec_bytes(), 3);
    let po = first_value(o, ("params").spec_bytes())->Obj_0;
    assert(("noAutoPasses")@.len() == 12 && ("twoPass")@.len() == 7 && ("no_auto_passes")@.len()
        == 14 && ("two_pass")@.len() == 8);
    crate::json::lemma_bytes_distinct("no_auto_passes", "noAutoPasses");
    crate::json::lemma_bytes_distinct("no_auto_passes", "twoPass");
    crate::json::lemma_bytes_distinct("two_pass", "noAutoPasses");
    crate::json::lemma_bytes_distinct("two_pass", "twoPass");
    crate::json::lemma_key_count_zero(po, ("no_auto_passes").spec_bytes());
    crate::json::lemma_key_count_zero(po, ("two_pass").spec_bytes());
}

} // verus!
