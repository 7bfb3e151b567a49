use doomba::decode::{decode, DecodeErrorKind};
use doomba::state::{
    cycle_from_wire, initiator_from_wire, phase_from_wire, CleanMissionCycle,
    CleanMissionInitiator, CleanMissionPhase, RoombaMessage,
};

const CMS_SENT_HOME: &str = "{\"cycle\":\"none\",\"error\":0,\"expireM\":0,\"expireTm\":0,\
\"initiator\":\"localApp\",\"missionId\":\"m1\",\"mssnM\":5,\"mssnStrtTm\":100,\"nMssn\":12,\
\"notReady\":0,\"operatingMode\":2,\"phase\":\"hmUsrDock\",\"rechrgM\":0,\"rechrgTm\":0}";

#[test]
fn clean_mission_status_round_trip() {
    let msg = decode("cleanMissionStatus", CMS_SENT_HOME.as_bytes()).unwrap();
    match msg {
        RoombaMessage::CleanMissionStatus(c) => {
            assert_eq!(c.phase, CleanMissionPhase::SentHome);
            assert_eq!(c.cycle, CleanMissionCycle::Ready);
            assert_eq!(c.initiator, "localApp");
            assert_eq!(c.mission_id, "m1");
            assert_eq!(c.mssn_m, 5);
            assert_eq!(c.mssn_strt_tm, 100);
            assert_eq!(c.n_mssn, 12);
            assert_eq!(c.operating_mode, 2);
        },
        other => panic!("wrong variant: {:?}", other),
    }
}

#[test]
fn unknown_field_is_local_to_its_fragment() {
    let bad = decode("noSuchField", "true".as_bytes());
    let err = bad.unwrap_err();
    assert_eq!(err.field, "noSuchField");
    assert_eq!(err.kind, DecodeErrorKind::UnknownField);
    let good = decode("batPct", "87".as_bytes()).unwrap();
    assert_eq!(good, RoombaMessage::BatPct(87));
}

#[test]
fn malformed_payload_is_field_scoped() {
    let err = decode("batPct", "{".as_bytes()).unwrap_err();
    assert_eq!(err.field, "batPct");
    assert_eq!(err.kind, DecodeErrorKind::Malformed);
    let err = decode("batPct", "300".as_bytes()).unwrap_err();
    assert_eq!(err.kind, DecodeErrorKind::Malformed);
    let err = decode("connected", "7".as_bytes()).unwrap_err();
    assert_eq!(err.kind, DecodeErrorKind::Malformed);
}

#[test]
fn unrecognized_enum_string_is_its_own_error() {
    let payload = CMS_SENT_HOME.replace("hmUsrDock", "warpDrive");
    let err = decode("cleanMissionStatus", payload.as_bytes()).unwrap_err();
    assert_eq!(err.field, "cleanMissionStatus");
    assert_eq!(err.kind, DecodeErrorKind::UnknownEnumValue);
    let payload = CMS_SENT_HOME.replace("\"none\"", "\"naps\"");
    let err = decode("cleanMissionStatus", payload.as_bytes()).unwrap_err();
    assert_eq!(err.kind, DecodeErrorKind::UnknownEnumValue);
}

#[test]
fn scalar_and_marker_fragments() {
    assert_eq!(decode("connected", "true".as_bytes()).unwrap(), RoombaMessage::Connected(true));
    assert_eq!(
        decode("lastDisconnect", "65535".as_bytes()).unwrap(),
        RoombaMessage::LastDisconnect(65535)
    );
    assert_eq!(
        decode("lastDisconnect", "65536".as_bytes()).unwrap_err().kind,
        DecodeErrorKind::Malformed
    );
    assert_eq!(
        decode("name", "\"Rosie\"".as_bytes()).unwrap(),
        RoombaMessage::Name("Rosie".to_string())
    );
    assert_eq!(
        decode("wifistat", "{\"wifi\":1,\"uap\":false}".as_bytes()).unwrap(),
        RoombaMessage::Wifistat {}
    );
    assert_eq!(
        decode("wifistat", "true".as_bytes()).unwrap_err().kind,
        DecodeErrorKind::Malformed
    );
}

#[test]
fn whitespace_and_escapes_are_tolerated() {
    assert_eq!(
        decode("bin", " { \"full\" : true , \"present\" : false } ".as_bytes()).unwrap(),
        RoombaMessage::Bin { full: true, present: false }
    );
    assert_eq!(
        decode("name", "\"a\\\"b\\n\\u0041\"".as_bytes()).unwrap(),
        RoombaMessage::Name("a\"b\nA".to_string())
    );
}

#[test]
fn duplicate_member_fails_the_fragment() {
    let err = decode("bin", "{\"full\":true,\"full\":true,\"present\":false}".as_bytes())
        .unwrap_err();
    assert_eq!(err.kind, DecodeErrorKind::Malformed);
}

#[test]
fn optional_payload_shapes() {
    assert_eq!(decode("batAuthEnable", "null".as_bytes()).unwrap(),
        RoombaMessage::BatAuthEnable(None));
    assert_eq!(decode("batAuthEnable", "true".as_bytes()).unwrap(),
        RoombaMessage::BatAuthEnable(Some(true)));
    assert_eq!(decode("sceneRecog", "null".as_bytes()).unwrap(),
        RoombaMessage::SceneRecog(None));
    assert_eq!(decode("sceneRecog", "77".as_bytes()).unwrap(),
        RoombaMessage::SceneRecog(Some(77)));
    assert_eq!(decode("hwDbgr", "null".as_bytes()).unwrap(), RoombaMessage::HwDbgr(None));
    let msg = decode("hwDbgr", "{\"swVer\":\"3.2\",\"hw\":\"rev1\",\"status\":1}".as_bytes())
        .unwrap();
    match msg {
        RoombaMessage::HwDbgr(Some(h)) => {
            assert_eq!(h.sw_ver, "3.2");
            assert_eq!(h.hw, "rev1");
            assert_eq!(h.status, 1);
        },
        other => panic!("wrong variant: {:?}", other),
    }
}

#[test]
fn loose_schema_fragments() {
    assert_eq!(
        decode("cleanSchedule2", "[null,null]".as_bytes()).unwrap(),
        RoombaMessage::CleanSchedule2(vec![(), ()])
    );
    let msg = decode("pmaps", "[{\"pmapId\":\"abc\",\"state\":\"active\"}]".as_bytes()).unwrap();
    match msg {
        RoombaMessage::Pmaps(v) => {
            assert_eq!(v.len(), 1);
            assert_eq!(v[0], vec![
                ("pmapId".to_string(), "abc".to_string()),
                ("state".to_string(), "active".to_string()),
            ]);
        },
        other => panic!("wrong variant: {:?}", other),
    }
    assert_eq!(
        decode("audio", "{\"volume\":30,\"extra\":\"ignored\"}".as_bytes()).unwrap(),
        RoombaMessage::Audio { volume: 30 }
    );
    assert_eq!(
        decode("runtimeStats", "{\"hr\":10,\"min\":30,\"sqft\":400}".as_bytes()).unwrap(),
        RoombaMessage::RuntimeStats { hr: 10, min: 30, sqft: 400 }
    );
}

#[test]
fn wire_tables_match_vendor_vocabulary() {
    assert_eq!(phase_from_wire("hmUsrDock".as_bytes()), Some(CleanMissionPhase::SentHome));
    assert_eq!(phase_from_wire("evac".as_bytes()), Some(CleanMissionPhase::Empty));
    assert_eq!(phase_from_wire("stop".as_bytes()), Some(CleanMissionPhase::Paused));
    assert_eq!(cycle_from_wire("none".as_bytes()), Some(CleanMissionCycle::Ready));
    assert_eq!(cycle_from_wire("quick".as_bytes()), Some(CleanMissionCycle::QuickClean));
    assert_eq!(cycle_from_wire("warp".as_bytes()), None);
    assert_eq!(initiator_from_wire("schedule".as_bytes()), Some(CleanMissionInitiator::Plan));
    assert_eq!(initiator_from_wire("rmtApp".as_bytes()), Some(CleanMissionInitiator::App));
    assert_eq!(initiator_from_wire("manual".as_bytes()), Some(CleanMissionInitiator::Robot));
    assert_eq!(initiator_from_wire("localApp".as_bytes()), Some(CleanMissionInitiator::HA));
}
