use doomba::api::{Command, InternalRegionType, Region, StartRegions};
use doomba::encode::Message;

fn payload_object(m: &Message) -> serde_json::Map<String, serde_json::Value> {
    let v: serde_json::Value = serde_json::from_slice(&m.payload).unwrap();
    v.as_object().unwrap().clone()
}

#[test]
fn serialize_plain_command() {
    let command = Command::Clean;
    let message = Message::from_command(&command);
    assert_eq!(message.topic, "cmd");
    let obj = payload_object(&message);
    assert_eq!(obj.len(), 3);
    assert_eq!(obj.get("command").unwrap().as_str().unwrap(), "clean");
    assert_eq!(obj.get("time").unwrap().as_u64().unwrap(), message.time);
    assert_eq!(obj.get("initiator").unwrap().as_str().unwrap(), "localApp");
}

#[test]
fn serialize_start_simple_command() {
    let command = Command::Start { start_regions: None };
    let message = Message::from_command(&command);
    assert_eq!(message.topic, "cmd");
    let obj = payload_object(&message);
    assert_eq!(obj.len(), 3);
    assert_eq!(obj.get("command").unwrap().as_str().unwrap(), "start");
    assert_eq!(obj.get("time").unwrap().as_u64().unwrap(), message.time);
    assert_eq!(obj.get("initiator").unwrap().as_str().unwrap(), "localApp");
}

#[test]
fn serialize_start_complex_command() {
    let command = Command::Start {
        start_regions: Some(StartRegions {
            pmap_id: "some_pmap".to_string(),
            user_pmapv_id: "user_pmap".to_string(),
            ordered: 111,
            regions: vec![Region {
                region_id: "123".to_string(),
                region_name: "Hallway".to_string(),
                region_type: "hallway".to_string(),
                params: None,
                internal_region_type: InternalRegionType::Rid,
            }],
        }),
    };
    let message = Message::from_command(&command);
    assert_eq!(message.topic, "cmd");
    let obj = payload_object(&message);
    assert_eq!(obj.len(), 7);
    assert_eq!(obj.get("command").unwrap().as_str().unwrap(), "start");
    assert_eq!(obj.get("time").unwrap().as_u64().unwrap(), message.time);
    assert_eq!(obj.get("initiator").unwrap().as_str().unwrap(), "localApp");
    assert_eq!(obj.get("pmap_id").unwrap().as_str().unwrap(), "some_pmap");
    assert_eq!(obj.get("user_pmapv_id").unwrap().as_str().unwrap(), "user_pmap");
    assert_eq!(obj.get("ordered").unwrap().as_i64().unwrap(), 111);
    let regions = obj.get("regions").unwrap().as_array().unwrap();
    assert_eq!(regions.len(), 1);
    let region = regions[0].as_object().unwrap();
    assert_eq!(region.len(), 4);
    assert_eq!(region.get("region_id").unwrap().as_str().unwrap(), "123");
    assert_eq!(region.get("region_name").unwrap().as_str().unwrap(), "Hallway");
    assert_eq!(region.get("region_type").unwrap().as_str().unwrap(), "hallway");
    assert_eq!(region.get("type").unwrap().as_str().unwrap(), "rid");
    assert!(region.get("params").is_none());
    assert!(region.get("internal_region_type").is_none());
}

#[test]
fn region_params_use_camel_case() {
    let command = Command::Start {
        start_regions: Some(StartRegions {
            pmap_id: "p".to_string(),
            user_pmapv_id: "u".to_string(),
            ordered: 0,
            regions: vec![Region {
                region_id: "7".to_string(),
                region_name: "Kitchen".to_string(),
                region_type: "kitchen".to_string(),
                params: Some(doomba::api::RegionCleaningParams {
                    no_auto_passes: true,
                    two_pass: false,
                }),
                internal_region_type: InternalRegionType::Zid,
            }],
        }),
    };
    let message = doomba::encode::encode_command(&command, 1_699_999_999);
    let obj = payload_object(&message);
    let region = obj.get("regions").unwrap().as_array().unwrap()[0].as_object().unwrap();
    assert_eq!(region.get("type").unwrap().as_str().unwrap(), "zid");
    let params = region.get("params").unwrap().as_object().unwrap();
    assert_eq!(params.len(), 2);
    assert_eq!(params.get("noAutoPasses").unwrap().as_bool().unwrap(), true);
    assert_eq!(params.get("twoPass").unwrap().as_bool().unwrap(), false);
    assert!(params.get("no_auto_passes").is_none());
    assert!(params.get("two_pass").is_none());
}

#[test]
fn encode_fixed_time_exact_bytes() {
    let message = doomba::encode::encode_command(&Command::Dock, 1_699_999_999);
    assert_eq!(
        String::from_utf8(message.payload.clone()).unwrap(),
        "{\"command\":\"dock\",\"time\":1699999999,\"initiator\":\"localApp\"}"
    );
}

#[test]
fn encode_time_is_close_to_wall_clock() {
    let message = Message::from_command(&Command::Pause);
    let now = std::time::SystemTime::now()
        .duration_since(std::time::SystemTime::UNIX_EPOCH)
        .unwrap()
        .as_secs();
    assert!(message.time <= now + 5);
    assert!(now <= message.time + 5);
    let obj = payload_object(&message);
    let wire_time = obj.get("time").unwrap().as_u64().unwrap();
    assert!(wire_time <= now + 5 && now <= wire_time + 5);
}

#[test]
fn json_tree_round_trips_through_bytes() {
    let tree = doomba::json::Json::Obj(vec![
        ("a".as_bytes().to_vec(), doomba::json::Json::Int(-42)),
        (
            "b\"x".as_bytes().to_vec(),
            doomba::json::Json::Arr(vec![
                doomba::json::Json::Null,
                doomba::json::Json::Bool(true),
                doomba::json::Json::Str("hi\n".as_bytes().to_vec()),
            ]),
        ),
    ]);
    let bytes = doomba::json::to_bytes(&tree);
    assert_eq!(
        String::from_utf8(bytes.clone()).unwrap(),
        "{\"a\":-42,\"b\\\"x\":[null,true,\"hi\\u000a\"]}"
    );
    let back = doomba::parse::parse_bytes(&bytes).unwrap();
    let again = doomba::json::to_bytes(&back);
    assert_eq!(bytes, again);
}
