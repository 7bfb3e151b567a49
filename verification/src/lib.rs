//! A verified wire-format codec for a home-cleaning robot's MQTT control
//! protocol: commands are encoded into a JSON envelope on a fixed outbound
//! topic, and inbound telemetry fragments are decoded field by field into a
//! tagged message type. The JSON tree model, the serializer, the parser and
//! both mapping layers are verified; the MQTT transport lives outside this
//! library.

pub mod api;
pub mod decode;
pub mod encode;
pub mod json;
pub mod parse;
pub mod roundtrip;
pub mod state;
