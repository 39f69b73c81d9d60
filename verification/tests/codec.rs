use yewchat::wire::{decode, decode_payload, encode, DecodeError, EncodeError, Envelope, MessageData, MsgTypes};

fn register(name: &str) -> Envelope {
    Envelope { message_type: MsgTypes::Register, data_array: None, data: Some(name.to_string()) }
}

fn users(names: &[&str]) -> Envelope {
    Envelope {
        message_type: MsgTypes::Users,
        data_array: Some(names.iter().map(|n| n.to_string()).collect()),
        data: None,
    }
}

fn chat(text: &str) -> Envelope {
    Envelope { message_type: MsgTypes::Message, data_array: None, data: Some(text.to_string()) }
}

fn same(a: &Envelope, b: &Envelope) -> bool {
    a.message_type == b.message_type && a.data_array == b.data_array && a.data == b.data
}

#[test]
fn encode_register_is_the_exact_frame() {
    assert_eq!(encode(&register("alice")).unwrap(), r#"{"messageType":"register","data":"alice"}"#);
}

#[test]
fn encode_users_is_the_exact_frame() {
    assert_eq!(
        encode(&users(&["alice", "bob"])).unwrap(),
        r#"{"messageType":"users","dataArray":["alice","bob"]}"#
    );
}

#[test]
fn encode_message_is_the_exact_frame() {
    assert_eq!(encode(&chat("hello")).unwrap(), r#"{"messageType":"message","data":"hello"}"#);
}

#[test]
fn encode_empty_user_list() {
    assert_eq!(encode(&users(&[])).unwrap(), r#"{"messageType":"users","dataArray":[]}"#);
}

#[test]
fn encode_escapes_what_json_must_escape() {
    assert_eq!(
        encode(&chat("a\"b\\c\nd")).unwrap(),
        r#"{"messageType":"message","data":"a\"b\\c\nd"}"#
    );
}

#[test]
fn encode_refuses_chat_without_text() {
    let e = Envelope { message_type: MsgTypes::Message, data_array: None, data: None };
    assert_eq!(encode(&e), Err(EncodeError::PayloadMismatch));
}

#[test]
fn encode_refuses_users_without_list() {
    let e = Envelope { message_type: MsgTypes::Users, data_array: None, data: None };
    assert_eq!(encode(&e), Err(EncodeError::PayloadMismatch));
}

#[test]
fn encode_refuses_users_with_text() {
    let e = Envelope {
        message_type: MsgTypes::Users,
        data_array: Some(vec!["a".to_string()]),
        data: Some("x".to_string()),
    };
    assert_eq!(encode(&e), Err(EncodeError::PayloadMismatch));
}

#[test]
fn encode_refuses_register_with_list() {
    let e = Envelope {
        message_type: MsgTypes::Register,
        data_array: Some(vec![]),
        data: Some("alice".to_string()),
    };
    assert_eq!(encode(&e), Err(EncodeError::PayloadMismatch));
}

#[test]
fn round_trip_register() {
    let e = register("alice");
    assert!(same(&decode(&encode(&e).unwrap()).unwrap(), &e));
}

#[test]
fn round_trip_users() {
    let e = users(&["alice", "bob", "", "carol"]);
    assert!(same(&decode(&encode(&e).unwrap()).unwrap(), &e));
}

#[test]
fn round_trip_message_with_awkward_text() {
    let e = chat("line one\nline \"two\"\t\\ \u{0001} \u{00e9} \u{4e16}\u{754c} \u{1f600} {\"x\":1}");
    assert!(same(&decode(&encode(&e).unwrap()).unwrap(), &e));
}

#[test]
fn round_trip_empty_strings() {
    assert!(same(&decode(&encode(&register("")).unwrap()).unwrap(), &register("")));
    assert!(same(&decode(&encode(&chat("")).unwrap()).unwrap(), &chat("")));
    assert!(same(&decode(&encode(&users(&[])).unwrap()).unwrap(), &users(&[])));
}

#[test]
fn decode_reads_users_frame() {
    let e = decode(r#"{"messageType":"users","dataArray":["alice","bob"]}"#).unwrap();
    assert!(same(&e, &users(&["alice", "bob"])));
}

#[test]
fn decode_goes_by_the_discriminant_not_by_the_member_that_is_there() {
    let e = decode(r#"{"messageType":"register","data":"alice"}"#).unwrap();
    assert_eq!(e.message_type, MsgTypes::Register);
    let e = decode(r#"{"messageType":"message","data":"alice"}"#).unwrap();
    assert_eq!(e.message_type, MsgTypes::Message);
}

#[test]
fn decode_takes_members_in_any_order_and_passes_over_others() {
    let e = decode(r#" { "extra": [1, {"a": null}], "data": "hi", "messageType": "message" } "#).unwrap();
    assert!(same(&e, &chat("hi")));
}

#[test]
fn decode_counts_null_as_absent() {
    let e = decode(r#"{"messageType":"register","dataArray":null,"data":"alice"}"#).unwrap();
    assert!(same(&e, &register("alice")));
    let e = decode(r#"{"messageType":"users","dataArray":["a"],"data":null}"#).unwrap();
    assert!(same(&e, &users(&["a"])));
}

#[test]
fn decode_syntax_error() {
    assert_eq!(decode("not json").err(), Some(DecodeError::Syntax));
    assert_eq!(decode("").err(), Some(DecodeError::Syntax));
    assert_eq!(decode(r#"{"messageType":"users""#).err(), Some(DecodeError::Syntax));
    assert_eq!(decode(r#"{"messageType":"users","dataArray":[]} x"#).err(), Some(DecodeError::Syntax));
}

#[test]
fn decode_structure_error() {
    assert_eq!(decode(r#"["users",["a"],null]"#).err(), Some(DecodeError::Structure));
    assert_eq!(decode(r#""users""#).err(), Some(DecodeError::Structure));
    assert_eq!(decode("null").err(), Some(DecodeError::Structure));
    assert_eq!(decode(r#"{"data":"alice"}"#).err(), Some(DecodeError::Structure));
    assert_eq!(decode(r#"{"messageType":7,"data":"alice"}"#).err(), Some(DecodeError::Structure));
    assert_eq!(decode(r#"{"messageType":null,"data":"alice"}"#).err(), Some(DecodeError::Structure));
}

#[test]
fn decode_unknown_discriminant() {
    assert_eq!(decode(r#"{"messageType":"ping"}"#).err(), Some(DecodeError::UnknownDiscriminant));
    assert_eq!(decode(r#"{"messageType":"Users","dataArray":[]}"#).err(), Some(DecodeError::UnknownDiscriminant));
    assert_eq!(decode(r#"{"messageType":"","data":"x"}"#).err(), Some(DecodeError::UnknownDiscriminant));
}

#[test]
fn decode_payload_mismatch() {
    assert_eq!(decode(r#"{"messageType":"users"}"#).err(), Some(DecodeError::PayloadMismatch));
    assert_eq!(decode(r#"{"messageType":"users","data":"alice"}"#).err(), Some(DecodeError::PayloadMismatch));
    assert_eq!(
        decode(r#"{"messageType":"users","dataArray":["a"],"data":"x"}"#).err(),
        Some(DecodeError::PayloadMismatch)
    );
    assert_eq!(decode(r#"{"messageType":"users","dataArray":["a",1]}"#).err(), Some(DecodeError::PayloadMismatch));
    assert_eq!(decode(r#"{"messageType":"users","dataArray":"a"}"#).err(), Some(DecodeError::PayloadMismatch));
    assert_eq!(decode(r#"{"messageType":"register"}"#).err(), Some(DecodeError::PayloadMismatch));
    assert_eq!(decode(r#"{"messageType":"register","data":5}"#).err(), Some(DecodeError::PayloadMismatch));
    assert_eq!(
        decode(r#"{"messageType":"message","dataArray":[],"data":"x"}"#).err(),
        Some(DecodeError::PayloadMismatch)
    );
    assert_eq!(decode(r#"{"messageType":"message","dataArray":["x"]}"#).err(), Some(DecodeError::PayloadMismatch));
}

#[test]
fn decode_payload_reads_sender_and_text() {
    let m: MessageData = decode_payload(r#"{"from":"bob","message":"hi"}"#).unwrap();
    assert_eq!(m.from, "bob");
    assert_eq!(m.message, "hi");
}

#[test]
fn decode_payload_passes_over_other_members() {
    let m = decode_payload(r#"{"time":1700000000,"message":"hi","from":"bob"}"#).unwrap();
    assert_eq!(m.from, "bob");
    assert_eq!(m.message, "hi");
}

#[test]
fn decode_payload_syntax_error() {
    assert_eq!(decode_payload("hello").err(), Some(DecodeError::PayloadSyntax));
    assert_eq!(decode_payload("{\"from\":").err(), Some(DecodeError::PayloadSyntax));
}

#[test]
fn decode_payload_structure_error() {
    assert_eq!(decode_payload(r#""hello""#).err(), Some(DecodeError::PayloadStructure));
    assert_eq!(decode_payload(r#"{"from":"bob"}"#).err(), Some(DecodeError::PayloadStructure));
    assert_eq!(decode_payload(r#"{"message":"hi"}"#).err(), Some(DecodeError::PayloadStructure));
    assert_eq!(decode_payload(r#"{"from":1,"message":"hi"}"#).err(), Some(DecodeError::PayloadStructure));
    assert_eq!(decode_payload(r#"{"from":"bob","message":null}"#).err(), Some(DecodeError::PayloadStructure));
}

#[test]
fn the_two_layers_fail_apart() {
    let frame = r#"{"messageType":"message","data":"not a payload"}"#;
    let outer = decode(frame).unwrap();
    assert_eq!(outer.message_type, MsgTypes::Message);
    let inner = decode_payload(outer.data.as_deref().unwrap());
    assert_eq!(inner.err(), Some(DecodeError::PayloadSyntax));
    assert_eq!(decode("not a payload").err(), Some(DecodeError::Syntax));
}

#[test]
fn from_value_on_values_built_by_hand() {
    let mut members = serde_json::Map::new();
    members.insert("messageType".to_string(), serde_json::Value::String("users".to_string()));
    members.insert(
        "dataArray".to_string(),
        serde_json::Value::Array(vec![serde_json::Value::String("alice".to_string())]),
    );
    let e = Envelope::from_value(&serde_json::Value::Object(members)).unwrap();
    assert!(same(&e, &users(&["alice"])));
    assert_eq!(Envelope::from_value(&serde_json::Value::Bool(true)).err(), Some(DecodeError::Structure));
    assert_eq!(
        MessageData::from_value(&serde_json::Value::Array(vec![])).err(),
        Some(DecodeError::PayloadStructure)
    );
}

#[test]
fn to_value_builds_the_object_in_wire_order() {
    let v = users(&["alice", "bob"]).to_value().unwrap();
    let members = v.as_object().unwrap();
    let keys: Vec<&String> = members.keys().collect();
    assert_eq!(keys, vec!["messageType", "dataArray"]);
    assert_eq!(members["messageType"], serde_json::Value::String("users".to_string()));
    assert_eq!(members["dataArray"][1], serde_json::Value::String("bob".to_string()));
    let v = register("alice").to_value().unwrap();
    assert_eq!(v["data"], serde_json::Value::String("alice".to_string()));
    assert!(chat("x").to_value().is_ok());
    let bad = Envelope { message_type: MsgTypes::Register, data_array: None, data: None };
    assert_eq!(bad.to_value().err(), Some(EncodeError::PayloadMismatch));
}

#[test]
fn wire_names() {
    assert_eq!(MsgTypes::Users.name(), "users");
    assert_eq!(MsgTypes::Register.name(), "register");
    assert_eq!(MsgTypes::Message.name(), "message");
    assert_eq!(MsgTypes::from_name("users"), Some(MsgTypes::Users));
    assert_eq!(MsgTypes::from_name("register"), Some(MsgTypes::Register));
    assert_eq!(MsgTypes::from_name("message"), Some(MsgTypes::Message));
    assert_eq!(MsgTypes::from_name("messages"), None);
    assert_eq!(MsgTypes::from_name(""), None);
}

#[test]
fn gif_messages() {
    let m = |t: &str| MessageData { from: "bob".to_string(), message: t.to_string() };
    assert!(m("https://example.org/cat.gif").is_gif());
    assert!(m(".gif").is_gif());
    assert!(!m("gif").is_gif());
    assert!(!m("cat.gif ").is_gif());
    assert!(!m("cat.GIF").is_gif());
    assert!(!m("").is_gif());
    assert!(m("\u{4e16}\u{754c}.gif").is_gif());
}
