use suricatasc::parser::CommandParser;
use suricatasc::wire::encode_request;

#[test]
fn request_without_arguments_omits_the_field() {
    let req = CommandParser::new().parse("uptime").unwrap();
    let frame = encode_request(&req);
    assert_eq!(frame, "{\"command\":\"uptime\"}");
    let value: serde_json::Value = serde_json::from_str(&frame).unwrap();
    assert_eq!(value.get("command").unwrap().as_str().unwrap(), "uptime");
    assert!(value.get("arguments").is_none());
}

#[test]
fn request_with_arguments_carries_the_mapping() {
    let req = CommandParser::new().parse("iface-stat eth0").unwrap();
    let frame = encode_request(&req);
    assert_eq!(frame, "{\"command\":\"iface-stat\",\"arguments\":{\"iface\":\"eth0\"}}");
    let value: serde_json::Value = serde_json::from_str(&frame).unwrap();
    let args = value.get("arguments").unwrap();
    assert_eq!(args.get("iface").unwrap().as_str().unwrap(), "eth0");
}

#[test]
fn typed_arguments_keep_their_wire_types() {
    let req = CommandParser::new()
        .parse("pcap-file trace.pcap /tmp/out 7 true false")
        .unwrap();
    let frame = encode_request(&req);
    let value: serde_json::Value = serde_json::from_str(&frame).unwrap();
    let args = value.get("arguments").unwrap();
    assert!(args.get("filename").unwrap().is_string());
    assert_eq!(args.get("tenant").unwrap().as_i64().unwrap(), 7);
    assert_eq!(args.get("continuous").unwrap().as_bool().unwrap(), true);
    assert_eq!(args.get("delete-when-done").unwrap().as_bool().unwrap(), false);
}

#[test]
fn string_content_is_escaped_for_the_wire() {
    let req = CommandParser::new().parse("iface-stat he\"ll\\o").unwrap();
    let frame = encode_request(&req);
    let value: serde_json::Value = serde_json::from_str(&frame).unwrap();
    let args = value.get("arguments").unwrap();
    assert_eq!(args.get("iface").unwrap().as_str().unwrap(), "he\"ll\\o");
}

#[test]
fn argument_order_follows_the_specification() {
    let req = CommandParser::new().parse("memcap-set stream.memcap 64mb").unwrap();
    let frame = encode_request(&req);
    assert_eq!(
        frame,
        "{\"command\":\"memcap-set\",\"arguments\":{\"config\":\"stream.memcap\",\"memcap\":\"64mb\"}}"
    );
}
