use navop_core::message_event::{describe_body, parse_flag, EventValue, MessageEvent};
use serde_json::Value;

/// The event model of a JSON value, as the events page builds it.
fn event_value(value: &Value) -> EventValue {
    match value {
        Value::Null => EventValue::Null,
        Value::String(text) => EventValue::Text(text.clone()),
        Value::Array(items) => EventValue::List(items.iter().map(event_value).collect()),
        Value::Object(map) => EventValue::Record {
            fields: map.iter().map(|(k, v)| (k.clone(), event_value(v))).collect(),
            json: value.to_string(),
        },
        other => EventValue::Other { json: other.to_string() },
    }
}

fn json(text: &str) -> EventValue {
    let value: Value = serde_json::from_str(text).expect("test JSON");
    event_value(&value)
}

fn mqtt_event() -> EventValue {
    json(
        r#"{
            "message_id": "mqtt-live-7",
            "topic": "sensors/temp",
            "tag": null,
            "key": null,
            "body": null,
            "body_text": "23.5",
            "store_time": "2026-09-14 10:47:12",
            "born_time": null,
            "properties": [
                ["qos", "QoS 1"],
                ["retain", "false"],
                ["received_at_ms", "1757818032000"]
            ]
        }"#,
    )
}

#[test]
fn parses_provider_message_event() {
    let event = MessageEvent::parse(&mqtt_event()).expect("message event");
    assert_eq!(Some("mqtt-live-7".to_string()), event.message_id);
    assert_eq!("sensors/temp", event.topic);
    assert_eq!(Some("QoS 1".to_string()), event.qos);
    assert!(!event.retain);
    assert_eq!(Some("2026-09-14 10:47:12".to_string()), event.timestamp);
    assert_eq!(Some("23.5".to_string()), event.body);
    assert!(event.extra.is_empty());
}

#[test]
fn rejects_events_that_are_not_messages() {
    assert!(MessageEvent::parse(&json(r#"{"event": "started"}"#)).is_none());
    assert!(MessageEvent::parse(&json(r#"{"topic": ""}"#)).is_none());
    assert!(MessageEvent::parse(&json(r#"{"topic": 42}"#)).is_none());
    assert!(MessageEvent::parse(&json(r#""plain string""#)).is_none());
    assert!(MessageEvent::parse(&EventValue::Null).is_none());
}

#[test]
fn retain_and_missing_fields_are_optional() {
    let event = MessageEvent::parse(&json(
        r#"{"topic": "a/b", "properties": [["retain", "true"]]}"#,
    ))
    .expect("message event");
    assert!(event.retain);
    assert!(event.message_id.is_none());
    assert!(event.qos.is_none());
    assert!(event.timestamp.is_none());
    assert!(event.body.is_none());
}

#[test]
fn timestamp_falls_back_to_received_at_ms() {
    let event = MessageEvent::parse(&json(
        r#"{"topic": "a/b", "properties": [["received_at_ms", "1757818032000"]]}"#,
    ))
    .expect("message event");
    assert_eq!(Some("1757818032000".to_string()), event.timestamp);
    assert!(event.extra.is_empty());
}

#[test]
fn binary_body_becomes_a_length_placeholder() {
    let event = MessageEvent::parse(&json(r#"{"topic": "a/b", "body": [0, 255, 1]}"#))
        .expect("message event");
    assert_eq!(Some("<3 bytes>".to_string()), event.body);
}

#[test]
fn unknown_properties_land_in_extra() {
    let event = MessageEvent::parse(&json(
        r#"{
            "topic": "a/b",
            "properties": [
                ["qos", "QoS 2"],
                ["client_id", "navop-1"],
                ["nonsense"],
                ["dup", 7]
            ]
        }"#,
    ))
    .expect("message event");
    assert_eq!(Some("QoS 2".to_string()), event.qos);
    assert_eq!(
        vec![("client_id".to_string(), "navop-1".to_string())],
        event.extra
    );
}

#[test]
fn flags_accept_the_usual_spellings() {
    for yes in ["true", "1", "yes", "on", " TRUE ", "On"] {
        assert!(parse_flag(yes), "{yes}");
    }
    for no in ["false", "0", "", "y", "enabled"] {
        assert!(!parse_flag(no), "{no}");
    }
}

#[test]
fn other_bodies_are_described_by_their_json() {
    assert_eq!("42", describe_body(&json("42")));
    assert_eq!("text", describe_body(&json(r#""text""#)));
    assert_eq!(r#"{"a":1}"#, describe_body(&json(r#"{"a": 1}"#)));
    assert_eq!("<0 bytes>", describe_body(&json("[]")));
    let event = MessageEvent::parse(&json(r#"{"topic": "t", "body": true, "born_time": "b"}"#))
        .expect("message event");
    assert_eq!(Some("true".to_string()), event.body);
    assert_eq!(Some("b".to_string()), event.timestamp);
}
