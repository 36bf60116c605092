use navop_core::json_value::JsonValue;
use navop_core::redis_tools::{
    redis_connection_config, redis_value_json, reject_unsupported_redis_config, RedisMode, RedisParams,
    RedisSshTunnel, RedisValue, ToolError,
};

fn params() -> RedisParams {
    RedisParams {
        host: "cache.example".to_string(),
        port: 6380,
        password: Some("SECRET-REDACTED".to_string()),
        username: None,
        db_index: 3,
        use_tls: true,
        connect_timeout: None,
        mode: RedisMode::Standalone,
        ssh_tunnel: None,
    }
}

fn to_serde(value: &JsonValue) -> serde_json::Value {
    match value {
        JsonValue::Null => serde_json::Value::Null,
        JsonValue::Bool(b) => serde_json::Value::Bool(*b),
        JsonValue::Number(n) => serde_json::from_str(n).expect("number text"),
        JsonValue::Text(s) => serde_json::Value::String(s.clone()),
        JsonValue::Array(items) => serde_json::Value::Array(items.iter().map(to_serde).collect()),
        JsonValue::Object(members) => {
            serde_json::Value::Object(members.iter().map(|(k, v)| (k.clone(), to_serde(v))).collect())
        }
    }
}

fn serde(text: &str) -> serde_json::Value {
    serde_json::from_str(text).expect("test JSON")
}

#[test]
fn only_standalone_servers_without_tunnels_are_supported() {
    assert_eq!(Ok(()), reject_unsupported_redis_config(&params()));
    let mut tunnelled = params();
    tunnelled.ssh_tunnel = Some(RedisSshTunnel { enabled: true });
    tunnelled.mode = RedisMode::Cluster;
    assert_eq!(
        Err(ToolError::Failed { message: "Redis SSH tunnel requires host-side tunnel setup".to_string() }),
        reject_unsupported_redis_config(&tunnelled)
    );
    let mut disabled = params();
    disabled.ssh_tunnel = Some(RedisSshTunnel { enabled: false });
    assert_eq!(Ok(()), reject_unsupported_redis_config(&disabled));
    let mut sentinel = params();
    sentinel.mode = RedisMode::Sentinel;
    assert_eq!(
        Err(ToolError::Failed { message: "Redis provider currently supports standalone Redis".to_string() }),
        reject_unsupported_redis_config(&sentinel)
    );
}

#[test]
fn connections_default_their_timeout() {
    let config = redis_connection_config(&params());
    assert_eq!(("", "", "cache.example", 6380, 3, true, 10), (
        config.id.as_str(),
        config.name.as_str(),
        config.host.as_str(),
        config.port,
        config.db_index,
        config.use_tls,
        config.timeout
    ));
    assert_eq!(Some("SECRET-REDACTED".to_string()), config.password);
    let mut timed = params();
    timed.connect_timeout = Some(3);
    assert_eq!(3, redis_connection_config(&timed).timeout);
}

#[test]
fn replies_become_typed_json() {
    assert_eq!(serde(r#"{"type":"nil","value":null}"#), to_serde(&redis_value_json(RedisValue::Nil)));
    assert_eq!(
        serde(r#"{"type":"integer","value":-42}"#),
        to_serde(&redis_value_json(RedisValue::Integer(-42)))
    );
    assert_eq!(
        serde(r#"{"type":"float","value":1.5}"#),
        to_serde(&redis_value_json(RedisValue::Float(Some("1.5".to_string()))))
    );
    assert_eq!(serde(r#"{"type":"float","value":null}"#), to_serde(&redis_value_json(RedisValue::Float(None))));
    assert_eq!(
        serde(r#"{"base64":"AP8=","bytes":2,"type":"binary"}"#),
        to_serde(&redis_value_json(RedisValue::Binary(vec![0, 255])))
    );
    assert_eq!(
        serde(r#"{"type":"array","value":[{"type":"string","value":"a"},{"type":"status","value":"OK"},{"type":"error","value":"ERR x"}]}"#),
        to_serde(&redis_value_json(RedisValue::Bulk(vec![
            RedisValue::Text("a".to_string()),
            RedisValue::Status("OK".to_string()),
            RedisValue::Error("ERR x".to_string()),
        ])))
    );
}
