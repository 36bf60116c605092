//! The Redis command tool: which stored connections it can run commands
//! on, the connection it opens, and the JSON it reports a reply as.
use base64::Engine;
use vstd::prelude::*;
use crate::json_value::{json_view, JsonValue, JsonView};
use crate::text::owned;
use crate::text_build::decimal_string;

verus! {

/// How a Redis deployment is reached.
#[derive(Debug, Clone, Copy, PartialEq, Eq, Structural)]
pub enum RedisMode {
    Standalone,
    Sentinel,
    Cluster,
}

/// What the tool reads of a stored SSH tunnel.
#[derive(Debug, Clone, Copy, PartialEq, Eq, Structural)]
pub struct RedisSshTunnel {
    pub enabled: bool,
}

/// The stored parameters of a Redis connection.
#[derive(Debug, Clone, PartialEq, Eq)]
pub struct RedisParams {
    pub host: String,
    pub port: u16,
    pub password: Option<String>,
    pub username: Option<String>,
    pub db_index: u8,
    pub use_tls: bool,
    /// Seconds.
    pub connect_timeout: Option<u64>,
    pub mode: RedisMode,
    pub ssh_tunnel: Option<RedisSshTunnel>,
}

/// The connection the tool opens.
#[derive(Debug, Clone, PartialEq, Eq)]
pub struct RedisConnectionConfig {
    pub id: String,
    pub name: String,
    pub host: String,
    pub port: u16,
    pub password: Option<String>,
    pub username: Option<String>,
    pub db_index: u8,
    pub use_tls: bool,
    /// Seconds.
    pub timeout: u64,
    pub mode: RedisMode,
    pub ssh_tunnel: Option<RedisSshTunnel>,
}

/// The connection timeout when none is stored, in seconds.
pub const DEFAULT_REDIS_TIMEOUT: u64 = 10;

/// A failure of the tool.
#[derive(Debug, Clone, PartialEq, Eq)]
pub enum ToolError {
    Failed { message: String },
}

/// The refusal for a connection behind an SSH tunnel.
pub const TUNNEL_UNSUPPORTED: &'static str = "Redis SSH tunnel requires host-side tunnel setup";

/// The refusal for a connection that is not standalone.
pub const MODE_UNSUPPORTED: &'static str = "Redis provider currently supports standalone Redis";

/// Whether the stored connection goes through an enabled SSH tunnel.
pub open spec fn tunnel_enabled(params: RedisParams) -> bool {
    match params.ssh_tunnel {
        Some(t) => t.enabled,
        None => false,
    }
}

/// Refuses connections the tool cannot open itself: through an enabled SSH
/// tunnel (checked first), or to anything but a standalone server.
pub fn reject_unsupported_redis_config(params: &RedisParams) -> (r: Result<(), ToolError>)
    ensures
        tunnel_enabled(*params) ==> (r matches Err(ToolError::Failed { message }) && message@
            == TUNNEL_UNSUPPORTED@),
        !tunnel_enabled(*params) && params.mode != RedisMode::Standalone ==> (r matches Err(
            ToolError::Failed { message },
        ) && message@ == MODE_UNSUPPORTED@),
        !tunnel_enabled(*params) && params.mode == RedisMode::Standalone ==> r is Ok,
{
    let tunnel = match params.ssh_tunnel {
        Some(t) => t.enabled,
        None => false,
    };
    if tunnel {
        return Err(ToolError::Failed { message: owned(TUNNEL_UNSUPPORTED) });
    }
    if params.mode != RedisMode::Standalone {
        return Err(ToolError::Failed { message: owned(MODE_UNSUPPORTED) });
    }
    Ok(())
}

/// The standalone connection the tool opens for stored parameters: no id
/// or name, the stored timeout or the default.
pub fn redis_connection_config(params: &RedisParams) -> (r: RedisConnectionConfig)
    ensures
        r.id@.len() == 0,
        r.name@.len() == 0,
        r.host == params.host,
        r.port == params.port,
        r.password == params.password,
        r.username == params.username,
        r.db_index == params.db_index,
        r.use_tls == params.use_tls,
        r.timeout == match params.connect_timeout {
            Some(t) => t,
            None => DEFAULT_REDIS_TIMEOUT,
        },
        r.mode == RedisMode::Standalone,
        r.ssh_tunnel == params.ssh_tunnel,
{
    RedisConnectionConfig {
        id: String::new(),
        name: String::new(),
        host: params.host.clone(),
        port: params.port,
        password: params.password.clone(),
        username: params.username.clone(),
        db_index: params.db_index,
        use_tls: params.use_tls,
        timeout: match params.connect_timeout {
            Some(t) => t,
            None => DEFAULT_REDIS_TIMEOUT,
        },
        mode: RedisMode::Standalone,
        ssh_tunnel: params.ssh_tunnel,
    }
}

/// A Redis reply.  A float is held by its JSON number text, `None` where
/// it is not finite (JSON has no such number).
#[derive(Debug)]
pub enum RedisValue {
    Nil,
    Text(String),
    Integer(i64),
    Float(Option<String>),
    Status(String),
    Error(String),
    Binary(Vec<u8>),
    Bulk(Vec<RedisValue>),
}

/// The character of a six-bit value in the standard Base64 alphabet.
pub open spec fn base64_digit(n: int) -> char {
    "ABCDEFGHIJKLMNOPQRSTUVWXYZabcdefghijklmnopqrstuvwxyz0123456789+/"@[n]
}

/// Bytes in standard Base64 (RFC 4648, with `=` padding): each group of
/// three bytes as four characters of six bits each; a last group of one
/// or two bytes as two or three characters, padded to four with `=`.
pub open spec fn base64_standard(bytes: Seq<u8>) -> Seq<char>
    decreases bytes.len(),
{
    if bytes.len() == 0 {
        Seq::empty()
    } else if bytes.len() == 1 {
        let a = bytes[0] as int;
        seq![base64_digit(a / 4), base64_digit((a % 4) * 16), '=', '=']
    } else if bytes.len() == 2 {
        let a = bytes[0] as int;
        let b = bytes[1] as int;
        seq![base64_digit(a / 4), base64_digit((a % 4) * 16 + b / 16), base64_digit((b % 16) * 4), '=']
    } else {
        let a = bytes[0] as int;
        let b = bytes[1] as int;
        let c = bytes[2] as int;
        seq![
            base64_digit(a / 4),
            base64_digit((a % 4) * 16 + b / 16),
            base64_digit((b % 16) * 4 + c / 64),
            base64_digit(c % 64),
        ] + base64_standard(bytes.subrange(3, bytes.len() as int))
    }
}

/// Encodes bytes with `base64::engine::general_purpose::STANDARD`, the
/// standard alphabet with padding, as RFC 4648 defines it.
#[verifier::external_body]
fn base64_encode(bytes: &[u8]) -> (r: String)
    ensures
        r@ == base64_standard(bytes@),
{
    base64::engine::general_purpose::STANDARD.encode(bytes)
}

/// An object with a `type` member and one more.
pub open spec fn typed_object(kind: Seq<char>, key: Seq<char>, value: JsonView) -> JsonView {
    JsonView::Object(seq![("type"@, JsonView::Text(kind)), (key, value)])
}

/// The JSON a reply is reported as: `{"type": .., "value": ..}` with the
/// reply's kind, and for binary data its Base64 text and length instead of
/// a value; arrays hold their items so reported.
pub open spec fn reply_json(v: RedisValue) -> JsonView
    decreases v,
{
    match v {
        RedisValue::Nil => typed_object("nil"@, "value"@, JsonView::Null),
        RedisValue::Text(s) => typed_object("string"@, "value"@, JsonView::Text(s@)),
        RedisValue::Integer(i) => typed_object("integer"@, "value"@, JsonView::Number(crate::rocketmq_form::signed_decimal(i as int))),
        RedisValue::Float(f) => typed_object(
            "float"@,
            "value"@,
            match f {
                Some(t) => JsonView::Number(t@),
                None => JsonView::Null,
            },
        ),
        RedisValue::Status(s) => typed_object("status"@, "value"@, JsonView::Text(s@)),
        RedisValue::Error(s) => typed_object("error"@, "value"@, JsonView::Text(s@)),
        RedisValue::Binary(b) => JsonView::Object(
            seq![
                ("base64"@, JsonView::Text(base64_standard(b@))),
                ("bytes"@, JsonView::Number(crate::text_build::decimal(b@.len()))),
                ("type"@, JsonView::Text("binary"@)),
            ],
        ),
        RedisValue::Bulk(items) => typed_object(
            "array"@,
            "value"@,
            JsonView::Array(
                Seq::new(
                    items@.len(),
                    |i: int|
                        if 0 <= i < items@.len() {
                            reply_json(items@[i])
                        } else {
                            JsonView::Null
                        },
                ),
            ),
        ),
    }
}

/// An object with a `type` member and one more.
fn typed(kind: &str, key: &str, value: JsonValue) -> (r: JsonValue)
    ensures
        json_view(r) == typed_object(kind@, key@, json_view(value)),
{
    let mut members: Vec<(String, JsonValue)> = Vec::new();
    members.push((owned("type"), JsonValue::Text(owned(kind))));
    let ghost v = json_view(value);
    members.push((owned(key), value));
    proof {
        crate::json_value::lemma_object_view(members, 0);
        crate::json_value::lemma_object_view(members, 1);
    }
    let r = JsonValue::Object(members);
    assert(json_view(r)->Object_0 =~= seq![("type"@, JsonView::Text(kind@)), (key@, v)]);
    r
}

/// The JSON a reply is reported as.
pub fn redis_value_json(value: RedisValue) -> (r: JsonValue)
    ensures
        json_view(r) == reply_json(value),
    decreases value,
{
    match value {
        RedisValue::Nil => typed("nil", "value", JsonValue::Null),
        RedisValue::Text(s) => typed("string", "value", JsonValue::Text(s)),
        RedisValue::Integer(i) => typed("integer", "value", JsonValue::Number(crate::rocketmq_form::signed_decimal_string(i))),
        RedisValue::Float(f) => {
            let number = match f {
                Some(t) => JsonValue::Number(t),
                None => JsonValue::Null,
            };
            typed("float", "value", number)
        },
        RedisValue::Status(s) => typed("status", "value", JsonValue::Text(s)),
        RedisValue::Error(s) => typed("error", "value", JsonValue::Text(s)),
        RedisValue::Binary(b) => {
            let mut members: Vec<(String, JsonValue)> = Vec::new();
            members.push((owned("base64"), JsonValue::Text(base64_encode(b.as_slice()))));
            members.push((owned("bytes"), JsonValue::Number(decimal_string(b.len() as u64))));
            members.push((owned("type"), JsonValue::Text(owned("binary"))));
            proof {
                crate::json_value::lemma_object_view(members, 0);
                crate::json_value::lemma_object_view(members, 1);
                crate::json_value::lemma_object_view(members, 2);
            }
            let r = JsonValue::Object(members);
            assert(json_view(r)->Object_0 =~= seq![
                ("base64"@, JsonView::Text(base64_standard(b@))),
                ("bytes"@, JsonView::Number(crate::text_build::decimal(b@.len()))),
                ("type"@, JsonView::Text("binary"@)),
            ]);
            r
        },
        RedisValue::Bulk(items) => {
            let ghost all = items@;
            assert(all.len() == items.len());
            proof {
                assert forall|k: int| 0 <= k < all.len() implies decreases_to!(value => #[trigger] all[k]) by {
                    assert(decreases_to!(value => value->Bulk_0));
                    assert(decreases_to!(value->Bulk_0 => value->Bulk_0@));
                    assert(decreases_to!(value->Bulk_0@ => value->Bulk_0@[k]));
                }
            }
            let mut rest = items;
            let mut out: Vec<JsonValue> = Vec::new();
            let mut i: usize = 0;
            while rest.len() > 0
                invariant
                    all == Seq::new(i as nat, |k: int| all[k]) + rest@,
                    i + rest@.len() == all.len(),
                    all.len() <= usize::MAX,
                    out@.len() == i,
                    forall|k: int| 0 <= k < i ==> json_view(#[trigger] out@[k]) == reply_json(all[k]),
                    forall|k: int| 0 <= k < all.len() ==> decreases_to!(value => #[trigger] all[k]),
                decreases rest@.len(),
            {
                let ghost before = rest@;
                let item = rest.remove(0);
                proof {
                    assert(item == before[0]);
                    assert(all[i as int] == item) by {
                        assert(all[i as int] == (Seq::new(i as nat, |k: int| all[k]) + before)[i as int]);
                    }
                    assert(Seq::new((i + 1) as nat, |k: int| all[k]) + rest@ =~= all) by {
                        assert(before =~= seq![item] + rest@);
                        assert(Seq::new(i as nat, |k: int| all[k]) + before =~= all);
                    }
                }
                out.push(redis_value_json(item));
                i = i + 1;
            }
            let arr = JsonValue::Array(out);
            assert(json_view(arr)->Array_0 =~= Seq::new(
                all.len(),
                |k: int|
                    if 0 <= k < all.len() {
                        reply_json(all[k])
                    } else {
                        JsonView::Null
                    },
            ));
            let ghost av = json_view(arr);
            let r = typed("array", "value", arr);
            proof {
                let rj = reply_json(value);
                let arr = rj->Object_0[1].1->Array_0;
                assert(arr.len() == all.len());
                assert forall|k: int| 0 <= k < all.len() implies arr[k] == reply_json(all[k]) by {}
                assert(arr =~= av->Array_0);
                assert(rj->Object_0 =~= json_view(r)->Object_0);
            }
            r
        },
    }
}

} // verus!
