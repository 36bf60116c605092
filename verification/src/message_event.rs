//! Live message events, as the events page shows them: a topic with its
//! QoS and retain badges, a time and a body, instead of raw JSON.
//!
//! Parsing is best effort: the events page is open to every extension, and
//! an event that is not a message gives `None`, for the page to show the
//! raw JSON instead.
use vstd::prelude::*;

use crate::text::{ascii_lower_seq, chars_of, copy_string, lower_chars, string_of, text_eq, trim, trim_chars};
use crate::text_build::{decimal, push_decimal, push_str};

verus! {

/// A JSON value as the event parser reads it.  Objects and scalars other
/// than strings also carry their JSON text, to describe a body by.
pub enum EventValue {
    Null,
    Text(String),
    List(Vec<EventValue>),
    Record { fields: Vec<(String, EventValue)>, json: String },
    /// A number or a boolean.
    Other { json: String },
}

/// The value of the first field of a record with this name.
pub open spec fn record_field(fields: Seq<(String, EventValue)>, name: Seq<char>) -> Option<EventValue>
    decreases fields.len(),
{
    if fields.len() == 0 {
        None
    } else if fields[0].0@ == name {
        Some(fields[0].1)
    } else {
        record_field(fields.drop_first(), name)
    }
}

/// A string field that is not empty.
pub open spec fn string_field(fields: Seq<(String, EventValue)>, name: Seq<char>) -> Option<Seq<char>> {
    match record_field(fields, name) {
        Some(EventValue::Text(t)) => if t@.len() > 0 {
            Some(t@)
        } else {
            None
        },
        _ => None,
    }
}

/// A property entry `[name, value]` of two strings, if it is one.
pub open spec fn property_pair(entry: EventValue) -> Option<(Seq<char>, Seq<char>)> {
    match entry {
        EventValue::List(items) => if items@.len() == 2 {
            match (items@[0], items@[1]) {
                (EventValue::Text(k), EventValue::Text(v)) => Some((k@, v@)),
                _ => None,
            }
        } else {
            None
        },
        _ => None,
    }
}

/// The well-formed property pairs of a list, in order.
pub open spec fn property_pairs(entries: Seq<EventValue>) -> Seq<(Seq<char>, Seq<char>)>
    decreases entries.len(),
{
    if entries.len() == 0 {
        Seq::empty()
    } else {
        let before = property_pairs(entries.drop_last());
        match property_pair(entries.last()) {
            Some(p) => before.push(p),
            None => before,
        }
    }
}

/// The `properties` of a record: pairs of strings, other entries skipped.
pub open spec fn properties_of(fields: Seq<(String, EventValue)>) -> Seq<(Seq<char>, Seq<char>)> {
    match record_field(fields, "properties"@) {
        Some(EventValue::List(entries)) => property_pairs(entries@),
        _ => Seq::empty(),
    }
}

/// Whether a flag property is set: `true`, `1`, `yes` or `on`, ignoring
/// case and surrounding whitespace.
pub open spec fn flag_set(value: Seq<char>) -> bool {
    let v = ascii_lower_seq(trim(value));
    v == "true"@ || v == "1"@ || v == "yes"@ || v == "on"@
}

/// What the properties say: the QoS, the retain flag, the received time
/// (each the last one given) and the other properties in order.
pub struct PropertyScan {
    pub qos: Option<Seq<char>>,
    pub retain: bool,
    pub received_at_ms: Option<Seq<char>>,
    pub extra: Seq<(Seq<char>, Seq<char>)>,
}

/// Scanning the properties in order.
pub open spec fn scan_properties(props: Seq<(Seq<char>, Seq<char>)>) -> PropertyScan
    decreases props.len(),
{
    if props.len() == 0 {
        PropertyScan { qos: None, retain: false, received_at_ms: None, extra: Seq::empty() }
    } else {
        let s = scan_properties(props.drop_last());
        let (k, v) = props.last();
        if k == "qos"@ {
            PropertyScan { qos: Some(v), ..s }
        } else if k == "retain"@ {
            PropertyScan { retain: flag_set(v), ..s }
        } else if k == "received_at_ms"@ {
            PropertyScan { received_at_ms: Some(v), ..s }
        } else {
            PropertyScan { extra: s.extra.push((k, v)), ..s }
        }
    }
}

/// How a body without `body_text` is described: a byte list by its length,
/// a string as itself, anything else by its JSON text.
pub open spec fn body_description(v: EventValue) -> Seq<char> {
    match v {
        EventValue::List(items) => "<"@ + decimal(items@.len()) + " bytes>"@,
        EventValue::Text(t) => t@,
        EventValue::Record { json, .. } => json@,
        EventValue::Other { json } => json@,
        EventValue::Null => "null"@,
    }
}

/// The mathematical value of a message event.
pub struct MessageEventView {
    pub message_id: Option<Seq<char>>,
    pub topic: Seq<char>,
    pub qos: Option<Seq<char>>,
    pub retain: bool,
    pub timestamp: Option<Seq<char>>,
    pub body: Option<Seq<char>>,
    pub extra: Seq<(Seq<char>, Seq<char>)>,
}

/// The first of two optional values that is set.
pub open spec fn first_set(a: Option<Seq<char>>, b: Option<Seq<char>>) -> Option<Seq<char>> {
    match a {
        Some(x) => Some(x),
        None => b,
    }
}

/// The message an event describes: it must be a record with a non-empty
/// string `topic`.  Its time is `store_time`, else `born_time`, else the
/// `received_at_ms` property; its body is `body_text`, else a description
/// of `body` when that is present and not null.
pub open spec fn parsed_event(event: EventValue) -> Option<MessageEventView> {
    match event {
        EventValue::Record { fields, .. } => match record_field(fields@, "topic"@) {
            Some(EventValue::Text(topic)) => if topic@.len() == 0 {
                None
            } else {
                let scan = scan_properties(properties_of(fields@));
                Some(
                    MessageEventView {
                        message_id: string_field(fields@, "message_id"@),
                        topic: topic@,
                        qos: scan.qos,
                        retain: scan.retain,
                        timestamp: first_set(
                            first_set(
                                string_field(fields@, "store_time"@),
                                string_field(fields@, "born_time"@),
                            ),
                            scan.received_at_ms,
                        ),
                        body: first_set(
                            string_field(fields@, "body_text"@),
                            match record_field(fields@, "body"@) {
                                None => None,
                                Some(EventValue::Null) => None,
                                Some(v) => Some(body_description(v)),
                            },
                        ),
                        extra: scan.extra,
                    },
                )
            },
            _ => None,
        },
        _ => None,
    }
}

/// A message event parsed from the standard message model.
#[derive(Debug, Clone, PartialEq, Eq)]
pub struct MessageEvent {
    pub message_id: Option<String>,
    pub topic: String,
    pub qos: Option<String>,
    pub retain: bool,
    pub timestamp: Option<String>,
    pub body: Option<String>,
    pub extra: Vec<(String, String)>,
}

/// An optional text as its view.
pub open spec fn opt_view(o: Option<String>) -> Option<Seq<char>> {
    match o {
        Some(s) => Some(s@),
        None => None,
    }
}

/// Pairs of texts as their views.
pub open spec fn pair_views(v: Seq<(String, String)>) -> Seq<(Seq<char>, Seq<char>)> {
    Seq::new(v.len(), |i: int| (v[i].0@, v[i].1@))
}

impl View for MessageEvent {
    type V = MessageEventView;

    open spec fn view(&self) -> MessageEventView {
        MessageEventView {
            message_id: opt_view(self.message_id),
            topic: self.topic@,
            qos: opt_view(self.qos),
            retain: self.retain,
            timestamp: opt_view(self.timestamp),
            body: opt_view(self.body),
            extra: pair_views(self.extra@),
        }
    }
}

/// The value of the first field of a record with this name.
fn find_field<'a>(fields: &'a Vec<(String, EventValue)>, name: &str) -> (r: Option<&'a EventValue>)
    ensures
        match record_field(fields@, name@) {
            Some(v) => r == Some(&v),
            None => r is None,
        },
{
    let mut i: usize = 0;
    assert(fields@.subrange(0, fields@.len() as int) =~= fields@);
    while i < fields.len()
        invariant
            i <= fields@.len(),
            record_field(fields@, name@) == record_field(
                fields@.subrange(i as int, fields@.len() as int),
                name@,
            ),
        decreases fields.len() - i,
    {
        let ghost rest = fields@.subrange(i as int, fields@.len() as int);
        assert(rest[0] == fields@[i as int]);
        assert(rest.drop_first() =~= fields@.subrange(i + 1, fields@.len() as int));
        if text_eq(fields[i].0.as_str(), name) {
            return Some(&fields[i].1);
        }
        i = i + 1;
    }
    assert(fields@.subrange(i as int, fields@.len() as int) =~= Seq::<(String, EventValue)>::empty());
    None
}

/// A string field that is not empty.
fn text_field(fields: &Vec<(String, EventValue)>, name: &str) -> (r: Option<String>)
    ensures
        opt_view(r) == string_field(fields@, name@),
{
    match find_field(fields, name) {
        Some(EventValue::Text(text)) => {
            if text.as_str().unicode_len() > 0 {
                Some(copy_string(text))
            } else {
                None
            }
        },
        _ => None,
    }
}

/// The `properties` of a record as pairs of strings; entries that are not
/// two strings are skipped, so dirty data never fails the whole event.
pub fn properties_of_fields(fields: &Vec<(String, EventValue)>) -> (r: Vec<(String, String)>)
    ensures
        pair_views(r@) == properties_of(fields@),
{
    let mut out: Vec<(String, String)> = Vec::new();
    match find_field(fields, "properties") {
        Some(EventValue::List(entries)) => {
            let mut i: usize = 0;
            assert(entries@.subrange(0, 0) =~= Seq::<EventValue>::empty());
            assert(pair_views(out@) =~= Seq::<(Seq<char>, Seq<char>)>::empty());
            while i < entries.len()
                invariant
                    i <= entries@.len(),
                    pair_views(out@) == property_pairs(entries@.subrange(0, i as int)),
                decreases entries.len() - i,
            {
                let ghost prefix = entries@.subrange(0, i as int);
                let ghost next = entries@.subrange(0, i + 1);
                assert(next.drop_last() =~= prefix);
                assert(next.last() == entries@[i as int]);
                let ghost before = pair_views(out@);
                match &entries[i] {
                    EventValue::List(items) => {
                        if items.len() == 2 {
                            match (&items[0], &items[1]) {
                                (EventValue::Text(k), EventValue::Text(v)) => {
                                    out.push((copy_string(k), copy_string(v)));
                                    assert(pair_views(out@) =~= before.push((k@, v@)));
                                },
                                _ => {},
                            }
                        }
                    },
                    _ => {},
                }
                i = i + 1;
            }
            assert(entries@.subrange(0, entries@.len() as int) =~= entries@);
        },
        _ => {
            assert(pair_views(out@) =~= Seq::<(Seq<char>, Seq<char>)>::empty());
        },
    }
    out
}

/// Whether a flag property is set: `true`, `1`, `yes` or `on`, ignoring
/// case and surrounding whitespace.
pub fn parse_flag(value: &str) -> (r: bool)
    ensures
        r == flag_set(value@),
{
    let chars = chars_of(value);
    let trimmed = trim_chars(chars.as_slice());
    let lowered = lower_chars(trimmed.as_slice());
    let text = string_of(lowered.as_slice());
    let t = text.as_str();
    text_eq(t, "true") || text_eq(t, "1") || text_eq(t, "yes") || text_eq(t, "on")
}

/// Describes a body given without `body_text`: a byte list becomes a
/// length placeholder.
pub fn describe_body(value: &EventValue) -> (r: String)
    ensures
        r@ == body_description(*value),
{
    match value {
        EventValue::List(items) => {
            let mut text: Vec<char> = Vec::new();
            push_str(&mut text, "<");
            push_decimal(&mut text, items.len() as u64);
            push_str(&mut text, " bytes>");
            string_of(text.as_slice())
        },
        EventValue::Text(text) => copy_string(text),
        EventValue::Record { json, .. } => copy_string(json),
        EventValue::Other { json } => copy_string(json),
        EventValue::Null => crate::text::owned("null"),
    }
}

impl MessageEvent {
    /// Parses an event; `None` when it is not a message, for the caller to
    /// show the raw JSON instead.
    pub fn parse(event: &EventValue) -> (r: Option<MessageEvent>)
        ensures
            match parsed_event(*event) {
                Some(m) => r matches Some(x) && x@ == m,
                None => r is None,
            },
    {
        let fields = match event {
            EventValue::Record { fields, .. } => fields,
            _ => {
                return None;
            },
        };
        let topic = match find_field(fields, "topic") {
            Some(EventValue::Text(topic)) => topic,
            _ => {
                return None;
            },
        };
        if topic.as_str().unicode_len() == 0 {
            return None;
        }
        let props = properties_of_fields(fields);
        let ghost pv = pair_views(props@);
        let mut qos: Option<String> = None;
        let mut retain = false;
        let mut received_at_ms: Option<String> = None;
        let mut extra: Vec<(String, String)> = Vec::new();
        let mut i: usize = 0;
        assert(pv.subrange(0, 0) =~= Seq::<(Seq<char>, Seq<char>)>::empty());
        assert(pair_views(extra@) =~= Seq::<(Seq<char>, Seq<char>)>::empty());
        while i < props.len()
            invariant
                i <= props@.len(),
                pv == pair_views(props@),
                ({
                    let s = scan_properties(pv.subrange(0, i as int));
                    &&& opt_view(qos) == s.qos
                    &&& retain == s.retain
                    &&& opt_view(received_at_ms) == s.received_at_ms
                    &&& pair_views(extra@) == s.extra
                }),
            decreases props.len() - i,
        {
            let ghost next = pv.subrange(0, i + 1);
            assert(next.drop_last() =~= pv.subrange(0, i as int));
            assert(next.last() == (props@[i as int].0@, props@[i as int].1@));
            let key = props[i].0.as_str();
            let value = &props[i].1;
            if text_eq(key, "qos") {
                qos = Some(copy_string(value));
            } else if text_eq(key, "retain") {
                retain = parse_flag(value.as_str());
            } else if text_eq(key, "received_at_ms") {
                received_at_ms = Some(copy_string(value));
            } else {
                let ghost before = pair_views(extra@);
                extra.push((copy_string(&props[i].0), copy_string(value)));
                assert(pair_views(extra@) =~= before.push((key@, value@)));
            }
            i = i + 1;
        }
        assert(pv.subrange(0, props@.len() as int) =~= pv);
        let timestamp = match text_field(fields, "store_time") {
            Some(t) => Some(t),
            None => match text_field(fields, "born_time") {
                Some(t) => Some(t),
                None => received_at_ms,
            },
        };
        let body = match text_field(fields, "body_text") {
            Some(b) => Some(b),
            None => match find_field(fields, "body") {
                None => None,
                Some(EventValue::Null) => None,
                Some(v) => Some(describe_body(v)),
            },
        };
        Some(
            MessageEvent {
                message_id: text_field(fields, "message_id"),
                topic: copy_string(topic),
                qos,
                retain,
                timestamp,
                body,
                extra,
            },
        )
    }
}

} // verus!
