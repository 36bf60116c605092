//! The forms of the middleware pages: what the topic editor starts with,
//! and the requests that the topic editor, the send dialog and the message
//! query build from what was typed, or why they refuse.
use vstd::prelude::*;
use crate::decimal::{parse_unsigned, parse_unsigned_chars};
use crate::middleware_lists::TopicSummary;
use crate::middleware_pages::{parse_local_datetime, wall_clock_parse, QueryMode, DAY_MILLIS};
use crate::rocketmq_form::opt_text;
use crate::text::{chars_of, copy_string, owned, text_eq, trim, trim_chars, trimmed};
use crate::text_build::{decimal, decimal_string};

verus! {

/// The queue count of a new topic when none is typed.
pub const DEFAULT_QUEUE_COUNT: u32 = 8;

/// What the topic editor starts with.
#[derive(Debug, Clone, PartialEq, Eq)]
pub struct TopicEditorForm {
    pub topic: String,
    pub topic_type: String,
    pub queues: String,
    pub perm: String,
}

/// The index of the first topic with this name.
pub open spec fn topic_index(topics: Seq<TopicSummary>, name: Seq<char>) -> Option<int>
    decreases topics.len(),
{
    if topics.len() == 0 {
        None
    } else {
        match topic_index(topics.drop_last(), name) {
            Some(i) => Some(i),
            None => if topics.last().name@ == name {
                Some(topics.len() - 1)
            } else {
                None
            },
        }
    }
}

/// What the topic editor starts with: for an edit, the topic's name and,
/// from the first listed topic of that name, its type, queue count and
/// permission; `NORMAL`, `8` and `6` where it has none, or for a new topic.
pub open spec fn editor_form(editing: Option<Seq<char>>, topics: Seq<TopicSummary>) -> (
    Seq<char>,
    Seq<char>,
    Seq<char>,
    Seq<char>,
) {
    let existing = existing_of(editing, topics);
    (
        match editing {
            Some(name) => name,
            None => Seq::empty(),
        },
        match existing {
            Some(t) => match t.topic_type {
                Some(ty) => ty@,
                None => "NORMAL"@,
            },
            None => "NORMAL"@,
        },
        match existing {
            Some(t) => match t.queue_count {
                Some(q) => decimal(q as nat),
                None => "8"@,
            },
            None => "8"@,
        },
        match existing {
            Some(t) => match t.perm {
                Some(p) => p@,
                None => "6"@,
            },
            None => "6"@,
        },
    )
}

/// The view of an optional borrowed text.
pub open spec fn opt_str(s: Option<&str>) -> Option<Seq<char>> {
    match s {
        Some(x) => Some(x@),
        None => None,
    }
}

/// Finds the first topic with this name.
fn find_topic(topics: &Vec<TopicSummary>, name: &str) -> (r: Option<usize>)
    ensures
        match r {
            Some(k) => topic_index(topics@, name@) == Some(k as int) && k < topics@.len(),
            None => topic_index(topics@, name@) is None,
        },
{
    let mut i: usize = 0;
    while i < topics.len()
        invariant
            i <= topics@.len(),
            topic_index(topics@.subrange(0, i as int), name@) is None,
        decreases topics@.len() - i,
    {
        assert(topics@.subrange(0, i + 1).drop_last() =~= topics@.subrange(0, i as int));
        if text_eq(topics[i].name.as_str(), name) {
            proof {
                lemma_topic_found(topics@, name@, i as int);
            }
            return Some(i);
        }
        i = i + 1;
    }
    assert(topics@.subrange(0, topics@.len() as int) =~= topics@);
    None
}

/// The first match in a list whose first `i` topics do not match is at
/// `i`, when topic `i` matches.
proof fn lemma_topic_found(topics: Seq<TopicSummary>, name: Seq<char>, i: int)
    requires
        0 <= i < topics.len(),
        topic_index(topics.subrange(0, i), name) is None,
        topics[i].name@ == name,
    ensures
        topic_index(topics, name) == Some(i),
    decreases topics.len(),
{
    let next = topics.subrange(0, i + 1);
    assert(next.drop_last() =~= topics.subrange(0, i));
    if topics.len() > i + 1 {
        assert(topics.drop_last().subrange(0, i) =~= topics.subrange(0, i));
        lemma_topic_found(topics.drop_last(), name, i);
    } else {
        assert(topics =~= next);
    }
}

/// The first listed topic of the edited name.
pub open spec fn existing_of(editing: Option<Seq<char>>, topics: Seq<TopicSummary>) -> Option<TopicSummary> {
    match editing {
        Some(name) => match topic_index(topics, name) {
            Some(i) => Some(topics[i]),
            None => None,
        },
        None => None,
    }
}

/// Finds the topic being edited.
fn existing_topic<'a>(editing: Option<&str>, topics: &'a Vec<TopicSummary>) -> (r: Option<&'a TopicSummary>)
    ensures
        match r {
            Some(t) => existing_of(opt_str(editing), topics@) == Some(*t),
            None => existing_of(opt_str(editing), topics@) is None,
        },
{
    match editing {
        Some(name) => match find_topic(topics, name) {
            Some(i) => Some(&topics[i]),
            None => None,
        },
        None => None,
    }
}

/// What the topic editor starts with, for a new topic or an edit.
pub fn topic_editor_form(editing: Option<&str>, topics: &Vec<TopicSummary>) -> (r: TopicEditorForm)
    ensures
        (r.topic@, r.topic_type@, r.queues@, r.perm@) == editor_form(opt_str(editing), topics@),
{
    let existing = existing_topic(editing, topics);
    let topic = match editing {
        Some(name) => owned(name),
        None => String::new(),
    };
    let topic_type = match existing {
        Some(t) => match &t.topic_type {
            Some(ty) => copy_string(ty),
            None => owned("NORMAL"),
        },
        None => owned("NORMAL"),
    };
    let queues = match existing {
        Some(t) => match t.queue_count {
            Some(q) => decimal_string(q as u64),
            None => owned("8"),
        },
        None => owned("8"),
    };
    let perm = match existing {
        Some(t) => match &t.perm {
            Some(p) => copy_string(p),
            None => owned("6"),
        },
        None => owned("6"),
    };
    TopicEditorForm { topic, topic_type, queues, perm }
}

/// The queue count typed in the editor: the default for blank text, else
/// the trimmed text as a `u32`.
pub open spec fn queue_count_of(text: Seq<char>) -> Option<nat> {
    if trim(text).len() == 0 {
        Some(DEFAULT_QUEUE_COUNT as nat)
    } else {
        parse_unsigned(trim(text), u32::MAX as nat)
    }
}

/// Reads the queue count typed in the editor.
pub fn queue_count_from_text(text: &str) -> (r: Option<u32>)
    ensures
        match queue_count_of(text@) {
            Some(q) => r == Some(q as u32),
            None => r is None,
        },
{
    let chars = chars_of(text);
    let t = trim_chars(chars.as_slice());
    if t.len() == 0 {
        return Some(DEFAULT_QUEUE_COUNT);
    }
    match parse_unsigned_chars(t.as_slice(), u32::MAX as u64) {
        Some(q) => Some(q as u32),
        None => None,
    }
}

/// A request to create or update a topic.
#[derive(Debug, Clone, PartialEq, Eq)]
pub struct CreateTopicRequest {
    pub topic: String,
    pub topic_type: Option<String>,
    pub queue_count: Option<u32>,
    pub perm: Option<String>,
    pub attributes: Vec<(String, String)>,
}

/// Why the topic editor refuses to submit.
#[derive(Debug, Clone, Copy, PartialEq, Eq, Structural)]
pub enum TopicFormProblem {
    TopicRequired,
    QueuesInvalid,
}

/// A selection that is not empty.
pub open spec fn chosen(selected: Option<Seq<char>>) -> Option<Seq<char>> {
    match selected {
        Some(s) => if s.len() > 0 {
            Some(s)
        } else {
            None
        },
        None => None,
    }
}

/// Keeps a selection unless it is empty.
fn non_empty(selected: Option<String>) -> (r: Option<String>)
    ensures
        opt_text(r) == chosen(opt_text(selected)),
{
    match selected {
        Some(s) => if s.unicode_len() > 0 {
            Some(s)
        } else {
            None
        },
        None => None,
    }
}

/// The topic request the editor submits: the trimmed name, which must not
/// be empty, the chosen type and permission, and a queue count that reads.
pub fn topic_request(
    topic_text: &str,
    selected_type: Option<String>,
    queues_text: &str,
    selected_perm: Option<String>,
) -> (r: Result<CreateTopicRequest, TopicFormProblem>)
    ensures
        trim(topic_text@).len() == 0 ==> r == Err::<CreateTopicRequest, TopicFormProblem>(
            TopicFormProblem::TopicRequired,
        ),
        trim(topic_text@).len() > 0 && queue_count_of(queues_text@) is None ==> r == Err::<
            CreateTopicRequest,
            TopicFormProblem,
        >(TopicFormProblem::QueuesInvalid),
        trim(topic_text@).len() > 0 && queue_count_of(queues_text@) is Some ==> (r matches Ok(req) && req.topic@
            == trim(topic_text@) && opt_text(req.topic_type) == chosen(opt_text(selected_type))
            && req.queue_count == Some(queue_count_of(queues_text@)->0 as u32) && opt_text(req.perm)
            == chosen(opt_text(selected_perm)) && req.attributes@.len() == 0),
{
    let topic = trimmed(topic_text);
    if topic.unicode_len() == 0 {
        return Err(TopicFormProblem::TopicRequired);
    }
    let queue_count = match queue_count_from_text(queues_text) {
        Some(q) => q,
        None => {
            return Err(TopicFormProblem::QueuesInvalid);
        },
    };
    Ok(
        CreateTopicRequest {
            topic,
            topic_type: non_empty(selected_type),
            queue_count: Some(queue_count),
            perm: non_empty(selected_perm),
            attributes: Vec::new(),
        },
    )
}

/// A request to send a message.
#[derive(Debug, Clone, PartialEq, Eq)]
pub struct SendMessageRequest {
    pub topic: String,
    pub tag: Option<String>,
    pub key: Option<String>,
    pub body: Vec<u8>,
    pub properties: Vec<(String, String)>,
}

/// A trimmed text unless it is empty.
pub open spec fn trimmed_field(text: Seq<char>) -> Option<Seq<char>> {
    if trim(text).len() > 0 {
        Some(trim(text))
    } else {
        None
    }
}

/// The trimmed text, unless it is empty.
fn optional_trimmed(text: &str) -> (r: Option<String>)
    ensures
        opt_text(r) == trimmed_field(text@),
{
    let t = trimmed(text);
    if t.unicode_len() > 0 {
        Some(t)
    } else {
        None
    }
}

/// The message the send and resend dialogs submit: the trimmed topic,
/// which must not be empty (else nothing is sent), the trimmed tag and key
/// where not empty, and the body as typed.
pub fn send_request(topic_text: &str, tag_text: &str, key_text: &str, body: Vec<u8>) -> (r: Option<
    SendMessageRequest,
>)
    ensures
        trim(topic_text@).len() == 0 ==> r is None,
        trim(topic_text@).len() > 0 ==> (r matches Some(req) && req.topic@ == trim(topic_text@) && opt_text(
            req.tag,
        ) == trimmed_field(tag_text@) && opt_text(req.key) == trimmed_field(key_text@) && req.body@
            == body@ && req.properties@.len() == 0),
{
    let topic = trimmed(topic_text);
    if topic.unicode_len() == 0 {
        return None;
    }
    Some(
        SendMessageRequest {
            topic,
            tag: optional_trimmed(tag_text),
            key: optional_trimmed(key_text),
            body,
            properties: Vec::new(),
        },
    )
}

/// A message lookup.
#[derive(Debug, Clone, PartialEq, Eq)]
pub enum MessageQuery {
    ByTimeWindow { topic: String, begin_unix_ms: i64, end_unix_ms: i64, page: u32, page_size: u32 },
    ByKey { topic: String, key: String },
    ById { topic: String, message_id: String },
}

/// The mathematical value of a message lookup.
pub enum MessageQueryView {
    ByTimeWindow { topic: Seq<char>, begin_unix_ms: i64, end_unix_ms: i64, page: u32, page_size: u32 },
    ByKey { topic: Seq<char>, key: Seq<char> },
    ById { topic: Seq<char>, message_id: Seq<char> },
}

impl View for MessageQuery {
    type V = MessageQueryView;

    open spec fn view(&self) -> MessageQueryView {
        match self {
            MessageQuery::ByTimeWindow { topic, begin_unix_ms, end_unix_ms, page, page_size } => {
                MessageQueryView::ByTimeWindow {
                    topic: topic@,
                    begin_unix_ms: *begin_unix_ms,
                    end_unix_ms: *end_unix_ms,
                    page: *page,
                    page_size: *page_size,
                }
            },
            MessageQuery::ByKey { topic, key } => MessageQueryView::ByKey { topic: topic@, key: key@ },
            MessageQuery::ById { topic, message_id } => MessageQueryView::ById {
                topic: topic@,
                message_id: message_id@,
            },
        }
    }
}

/// Why a message lookup cannot run.
#[derive(Debug, Clone, Copy, PartialEq, Eq, Structural)]
pub enum MessageQueryProblem {
    TopicRequired,
    InvalidTime,
    KeyRequired,
    MessageIdRequired,
}

/// The lookup for what was typed, with the window's ends already read:
/// the trimmed topic must not be empty; a time window needs both ends; a
/// key or an id lookup needs its trimmed key or id.
pub open spec fn query_for(
    mode: QueryMode,
    topic_text: Seq<char>,
    begin: Option<i64>,
    end: Option<i64>,
    key_text: Seq<char>,
    id_text: Seq<char>,
    page: u32,
    page_size: u32,
) -> Result<MessageQueryView, MessageQueryProblem> {
    if trim(topic_text).len() == 0 {
        Err(MessageQueryProblem::TopicRequired)
    } else {
        match mode {
            QueryMode::TimeWindow => match (begin, end) {
                (Some(b), Some(e)) => Ok(
                    MessageQueryView::ByTimeWindow {
                        topic: trim(topic_text),
                        begin_unix_ms: b,
                        end_unix_ms: e,
                        page,
                        page_size,
                    },
                ),
                _ => Err(MessageQueryProblem::InvalidTime),
            },
            QueryMode::Key => if trim(key_text).len() == 0 {
                Err(MessageQueryProblem::KeyRequired)
            } else {
                Ok(MessageQueryView::ByKey { topic: trim(topic_text), key: trim(key_text) })
            },
            QueryMode::Id => if trim(id_text).len() == 0 {
                Err(MessageQueryProblem::MessageIdRequired)
            } else {
                Ok(MessageQueryView::ById { topic: trim(topic_text), message_id: trim(id_text) })
            },
        }
    }
}

/// The view of a lookup result.
pub open spec fn query_result_view(r: Result<MessageQuery, MessageQueryProblem>) -> Result<
    MessageQueryView,
    MessageQueryProblem,
> {
    match r {
        Ok(q) => Ok(q@),
        Err(p) => Err(p),
    }
}

/// The lookup for what was typed, with the window's ends already read.
pub fn message_query(
    mode: QueryMode,
    topic_text: &str,
    begin: Option<i64>,
    end: Option<i64>,
    key_text: &str,
    id_text: &str,
    page: u32,
    page_size: u32,
) -> (r: Result<MessageQuery, MessageQueryProblem>)
    ensures
        query_result_view(r) == query_for(mode, topic_text@, begin, end, key_text@, id_text@, page, page_size),
{
    let topic = trimmed(topic_text);
    if topic.unicode_len() == 0 {
        return Err(MessageQueryProblem::TopicRequired);
    }
    match mode {
        QueryMode::TimeWindow => match (begin, end) {
            (Some(b), Some(e)) => Ok(
                MessageQuery::ByTimeWindow { topic, begin_unix_ms: b, end_unix_ms: e, page, page_size },
            ),
            _ => Err(MessageQueryProblem::InvalidTime),
        },
        QueryMode::Key => {
            let key = trimmed(key_text);
            if key.unicode_len() == 0 {
                Err(MessageQueryProblem::KeyRequired)
            } else {
                Ok(MessageQuery::ByKey { topic, key })
            }
        },
        QueryMode::Id => {
            let message_id = trimmed(id_text);
            if message_id.unicode_len() == 0 {
                Err(MessageQueryProblem::MessageIdRequired)
            } else {
                Ok(MessageQuery::ById { topic, message_id })
            }
        },
    }
}

/// What can be known of a window end read from typed text: blank text, and
/// text that does not parse, give none; a time read lies within a day of
/// the wall-clock reading.
pub open spec fn read_as_time(text: Seq<char>, t: Option<i64>) -> bool {
    &&& (trim(text).len() == 0 ==> t is None)
    &&& (t is Some ==> trim(text).len() > 0 && wall_clock_parse(trim(text)) is Some)
    &&& (t matches Some(v) ==> (wall_clock_parse(trim(text)) matches Some(w) && w - DAY_MILLIS < v < w
        + DAY_MILLIS))
}

/// The lookup for what was typed; the window's ends are read in the local
/// time zone (for time-window lookups only).
pub fn build_message_query(
    mode: QueryMode,
    topic_text: &str,
    begin_text: &str,
    end_text: &str,
    key_text: &str,
    id_text: &str,
    page: u32,
    page_size: u32,
) -> (r: Result<MessageQuery, MessageQueryProblem>)
    ensures
        exists|begin: Option<i64>, end: Option<i64>|
            read_as_time(begin_text@, begin) && read_as_time(end_text@, end) && query_result_view(r)
                == query_for(mode, topic_text@, begin, end, key_text@, id_text@, page, page_size),
{
    let (begin, end) = match mode {
        QueryMode::TimeWindow => (parse_local_datetime(begin_text), parse_local_datetime(end_text)),
        _ => (None, None),
    };
    let r = message_query(mode, topic_text, begin, end, key_text, id_text, page, page_size);
    assert(read_as_time(begin_text@, begin) && read_as_time(end_text@, end));
    r
}

} // verus!
