//! The middleware management pages: which pages a backend gets, how
//! messages are queried, and how status is presented.
use vstd::prelude::*;
use crate::text::{chars_of, string_of, text_eq, trim, trim_chars};
use crate::text_build::push_chars;

verus! {

/// How messages are looked up.
#[derive(Clone, Copy, Debug, PartialEq, Eq, Structural)]
pub enum QueryMode {
    /// By topic and time window.
    TimeWindow,
    /// By topic and key.
    Key,
    /// By topic and message id.
    Id,
}

impl Default for QueryMode {
    fn default() -> (r: Self)
        ensures
            r == QueryMode::TimeWindow,
    {
        QueryMode::TimeWindow
    }
}

/// The value key of a query mode in the mode selector.
pub open spec fn mode_text(mode: QueryMode) -> Seq<char> {
    match mode {
        QueryMode::TimeWindow => "time"@,
        QueryMode::Key => "key"@,
        QueryMode::Id => "id"@,
    }
}

/// The value key of a query mode in the mode selector.
pub fn mode_key(mode: QueryMode) -> (r: &'static str)
    ensures
        r@ == mode_text(mode),
{
    match mode {
        QueryMode::TimeWindow => "time",
        QueryMode::Key => "key",
        QueryMode::Id => "id",
    }
}

/// The query mode of a selector value; anything unknown is the time window.
pub fn mode_from_value(value: &str) -> (r: QueryMode)
    ensures
        r == (if value@ == "key"@ {
            QueryMode::Key
        } else if value@ == "id"@ {
            QueryMode::Id
        } else {
            QueryMode::TimeWindow
        }),
{
    if text_eq(value, "key") {
        QueryMode::Key
    } else if text_eq(value, "id") {
        QueryMode::Id
    } else {
        QueryMode::TimeWindow
    }
}

/// Every mode survives the selector: reading back the value key of a mode
/// gives the mode.
pub proof fn law_mode_round_trip(mode: QueryMode)
    ensures
        (if mode_text(mode) == "key"@ {
            QueryMode::Key
        } else if mode_text(mode) == "id"@ {
            QueryMode::Id
        } else {
            QueryMode::TimeWindow
        }) == mode,
{
    reveal_strlit("time");
    reveal_strlit("key");
    reveal_strlit("id");
    assert("time"@.len() == 4 && "key"@.len() == 3 && "id"@.len() == 2);
}

/// The name of what chrono's `NaiveDateTime::parse_from_str` reads from a
/// text with the format `%Y-%m-%d %H:%M`: the wall-clock time it writes, as
/// milliseconds from the epoch counted as if in UTC (`and_utc`, then
/// `timestamp_millis`), or `None` where the text does not parse.
pub uninterp spec fn wall_clock_parse(text: Seq<char>) -> Option<i64>;

/// Parses a wall-clock time written `YYYY-MM-DD HH:MM` with chrono's
/// `NaiveDateTime::parse_from_str`.  The contract names the result, which
/// depends on the text alone.
#[verifier::external_body]
fn wall_clock_millis(text: &str) -> (r: Option<i64>)
    ensures
        r == wall_clock_parse(text@),
{
    match chrono::NaiveDateTime::parse_from_str(text, "%Y-%m-%d %H:%M") {
        Ok(naive) => Some(naive.and_utc().timestamp_millis()),
        Err(_) => None,
    }
}

/// The instant at which the machine's clock shows a wall-clock time (given
/// in milliseconds as from `wall_clock_millis`), through chrono's
/// `and_local_timezone(Local).single()`: `None` where the time zone skips
/// that time or shows it twice.  The result depends on the machine's time
/// zone; what holds of every zone is that its offset from UTC is less than
/// a day (chrono's `FixedOffset` is built only within ±86 400 seconds), so
/// the instant lies within a day of the wall-clock reading.
#[verifier::external_body]
fn local_instant_millis(wall_clock: i64) -> (r: Option<i64>)
    ensures
        r matches Some(t) ==> wall_clock - DAY_MILLIS < t < wall_clock + DAY_MILLIS,
{
    let naive = match chrono::DateTime::from_timestamp_millis(wall_clock) {
        Some(utc) => utc.naive_utc(),
        None => return None,
    };
    match naive.and_local_timezone(chrono::Local).single() {
        Some(local) => Some(local.timestamp_millis()),
        None => None,
    }
}

/// Milliseconds in a day.
pub const DAY_MILLIS: i64 = 86_400_000;

/// A time typed as `YYYY-MM-DD HH:MM` in local time, as milliseconds since
/// the Unix epoch.  Blank text, and text that does not parse in that format
/// once trimmed, is no time; a time read lies within a day of the
/// wall-clock reading, whatever the machine's time zone.
pub fn parse_local_datetime(text: &str) -> (r: Option<i64>)
    ensures
        trim(text@).len() == 0 ==> r is None,
        r is Some ==> trim(text@).len() > 0 && wall_clock_parse(trim(text@)) is Some,
        r matches Some(t) ==> (wall_clock_parse(trim(text@)) matches Some(w) && w - DAY_MILLIS < t < w
            + DAY_MILLIS),
{
    let chars = chars_of(text);
    let t = trim_chars(chars.as_slice());
    if t.len() == 0 {
        return None;
    }
    let trimmed = string_of(t.as_slice());
    match wall_clock_millis(trimmed.as_str()) {
        Some(wall_clock) => local_instant_millis(wall_clock),
        None => None,
    }
}

/// What a status means; colours are kept for real state feedback.
#[derive(Debug, Clone, Copy, PartialEq, Eq, Structural)]
pub enum StatusPresentation {
    Neutral,
    Progress,
    Success,
    Warning,
    Error,
}

impl Default for StatusPresentation {
    fn default() -> (r: Self)
        ensures
            r == StatusPresentation::Neutral,
    {
        StatusPresentation::Neutral
    }
}

/// What a middleware backend can do.
#[derive(Debug, Clone, Copy, PartialEq, Eq, Structural)]
pub struct MiddlewareCapabilities {
    pub metrics: bool,
    pub cluster_overview: bool,
    pub topics: bool,
    pub groups: bool,
    pub message_query: bool,
}

/// The management pages.
#[derive(Debug, Clone, Copy, PartialEq, Eq, Structural)]
pub enum MiddlewarePageKind {
    Overview,
    Topics,
    Groups,
    Messages,
}

/// The tab id suffix of a page.
pub open spec fn page_suffix(kind: MiddlewarePageKind) -> Seq<char> {
    match kind {
        MiddlewarePageKind::Overview => "-overview"@,
        MiddlewarePageKind::Topics => "-topics"@,
        MiddlewarePageKind::Groups => "-groups"@,
        MiddlewarePageKind::Messages => "-messages"@,
    }
}

/// The pages a backend gets, in order: the overview when metrics or the
/// cluster overview are available, then topics, groups and messages as the
/// backend supports them.
pub open spec fn planned_pages(caps: MiddlewareCapabilities) -> Seq<MiddlewarePageKind> {
    (if caps.metrics || caps.cluster_overview {
        seq![MiddlewarePageKind::Overview]
    } else {
        Seq::empty()
    }) + (if caps.topics {
        seq![MiddlewarePageKind::Topics]
    } else {
        Seq::empty()
    }) + (if caps.groups {
        seq![MiddlewarePageKind::Groups]
    } else {
        Seq::empty()
    }) + (if caps.message_query {
        seq![MiddlewarePageKind::Messages]
    } else {
        Seq::empty()
    })
}

/// The standard management pages of a middleware connection.
pub struct MiddlewarePages;

impl MiddlewarePages {
    /// The tab ids and pages a backend gets: `{conn_id}-overview`,
    /// `-topics`, `-groups`, `-messages`, each only when the backend can
    /// serve it.
    pub fn page_plan(caps: MiddlewareCapabilities, conn_id: &str) -> (r: Vec<(String, MiddlewarePageKind)>)
        ensures
            r@.len() == planned_pages(caps).len(),
            forall|i: int|
                0 <= i < r@.len() ==> #[trigger] r@[i].1 == planned_pages(caps)[i] && r@[i].0@
                    == conn_id@ + page_suffix(planned_pages(caps)[i]),
    {
        let mut items: Vec<(String, MiddlewarePageKind)> = Vec::new();
        let ghost plan = planned_pages(caps);
        if caps.metrics || caps.cluster_overview {
            items.push((tab_id(conn_id, MiddlewarePageKind::Overview), MiddlewarePageKind::Overview));
        }
        if caps.topics {
            items.push((tab_id(conn_id, MiddlewarePageKind::Topics), MiddlewarePageKind::Topics));
        }
        if caps.groups {
            items.push((tab_id(conn_id, MiddlewarePageKind::Groups), MiddlewarePageKind::Groups));
        }
        if caps.message_query {
            items.push((tab_id(conn_id, MiddlewarePageKind::Messages), MiddlewarePageKind::Messages));
        }
        proof {
            let kinds = Seq::new(items@.len(), |i: int| items@[i].1);
            assert(kinds =~= plan);
        }
        items
    }
}

/// The tab id of a page of a connection.
pub(crate) fn tab_id(conn_id: &str, kind: MiddlewarePageKind) -> (r: String)
    ensures
        r@ == conn_id@ + page_suffix(kind),
{
    let mut text = chars_of(conn_id);
    let suffix = match kind {
        MiddlewarePageKind::Overview => chars_of("-overview"),
        MiddlewarePageKind::Topics => chars_of("-topics"),
        MiddlewarePageKind::Groups => chars_of("-groups"),
        MiddlewarePageKind::Messages => chars_of("-messages"),
    };
    push_chars(&mut text, suffix.as_slice());
    string_of(text.as_slice())
}

} // verus!
