//! The state of the RocketMQ connection tree and its decisions: which
//! connections are listed, expanded, selected, connecting, connected or
//! failed, what each row shows, and what a click asks for.  Connecting,
//! loading metadata and disconnecting are done by the owner, which reports
//! back here.
use vstd::prelude::*;
use crate::host_patterns::string_views;
use crate::middleware_lists::TopicSummary;
use crate::rocketmq_tree::{build_flat_entries, entry_views, flat_rows, list_views, FlatEntry, FlatEntryKind};
use crate::text::{chars_of, copy_string, string_of, text_eq};
use crate::text_build::{decimal, push_decimal, push_str};
use crate::text_sets::{
    find_key, insert_text, list_contains, remove_key, remove_text, set_key, toggle_text, toggled, value_of,
    with_text, without_key, without_text,
};

verus! {

/// What the tree reads of a broker.
#[derive(Debug, Clone, PartialEq, Eq)]
pub struct BrokerSummary {
    pub name: String,
    pub address: String,
    pub version: Option<String>,
}

/// The state of the connection tree.
pub struct RocketmqTreeState {
    connection_order: Vec<String>,
    expanded: Vec<String>,
    selected: Option<String>,
    loading: Vec<String>,
    errors: Vec<(String, String)>,
    connected: Vec<String>,
    brokers: Vec<(String, Vec<BrokerSummary>)>,
    topics: Vec<(String, Vec<TopicSummary>)>,
}

/// The mathematical value of the tree state.
pub struct TreeStateView {
    pub order: Seq<Seq<char>>,
    pub expanded: Seq<Seq<char>>,
    pub selected: Option<Seq<char>>,
    pub loading: Seq<Seq<char>>,
    pub errors: Seq<(String, String)>,
    pub connected: Seq<Seq<char>>,
    pub brokers: Seq<(String, Vec<BrokerSummary>)>,
    pub topics: Seq<(String, Vec<TopicSummary>)>,
}

impl View for RocketmqTreeState {
    type V = TreeStateView;

    closed spec fn view(&self) -> TreeStateView {
        TreeStateView {
            order: string_views(self.connection_order@),
            expanded: string_views(self.expanded@),
            selected: match self.selected {
                Some(s) => Some(s@),
                None => None,
            },
            loading: string_views(self.loading@),
            errors: self.errors@,
            connected: string_views(self.connected@),
            brokers: self.brokers@,
            topics: self.topics@,
        }
    }
}

/// The tree's invariant: each connection is listed once, and none is both
/// connecting and connected.
pub open spec fn tree_wf(v: TreeStateView) -> bool {
    &&& v.order.no_duplicates()
    &&& forall|x: Seq<char>| !(#[trigger] v.loading.contains(x) && v.connected.contains(x))
}

/// The invariant depends on the list, the connecting and the connected
/// connections alone.
proof fn lemma_wf_frame(a: TreeStateView, b: TreeStateView)
    requires
        tree_wf(a),
        b.order.no_duplicates(),
        b.loading == a.loading,
        b.connected == a.connected,
    ensures
        tree_wf(b),
{
}

/// The state with only some parts changed.
pub open spec fn same_but(
    old: TreeStateView,
    new: TreeStateView,
    order: bool,
    expanded: bool,
    selected: bool,
    loading: bool,
    errors: bool,
    connected: bool,
    metadata: bool,
) -> bool {
    &&& (!order ==> new.order == old.order)
    &&& (!expanded ==> new.expanded == old.expanded)
    &&& (!selected ==> new.selected == old.selected)
    &&& (!loading ==> new.loading == old.loading)
    &&& (!errors ==> new.errors == old.errors)
    &&& (!connected ==> new.connected == old.connected)
    &&& (!metadata ==> new.brokers == old.brokers && new.topics == old.topics)
}

/// Whether a connection can start connecting: it is listed, and neither
/// connected nor connecting.
pub open spec fn may_connect(v: TreeStateView, id: Seq<char>) -> bool {
    v.order.contains(id) && !v.connected.contains(id) && !v.loading.contains(id)
}

/// What a double click on a connection row asks for.
#[derive(Debug, Clone, Copy, PartialEq, Eq, Structural)]
pub enum TreeClick {
    /// Start connecting (after clearing a failure).
    Connect,
    /// Ask whether to disconnect.
    ConfirmDisconnect,
}

/// What a connection row shows.
#[derive(Debug, Clone, PartialEq, Eq)]
pub struct ConnectionRow {
    pub selected: bool,
    pub loading: bool,
    /// The failure shown, unless connecting.
    pub error: Option<String>,
    pub connected: bool,
    pub broker_count: usize,
    pub topic_count: usize,
    /// Connected with brokers or topics to show.
    pub has_children: bool,
    pub expanded: bool,
}

/// What a broker or topic row shows.
#[derive(Debug, Clone, PartialEq, Eq)]
pub struct ChildRow {
    pub connection_id: String,
    pub label: String,
    pub badge: String,
}

/// Appending `x` to a list that lacks it keeps the list free of repeats.
proof fn lemma_push_no_duplicates(s: Seq<Seq<char>>, x: Seq<char>)
    requires
        s.no_duplicates(),
        !s.contains(x),
    ensures
        s.push(x).no_duplicates(),
{
    let t = s.push(x);
    assert forall|i: int, j: int| 0 <= i < t.len() && 0 <= j < t.len() && i != j implies t[i] != t[j] by {
        if i < s.len() && j < s.len() {
            assert(t[i] == s[i] && t[j] == s[j]);
        } else if i < s.len() {
            assert(t[j] == x);
            assert(t[i] == s[i]);
        } else {
            assert(t[i] == x);
            assert(t[j] == s[j]);
        }
    }
}

/// Broker names by connection.
pub open spec fn broker_name_lists(s: Seq<(String, Vec<BrokerSummary>)>) -> Seq<(Seq<char>, Seq<Seq<char>>)> {
    Seq::new(s.len(), |i: int| (s[i].0@, Seq::new(s[i].1@.len(), |j: int| s[i].1@[j].name@)))
}

/// Topic names by connection.
pub open spec fn topic_name_lists(s: Seq<(String, Vec<TopicSummary>)>) -> Seq<(Seq<char>, Seq<Seq<char>>)> {
    Seq::new(s.len(), |i: int| (s[i].0@, Seq::new(s[i].1@.len(), |j: int| s[i].1@[j].name@)))
}

/// The number of items listed under a key, none when it has no entry.
pub open spec fn count_of<V>(s: Seq<(String, Vec<V>)>, id: Seq<char>) -> nat {
    match value_of(s, id) {
        Some(v) => v@.len(),
        None => 0,
    }
}

/// The position of the first `:` in a text.
pub open spec fn colon_at(s: Seq<char>) -> Option<int>
    decreases s.len(),
{
    if s.len() == 0 {
        None
    } else {
        match colon_at(s.drop_last()) {
            Some(i) => Some(i),
            None => if s.last() == ':' {
                Some(s.len() - 1)
            } else {
                None
            },
        }
    }
}

/// A child row's id split as `connection:kind:name`: the connection's id
/// and the name, cut at the first two colons (`str::split_once`).
pub open spec fn child_parts(id: Seq<char>) -> Option<(Seq<char>, Seq<char>)> {
    match colon_at(id) {
        Some(i) => {
            let rest = id.subrange(i + 1, id.len() as int);
            match colon_at(rest) {
                Some(j) => Some((id.subrange(0, i), rest.subrange(j + 1, rest.len() as int))),
                None => None,
            }
        },
        None => None,
    }
}

/// The first broker of a list with this name.
pub open spec fn broker_named(list: Seq<BrokerSummary>, name: Seq<char>) -> Option<BrokerSummary>
    decreases list.len(),
{
    if list.len() == 0 {
        None
    } else if list[0].name@ == name {
        Some(list[0])
    } else {
        broker_named(list.drop_first(), name)
    }
}

/// The first topic of a list with this name.
pub open spec fn topic_named(list: Seq<TopicSummary>, name: Seq<char>) -> Option<TopicSummary>
    decreases list.len(),
{
    if list.len() == 0 {
        None
    } else if list[0].name@ == name {
        Some(list[0])
    } else {
        topic_named(list.drop_first(), name)
    }
}

/// What a broker or topic row shows: for a broker listed under its
/// connection, `name (address)` and its version; for a topic, its name and
/// its queue count as `8Q`; for one not listed, its name and no badge.
pub open spec fn child_view(v: TreeStateView, id: Seq<char>, kind: FlatEntryKind) -> Option<
    (Seq<char>, Seq<char>, Seq<char>),
> {
    match child_parts(id) {
        None => None,
        Some((conn, name)) => match kind {
            FlatEntryKind::Connection => None,
            FlatEntryKind::Broker => {
                let found = match value_of(v.brokers, conn) {
                    Some(list) => broker_named(list@, name),
                    None => None,
                };
                match found {
                    Some(b) => Some(
                        (
                            conn,
                            b.name@ + " ("@ + b.address@ + ")"@,
                            match b.version {
                                Some(ver) => ver@,
                                None => Seq::empty(),
                            },
                        ),
                    ),
                    None => Some((conn, name, Seq::empty())),
                }
            },
            FlatEntryKind::Topic => {
                let found = match value_of(v.topics, conn) {
                    Some(list) => topic_named(list@, name),
                    None => None,
                };
                Some(
                    (
                        conn,
                        name,
                        match found {
                            Some(t) => match t.queue_count {
                                Some(c) => decimal(c as nat) + "Q"@,
                                None => Seq::empty(),
                            },
                            None => Seq::empty(),
                        },
                    ),
                )
            },
        },
    }
}

/// Finds the first `:` in a text.
fn find_colon(s: &[char]) -> (r: Option<usize>)
    ensures
        match r {
            Some(i) => colon_at(s@) == Some(i as int) && i < s@.len(),
            None => colon_at(s@) is None,
        },
{
    let mut i: usize = 0;
    while i < s.len()
        invariant
            i <= s@.len(),
            colon_at(s@.subrange(0, i as int)) is None,
        decreases s@.len() - i,
    {
        assert(s@.subrange(0, i + 1).drop_last() =~= s@.subrange(0, i as int));
        if s[i] == ':' {
            proof {
                lemma_colon_found(s@, i as int);
            }
            return Some(i);
        }
        i = i + 1;
    }
    assert(s@.subrange(0, s@.len() as int) =~= s@);
    None
}

/// The first colon in a text whose first `i` characters hold none is at
/// `i`, when there is one there.
proof fn lemma_colon_found(s: Seq<char>, i: int)
    requires
        0 <= i < s.len(),
        colon_at(s.subrange(0, i)) is None,
        s[i] == ':',
    ensures
        colon_at(s) == Some(i),
    decreases s.len(),
{
    let next = s.subrange(0, i + 1);
    assert(next.drop_last() =~= s.subrange(0, i));
    if s.len() > i + 1 {
        assert(s.drop_last().subrange(0, i) =~= s.subrange(0, i));
        lemma_colon_found(s.drop_last(), i);
    } else {
        assert(s =~= next);
    }
}

/// Splits a child row's id into its connection's id and its name.
fn split_child_id(id: &str) -> (r: Option<(Vec<char>, Vec<char>)>)
    ensures
        match child_parts(id@) {
            Some((c, n)) => r matches Some(x) && x.0@ == c && x.1@ == n,
            None => r is None,
        },
{
    let chars = chars_of(id);
    let i = match find_colon(chars.as_slice()) {
        Some(i) => i,
        None => {
            return None;
        },
    };
    let rest = crate::text::slice_range(chars.as_slice(), i + 1, chars.len());
    let j = match find_colon(rest.as_slice()) {
        Some(j) => j,
        None => {
            return None;
        },
    };
    let conn = crate::text::slice_range(chars.as_slice(), 0, i);
    let name = crate::text::slice_range(rest.as_slice(), j + 1, rest.len());
    Some((conn, name))
}

/// Finds the first broker with a name.
fn find_broker<'a>(list: &'a Vec<BrokerSummary>, name: &str) -> (r: Option<&'a BrokerSummary>)
    ensures
        match r {
            Some(b) => broker_named(list@, name@) == Some(*b),
            None => broker_named(list@, name@) is None,
        },
{
    let mut i: usize = 0;
    assert(list@.subrange(0, list@.len() as int) =~= list@);
    while i < list.len()
        invariant
            i <= list@.len(),
            broker_named(list@, name@) == broker_named(list@.subrange(i as int, list@.len() as int), name@),
        decreases list@.len() - i,
    {
        let ghost rest = list@.subrange(i as int, list@.len() as int);
        assert(rest.drop_first() =~= list@.subrange(i + 1, list@.len() as int));
        assert(rest[0] == list@[i as int]);
        if text_eq(list[i].name.as_str(), name) {
            return Some(&list[i]);
        }
        i = i + 1;
    }
    None
}

/// Finds the first topic with a name.
fn find_topic<'a>(list: &'a Vec<TopicSummary>, name: &str) -> (r: Option<&'a TopicSummary>)
    ensures
        match r {
            Some(t) => topic_named(list@, name@) == Some(*t),
            None => topic_named(list@, name@) is None,
        },
{
    let mut i: usize = 0;
    assert(list@.subrange(0, list@.len() as int) =~= list@);
    while i < list.len()
        invariant
            i <= list@.len(),
            topic_named(list@, name@) == topic_named(list@.subrange(i as int, list@.len() as int), name@),
        decreases list@.len() - i,
    {
        let ghost rest = list@.subrange(i as int, list@.len() as int);
        assert(rest.drop_first() =~= list@.subrange(i + 1, list@.len() as int));
        assert(rest[0] == list@[i as int]);
        if text_eq(list[i].name.as_str(), name) {
            return Some(&list[i]);
        }
        i = i + 1;
    }
    None
}

/// The names of the brokers of each connection.
fn broker_names(lists: &Vec<(String, Vec<BrokerSummary>)>) -> (r: Vec<(String, Vec<String>)>)
    ensures
        list_views(r@) == broker_name_lists(lists@),
{
    let mut out: Vec<(String, Vec<String>)> = Vec::new();
    let mut i: usize = 0;
    while i < lists.len()
        invariant
            i <= lists@.len(),
            list_views(out@) == broker_name_lists(lists@).subrange(0, i as int),
        decreases lists@.len() - i,
    {
        let list = &lists[i].1;
        let mut names: Vec<String> = Vec::new();
        let mut j: usize = 0;
        while j < list.len()
            invariant
                i < lists@.len(),
                list@ == lists@[i as int].1@,
                j <= list@.len(),
                string_views(names@) == Seq::new(j as nat, |k: int| list@[k].name@),
            decreases list@.len() - j,
        {
            let ghost before = names@;
            names.push(copy_string(&list[j].name));
            assert(string_views(names@) =~= string_views(before).push(list@[j as int].name@));
            assert(string_views(names@) =~= Seq::new((j + 1) as nat, |k: int| list@[k].name@));
            j = j + 1;
        }
        let ghost before = out@;
        let entry = (copy_string(&lists[i].0), names);
        out.push(entry);
        assert(list_views(out@) =~= list_views(before).push((lists@[i as int].0@, string_views(entry.1@))));
        assert(broker_name_lists(lists@)[i as int] == (lists@[i as int].0@, string_views(entry.1@)));
        assert(list_views(out@) =~= broker_name_lists(lists@).subrange(0, i + 1));
        i = i + 1;
    }
    assert(broker_name_lists(lists@).subrange(0, i as int) =~= broker_name_lists(lists@));
    out
}

/// The names of the topics of each connection.
fn topic_names(lists: &Vec<(String, Vec<TopicSummary>)>) -> (r: Vec<(String, Vec<String>)>)
    ensures
        list_views(r@) == topic_name_lists(lists@),
{
    let mut out: Vec<(String, Vec<String>)> = Vec::new();
    let mut i: usize = 0;
    while i < lists.len()
        invariant
            i <= lists@.len(),
            list_views(out@) == topic_name_lists(lists@).subrange(0, i as int),
        decreases lists@.len() - i,
    {
        let list = &lists[i].1;
        let mut names: Vec<String> = Vec::new();
        let mut j: usize = 0;
        while j < list.len()
            invariant
                i < lists@.len(),
                list@ == lists@[i as int].1@,
                j <= list@.len(),
                string_views(names@) == Seq::new(j as nat, |k: int| list@[k].name@),
            decreases list@.len() - j,
        {
            let ghost before = names@;
            names.push(copy_string(&list[j].name));
            assert(string_views(names@) =~= string_views(before).push(list@[j as int].name@));
            assert(string_views(names@) =~= Seq::new((j + 1) as nat, |k: int| list@[k].name@));
            j = j + 1;
        }
        let ghost before = out@;
        let entry = (copy_string(&lists[i].0), names);
        out.push(entry);
        assert(list_views(out@) =~= list_views(before).push((lists@[i as int].0@, string_views(entry.1@))));
        assert(topic_name_lists(lists@)[i as int] == (lists@[i as int].0@, string_views(entry.1@)));
        assert(list_views(out@) =~= topic_name_lists(lists@).subrange(0, i + 1));
        i = i + 1;
    }
    assert(topic_name_lists(lists@).subrange(0, i as int) =~= topic_name_lists(lists@));
    out
}

impl RocketmqTreeState {
    /// The invariant of the state.
    pub open spec fn wf(&self) -> bool {
        tree_wf(self@)
    }

    /// An empty tree.
    pub fn new() -> (r: Self)
        ensures
            r.wf(),
            r@.order.len() == 0,
            r@.expanded.len() == 0,
            r@.selected is None,
            r@.loading.len() == 0,
            r@.errors.len() == 0,
            r@.connected.len() == 0,
            r@.brokers.len() == 0,
            r@.topics.len() == 0,
    {
        let r = RocketmqTreeState {
            connection_order: Vec::new(),
            expanded: Vec::new(),
            selected: None,
            loading: Vec::new(),
            errors: Vec::new(),
            connected: Vec::new(),
            brokers: Vec::new(),
            topics: Vec::new(),
        };
        assert(r@.order =~= Seq::<Seq<char>>::empty());
        assert(r@.loading =~= Seq::<Seq<char>>::empty());
        assert(r@.connected =~= Seq::<Seq<char>>::empty());
        assert(r@.expanded =~= Seq::<Seq<char>>::empty());
        r
    }

    /// Lists a stored connection under its id, after those listed before;
    /// a connection without an id is left out (`false`).
    pub fn add_stored_connection(&mut self, node_id: &str) -> (r: bool)
        requires
            old(self).wf(),
        ensures
            final(self).wf(),
            r == (node_id@.len() > 0),
            r ==> final(self)@.order == with_text(old(self)@.order, node_id@),
            !r ==> final(self)@.order == old(self)@.order,
            same_but(old(self)@, final(self)@, true, false, false, false, false, false, false),
    {
        if node_id.unicode_len() == 0 {
            return false;
        }
        proof {
            if !self@.order.contains(node_id@) {
                lemma_push_no_duplicates(self@.order, node_id@);
            }
        }
        let ghost before = self@;
        insert_text(&mut self.connection_order, node_id);
        proof {
            lemma_wf_frame(before, self@);
        }
        true
    }

    /// Selects a row.
    pub fn select(&mut self, node_id: &str)
        requires
            old(self).wf(),
        ensures
            final(self).wf(),
            final(self)@.selected == Some(node_id@),
            same_but(old(self)@, final(self)@, false, false, true, false, false, false, false),
    {
        let ghost before = self@;
        self.selected = Some(crate::text::owned(node_id));
        proof {
            lemma_wf_frame(before, self@);
        }
    }

    /// Selects a listed connection, for the owner to connect it; an unlisted
    /// one is ignored (`false`).
    pub fn active_connection(&mut self, node_id: &str) -> (r: bool)
        requires
            old(self).wf(),
        ensures
            final(self).wf(),
            r == old(self)@.order.contains(node_id@),
            r ==> final(self)@.selected == Some(node_id@),
            same_but(old(self)@, final(self)@, false, false, r, false, false, false, false),
    {
        if !list_contains(&self.connection_order, node_id) {
            return false;
        }
        let ghost before = self@;
        self.selected = Some(crate::text::owned(node_id));
        proof {
            lemma_wf_frame(before, self@);
        }
        true
    }

    /// Whether a connection can start connecting; the owner then resolves
    /// its credentials.
    pub fn can_connect(&self, node_id: &str) -> (r: bool)
        ensures
            r == may_connect(self@, node_id@),
    {
        list_contains(&self.connection_order, node_id) && !list_contains(&self.connected, node_id)
            && !list_contains(&self.loading, node_id)
    }

    /// Starts connecting, given whether the credentials resolved: a failure
    /// is recorded; otherwise the connection is marked connecting, its old
    /// failure cleared, and `true` asks the owner to connect.  Nothing
    /// changes where it cannot connect now.
    pub fn start_connect(&mut self, node_id: &str, resolved: Result<(), String>) -> (r: bool)
        requires
            old(self).wf(),
        ensures
            final(self).wf(),
            !may_connect(old(self)@, node_id@) ==> !r && final(self)@ == old(self)@,
            may_connect(old(self)@, node_id@) ==> match resolved {
                Err(m) => !r && final(self)@.errors == without_key(old(self)@.errors, node_id@).push(
                    (final(self)@.errors.last().0, m),
                ) && final(self)@.errors.last().0@ == node_id@ && same_but(
                    old(self)@,
                    final(self)@,
                    false,
                    false,
                    false,
                    false,
                    true,
                    false,
                    false,
                ),
                Ok(()) => r && final(self)@.loading == with_text(old(self)@.loading, node_id@)
                    && final(self)@.errors == without_key(old(self)@.errors, node_id@) && same_but(
                    old(self)@,
                    final(self)@,
                    false,
                    false,
                    false,
                    true,
                    true,
                    false,
                    false,
                ),
            },
    {
        if !self.can_connect(node_id) {
            return false;
        }
        match resolved {
            Err(message) => {
                set_key(&mut self.errors, crate::text::owned(node_id), message);
                false
            },
            Ok(()) => {
                let ghost before = self@;
                insert_text(&mut self.loading, node_id);
                remove_key(&mut self.errors, node_id);
                proof {
                    crate::text_sets::lemma_with_text(before.loading, node_id@);
                    assert forall|x: Seq<char>| !(#[trigger] self@.loading.contains(x) && self@.connected.contains(x)) by {
                        if x != node_id@ {
                            assert(self@.loading.contains(x) == before.loading.contains(x));
                        }
                    }
                }
                true
            },
        }
    }

    /// Records how a connection attempt ended: on success the connection is
    /// connected and expanded, and `true` asks the owner to announce it and
    /// load its metadata; on failure its message is kept.  Either way it is
    /// no longer connecting.
    pub fn finish_connect(&mut self, node_id: &str, result: Result<(), String>) -> (r: bool)
        requires
            old(self).wf(),
        ensures
            final(self).wf(),
            final(self)@.loading == without_text(old(self)@.loading, node_id@),
            match result {
                Ok(()) => r && final(self)@.connected == with_text(old(self)@.connected, node_id@)
                    && final(self)@.expanded == with_text(old(self)@.expanded, node_id@) && same_but(
                    old(self)@,
                    final(self)@,
                    false,
                    true,
                    false,
                    true,
                    false,
                    true,
                    false,
                ),
                Err(m) => !r && final(self)@.errors == without_key(old(self)@.errors, node_id@).push(
                    (final(self)@.errors.last().0, m),
                ) && final(self)@.errors.last().0@ == node_id@ && same_but(
                    old(self)@,
                    final(self)@,
                    false,
                    false,
                    false,
                    true,
                    true,
                    false,
                    false,
                ),
            },
    {
        let ghost before = self@;
        remove_text(&mut self.loading, node_id);
        proof {
            crate::text_sets::lemma_without_text(before.loading, node_id@);
        }
        match result {
            Ok(()) => {
                insert_text(&mut self.connected, node_id);
                insert_text(&mut self.expanded, node_id);
                proof {
                    crate::text_sets::lemma_with_text(before.connected, node_id@);
                    assert forall|x: Seq<char>| !(#[trigger] self@.loading.contains(x) && self@.connected.contains(x)) by {
                        if x != node_id@ {
                            assert(self@.loading.contains(x) == before.loading.contains(x));
                            assert(self@.connected.contains(x) == before.connected.contains(x));
                        }
                    }
                }
                true
            },
            Err(message) => {
                set_key(&mut self.errors, crate::text::owned(node_id), message);
                proof {
                    assert forall|x: Seq<char>| !(#[trigger] self@.loading.contains(x) && self@.connected.contains(x)) by {
                        if x != node_id@ {
                            assert(self@.loading.contains(x) == before.loading.contains(x));
                        }
                    }
                }
                false
            },
        }
    }

    /// Records the brokers and topics loaded for a connection.
    pub fn load_cluster_metadata(&mut self, node_id: &str, brokers: Vec<BrokerSummary>, topics: Vec<TopicSummary>)
        requires
            old(self).wf(),
        ensures
            final(self).wf(),
            final(self)@.brokers == without_key(old(self)@.brokers, node_id@).push(
                (final(self)@.brokers.last().0, brokers),
            ),
            final(self)@.brokers.last().0@ == node_id@,
            final(self)@.topics == without_key(old(self)@.topics, node_id@).push(
                (final(self)@.topics.last().0, topics),
            ),
            final(self)@.topics.last().0@ == node_id@,
            same_but(old(self)@, final(self)@, false, false, false, false, false, false, true),
    {
        let ghost before = self@;
        set_key(&mut self.brokers, crate::text::owned(node_id), brokers);
        set_key(&mut self.topics, crate::text::owned(node_id), topics);
        proof {
            lemma_wf_frame(before, self@);
        }
    }

    /// Forgets all state of a removed connection but its place in the list:
    /// it is no longer connected, connecting, failed or expanded, and its
    /// metadata is dropped.
    pub fn on_connection_removed(&mut self, node_id: &str)
        requires
            old(self).wf(),
        ensures
            final(self).wf(),
            final(self)@.connected == without_text(old(self)@.connected, node_id@),
            final(self)@.loading == without_text(old(self)@.loading, node_id@),
            final(self)@.expanded == without_text(old(self)@.expanded, node_id@),
            final(self)@.errors == without_key(old(self)@.errors, node_id@),
            final(self)@.brokers == without_key(old(self)@.brokers, node_id@),
            final(self)@.topics == without_key(old(self)@.topics, node_id@),
            final(self)@.order == old(self)@.order,
            final(self)@.selected == old(self)@.selected,
    {
        let ghost before = self@;
        remove_text(&mut self.connected, node_id);
        remove_text(&mut self.loading, node_id);
        remove_key(&mut self.errors, node_id);
        remove_key(&mut self.brokers, node_id);
        remove_key(&mut self.topics, node_id);
        remove_text(&mut self.expanded, node_id);
        proof {
            crate::text_sets::lemma_without_text(before.connected, node_id@);
            crate::text_sets::lemma_without_text(before.loading, node_id@);
            assert forall|x: Seq<char>| !(#[trigger] self@.loading.contains(x) && self@.connected.contains(x)) by {
                if x != node_id@ {
                    assert(self@.loading.contains(x) == before.loading.contains(x));
                    assert(self@.connected.contains(x) == before.connected.contains(x));
                }
            }
        }
    }

    /// Expands a collapsed node, or collapses an expanded one.
    pub fn toggle_node(&mut self, node_id: &str)
        requires
            old(self).wf(),
        ensures
            final(self).wf(),
            final(self)@.expanded == toggled(old(self)@.expanded, node_id@),
            same_but(old(self)@, final(self)@, false, true, false, false, false, false, false),
    {
        let ghost before = self@;
        toggle_text(&mut self.expanded, node_id);
        proof {
            lemma_wf_frame(before, self@);
        }
    }

    /// Clears a connection's failure, for the retry button before it
    /// connects again.
    pub fn clear_error(&mut self, node_id: &str)
        requires
            old(self).wf(),
        ensures
            final(self).wf(),
            final(self)@.errors == without_key(old(self)@.errors, node_id@),
            same_but(old(self)@, final(self)@, false, false, false, false, true, false, false),
    {
        let ghost before = self@;
        remove_key(&mut self.errors, node_id);
        proof {
            lemma_wf_frame(before, self@);
        }
    }

    /// What a double click on a connection row asks for: a failed
    /// connection has its failure cleared and connects again; a connected
    /// one asks to disconnect; any other connects.
    pub fn handle_double_click(&mut self, node_id: &str) -> (r: TreeClick)
        requires
            old(self).wf(),
        ensures
            final(self).wf(),
            value_of(old(self)@.errors, node_id@) is Some ==> r == TreeClick::Connect && final(self)@.errors
                == without_key(old(self)@.errors, node_id@) && same_but(
                old(self)@,
                final(self)@,
                false,
                false,
                false,
                false,
                true,
                false,
                false,
            ),
            value_of(old(self)@.errors, node_id@) is None ==> final(self)@ == old(self)@ && (r
                == TreeClick::ConfirmDisconnect <==> old(self)@.connected.contains(node_id@)),
    {
        if find_key(&self.errors, node_id).is_some() {
            let ghost before = self@;
            remove_key(&mut self.errors, node_id);
            proof {
                lemma_wf_frame(before, self@);
            }
            return TreeClick::Connect;
        }
        if list_contains(&self.connected, node_id) {
            TreeClick::ConfirmDisconnect
        } else {
            TreeClick::Connect
        }
    }

    /// Whether a connection is connected.
    pub fn is_connected(&self, node_id: &str) -> (r: bool)
        ensures
            r == self@.connected.contains(node_id@),
    {
        list_contains(&self.connected, node_id)
    }

    /// The connected connections, whose metadata a refresh reloads.
    pub fn connected_nodes(&self) -> (r: Vec<String>)
        ensures
            string_views(r@) == self@.connected,
    {
        let mut out: Vec<String> = Vec::new();
        let mut i: usize = 0;
        while i < self.connected.len()
            invariant
                i <= self.connected@.len(),
                string_views(out@) == string_views(self.connected@).subrange(0, i as int),
            decreases self.connected@.len() - i,
        {
            let ghost before = out@;
            out.push(copy_string(&self.connected[i]));
            assert(string_views(out@) =~= string_views(before).push(self.connected@[i as int]@));
            assert(string_views(out@) =~= string_views(self.connected@).subrange(0, i + 1));
            i = i + 1;
        }
        assert(string_views(self.connected@).subrange(0, i as int) =~= string_views(self.connected@));
        out
    }
}

/// A connection that has been removed leaves nothing behind but its place
/// in the list: it is not connected, connecting or failed, has no metadata
/// and is collapsed.
pub proof fn law_removal_leaves_nothing_behind(v: TreeStateView, id: Seq<char>)
    ensures
        !without_text(v.connected, id).contains(id),
        !without_text(v.loading, id).contains(id),
        !without_text(v.expanded, id).contains(id),
        value_of(without_key(v.errors, id), id) is None,
        value_of(without_key(v.brokers, id), id) is None,
        value_of(without_key(v.topics, id), id) is None,
{
    crate::text_sets::lemma_without_text(v.connected, id);
    crate::text_sets::lemma_without_text(v.loading, id);
    crate::text_sets::lemma_without_text(v.expanded, id);
    crate::text_sets::lemma_without_key_lookup(v.errors, id, id);
    crate::text_sets::lemma_without_key_lookup(v.brokers, id, id);
    crate::text_sets::lemma_without_key_lookup(v.topics, id, id);
}

/// A connection that connected is connected, expanded and no longer
/// connecting.
pub proof fn law_success_connects_and_expands(v: TreeStateView, id: Seq<char>)
    ensures
        with_text(v.connected, id).contains(id),
        with_text(v.expanded, id).contains(id),
        !without_text(v.loading, id).contains(id),
{
    crate::text_sets::lemma_with_text(v.connected, id);
    crate::text_sets::lemma_with_text(v.expanded, id);
    crate::text_sets::lemma_without_text(v.loading, id);
}

/// A connection that started connecting cannot start again until its
/// attempt ends.
pub proof fn law_one_attempt_at_a_time(v: TreeStateView, w: TreeStateView, id: Seq<char>)
    requires
        w.loading == with_text(v.loading, id),
    ensures
        !may_connect(w, id),
{
    crate::text_sets::lemma_with_text(v.loading, id);
}

impl RocketmqTreeState {
    /// The rows of the tree: each connection in order, and under an expanded
    /// one its brokers, then its topics.
    pub fn rebuild_flat_entries(&self) -> (r: Vec<FlatEntry>)
        ensures
            entry_views(r@) == flat_rows(
                self@.order,
                broker_name_lists(self@.brokers),
                topic_name_lists(self@.topics),
                self@.expanded,
            ),
    {
        let brokers = broker_names(&self.brokers);
        let topics = topic_names(&self.topics);
        build_flat_entries(&self.connection_order, &brokers, &topics, &self.expanded)
    }

    /// What the row of a connection shows.
    pub fn connection_row(&self, node_id: &str) -> (r: ConnectionRow)
        ensures
            r.selected == (self@.selected == Some(node_id@)),
            r.loading == self@.loading.contains(node_id@),
            r.connected == self@.connected.contains(node_id@),
            r.expanded == self@.expanded.contains(node_id@),
            match r.error {
                Some(e) => !r.loading && (value_of(self@.errors, node_id@) matches Some(m) && m@ == e@),
                None => r.loading || value_of(self@.errors, node_id@) is None,
            },
            r.broker_count as nat == count_of(self@.brokers, node_id@),
            r.topic_count as nat == count_of(self@.topics, node_id@),
            r.has_children == (r.connected && r.broker_count + r.topic_count > 0),
    {
        let selected = match &self.selected {
            Some(s) => text_eq(s.as_str(), node_id),
            None => false,
        };
        let loading = list_contains(&self.loading, node_id);
        let error = if loading {
            None
        } else {
            match find_key(&self.errors, node_id) {
                Some(i) => Some(copy_string(&self.errors[i].1)),
                None => None,
            }
        };
        let connected = list_contains(&self.connected, node_id);
        let broker_count = match find_key(&self.brokers, node_id) {
            Some(i) => self.brokers[i].1.len(),
            None => 0,
        };
        let topic_count = match find_key(&self.topics, node_id) {
            Some(i) => self.topics[i].1.len(),
            None => 0,
        };
        let expanded = list_contains(&self.expanded, node_id);
        ConnectionRow {
            selected,
            loading,
            error,
            connected,
            broker_count,
            topic_count,
            has_children: connected && (broker_count > 0 || topic_count > 0),
            expanded,
        }
    }

    /// What the row of a broker or topic shows, from its id; `None` for an
    /// id not of the form `connection:kind:name`, or for a connection row.
    pub fn child_row(&self, node_id: &str, kind: FlatEntryKind) -> (r: Option<ChildRow>)
        ensures
            match child_view(self@, node_id@, kind) {
                Some((c, l, b)) => r matches Some(x) && x.connection_id@ == c && x.label@ == l && x.badge@ == b,
                None => r is None,
            },
    {
        let (conn, name) = match split_child_id(node_id) {
            Some(parts) => parts,
            None => {
                return None;
            },
        };
        let connection_id = string_of(conn.as_slice());
        let name_text = string_of(name.as_slice());
        match kind {
            FlatEntryKind::Connection => None,
            FlatEntryKind::Broker => {
                let found = match find_key(&self.brokers, connection_id.as_str()) {
                    Some(i) => find_broker(&self.brokers[i].1, name_text.as_str()),
                    None => None,
                };
                match found {
                    Some(b) => {
                        let mut label: Vec<char> = chars_of(b.name.as_str());
                        push_str(&mut label, " (");
                        push_str(&mut label, b.address.as_str());
                        push_str(&mut label, ")");
                        let badge = match &b.version {
                            Some(v) => copy_string(v),
                            None => String::new(),
                        };
                        Some(ChildRow { connection_id, label: string_of(label.as_slice()), badge })
                    },
                    None => Some(ChildRow { connection_id, label: name_text, badge: String::new() }),
                }
            },
            FlatEntryKind::Topic => {
                let found = match find_key(&self.topics, connection_id.as_str()) {
                    Some(i) => find_topic(&self.topics[i].1, name_text.as_str()),
                    None => None,
                };
                let badge = match found {
                    Some(t) => match t.queue_count {
                        Some(c) => {
                            let mut text: Vec<char> = Vec::new();
                            push_decimal(&mut text, c as u64);
                            text.push('Q');
                            proof {
                                reveal_strlit("Q");
                                assert(text@ =~= decimal(c as nat) + "Q"@);
                            }
                            string_of(text.as_slice())
                        },
                        None => String::new(),
                    },
                    None => String::new(),
                };
                Some(ChildRow { connection_id, label: name_text, badge })
            },
        }
    }
}

} // verus!
