//! The RocketMQ tab: which stored connection it shows and is named after,
//! which connections have their management tabs open, and which
//! connections it closes.
use vstd::prelude::*;
use crate::host_patterns::string_views;
use crate::middleware_pages::{page_suffix, tab_id, MiddlewarePageKind};
use crate::rocketmq_form::{signed_decimal, signed_decimal_string};
use crate::text::{copy_string, owned};
use crate::text_sets::{insert_text, list_contains, remove_text, with_text, without_text};

verus! {

/// What the tab reads of a stored connection.
#[derive(Debug, Clone, PartialEq, Eq)]
pub struct ConnectionEntry {
    pub id: Option<i64>,
    pub name: String,
}

/// The index of the first connection with this id.
pub open spec fn entry_index(connections: Seq<ConnectionEntry>, id: Option<i64>) -> Option<int>
    decreases connections.len(),
{
    if connections.len() == 0 {
        None
    } else {
        match entry_index(connections.drop_last(), id) {
            Some(i) => Some(i),
            None => if connections.last().id == id {
                Some(connections.len() - 1)
            } else {
                None
            },
        }
    }
}

/// The connection shown: the one with the active id, else the first.
pub open spec fn shown_index(connections: Seq<ConnectionEntry>, active: Option<i64>) -> Option<int> {
    match active {
        Some(a) => match entry_index(connections, Some(a)) {
            Some(i) => Some(i),
            None => if connections.len() > 0 {
                Some(0)
            } else {
                None
            },
        },
        None => if connections.len() > 0 {
            Some(0)
        } else {
            None
        },
    }
}

/// The active id a tab opens with: the requested one; without one, the id
/// of the first connection that has no id either, else of the first
/// connection.
pub open spec fn opening_id(connections: Seq<ConnectionEntry>, requested: Option<i64>) -> Option<i64> {
    match requested {
        Some(a) => Some(a),
        None => match entry_index(connections, None) {
            Some(i) => connections[i].id,
            None => if connections.len() > 0 {
                connections[0].id
            } else {
                None
            },
        },
    }
}

/// Finds the first connection with an id.
fn find_entry(connections: &Vec<ConnectionEntry>, id: Option<i64>) -> (r: Option<usize>)
    ensures
        match r {
            Some(i) => entry_index(connections@, id) == Some(i as int) && i < connections@.len(),
            None => entry_index(connections@, id) is None,
        },
{
    let mut i: usize = 0;
    while i < connections.len()
        invariant
            i <= connections@.len(),
            entry_index(connections@.subrange(0, i as int), id) is None,
        decreases connections@.len() - i,
    {
        assert(connections@.subrange(0, i + 1).drop_last() =~= connections@.subrange(0, i as int));
        if connections[i].id == id {
            proof {
                lemma_entry_found(connections@, id, i as int);
            }
            return Some(i);
        }
        i = i + 1;
    }
    assert(connections@.subrange(0, connections@.len() as int) =~= connections@);
    None
}

/// The first connection with an id, when the first `i` have another.
proof fn lemma_entry_found(connections: Seq<ConnectionEntry>, id: Option<i64>, i: int)
    requires
        0 <= i < connections.len(),
        entry_index(connections.subrange(0, i), id) is None,
        connections[i].id == id,
    ensures
        entry_index(connections, id) == Some(i),
    decreases connections.len(),
{
    let next = connections.subrange(0, i + 1);
    assert(next.drop_last() =~= connections.subrange(0, i));
    if connections.len() > i + 1 {
        assert(connections.drop_last().subrange(0, i) =~= connections.subrange(0, i));
        lemma_entry_found(connections.drop_last(), id, i);
    } else {
        assert(connections =~= next);
    }
}

/// The active id a tab opens with.
pub fn initial_active_id(connections: &Vec<ConnectionEntry>, requested: Option<i64>) -> (r: Option<i64>)
    ensures
        r == opening_id(connections@, requested),
{
    match requested {
        Some(a) => Some(a),
        None => match find_entry(connections, None) {
            Some(i) => connections[i].id,
            None => if connections.len() > 0 {
                connections[0].id
            } else {
                None
            },
        },
    }
}

/// The connection the tab shows.
pub fn active_connection_index(connections: &Vec<ConnectionEntry>, active: Option<i64>) -> (r: Option<usize>)
    ensures
        match r {
            Some(k) => shown_index(connections@, active) == Some(k as int) && k < connections@.len(),
            None => shown_index(connections@, active) is None,
        },
{
    match active {
        Some(a) => match find_entry(connections, Some(a)) {
            Some(i) => Some(i),
            None => if connections.len() > 0 {
                Some(0)
            } else {
                None
            },
        },
        None => if connections.len() > 0 {
            Some(0)
        } else {
            None
        },
    }
}

/// The tab's title: the workspace's name; without a workspace, the name of
/// the connection shown, or `RocketMQ`.
pub open spec fn title_of(workspace: Option<Seq<char>>, connections: Seq<ConnectionEntry>, active: Option<i64>) -> Seq<
    char,
> {
    match workspace {
        Some(w) => w,
        None => match shown_index(connections, active) {
            Some(i) => connections[i].name@,
            None => "RocketMQ"@,
        },
    }
}

/// The tab's title.
pub fn tab_title(workspace_name: Option<&str>, connections: &Vec<ConnectionEntry>, active: Option<i64>) -> (r: String)
    ensures
        r@ == title_of(
            match workspace_name {
                Some(w) => Some(w@),
                None => None,
            },
            connections@,
            active,
        ),
{
    match workspace_name {
        Some(w) => owned(w),
        None => match active_connection_index(connections, active) {
            Some(i) => copy_string(&connections[i].name),
            None => owned("RocketMQ"),
        },
    }
}

/// The tab ids of a connection's management pages.
pub open spec fn management_tab_ids(conn_id: Seq<char>) -> Seq<Seq<char>> {
    seq![
        conn_id + page_suffix(MiddlewarePageKind::Overview),
        conn_id + page_suffix(MiddlewarePageKind::Topics),
        conn_id + page_suffix(MiddlewarePageKind::Groups),
        conn_id + page_suffix(MiddlewarePageKind::Messages),
    ]
}

/// The connections whose management tabs are open.
pub struct ManagementTabs {
    connections: Vec<String>,
}

impl View for ManagementTabs {
    type V = Seq<Seq<char>>;

    closed spec fn view(&self) -> Seq<Seq<char>> {
        string_views(self.connections@)
    }
}

impl ManagementTabs {
    /// No management tabs open.
    pub fn new() -> (r: Self)
        ensures
            r@.len() == 0,
    {
        let r = ManagementTabs { connections: Vec::new() };
        assert(r@ =~= Seq::<Seq<char>>::empty());
        r
    }

    /// Whether a connection's tabs are to be added now: it has an id, and
    /// its tabs are not open yet.
    pub fn should_add(&self, conn_id: &str) -> (r: bool)
        ensures
            r == (conn_id@.len() > 0 && !self@.contains(conn_id@)),
    {
        conn_id.unicode_len() > 0 && !list_contains(&self.connections, conn_id)
    }

    /// Records that a connection's tabs were added.
    pub fn added(&mut self, conn_id: &str)
        ensures
            final(self)@ == with_text(old(self)@, conn_id@),
    {
        insert_text(&mut self.connections, conn_id);
    }

    /// Forgets a connection's tabs, and returns the ids of the tabs to
    /// close; `None` where they were not open.
    pub fn remove(&mut self, conn_id: &str) -> (r: Option<Vec<String>>)
        ensures
            final(self)@ == without_text(old(self)@, conn_id@),
            old(self)@.contains(conn_id@) ==> (r matches Some(ids) && string_views(ids@) == management_tab_ids(
                conn_id@,
            )),
            !old(self)@.contains(conn_id@) ==> r is None,
    {
        let present = list_contains(&self.connections, conn_id);
        remove_text(&mut self.connections, conn_id);
        if !present {
            return None;
        }
        let mut ids: Vec<String> = Vec::new();
        ids.push(tab_id(conn_id, MiddlewarePageKind::Overview));
        ids.push(tab_id(conn_id, MiddlewarePageKind::Topics));
        ids.push(tab_id(conn_id, MiddlewarePageKind::Groups));
        ids.push(tab_id(conn_id, MiddlewarePageKind::Messages));
        assert(string_views(ids@) =~= management_tab_ids(conn_id@));
        Some(ids)
    }
}

/// The connection ids a closing tab shuts down: those of its connections
/// that have an id, in decimal.
pub open spec fn closing_ids(connections: Seq<ConnectionEntry>) -> Seq<Seq<char>>
    decreases connections.len(),
{
    if connections.len() == 0 {
        Seq::empty()
    } else {
        let before = closing_ids(connections.drop_last());
        match connections.last().id {
            Some(id) => before.push(signed_decimal(id as int)),
            None => before,
        }
    }
}

/// The connection ids to shut down when the tab closes.
pub fn connection_ids_to_close(connections: &Vec<ConnectionEntry>) -> (r: Vec<String>)
    ensures
        string_views(r@) == closing_ids(connections@),
{
    let mut ids: Vec<String> = Vec::new();
    let mut i: usize = 0;
    while i < connections.len()
        invariant
            i <= connections@.len(),
            string_views(ids@) == closing_ids(connections@.subrange(0, i as int)),
        decreases connections@.len() - i,
    {
        assert(connections@.subrange(0, i + 1).drop_last() =~= connections@.subrange(0, i as int));
        match connections[i].id {
            Some(id) => {
                let ghost before = ids@;
                ids.push(signed_decimal_string(id));
                assert(string_views(ids@) =~= string_views(before).push(signed_decimal(id as int)));
            },
            None => {},
        }
        i = i + 1;
    }
    assert(connections@.subrange(0, connections@.len() as int) =~= connections@);
    ids
}

/// A connection's management tabs are added once: after they are added
/// they are not added again, and after they are removed they can be.
pub proof fn law_tabs_are_added_once(open: Seq<Seq<char>>, conn_id: Seq<char>)
    ensures
        with_text(open, conn_id).contains(conn_id),
        !without_text(with_text(open, conn_id), conn_id).contains(conn_id),
{
    crate::text_sets::lemma_with_text(open, conn_id);
    crate::text_sets::lemma_without_text(with_text(open, conn_id), conn_id);
}

} // verus!
