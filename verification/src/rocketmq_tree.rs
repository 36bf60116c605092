//! The RocketMQ connection tree, flattened into the rows it shows:
//! connections, and under an expanded connection its brokers and topics.
use vstd::prelude::*;
use crate::host_patterns::string_views;
use crate::text::{chars_of, copy_string, string_of, text_eq};
use crate::text_build::push_chars;

verus! {

/// What the tree view tells its owner.
#[derive(Clone, Debug)]
pub enum RocketmqTreeViewEvent {
    ConnectionEstablished { connection_id: String },
    ConnectionClosed { connection_id: String },
}

/// The kind of a tree row.
#[derive(Clone, Copy, PartialEq, Eq, Debug, Structural)]
pub enum FlatEntryKind {
    Connection,
    Broker,
    Topic,
}

/// One row of the flattened tree.
#[derive(Clone, Debug)]
pub struct FlatEntry {
    pub node_id: String,
    pub depth: usize,
    pub kind: FlatEntryKind,
}

/// The mathematical value of a row.
pub struct FlatEntryView {
    pub node_id: Seq<char>,
    pub depth: nat,
    pub kind: FlatEntryKind,
}

/// The view of a row.
pub open spec fn entry_view(e: FlatEntry) -> FlatEntryView {
    FlatEntryView { node_id: e.node_id@, depth: e.depth as nat, kind: e.kind }
}

/// The views of rows.
pub open spec fn entry_views(v: Seq<FlatEntry>) -> Seq<FlatEntryView> {
    Seq::new(v.len(), |i: int| entry_view(v[i]))
}

/// The names listed for a connection: those of the first entry with its
/// id, none when there is no such entry.
pub open spec fn names_for(lists: Seq<(Seq<char>, Seq<Seq<char>>)>, id: Seq<char>) -> Seq<Seq<char>>
    decreases lists.len(),
{
    if lists.len() == 0 {
        Seq::empty()
    } else if lists[0].0 == id {
        lists[0].1
    } else {
        names_for(lists.drop_first(), id)
    }
}

/// Named lists as text.
pub open spec fn list_views(lists: Seq<(String, Vec<String>)>) -> Seq<(Seq<char>, Seq<Seq<char>>)> {
    Seq::new(lists.len(), |i: int| (lists[i].0@, string_views(lists[i].1@)))
}

/// The rows of the children of a connection, of one kind: the id of each
/// is the connection's id, the kind's infix and the child's name.
pub open spec fn child_rows(id: Seq<char>, infix: Seq<char>, kind: FlatEntryKind, names: Seq<Seq<char>>) -> Seq<
    FlatEntryView,
> {
    Seq::new(names.len(), |i: int| FlatEntryView { node_id: id + infix + names[i], depth: 1, kind })
}

/// The rows of one connection: the connection, then, when it is expanded,
/// its brokers and its topics.
pub open spec fn connection_rows(
    id: Seq<char>,
    brokers: Seq<(Seq<char>, Seq<Seq<char>>)>,
    topics: Seq<(Seq<char>, Seq<Seq<char>>)>,
    expanded: Seq<Seq<char>>,
) -> Seq<FlatEntryView> {
    seq![FlatEntryView { node_id: id, depth: 0, kind: FlatEntryKind::Connection }] + if expanded.contains(
        id,
    ) {
        child_rows(id, ":broker:"@, FlatEntryKind::Broker, names_for(brokers, id)) + child_rows(
            id,
            ":topic:"@,
            FlatEntryKind::Topic,
            names_for(topics, id),
        )
    } else {
        Seq::empty()
    }
}

/// The rows of the connections in order.
pub open spec fn flat_rows(
    order: Seq<Seq<char>>,
    brokers: Seq<(Seq<char>, Seq<Seq<char>>)>,
    topics: Seq<(Seq<char>, Seq<Seq<char>>)>,
    expanded: Seq<Seq<char>>,
) -> Seq<FlatEntryView>
    decreases order.len(),
{
    if order.len() == 0 {
        Seq::empty()
    } else {
        flat_rows(order.drop_last(), brokers, topics, expanded) + connection_rows(
            order.last(),
            brokers,
            topics,
            expanded,
        )
    }
}

/// Whether a connection is expanded.
fn is_expanded(expanded: &Vec<String>, id: &String) -> (r: bool)
    ensures
        r == string_views(expanded@).contains(id@),
{
    let ghost views = string_views(expanded@);
    let mut i: usize = 0;
    while i < expanded.len()
        invariant
            i <= expanded@.len(),
            views == string_views(expanded@),
            forall|k: int| 0 <= k < i ==> views[k] != id@,
        decreases expanded.len() - i,
    {
        if text_eq(expanded[i].as_str(), id.as_str()) {
            assert(views[i as int] == id@);
            return true;
        }
        i = i + 1;
    }
    false
}

/// The names listed for a connection.
fn names_of<'a>(lists: &'a Vec<(String, Vec<String>)>, id: &String) -> (r: Option<&'a Vec<String>>)
    ensures
        match r {
            Some(v) => string_views(v@) == names_for(list_views(lists@), id@),
            None => names_for(list_views(lists@), id@) == Seq::<Seq<char>>::empty(),
        },
{
    let ghost views = list_views(lists@);
    let mut i: usize = 0;
    assert(views.subrange(0, views.len() as int) =~= views);
    while i < lists.len()
        invariant
            i <= lists@.len(),
            views == list_views(lists@),
            names_for(views, id@) == names_for(views.subrange(i as int, views.len() as int), id@),
        decreases lists.len() - i,
    {
        let ghost rest = views.subrange(i as int, views.len() as int);
        assert(rest[0] == views[i as int]);
        assert(rest.drop_first() =~= views.subrange(i + 1, views.len() as int));
        if text_eq(lists[i].0.as_str(), id.as_str()) {
            return Some(&lists[i].1);
        }
        i = i + 1;
    }
    assert(views.subrange(i as int, views.len() as int) =~= Seq::<(Seq<char>, Seq<Seq<char>>)>::empty());
    None
}

/// Appends the rows of children of one kind.
fn push_children(
    entries: &mut Vec<FlatEntry>,
    id: &String,
    infix: &str,
    kind: FlatEntryKind,
    names: &Vec<String>,
)
    ensures
        entry_views(final(entries)@) == entry_views(old(entries)@) + child_rows(
            id@,
            infix@,
            kind,
            string_views(names@),
        ),
{
    let ghost start = entry_views(entries@);
    let ghost rows = child_rows(id@, infix@, kind, string_views(names@));
    let mut i: usize = 0;
    while i < names.len()
        invariant
            i <= names@.len(),
            rows == child_rows(id@, infix@, kind, string_views(names@)),
            entry_views(entries@) == start + rows.subrange(0, i as int),
        decreases names.len() - i,
    {
        let mut text = chars_of(id.as_str());
        let infix_chars = chars_of(infix);
        push_chars(&mut text, infix_chars.as_slice());
        let name = chars_of(names[i].as_str());
        push_chars(&mut text, name.as_slice());
        let ghost before = entry_views(entries@);
        entries.push(FlatEntry { node_id: string_of(text.as_slice()), depth: 1, kind });
        assert(entry_views(entries@) =~= before.push(rows[i as int]));
        assert(rows.subrange(0, i + 1) =~= rows.subrange(0, i as int).push(rows[i as int]));
        i = i + 1;
    }
    assert(rows.subrange(0, names@.len() as int) =~= rows);
}

/// The rows of the tree: each connection in order, and under an expanded
/// connection its brokers, then its topics.
pub fn build_flat_entries(
    connection_order: &Vec<String>,
    brokers: &Vec<(String, Vec<String>)>,
    topics: &Vec<(String, Vec<String>)>,
    expanded_nodes: &Vec<String>,
) -> (r: Vec<FlatEntry>)
    ensures
        entry_views(r@) == flat_rows(
            string_views(connection_order@),
            list_views(brokers@),
            list_views(topics@),
            string_views(expanded_nodes@),
        ),
{
    let ghost order = string_views(connection_order@);
    let ghost bv = list_views(brokers@);
    let ghost tv = list_views(topics@);
    let ghost ev = string_views(expanded_nodes@);
    let mut entries: Vec<FlatEntry> = Vec::new();
    let mut k: usize = 0;
    assert(order.subrange(0, 0) =~= Seq::<Seq<char>>::empty());
    assert(entry_views(entries@) =~= Seq::<FlatEntryView>::empty());
    while k < connection_order.len()
        invariant
            k <= connection_order@.len(),
            order == string_views(connection_order@),
            bv == list_views(brokers@),
            tv == list_views(topics@),
            ev == string_views(expanded_nodes@),
            entry_views(entries@) == flat_rows(order.subrange(0, k as int), bv, tv, ev),
        decreases connection_order.len() - k,
    {
        let id = &connection_order[k];
        let ghost before = entry_views(entries@);
        let ghost next = order.subrange(0, k + 1);
        assert(next.drop_last() =~= order.subrange(0, k as int));
        assert(next.last() == id@);
        entries.push(FlatEntry { node_id: copy_string(id), depth: 0, kind: FlatEntryKind::Connection });
        assert(entry_views(entries@) =~= before + seq![
            FlatEntryView { node_id: id@, depth: 0, kind: FlatEntryKind::Connection },
        ]);
        if is_expanded(expanded_nodes, id) {
            let ghost mid = entry_views(entries@);
            match names_of(brokers, id) {
                Some(names) => push_children(&mut entries, id, ":broker:", FlatEntryKind::Broker, names),
                None => {
                    assert(child_rows(id@, ":broker:"@, FlatEntryKind::Broker, names_for(bv, id@))
                        =~= Seq::<FlatEntryView>::empty());
                },
            }
            let ghost mid2 = entry_views(entries@);
            match names_of(topics, id) {
                Some(names) => push_children(&mut entries, id, ":topic:", FlatEntryKind::Topic, names),
                None => {
                    assert(child_rows(id@, ":topic:"@, FlatEntryKind::Topic, names_for(tv, id@))
                        =~= Seq::<FlatEntryView>::empty());
                },
            }
            assert(entry_views(entries@) =~= before + connection_rows(id@, bv, tv, ev));
        } else {
            assert(entry_views(entries@) =~= before + connection_rows(id@, bv, tv, ev));
        }
        k = k + 1;
    }
    assert(order.subrange(0, connection_order@.len() as int) =~= order);
    entries
}

} // verus!
