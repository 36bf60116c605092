//! The navigation tree of a resource workbench: static roots and children
//! to any depth, loaded lazily from a provider or given by the manifest.
//!
//! A node is found by its key: a root's id, then for each level the
//! separator and the row's key.  What is expanded and what was loaded are
//! kept apart: collapsing hides children without dropping them, and each
//! load of a node's children carries a generation, so that a late answer
//! to an older load is dropped.
use vstd::prelude::*;
use crate::json_value::{json_clone, json_view, JsonValue, JsonView};
use crate::resource_nav::{child_node_key, KEY_SEP};
use crate::route_binding::WorkbenchOpen;
use crate::text::{chars_of, copy_string, owned, string_of, text_eq};
use crate::text::trim;
use crate::text_sets::{lemma_with_text_superset, lemma_without_text, lemma_without_text_len, find_key, insert_text, list_contains, remove_text, set_key, value_of, with_text, without_key, without_text};
use crate::host_patterns::string_views;

verus! {

/// A child that a manifest declares for a tree node.
#[derive(Debug)]
pub struct StaticTreeItem {
    pub id: String,
    pub title: String,
    /// Where the item opens: an index into the manifest's open declarations.
    pub open: usize,
    /// Its own children: an index into the manifest's children declarations.
    pub children: Option<usize>,
}

/// How a node gets its children.
#[derive(Debug)]
pub struct TreeChildrenDecl {
    /// Loaded from a provider (`remote`), else given by `items`.
    pub remote: bool,
    /// The provider operation of remote children.
    pub operation: Option<String>,
    /// Where each remote child opens.
    pub open: Option<usize>,
    /// The children of each remote child.
    pub children: Option<usize>,
    /// The static children.
    pub items: Vec<StaticTreeItem>,
}

/// A root of the tree.
#[derive(Debug)]
pub struct TreeRootDecl {
    pub id: String,
    pub page_id: String,
    pub title: String,
    pub children: Option<usize>,
}

/// The tree part of a workbench manifest; declarations refer to each other
/// by index.
#[derive(Debug)]
pub struct TreeManifest {
    pub roots: Vec<TreeRootDecl>,
    pub decls: Vec<TreeChildrenDecl>,
    pub opens: Vec<WorkbenchOpen>,
}

/// A loaded child row.
#[derive(Debug)]
pub struct TreeRow {
    pub key: String,
    pub label: String,
    /// The row's data; for a static item, `{"id": ..}`.
    pub value: JsonValue,
    pub open: Option<usize>,
    pub children: Option<usize>,
}

/// What is known of a node's children.
#[derive(Debug)]
pub enum TreeChildrenState {
    Loading,
    Loaded(Vec<TreeRow>),
    Failed(String),
}

/// A node found by its key.
#[derive(Debug)]
pub struct TreeNodeRef {
    pub key: String,
    pub root_page_id: String,
    /// The node's row; null for a root.
    pub row: JsonValue,
    pub children: Option<usize>,
    pub open: Option<usize>,
    /// The parent's row; null for a root and its children.
    pub parent_row: JsonValue,
}

/// The mathematical value of a node.
pub struct NodeView {
    pub key: Seq<char>,
    pub root_page_id: Seq<char>,
    pub row: JsonView,
    pub children: Option<usize>,
    pub open: Option<usize>,
    pub parent_row: JsonView,
}

/// The view of a node.
pub open spec fn node_view(n: TreeNodeRef) -> NodeView {
    NodeView {
        key: n.key@,
        root_page_id: n.root_page_id@,
        row: json_view(n.row),
        children: n.children,
        open: n.open,
        parent_row: json_view(n.parent_row),
    }
}

/// The view of an optional node.
pub open spec fn opt_node_view(n: Option<TreeNodeRef>) -> Option<NodeView> {
    match n {
        Some(x) => Some(node_view(x)),
        None => None,
    }
}

/// The node of a root.
pub open spec fn root_view(root: TreeRootDecl) -> NodeView {
    NodeView {
        key: root.id@,
        root_page_id: root.page_id@,
        row: JsonView::Null,
        children: root.children,
        open: None,
        parent_row: JsonView::Null,
    }
}

/// The node of a loaded row under its parent.
pub open spec fn child_view(parent: NodeView, row: TreeRow) -> NodeView {
    NodeView {
        key: parent.key + seq![KEY_SEP] + row.key@,
        root_page_id: parent.root_page_id,
        row: json_view(row.value),
        children: row.children,
        open: row.open,
        parent_row: parent.row,
    }
}

/// The pieces of a key between its separators, as `str::split` gives them.
pub open spec fn key_parts(s: Seq<char>) -> Seq<Seq<char>>
    decreases s.len(),
{
    if s.len() == 0 {
        seq![Seq::empty()]
    } else {
        let rest = key_parts(s.drop_last());
        if s.last() == KEY_SEP {
            rest.push(Seq::empty())
        } else {
            rest.update(rest.len() - 1, rest.last().push(s.last()))
        }
    }
}

/// The index of the first root with this id.
pub open spec fn root_index(roots: Seq<TreeRootDecl>, id: Seq<char>) -> Option<int>
    decreases roots.len(),
{
    if roots.len() == 0 {
        None
    } else {
        match root_index(roots.drop_last(), id) {
            Some(i) => Some(i),
            None => if roots.last().id@ == id {
                Some(roots.len() - 1)
            } else {
                None
            },
        }
    }
}

/// The index of the first row with this key.
pub open spec fn row_index(rows: Seq<TreeRow>, key: Seq<char>) -> Option<int>
    decreases rows.len(),
{
    if rows.len() == 0 {
        None
    } else {
        match row_index(rows.drop_last(), key) {
            Some(i) => Some(i),
            None => if rows.last().key@ == key {
                Some(rows.len() - 1)
            } else {
                None
            },
        }
    }
}

/// The node reached from `node` through loaded rows with these keys; none
/// where a level is not loaded or has no such row.
pub open spec fn walk_rows(cache: Seq<(String, TreeChildrenState)>, node: NodeView, parts: Seq<Seq<char>>) -> Option<
    NodeView,
>
    decreases parts.len(),
{
    if parts.len() == 0 {
        Some(node)
    } else {
        match value_of(cache, node.key) {
            Some(TreeChildrenState::Loaded(rows)) => match row_index(rows@, parts[0]) {
                Some(j) => walk_rows(cache, child_view(node, rows@[j]), parts.drop_first()),
                None => None,
            },
            _ => None,
        }
    }
}

/// The node a key names, found through what is loaded: its first part is a
/// root's id, each further part a row's key.
pub open spec fn resolved(roots: Seq<TreeRootDecl>, cache: Seq<(String, TreeChildrenState)>, key: Seq<char>) -> Option<
    NodeView,
> {
    let parts = key_parts(key);
    match root_index(roots, parts[0]) {
        Some(i) => walk_rows(cache, root_view(roots[i]), parts.drop_first()),
        None => None,
    }
}

/// The views of a list of character vectors.
pub open spec fn piece_views(v: Seq<Vec<char>>) -> Seq<Seq<char>> {
    Seq::new(v.len(), |i: int| v[i]@)
}

/// Splits a key at its separators.
fn split_key(s: &[char]) -> (r: Vec<Vec<char>>)
    ensures
        piece_views(r@) == key_parts(s@),
        r@.len() >= 1,
{
    let mut pieces: Vec<Vec<char>> = Vec::new();
    let mut current: Vec<char> = Vec::new();
    let mut i: usize = 0;
    while i < s.len()
        invariant
            i <= s@.len(),
            piece_views(pieces@).push(current@) == key_parts(s@.subrange(0, i as int)),
        decreases s@.len() - i,
    {
        let ghost before = s@.subrange(0, i as int);
        assert(s@.subrange(0, i + 1).drop_last() =~= before);
        let c = s[i];
        if c == KEY_SEP {
            let ghost old_pieces = pieces@;
            let done = current;
            pieces.push(done);
            current = Vec::new();
            assert(piece_views(pieces@) =~= piece_views(old_pieces).push(done@));
            assert(piece_views(pieces@).push(current@) =~= key_parts(before).push(Seq::empty()));
        } else {
            let ghost old_current = current@;
            current.push(c);
            assert(piece_views(pieces@).push(current@) =~= key_parts(before).update(
                key_parts(before).len() - 1,
                old_current.push(c),
            ));
        }
        i = i + 1;
    }
    assert(s@.subrange(0, s@.len() as int) =~= s@);
    let ghost old_pieces = pieces@;
    let last = current;
    pieces.push(last);
    assert(piece_views(pieces@) =~= piece_views(old_pieces).push(last@));
    pieces
}

/// Finds the first root with an id.
fn find_root(roots: &Vec<TreeRootDecl>, id: &str) -> (r: Option<usize>)
    ensures
        match r {
            Some(i) => root_index(roots@, id@) == Some(i as int) && i < roots@.len(),
            None => root_index(roots@, id@) is None,
        },
{
    let mut i: usize = 0;
    while i < roots.len()
        invariant
            i <= roots@.len(),
            root_index(roots@.subrange(0, i as int), id@) is None,
        decreases roots@.len() - i,
    {
        assert(roots@.subrange(0, i + 1).drop_last() =~= roots@.subrange(0, i as int));
        if text_eq(roots[i].id.as_str(), id) {
            proof {
                lemma_root_found(roots@, id@, i as int);
            }
            return Some(i);
        }
        i = i + 1;
    }
    assert(roots@.subrange(0, roots@.len() as int) =~= roots@);
    None
}

/// The first root with an id, when the first `i` have another.
proof fn lemma_root_found(roots: Seq<TreeRootDecl>, id: Seq<char>, i: int)
    requires
        0 <= i < roots.len(),
        root_index(roots.subrange(0, i), id) is None,
        roots[i].id@ == id,
    ensures
        root_index(roots, id) == Some(i),
    decreases roots.len(),
{
    let next = roots.subrange(0, i + 1);
    assert(next.drop_last() =~= roots.subrange(0, i));
    if roots.len() > i + 1 {
        assert(roots.drop_last().subrange(0, i) =~= roots.subrange(0, i));
        lemma_root_found(roots.drop_last(), id, i);
    } else {
        assert(roots =~= next);
    }
}

/// Finds the first row with a key.
fn find_row(rows: &Vec<TreeRow>, key: &str) -> (r: Option<usize>)
    ensures
        match r {
            Some(i) => row_index(rows@, key@) == Some(i as int) && i < rows@.len(),
            None => row_index(rows@, key@) is None,
        },
{
    let mut i: usize = 0;
    while i < rows.len()
        invariant
            i <= rows@.len(),
            row_index(rows@.subrange(0, i as int), key@) is None,
        decreases rows@.len() - i,
    {
        assert(rows@.subrange(0, i + 1).drop_last() =~= rows@.subrange(0, i as int));
        if text_eq(rows[i].key.as_str(), key) {
            proof {
                lemma_row_found(rows@, key@, i as int);
            }
            return Some(i);
        }
        i = i + 1;
    }
    assert(rows@.subrange(0, rows@.len() as int) =~= rows@);
    None
}

/// The first row with a key, when the first `i` have another.
proof fn lemma_row_found(rows: Seq<TreeRow>, key: Seq<char>, i: int)
    requires
        0 <= i < rows.len(),
        row_index(rows.subrange(0, i), key) is None,
        rows[i].key@ == key,
    ensures
        row_index(rows, key) == Some(i),
    decreases rows.len(),
{
    let next = rows.subrange(0, i + 1);
    assert(next.drop_last() =~= rows.subrange(0, i));
    if rows.len() > i + 1 {
        assert(rows.drop_last().subrange(0, i) =~= rows.subrange(0, i));
        lemma_row_found(rows.drop_last(), key, i);
    } else {
        assert(rows =~= next);
    }
}

/// The node of a root.
fn root_node(root: &TreeRootDecl) -> (r: TreeNodeRef)
    ensures
        node_view(r) == root_view(*root),
{
    TreeNodeRef {
        key: copy_string(&root.id),
        root_page_id: copy_string(&root.page_id),
        row: JsonValue::Null,
        children: root.children,
        open: None,
        parent_row: JsonValue::Null,
    }
}

/// The node of a loaded row under its parent.
fn child_node(parent: &TreeNodeRef, row: &TreeRow) -> (r: TreeNodeRef)
    ensures
        node_view(r) == child_view(node_view(*parent), *row),
{
    TreeNodeRef {
        key: child_node_key(parent.key.as_str(), row.key.as_str()),
        root_page_id: copy_string(&parent.root_page_id),
        row: json_clone(&row.value),
        children: row.children,
        open: row.open,
        parent_row: json_clone(&parent.row),
    }
}

/// Finds the node a key names, through the loaded children.
pub fn resolve_tree_node(
    roots: &Vec<TreeRootDecl>,
    cache: &Vec<(String, TreeChildrenState)>,
    key: &str,
) -> (r: Option<TreeNodeRef>)
    ensures
        opt_node_view(r) == resolved(roots@, cache@, key@),
{
    let chars = chars_of(key);
    let parts = split_key(chars.as_slice());
    let root_id = string_of(parts[0].as_slice());
    let i = match find_root(roots, root_id.as_str()) {
        Some(i) => i,
        None => {
            return None;
        },
    };
    let ghost all = piece_views(parts@).drop_first();
    let mut node = root_node(&roots[i]);
    let mut k: usize = 1;
    assert(piece_views(parts@).subrange(1, parts@.len() as int) =~= all);
    while k < parts.len()
        invariant
            1 <= k <= parts@.len(),
            all == piece_views(parts@).drop_first(),
            resolved(roots@, cache@, key@) == walk_rows(
                cache@,
                node_view(node),
                piece_views(parts@).subrange(k as int, parts@.len() as int),
            ),
        decreases parts@.len() - k,
    {
        let ghost rest = piece_views(parts@).subrange(k as int, parts@.len() as int);
        assert(rest[0] == parts@[k as int]@);
        assert(rest.drop_first() =~= piece_views(parts@).subrange(k + 1, parts@.len() as int));
        let part = string_of(parts[k].as_slice());
        let state = match find_key(cache, node.key.as_str()) {
            Some(s) => &cache[s].1,
            None => {
                return None;
            },
        };
        let rows = match state {
            TreeChildrenState::Loaded(rows) => rows,
            _ => {
                return None;
            },
        };
        let j = match find_row(rows, part.as_str()) {
            Some(j) => j,
            None => {
                return None;
            },
        };
        node = child_node(&node, &rows[j]);
        k = k + 1;
    }
    assert(piece_views(parts@).subrange(k as int, parts@.len() as int).len() == 0);
    Some(node)
}

/// A provider load of a node's children that the owner is asked to make.
#[derive(Debug)]
pub struct TreeLoad {
    /// The node whose children load.
    pub key: String,
    /// The generation its answer must carry.
    pub generation: u64,
    /// The children declaration being loaded.
    pub decl: usize,
    pub operation: String,
    /// The node's own row, the parent of the children.
    pub parent: JsonValue,
}

/// The lazily loaded tree.
pub struct NavTree {
    /// The keys of the expanded nodes.
    pub expanded: Vec<String>,
    /// What is known of each node's children, by key.
    pub children: Vec<(String, TreeChildrenState)>,
    /// The generation of each node's latest load, by key.
    pub load_seq: Vec<(String, u64)>,
    /// The last generation handed out.
    pub generation: u64,
    /// Expanded keys still to restore after a refresh.
    pub pending_expand: Vec<String>,
}

/// The declaration an index names, if it is in range.
pub open spec fn decl_at(decls: Seq<TreeChildrenDecl>, i: Option<usize>) -> Option<TreeChildrenDecl> {
    match i {
        Some(k) => if k < decls.len() {
            Some(decls[k as int])
        } else {
            None
        },
        None => None,
    }
}

/// Whether remote children name an operation that is not blank.
pub open spec fn names_operation(d: TreeChildrenDecl) -> bool {
    match d.operation {
        Some(op) => trim(op@).len() > 0,
        None => false,
    }
}

/// The generation after `g`, wrapping at the top of `u64`.
pub open spec fn next_generation(g: u64) -> u64 {
    if g == u64::MAX {
        0
    } else {
        (g + 1) as u64
    }
}

/// The mathematical value of a row.
pub open spec fn row_view(r: TreeRow) -> (Seq<char>, Seq<char>, JsonView, Option<usize>, Option<usize>) {
    (r.key@, r.label@, json_view(r.value), r.open, r.children)
}

/// The row of a static item: keyed by its id, labelled by its title, with
/// only `{"id": ..}` as data, and its own open and children.
pub open spec fn static_row(item: StaticTreeItem) -> (Seq<char>, Seq<char>, JsonView, Option<usize>, Option<usize>) {
    (
        item.id@,
        item.title@,
        JsonView::Object(seq![("id"@, JsonView::Text(item.id@))]),
        Some(item.open),
        item.children,
    )
}

/// The row of a loaded remote child, with the collection's open and
/// children.
pub open spec fn remote_row(d: Option<TreeChildrenDecl>, item: (String, String, JsonValue)) -> (
    Seq<char>,
    Seq<char>,
    JsonView,
    Option<usize>,
    Option<usize>,
) {
    (
        item.0@,
        item.1@,
        json_view(item.2),
        match d {
            Some(x) => x.open,
            None => None,
        },
        match d {
            Some(x) => x.children,
            None => None,
        },
    )
}

/// The rows of static items.
pub fn static_child_rows(decl: &TreeChildrenDecl) -> (r: Vec<TreeRow>)
    ensures
        r@.len() == decl.items@.len(),
        forall|i: int| 0 <= i < r@.len() ==> row_view(#[trigger] r@[i]) == static_row(decl.items@[i]),
{
    let mut rows: Vec<TreeRow> = Vec::new();
    let mut i: usize = 0;
    while i < decl.items.len()
        invariant
            i <= decl.items@.len(),
            rows@.len() == i,
            forall|k: int| 0 <= k < i ==> row_view(#[trigger] rows@[k]) == static_row(decl.items@[k]),
        decreases decl.items@.len() - i,
    {
        let item = &decl.items[i];
        let mut members: Vec<(String, JsonValue)> = Vec::new();
        members.push((owned("id"), JsonValue::Text(copy_string(&item.id))));
        proof {
            crate::json_value::lemma_object_view(members, 0);
        }
        let value = JsonValue::Object(members);
        assert(json_view(value)->Object_0 =~= seq![("id"@, JsonView::Text(item.id@))]);
        rows.push(
            TreeRow {
                key: copy_string(&item.id),
                label: copy_string(&item.title),
                value,
                open: Some(item.open),
                children: item.children,
            },
        );
        i = i + 1;
    }
    rows
}

/// What a load of a node's children leaves: static children are there at
/// once; remote children without an operation fail; remote children with
/// one are loading under a new generation, which the returned load
/// carries.  A node without a (known) declaration loads nothing.
pub open spec fn load_effect(
    decls: Seq<TreeChildrenDecl>,
    node: NodeView,
    old: NavTree,
    new: NavTree,
    r: Option<TreeLoad>,
) -> bool {
    &&& new.expanded == old.expanded
    &&& new.pending_expand == old.pending_expand
    &&& match decl_at(decls, node.children) {
        None => r is None && new.children == old.children && new.load_seq == old.load_seq && new.generation
            == old.generation,
        Some(d) => {
            &&& new.children@ == without_key(old.children@, node.key).push(new.children@.last())
            &&& new.children@.last().0@ == node.key
            &&& if !d.remote {
                &&& r is None
                &&& new.load_seq == old.load_seq && new.generation == old.generation
                &&& new.children@.last().1 matches TreeChildrenState::Loaded(rows) && rows@.len()
                    == d.items@.len() && forall|i: int|
                    0 <= i < rows@.len() ==> row_view(#[trigger] rows@[i]) == static_row(d.items@[i])
            } else if !names_operation(d) {
                &&& r is None
                &&& new.load_seq == old.load_seq && new.generation == old.generation
                &&& new.children@.last().1 matches TreeChildrenState::Failed(m) && m@
                    == "tree children declare no operation"@
            } else {
                &&& new.children@.last().1 is Loading
                &&& new.generation == next_generation(old.generation)
                &&& new.load_seq@ == without_key(old.load_seq@, node.key).push(new.load_seq@.last())
                &&& new.load_seq@.last().0@ == node.key && new.load_seq@.last().1 == new.generation
                &&& r matches Some(l) && l.key@ == node.key && l.generation == new.generation && Some(l.decl)
                    == node.children && l.operation@ == d.operation->0@ && json_view(l.parent) == node.row
            }
        },
    }
}

impl NavTree {
    /// An empty tree: nothing expanded or loaded.
    pub fn new() -> (r: Self)
        ensures
            r.expanded@.len() == 0,
            r.children@.len() == 0,
            r.load_seq@.len() == 0,
            r.generation == 0,
            r.pending_expand@.len() == 0,
    {
        NavTree {
            expanded: Vec::new(),
            children: Vec::new(),
            load_seq: Vec::new(),
            generation: 0,
            pending_expand: Vec::new(),
        }
    }

    /// Starts a new generation of loads for a node; answers to its older
    /// loads are dropped from now on.
    fn begin_tree_load(&mut self, key: &str) -> (r: u64)
        ensures
            r == next_generation(old(self).generation),
            final(self).generation == r,
            final(self).load_seq@ == without_key(old(self).load_seq@, key@).push(final(self).load_seq@.last()),
            final(self).load_seq@.last().0@ == key@,
            final(self).load_seq@.last().1 == r,
            final(self).expanded == old(self).expanded,
            final(self).children == old(self).children,
            final(self).pending_expand == old(self).pending_expand,
    {
        let next: u64 = if self.generation == u64::MAX {
            0
        } else {
            self.generation + 1
        };
        self.generation = next;
        set_key(&mut self.load_seq, owned(key), next);
        next
    }

    /// Loads a node's children.
    pub fn load_tree_children(&mut self, manifest: &TreeManifest, node: &TreeNodeRef) -> (r: Option<TreeLoad>)
        ensures
            load_effect(manifest.decls@, node_view(*node), *old(self), *final(self), r),
    {
        let index = match node.children {
            Some(i) => i,
            None => {
                return None;
            },
        };
        if index >= manifest.decls.len() {
            return None;
        }
        let decl = &manifest.decls[index];
        if !decl.remote {
            let rows = static_child_rows(decl);
            set_key(&mut self.children, copy_string(&node.key), TreeChildrenState::Loaded(rows));
            return None;
        }
        let operation = match &decl.operation {
            Some(op) => {
                let t = crate::text::trimmed(op.as_str());
                if t.unicode_len() == 0 {
                    None
                } else {
                    Some(op)
                }
            },
            None => None,
        };
        let operation = match operation {
            Some(op) => op,
            None => {
                set_key(
                    &mut self.children,
                    copy_string(&node.key),
                    TreeChildrenState::Failed(owned("tree children declare no operation")),
                );
                return None;
            },
        };
        let generation = self.begin_tree_load(node.key.as_str());
        set_key(&mut self.children, copy_string(&node.key), TreeChildrenState::Loading);
        Some(
            TreeLoad {
                key: copy_string(&node.key),
                generation,
                decl: index,
                operation: copy_string(operation),
                parent: json_clone(&node.row),
            },
        )
    }
}

/// Whether a node's children are loaded or loading, so not to be loaded
/// again; failed children are not ready, and expanding them retries.
pub open spec fn children_ready(cache: Seq<(String, TreeChildrenState)>, key: Seq<char>) -> bool {
    match value_of(cache, key) {
        Some(TreeChildrenState::Loaded(_)) => true,
        Some(TreeChildrenState::Loading) => true,
        _ => false,
    }
}

/// What a click on a tree row does.
#[derive(Debug)]
pub enum TreeClickTarget {
    /// A root opens its page.
    SelectPage(String),
    /// A row opens the page its open declaration names, with its route.
    Navigate(String, JsonValue),
}

/// What expanding a key does: nothing where it names no node that has
/// children; else the node is expanded, and its children load unless they
/// are there or on their way.
pub open spec fn expand_effect(manifest: TreeManifest, key: Seq<char>, old: NavTree, new: NavTree, r: Option<TreeLoad>) -> bool {
    match resolved(manifest.roots@, old.children@, key) {
        None => r is None && new == old,
        Some(node) => if node.children is None {
            r is None && new == old
        } else {
            &&& string_views(new.expanded@) == with_text(string_views(old.expanded@), node.key)
            &&& new.pending_expand == old.pending_expand
            &&& if children_ready(old.children@, node.key) {
                r is None && new.children == old.children && new.load_seq == old.load_seq && new.generation
                    == old.generation
            } else {
                load_effect(
                    manifest.decls@,
                    node,
                    NavTree {
                        expanded: new.expanded,
                        children: old.children,
                        load_seq: old.load_seq,
                        generation: old.generation,
                        pending_expand: old.pending_expand,
                    },
                    new,
                    r,
                )
            }
        },
    }
}

impl NavTree {
    /// Makes sure a node's children are there or on their way.
    pub fn ensure_tree_children(&mut self, manifest: &TreeManifest, node: &TreeNodeRef) -> (r: Option<TreeLoad>)
        ensures
            children_ready(old(self).children@, node.key@) ==> r is None && *final(self) == *old(self),
            !children_ready(old(self).children@, node.key@) ==> load_effect(
                manifest.decls@,
                node_view(*node),
                *old(self),
                *final(self),
                r,
            ),
    {
        match find_key(&self.children, node.key.as_str()) {
            Some(i) => match &self.children[i].1 {
                TreeChildrenState::Loaded(_) => {
                    return None;
                },
                TreeChildrenState::Loading => {
                    return None;
                },
                TreeChildrenState::Failed(_) => {},
            },
            None => {},
        }
        self.load_tree_children(manifest, node)
    }

    /// Expands a node that has children, loading them if they are not there.
    pub fn expand_tree_node(&mut self, manifest: &TreeManifest, key: &str) -> (r: Option<TreeLoad>)
        ensures
            expand_effect(*manifest, key@, *old(self), *final(self), r),
    {
        let node = match resolve_tree_node(&manifest.roots, &self.children, key) {
            Some(n) => n,
            None => {
                return None;
            },
        };
        if node.children.is_none() {
            return None;
        }
        insert_text(&mut self.expanded, node.key.as_str());
        self.ensure_tree_children(manifest, &node)
    }

    /// Collapses a node: its children stay loaded.  `true` where it was
    /// expanded.
    pub fn collapse_tree_node(&mut self, key: &str) -> (r: bool)
        ensures
            r == string_views(old(self).expanded@).contains(key@),
            string_views(final(self).expanded@) == without_text(string_views(old(self).expanded@), key@),
            final(self).children == old(self).children,
            final(self).load_seq == old(self).load_seq,
            final(self).generation == old(self).generation,
            final(self).pending_expand == old(self).pending_expand,
    {
        let was = list_contains(&self.expanded, key);
        remove_text(&mut self.expanded, key);
        was
    }

    /// Collapses an expanded node, or expands a collapsed one.
    pub fn toggle_tree_node(&mut self, manifest: &TreeManifest, key: &str) -> (r: Option<TreeLoad>)
        ensures
            string_views(old(self).expanded@).contains(key@) ==> r is None && string_views(final(self).expanded@)
                == without_text(string_views(old(self).expanded@), key@) && final(self).children
                == old(self).children,
            !string_views(old(self).expanded@).contains(key@) ==> expand_effect(
                *manifest,
                key@,
                *old(self),
                *final(self),
                r,
            ),
    {
        if list_contains(&self.expanded, key) {
            self.collapse_tree_node(key);
            None
        } else {
            self.expand_tree_node(manifest, key)
        }
    }

    /// Loads a node's children again, whatever is known of them.
    pub fn retry_tree_children(&mut self, manifest: &TreeManifest, key: &str) -> (r: Option<TreeLoad>)
        ensures
            match resolved(manifest.roots@, old(self).children@, key@) {
                None => r is None && *final(self) == *old(self),
                Some(node) => load_effect(manifest.decls@, node, *old(self), *final(self), r),
            },
    {
        match resolve_tree_node(&manifest.roots, &self.children, key) {
            Some(node) => self.load_tree_children(manifest, &node),
            None => None,
        }
    }

    /// Where a click on a row leads: a root opens its page; any other row
    /// the target of its open declaration, with its route built from the
    /// current route, the row, its parent row and the connection.
    pub fn on_tree_node_click(
        &self,
        manifest: &TreeManifest,
        key: &str,
        route: &JsonValue,
        connection: &JsonValue,
    ) -> (r: Option<TreeClickTarget>)
        ensures
            match resolved(manifest.roots@, self.children@, key@) {
                None => r is None,
                Some(node) => if node.row is Null {
                    r matches Some(TreeClickTarget::SelectPage(p)) && p@ == node.root_page_id
                } else {
                    r matches Some(TreeClickTarget::Navigate(p, rt)) && (p@, json_view(rt))
                        == crate::route_binding::target_of(
                        node.root_page_id,
                        match node.open {
                            Some(o) => if o < manifest.opens@.len() {
                                Some(manifest.opens@[o as int])
                            } else {
                                None
                            },
                            None => None,
                        },
                        node.row,
                        crate::route_binding::SourceViews {
                            route: json_view(*route),
                            selection: node.row,
                            parent: node.parent_row,
                            connection: json_view(*connection),
                        },
                    )
                },
            },
    {
        let node = match resolve_tree_node(&manifest.roots, &self.children, key) {
            Some(n) => n,
            None => {
                return None;
            },
        };
        if crate::json_value::json_is_null(&node.row) {
            return Some(TreeClickTarget::SelectPage(node.root_page_id));
        }
        let open = match node.open {
            Some(o) => if o < manifest.opens.len() {
                Some(&manifest.opens[o])
            } else {
                None
            },
            None => None,
        };
        let sources = crate::route_binding::RouteSources {
            route,
            selection: &node.row,
            parent: &node.parent_row,
            connection,
        };
        let (page, target) = crate::route_binding::navigation_target(node.root_page_id.as_str(), open, &node.row, &sources);
        Some(TreeClickTarget::Navigate(page, target))
    }
}

/// The restored expansions: no key left to restore names a node that the
/// loaded data can reach, what is left to restore was left before, and
/// nothing expanded was collapsed.
pub open spec fn resumed(roots: Seq<TreeRootDecl>, old: NavTree, new: NavTree) -> bool {
    &&& forall|x: Seq<char>|
        #[trigger] string_views(new.pending_expand@).contains(x) ==> string_views(old.pending_expand@).contains(x)
            && resolved(roots, new.children@, x) is None
    &&& forall|x: Seq<char>|
        #[trigger] string_views(old.expanded@).contains(x) ==> string_views(new.expanded@).contains(x)
}

/// The copies of a list of strings.
fn copy_strings(v: &Vec<String>) -> (r: Vec<String>)
    ensures
        string_views(r@) == string_views(v@),
{
    let mut out: Vec<String> = Vec::new();
    let mut i: usize = 0;
    while i < v.len()
        invariant
            i <= v@.len(),
            string_views(out@) == string_views(v@).subrange(0, i as int),
        decreases v@.len() - i,
    {
        let ghost before = out@;
        out.push(copy_string(&v[i]));
        assert(string_views(out@) =~= string_views(before).push(v@[i as int]@));
        assert(string_views(out@) =~= string_views(v@).subrange(0, i + 1));
        i = i + 1;
    }
    assert(string_views(v@).subrange(0, i as int) =~= string_views(v@));
    out
}

impl NavTree {
    /// Restores the expanded keys kept by a refresh as far as the loaded
    /// data reaches, loading the children of each node it expands; it
    /// repeats while it makes progress, since static children are there at
    /// once.  Returns the loads to make.
    pub fn resume_tree_expansions(&mut self, manifest: &TreeManifest) -> (r: Vec<TreeLoad>)
        ensures
            resumed(manifest.roots@, *old(self), *final(self)),
    {
        let mut loads: Vec<TreeLoad> = Vec::new();
        let mut again = true;
        while again
            invariant
                resumed(manifest.roots@, *old(self), *self) || again,
                forall|x: Seq<char>|
                    #[trigger] string_views(self.pending_expand@).contains(x) ==> string_views(
                        old(self).pending_expand@,
                    ).contains(x),
                forall|x: Seq<char>|
                    #[trigger] string_views(old(self).expanded@).contains(x) ==> string_views(
                        self.expanded@,
                    ).contains(x),
            decreases self.pending_expand@.len() + if again {
                1int
            } else {
                0int
            },
        {
            let snapshot = copy_strings(&self.pending_expand);
            let ghost start = string_views(self.pending_expand@);
            let ghost start_cache = self.children@;
            let ghost start_len = self.pending_expand@.len();
            let mut progressed = false;
            let mut j: usize = 0;
            while j < snapshot.len()
                invariant
                    j <= snapshot@.len(),
                    string_views(snapshot@) == start,
                    start_len == start.len(),
                    forall|x: Seq<char>|
                        #[trigger] string_views(self.pending_expand@).contains(x) ==> start.contains(x),
                    forall|x: Seq<char>|
                        #[trigger] string_views(self.pending_expand@).contains(x) ==> string_views(
                            old(self).pending_expand@,
                        ).contains(x),
                    forall|x: Seq<char>|
                        #[trigger] string_views(old(self).expanded@).contains(x) ==> string_views(
                            self.expanded@,
                        ).contains(x),
                    string_views(self.pending_expand@) == start || self.pending_expand@.len() < start_len,
                    progressed ==> self.pending_expand@.len() < start_len,
                    !progressed ==> self.children@ == start_cache,
                    !progressed ==> forall|t: int|
                        0 <= t < j && #[trigger] string_views(self.pending_expand@).contains(start[t])
                            ==> resolved(manifest.roots@, start_cache, start[t]) is None,
                decreases snapshot@.len() - j,
            {
                let key = &snapshot[j];
                assert(key@ == start[j as int]);
                let ghost before_pending = string_views(self.pending_expand@);
                match resolve_tree_node(&manifest.roots, &self.children, key.as_str()) {
                    None => {},
                    Some(node) => {
                        proof {
                            lemma_without_text(before_pending, key@);
                            lemma_without_text_len(before_pending, key@);
                            if before_pending == start {
                                assert(start[j as int] == key@);
                                assert(before_pending.contains(key@));
                            }
                        }
                        remove_text(&mut self.pending_expand, key.as_str());
                        proof {
                            assert forall|x: Seq<char>|
                                #[trigger] string_views(self.pending_expand@).contains(x) implies before_pending.contains(
                                    x,
                                ) && x != key@ by {
                                lemma_without_text(before_pending, key@);
                            }
                        }
                        if node.children.is_some() {
                            let ghost before_expanded = string_views(self.expanded@);
                            insert_text(&mut self.expanded, node.key.as_str());
                            proof {
                                lemma_with_text_superset(before_expanded, node.key@);
                            }
                            match self.load_tree_children(manifest, &node) {
                                Some(l) => loads.push(l),
                                None => {},
                            }
                            progressed = true;
                        }
                    },
                }
                proof {
                    assert forall|x: Seq<char>|
                        #[trigger] string_views(self.pending_expand@).contains(x) implies before_pending.contains(
                            x,
                        ) by {}
                }
                j = j + 1;
            }
            proof {
                if !progressed {
                    assert forall|x: Seq<char>|
                        #[trigger] string_views(self.pending_expand@).contains(x) implies resolved(
                            manifest.roots@,
                            self.children@,
                            x,
                        ) is None by {
                        assert(start.contains(x));
                        let t = choose|t: int| 0 <= t < start.len() && start[t] == x;
                    }
                }
            }
            again = progressed;
        }
        loads
    }
}

/// The cache after an answer for a node's children is recorded: its
/// children are the answered rows, with the collection's open and children,
/// or the failure.
pub open spec fn recorded(
    decls: Seq<TreeChildrenDecl>,
    load: TreeLoad,
    result: Result<Vec<(String, String, JsonValue)>, String>,
    old: NavTree,
    new: NavTree,
) -> bool {
    &&& new.expanded == old.expanded && new.load_seq == old.load_seq && new.generation == old.generation
        && new.pending_expand == old.pending_expand
    &&& new.children@ == without_key(old.children@, load.key@).push(new.children@.last())
    &&& new.children@.last().0@ == load.key@
    &&& match result {
        Ok(items) => new.children@.last().1 matches TreeChildrenState::Loaded(rows) && rows@.len()
            == items@.len() && forall|i: int|
            0 <= i < rows@.len() ==> row_view(#[trigger] rows@[i]) == remote_row(
                decl_at(decls, Some(load.decl)),
                items@[i],
            ),
        Err(e) => new.children@.last().1 matches TreeChildrenState::Failed(m) && m@ == e@,
    }
}

/// Whether an answer is for the latest load of its node.
pub open spec fn current_load(tree: NavTree, load: TreeLoad) -> bool {
    value_of(tree.load_seq@, load.key@) == Some(load.generation)
}

impl NavTree {
    /// Records the answer to a load, unless a newer load of the node was
    /// started since (`false`).
    pub fn record_children(
        &mut self,
        manifest: &TreeManifest,
        load: &TreeLoad,
        result: Result<Vec<(String, String, JsonValue)>, String>,
    ) -> (r: bool)
        ensures
            r == current_load(*old(self), *load),
            !r ==> *final(self) == *old(self),
            r ==> recorded(manifest.decls@, *load, result, *old(self), *final(self)),
    {
        match find_key(&self.load_seq, load.key.as_str()) {
            Some(i) => if self.load_seq[i].1 != load.generation {
                return false;
            },
            None => {
                return false;
            },
        }
        let (open, children) = if load.decl < manifest.decls.len() {
            (manifest.decls[load.decl].open, manifest.decls[load.decl].children)
        } else {
            (None, None)
        };
        let state = match result {
            Ok(items) => {
                let ghost all = items@;
                let mut rows: Vec<TreeRow> = Vec::new();
                let mut i: usize = 0;
                while i < items.len()
                    invariant
                        all == items@,
                        i <= items@.len(),
                        rows@.len() == i,
                        open == match decl_at(manifest.decls@, Some(load.decl)) {
                            Some(x) => x.open,
                            None => None,
                        },
                        children == match decl_at(manifest.decls@, Some(load.decl)) {
                            Some(x) => x.children,
                            None => None,
                        },
                        forall|k: int|
                            0 <= k < i ==> row_view(#[trigger] rows@[k]) == remote_row(
                                decl_at(manifest.decls@, Some(load.decl)),
                                all[k],
                            ),
                    decreases items@.len() - i,
                {
                    let item = &items[i];
                    rows.push(
                        TreeRow {
                            key: copy_string(&item.0),
                            label: copy_string(&item.1),
                            value: json_clone(&item.2),
                            open,
                            children,
                        },
                    );
                    i = i + 1;
                }
                TreeChildrenState::Loaded(rows)
            },
            Err(e) => TreeChildrenState::Failed(e),
        };
        set_key(&mut self.children, copy_string(&load.key), state);
        true
    }

    /// Takes the answer to a load: an answer to an older load is dropped;
    /// otherwise the node's children are recorded and the expansions kept
    /// by a refresh are restored as far as they now can be.  Returns the
    /// loads to make.
    pub fn children_loaded(
        &mut self,
        manifest: &TreeManifest,
        load: &TreeLoad,
        result: Result<Vec<(String, String, JsonValue)>, String>,
    ) -> (r: Vec<TreeLoad>)
        ensures
            !current_load(*old(self), *load) ==> r@.len() == 0 && *final(self) == *old(self),
            current_load(*old(self), *load) ==> exists|mid: NavTree|
                recorded(manifest.decls@, *load, result, *old(self), mid) && resumed(
                    manifest.roots@,
                    mid,
                    *final(self),
                ),
    {
        if !self.record_children(manifest, load, result) {
            return Vec::new();
        }
        let ghost mid = *self;
        let r = self.resume_tree_expansions(manifest);
        assert(recorded(manifest.decls@, *load, result, *old(self), mid));
        r
    }

    /// Reloads the tree from its roots: what was loaded is dropped, and the
    /// expanded keys are restored as far as the new data reaches.  Returns
    /// the loads to make.
    pub fn refresh_tree(&mut self, manifest: &TreeManifest) -> (r: Vec<TreeLoad>)
        ensures
            forall|x: Seq<char>|
                #[trigger] string_views(final(self).pending_expand@).contains(x) ==> string_views(
                    old(self).expanded@,
                ).contains(x) && resolved(manifest.roots@, final(self).children@, x) is None,
            forall|x: Seq<char>|
                #[trigger] string_views(old(self).expanded@).contains(x) ==> string_views(
                    final(self).expanded@,
                ).contains(x),
    {
        let pending = copy_strings(&self.expanded);
        self.children = Vec::new();
        self.load_seq = Vec::new();
        self.pending_expand = pending;
        let ghost start = *self;
        let mut loads: Vec<TreeLoad> = Vec::new();
        let mut i: usize = 0;
        while i < manifest.roots.len()
            invariant
                i <= manifest.roots@.len(),
                self.expanded == start.expanded,
                self.pending_expand == start.pending_expand,
                string_views(start.pending_expand@) == string_views(old(self).expanded@),
                string_views(start.expanded@) == string_views(old(self).expanded@),
            decreases manifest.roots@.len() - i,
        {
            let node = root_node(&manifest.roots[i]);
            if node.children.is_some() {
                match self.load_tree_children(manifest, &node) {
                    Some(l) => loads.push(l),
                    None => {},
                }
            }
            i = i + 1;
        }
        let mut more = self.resume_tree_expansions(manifest);
        loads.append(&mut more);
        loads
    }
}

/// Only the latest load of a node counts: once a node's children start
/// loading again, an answer for that node is taken only if it carries the
/// new generation.
pub proof fn law_only_the_latest_load_counts(
    decls: Seq<TreeChildrenDecl>,
    node: NodeView,
    old: NavTree,
    new: NavTree,
    r: Option<TreeLoad>,
    answer: TreeLoad,
)
    requires
        load_effect(decls, node, old, new, r),
        r is Some,
        answer.key@ == node.key,
    ensures
        current_load(new, answer) <==> answer.generation == r->0.generation,
{
    crate::text_sets::lemma_set_key_lookup(old.load_seq@, new.load_seq@.last(), node.key);
}

/// A node whose children were asked for is not asked for again: after a
/// load, its children are loaded, loading or failed as the declaration
/// says, and expanding it again loads nothing unless they failed.
pub proof fn law_children_are_loaded_once(
    decls: Seq<TreeChildrenDecl>,
    node: NodeView,
    old: NavTree,
    new: NavTree,
    r: Option<TreeLoad>,
)
    requires
        load_effect(decls, node, old, new, r),
        decl_at(decls, node.children) matches Some(d) && (!d.remote || names_operation(d)),
    ensures
        children_ready(new.children@, node.key),
{
    crate::text_sets::lemma_set_key_lookup(old.children@, new.children@.last(), node.key);
}

} // verus!
