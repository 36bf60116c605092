//! Routes of the resource workbench: how a page's declared bindings take
//! their values from the current route, the clicked row, its parent row and
//! the connection's saved settings.
use vstd::prelude::*;
use crate::json_value::{
    json_clone, json_eq, json_is_null, json_pointer, json_view, members_view, pointer_target, set_member, set_member_in,
    JsonValue, JsonView,
};
use crate::resource_nav::{pointer_of, pointer_path};
use crate::text::{copy_string, text_eq};

verus! {

/// Where a binding takes its value from.
#[derive(Debug, Clone, Copy, PartialEq, Eq, Structural)]
pub enum BindingSource {
    /// The clicked row.
    Selection,
    /// The current page's route.
    Route,
    /// The parent row of a lazily expanded tree node.
    Parent,
    /// The connection's saved settings.
    Connection,
    /// The binding's own value.
    Literal,
    /// A form input; only provider parameters have one.
    Input,
    /// Paging state; only provider parameters have one.
    Paging,
}

/// A declared binding: its source, the path it reads there and, for a
/// literal, its value.
#[derive(Debug)]
pub struct RouteBinding {
    pub source: BindingSource,
    pub path: String,
    pub value: Option<JsonValue>,
}

/// Where a page opens: its id and the bindings of its route, by name, in
/// ascending name order and each name once, as a manifest's map holds them.
#[derive(Debug)]
pub struct WorkbenchOpen {
    pub page_id: String,
    pub route: Vec<(String, RouteBinding)>,
}

/// The values a target route is built from.
pub struct RouteSources<'a> {
    /// The current page's route.
    pub route: &'a JsonValue,
    /// The clicked row.
    pub selection: &'a JsonValue,
    /// The parent row of a tree node.
    pub parent: &'a JsonValue,
    /// The connection's saved settings.
    pub connection: &'a JsonValue,
}

/// The null value that sources without a row take.
pub const NO_VALUE: JsonValue = JsonValue::Null;

impl<'a> RouteSources<'a> {
    /// Sources without a row: for links and tabs.  The connection is still
    /// given, since it does not depend on a row.
    pub fn without_row_context(current_route: &'a JsonValue, connection: &'a JsonValue) -> (r: Self)
        ensures
            r.route == current_route,
            json_view(*r.selection) is Null,
            json_view(*r.parent) is Null,
            r.connection == connection,
    {
        RouteSources { route: current_route, selection: &NO_VALUE, parent: &NO_VALUE, connection }
    }
}

/// The values of route sources.
pub struct SourceViews {
    pub route: JsonView,
    pub selection: JsonView,
    pub parent: JsonView,
    pub connection: JsonView,
}

/// The values of route sources.
pub open spec fn sources_view(s: RouteSources) -> SourceViews {
    SourceViews {
        route: json_view(*s.route),
        selection: json_view(*s.selection),
        parent: json_view(*s.parent),
        connection: json_view(*s.connection),
    }
}

/// What a path picks from a value: the whole value for an empty path, else
/// what the path, as a JSON pointer, names; null where it names nothing.
pub open spec fn picked(v: JsonView, path: Seq<char>) -> JsonView {
    if path.len() == 0 {
        v
    } else {
        match pointer_target(v, pointer_of(path)) {
            Some(t) => t,
            None => JsonView::Null,
        }
    }
}

/// Picks what a path names in a value.
pub fn pick(value: &JsonValue, path: &str) -> (r: JsonValue)
    ensures
        json_view(r) == picked(json_view(*value), path@),
{
    if path.unicode_len() == 0 {
        return json_clone(value);
    }
    let pointer = pointer_path(path);
    match json_pointer(value, pointer.as_str()) {
        Some(found) => json_clone(found),
        None => JsonValue::Null,
    }
}

/// The value a binding takes from the sources.  Input and paging bindings
/// have no value in a route.
pub open spec fn binding_value(
    source: BindingSource,
    path: Seq<char>,
    literal: Option<JsonView>,
    route: JsonView,
    selection: JsonView,
    parent: JsonView,
    connection: JsonView,
) -> JsonView {
    match source {
        BindingSource::Selection => picked(selection, path),
        BindingSource::Route => picked(route, path),
        BindingSource::Parent => picked(parent, path),
        BindingSource::Connection => picked(connection, path),
        BindingSource::Literal => match literal {
            Some(v) => v,
            None => JsonView::Null,
        },
        BindingSource::Input | BindingSource::Paging => JsonView::Null,
    }
}

/// The view of an optional JSON value.
pub open spec fn opt_json(v: Option<JsonValue>) -> Option<JsonView> {
    match v {
        Some(x) => Some(json_view(x)),
        None => None,
    }
}

/// The value a binding takes from the sources.
pub open spec fn bound_value(b: RouteBinding, sources: SourceViews) -> JsonView {
    binding_value(
        b.source,
        b.path@,
        opt_json(b.value),
        sources.route,
        sources.selection,
        sources.parent,
        sources.connection,
    )
}

/// The members of the route that the first `n` bindings build: each binding
/// whose value is not null sets its name.
pub open spec fn route_members(bindings: Seq<(String, RouteBinding)>, n: int, sources: SourceViews) -> Seq<
    (Seq<char>, JsonView),
>
    decreases n,
{
    if n <= 0 {
        Seq::empty()
    } else {
        let before = route_members(bindings, n - 1, sources);
        let v = bound_value(bindings[n - 1].1, sources);
        if v is Null {
            before
        } else {
            set_member(before, bindings[n - 1].0@, v)
        }
    }
}

/// The first `n` bindings' names with their values, in order, those whose
/// value is null left out.
pub open spec fn bound_pairs(bindings: Seq<(String, RouteBinding)>, n: int, sources: SourceViews) -> Seq<
    (Seq<char>, JsonView),
>
    decreases n,
{
    if n <= 0 {
        Seq::empty()
    } else {
        let before = bound_pairs(bindings, n - 1, sources);
        let v = bound_value(bindings[n - 1].1, sources);
        if v is Null {
            before
        } else {
            before.push((bindings[n - 1].0@, v))
        }
    }
}

/// Whether no two bindings share a name.
pub open spec fn names_distinct(bindings: Seq<(String, RouteBinding)>) -> bool {
    forall|i: int, j: int| 0 <= i < bindings.len() && 0 <= j < bindings.len() && i != j ==> bindings[i].0@
        != bindings[j].0@
}

/// Every key among the first `n` bound pairs is the name of one of the
/// first `n` bindings.
proof fn lemma_bound_keys(bindings: Seq<(String, RouteBinding)>, n: int, sources: SourceViews)
    requires
        0 <= n <= bindings.len(),
    ensures
        forall|i: int|
            0 <= i < bound_pairs(bindings, n, sources).len() ==> exists|j: int|
                0 <= j < n && #[trigger] bound_pairs(bindings, n, sources)[i].0 == bindings[j].0@,
    decreases n,
{
    if n > 0 {
        lemma_bound_keys(bindings, n - 1, sources);
        let before = bound_pairs(bindings, n - 1, sources);
        let now = bound_pairs(bindings, n, sources);
        assert forall|i: int| 0 <= i < now.len() implies exists|j: int|
            0 <= j < n && #[trigger] now[i].0 == bindings[j].0@ by {
            if i < before.len() {
                assert(now[i] == before[i]);
                let j = choose|j: int| 0 <= j < n - 1 && before[i].0 == bindings[j].0@;
                assert(0 <= j < n && now[i].0 == bindings[j].0@);
            } else {
                assert(now[i].0 == bindings[n - 1].0@);
            }
        }
    }
}

/// A key that no member has is found nowhere.
proof fn lemma_no_key(members: Seq<(Seq<char>, JsonView)>, key: Seq<char>)
    requires
        forall|i: int| 0 <= i < members.len() ==> members[i].0 != key,
    ensures
        crate::json_value::first_key(members, key) is None,
    decreases members.len(),
{
    if members.len() > 0 {
        lemma_no_key(members.drop_last(), key);
    }
}

/// Routes hold each binding once: where no two bindings share a name, the
/// route's members are the bindings' names with their values, in binding
/// order, those whose value is null left out.
pub proof fn law_route_members_follow_the_bindings(bindings: Seq<(String, RouteBinding)>, sources: SourceViews)
    requires
        names_distinct(bindings),
    ensures
        route_members(bindings, bindings.len() as int, sources) == bound_pairs(
            bindings,
            bindings.len() as int,
            sources,
        ),
{
    lemma_members_are_pairs(bindings, bindings.len() as int, sources);
}

/// The induction behind `law_route_members_follow_the_bindings`.
proof fn lemma_members_are_pairs(bindings: Seq<(String, RouteBinding)>, n: int, sources: SourceViews)
    requires
        names_distinct(bindings),
        0 <= n <= bindings.len(),
    ensures
        route_members(bindings, n, sources) == bound_pairs(bindings, n, sources),
    decreases n,
{
    if n > 0 {
        lemma_members_are_pairs(bindings, n - 1, sources);
        let before = bound_pairs(bindings, n - 1, sources);
        let key = bindings[n - 1].0@;
        lemma_bound_keys(bindings, n - 1, sources);
        assert forall|i: int| 0 <= i < before.len() implies before[i].0 != key by {
            let j = choose|j: int| 0 <= j < n - 1 && #[trigger] before[i].0 == bindings[j].0@;
            assert(bindings[j].0@ != bindings[n - 1].0@);
        }
        lemma_no_key(before, key);
    }
}

/// The value of one binding.
fn binding_value_of(binding: &RouteBinding, sources: &RouteSources) -> (r: JsonValue)
    ensures
        json_view(r) == bound_value(*binding, sources_view(*sources)),
{
    match binding.source {
        BindingSource::Selection => pick(sources.selection, binding.path.as_str()),
        BindingSource::Route => pick(sources.route, binding.path.as_str()),
        BindingSource::Parent => pick(sources.parent, binding.path.as_str()),
        BindingSource::Connection => pick(sources.connection, binding.path.as_str()),
        BindingSource::Literal => match &binding.value {
            Some(v) => json_clone(v),
            None => JsonValue::Null,
        },
        BindingSource::Input | BindingSource::Paging => JsonValue::Null,
    }
}

/// Builds the route of a page to open: an object with a member for each
/// binding whose value is not null.
pub fn build_route(bindings: &Vec<(String, RouteBinding)>, sources: &RouteSources) -> (r: JsonValue)
    ensures
        json_view(r) == JsonView::Object(route_members(bindings@, bindings@.len() as int, sources_view(*sources))),
{
    let mut members: Vec<(String, JsonValue)> = Vec::new();
    let mut i: usize = 0;
    assert(members_view(members@) =~= route_members(bindings@, 0, sources_view(*sources)));
    while i < bindings.len()
        invariant
            i <= bindings@.len(),
            members_view(members@) == route_members(bindings@, i as int, sources_view(*sources)),
        decreases bindings@.len() - i,
    {
        let (name, binding) = (&bindings[i].0, &bindings[i].1);
        let value = binding_value_of(binding, sources);
        if !json_is_null(&value) {
            set_member_in(&mut members, name, value);
        }
        i = i + 1;
    }
    let r = JsonValue::Object(members);
    assert(json_view(r)->Object_0 =~= members_view(members@));
    r
}

/// Where a tree row leads: the page its open declaration names, with the
/// route built from its bindings; a row without one leads to the root's
/// page, with the row itself as the route.
pub open spec fn target_of(
    root_page_id: Seq<char>,
    open: Option<WorkbenchOpen>,
    row: JsonView,
    sources: SourceViews,
) -> (Seq<char>, JsonView) {
    match open {
        Some(o) => (o.page_id@, JsonView::Object(route_members(o.route@, o.route@.len() as int, sources))),
        None => (root_page_id, row),
    }
}

/// The view of an optional borrowed open declaration.
pub open spec fn opt_open(open: Option<&WorkbenchOpen>) -> Option<WorkbenchOpen> {
    match open {
        Some(o) => Some(*o),
        None => None,
    }
}

/// The page and route a click on a tree row leads to.
pub fn navigation_target(
    root_page_id: &str,
    open: Option<&WorkbenchOpen>,
    row: &JsonValue,
    sources: &RouteSources,
) -> (r: (String, JsonValue))
    ensures
        (r.0@, json_view(r.1)) == target_of(root_page_id@, opt_open(open), json_view(*row), sources_view(*sources)),
{
    match open {
        Some(o) => (copy_string(&o.page_id), build_route(&o.route, sources)),
        None => (crate::text::owned(root_page_id), json_clone(row)),
    }
}

/// Whether a tree row is the one selected: a click on it leads to exactly
/// the selected page and the current route.  Comparing the page alone would
/// mark every sibling that opens the same page.
pub fn tree_child_is_active(
    root_page_id: &str,
    open: Option<&WorkbenchOpen>,
    row: &JsonValue,
    selected_page: &str,
    sources: &RouteSources,
) -> (r: bool)
    ensures
        r == (target_of(root_page_id@, opt_open(open), json_view(*row), sources_view(*sources)).0 == selected_page@
            && target_of(root_page_id@, opt_open(open), json_view(*row), sources_view(*sources)).1 == json_view(
            *sources.route,
        )),
{
    let (page, route) = navigation_target(root_page_id, open, row, sources);
    text_eq(page.as_str(), selected_page) && json_eq(&route, sources.route)
}

} // verus!
