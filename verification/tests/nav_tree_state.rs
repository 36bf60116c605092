use navop_core::json_value::JsonValue;
use navop_core::nav_tree_state::{
    resolve_tree_node, static_child_rows, NavTree, StaticTreeItem, TreeChildrenDecl, TreeChildrenState,
    TreeClickTarget, TreeManifest, TreeRootDecl,
};
use navop_core::route_binding::{tree_child_is_active, BindingSource, RouteBinding, RouteSources, WorkbenchOpen};

fn from_serde(value: &serde_json::Value) -> JsonValue {
    match value {
        serde_json::Value::Null => JsonValue::Null,
        serde_json::Value::Bool(b) => JsonValue::Bool(*b),
        serde_json::Value::Number(n) => JsonValue::Number(n.to_string()),
        serde_json::Value::String(s) => JsonValue::Text(s.clone()),
        serde_json::Value::Array(items) => JsonValue::Array(items.iter().map(from_serde).collect()),
        serde_json::Value::Object(map) => {
            JsonValue::Object(map.iter().map(|(k, v)| (k.clone(), from_serde(v))).collect())
        }
    }
}

fn to_serde(value: &JsonValue) -> serde_json::Value {
    match value {
        JsonValue::Null => serde_json::Value::Null,
        JsonValue::Bool(b) => serde_json::Value::Bool(*b),
        JsonValue::Number(n) => serde_json::from_str(n).expect("number text"),
        JsonValue::Text(s) => serde_json::Value::String(s.clone()),
        JsonValue::Array(items) => serde_json::Value::Array(items.iter().map(to_serde).collect()),
        JsonValue::Object(members) => {
            serde_json::Value::Object(members.iter().map(|(k, v)| (k.clone(), to_serde(v))).collect())
        }
    }
}

fn json(text: &str) -> JsonValue {
    from_serde(&serde_json::from_str(text).expect("test JSON"))
}

fn binding(source: BindingSource, path: &str) -> RouteBinding {
    RouteBinding { source, path: path.into(), value: None }
}

fn open_to(page_id: &str, name: &str, source: BindingSource, path: &str) -> WorkbenchOpen {
    WorkbenchOpen { page_id: page_id.into(), route: vec![(name.to_string(), binding(source, path))] }
}

fn static_item(id: &str, title: &str, open: usize) -> StaticTreeItem {
    StaticTreeItem { id: id.into(), title: title.into(), open, children: None }
}

/// Roots `indices` (remote children, each with static children) and
/// `containers` (remote children without an operation).
fn manifest() -> TreeManifest {
    TreeManifest {
        roots: vec![
            TreeRootDecl { id: "indices".into(), page_id: "indices".into(), title: "Indices".into(), children: Some(0) },
            TreeRootDecl {
                id: "containers".into(),
                page_id: "containers".into(),
                title: "Containers".into(),
                children: Some(2),
            },
            TreeRootDecl { id: "about".into(), page_id: "about".into(), title: "About".into(), children: None },
        ],
        decls: vec![
            TreeChildrenDecl { remote: true, operation: Some("listIndices".into()), open: Some(2), children: Some(1), items: vec![] },
            TreeChildrenDecl {
                remote: false,
                operation: None,
                open: None,
                children: None,
                items: vec![static_item("mapping", "Mapping", 0), static_item("settings", "Settings", 1)],
            },
            TreeChildrenDecl { remote: true, operation: Some("  ".into()), open: None, children: None, items: vec![] },
        ],
        opens: vec![
            open_to("index-mapping", "name", BindingSource::Parent, "/name"),
            open_to("index-settings", "name", BindingSource::Parent, "/name"),
            open_to("index-detail", "name", BindingSource::Selection, "/name"),
        ],
    }
}

fn rows(items: &[(&str, &str)]) -> Vec<(String, String, JsonValue)> {
    items.iter().map(|(key, value)| (key.to_string(), key.to_string(), json(value))).collect()
}

#[test]
fn static_items_become_rows_without_a_provider_row() {
    let m = manifest();
    let rows = static_child_rows(&m.decls[1]);
    assert_eq!(2, rows.len());
    assert_eq!("mapping", rows[0].key);
    assert_eq!("Mapping", rows[0].label);
    assert_eq!(to_serde(&json(r#"{"id": "mapping"}"#)), to_serde(&rows[0].value));
    assert!(rows[0].children.is_none());
}

#[test]
fn static_siblings_keep_their_own_open() {
    let m = manifest();
    let rows = static_child_rows(&m.decls[1]);
    assert_eq!("index-mapping", m.opens[rows[0].open.unwrap()].page_id.as_str());
    assert_eq!("index-settings", m.opens[rows[1].open.unwrap()].page_id.as_str());
}

#[test]
fn static_item_parent_binding_resolves_to_the_index_row() {
    let m = manifest();
    let rows = static_child_rows(&m.decls[1]);
    let index_row = json(r#"{"name": "logs"}"#);
    let null = JsonValue::Null;
    let current = json(r#"{"name": "logs"}"#);
    let open = rows[0].open.map(|o| &m.opens[o]);
    let sources = RouteSources { route: &current, selection: &rows[0].value, parent: &index_row, connection: &null };
    assert!(tree_child_is_active("indices", open, &rows[0].value, "index-mapping", &sources));
    let other = json(r#"{"name": "metrics"}"#);
    let sources = RouteSources { route: &other, selection: &rows[0].value, parent: &index_row, connection: &null };
    assert!(!tree_child_is_active("indices", open, &rows[0].value, "index-mapping", &sources));
}

#[test]
fn remote_rows_still_carry_the_collection_open() {
    let m = manifest();
    let mut tree = NavTree::new();
    let load = tree.expand_tree_node(&m, "indices").expect("remote children load");
    assert!(tree.children_loaded(&m, &load, Ok(rows(&[("web", r#"{"name": "web"}"#), ("db", r#"{"name": "db"}"#)]))).is_empty());
    let TreeChildrenState::Loaded(loaded) = &tree.children[0].1 else { panic!("loaded") };
    assert_eq!(2, loaded.len());
    assert_eq!("web", loaded[0].key);
    assert_eq!("web", loaded[0].label);
    assert_eq!("index-detail", m.opens[loaded[0].open.unwrap()].page_id.as_str());
    assert_eq!(Some(1), loaded[0].children);
}

#[test]
fn nodes_resolve_through_loaded_levels_only() {
    let m = manifest();
    let mut tree = NavTree::new();
    assert!(resolve_tree_node(&m.roots, &tree.children, "indices\u{1}logs").is_none());
    let load = tree.expand_tree_node(&m, "indices").expect("loads");
    assert_eq!(("indices", 1, "listIndices"), (load.key.as_str(), load.generation, load.operation.as_str()));
    tree.children_loaded(&m, &load, Ok(rows(&[("logs", r#"{"name": "logs"}"#)])));
    let node = resolve_tree_node(&m.roots, &tree.children, "indices\u{1}logs").expect("row resolves");
    assert_eq!("indices\u{1}logs", node.key);
    assert_eq!(to_serde(&json(r#"{"name": "logs"}"#)), to_serde(&node.row));
    assert!(tree.expand_tree_node(&m, "indices\u{1}logs").is_none());
    let leaf = resolve_tree_node(&m.roots, &tree.children, "indices\u{1}logs\u{1}mapping").expect("static child");
    assert_eq!(to_serde(&json(r#"{"name": "logs"}"#)), to_serde(&leaf.parent_row));
    assert!(resolve_tree_node(&m.roots, &tree.children, "nowhere").is_none());
}

#[test]
fn late_answers_are_dropped_and_collapse_keeps_children() {
    let m = manifest();
    let mut tree = NavTree::new();
    let first = tree.expand_tree_node(&m, "indices").expect("loads");
    let second = tree.retry_tree_children(&m, "indices").expect("reloads");
    assert!(second.generation > first.generation);
    tree.children_loaded(&m, &first, Ok(rows(&[("stale", "{}")])));
    assert!(matches!(tree.children[0].1, TreeChildrenState::Loading));
    tree.children_loaded(&m, &second, Err("timeout".into()));
    assert!(matches!(&tree.children[0].1, TreeChildrenState::Failed(e) if e == "timeout"));
    assert!(tree.collapse_tree_node("indices"));
    assert!(!tree.collapse_tree_node("indices"));
    assert_eq!(1, tree.children.len());
    let again = tree.toggle_tree_node(&m, "indices").expect("a failed load is retried");
    assert_eq!(3, again.generation);
}

#[test]
fn declarations_without_an_operation_fail_and_leaves_do_not_expand() {
    let m = manifest();
    let mut tree = NavTree::new();
    assert!(tree.expand_tree_node(&m, "containers").is_none());
    assert!(matches!(&tree.children[0].1, TreeChildrenState::Failed(e) if e == "tree children declare no operation"));
    assert!(tree.expand_tree_node(&m, "about").is_none());
    assert_eq!(vec!["containers".to_string()], tree.expanded);
}

#[test]
fn refresh_restores_expansions_as_data_returns() {
    let m = manifest();
    let mut tree = NavTree::new();
    let load = tree.expand_tree_node(&m, "indices").expect("loads");
    tree.children_loaded(&m, &load, Ok(rows(&[("logs", r#"{"name": "logs"}"#)])));
    tree.expand_tree_node(&m, "indices\u{1}logs");
    let loads = tree.refresh_tree(&m);
    assert_eq!(2, loads.len());
    assert_eq!(vec!["indices\u{1}logs".to_string()], tree.pending_expand);
    let latest = loads.last().expect("a root reload");
    let more = tree.children_loaded(&m, latest, Ok(rows(&[("logs", r#"{"name": "logs"}"#)])));
    assert!(more.is_empty());
    assert!(tree.pending_expand.is_empty());
    assert!(resolve_tree_node(&m.roots, &tree.children, "indices\u{1}logs\u{1}settings").is_some());
}

#[test]
fn clicks_open_the_root_page_or_the_row_target() {
    let m = manifest();
    let mut tree = NavTree::new();
    let load = tree.expand_tree_node(&m, "indices").expect("loads");
    tree.children_loaded(&m, &load, Ok(rows(&[("logs", r#"{"name": "logs"}"#)])));
    let null = JsonValue::Null;
    match tree.on_tree_node_click(&m, "indices", &null, &null) {
        Some(TreeClickTarget::SelectPage(page)) => assert_eq!("indices", page),
        other => panic!("unexpected {other:?}"),
    }
    match tree.on_tree_node_click(&m, "indices\u{1}logs", &null, &null) {
        Some(TreeClickTarget::Navigate(page, route)) => {
            assert_eq!("index-detail", page);
            assert_eq!(to_serde(&json(r#"{"name": "logs"}"#)), to_serde(&route));
        }
        other => panic!("unexpected {other:?}"),
    }
    assert!(tree.on_tree_node_click(&m, "indices\u{1}gone", &null, &null).is_none());
}
