use navop_core::json_value::{json_eq, json_pointer, JsonValue};
use navop_core::route_binding::{
    build_route, pick, tree_child_is_active, BindingSource, RouteBinding, RouteSources, WorkbenchOpen,
};

fn from_serde(value: &serde_json::Value) -> JsonValue {
    match value {
        serde_json::Value::Null => JsonValue::Null,
        serde_json::Value::Bool(b) => JsonValue::Bool(*b),
        serde_json::Value::Number(n) => JsonValue::Number(n.to_string()),
        serde_json::Value::String(s) => JsonValue::Text(s.clone()),
        serde_json::Value::Array(items) => JsonValue::Array(items.iter().map(from_serde).collect()),
        serde_json::Value::Object(map) => {
            JsonValue::Object(map.iter().map(|(k, v)| (k.clone(), from_serde(v))).collect())
        }
    }
}

fn to_serde(value: &JsonValue) -> serde_json::Value {
    match value {
        JsonValue::Null => serde_json::Value::Null,
        JsonValue::Bool(b) => serde_json::Value::Bool(*b),
        JsonValue::Number(n) => serde_json::from_str(n).expect("number text"),
        JsonValue::Text(s) => serde_json::Value::String(s.clone()),
        JsonValue::Array(items) => serde_json::Value::Array(items.iter().map(to_serde).collect()),
        JsonValue::Object(members) => serde_json::Value::Object(
            members.iter().map(|(k, v)| (k.clone(), to_serde(v))).collect(),
        ),
    }
}

fn json(text: &str) -> JsonValue {
    from_serde(&serde_json::from_str(text).expect("test JSON"))
}

fn serde(text: &str) -> serde_json::Value {
    serde_json::from_str(text).expect("test JSON")
}

fn binding(source: BindingSource, path: &str) -> RouteBinding {
    RouteBinding { source, path: path.into(), value: None }
}

fn bindings(pairs: Vec<(&str, RouteBinding)>) -> Vec<(String, RouteBinding)> {
    let mut list: Vec<(String, RouteBinding)> = pairs.into_iter().map(|(n, b)| (n.to_string(), b)).collect();
    list.sort_by(|a, b| a.0.cmp(&b.0));
    list
}

const NULL: JsonValue = JsonValue::Null;

fn sources<'a>(current: &'a JsonValue, selection: &'a JsonValue, parent: &'a JsonValue) -> RouteSources<'a> {
    RouteSources { route: current, selection, parent, connection: &NULL }
}

fn open_by_id() -> WorkbenchOpen {
    WorkbenchOpen {
        page_id: "container-detail".into(),
        route: bindings(vec![("id", binding(BindingSource::Selection, "/id"))]),
    }
}

#[test]
fn builds_route_from_selection_row() {
    let b = bindings(vec![("name", binding(BindingSource::Selection, "/name"))]);
    let row = json(r#"{"name": "orders-2026", "health": "green"}"#);
    let route = build_route(
        &b,
        &RouteSources { selection: &row, ..RouteSources::without_row_context(&NULL, &NULL) },
    );
    assert_eq!(serde(r#"{"name": "orders-2026"}"#), to_serde(&route));
}

#[test]
fn forwards_route_param_for_links() {
    let b = bindings(vec![("name", binding(BindingSource::Route, "/name"))]);
    let current = json(r#"{"name": "orders-2026"}"#);
    let route = build_route(&b, &RouteSources::without_row_context(&current, &NULL));
    assert_eq!(to_serde(&current), to_serde(&route));
}

#[test]
fn merges_parent_and_selection_for_nested_tree_nodes() {
    let b = bindings(vec![
        ("namespace", binding(BindingSource::Parent, "/name")),
        ("pod", binding(BindingSource::Selection, "/name")),
    ]);
    let parent = json(r#"{"name": "default"}"#);
    let row = json(r#"{"name": "api-0"}"#);
    let route = build_route(
        &b,
        &RouteSources { selection: &row, parent: &parent, ..RouteSources::without_row_context(&NULL, &NULL) },
    );
    assert_eq!(serde(r#"{"namespace": "default", "pod": "api-0"}"#), to_serde(&route));
}

#[test]
fn tab_route_keeps_connection_binding() {
    let b = bindings(vec![("database", binding(BindingSource::Connection, "/database"))]);
    let connection = json(r#"{"namespace": "prod", "database": "orders"}"#);
    let route = build_route(&b, &RouteSources::without_row_context(&NULL, &connection));
    assert_eq!(serde(r#"{"database": "orders"}"#), to_serde(&route));
}

#[test]
fn builds_route_from_connection_config() {
    let b = bindings(vec![("namespace", binding(BindingSource::Connection, "/namespace"))]);
    let connection = json(r#"{"namespace": "prod", "database": "orders"}"#);
    let route = build_route(
        &b,
        &RouteSources { connection: &connection, ..RouteSources::without_row_context(&NULL, &NULL) },
    );
    assert_eq!(serde(r#"{"namespace": "prod"}"#), to_serde(&route));
}

#[test]
fn only_the_selected_sibling_is_active() {
    let open = open_by_id();
    let rows = [json(r#"{"id": "abc"}"#), json(r#"{"id": "xyz"}"#)];
    let current = json(r#"{"id": "abc"}"#);
    assert!(tree_child_is_active(
        "containers",
        Some(&open),
        &rows[0],
        "container-detail",
        &sources(&current, &rows[0], &NULL),
    ));
    assert!(!tree_child_is_active(
        "containers",
        Some(&open),
        &rows[1],
        "container-detail",
        &sources(&current, &rows[1], &NULL),
    ));
}

#[test]
fn no_row_is_active_on_an_unrelated_page() {
    let open = open_by_id();
    let row = json(r#"{"id": "abc"}"#);
    let same = json(r#"{"id": "abc"}"#);
    let other = json(r#"{"id": "other"}"#);
    assert!(!tree_child_is_active("containers", Some(&open), &row, "containers", &sources(&same, &row, &NULL)));
    assert!(!tree_child_is_active(
        "containers",
        Some(&open),
        &row,
        "container-detail",
        &sources(&other, &row, &NULL),
    ));
}

#[test]
fn child_without_open_matches_root_page_and_row_route() {
    let row = json(r#"{"id": "abc"}"#);
    let other = json(r#"{"id": "zzz"}"#);
    assert!(tree_child_is_active("containers", None, &row, "containers", &sources(&row, &row, &NULL)));
    assert!(!tree_child_is_active("containers", None, &row, "containers", &sources(&other, &row, &NULL)));
}

#[test]
fn nested_child_route_includes_parent_binding() {
    let open = WorkbenchOpen {
        page_id: "pod-detail".into(),
        route: bindings(vec![
            ("namespace", binding(BindingSource::Parent, "/name")),
            ("pod", binding(BindingSource::Selection, "/name")),
        ]),
    };
    let parent = json(r#"{"name": "default"}"#);
    let row = json(r#"{"name": "api-0"}"#);
    let current = json(r#"{"namespace": "default", "pod": "api-0"}"#);
    let other_parent = json(r#"{"name": "kube-system"}"#);
    assert!(tree_child_is_active("namespaces", Some(&open), &row, "pod-detail", &sources(&current, &row, &parent)));
    assert!(!tree_child_is_active(
        "namespaces",
        Some(&open),
        &row,
        "pod-detail",
        &sources(&current, &row, &other_parent),
    ));
}

#[test]
fn tree_child_route_keeps_connection_binding() {
    let open = WorkbenchOpen {
        page_id: "pod-detail".into(),
        route: bindings(vec![("namespace", binding(BindingSource::Connection, "/namespace"))]),
    };
    let row = json(r#"{"name": "api-0"}"#);
    let connection = json(r#"{"namespace": "prod", "database": "orders"}"#);
    let current = json(r#"{"namespace": "prod"}"#);
    let sources = RouteSources { route: &current, selection: &row, parent: &NULL, connection: &connection };
    assert!(tree_child_is_active("namespaces", Some(&open), &row, "pod-detail", &sources));
}

#[test]
fn literal_bindings_use_their_value_and_inputs_are_left_out() {
    let mut literal = binding(BindingSource::Literal, "");
    literal.value = Some(json("7"));
    let b = bindings(vec![
        ("page", literal),
        ("query", binding(BindingSource::Input, "/q")),
        ("cursor", binding(BindingSource::Paging, "/cursor")),
        ("missing", binding(BindingSource::Literal, "")),
    ]);
    let route = build_route(&b, &RouteSources::without_row_context(&NULL, &NULL));
    assert_eq!(serde(r#"{"page": 7}"#), to_serde(&route));
}

#[test]
fn paths_without_a_slash_and_empty_paths_pick_as_pointers() {
    let row = json(r#"{"name": "web", "spec": {"ports": [80, 443]}}"#);
    assert_eq!(serde(r#""web""#), to_serde(&pick(&row, "name")));
    assert_eq!(serde("443"), to_serde(&pick(&row, "/spec/ports/1")));
    assert_eq!(to_serde(&row), to_serde(&pick(&row, "")));
    assert_eq!(serde_json::Value::Null, to_serde(&pick(&row, "/spec/ports/2")));
    assert_eq!(serde_json::Value::Null, to_serde(&pick(&row, "/absent")));
}

#[test]
fn pointers_follow_serde_json() {
    let cases = [
        r#"{"a/b": 1, "m~n": 2, "": 3, "list": [10, 20, 30], "n": null, "deep": {"x": {"y": true}}}"#,
        r#"[1, [2, 3]]"#,
    ];
    let pointers = [
        "", "/", "/a~1b", "/m~0n", "/list/0", "/list/2", "/list/3", "/list/01", "/list/+1", "/list/-", "/n",
        "/deep/x/y", "/deep/x/z", "deep", "/0", "/1/1", "/1/1/0", "/a~1b/0",
    ];
    for text in cases {
        let serde_value = serde(text);
        let value = from_serde(&serde_value);
        for pointer in pointers {
            let expected = serde_value.pointer(pointer).cloned();
            let found = json_pointer(&value, pointer).map(to_serde);
            assert_eq!(expected, found, "pointer {pointer:?} in {text}");
        }
    }
}

#[test]
fn json_equality_compares_whole_values() {
    assert!(json_eq(&json(r#"{"a": [1, "x", null]}"#), &json(r#"{"a": [1, "x", null]}"#)));
    assert!(!json_eq(&json(r#"{"a": [1, "x", null]}"#), &json(r#"{"a": [1, "x"]}"#)));
    assert!(!json_eq(&json(r#"{"a": 1}"#), &json(r#"{"b": 1}"#)));
    assert!(!json_eq(&json(r#"{"a": 1}"#), &json(r#"{"a": "1"}"#)));
    assert!(!json_eq(&json("true"), &json("false")));
    assert!(json_eq(&JsonValue::Null, &NULL));
}
