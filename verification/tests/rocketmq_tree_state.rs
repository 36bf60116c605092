use navop_core::middleware_lists::TopicSummary;
use navop_core::rocketmq_tree::FlatEntryKind;
use navop_core::rocketmq_tree_state::{BrokerSummary, RocketmqTreeState, TreeClick};

fn broker(name: &str, version: Option<&str>) -> BrokerSummary {
    BrokerSummary { name: name.to_string(), address: format!("{name}:10911"), version: version.map(str::to_string) }
}

fn topic(name: &str, queues: Option<u32>) -> TopicSummary {
    TopicSummary { name: name.to_string(), topic_type: None, queue_count: queues, perm: None, message_count: None, created_at: None }
}

fn tree_with(ids: &[&str]) -> RocketmqTreeState {
    let mut tree = RocketmqTreeState::new();
    for id in ids {
        tree.add_stored_connection(id);
    }
    tree
}

#[test]
fn connections_are_listed_once_in_order_and_need_an_id() {
    let mut tree = tree_with(&["1", "2"]);
    assert!(!tree.add_stored_connection(""));
    assert!(tree.add_stored_connection("1"));
    let ids: Vec<String> = tree.rebuild_flat_entries().into_iter().map(|e| e.node_id).collect();
    assert_eq!(vec!["1".to_string(), "2".to_string()], ids);
}

#[test]
fn a_connection_attempt_runs_once_and_expands_on_success() {
    let mut tree = tree_with(&["1"]);
    assert!(tree.active_connection("1"));
    assert!(!tree.active_connection("9"));
    assert!(tree.connection_row("1").selected);
    assert!(tree.can_connect("1"));
    assert!(tree.start_connect("1", Ok(())));
    assert!(!tree.can_connect("1"));
    assert!(!tree.start_connect("1", Ok(())));
    assert!(tree.connection_row("1").loading);
    assert!(tree.finish_connect("1", Ok(())));
    let row = tree.connection_row("1");
    assert!(row.connected && row.expanded && !row.loading);
    assert!(tree.is_connected("1"));
    assert!(!row.has_children);
    assert!(!tree.can_connect("1"));
    assert_eq!(vec!["1".to_string()], tree.connected_nodes());
}

#[test]
fn metadata_shows_under_an_expanded_connection() {
    let mut tree = tree_with(&["1"]);
    tree.start_connect("1", Ok(()));
    tree.finish_connect("1", Ok(()));
    tree.load_cluster_metadata("1", vec![broker("broker-a", Some("V5_1_0"))], vec![topic("order-topic", Some(8)), topic("pay", None)]);
    let entries = tree.rebuild_flat_entries();
    let rows: Vec<(String, usize, FlatEntryKind)> = entries.iter().map(|e| (e.node_id.clone(), e.depth, e.kind)).collect();
    assert_eq!(
        vec![
            ("1".to_string(), 0, FlatEntryKind::Connection),
            ("1:broker:broker-a".to_string(), 1, FlatEntryKind::Broker),
            ("1:topic:order-topic".to_string(), 1, FlatEntryKind::Topic),
            ("1:topic:pay".to_string(), 1, FlatEntryKind::Topic),
        ],
        rows
    );
    let row = tree.connection_row("1");
    assert_eq!((1, 2, true), (row.broker_count, row.topic_count, row.has_children));

    let b = tree.child_row("1:broker:broker-a", FlatEntryKind::Broker).expect("broker row");
    assert_eq!(("1", "broker-a (broker-a:10911)", "V5_1_0"), (&*b.connection_id, &*b.label, &*b.badge));
    let t = tree.child_row("1:topic:order-topic", FlatEntryKind::Topic).expect("topic row");
    assert_eq!(("order-topic", "8Q"), (&*t.label, &*t.badge));
    let plain = tree.child_row("1:topic:pay", FlatEntryKind::Topic).expect("topic row");
    assert_eq!(("pay", ""), (&*plain.label, &*plain.badge));
    let unknown = tree.child_row("1:broker:gone", FlatEntryKind::Broker).expect("broker row");
    assert_eq!(("gone", ""), (&*unknown.label, &*unknown.badge));
    let colon = tree.child_row("1:topic:a:b", FlatEntryKind::Topic).expect("topic row");
    assert_eq!("a:b", colon.label);
    assert!(tree.child_row("no-colons", FlatEntryKind::Topic).is_none());
    assert!(tree.child_row("1:broker:broker-a", FlatEntryKind::Connection).is_none());

    tree.toggle_node("1");
    assert_eq!(1, tree.rebuild_flat_entries().len());
    tree.toggle_node("1");
    assert_eq!(4, tree.rebuild_flat_entries().len());
}

#[test]
fn failures_are_shown_and_a_double_click_retries() {
    let mut tree = tree_with(&["1"]);
    assert!(!tree.start_connect("1", Err("password vault locked".to_string())));
    assert_eq!(Some("password vault locked".to_string()), tree.connection_row("1").error);
    assert_eq!(TreeClick::Connect, tree.handle_double_click("1"));
    assert_eq!(None, tree.connection_row("1").error);

    assert!(tree.start_connect("1", Ok(())));
    assert!(!tree.finish_connect("1", Err("timeout".to_string())));
    let row = tree.connection_row("1");
    assert_eq!((Some("timeout".to_string()), false, false), (row.error, row.loading, row.connected));
    tree.clear_error("1");
    assert_eq!(None, tree.connection_row("1").error);
}

#[test]
fn errors_are_hidden_while_connecting_again() {
    let mut tree = tree_with(&["1"]);
    tree.start_connect("1", Ok(()));
    tree.finish_connect("1", Err("refused".to_string()));
    assert!(tree.start_connect("1", Ok(())));
    assert_eq!(None, tree.connection_row("1").error);
}

#[test]
fn connected_nodes_ask_before_disconnecting_and_removal_forgets_them() {
    let mut tree = tree_with(&["1", "2"]);
    tree.start_connect("1", Ok(()));
    tree.finish_connect("1", Ok(()));
    tree.load_cluster_metadata("1", vec![broker("b", None)], vec![]);
    assert_eq!(TreeClick::ConfirmDisconnect, tree.handle_double_click("1"));
    assert_eq!(TreeClick::Connect, tree.handle_double_click("2"));
    tree.on_connection_removed("1");
    let row = tree.connection_row("1");
    assert!(!row.connected && !row.expanded && !row.loading);
    assert_eq!((0, 0), (row.broker_count, row.topic_count));
    assert_eq!(2, tree.rebuild_flat_entries().len());
    assert!(tree.can_connect("1"));
}
