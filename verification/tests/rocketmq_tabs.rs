use navop_core::rocketmq_tabs::{
    active_connection_index, connection_ids_to_close, initial_active_id, tab_title, ConnectionEntry,
    ManagementTabs,
};

fn entry(id: Option<i64>, name: &str) -> ConnectionEntry {
    ConnectionEntry { id, name: name.to_string() }
}

fn connections() -> Vec<ConnectionEntry> {
    vec![entry(Some(3), "prod"), entry(Some(-7), "staging"), entry(None, "draft")]
}

#[test]
fn the_tab_opens_on_the_requested_connection_or_a_fallback() {
    let list = connections();
    assert_eq!(Some(-7), initial_active_id(&list, Some(-7)));
    assert_eq!(Some(99), initial_active_id(&list, Some(99)));
    assert_eq!(None, initial_active_id(&list, None));
    let with_ids = vec![entry(Some(3), "prod"), entry(Some(4), "qa")];
    assert_eq!(Some(3), initial_active_id(&with_ids, None));
    assert_eq!(None, initial_active_id(&Vec::new(), None));
}

#[test]
fn the_shown_connection_names_the_tab() {
    let list = connections();
    assert_eq!(Some(1), active_connection_index(&list, Some(-7)));
    assert_eq!(Some(0), active_connection_index(&list, Some(99)));
    assert_eq!(Some(0), active_connection_index(&list, None));
    assert_eq!(None, active_connection_index(&Vec::new(), Some(3)));
    assert_eq!("staging", tab_title(None, &list, Some(-7)));
    assert_eq!("team space", tab_title(Some("team space"), &list, Some(-7)));
    assert_eq!("RocketMQ", tab_title(None, &Vec::new(), None));
}

#[test]
fn management_tabs_are_added_once_and_closed_together() {
    let mut tabs = ManagementTabs::new();
    assert!(!tabs.should_add(""));
    assert!(tabs.should_add("3"));
    tabs.added("3");
    assert!(!tabs.should_add("3"));
    assert_eq!(None, tabs.remove("4"));
    assert_eq!(
        Some(vec!["3-overview".to_string(), "3-topics".to_string(), "3-groups".to_string(), "3-messages".to_string()]),
        tabs.remove("3")
    );
    assert!(tabs.should_add("3"));
}

#[test]
fn closing_shuts_down_connections_with_ids() {
    assert_eq!(vec!["3".to_string(), "-7".to_string()], connection_ids_to_close(&connections()));
}
