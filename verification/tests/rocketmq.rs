use navop_core::rocketmq_form::{
    format_namesrv_addrs, parse_namesrv_addrs, CredentialReference, FormSnapshot, RocketmqFormAdapter,
    RocketmqParams, RocketmqSshTunnelConfig,
};
use navop_core::rocketmq_runtime::{
    default_backend_kind, RocketmqBackendKind, RocketmqConnectionFactory, RocketmqError,
    RocketmqManager, RocketmqRuntimeParams, DEFAULT_CONNECT_TIMEOUT, DEFAULT_REQUEST_TIMEOUT,
};
use navop_core::rocketmq_tree::{build_flat_entries, FlatEntryKind};

fn snapshot_for(params: &RocketmqParams) -> FormSnapshot {
    RocketmqFormAdapter.load_fields(params)
}

fn params() -> RocketmqParams {
    RocketmqParams {
        namesrv_addrs: vec!["10.0.0.1:9876".to_string(), "10.0.0.2:9876".to_string()],
        access_key: Some("rocketmq".to_string()),
        secret_key: Some("12345678".to_string()),
        credential_reference: None,
        domain: Some("prod".to_string()),
        connect_timeout: Some(8),
        request_timeout: Some(5000),
        ssh_tunnel: None,
    }
}

fn empty_tunnel() -> RocketmqSshTunnelConfig {
    RocketmqSshTunnelConfig {
        enabled: false,
        connection_id: None,
        host: String::new(),
        port: 0,
        username: String::new(),
        auth_type: String::new(),
        password: None,
        private_key_path: None,
        private_key_content: None,
        private_key_passphrase: None,
        target_host: None,
        target_port: None,
        timeout: None,
    }
}

#[test]
fn parse_namesrv_addrs_supports_multiline_and_separators() {
    assert_eq!(
        parse_namesrv_addrs("10.0.0.1:9876\n10.0.0.2:9876"),
        vec!["10.0.0.1:9876".to_string(), "10.0.0.2:9876".to_string()]
    );
    assert_eq!(
        parse_namesrv_addrs("10.0.0.1; 10.0.0.2,10.0.0.3"),
        vec![
            "10.0.0.1".to_string(),
            "10.0.0.2".to_string(),
            "10.0.0.3".to_string()
        ]
    );
    assert!(parse_namesrv_addrs("  \n ; ").is_empty());
}

#[test]
fn load_and_build_round_trip_all_fields() {
    let snapshot = snapshot_for(&params());

    assert_eq!(
        snapshot.fields.get("namesrv_addrs").unwrap(),
        "10.0.0.1:9876\n10.0.0.2:9876"
    );
    assert_eq!(snapshot.fields.get("access_key").unwrap(), "rocketmq");
    assert_eq!(snapshot.fields.get("secret_key").unwrap(), "12345678");
    assert_eq!(snapshot.fields.get("domain").unwrap(), "prod");
    assert_eq!(snapshot.fields.get("connect_timeout").unwrap(), "8");
    assert_eq!(snapshot.fields.get("request_timeout").unwrap(), "5000");

    let stored = RocketmqFormAdapter
        .build_connection(&snapshot, "生产集群".to_string(), Some(3))
        .expect("构建应成功");
    let rebuilt = stored.params;

    assert_eq!(rebuilt.namesrv_addrs, params().namesrv_addrs);
    assert_eq!(rebuilt.access_key.as_deref(), Some("rocketmq"));
    assert_eq!(rebuilt.secret_key.as_deref(), Some("12345678"));
    assert_eq!(rebuilt.domain.as_deref(), Some("prod"));
    assert_eq!(rebuilt.connect_timeout, Some(8));
    assert_eq!(rebuilt.request_timeout, Some(5000));
    assert_eq!(stored.workspace_id, Some(3));
    assert_eq!(stored.name, "生产集群");
}

#[test]
fn round_trip_preserves_ssh_tunnel() {
    let mut source = params();
    source.ssh_tunnel = Some(RocketmqSshTunnelConfig {
        enabled: true,
        connection_id: Some(42),
        host: String::new(),
        port: 22,
        username: String::new(),
        auth_type: "password".to_string(),
        password: None,
        private_key_path: None,
        private_key_content: None,
        private_key_passphrase: None,
        target_host: None,
        target_port: None,
        timeout: None,
    });

    let snapshot = snapshot_for(&source);
    assert_eq!(snapshot.fields.get("ssh_tunnel_enabled").unwrap(), "true");
    assert_eq!(snapshot.fields.get("ssh_connection_id").unwrap(), "42");

    let stored = RocketmqFormAdapter
        .build_connection(&snapshot, "隧道".to_string(), None)
        .expect("构建应成功");
    let rebuilt = stored.params;

    let tunnel = rebuilt.ssh_tunnel.expect("隧道应保留");
    assert!(tunnel.enabled);
    assert_eq!(tunnel.connection_id, Some(42));
    assert_eq!(source.ssh_tunnel, Some(tunnel));
}

#[test]
fn build_requires_namesrv_and_applies_defaults() {
    let mut snapshot = FormSnapshot::default();
    let error = match RocketmqFormAdapter.build_connection(&snapshot, "x".to_string(), None) {
        Err(error) => error,
        Ok(_) => panic!("a form without NameServers must be refused"),
    };
    assert!(!error.is_empty());

    snapshot
        .fields
        .insert("namesrv_addrs", "127.0.0.1:9876".to_string());
    let stored = match RocketmqFormAdapter.build_connection(&snapshot, "x".to_string(), None) {
        Ok(stored) => stored,
        Err(error) => panic!("{error}"),
    };
    let rebuilt = stored.params;

    assert_eq!(rebuilt.namesrv_addrs, vec!["127.0.0.1:9876".to_string()]);
    assert_eq!(rebuilt.connect_timeout, None);
    assert_eq!(rebuilt.request_timeout, None);
    assert_eq!(RocketmqFormAdapter.default_name(&snapshot), "127.0.0.1:9876");
}

#[test]
fn credential_reference_suppresses_manual_credentials() {
    let mut snapshot = snapshot_for(&params());
    snapshot.fields.insert("access_key", "手动输入".to_string());
    snapshot.credential_reference = Some(CredentialReference::new(100));

    let stored = match RocketmqFormAdapter.build_connection(&snapshot, "凭据".to_string(), None) {
        Ok(stored) => stored,
        Err(error) => panic!("{error}"),
    };
    let rebuilt = stored.params;

    assert_eq!(rebuilt.access_key, None);
    assert_eq!(rebuilt.secret_key, None);
    assert!(rebuilt.credential_reference.is_some());
}

#[test]
fn params_from_stored_maps_all_fields() {
    let runtime = match RocketmqManager::params_from_stored(Ok(params())) {
        Ok(runtime) => runtime,
        Err(error) => panic!("参数映射应成功: {error:?}"),
    };

    assert_eq!(runtime.namesrv_addrs.len(), 2);
    assert_eq!(runtime.access_key.as_deref(), Some("rocketmq"));
    assert_eq!(runtime.secret_key.as_deref(), Some("12345678"));
    assert_eq!(runtime.domain.as_deref(), Some("prod"));
    assert_eq!(runtime.connect_timeout, 8);
    assert_eq!(runtime.request_timeout, 5000);
    assert!(runtime.acl_enabled());
}

#[test]
fn params_from_stored_applies_runtime_defaults() {
    let runtime = match RocketmqManager::params_from_stored(Ok(RocketmqParams::default())) {
        Ok(runtime) => runtime,
        Err(error) => panic!("参数映射应成功: {error:?}"),
    };

    assert_eq!(runtime.connect_timeout, DEFAULT_CONNECT_TIMEOUT);
    assert_eq!(runtime.request_timeout, DEFAULT_REQUEST_TIMEOUT);
    assert!(!runtime.acl_enabled());
    assert_eq!(runtime.namesrv_addrs, vec!["127.0.0.1:9876".to_string()]);
}

#[test]
fn params_from_stored_rejects_invalid_params_json() {
    let error = match RocketmqManager::params_from_stored(Err("not-json".to_string())) {
        Err(error) => error,
        Ok(_) => panic!("a failed read must be refused"),
    };
    assert!(matches!(error, RocketmqError::Config(_)));
}

#[test]
fn params_from_stored_preserves_ssh_tunnel() {
    let mut params = RocketmqParams::default();
    let mut tunnel = empty_tunnel();
    tunnel.enabled = true;
    tunnel.connection_id = Some(7);
    params.ssh_tunnel = Some(tunnel);

    let runtime = match RocketmqManager::params_from_stored(Ok(params)) {
        Ok(runtime) => runtime,
        Err(error) => panic!("{error:?}"),
    };
    let tunnel = runtime.ssh_tunnel.as_ref().expect("隧道应保留");
    assert!(tunnel.enabled);
    assert_eq!(tunnel.connection_id, Some(7));
}

fn runtime_defaults() -> RocketmqRuntimeParams {
    RocketmqManager::params_from_stored(Ok(RocketmqParams::default())).expect("default parameters map")
}

#[test]
fn factory_defaults_to_builtin() {
    let factory = RocketmqConnectionFactory::default_factory();
    assert_eq!(factory.backend_kind(), RocketmqBackendKind::Builtin);
    assert_eq!(default_backend_kind(), RocketmqBackendKind::Builtin);
    assert_eq!(
        RocketmqConnectionFactory::Unavailable.backend_kind(),
        RocketmqBackendKind::Unavailable
    );

    let mut params = runtime_defaults();
    params.namesrv_addrs = vec!["127.0.0.1:9876".into()];
    let connection = factory.create_native(params);
    assert!(connection.is_ok());

    let admin = factory.create(runtime_defaults()).expect("the factory yields a connection");
    let caps = admin.capabilities();
    assert!(caps.topics && caps.groups && caps.message_query);
}

#[test]
fn create_connection_reports_unavailable_backend() {
    let error = RocketmqConnectionFactory::Unavailable
        .create_for("1", runtime_defaults())
        .unwrap_err();
    assert!(matches!(error, RocketmqError::Config(_)));
}

#[test]
fn create_connection_rejects_empty_id() {
    let error = RocketmqConnectionFactory::Unavailable
        .create_for("", runtime_defaults())
        .unwrap_err();
    assert_eq!(RocketmqError::Config("RocketMQ connection id is required".to_string()), error);
    assert!(RocketmqConnectionFactory::Builtin.create_for("", runtime_defaults()).is_err());
    let ready = RocketmqConnectionFactory::Builtin.create_for("7", runtime_defaults()).expect("builtin");
    assert_eq!(runtime_defaults(), ready.params);
}

#[test]
fn addresses_are_written_one_per_line() {
    let addrs = vec!["a:1".to_string(), "b:2".to_string(), "c:3".to_string()];
    let text = format_namesrv_addrs(&addrs);
    assert_eq!("a:1\nb:2\nc:3", text);
    assert_eq!(addrs, parse_namesrv_addrs(&text));
    assert_eq!("", format_namesrv_addrs(&[]));
    assert_eq!(
        vec!["x".to_string(), "y".to_string()],
        parse_namesrv_addrs("\r\n x \r\n,,y;")
    );
}

#[test]
fn the_whole_form_round_trips_with_a_full_tunnel() {
    let mut source = params();
    source.connect_timeout = None;
    source.ssh_tunnel = Some(RocketmqSshTunnelConfig {
        enabled: true,
        connection_id: Some(-5),
        host: "jump.example".to_string(),
        port: 2222,
        username: "ops".to_string(),
        auth_type: "key".to_string(),
        password: None,
        private_key_path: Some("/home/ops/.ssh/id_ed25519".to_string()),
        private_key_content: None,
        private_key_passphrase: Some("secret".to_string()),
        target_host: Some("10.0.0.1".to_string()),
        target_port: Some(9876),
        timeout: None,
    });
    let snapshot = snapshot_for(&source);
    assert_eq!(snapshot.fields.get("connect_timeout").unwrap(), "");
    assert_eq!(snapshot.fields.get("ssh_connection_id").unwrap(), "-5");
    let stored = match RocketmqFormAdapter.build_connection(&snapshot, "n".to_string(), None) {
        Ok(stored) => stored,
        Err(error) => panic!("{error}"),
    };
    assert_eq!(source, stored.params);
}

#[test]
fn unset_tunnel_port_defaults_to_22_and_password_auth() {
    let mut snapshot = FormSnapshot::default();
    snapshot.fields.insert("namesrv_addrs", "h:1".to_string());
    snapshot.fields.insert("ssh_tunnel_enabled", "1".to_string());
    let stored = match RocketmqFormAdapter.build_connection(&snapshot, "n".to_string(), None) {
        Ok(stored) => stored,
        Err(error) => panic!("{error}"),
    };
    let tunnel = stored.params.ssh_tunnel.expect("the tunnel check box is set");
    assert_eq!(22, tunnel.port);
    assert_eq!("password", tunnel.auth_type);
    assert_eq!(None, tunnel.connection_id);
    assert_eq!(RocketmqFormAdapter.default_name(&snapshot), "h:1");
}

#[test]
fn build_flat_entries_expands_children_only_when_expanded() {
    let order = vec!["1".to_string()];
    let brokers = vec![("1".to_string(), vec!["broker-a".to_string()])];
    let topics = vec![(
        "1".to_string(),
        vec!["order-topic".to_string(), "pay-topic".to_string()],
    )];

    let expanded = vec!["1".to_string()];
    let entries = build_flat_entries(&order, &brokers, &topics, &expanded);
    assert_eq!(4, entries.len());
    assert_eq!(entries[0].node_id, "1");
    assert_eq!(entries[0].kind, FlatEntryKind::Connection);
    assert_eq!(entries[1].node_id, "1:broker:broker-a");
    assert_eq!(entries[1].kind, FlatEntryKind::Broker);
    assert_eq!(entries[1].depth, 1);
    assert_eq!(entries[2].node_id, "1:topic:order-topic");
    assert_eq!(entries[3].node_id, "1:topic:pay-topic");

    let collapsed: Vec<String> = Vec::new();
    assert_eq!(1, build_flat_entries(&order, &brokers, &topics, &collapsed).len());
}

#[test]
fn build_flat_entries_handles_empty_metadata() {
    let order = vec!["1".to_string(), "2".to_string()];
    let entries = build_flat_entries(&order, &Vec::new(), &Vec::new(), &Vec::new());
    assert_eq!(2, entries.len());
    assert!(entries.iter().all(|e| e.kind == FlatEntryKind::Connection));
}

#[test]
fn loose_tunnel_settings_keep_the_connection_settings() {
    let mut p = params();
    let mut tunnel = empty_tunnel();
    tunnel.enabled = true;
    tunnel.connection_id = Some(-7);
    tunnel.password = Some("  pw  ".to_string());
    tunnel.timeout = Some(30);
    p.ssh_tunnel = Some(tunnel);
    let built = RocketmqFormAdapter
        .build_connection(&snapshot_for(&p), "n".to_string(), Some(3))
        .expect("addresses are given");
    assert_eq!(p.namesrv_addrs, built.params.namesrv_addrs);
    assert_eq!(p.access_key, built.params.access_key);
    assert_eq!(p.secret_key, built.params.secret_key);
    assert_eq!(p.domain, built.params.domain);
    assert_eq!(p.connect_timeout, built.params.connect_timeout);
    assert_eq!(p.request_timeout, built.params.request_timeout);
    let back = built.params.ssh_tunnel.expect("the tunnel stays");
    assert!(back.enabled);
    assert_eq!(Some(-7), back.connection_id);
    assert_eq!(Some("pw".to_string()), back.password);
    assert_eq!(None, back.timeout);
}
