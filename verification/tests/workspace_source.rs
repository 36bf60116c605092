use std::path::PathBuf;

use navop_core::workspace_source::{
    default_workspace_resolvers, docker_exec_invocation, exec_option_takes_value, is_docker_program,
    is_docker_provider_program, resolve_local_workspace_source, DockerInvocation, LocalConfig,
    LocalWorkspaceSource, WorkspaceResolver, WorkspaceSourceResolver,
};

fn config(shell: &str, args: &[&str]) -> LocalConfig {
    LocalConfig {
        shell: Some(shell.to_string()),
        args: args.iter().map(|arg| arg.to_string()).collect(),
        working_dir: None,
        env: Vec::new(),
    }
}

#[test]
fn parses_plain_docker_exec() {
    let (docker, container) =
        docker_exec_invocation(&config("docker", &["exec", "-it", "abc123", "sh"]))
            .expect("docker exec should parse");
    assert_eq!("docker", docker.program);
    assert!(docker.global_args.is_empty());
    assert_eq!("abc123", container);
}

#[test]
fn keeps_global_args_before_exec() {
    let (docker, container) = docker_exec_invocation(&config(
        "/usr/local/bin/docker",
        &[
            "--context",
            "prod",
            "--host",
            "tcp://1.2.3.4:2375",
            "exec",
            "web",
            "bash",
        ],
    ))
    .expect("global args should parse");
    assert_eq!(
        vec![
            "--context".to_string(),
            "prod".to_string(),
            "--host".to_string(),
            "tcp://1.2.3.4:2375".to_string()
        ],
        docker.global_args
    );
    assert_eq!("web", container);
}

#[test]
fn skips_exec_options_with_separate_and_inline_values() {
    let (_, container) = docker_exec_invocation(&config(
        "docker",
        &[
            "exec",
            "-u",
            "root",
            "-w",
            "/app",
            "-e",
            "A=b",
            "--env=K=V",
            "-it",
            "svc",
            "sh",
        ],
    ))
    .expect("mixed options should parse");
    assert_eq!("svc", container);
}

#[test]
fn honors_double_dash_separator() {
    let (_, container) =
        docker_exec_invocation(&config("docker", &["exec", "--", "weird-name", "sh"]))
            .expect("-- separator should parse");
    assert_eq!("weird-name", container);
}

#[test]
fn rejects_non_docker_shells() {
    assert!(docker_exec_invocation(&config("bash", &["-l"])).is_none());
    assert!(docker_exec_invocation(&config("wsl.exe", &["-d", "Ubuntu"])).is_none());
}

#[test]
fn rejects_exec_without_container() {
    assert!(docker_exec_invocation(&config("docker", &["exec", "-it"])).is_none());
}

#[test]
fn container_source_wins_over_host() {
    let source = resolve_local_workspace_source(&config("docker", &["exec", "-it", "abc", "sh"]))
        .expect("container source");
    assert!(source.is_container());
    assert_eq!(PathBuf::from("/"), source.root());
}

#[test]
fn host_source_is_the_fallback() {
    let source = resolve_local_workspace_source(&config("bash", &[]));
    assert!(matches!(source, Some(LocalWorkspaceSource::Host { .. })));
}

#[test]
fn docker_exec_args_prefix_global_args_and_container() {
    let docker = DockerInvocation {
        program: "docker".into(),
        global_args: vec!["--context".into(), "prod".into()],
        env: Vec::new(),
    };
    assert_eq!(
        vec![
            "--context".to_string(),
            "prod".to_string(),
            "exec".to_string(),
            "web".to_string(),
            "ls".to_string(),
            "-la".to_string()
        ],
        docker.exec_args("web", &["ls".to_string(), "-la".to_string()])
    );
}

#[test]
fn recognizes_provider_exec_bridge_as_container() {
    let mut config = config(
        "/Users/me/.config/navop/extensions/composite/com.navop.docker/bin/docker-provider",
        &["exec-bridge", "abc123", "sh"],
    );
    config.env = vec![
        ("DOCKER_HOST".into(), "tcp://10.0.0.3:2375".into()),
        ("DOCKER_TLS_VERIFY".into(), String::new()),
    ];
    let (docker, container) =
        docker_exec_invocation(&config).expect("provider exec-bridge should parse");
    assert_eq!("abc123", container);
    assert!(docker.global_args.is_empty());
    assert_eq!(
        docker.env,
        vec![
            ("DOCKER_HOST".to_string(), "tcp://10.0.0.3:2375".to_string()),
            ("DOCKER_TLS_VERIFY".to_string(), String::new()),
        ]
    );
    assert!(resolve_local_workspace_source(&config)
        .expect("container source")
        .is_container());
}

#[test]
fn recognizes_provider_exec_with_flags() {
    let (_, container) = docker_exec_invocation(&config(
        "docker-provider",
        &["exec", "-i", "svc", "ls", "-Ap"],
    ))
    .expect("provider exec should parse");
    assert_eq!("svc", container);
}

#[test]
fn rejects_provider_without_exec_subcommand() {
    assert!(docker_exec_invocation(&config("docker-provider", &[])).is_none());
}

#[test]
fn program_names_are_matched_by_file_name_ignoring_case() {
    assert!(is_docker_program("docker"));
    assert!(is_docker_program("C:\\Program Files\\Docker\\DOCKER.EXE"));
    assert!(is_docker_program("/usr/bin/Docker"));
    assert!(!is_docker_program("/usr/bin/docker-compose"));
    assert!(!is_docker_program("docker/"));
    assert!(is_docker_provider_program("bin\\docker-provider.exe"));
    assert!(!is_docker_provider_program("docker"));
}

#[test]
fn exec_options_that_take_values() {
    assert!(exec_option_takes_value("--user"));
    assert!(exec_option_takes_value("--detach-keys"));
    assert!(!exec_option_takes_value("--interactive"));
    assert!(exec_option_takes_value("-u"));
    assert!(exec_option_takes_value("-itw"));
    assert!(!exec_option_takes_value("-it"));
    assert!(!exec_option_takes_value("user"));
}

#[test]
fn a_blank_or_option_like_container_is_rejected() {
    assert!(docker_exec_invocation(&config("docker", &["exec", "--", "   "])).is_none());
    assert!(docker_exec_invocation(&config("docker", &["exec", "--", "-x"])).is_none());
    assert!(docker_exec_invocation(&config("docker", &["exec", "-u"])).is_none());
}

#[test]
fn a_configured_working_directory_is_the_host_root() {
    let mut config = config("bash", &[]);
    config.working_dir = Some(PathBuf::from("/srv/project"));
    let source = resolve_local_workspace_source(&config).expect("host source");
    assert!(!source.is_container());
    assert_eq!(PathBuf::from("/srv/project"), source.root());
}

#[test]
fn resolvers_are_tried_container_first() {
    let resolvers = default_workspace_resolvers();
    assert_eq!(3, resolvers.len());
    assert!(matches!(resolvers[0], WorkspaceResolver::DockerExec(_)));
    assert!(matches!(resolvers[1], WorkspaceResolver::Wsl(_)));
    assert!(matches!(resolvers[2], WorkspaceResolver::Host(_)));
    let docker = config("docker", &["exec", "box"]);
    assert!(resolvers[0].resolve(&docker).is_some());
    assert!(resolvers[1].resolve(&docker).is_none());
}
