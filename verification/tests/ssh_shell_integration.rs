use navop_core::ssh_shell_integration::{
    ansi_c_quote, find_subslice, FilteredShellOutput, RuntimeShellIntegration, ShellIntegrationReady,
    MAX_SUPPRESSED_OUTPUT_BYTES, SHELL_INTEGRATION_READY_MARKER,
};

#[test]
fn runtime_command_is_one_line_and_keeps_navop_osc_protocol() {
    let integration = RuntimeShellIntegration::new(true);
    let command = String::from_utf8(integration.injection_command().to_vec())
        .expect("runtime command must be UTF-8 shell text");

    assert!(command.starts_with(' '));
    assert!(command.ends_with('\r'));
    assert!(!command[..command.len() - 1].contains('\n'));
    assert!(command.contains("__ONETCLI_RUNTIME_SETUP_1"));
    assert!(command.contains("eval $'"));
    assert!(command.contains("133;A"));
    assert!(command.contains("1337;Command="));
    assert!(command.contains("ShellIntegrationReady=1"));
    assert!(command.contains("_ONETCLI_SHELL_INTEGRATED=1"));
    assert!(!command.contains(".config/onetcli"));
    assert!(!command.contains(".bashrc"));
    assert!(!command.contains(".zshrc"));
    assert!(!command.contains("mkdir"));
}

#[test]
fn split_runtime_echo_is_hidden_until_completion_marker() {
    let mut integration = RuntimeShellIntegration::new(true);
    assert!(integration.should_inject(b"welcome\r\nuser@host$ ", true, false));
    integration.begin_injection();

    assert_eq!(
        FilteredShellOutput::Suppressed,
        integration.filter_output(b" echoed internal setup\r\n".to_vec())
    );
    assert_eq!(
        FilteredShellOutput::Suppressed,
        integration.filter_output(b"\x1b]133;A\x07user@host$ \x1b]1337;Shell".to_vec())
    );

    assert_eq!(
        FilteredShellOutput::Forward {
            data: b"\x1b]133;B\x07tail".to_vec(),
            ready: ShellIntegrationReady::Unchanged,
        },
        integration.filter_output(b"IntegrationReady=1\x07\x1b]133;B\x07tail".to_vec())
    );
    assert!(!integration.accepts_terminal_input());
    integration.on_input_start();
    assert!(integration.accepts_terminal_input());
}

#[test]
fn timeout_releases_suppressed_output_and_falls_back_to_plain_shell() {
    let mut integration = RuntimeShellIntegration::new(true);
    integration.begin_injection();
    assert_eq!(
        FilteredShellOutput::Suppressed,
        integration.filter_output(b"echoed prompt".to_vec())
    );

    assert!(integration.on_timeout());
    assert!(!integration.accepts_terminal_input());
    assert_eq!(
        FilteredShellOutput::Forward {
            data: b"next prompt".to_vec(),
            ready: ShellIntegrationReady::Plain,
        },
        integration.filter_output(b"next prompt".to_vec())
    );
    assert!(integration.accepts_terminal_input());
}

#[test]
fn disabled_integration_forwards_everything_and_accepts_input_immediately() {
    let mut integration = RuntimeShellIntegration::new(false);
    assert!(!integration.should_inject(b"prompt", true, false));
    assert!(integration.accepts_terminal_input());
    assert_eq!(
        FilteredShellOutput::Forward {
            data: b"prompt".to_vec(),
            ready: ShellIntegrationReady::Unchanged,
        },
        integration.filter_output(b"prompt".to_vec())
    );
}

#[test]
fn handshake_watchdog_releases_stalled_waiting_for_first_output() {
    let mut integration = RuntimeShellIntegration::new(true);
    assert_eq!("waiting-for-first-output", integration.phase_name());
    assert!(!integration.accepts_terminal_input());

    assert!(integration.force_release_input());
    assert!(integration.accepts_terminal_input());
    assert_eq!("plain", integration.phase_name());
    assert!(
        !integration.should_inject(b"prompt", true, false),
        "强制放行后不应再注入，否则暂存的用户输入会与注入命令混在一起"
    );
}

#[test]
fn handshake_watchdog_releases_stalled_injection_and_prompt_wait() {
    let mut integration = RuntimeShellIntegration::new(true);
    integration.begin_injection();
    assert_eq!("injecting", integration.phase_name());
    assert!(integration.force_release_input());
    assert!(integration.accepts_terminal_input());

    let mut integration = RuntimeShellIntegration::new(true);
    integration.begin_injection();
    assert_eq!(
        FilteredShellOutput::Suppressed,
        integration.filter_output(b"echoed setup without marker".to_vec())
    );
    let _ = integration.filter_output(b"\x1b]1337;ShellIntegrationReady=1\x07prompt".to_vec());
    assert_eq!("awaiting-prompt", integration.phase_name());
    assert!(!integration.accepts_terminal_input());
    assert!(integration.force_release_input());
    assert!(integration.accepts_terminal_input());
    assert_eq!("plain", integration.phase_name());

    let mut integration = RuntimeShellIntegration::new(true);
    integration.begin_injection();
    assert!(integration.on_timeout());
    assert_eq!("plain-awaiting-output", integration.phase_name());
    assert!(!integration.accepts_terminal_input());
    assert!(integration.force_release_input());
    assert!(integration.accepts_terminal_input());
}

#[test]
fn handshake_watchdog_keeps_already_usable_phases_untouched() {
    let mut integration = RuntimeShellIntegration::new(false);
    assert!(!integration.force_release_input(), "未请求注入的会话无需降级");
    assert!(integration.accepts_terminal_input());

    let mut integration = RuntimeShellIntegration::new(true);
    integration.on_input_start();
    assert!(integration.is_integrated());
    assert!(!integration.force_release_input(), "已集成会话不应被看门狗降级");
    assert!(integration.is_integrated());
    assert!(integration.accepts_terminal_input());
}

#[test]
fn login_incomplete_or_expect_round_defers_injection() {
    let integration = RuntimeShellIntegration::new(true);
    assert!(!integration.should_inject(b"login:", false, false));
    assert!(!integration.should_inject(b"welcome", true, true));
    assert!(integration.should_inject(b"prompt", true, false));
}

#[test]
fn existing_integration_from_legacy_rc_block_is_detected_via_input_start() {
    let mut integration = RuntimeShellIntegration::new(true);
    integration.on_input_start();
    assert!(integration.is_integrated());
    assert!(!integration.should_inject(b"prompt", true, false));
}

#[test]
fn ansi_c_quote_escapes_quotes_backslashes_and_line_breaks() {
    assert_eq!("$'a\\'b\\\\c\\nd\\re\\tf'", ansi_c_quote("a'b\\c\nd\re\tf"));
    assert_eq!("$''", ansi_c_quote(""));
    assert_eq!("$'héllo'", ansi_c_quote("héllo"));
}

#[test]
fn find_subslice_reports_the_first_occurrence() {
    assert_eq!(Some(2), find_subslice(b"abcabc", b"ca"));
    assert_eq!(Some(0), find_subslice(b"abcabc", b"abc"));
    assert_eq!(None, find_subslice(b"abcabc", b"cb"));
    assert_eq!(None, find_subslice(b"ab", b"abc"));
}

#[test]
fn marker_is_the_osc_ready_sequence() {
    assert_eq!(
        b"\x1b]1337;ShellIntegrationReady=1\x07".to_vec(),
        SHELL_INTEGRATION_READY_MARKER.to_vec()
    );
}

#[test]
fn held_back_output_keeps_only_the_newest_bytes() {
    let mut integration = RuntimeShellIntegration::new(true);
    integration.begin_injection();
    let noise = vec![b'x'; MAX_SUPPRESSED_OUTPUT_BYTES + 10];
    assert_eq!(FilteredShellOutput::Suppressed, integration.filter_output(noise));
    let mut chunk = SHELL_INTEGRATION_READY_MARKER.to_vec();
    chunk.extend_from_slice(b"after");
    assert_eq!(
        FilteredShellOutput::Forward {
            data: b"after".to_vec(),
            ready: ShellIntegrationReady::Unchanged,
        },
        integration.filter_output(chunk)
    );
    assert_eq!("awaiting-prompt", integration.phase_name());
}

#[test]
fn integrated_sessions_pass_output_through() {
    let mut integration = RuntimeShellIntegration::new(true);
    integration.mark_existing_ready();
    assert!(integration.is_integrated());
    assert!(!integration.is_injecting());
    assert!(!integration.on_timeout());
    assert_eq!(
        FilteredShellOutput::Forward {
            data: b"ls\r\n".to_vec(),
            ready: ShellIntegrationReady::Unchanged,
        },
        integration.filter_output(b"ls\r\n".to_vec())
    );
    assert_eq!("integrated", integration.phase_name());
}
