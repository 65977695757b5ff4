use husk::cli::{
    api_error, command_hint, default_vm_name, logs_url, new_vm_name, parse_cp_path, parse_env,
    parse_octal_mode, plan_cp, shell_refusal, shell_started, shell_url, terminal_step, CpPath,
    CpPlan, TerminalAction, TerminalEvent, VmCommand,
};
use husk::config::{apply_env_overrides, resolve_config_path, user_config_path, Config, EnvOverrides};
use husk::daemon::{
    check_config, find_in_path, parse_cidr, validate_daemon_bind, ConfigFacts, DirOutcome,
    HostAddr, KernelOutcome,
};
use husk::ip::ipv4;
use husk::shell::{WsShellInput, WsShellOutput};

#[test]
fn parse_cp_path_local() {
    assert!(matches!(parse_cp_path("/tmp/file.txt"), CpPath::Local(p) if p == "/tmp/file.txt"));
    assert!(matches!(parse_cp_path("relative.txt"), CpPath::Local(p) if p == "relative.txt"));
    assert!(matches!(parse_cp_path("./dir/file"), CpPath::Local(p) if p == "./dir/file"));
}

#[test]
fn parse_cp_path_vm() {
    match parse_cp_path("myvm:/tmp/file.txt") {
        CpPath::Vm { name, path } => {
            assert_eq!(name, "myvm");
            assert_eq!(path, "/tmp/file.txt");
        }
        CpPath::Local(_) => panic!("expected Vm"),
    }
}

#[test]
fn parse_cp_path_vm_relative_guest_path() {
    match parse_cp_path("myvm:relative/path") {
        CpPath::Vm { name, path } => {
            assert_eq!(name, "myvm");
            assert_eq!(path, "relative/path");
        }
        CpPath::Local(_) => panic!("expected Vm"),
    }
}

#[test]
fn parse_cp_path_multiple_colons() {
    match parse_cp_path("myvm:/path:with:colons") {
        CpPath::Vm { name, path } => {
            assert_eq!(name, "myvm");
            assert_eq!(path, "/path:with:colons");
        }
        CpPath::Local(_) => panic!("expected Vm"),
    }
}

#[test]
fn parse_cp_path_empty_name_is_local() {
    assert!(matches!(parse_cp_path(":/tmp/file"), CpPath::Local(_)));
}

#[test]
fn parse_cp_path_empty_path_is_local() {
    assert!(matches!(parse_cp_path("vmname:"), CpPath::Local(_)));
}

#[test]
fn copies_are_between_host_and_vm() {
    assert!(matches!(
        plan_cp("a.txt", "vm:/b"),
        Ok(CpPlan::Upload { local, name, path }) if local == "a.txt" && name == "vm" && path == "/b"
    ));
    assert!(matches!(
        plan_cp("vm:/b", "a.txt"),
        Ok(CpPlan::Download { name, path, local }) if local == "a.txt" && name == "vm" && path == "/b"
    ));
    assert_eq!(
        plan_cp("a", "b").unwrap_err(),
        "both source and destination are local paths; prefix one with vmname:"
    );
    assert_eq!(
        plan_cp("a:b", "c:d").unwrap_err(),
        "VM-to-VM copy is not supported; copy to local first"
    );
}

#[test]
fn octal_mode_parsing() {
    assert_eq!(parse_octal_mode("755").unwrap(), 0o755);
    assert_eq!(parse_octal_mode("644").unwrap(), 0o644);
    assert_eq!(parse_octal_mode("777").unwrap(), 0o777);
    assert_eq!(parse_octal_mode("400").unwrap(), 0o400);
}

#[test]
fn octal_mode_invalid() {
    assert!(parse_octal_mode("999").is_err());
    assert!(parse_octal_mode("abc").is_err());
    assert!(parse_octal_mode("").is_err());
}

#[test]
fn octal_mode_faults_are_those_of_std() {
    for s in ["999", "", "+", "-1", "77777777777", "40000000000", "+7", "0"] {
        let want = u32::from_str_radix(s, 8).map_err(|e| format!("invalid octal mode: {e}"));
        assert_eq!(parse_octal_mode(s), want, "{s}");
    }
}

#[test]
fn daemon_bind_loopback_allowed_without_flag() {
    let addr = HostAddr::V4(ipv4(127, 0, 0, 1));
    assert!(validate_daemon_bind(addr, "127.0.0.1:7777", false).is_ok());
    assert!(validate_daemon_bind(HostAddr::V6(1), "[::1]:7777", false).is_ok());
}

#[test]
fn daemon_bind_non_loopback_requires_allow_remote() {
    let addr = HostAddr::V4(0);
    let e = validate_daemon_bind(addr, "0.0.0.0:7777", false).unwrap_err();
    assert_eq!(
        e,
        "refusing to bind daemon to non-loopback address 0.0.0.0:7777 without --allow-remote"
    );
    assert!(validate_daemon_bind(addr, "0.0.0.0:7777", true).is_ok());
    assert!(validate_daemon_bind(HostAddr::V6(0), "[::]:7777", false).is_err());
}

fn no_overrides() -> EnvOverrides {
    EnvOverrides {
        data_dir: None,
        default_kernel: None,
        api_token: None,
        api_max_request_bytes: None,
        api_max_file_read_bytes: None,
        api_max_file_write_bytes: None,
        api_sensitive_rate_limit_per_minute: None,
        allowed_read_paths: None,
        allowed_write_paths: None,
        exec_timeout_secs: None,
        exec_allowlist: None,
        exec_denylist: None,
        exec_env_allowlist: None,
        firecracker_bin: None,
        host_interface: None,
        bridge_name: None,
        bridge_subnet: None,
        dns_servers: None,
    }
}

fn with_env(env: EnvOverrides) -> Config {
    let mut config = Config::defaults(false, None);
    apply_env_overrides(&mut config, env);
    config
}

#[test]
fn env_override_data_dir() {
    let env = EnvOverrides { data_dir: Some("/tmp/husk-env-test".into()), ..no_overrides() };
    assert_eq!(with_env(env).data_dir, "/tmp/husk-env-test");
}

#[test]
fn env_override_default_kernel() {
    let env = EnvOverrides { default_kernel: Some("/tmp/custom-kernel".into()), ..no_overrides() };
    assert_eq!(with_env(env).default_kernel, "/tmp/custom-kernel");
}

#[test]
fn env_override_api_token() {
    let env = EnvOverrides { api_token: Some("test-token".into()), ..no_overrides() };
    assert_eq!(with_env(env).api_token.as_deref(), Some("test-token"));
}

#[test]
fn env_override_dns_servers_comma_separated() {
    let env = EnvOverrides {
        dns_servers: Some("1.1.1.1, 8.8.4.4, 9.9.9.9".into()),
        ..no_overrides()
    };
    assert_eq!(with_env(env).dns_servers, ["1.1.1.1", "8.8.4.4", "9.9.9.9"]);
}

#[test]
fn env_override_lists_and_numbers() {
    let env = EnvOverrides {
        allowed_read_paths: Some(" /tmp , ,/var/log,".into()),
        exec_denylist: Some("\trm\u{3000},dd".into()),
        dns_servers: Some("1.1.1.1,,".into()),
        api_max_request_bytes: Some("17".into()),
        exec_timeout_secs: Some("soon".into()),
        api_sensitive_rate_limit_per_minute: Some("4294967296".into()),
        ..no_overrides()
    };
    let c = with_env(env);
    assert_eq!(c.allowed_read_paths, ["/tmp", "/var/log"]);
    assert_eq!(c.exec_denylist, ["rm", "dd"]);
    assert_eq!(c.dns_servers, ["1.1.1.1", "", ""]);
    assert_eq!(c.api_max_request_bytes, 17);
    assert_eq!(c.exec_timeout_secs, 30);
    assert_eq!(c.api_sensitive_rate_limit_per_minute, 120);
    let p = c.api_policy();
    assert_eq!(p.max_request_bytes, 17);
    assert_eq!(p.allowed_read_paths, ["/tmp", "/var/log"]);
}

#[test]
fn default_configuration() {
    let c = with_env(no_overrides());
    assert_eq!(c.firecracker_bin, "firecracker");
    assert_eq!(c.data_dir, "/var/lib/husk");
    assert_eq!(c.default_kernel, "/var/lib/husk/kernels/vmlinux");
    assert_eq!(c.host_interface, "eth0");
    assert_eq!(c.bridge_name, "husk0");
    assert_eq!(c.bridge_subnet, "172.20.0.0/24");
    assert_eq!(c.dns_servers, ["8.8.8.8", "1.1.1.1"]);
    let mac = Config::defaults(true, Some("/Users/me"));
    assert_eq!(mac.data_dir, "/Users/me/.local/share/husk");
    assert_eq!(mac.default_kernel, "/Users/me/.local/share/husk/kernels/Image-virt");
}

#[test]
fn configuration_file_is_chosen_in_order() {
    let user = user_config_path("/home/me");
    assert_eq!(user, "/home/me/.config/husk/config.toml");
    assert_eq!(resolve_config_path(Some("/x"), Some(&user)), "/x");
    assert_eq!(resolve_config_path(None, Some(&user)), user);
    assert_eq!(resolve_config_path(None, None), "/etc/husk/config.toml");
}

#[test]
fn valid_cidr() {
    let (base, prefix) = parse_cidr("172.20.0.0/24").unwrap();
    assert_eq!(base, ipv4(172, 20, 0, 0));
    assert_eq!(prefix, 24);
}

#[test]
fn valid_cidr_slash_16() {
    let (base, prefix) = parse_cidr("10.0.0.0/16").unwrap();
    assert_eq!(base, ipv4(10, 0, 0, 0));
    assert_eq!(prefix, 16);
}

#[test]
fn valid_cidr_slash_30() {
    let (base, prefix) = parse_cidr("10.0.0.0/30").unwrap();
    assert_eq!(base, ipv4(10, 0, 0, 0));
    assert_eq!(prefix, 30);
}

#[test]
fn missing_slash() {
    let err = parse_cidr("172.20.0.0").unwrap_err();
    assert!(err.contains("missing '/'"));
}

#[test]
fn invalid_base_address() {
    assert!(parse_cidr("not.an.ip/24").is_err());
}

#[test]
fn invalid_prefix_not_number() {
    assert!(parse_cidr("172.20.0.0/abc").is_err());
}

#[test]
fn prefix_too_large() {
    let err = parse_cidr("172.20.0.0/31").unwrap_err();
    assert!(err.contains("1..=30"));
}

#[test]
fn prefix_zero() {
    let err = parse_cidr("0.0.0.0/0").unwrap_err();
    assert!(err.contains("1..=30"));
}

#[test]
fn base_not_network_aligned() {
    let msg = parse_cidr("172.20.0.5/24").unwrap_err();
    assert!(msg.contains("not network-aligned"), "got: {msg}");
    assert!(msg.contains("172.20.0.0/24"), "got: {msg}");
}

#[test]
fn base_not_aligned_slash_16() {
    let msg = parse_cidr("10.0.1.0/16").unwrap_err();
    assert!(msg.contains("not network-aligned"), "got: {msg}");
    assert!(msg.contains("10.0.0.0/16"), "got: {msg}");
    assert_eq!(
        msg,
        "base address 10.0.1.0 is not network-aligned for /16 (did you mean 10.0.0.0/16?)"
    );
}

#[test]
fn programs_are_looked_for_in_the_search_path() {
    assert_eq!(find_in_path("/bin/fc", Some("/a:/b")), ["/bin/fc"]);
    assert_eq!(find_in_path("fc", Some("/a:/b/:")), ["/a/fc", "/b/fc", "fc"]);
    assert!(find_in_path("fc", None).is_empty());
}

fn facts() -> ConfigFacts {
    ConfigFacts {
        data_dir: DirOutcome::Created,
        data_dir_from_env: true,
        kernel: KernelOutcome::File,
        kernel_from_env: false,
        firecracker: Some("/usr/bin/firecracker".into()),
        firecracker_from_env: false,
        interface_exists: true,
        interface_from_env: false,
        subnet_from_env: true,
    }
}

#[test]
fn configuration_report() {
    let c = with_env(no_overrides());
    let (lines, ok) = check_config(&c, &facts(), true);
    assert!(ok);
    assert_eq!(
        lines,
        [
            "  data_dir (/var/lib/husk) ... OK (created) (from HUSK_DATA_DIR)",
            "  default_kernel (/var/lib/husk/kernels/vmlinux) ... OK",
            "  firecracker_bin (firecracker) ... OK (/usr/bin/firecracker)",
            "  host_interface (eth0) ... OK",
            "  bridge_subnet (172.20.0.0/24) ... OK (from HUSK_BRIDGE_SUBNET)",
        ]
    );
    assert_eq!(check_config(&c, &facts(), false).0.len(), 2);
}

#[test]
fn configuration_report_names_what_is_wrong() {
    let mut c = with_env(no_overrides());
    c.bridge_subnet = "10.0.0.0".into();
    let f = ConfigFacts {
        data_dir: DirOutcome::Failed("denied".into()),
        kernel: KernelOutcome::NotFile,
        firecracker: None,
        interface_exists: false,
        ..facts()
    };
    let (lines, ok) = check_config(&c, &f, true);
    assert!(!ok);
    assert!(lines[0].ends_with("FAIL (denied) (from HUSK_DATA_DIR)"));
    assert!(lines[1].ends_with("FAIL (not a regular file)"));
    assert!(lines[2].ends_with("FAIL (not found)"));
    assert!(lines[3].ends_with("FAIL (not found)"));
    assert!(lines[4].contains("FAIL (invalid CIDR: missing '/')"));
    let missing = ConfigFacts { kernel: KernelOutcome::Missing, ..facts() };
    let (lines, ok) = check_config(&c, &missing, false);
    assert!(!ok && lines[1].ends_with("FAIL (not found)"));
}

#[test]
fn daemon_errors_are_shown_plainly() {
    let show = |status, body: &str| api_error(status, "500 Internal Server Error", body, "VM 'x'");
    assert_eq!(show(500, r#"{"message":"m","hint":"h","error":"e"}"#), "m (hint: h)");
    assert_eq!(show(500, r#"{"message":"m"}"#), "m");
    assert_eq!(show(500, r#"{"error":"e"}"#), "e");
    assert_eq!(show(500, r#"{"other":1}"#), r#"{"other":1}"#);
    assert_eq!(show(500, "[1,2]"), "[1,2]");
    assert_eq!(show(500, "plain"), "plain");
    assert_eq!(show(404, ""), "VM 'x' not found");
    assert_eq!(show(409, ""), "VM 'x' already exists");
    assert_eq!(show(500, ""), "VM 'x': 500 Internal Server Error");
}

#[test]
fn hints_depend_on_the_command() {
    assert_eq!(
        command_hint(VmCommand::Run, "VM already exists: a", "a").as_deref(),
        Some("stop or destroy it first with `husk destroy a`")
    );
    assert_eq!(command_hint(VmCommand::Run, "other", "a"), None);
    assert_eq!(
        command_hint(VmCommand::Stop, "VM 'a' is stopped", "a").as_deref(),
        Some("VM is already stopped")
    );
    assert_eq!(
        command_hint(VmCommand::Pause, "is stopped, expected running", "a").as_deref(),
        Some("start the VM first with `husk run`")
    );
    assert_eq!(
        command_hint(VmCommand::Resume, "is running", "a").as_deref(),
        Some("VM is already running, nothing to resume")
    );
    assert_eq!(
        command_hint(VmCommand::Resume, "is stopped", "a").as_deref(),
        Some("start the VM first with `husk run`")
    );
    assert_eq!(command_hint(VmCommand::Pause, "is failed", "a"), None);
}

#[test]
fn shells_need_a_running_vm() {
    assert!(shell_refusal("a", "running").is_none());
    let (m, h) = shell_refusal("a", "paused").unwrap();
    assert_eq!(m, "VM 'a' is paused, expected running");
    assert_eq!(h.as_deref(), Some("resume the VM first with `husk resume a`"));
    assert!(shell_refusal("a", "stopped").unwrap().1.is_some());
    assert!(shell_refusal("a", "unknown").unwrap().1.is_none());
}

#[test]
fn addresses_of_the_daemon() {
    assert_eq!(shell_url("http://127.0.0.1:7777", "a"), "ws://127.0.0.1:7777/v1/vms/a/shell");
    assert_eq!(shell_url("https://host", "a"), "wss://host/v1/vms/a/shell");
    assert_eq!(shell_url("http://x/http://y", "a"), "ws://x/http://y/v1/vms/a/shell");
    assert_eq!(logs_url("u", "a", false, None), "u/v1/vms/a/logs");
    assert_eq!(logs_url("u", "a", true, None), "u/v1/vms/a/logs?follow=true");
    assert_eq!(logs_url("u", "a", true, Some(5)), "u/v1/vms/a/logs?follow=true&tail=5");
    assert_eq!(logs_url("u", "a", false, Some(5)), "u/v1/vms/a/logs?tail=5");
}

#[test]
fn variables_are_read_from_arguments() {
    let args = ["A=1", "B", "C=x=y", "=v"].map(|s| s.to_string());
    let pairs = parse_env(&args);
    assert_eq!(
        pairs,
        [("A", "1"), ("C", "x=y"), ("", "v")].map(|(k, v)| (k.to_string(), v.to_string()))
    );
}

#[test]
fn vm_without_a_name_gets_one() {
    assert_eq!(default_vm_name(0x0123_4567_89ab_cdef_0123_4567_89ab_cdef), "vm-01234567");
    let name = new_vm_name();
    assert_eq!(name.len(), 11);
    assert!(name.starts_with("vm-"));
    assert!(name[3..].chars().all(|c| c.is_ascii_hexdigit()));
    assert_ne!(name, new_vm_name());
}

#[test]
fn terminal_is_bridged() {
    assert!(matches!(terminal_step(TerminalEvent::Typed(vec![])), TerminalAction::Exit(0)));
    match terminal_step(TerminalEvent::Typed(b"A".to_vec())) {
        TerminalAction::Send(WsShellInput::Data { data }) => assert_eq!(data, "QQ=="),
        _ => panic!("expected input"),
    }
    assert!(matches!(
        terminal_step(TerminalEvent::Resized { cols: 1, rows: 2 }),
        TerminalAction::Send(WsShellInput::Resize { cols: 1, rows: 2 })
    ));
    assert!(matches!(terminal_step(TerminalEvent::HungUp), TerminalAction::CloseAndExit(0)));
    let answer = |o| terminal_step(TerminalEvent::Answer(o));
    assert!(matches!(
        answer(WsShellOutput::Data { data: "QQ==".into() }),
        TerminalAction::Write(d) if d == b"A"
    ));
    assert!(matches!(
        answer(WsShellOutput::Data { data: "!".into() }),
        TerminalAction::Fail(m) if m.starts_with("base64 decode: ")
    ));
    assert!(matches!(answer(WsShellOutput::Exit { exit_code: 3 }), TerminalAction::Exit(3)));
    assert!(matches!(
        answer(WsShellOutput::Error { message: "x".into() }),
        TerminalAction::Fail(m) if m == "agent error: x"
    ));
    assert!(matches!(answer(WsShellOutput::Started), TerminalAction::Ignore));
    assert!(matches!(terminal_step(TerminalEvent::Other), TerminalAction::Ignore));
    assert!(matches!(terminal_step(TerminalEvent::Closed), TerminalAction::Exit(0)));
    assert!(matches!(
        terminal_step(TerminalEvent::Broken("x".into())),
        TerminalAction::Fail(m) if m == "WebSocket error: x"
    ));
}

#[test]
fn first_answer_decides_about_the_shell() {
    assert!(shell_started(WsShellOutput::Started).is_ok());
    assert_eq!(shell_started(WsShellOutput::Error { message: "no".into() }).unwrap_err(), "no");
    assert_eq!(
        shell_started(WsShellOutput::Exit { exit_code: 0 }).unwrap_err(),
        "unexpected response from server"
    );
}
