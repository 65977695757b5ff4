use husk::api::{
    added_port_forward, authorize, authorize_image, check_exec, check_rate, check_read, check_write,
    error_response, error_response_with_hint, exec_answer, health, host_group_to_response, image_to_response,
    is_error_status, map_agent_connect_error, map_error, metrics, port_forward_to_response,
    read_answer, record_to_response, request_id, service_to_response, snapshot_to_response,
    vm_counts, write_answer, ApiMetrics, ExecOutcome, ExecRequest, ReadFileRequest, VmCounts,
    WriteFileRequest,
};
use husk::base64::base64_encode;
use husk::catalog::{HostGroupRecord, ImageRecord, ServiceRecord, SnapshotRecord};
use husk::client::{AgentError, ExecResult};
use husk::guard::{
    exec_command_allowed, exec_env_allowed, is_allowed_guest_path, is_authorized,
    is_protected_route, is_rate_limited_route, normalize_guest_path, set_policy, ApiPolicy,
};
use husk::limiter::{SlidingWindowRateLimiter, WINDOW};
use husk::logs::{
    cut_notice, log_start, log_view, missing_log, tail_lines, unseekable_log, FileFault,
    FollowAction, FollowEvent, LogFollower,
};
use husk::net::NetError;
use husk::orchestrator::{CoreError, HuskCore};
use husk::shell::{
    default_cols, default_rows, start_input, WsAction, WsEvent, WsShellInput, WsShellOutput,
    WsShellSession,
};
use husk::state::{PortForwardRecord, StateError, StateStore, VmRecord};
use husk::storage::{StorageConfig, StorageError};
use husk::vmm::VmmError;

#[test]
fn protected_route_detection_is_correct() {
    assert!(!is_protected_route("GET", "/v1/health"));
    assert!(!is_protected_route("GET", "/v1/vms"));
    assert!(!is_protected_route("GET", "/v1/vms/example"));
    assert!(!is_protected_route("GET", "/v1/services"));
    assert!(!is_protected_route("GET", "/v1/host-groups"));
    assert!(!is_protected_route("GET", "/v1/snapshots"));
    assert!(is_protected_route("POST", "/v1/services"));
    assert!(is_protected_route("POST", "/v1/host-groups"));
    assert!(is_protected_route("POST", "/v1/snapshots"));
    assert!(is_protected_route("DELETE", "/v1/snapshots/snap-1"));
    assert!(is_protected_route("POST", "/v1/vms/example/stop"));
    assert!(is_protected_route("DELETE", "/v1/vms/example"));
    assert!(is_protected_route("GET", "/v1/vms/example/shell"));
}

#[test]
fn auth_enabled_allows_public_health_without_token() {
    assert!(authorize(Some("secret"), "GET", "/v1/health", None).is_ok());
}

#[test]
fn auth_enabled_rejects_mutating_endpoint_without_token() {
    let e = authorize(Some("secret"), "POST", "/v1/vms/nonexistent/stop", None).unwrap_err();
    assert_eq!(e.status, 401);
    assert_eq!(e.body.code, "unauthorized");
}

#[test]
fn auth_enabled_accepts_valid_token_for_mutating_endpoint() {
    let path = "/v1/vms/nonexistent/stop";
    assert!(authorize(Some("secret"), "POST", path, Some("Bearer secret")).is_ok());
    assert!(authorize(Some("secret"), "POST", path, Some("secret")).is_err());
    assert!(authorize(None, "POST", path, None).is_ok());
}

#[test]
fn auth_enabled_requires_token_for_shell_endpoint() {
    assert!(!is_authorized(Some("secret"), "GET", "/v1/vms/test/shell", None));
}

#[test]
fn auth_enabled_rejects_service_mutation_without_token() {
    assert!(!is_authorized(Some("secret"), "POST", "/v1/host-groups", None));
}

#[test]
fn auth_enabled_rejects_snapshot_mutation_without_token() {
    assert!(!is_authorized(Some("secret"), "POST", "/v1/snapshots", None));
}

#[test]
fn normalize_guest_path_rejects_parent_traversal() {
    assert_eq!(normalize_guest_path("relative/path"), None);
    assert_eq!(normalize_guest_path("/var/log/../tmp"), None);
    assert_eq!(normalize_guest_path("/var//log/./kernel"), Some("/var/log/kernel".into()));
}

#[test]
fn plain_paths_stay_as_they_are() {
    for path in ["/", "/a", "/a/b.c", "/var//log/./kernel/", "//", "/..."] {
        let plain = normalize_guest_path(path).unwrap();
        assert_eq!(normalize_guest_path(&plain), Some(plain.clone()));
    }
    assert_eq!(normalize_guest_path("/"), Some("/".into()));
    assert_eq!(normalize_guest_path("/a/"), Some("/a".into()));
    assert_eq!(normalize_guest_path(""), None);
    assert_eq!(normalize_guest_path("/.."), None);
}

#[test]
fn allowlist_path_enforcement() {
    let allow = vec!["/tmp".to_string(), "/var/log".to_string()];
    assert!(is_allowed_guest_path("/tmp/test.txt", &allow));
    assert!(is_allowed_guest_path("/var/log/kern.log", &allow));
    assert!(!is_allowed_guest_path("/etc/passwd", &allow));

    let no_allowlist: Vec<String> = Vec::new();
    assert!(is_allowed_guest_path("/etc/passwd", &no_allowlist));
    assert!(!is_allowed_guest_path("etc/passwd", &no_allowlist));
}

#[test]
fn allowed_directory_does_not_cover_its_namesakes() {
    let allow = vec!["/tmp".to_string(), "bad".to_string()];
    assert!(is_allowed_guest_path("/tmp", &allow));
    assert!(!is_allowed_guest_path("/tmpfile", &allow));
    assert!(!is_allowed_guest_path("/tmp/../etc", &allow));
}

#[test]
fn exec_policy_allow_deny_and_env() {
    let mut policy = ApiPolicy {
        exec_allowlist: vec!["echo".into(), "ls".into()],
        exec_denylist: vec!["rm".into()],
        exec_env_allowlist: vec!["PATH".into(), "HOME".into()],
        ..ApiPolicy::default()
    };
    assert!(exec_command_allowed("echo", &policy));
    assert!(!exec_command_allowed("rm", &policy));
    assert!(!exec_command_allowed("cat", &policy));

    let mut env = Vec::new();
    env.push(("PATH".to_string(), "/usr/bin".to_string()));
    assert!(exec_env_allowed(&env, &policy));
    env.push(("LD_PRELOAD".to_string(), "x".to_string()));
    assert!(!exec_env_allowed(&env, &policy));

    policy.exec_allowlist.clear();
    assert!(exec_command_allowed("cat", &policy));
    policy.exec_env_allowlist.clear();
    assert!(exec_env_allowed(&env, &policy));
}

#[test]
fn denied_command_is_denied_even_if_allowed() {
    let policy = ApiPolicy {
        exec_allowlist: vec!["rm".into()],
        exec_denylist: vec!["rm".into()],
        ..ApiPolicy::default()
    };
    assert!(!exec_command_allowed("rm", &policy));
}

#[test]
fn rate_limited_route_classification() {
    assert_eq!(is_rate_limited_route("POST", "/v1/vms/test/exec"), Some("exec"));
    assert_eq!(is_rate_limited_route("POST", "/v1/vms/test/files/read"), Some("file_read"));
    assert_eq!(is_rate_limited_route("POST", "/v1/vms/test/files/write"), Some("file_write"));
    assert_eq!(is_rate_limited_route("GET", "/v1/vms/test/shell"), Some("shell"));
    assert_eq!(is_rate_limited_route("GET", "/v1/vms"), None);
    assert_eq!(is_rate_limited_route("POST", "/v1/vms"), None);
}

#[test]
fn request_passes_below_the_limit_of_its_client() {
    let mut limiter = SlidingWindowRateLimiter::new();
    assert!(limiter.allow("a", 2, 10));
    assert!(limiter.allow("b", 1, 20));
    assert!(limiter.allow("a", 0, 30));
    assert!(limiter.allow("a", 2, 40));
    assert!(!limiter.allow("a", 2, 50));
    assert!(!limiter.allow("b", 1, 20 + WINDOW));
    assert!(limiter.allow("a", 3, 50));
    // Of the three that passed under a limit, the first has left the window.
    assert!(limiter.allow("a", 3, 11 + WINDOW));
    assert!(!limiter.allow("a", 3, 12 + WINDOW));
    assert!(limiter.allow("b", 1, 21 + WINDOW));
}

#[test]
fn image_changes_need_the_token() {
    let export = "/v1/images/base/export";
    let e = authorize_image(Some("secret"), "POST", export, None).unwrap_err();
    assert_eq!((e.status, e.body.code.as_str()), (401, "unauthorized"));
    assert!(authorize_image(Some("secret"), "POST", export, Some("Bearer secret")).is_ok());
    assert!(authorize_image(Some("secret"), "DELETE", "/v1/images/base", Some("secret")).is_err());
    assert!(authorize_image(Some("secret"), "GET", "/v1/images", None).is_ok());
    assert!(authorize_image(Some("secret"), "POST", "/v1/vms", None).is_ok());
    assert!(authorize_image(None, "POST", "/v1/images", None).is_ok());
}

#[test]
fn rate_limiter_blocks_when_limit_reached() {
    let mut limiter = SlidingWindowRateLimiter::new();
    assert!(limiter.allow("k", 2, 1));
    assert!(limiter.allow("k", 2, 1));
    assert!(!limiter.allow("k", 2, 1));
}

#[test]
fn rate_limiter_zero_limit_allows_requests() {
    let mut limiter = SlidingWindowRateLimiter::new();
    assert!(limiter.allow("k", 0, 1));
    assert!(limiter.allow("k", 0, 1));
}

#[test]
fn rate_limiter_forgets_what_is_older_than_the_window() {
    let mut limiter = SlidingWindowRateLimiter::new();
    assert!(limiter.allow("k", 1, 5));
    assert!(!limiter.allow("k", 1, 5 + WINDOW));
    assert!(limiter.allow("other", 1, 5 + WINDOW));
    assert!(limiter.allow("k", 1, 6 + WINDOW));
}

#[test]
fn requests_are_counted_by_route_and_client() {
    let mut limits = SlidingWindowRateLimiter::new();
    let policy = ApiPolicy { sensitive_rate_limit_per_minute: 1, ..ApiPolicy::default() };
    let path = "/v1/vms/a/exec";
    assert!(check_rate(&mut limits, &policy, "POST", path, None, 1).is_ok());
    let e = check_rate(&mut limits, &policy, "POST", path, None, 2).unwrap_err();
    assert_eq!((e.status, e.body.code.as_str()), (429, "rate_limited"));
    assert!(check_rate(&mut limits, &policy, "POST", path, Some("10.0.0.1"), 2).is_ok());
    assert!(check_rate(&mut limits, &policy, "GET", "/v1/vms", None, 2).is_ok());
    assert_eq!(limits.events.len(), 2);
    assert_eq!(limits.events[0].0, "exec:local");
}

#[test]
fn tail_lines_returns_last_n() {
    let content = "a\nb\nc\nd\ne\n";
    assert_eq!(tail_lines(content, 2), "d\ne\n");
    assert_eq!(tail_lines(content, 3), "c\nd\ne\n");
}

#[test]
fn tail_lines_n_exceeds_line_count_returns_all() {
    let content = "a\nb\nc\n";
    assert_eq!(tail_lines(content, 100), "a\nb\nc\n");
}

#[test]
fn tail_lines_zero_returns_empty() {
    let content = "a\nb\nc\n";
    assert_eq!(tail_lines(content, 0), "");
}

#[test]
fn tail_lines_empty_input() {
    assert_eq!(tail_lines("", 5), "");
}

#[test]
fn tail_lines_no_trailing_newline() {
    let content = "a\nb\nc";
    assert_eq!(tail_lines(content, 2), "b\nc");
}

#[test]
fn tail_lines_single_line_with_newline() {
    assert_eq!(tail_lines("hello\n", 1), "hello\n");
    assert_eq!(tail_lines("hello\n", 5), "hello\n");
}

#[test]
fn tail_lines_single_line_without_newline() {
    assert_eq!(tail_lines("hello", 1), "hello");
}

#[test]
fn tail_lines_blank_lines_preserved() {
    let content = "a\n\nb\n\nc\n";
    assert_eq!(tail_lines(content, 3), "b\n\nc\n");
}

#[test]
fn tail_lines_agrees_with_lines_of_std() {
    for content in ["\n", "\r\n", "a\r\nb\r", "a\rb\n", "\n\n", "x\r\r\ny", "äö\nü"] {
        for n in 0..4u64 {
            let lines: Vec<&str> = content.lines().collect();
            let start = lines.len().saturating_sub(n as usize);
            let mut want = lines[start..].join("\n");
            if content.ends_with('\n') && !want.is_empty() {
                want.push('\n');
            }
            assert_eq!(tail_lines(content, n), want, "{content:?} {n}");
        }
    }
}

#[test]
fn log_is_cut_to_its_last_mebibyte() {
    assert_eq!(log_start(1_048_576), None);
    assert_eq!(log_start(1_048_577), Some(1));
    assert_eq!(log_view("a\nb\n".into(), false, None), "a\nb\n");
    assert_eq!(
        log_view("a\nb\n".into(), true, None),
        "[... truncated, showing last 1 MiB ...]\na\nb\n"
    );
    assert_eq!(log_view("a\nb\n".into(), true, Some(1)), "b\n");
}

#[test]
fn logs_no_serial_file_returns_404() {
    let e = missing_log("vm1", FileFault::Missing, "gone");
    assert_eq!(e.status, 404);
    assert_eq!(e.body.code, "serial_log_not_found");
    assert_eq!(e.body.message, "no serial log for VM 'vm1'");
    let e = missing_log("vm1", FileFault::Other, "denied");
    assert_eq!((e.status, e.body.message.as_str()), (500, "reading serial log: denied"));
    assert_eq!(unseekable_log("x").body.code, "serial_log_seek_failed");
}

#[test]
fn follower_passes_on_what_is_added() {
    let mut f = LogFollower::start(10);
    assert!(matches!(f.step(FollowEvent::Length(10)), FollowAction::Wait));
    assert!(matches!(
        f.step(FollowEvent::Length(15)),
        FollowAction::Read { notice: false, from: 10 }
    ));
    assert!(matches!(f.step(FollowEvent::Read(5)), FollowAction::Pass));
    assert_eq!(f.offset, 15);
    assert!(matches!(
        f.step(FollowEvent::Length(3)),
        FollowAction::Read { notice: true, from: 0 }
    ));
    assert!(matches!(f.step(FollowEvent::Read(3)), FollowAction::Pass));
    assert!(matches!(f.step(FollowEvent::Length(0)), FollowAction::Notice));
    assert!(matches!(f.step(FollowEvent::NoLength(FileFault::Other)), FollowAction::Wait));
    assert!(matches!(f.step(FollowEvent::NoLength(FileFault::Missing)), FollowAction::End));
    assert!(matches!(f.step(FollowEvent::NotOpened(FileFault::Missing)), FollowAction::End));
    assert!(matches!(f.step(FollowEvent::NotOpened(FileFault::Other)), FollowAction::Fail));
    assert!(matches!(f.step(FollowEvent::NotRead), FollowAction::Fail));
    assert!(cut_notice().contains("rotated or truncated"));
}

#[test]
fn error_mapping_variants() {
    assert_eq!(map_error(&CoreError::VmNotFound("test".into())).status, 404);
    assert_eq!(map_error(&CoreError::VmAlreadyExists("test".into())).status, 409);
    assert_eq!(map_error(&CoreError::HostGroupNotFound("test".into())).status, 404);
    assert_eq!(map_error(&CoreError::ServiceNotFound("test".into())).status, 404);
    assert_eq!(map_error(&CoreError::HostGroupAlreadyExists("test".into())).status, 409);
    assert_eq!(map_error(&CoreError::ServiceAlreadyExists("test".into())).status, 409);
    assert_eq!(map_error(&CoreError::InvalidArgument("bad value".into())).status, 400);
    assert_eq!(map_error(&CoreError::Agent(AgentError::NotReady("5s".into()))).status, 503);
    assert_eq!(map_error(&CoreError::Agent(AgentError::UnexpectedResponse)).status, 500);
    assert_eq!(map_error(&CoreError::Storage(StorageError::CommandFailed("x".into()))).status, 500);
    assert_eq!(map_error(&CoreError::State(StateError::LockPoisoned)).status, 500);
    assert_eq!(map_error(&CoreError::Vmm(VmmError::VmNotFound(1))).status, 500);
    let e = map_error(&CoreError::Network(NetError::CommandFailed {
        cmd: "x".into(),
        message: "y".into(),
    }));
    assert_eq!(e.status, 500);
    assert_eq!(e.body.code, "network_error");
}

#[test]
fn every_error_has_its_code() {
    let s = || "x".to_string();
    let cases = [
        (CoreError::SnapshotNotFound(s()), 404, "snapshot_not_found"),
        (CoreError::ImageNotFound(s()), 404, "image_not_found"),
        (CoreError::SnapshotAlreadyExists(s()), 409, "snapshot_already_exists"),
        (CoreError::ImageAlreadyExists(s()), 409, "image_already_exists"),
        (
            CoreError::InvalidState { name: s(), actual: s(), expected: s() },
            409,
            "invalid_state",
        ),
        (CoreError::VmNotFound(s()), 404, "vm_not_found"),
        (CoreError::State(StateError::LockPoisoned), 500, "state_error"),
        (CoreError::Vmm(VmmError::Io(s())), 500, "vmm_error"),
        (CoreError::Storage(StorageError::Io(s())), 500, "storage_error"),
        (CoreError::Agent(AgentError::Agent(s())), 500, "agent_error"),
    ];
    for (e, status, code) in cases {
        let r = map_error(&e);
        assert_eq!((r.status, r.body.code.as_str()), (status, code));
        assert_eq!(r.body.message, e.message());
        assert!(is_error_status(r.status));
    }
    assert!(!is_error_status(200));
    assert!(!is_error_status(399));
}

#[test]
fn map_agent_connect_error_falls_back_for_non_agent_errors() {
    assert_eq!(map_agent_connect_error(&CoreError::VmNotFound("vm".into())).status, 404);
}

#[test]
fn map_agent_connect_error_returns_service_unavailable_with_hint() {
    let r = map_agent_connect_error(&CoreError::Agent(AgentError::Connection(
        "dial failed".into(),
    )));
    assert_eq!(r.status, 503);

    let payload = r.body;
    assert_eq!(payload.code, "agent_not_ready");
    assert_eq!(
        payload.hint.as_deref(),
        Some("retry after the VM boot sequence has completed")
    );
    assert_eq!(payload.error.as_deref(), Some(payload.message.as_str()));
    assert!(payload.message.contains("agent not ready:"));
}

#[test]
fn ws_shell_start_deserializes_default_terminal_size() {
    match start_input(None, None, None) {
        WsShellInput::Start { cols, rows, .. } => {
            assert_eq!(cols, 80);
            assert_eq!(rows, 24);
        }
        other => panic!("expected start message, got {other:?}"),
    }
    assert_eq!((default_cols(), default_rows()), (80, 24));
}

#[test]
fn policy_can_be_replaced() {
    let mut policy = ApiPolicy::default();
    assert_eq!(policy.max_request_bytes, 2 * 1024 * 1024);
    assert_eq!(policy.exec_timeout_secs, 30);
    set_policy(&mut policy, ApiPolicy { exec_timeout_secs: 5, ..ApiPolicy::default() });
    assert_eq!(policy.exec_timeout_secs, 5);
}

#[test]
fn read_file_policy_denied_returns_403() {
    let policy = ApiPolicy { allowed_read_paths: vec!["/safe".into()], ..ApiPolicy::default() };
    let e = check_read(&ReadFileRequest { path: "/etc/passwd".into() }, &policy).unwrap_err();
    assert_eq!(e.status, 403);
    assert_eq!(e.body.code, "policy_read_path_denied");
    assert!(check_read(&ReadFileRequest { path: "/safe/x".into() }, &policy).is_ok());
}

#[test]
fn read_answer_holds_the_file() {
    let policy = ApiPolicy { max_file_read_bytes: 3, ..ApiPolicy::default() };
    let a = read_answer(Ok(b"abc".to_vec()), &policy).unwrap();
    assert_eq!((a.data.as_str(), a.size), ("YWJj", 3));
    let e = read_answer(Ok(b"abcd".to_vec()), &policy).unwrap_err();
    assert_eq!(e.status, 413);
    assert_eq!(e.body.message, "read result exceeds limit (4 bytes > 3 bytes)");
    assert_eq!(read_answer(Err(AgentError::UnexpectedResponse), &policy).unwrap_err().status, 500);
}

fn write_request(path: &str, data: &str) -> WriteFileRequest {
    WriteFileRequest { path: path.into(), data: data.into(), mode: None }
}

#[test]
fn write_file_policy_denied_returns_403() {
    let policy = ApiPolicy { allowed_write_paths: vec!["/safe".into()], ..ApiPolicy::default() };
    let e = check_write(&write_request("/etc/passwd", &base64_encode(b"x")), &policy).unwrap_err();
    assert_eq!(e.status, 403);
    assert_eq!(e.body.code, "policy_write_path_denied");
}

#[test]
fn write_file_too_large_returns_413() {
    let policy = ApiPolicy { max_file_write_bytes: 1, ..ApiPolicy::default() };
    let e = check_write(&write_request("/tmp/output.bin", &base64_encode(b"xy")), &policy).unwrap_err();
    assert_eq!(e.status, 413);
    assert_eq!(e.body.code, "write_file_too_large");
}

#[test]
fn write_file_invalid_base64_returns_400() {
    let e = check_write(&write_request("/tmp/x", "!!!"), &ApiPolicy::default()).unwrap_err();
    assert_eq!((e.status, e.body.code.as_str()), (400, "invalid_base64"));
    let data = check_write(&write_request("/tmp/x", "YWJj"), &ApiPolicy::default()).unwrap();
    assert_eq!(data, b"abc");
    assert_eq!(write_answer(Ok(3)).unwrap().bytes_written, 3);
    assert!(write_answer(Err(AgentError::UnexpectedResponse)).is_err());
}

fn exec(command: &str, env: Vec<(String, String)>) -> ExecRequest {
    ExecRequest { command: command.into(), args: vec![], working_dir: None, env }
}

#[test]
fn commands_are_checked_before_they_run() {
    let policy = ApiPolicy {
        exec_denylist: vec!["rm".into()],
        exec_env_allowlist: vec!["PATH".into()],
        exec_timeout_secs: 0,
        ..ApiPolicy::default()
    };
    let e = check_exec(&exec("rm", vec![]), &policy).unwrap_err();
    assert_eq!((e.status, e.body.code.as_str()), (403, "policy_exec_command_denied"));
    assert_eq!(e.body.message, "command 'rm' is blocked by execution policy");
    let e = check_exec(&exec("ls", vec![("X".into(), "1".into())]), &policy).unwrap_err();
    assert_eq!(e.body.code, "policy_exec_env_denied");
    assert_eq!(check_exec(&exec("ls", vec![]), &policy).unwrap(), 1);
    assert_eq!(check_exec(&exec("ls", vec![]), &ApiPolicy::default()).unwrap(), 30);
}

#[test]
fn command_answers() {
    let e = exec_answer(ExecOutcome::TimedOut).unwrap_err();
    assert_eq!((e.status, e.body.code.as_str()), (408, "exec_timeout"));
    let ok = ExecResult { exit_code: 2, stdout: "o".into(), stderr: "e".into() };
    let a = exec_answer(ExecOutcome::Ended(Ok(ok))).unwrap();
    assert_eq!((a.exit_code, a.stdout.as_str(), a.stderr.as_str()), (2, "o", "e"));
    let e = exec_answer(ExecOutcome::Ended(Err(AgentError::Agent("no".into())))).unwrap_err();
    assert_eq!(e.status, 500);
}

fn record(id: u128, state: &str) -> VmRecord {
    VmRecord {
        id,
        name: format!("vm{id}"),
        state: state.into(),
        pid: Some(1),
        vcpu_count: 1,
        mem_size_mib: 128,
        vsock_cid: 3,
        tap_device: None,
        host_ip: None,
        guest_ip: Some("172.20.0.2".into()),
        kernel_path: "/k".into(),
        rootfs_path: "/r".into(),
        created_at: "2026-01-02T03:04:05+00:00".into(),
        updated_at: "2026-01-02T03:04:05+00:00".into(),
        userdata: None,
        userdata_status: None,
        userdata_env: None,
    }
}

fn orchestrator(states: &[&str]) -> HuskCore {
    let mut store = StateStore::open_memory();
    for (i, s) in states.iter().enumerate() {
        store.insert_vm(record(i as u128, s)).unwrap();
    }
    HuskCore::new(store, None, StorageConfig { data_dir: "/d".into() }, "/d/run".into())
}

#[test]
fn health_counts_vms_correctly() {
    let c = orchestrator(&["running", "running", "stopped"]);
    let h = health(Some(&c), true, "0.1.0", 5);
    assert_eq!(h.status, "ok");
    assert_eq!((h.vms.total, h.vms.running), (3, 2));
    assert_eq!(h.uptime_seconds, 5);
    assert_eq!(h.checks[0], ("state_db".to_string(), "ok".to_string()));
    let h = health(None, false, "0.1.0", 5);
    assert_eq!((h.vms.total, h.vms.running), (0, 0));
    assert_eq!(h.checks[1], ("vmm_backend".to_string(), "degraded".to_string()));
    assert_eq!(h.checks[2], ("network_backend".to_string(), "n/a".to_string()));
}

#[test]
fn metrics_endpoint_returns_prometheus_text() {
    let m = ApiMetrics {
        requests_total: 7,
        errors_total: 1,
        rate_limited_total: 2,
        exec_total: 3,
        file_reads_total: 4,
        file_writes_total: 5,
        shell_sessions_total: 6,
    };
    let body = metrics(&m, VmCounts { total: 9, running: 8 }, 10);
    assert!(body.starts_with(
        "# TYPE husk_api_requests_total counter\nhusk_api_requests_total 7\n# TYPE husk_api_errors_total counter\n"
    ));
    assert!(body.contains("husk_vms_total 9\n"));
    assert!(body.contains("# TYPE husk_vms_running gauge\nhusk_vms_running 8\n"));
    assert!(body.ends_with("husk_api_uptime_seconds 10\n"));
    assert_eq!(vm_counts(Some(&orchestrator(&["paused"]))).running, 0);
}

#[test]
fn vm_response_json_structure() {
    let v = record_to_response(&record(0xab, "running"));
    assert_eq!(v.id, "00000000-0000-0000-0000-0000000000ab");
    assert_eq!(v.guest_ip.as_deref(), Some("172.20.0.2"));
    assert!(v.host_ip.is_none());
    let s = service_to_response(&ServiceRecord {
        id: 1,
        name: "api".into(),
        host_group_id: Some(2),
        desired_instances: 3,
        image: None,
        created_at: "t".into(),
        updated_at: "t".into(),
    });
    assert_eq!(s.host_group_id.as_deref(), Some("00000000-0000-0000-0000-000000000002"));
    let p = port_forward_to_response(&PortForwardRecord {
        id: 1,
        vm_id: 1,
        host_port: 8080,
        guest_port: 80,
        protocol: "tcp".into(),
        created_at: "t".into(),
    });
    assert_eq!((p.host_port, p.guest_port, p.protocol.as_str()), (8080, 80, "tcp"));
}

#[test]
fn errors_repeat_their_message() {
    let e = error_response("c", "m".into());
    assert_eq!((e.code.as_str(), e.message.as_str(), e.error.as_deref()), ("c", "m", Some("m")));
    assert!(e.hint.is_none() && e.details.is_none());
    assert_eq!(error_response_with_hint("c", "m".into(), "h").hint.as_deref(), Some("h"));
    assert_eq!(request_id(Some("abc"), 1), "abc");
    assert_eq!(request_id(None, 17), "req-17");
}

fn started_session() -> WsShellSession {
    let mut s = WsShellSession::start();
    let start = start_input(Some("bash".into()), Some(100), Some(30));
    assert!(matches!(s.step(WsEvent::Input(start)), WsAction::Connect));
    match s.step(WsEvent::Connected) {
        WsAction::Start { command, cols: 100, rows: 30 } => {
            assert_eq!(command.as_deref(), Some("bash"));
        }
        _ => panic!("expected a shell"),
    }
    assert!(matches!(s.step(WsEvent::Started), WsAction::Announce(WsShellOutput::Started)));
    s
}

#[test]
fn session_passes_input_and_output_on() {
    let mut s = started_session();
    let typed = WsShellInput::Data { data: base64_encode(b"ls\n") };
    assert!(matches!(s.step(WsEvent::Input(typed)), WsAction::SendToShell(d) if d == b"ls\n"));
    let bad = WsShellInput::Data { data: "!".into() };
    assert!(matches!(s.step(WsEvent::Input(bad)), WsAction::Ignore));
    match s.step(WsEvent::Output(b"out".to_vec())) {
        WsAction::Say(WsShellOutput::Data { data }) => assert_eq!(data, base64_encode(b"out")),
        _ => panic!("expected output"),
    }
    let resize = WsShellInput::Resize { cols: 1, rows: 2 };
    assert!(matches!(
        s.step(WsEvent::Input(resize)),
        WsAction::ResizeShell { cols: 1, rows: 2 }
    ));
    assert!(matches!(s.step(WsEvent::Tick), WsAction::Ping));
    assert!(matches!(s.step(WsEvent::Unreadable("x".into())), WsAction::Ignore));
    assert!(matches!(
        s.step(WsEvent::Exited(4)),
        WsAction::SayAndClose(WsShellOutput::Exit { exit_code: 4 })
    ));
    assert!(matches!(s.step(WsEvent::Tick), WsAction::Ignore));
}

#[test]
fn session_needs_a_start_message() {
    let mut s = WsShellSession::start();
    match s.step(WsEvent::Input(WsShellInput::Resize { cols: 1, rows: 1 })) {
        WsAction::SayAndEnd(WsShellOutput::Error { message }) => {
            assert_eq!(message, "expected 'start' message");
        }
        _ => panic!("expected an error"),
    }
    let mut s = WsShellSession::start();
    match s.step(WsEvent::Unreadable("eof".into())) {
        WsAction::SayAndEnd(WsShellOutput::Error { message }) => {
            assert_eq!(message, "invalid message: eof");
        }
        _ => panic!("expected an error"),
    }
    let mut s = WsShellSession::start();
    assert!(matches!(s.step(WsEvent::Gone), WsAction::End));
}

#[test]
fn session_reports_what_went_wrong() {
    let mut s = WsShellSession::start();
    s.step(WsEvent::Input(start_input(None, None, None)));
    match s.step(WsEvent::NotConnected(CoreError::VmNotFound("x".into()))) {
        WsAction::SayAndEnd(WsShellOutput::Error { message }) => {
            assert_eq!(message, "VM not found: x");
        }
        _ => panic!("expected an error"),
    }
    let mut s = WsShellSession::start();
    s.step(WsEvent::Input(start_input(None, None, None)));
    s.step(WsEvent::Connected);
    match s.step(WsEvent::NotStarted(AgentError::Agent("no pty".into()))) {
        WsAction::SayAndEnd(WsShellOutput::Error { message }) => {
            assert!(message.starts_with("shell start failed: "), "{message}");
        }
        _ => panic!("expected an error"),
    }
    match started_session().step(WsEvent::AgentFailed(AgentError::UnexpectedResponse)) {
        WsAction::SayAndClose(WsShellOutput::Error { message }) => {
            assert!(message.starts_with("agent error: "), "{message}");
        }
        _ => panic!("expected an error"),
    }
    assert!(matches!(started_session().step(WsEvent::NotSent), WsAction::Close));
    assert!(matches!(started_session().step(WsEvent::Gone), WsAction::Close));
}

#[test]
fn catalog_records_are_shown_with_their_ids_as_text() {
    let group = host_group_to_response(&HostGroupRecord {
        id: 1,
        name: "edge".into(),
        description: Some("near users".into()),
        created_at: "t0".into(),
        updated_at: "t1".into(),
    });
    assert_eq!(group.id, "00000000-0000-0000-0000-000000000001");
    assert_eq!((group.name.as_str(), group.description.as_deref()), ("edge", Some("near users")));
    assert_eq!((group.created_at.as_str(), group.updated_at.as_str()), ("t0", "t1"));
    let snapshot = snapshot_to_response(&SnapshotRecord {
        id: 2,
        name: "before".into(),
        source_vm_name: "web".into(),
        file_path: "/s/before.ext4".into(),
        created_at: "t0".into(),
    });
    assert_eq!(snapshot.id, "00000000-0000-0000-0000-000000000002");
    assert_eq!((snapshot.name.as_str(), snapshot.source_vm_name.as_str()), ("before", "web"));
    assert_eq!((snapshot.file_path.as_str(), snapshot.created_at.as_str()), ("/s/before.ext4", "t0"));
    let image = image_to_response(&ImageRecord {
        id: 3,
        name: "base".into(),
        format: "ext4".into(),
        file_path: "/i/base.ext4".into(),
        created_at: "t0".into(),
    });
    assert_eq!(image.id, "00000000-0000-0000-0000-000000000003");
    assert_eq!((image.name.as_str(), image.format.as_str()), ("base", "ext4"));
    assert_eq!((image.file_path.as_str(), image.created_at.as_str()), ("/i/base.ext4", "t0"));
}

fn shown(content: &str, tail: Option<u64>) -> String {
    let start = log_start(content.len() as u64);
    let read = match start {
        Some(at) => &content[at as usize..],
        None => content,
    };
    log_view(read.to_string(), start.is_some(), tail)
}

#[test]
fn logs_returns_serial_output() {
    let body = shown("Linux version 6.1.102\nBoot complete\n", None);
    assert!(body.contains("Linux version 6.1.102"));
    assert!(body.contains("Boot complete"));
}

#[test]
fn logs_tail_returns_last_n_lines() {
    let body = shown("line1\nline2\nline3\nline4\nline5\n", Some(2));
    assert!(!body.contains("line3"));
    assert!(body.contains("line4"));
    assert!(body.contains("line5"));
}

#[test]
fn logs_empty_serial_file_returns_empty_body() {
    assert_eq!(shown("", None), "");
}

#[test]
fn logs_tail_zero_returns_empty() {
    assert_eq!(shown("line1\nline2\nline3\n", Some(0)), "");
}

#[test]
fn logs_tail_exceeding_line_count_returns_all() {
    let content = "alpha\nbeta\n";
    assert_eq!(shown(content, Some(999)), content);
}

#[test]
fn logs_tail_on_empty_file_returns_empty() {
    assert_eq!(shown("", Some(10)), "");
}

#[test]
fn logs_preserves_blank_lines() {
    let content = "boot start\n\n\nkernel loaded\n\nready\n";
    assert_eq!(shown(content, None), content);
}

#[test]
fn logs_with_binary_like_content_returns_ok() {
    let content =
        "[\x1b[32m  OK  \x1b[0m] Started systemd\n[\x1b[32m  OK  \x1b[0m] Reached target\n";
    let body = shown(content, None);
    assert!(body.contains("Started systemd"));
    assert!(body.contains("Reached target"));
}

#[test]
fn logs_no_trailing_newline_preserved() {
    let content = "line1\nline2\nno-newline-at-end";
    assert_eq!(shown(content, None), content);
}

#[test]
fn logs_tail_with_no_trailing_newline() {
    assert_eq!(shown("a\nb\nc", Some(2)), "b\nc");
}

#[test]
fn logs_tail_one_from_multiline() {
    assert_eq!(shown("first\nsecond\nthird\n", Some(1)), "third\n");
}

#[test]
fn logs_large_file_is_truncated() {
    let line = "kernel: [    0.000000] Booting Linux on physical CPU\n";
    let large_content: String = line.repeat((1024 * 1024 * 2) / line.len() + 1);
    let body = shown(&large_content, None);
    assert!(
        body.starts_with("[... truncated, showing last 1 MiB ...]"),
        "should have truncation notice"
    );
    assert!(
        body.len() < 1024 * 1024 + 1024 * 100,
        "body should be ~1 MiB, got {} bytes",
        body.len()
    );
}

#[test]
fn added_port_forward_is_shown_with_the_current_time() {
    let shown = added_port_forward(8080, 80);
    assert_eq!((shown.host_port, shown.guest_port, shown.protocol.as_str()), (8080, 80, "tcp"));
    assert!(shown.created_at.ends_with("+00:00"), "{}", shown.created_at);
}
