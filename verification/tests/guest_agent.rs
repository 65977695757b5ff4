use husk::agent::{
    exec_response, handle_connection, handle_request, read_response, write_response, AgentTask,
    ConnectionStep, SessionAction, SessionEvent, ShellSession,
};
use husk::base64::{base64_decode, base64_encode};
use husk::client::{
    exec_request, exec_result, ping_request, ping_result, read_file_request, read_file_result,
    shell_event,
    shell_resize_request, shell_send_request, shell_start_request, shell_start_result,
    write_file_request, write_file_result, AgentClient, AgentConnection, AgentError, ShellEvent,
    WaitReady, WaitStep,
};
use husk::proto::{
    AgentRequest, AgentResponse, ErrorResponse, ExecRequest, ExecResponse, ProtocolError,
    ReadFileRequest, ReadFileResponse, ShellDataRequest, ShellDataResponse, ShellExitResponse,
    ShellResizeRequest, ShellStartRequest, WriteFileRequest, WriteFileResponse,
};

fn reply(task: AgentTask) -> AgentResponse {
    match task {
        AgentTask::Reply(r) => r,
        _ => panic!("expected an answer"),
    }
}

fn error_message(r: AgentResponse) -> String {
    match r {
        AgentResponse::Error(ErrorResponse { message }) => message,
        _ => panic!("expected an error"),
    }
}

#[test]
fn handler_ping() {
    assert!(matches!(reply(handle_request(AgentRequest::Ping)), AgentResponse::Pong));
}

#[test]
fn handler_exec_echo() {
    let task = handle_request(AgentRequest::Exec(ExecRequest {
        command: "echo".into(),
        args: vec!["hello".into()],
        working_dir: None,
        env: vec![],
    }));
    match task {
        AgentTask::Run { command, args, .. } => {
            assert_eq!(command, "echo");
            assert_eq!(args, ["hello"]);
        }
        _ => panic!("expected a command"),
    }
    match exec_response(Ok((Some(0), b"hello\n".to_vec(), vec![]))) {
        AgentResponse::Exec(e) => {
            assert_eq!(e.exit_code, 0);
            assert_eq!(e.stdout, "hello\n");
            assert_eq!(e.stderr, "");
        }
        _ => panic!("expected a result"),
    }
}

#[test]
fn output_that_is_not_utf8_is_shown_with_replacements() {
    match exec_response(Ok((Some(0), vec![b'a', 0xff, b'b'], vec![]))) {
        AgentResponse::Exec(e) => assert_eq!(e.stdout, "a\u{fffd}b"),
        _ => panic!("expected a result"),
    }
}

#[test]
fn handler_exec_nonexistent_command() {
    let m = error_message(exec_response(Err("No such file or directory".into())));
    assert!(m.contains("No such file or directory"), "{m}");
}

#[test]
fn command_that_was_killed_has_no_code() {
    match exec_response(Ok((None, vec![], vec![]))) {
        AgentResponse::Exec(e) => assert_eq!(e.exit_code, -1),
        _ => panic!("expected a result"),
    }
}

#[test]
fn handler_write_then_read_file() {
    let data = b"file contents";
    let task = handle_request(AgentRequest::WriteFile(WriteFileRequest {
        path: "/tmp/x".into(),
        data: base64_encode(data),
        mode: Some(0o644),
    }));
    match task {
        AgentTask::Write { path, data: d, mode } => {
            assert_eq!(path, "/tmp/x");
            assert_eq!(d, data);
            assert_eq!(mode, Some(0o644));
        }
        _ => panic!("expected a write"),
    }
    match write_response(data.len(), Ok(())) {
        AgentResponse::WriteFile(w) => assert_eq!(w.bytes_written, 13),
        _ => panic!("expected a result"),
    }
    let task = handle_request(AgentRequest::ReadFile(ReadFileRequest { path: "/tmp/x".into() }));
    assert!(matches!(task, AgentTask::Read { path } if path == "/tmp/x"));
    match read_response(Ok(data.to_vec())) {
        AgentResponse::ReadFile(r) => {
            assert_eq!(r.size, 13);
            assert_eq!(base64_decode(&r.data).unwrap(), data);
        }
        _ => panic!("expected a file"),
    }
}

#[test]
fn handler_read_nonexistent_file() {
    let m = error_message(read_response(Err("No such file".into())));
    assert!(m.contains("No such file"), "{m}");
    assert!(error_message(write_response(3, Err("read-only".into()))).contains("read-only"));
}

#[test]
fn write_file_invalid_base64_returns_error() {
    let task = handle_request(AgentRequest::WriteFile(WriteFileRequest {
        path: "/tmp/x".into(),
        data: "!!!".into(),
        mode: None,
    }));
    let m = error_message(reply(task));
    assert!(!m.is_empty());
}

#[test]
fn shell_data_without_session_returns_error() {
    let task = handle_request(AgentRequest::ShellData(ShellDataRequest { data: "QQ==".into() }));
    assert!(!error_message(reply(task)).is_empty());
}

#[test]
fn shell_resize_without_session_returns_error() {
    let task = handle_request(AgentRequest::ShellResize(ShellResizeRequest { cols: 1, rows: 1 }));
    assert!(!error_message(reply(task)).is_empty());
}

#[test]
fn connection_goes_over_to_a_shell() {
    assert!(matches!(handle_connection(None), ConnectionStep::Close));
    let start = AgentRequest::ShellStart(ShellStartRequest {
        command: None,
        env: vec![],
        cols: 80,
        rows: 24,
    });
    assert!(matches!(handle_connection(Some(start)), ConnectionStep::Shell(s) if s.cols == 80));
    assert!(matches!(
        handle_connection(Some(AgentRequest::Ping)),
        ConnectionStep::Handle(AgentTask::Reply(AgentResponse::Pong))
    ));
}

fn running_shell(command: Option<&str>) -> ShellSession {
    let (mut s, first) = ShellSession::start(ShellStartRequest {
        command: command.map(|c| c.to_string()),
        env: vec![("A".into(), "1".into())],
        cols: 80,
        rows: 24,
    });
    assert!(matches!(first, SessionAction::OpenPty { cols: 80, rows: 24 }));
    let actions = s.step(SessionEvent::PtyOpened);
    match &actions[0] {
        SessionAction::Spawn { command: c, env } => {
            assert_eq!(c, command.unwrap_or("/bin/sh"));
            assert!(env.contains(&("A".to_string(), "1".to_string())));
        }
        _ => panic!("expected a shell"),
    }
    let actions = s.step(SessionEvent::Spawned);
    assert!(matches!(actions[0], SessionAction::Send(AgentResponse::ShellStarted)));
    s
}

#[test]
fn shell_start_without_command_uses_default_shell() {
    running_shell(None);
}

#[test]
fn handler_shell_echo_with_cat() {
    let mut s = running_shell(Some("cat"));
    let typed = AgentRequest::ShellData(ShellDataRequest { data: base64_encode(b"hi\n") });
    let actions = s.step(SessionEvent::Message(typed));
    assert!(matches!(&actions[0], SessionAction::Write(d) if d == b"hi\n"));
    let actions = s.step(SessionEvent::Output(b"hi\n".to_vec()));
    match &actions[0] {
        SessionAction::Send(AgentResponse::ShellData(d)) => {
            assert_eq!(base64_decode(&d.data).unwrap(), b"hi\n");
        }
        _ => panic!("expected output"),
    }
}

#[test]
fn shell_invalid_base64_input_is_ignored() {
    let mut s = running_shell(None);
    let bad = AgentRequest::ShellData(ShellDataRequest { data: "!!!".into() });
    assert!(s.step(SessionEvent::Message(bad)).is_empty());
}

#[test]
fn shell_ignores_unexpected_messages_during_session() {
    let mut s = running_shell(None);
    assert!(s.step(SessionEvent::Message(AgentRequest::Ping)).is_empty());
}

#[test]
fn handler_shell_resize_accepted() {
    let mut s = running_shell(None);
    let m = AgentRequest::ShellResize(ShellResizeRequest { cols: 120, rows: 40 });
    let actions = s.step(SessionEvent::Message(m));
    assert!(matches!(actions[0], SessionAction::Resize { cols: 120, rows: 40 }));
}

#[test]
fn handler_shell_nonzero_exit_code() {
    let mut s = running_shell(None);
    let actions = s.step(SessionEvent::Exited(Some(42)));
    assert!(matches!(actions[0], SessionAction::Drain));
    let actions = s.step(SessionEvent::Drained(vec![]));
    assert!(matches!(
        actions.last().unwrap(),
        SessionAction::Send(AgentResponse::ShellExit(ShellExitResponse { exit_code: 42 }))
    ));
}

#[test]
fn handler_shell_nonexistent_command() {
    let (mut s, _) = ShellSession::start(ShellStartRequest {
        command: Some("/no/such".into()),
        env: vec![],
        cols: 80,
        rows: 24,
    });
    s.step(SessionEvent::PtyOpened);
    let actions = s.step(SessionEvent::SpawnFailed("not found".into()));
    match &actions[0] {
        SessionAction::Send(AgentResponse::Error(e)) => assert!(e.message.contains("not found")),
        _ => panic!("expected an error"),
    }
}

#[test]
fn host_that_has_gone_ends_the_shell() {
    let mut s = running_shell(None);
    let actions = s.step(SessionEvent::HostGone);
    assert!(actions.iter().any(|a| matches!(a, SessionAction::Kill)));
}

#[test]
fn client_ping() {
    assert!(matches!(ping_request(), AgentRequest::Ping));
    assert!(ping_result(Ok(Some(AgentResponse::Pong))).is_ok());
    assert!(matches!(
        ping_result(Ok(Some(AgentResponse::ShellStarted))),
        Err(AgentError::UnexpectedResponse)
    ));
    assert!(matches!(
        ping_result(Err(ProtocolError::Io("gone".into()))),
        Err(AgentError::Protocol(ProtocolError::Io(_)))
    ));
}

#[test]
fn client_exec() {
    match exec_request("ls".into(), vec!["-l".into()], Some("/".into()), vec![]) {
        AgentRequest::Exec(e) => assert_eq!(e.working_dir.as_deref(), Some("/")),
        _ => panic!("expected a command"),
    }
    let r = exec_result(Ok(Some(AgentResponse::Exec(ExecResponse {
        exit_code: 3,
        stdout: "out".into(),
        stderr: "err".into(),
    }))))
    .unwrap();
    assert_eq!((r.exit_code, r.stdout.as_str(), r.stderr.as_str()), (3, "out", "err"));
}

#[test]
fn client_exec_failure() {
    let failed = Ok(Some(AgentResponse::Error(ErrorResponse { message: "no".into() })));
    assert!(matches!(exec_result(failed), Err(AgentError::Agent(m)) if m == "no"));
    assert!(exec_result(Ok(None)).is_err());
}

#[test]
fn client_write_and_read_file() {
    match write_file_request("/f".into(), b"abc", Some(0o600)) {
        AgentRequest::WriteFile(w) => {
            assert_eq!(w.data, "YWJj");
            assert_eq!(w.mode, Some(0o600));
        }
        _ => panic!("expected a write"),
    }
    let written = Ok(Some(AgentResponse::WriteFile(WriteFileResponse { bytes_written: 3 })));
    assert_eq!(write_file_result(written).unwrap(), 3);
    let read = Ok(Some(AgentResponse::ReadFile(ReadFileResponse { data: "YWJj".into(), size: 3 })));
    assert_eq!(read_file_result(read).unwrap(), b"abc");
    let bad = Ok(Some(AgentResponse::ReadFile(ReadFileResponse { data: "!".into(), size: 3 })));
    assert!(read_file_result(bad).is_err());
}

#[test]
fn client_shell_messages() {
    assert!(matches!(
        shell_start_request(Some("sh".into()), 80, 24),
        AgentRequest::ShellStart(s) if s.cols == 80 && s.rows == 24
    ));
    assert!(shell_start_result(Ok(Some(AgentResponse::ShellStarted))).is_ok());
    assert!(matches!(shell_send_request(b"A"), AgentRequest::ShellData(d) if d.data == "QQ=="));
    assert!(matches!(
        shell_resize_request(1, 2),
        AgentRequest::ShellResize(ShellResizeRequest { cols: 1, rows: 2 })
    ));
    let out = Ok(Some(AgentResponse::ShellData(ShellDataResponse { data: "QQ==".into() })));
    assert!(matches!(shell_event(out), Ok(ShellEvent::Data(d)) if d == b"A"));
    let end = Ok(Some(AgentResponse::ShellExit(ShellExitResponse { exit_code: 9 })));
    assert!(matches!(shell_event(end), Ok(ShellEvent::Exit(9))));
}

#[test]
fn agent_connection_from_raw_stream() {
    let c = AgentConnection::new(5u32);
    assert_eq!(c.stream, 5);
    assert!(AgentClient::check_handshake("OK 1\n", 52).is_ok());
    assert!(matches!(
        AgentClient::check_handshake("NO\n", 52),
        Err(AgentError::VsockConnectRejected(52))
    ));
}

#[test]
fn waiting_doubles_its_pauses() {
    let mut w = WaitReady::start("5s".into());
    let mut pauses = Vec::new();
    for _ in 0..7 {
        match w.after_failure(AgentError::Connection("no".into()), true, true) {
            WaitStep::Sleep(ms) => pauses.push(ms),
            WaitStep::GiveUp(_) => panic!("gave up"),
        }
    }
    assert_eq!(pauses, [100, 200, 400, 800, 1600, 2000, 2000]);
    assert!(matches!(
        w.after_failure(AgentError::Connection("no".into()), true, false),
        WaitStep::GiveUp(AgentError::NotReady(t)) if t == "5s"
    ));
}

#[test]
fn file_is_asked_for_by_its_path() {
    match read_file_request("/etc/hostname".to_string()) {
        AgentRequest::ReadFile(r) => assert_eq!(r.path, "/etc/hostname"),
        _ => panic!("expected a request for a file"),
    }
}
