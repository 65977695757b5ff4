//! The host's side of the conversation with the agent in a guest: what is asked, and what the
//! answers mean.
use crate::base64;
use crate::base64::{base64_decode, base64_encode};
use crate::proto::{
    AgentRequest, AgentRequestView, AgentResponse, AgentResponseView, ExecRequest, ProtocolError,
    ProtocolErrorView, ReadFileRequest, ShellDataRequest, ShellResizeRequest, ShellStartRequest,
    WriteFileRequest,
};
use crate::text;
use crate::text::{decimal_of, has_prefix};
use vstd::prelude::*;
use vstd::string::*;

verus! {

/// What can go wrong with the agent.
#[derive(Debug)]
pub enum AgentError {
    /// The agent could not be reached; in the words of the operating system.
    Connection(String),
    VsockConnectRejected(u32),
    Protocol(ProtocolError),
    UnexpectedResponse,
    Agent(String),
    /// The agent did not answer in the given time.
    NotReady(String),
}

/// An agent error, with its texts as characters.
pub enum AgentErrorView {
    Connection(Seq<char>),
    VsockConnectRejected(u32),
    Protocol(ProtocolErrorView),
    UnexpectedResponse,
    Agent(Seq<char>),
    NotReady(Seq<char>),
}

impl View for AgentError {
    type V = AgentErrorView;

    open spec fn view(&self) -> AgentErrorView {
        match self {
            AgentError::Connection(m) => AgentErrorView::Connection(m@),
            AgentError::VsockConnectRejected(port) => AgentErrorView::VsockConnectRejected(*port),
            AgentError::Protocol(e) => AgentErrorView::Protocol(e@),
            AgentError::UnexpectedResponse => AgentErrorView::UnexpectedResponse,
            AgentError::Agent(m) => AgentErrorView::Agent(m@),
            AgentError::NotReady(t) => AgentErrorView::NotReady(t@),
        }
    }
}

impl AgentErrorView {
    /// The error in words.
    pub open spec fn text(self) -> Seq<char> {
        match self {
            AgentErrorView::Connection(m) => "connection failed: "@ + m,
            AgentErrorView::VsockConnectRejected(port) => {
                "vsock CONNECT rejected by Firecracker (port "@ + text::decimal(port as nat) + ")"@
            },
            AgentErrorView::Protocol(e) => "protocol error: "@ + e.text(),
            AgentErrorView::UnexpectedResponse => "unexpected response from agent"@,
            AgentErrorView::Agent(m) => "agent returned error: "@ + m,
            AgentErrorView::NotReady(t) => "agent not ready after "@ + t,
        }
    }
}

impl AgentError {
    /// The error in words.
    pub fn message(&self) -> (s: String)
        ensures
            s@ == self@.text(),
    {
        match self {
            AgentError::Connection(m) => {
                let mut s = "connection failed: ".to_owned();
                s.append(m.as_str());
                s
            },
            AgentError::VsockConnectRejected(port) => {
                let mut s = "vsock CONNECT rejected by Firecracker (port ".to_owned();
                s.append(decimal_of(*port as u64).as_str());
                s.append(")");
                s
            },
            AgentError::Protocol(e) => {
                let mut s = "protocol error: ".to_owned();
                s.append(e.message().as_str());
                s
            },
            AgentError::UnexpectedResponse => "unexpected response from agent".to_owned(),
            AgentError::Agent(m) => {
                let mut s = "agent returned error: ".to_owned();
                s.append(m.as_str());
                s
            },
            AgentError::NotReady(t) => {
                let mut s = "agent not ready after ".to_owned();
                s.append(t.as_str());
                s
            },
        }
    }
}

/// Result of a command in a guest.
#[derive(Debug)]
pub struct ExecResult {
    pub exit_code: i32,
    pub stdout: String,
    pub stderr: String,
}

/// What happens in a shell session.
#[derive(Debug)]
pub enum ShellEvent {
    /// Output of the shell.
    Data(Vec<u8>),
    /// The shell has exited.
    Exit(i32),
}

/// A connection to the agent in a guest, over some stream.
pub struct AgentConnection<S> {
    pub stream: S,
}

impl<S> AgentConnection<S> {
    /// A connection over a stream that is already open.
    pub fn new(stream: S) -> (c: AgentConnection<S>)
        ensures
            c.stream == stream,
    {
        AgentConnection { stream }
    }
}

/// Makes connections to agents.
pub struct AgentClient;

impl AgentClient {
    /// Checks Firecracker's answer to a connect line.
    pub fn check_handshake(response: &str, port: u32) -> (r: Result<(), AgentError>)
        ensures
            match r {
                Ok(_) => crate::firecracker::grants_connection(response@),
                Err(e) => !crate::firecracker::grants_connection(response@) && e@
                    == AgentErrorView::VsockConnectRejected(port),
            },
    {
        if has_prefix(response, "OK ") {
            Ok(())
        } else {
            Err(AgentError::VsockConnectRejected(port))
        }
    }
}

/// What was received in answer to a request: a message, the end of the stream, or a failure.
pub type Reply = Result<Option<AgentResponse>, ProtocolError>;

/// The error for a reply that is not the one that was hoped for.
pub open spec fn reply_fault(reply: Reply) -> AgentErrorView {
    match reply {
        Err(e) => AgentErrorView::Protocol(e@),
        Ok(Some(AgentResponse::Error(e))) => AgentErrorView::Agent(e.message@),
        _ => AgentErrorView::UnexpectedResponse,
    }
}

fn fault(reply: Reply) -> (e: AgentError)
    ensures
        e@ == reply_fault(reply),
{
    match reply {
        Err(e) => AgentError::Protocol(e),
        Ok(Some(AgentResponse::Error(e))) => AgentError::Agent(e.message),
        _ => AgentError::UnexpectedResponse,
    }
}

/// Asks whether the agent is alive.
pub fn ping_request() -> (r: AgentRequest)
    ensures
        r is Ping,
{
    AgentRequest::Ping
}

/// Whether the agent is alive: only a pong says so.
pub fn ping_result(reply: Reply) -> (r: Result<(), AgentError>)
    ensures
        match r {
            Ok(_) => reply matches Ok(Some(AgentResponse::Pong)),
            Err(e) => !(reply matches Ok(Some(AgentResponse::Pong))) && e@ == reply_fault(reply),
        },
{
    match reply {
        Ok(Some(AgentResponse::Pong)) => Ok(()),
        other => Err(fault(other)),
    }
}

/// The message that asks for a command to be run.
pub open spec fn exec_message(
    command: Seq<char>,
    args: Seq<Seq<char>>,
    working_dir: Option<Seq<char>>,
    env: Seq<(Seq<char>, Seq<char>)>,
) -> AgentRequestView {
    AgentRequestView::Exec { command, args, working_dir, env }
}

/// The message that asks for a file.
pub open spec fn read_file_message(path: Seq<char>) -> AgentRequestView {
    AgentRequestView::ReadFile(path)
}

/// The message that asks for a file to be written.
pub open spec fn write_file_message(path: Seq<char>, data: Seq<u8>, mode: Option<u32>) -> AgentRequestView {
    AgentRequestView::WriteFile { path, data: base64::encoded(data), mode }
}

/// The message that hands input to the shell.
pub open spec fn shell_data_message(data: Seq<u8>) -> AgentRequestView {
    AgentRequestView::ShellData(base64::encoded(data))
}

/// The message that changes the size of the shell's terminal.
pub open spec fn shell_resize_message(cols: u16, rows: u16) -> AgentRequestView {
    AgentRequestView::ShellResize { cols, rows }
}

/// The message that asks for a shell, with a terminal of the given size.
pub open spec fn shell_start_message(command: Option<Seq<char>>, cols: u16, rows: u16) -> AgentRequestView {
    AgentRequestView::ShellStart { command, env: seq![("TERM"@, "xterm"@)], cols, rows }
}

/// The exit code, the output and the error output that an answer tells of a command.
pub open spec fn command_outcome(answer: AgentResponseView) -> Option<
    (i32, Seq<char>, Seq<char>),
> {
    match answer {
        AgentResponseView::Exec { exit_code, stdout, stderr } => Some((exit_code, stdout, stderr)),
        _ => None,
    }
}

/// The bytes that an answer, or a message of a shell, carries.
pub open spec fn carried_bytes(answer: AgentResponseView) -> Option<Seq<u8>> {
    let data = match answer {
        AgentResponseView::ReadFile { data, size } => Some(data),
        AgentResponseView::ShellData(data) => Some(data),
        _ => None,
    };
    match data {
        Some(data) => match base64::decoded_text(data) {
            Ok(bytes) => Some(bytes),
            Err(_) => None,
        },
        None => None,
    }
}

/// Asks for a command to be run.
pub fn exec_request(
    command: String,
    args: Vec<String>,
    working_dir: Option<String>,
    env: Vec<(String, String)>,
) -> (r: AgentRequest)
    ensures
        r matches AgentRequest::Exec(q) && q.command == command && q.args == args && q.working_dir
            == working_dir && q.env == env,
        r@ == exec_message(
            command@,
            text::texts(args@),
            text::opt_text(working_dir),
            text::pair_texts(env@),
        ),
{
    AgentRequest::Exec(ExecRequest { command, args, working_dir, env })
}

/// The result of a command.
pub fn exec_result(reply: Reply) -> (r: Result<ExecResult, AgentError>)
    ensures
        match reply {
            Ok(Some(AgentResponse::Exec(x))) => r matches Ok(result) && result.exit_code
                == x.exit_code && result.stdout@ == x.stdout@ && result.stderr@ == x.stderr@,
            _ => r matches Err(e) && e@ == reply_fault(reply),
        },
        reply matches Ok(Some(answer)) ==> match command_outcome(answer@) {
            Some((code, stdout, stderr)) => r matches Ok(result) && result.exit_code == code
                && result.stdout@ == stdout && result.stderr@ == stderr,
            None => r is Err,
        },
{
    match reply {
        Ok(Some(AgentResponse::Exec(x))) => Ok(
            ExecResult { exit_code: x.exit_code, stdout: x.stdout, stderr: x.stderr },
        ),
        other => Err(fault(other)),
    }
}

/// Asks for a file.
pub fn read_file_request(path: String) -> (r: AgentRequest)
    ensures
        r matches AgentRequest::ReadFile(q) && q.path == path,
        r@ == read_file_message(path@),
{
    AgentRequest::ReadFile(ReadFileRequest { path })
}

/// The message for base64 text that does not decode.
pub open spec fn decode_fault(m: Seq<char>) -> AgentErrorView {
    AgentErrorView::Agent("base64 decode failed: "@ + m)
}

fn decode(data: &str) -> (r: Result<Vec<u8>, AgentError>)
    ensures
        match base64::decoded_text(data@) {
            Ok(bytes) => r matches Ok(v) && v@ == bytes,
            Err(m) => r matches Err(e) && e@ == decode_fault(m),
        },
{
    match base64_decode(data) {
        Ok(v) => Ok(v),
        Err(m) => {
            let mut s = "base64 decode failed: ".to_owned();
            s.append(m.as_str());
            Err(AgentError::Agent(s))
        },
    }
}

/// The contents of a file.
pub fn read_file_result(reply: Reply) -> (r: Result<Vec<u8>, AgentError>)
    ensures
        match reply {
            Ok(Some(AgentResponse::ReadFile(x))) => match base64::decoded_text(x.data@) {
                Ok(bytes) => r matches Ok(v) && v@ == bytes,
                Err(m) => r matches Err(e) && e@ == decode_fault(m),
            },
            _ => r matches Err(e) && e@ == reply_fault(reply),
        },
        (reply matches Ok(Some(answer)) && answer is ReadFile) ==> match carried_bytes(
            (reply->Ok_0->0)@,
        ) {
            Some(bytes) => r matches Ok(v) && v@ == bytes,
            None => r is Err,
        },
{
    match reply {
        Ok(Some(AgentResponse::ReadFile(x))) => decode(x.data.as_str()),
        other => Err(fault(other)),
    }
}

/// Asks for a file to be written.
pub fn write_file_request(path: String, data: &[u8], mode: Option<u32>) -> (r: AgentRequest)
    ensures
        r matches AgentRequest::WriteFile(q) && q.path == path && q.data@ == base64::encoded(data@)
            && q.mode == mode,
        r@ == write_file_message(path@, data@, mode),
{
    AgentRequest::WriteFile(WriteFileRequest { path, data: base64_encode(data), mode })
}

/// How many bytes were written.
pub fn write_file_result(reply: Reply) -> (r: Result<u64, AgentError>)
    ensures
        match reply {
            Ok(Some(AgentResponse::WriteFile(x))) => r matches Ok(n) && n == x.bytes_written,
            _ => r matches Err(e) && e@ == reply_fault(reply),
        },
{
    match reply {
        Ok(Some(AgentResponse::WriteFile(x))) => Ok(x.bytes_written),
        other => Err(fault(other)),
    }
}

/// Asks for a shell session, with a terminal of the given size.
pub fn shell_start_request(command: Option<String>, cols: u16, rows: u16) -> (r: AgentRequest)
    ensures
        r matches AgentRequest::ShellStart(q) && q.command == command && text::pair_texts(q.env@) == seq![
            ("TERM"@, "xterm"@),
        ] && q.cols == cols && q.rows == rows,
        r@ == shell_start_message(text::opt_text(command), cols, rows),
{
    let env: Vec<(String, String)> = vec![("TERM".to_owned(), "xterm".to_owned())];
    assert(text::pair_texts(env@) =~= seq![("TERM"@, "xterm"@)]);
    AgentRequest::ShellStart(ShellStartRequest { command, env, cols, rows })
}

/// Whether the shell session has started.
pub fn shell_start_result(reply: Reply) -> (r: Result<(), AgentError>)
    ensures
        match reply {
            Ok(Some(AgentResponse::ShellStarted)) => r is Ok,
            _ => r matches Err(e) && e@ == reply_fault(reply),
        },
{
    match reply {
        Ok(Some(AgentResponse::ShellStarted)) => Ok(()),
        other => Err(fault(other)),
    }
}

/// Hands input to the shell.
pub fn shell_send_request(data: &[u8]) -> (r: AgentRequest)
    ensures
        r matches AgentRequest::ShellData(q) && q.data@ == base64::encoded(data@),
        r@ == shell_data_message(data@),
{
    AgentRequest::ShellData(ShellDataRequest { data: base64_encode(data) })
}

/// Changes the size of the shell's terminal.
pub fn shell_resize_request(cols: u16, rows: u16) -> (r: AgentRequest)
    ensures
        r matches AgentRequest::ShellResize(q) && q.cols == cols && q.rows == rows,
        r@ == shell_resize_message(cols, rows),
{
    AgentRequest::ShellResize(ShellResizeRequest { cols, rows })
}

/// What happened in the shell session.
pub fn shell_event(reply: Reply) -> (r: Result<ShellEvent, AgentError>)
    ensures
        match reply {
            Ok(Some(AgentResponse::ShellData(x))) => match base64::decoded_text(x.data@) {
                Ok(bytes) => r matches Ok(ShellEvent::Data(v)) && v@ == bytes,
                Err(m) => r matches Err(e) && e@ == decode_fault(m),
            },
            Ok(Some(AgentResponse::ShellExit(x))) => r matches Ok(ShellEvent::Exit(code)) && code
                == x.exit_code,
            _ => r matches Err(e) && e@ == reply_fault(reply),
        },
{
    match reply {
        Ok(Some(AgentResponse::ShellData(x))) => match decode(x.data.as_str()) {
            Ok(v) => Ok(ShellEvent::Data(v)),
            Err(e) => Err(e),
        },
        Ok(Some(AgentResponse::ShellExit(x))) => Ok(ShellEvent::Exit(x.exit_code)),
        other => Err(fault(other)),
    }
}

/// First pause between two attempts to reach an agent, in milliseconds.
pub const FIRST_RETRY_MS: u64 = 100;

/// Longest pause between two attempts to reach an agent, in milliseconds.
pub const LAST_RETRY_MS: u64 = 2000;

/// The wait for an agent to become ready.
pub struct WaitReady {
    /// The next pause, in milliseconds.
    pub interval_ms: u64,
    /// The time that the agent has, in words.
    pub timeout: String,
}

/// What to do after an attempt that failed.
pub enum WaitStep {
    /// Pause for so many milliseconds, then try again.
    Sleep(u64),
    GiveUp(AgentError),
}

/// The pause before the attempt after the `n`-th failure: it doubles each time, up to the
/// longest.
pub open spec fn retry_pause(n: nat) -> nat
    decreases n,
{
    if n == 0 {
        FIRST_RETRY_MS as nat
    } else if 2 * retry_pause((n - 1) as nat) < LAST_RETRY_MS {
        2 * retry_pause((n - 1) as nat)
    } else {
        LAST_RETRY_MS as nat
    }
}

impl WaitReady {
    /// The pauses of the wait are within their bounds.
    pub open spec fn wf(&self) -> bool {
        FIRST_RETRY_MS <= self.interval_ms <= LAST_RETRY_MS
    }

    /// A wait that has not tried yet.
    pub fn start(timeout: String) -> (w: WaitReady)
        ensures
            w.wf(),
            w.interval_ms == retry_pause(0),
            w.timeout == timeout,
    {
        WaitReady { interval_ms: FIRST_RETRY_MS, timeout }
    }

    /// Decides after an attempt that failed: `in_time` says whether the deadline was still to
    /// come when the attempt failed, `still_in_time` whether it was a moment later.
    pub fn after_failure(&mut self, error: AgentError, in_time: bool, still_in_time: bool) -> (step:
        WaitStep)
        requires
            old(self).wf(),
        ensures
            final(self).wf(),
            final(self).timeout == old(self).timeout,
            if !in_time {
                step matches WaitStep::GiveUp(e) && e == error
            } else if !still_in_time {
                step matches WaitStep::GiveUp(e) && e@ == AgentErrorView::NotReady(
                    old(self).timeout@,
                )
            } else {
                &&& step == WaitStep::Sleep(old(self).interval_ms)
                &&& forall|n: nat| #[trigger]
                    retry_pause(n) == old(self).interval_ms ==> final(self).interval_ms
                        == retry_pause(n + 1)
            },
    {
        if !in_time {
            return WaitStep::GiveUp(error);
        }
        if !still_in_time {
            return WaitStep::GiveUp(AgentError::NotReady(self.timeout.clone()));
        }
        let pause: u64 = self.interval_ms;
        self.interval_ms = if pause * 2 < LAST_RETRY_MS {
            pause * 2
        } else {
            LAST_RETRY_MS
        };
        WaitStep::Sleep(pause)
    }
}

/// The pauses between attempts begin with a tenth of a second, double each time, and are two
/// seconds at most.
pub proof fn pauses_double_up_to_two_seconds(n: nat)
    ensures
        retry_pause(0) == 100,
        100 <= retry_pause(n) <= 2000,
        retry_pause(n + 1) == if 2 * retry_pause(n) < 2000 {
            2 * retry_pause(n)
        } else {
            2000
        },
    decreases n,
{
    if n > 0 {
        pauses_double_up_to_two_seconds((n - 1) as nat);
    }
}

/// An error of the conversation tells what went wrong, or which port was refused.
pub proof fn errors_tell_what_it_is(e: AgentErrorView)
    ensures
        match e {
            AgentErrorView::Connection(m) => text::ends_with(e.text(), m),
            AgentErrorView::VsockConnectRejected(port) => text::occurs_in(
                "port "@ + text::decimal(port as nat),
                e.text(),
            ),
            AgentErrorView::Protocol(cause) => text::ends_with(e.text(), cause.text()),
            AgentErrorView::UnexpectedResponse => true,
            AgentErrorView::Agent(m) => text::ends_with(e.text(), m),
            AgentErrorView::NotReady(t) => text::ends_with(e.text(), t),
        },
{
    match e {
        AgentErrorView::Connection(m) => text::lemma_ends_with("connection failed: "@, m),
        AgentErrorView::VsockConnectRejected(port) => {
            reveal_strlit("vsock CONNECT rejected by Firecracker (port ");
            reveal_strlit("port ");
            text::lemma_occurs("port "@ + text::decimal(port as nat), e.text(), 39);
        },
        AgentErrorView::Protocol(cause) => text::lemma_ends_with("protocol error: "@, cause.text()),
        AgentErrorView::UnexpectedResponse => {},
        AgentErrorView::Agent(m) => text::lemma_ends_with("agent returned error: "@, m),
        AgentErrorView::NotReady(t) => text::lemma_ends_with("agent not ready after "@, t),
    }
}

} // verus!
