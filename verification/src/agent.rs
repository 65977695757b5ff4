//! The agent in the guest: what a request asks to be done, what is answered, and how a shell
//! session runs.
//!
//! Commands, files and terminals are left to the caller.
use crate::base64;
use crate::base64::{base64_decode, base64_encode};
use crate::client;
use crate::proto::{
    AgentRequest, AgentRequestView, AgentResponse, AgentResponseView, ErrorResponse, ExecResponse,
    ReadFileResponse, ShellDataResponse, ShellExitResponse, ShellStartRequest, WriteFileResponse,
};
use crate::text;
use crate::text::text_of_bytes;
use vstd::prelude::*;
use vstd::string::*;

verus! {

/// What a request asks to be done.
pub enum AgentTask {
    /// Nothing but an answer.
    Reply(AgentResponse),
    /// Run a command.
    Run { command: String, args: Vec<String>, dir: String, env: Vec<(String, String)> },
    /// Read a file.
    Read { path: String },
    /// Write a file and, if there is a mode, set it.
    Write { path: String, data: Vec<u8>, mode: Option<u32> },
}

/// What a request asks to be done, over sequences.
pub enum AgentTaskView {
    Reply(AgentResponseView),
    Run {
        command: Seq<char>,
        args: Seq<Seq<char>>,
        dir: Seq<char>,
        env: Seq<(Seq<char>, Seq<char>)>,
    },
    Read { path: Seq<char> },
    Write { path: Seq<char>, data: Seq<u8>, mode: Option<u32> },
}

impl View for AgentTask {
    type V = AgentTaskView;

    open spec fn view(&self) -> AgentTaskView {
        match self {
            AgentTask::Reply(r) => AgentTaskView::Reply(r@),
            AgentTask::Run { command, args, dir, env } => AgentTaskView::Run {
                command: command@,
                args: text::texts(args@),
                dir: dir@,
                env: text::pair_texts(env@),
            },
            AgentTask::Read { path } => AgentTaskView::Read { path: path@ },
            AgentTask::Write { path, data, mode } => AgentTaskView::Write {
                path: path@,
                data: data@,
                mode: *mode,
            },
        }
    }
}

/// What a request asks to be done. A command without a directory runs in `/`. Data that is no
/// base64 is answered with an error, and so are messages of a shell session outside of one.
pub open spec fn task_for(request: AgentRequestView) -> AgentTaskView {
    match request {
        AgentRequestView::Ping => AgentTaskView::Reply(AgentResponseView::Pong),
        AgentRequestView::Exec { command, args, working_dir, env } => AgentTaskView::Run {
            command,
            args,
            dir: match working_dir {
                Some(dir) => dir,
                None => "/"@,
            },
            env,
        },
        AgentRequestView::ReadFile(path) => AgentTaskView::Read { path },
        AgentRequestView::WriteFile { path, data, mode } => match base64::decoded_text(data) {
            Ok(bytes) => AgentTaskView::Write { path, data: bytes, mode },
            Err(m) => AgentTaskView::Reply(
                AgentResponseView::Error("base64 decode failed: "@ + m),
            ),
        },
        _ => AgentTaskView::Reply(
            AgentResponseView::Error("shell messages are not valid outside a shell session"@),
        ),
    }
}

fn error_reply(prefix: &str, message: &str) -> (r: AgentResponse)
    ensures
        r@ == AgentResponseView::Error(prefix@ + message@),
{
    let mut m = prefix.to_owned();
    m.append(message);
    AgentResponse::Error(ErrorResponse { message: m })
}

/// What a request asks to be done.
pub fn handle_request(request: AgentRequest) -> (task: AgentTask)
    ensures
        task@ == task_for(request@),
        request matches AgentRequest::Exec(q) ==> task is Run && task->command == q.command
            && task->args == q.args && task->env == q.env && match q.working_dir {
            Some(dir) => task->dir == dir,
            None => task->dir@ == "/"@,
        },
        request matches AgentRequest::ReadFile(q) ==> (task matches AgentTask::Read { path } && path
            == q.path),
        request matches AgentRequest::WriteFile(q) ==> (task matches AgentTask::Write {
            path,
            data,
            mode,
        } ==> path == q.path && mode == q.mode && base64::decoded_text(q.data@) == Ok::<
            Seq<u8>,
            Seq<char>,
        >(data@)),
        request is Ping ==> (task matches AgentTask::Reply(r) && r is Pong),
{
    match request {
        AgentRequest::Ping => AgentTask::Reply(AgentResponse::Pong),
        AgentRequest::Exec(req) => AgentTask::Run {
            command: req.command,
            args: req.args,
            dir: match req.working_dir {
                Some(dir) => dir,
                None => "/".to_owned(),
            },
            env: req.env,
        },
        AgentRequest::ReadFile(req) => AgentTask::Read { path: req.path },
        AgentRequest::WriteFile(req) => match base64_decode(req.data.as_str()) {
            Ok(data) => AgentTask::Write { path: req.path, data, mode: req.mode },
            Err(m) => AgentTask::Reply(error_reply("base64 decode failed: ", m.as_str())),
        },
        AgentRequest::ShellStart(_) => AgentTask::Reply(
            AgentResponse::Error(
                ErrorResponse {
                    message: "shell messages are not valid outside a shell session".to_owned(),
                },
            ),
        ),
        AgentRequest::ShellData(_) => AgentTask::Reply(
            AgentResponse::Error(
                ErrorResponse {
                    message: "shell messages are not valid outside a shell session".to_owned(),
                },
            ),
        ),
        AgentRequest::ShellResize(_) => AgentTask::Reply(
            AgentResponse::Error(
                ErrorResponse {
                    message: "shell messages are not valid outside a shell session".to_owned(),
                },
            ),
        ),
    }
}

/// The exit code that is reported for a process; a process without one was killed.
pub open spec fn reported_code(code: Option<i32>) -> i32 {
    match code {
        Some(c) => c,
        None => (-1) as i32,
    }
}

/// The answer for a command that was run.
pub open spec fn exec_answer(code: Option<i32>, stdout: Seq<u8>, stderr: Seq<u8>) -> AgentResponseView {
    AgentResponseView::Exec {
        exit_code: reported_code(code),
        stdout: text::lossy_text(stdout),
        stderr: text::lossy_text(stderr),
    }
}

/// The answer for a file that was read.
pub open spec fn read_answer(data: Seq<u8>) -> AgentResponseView {
    AgentResponseView::ReadFile { data: base64::encoded(data), size: data.len() as u64 }
}

/// The answer for a command that was run: its exit code and its output, or why it could not be
/// run.
pub fn exec_response(outcome: Result<(Option<i32>, Vec<u8>, Vec<u8>), String>) -> (r: AgentResponse)
    ensures
        match outcome {
            Ok((code, stdout, stderr)) => r@ == (AgentResponseView::Exec {
                exit_code: reported_code(code),
                stdout: text::lossy_text(stdout@),
                stderr: text::lossy_text(stderr@),
            }),
            Err(m) => r@ == AgentResponseView::Error("exec failed: "@ + m@),
        },
        outcome matches Ok((code, stdout, stderr)) ==> r@ == exec_answer(code, stdout@, stderr@),
{
    match outcome {
        Ok((code, stdout, stderr)) => AgentResponse::Exec(
            ExecResponse {
                exit_code: match code {
                    Some(c) => c,
                    None => -1,
                },
                stdout: text_of_bytes(stdout.as_slice()),
                stderr: text_of_bytes(stderr.as_slice()),
            },
        ),
        Err(m) => error_reply("exec failed: ", m.as_str()),
    }
}

/// The answer for a file that was read, or why it could not be read.
pub fn read_response(outcome: Result<Vec<u8>, String>) -> (r: AgentResponse)
    ensures
        match outcome {
            Ok(data) => r@ == (AgentResponseView::ReadFile {
                data: base64::encoded(data@),
                size: data@.len() as u64,
            }),
            Err(m) => r@ == AgentResponseView::Error("read failed: "@ + m@),
        },
        outcome matches Ok(data) ==> r@ == read_answer(data@),
{
    match outcome {
        Ok(data) => {
            let size: u64 = data.len() as u64;
            AgentResponse::ReadFile(
                ReadFileResponse { data: base64_encode(data.as_slice()), size },
            )
        },
        Err(m) => error_reply("read failed: ", m.as_str()),
    }
}

/// The answer for a file of `len` bytes that was written, or why it could not be written.
pub fn write_response(len: usize, outcome: Result<(), String>) -> (r: AgentResponse)
    ensures
        match outcome {
            Ok(_) => r@ == (AgentResponseView::WriteFile { bytes_written: len as u64 }),
            Err(m) => r@ == AgentResponseView::Error("write failed: "@ + m@),
        },
{
    match outcome {
        Ok(_) => AgentResponse::WriteFile(WriteFileResponse { bytes_written: len as u64 }),
        Err(m) => error_reply("write failed: ", m.as_str()),
    }
}

/// What a connection does with what it received.
pub enum ConnectionStep {
    /// The peer is gone.
    Close,
    /// A shell session takes the connection over.
    Shell(ShellStartRequest),
    /// Do a task, answer, and read on.
    Handle(AgentTask),
}

/// What a connection does with the next message, or with the end of the stream.
pub fn handle_connection(message: Option<AgentRequest>) -> (step: ConnectionStep)
    ensures
        match message {
            None => step is Close,
            Some(AgentRequest::ShellStart(req)) => step == ConnectionStep::Shell(req),
            Some(other) => step matches ConnectionStep::Handle(task) && task@ == task_for(other@),
        },
{
    match message {
        None => ConnectionStep::Close,
        Some(AgentRequest::ShellStart(req)) => ConnectionStep::Shell(req),
        Some(other) => ConnectionStep::Handle(handle_request(other)),
    }
}

/// A file that is read comes back whole: what the answer carries decodes to the file's bytes.
pub proof fn read_answer_carries_the_file(data: Seq<u8>)
    ensures
        base64::decoded_text(base64::encoded(data)) == Ok::<Seq<u8>, Seq<char>>(data),
{
    crate::base64::decode_inverts_encode(data);
}

/// A command is run as the host asks for it: the same command with the same arguments, in the same
/// environment, and in the directory that is asked for. Only a request without a directory is run
/// in `/`.
pub proof fn command_is_run_as_asked(
    command: Seq<char>,
    args: Seq<Seq<char>>,
    env: Seq<(Seq<char>, Seq<char>)>,
    dir: Seq<char>,
)
    ensures
        task_for(client::exec_message(command, args, Some(dir), env)) == (AgentTaskView::Run {
            command,
            args,
            dir,
            env,
        }),
        task_for(client::exec_message(command, args, None, env)) == (AgentTaskView::Run {
            command,
            args,
            dir: "/"@,
            env,
        }),
{
}

/// Different requests for a command are different runs: two requests with a directory are run
/// alike only if they are the same.
pub proof fn runs_tell_requests_apart(
    a: (Seq<char>, Seq<Seq<char>>, Seq<char>, Seq<(Seq<char>, Seq<char>)>),
    b: (Seq<char>, Seq<Seq<char>>, Seq<char>, Seq<(Seq<char>, Seq<char>)>),
)
    ensures
        task_for(client::exec_message(a.0, a.1, Some(a.2), a.3)) == task_for(
            client::exec_message(b.0, b.1, Some(b.2), b.3),
        ) ==> a == b,
{
}

/// A file is read from the path that the host asks for, and a file that the host asks to be
/// written is written there, byte for byte, with the mode that is asked for.
pub proof fn files_are_handled_as_asked(path: Seq<char>, data: Seq<u8>, mode: Option<u32>)
    ensures
        task_for(client::read_file_message(path)) == (AgentTaskView::Read { path }),
        task_for(client::write_file_message(path, data, mode)) == (AgentTaskView::Write {
            path,
            data,
            mode,
        }),
{
    crate::base64::decode_inverts_encode(data);
}

/// What the host asks to be written is what the agent writes.
pub proof fn written_file_is_the_sent_file(path: Seq<char>, data: Seq<u8>, mode: Option<u32>)
    ensures
        task_for(AgentRequestView::WriteFile { path, data: base64::encoded(data), mode })
            == (AgentTaskView::Write { path, data, mode }),
{
    crate::base64::decode_inverts_encode(data);
}

/// How far a shell session has come.
#[derive(Debug, Clone, Copy, PartialEq, Eq, Structural)]
pub enum ShellStage {
    /// The terminal is being opened.
    Opening,
    /// The shell is being started.
    Starting,
    /// The shell runs.
    Running,
    /// The shell has exited with the given code; its last output is being read.
    Draining { exit_code: i32 },
    /// The terminal is closed; the shell is about to exit.
    Closing,
    /// The session is over.
    Over,
}

/// A shell session.
pub struct ShellSession {
    pub stage: ShellStage,
    /// The shell.
    pub command: String,
    pub env: Vec<(String, String)>,
}

/// A shell session, with texts as characters.
pub struct ShellSessionView {
    pub stage: ShellStage,
    pub command: Seq<char>,
    pub env: Seq<(Seq<char>, Seq<char>)>,
}

impl View for ShellSession {
    type V = ShellSessionView;

    open spec fn view(&self) -> ShellSessionView {
        ShellSessionView {
            stage: self.stage,
            command: self.command@,
            env: text::pair_texts(self.env@),
        }
    }
}

/// What happens to a shell session.
pub enum SessionEvent {
    /// The terminal is open.
    PtyOpened,
    /// The terminal could not be opened.
    PtyFailed(String),
    /// The shell was started.
    Spawned,
    /// The shell could not be started.
    SpawnFailed(String),
    /// Output of the shell.
    Output(Vec<u8>),
    /// The terminal was closed from the other side, or reading it failed.
    OutputEnd,
    /// A message from the host.
    Message(AgentRequest),
    /// The host is gone, or what it sent is no message.
    HostGone,
    /// The shell has exited.
    Exited(Option<i32>),
    /// The last output of the shell.
    Drained(Vec<u8>),
}

/// What happens to a shell session, over sequences.
pub enum SessionEventView {
    PtyOpened,
    PtyFailed(Seq<char>),
    Spawned,
    SpawnFailed(Seq<char>),
    Output(Seq<u8>),
    OutputEnd,
    Message(AgentRequestView),
    HostGone,
    Exited(Option<i32>),
    Drained(Seq<u8>),
}

impl View for SessionEvent {
    type V = SessionEventView;

    open spec fn view(&self) -> SessionEventView {
        match self {
            SessionEvent::PtyOpened => SessionEventView::PtyOpened,
            SessionEvent::PtyFailed(m) => SessionEventView::PtyFailed(m@),
            SessionEvent::Spawned => SessionEventView::Spawned,
            SessionEvent::SpawnFailed(m) => SessionEventView::SpawnFailed(m@),
            SessionEvent::Output(b) => SessionEventView::Output(b@),
            SessionEvent::OutputEnd => SessionEventView::OutputEnd,
            SessionEvent::Message(r) => SessionEventView::Message(r@),
            SessionEvent::HostGone => SessionEventView::HostGone,
            SessionEvent::Exited(code) => SessionEventView::Exited(*code),
            SessionEvent::Drained(b) => SessionEventView::Drained(b@),
        }
    }
}

/// What a shell session does.
pub enum SessionAction {
    /// Open a terminal of the given size.
    OpenPty { cols: u16, rows: u16 },
    /// Start the shell on the terminal.
    Spawn { command: String, env: Vec<(String, String)> },
    /// Send a message to the host.
    Send(AgentResponse),
    /// Hand input to the shell. That it does not arrive ends nothing.
    Write(Vec<u8>),
    /// Change the size of the terminal. That it fails ends nothing.
    Resize { cols: u16, rows: u16 },
    /// Kill the shell.
    Kill,
    /// Read, for a moment, what is left of the shell's output.
    Drain,
    /// Wait for the shell to exit.
    WaitExit,
}

/// What a shell session does, over sequences.
pub enum SessionActionView {
    OpenPty { cols: u16, rows: u16 },
    Spawn { command: Seq<char>, env: Seq<(Seq<char>, Seq<char>)> },
    Send(AgentResponseView),
    Write(Seq<u8>),
    Resize { cols: u16, rows: u16 },
    Kill,
    Drain,
    WaitExit,
}

impl View for SessionAction {
    type V = SessionActionView;

    open spec fn view(&self) -> SessionActionView {
        match self {
            SessionAction::OpenPty { cols, rows } => SessionActionView::OpenPty {
                cols: *cols,
                rows: *rows,
            },
            SessionAction::Spawn { command, env } => SessionActionView::Spawn {
                command: command@,
                env: text::pair_texts(env@),
            },
            SessionAction::Send(r) => SessionActionView::Send(r@),
            SessionAction::Write(b) => SessionActionView::Write(b@),
            SessionAction::Resize { cols, rows } => SessionActionView::Resize {
                cols: *cols,
                rows: *rows,
            },
            SessionAction::Kill => SessionActionView::Kill,
            SessionAction::Drain => SessionActionView::Drain,
            SessionAction::WaitExit => SessionActionView::WaitExit,
        }
    }
}

/// The actions, over sequences.
pub open spec fn action_views(v: Seq<SessionAction>) -> Seq<SessionActionView> {
    v.map_values(|a: SessionAction| a@)
}

/// The message that carries output.
pub open spec fn output_message(b: Seq<u8>) -> SessionActionView {
    SessionActionView::Send(AgentResponseView::ShellData(base64::encoded(b)))
}

/// The message that reports the exit of the shell.
pub open spec fn exit_message(code: i32) -> SessionActionView {
    SessionActionView::Send(AgentResponseView::ShellExit(code))
}

impl ShellSessionView {
    /// The events that can come at this stage.
    pub open spec fn expects(self, event: SessionEventView) -> bool {
        match self.stage {
            ShellStage::Opening => event is PtyOpened || event is PtyFailed,
            ShellStage::Starting => event is Spawned || event is SpawnFailed,
            ShellStage::Running => event is Output || event is OutputEnd || event is Message
                || event is HostGone || event is Exited,
            ShellStage::Draining { .. } => event is Drained,
            ShellStage::Closing => event is Exited,
            ShellStage::Over => false,
        }
    }

    /// The stage after an event, and what is done, in order.
    pub open spec fn after(self, event: SessionEventView) -> (ShellStage, Seq<SessionActionView>) {
        match event {
            SessionEventView::PtyOpened => (
                ShellStage::Starting,
                seq![SessionActionView::Spawn { command: self.command, env: self.env }],
            ),
            SessionEventView::PtyFailed(m) => (
                ShellStage::Over,
                seq![
                    SessionActionView::Send(
                        AgentResponseView::Error("failed to open PTY: "@ + m),
                    ),
                ],
            ),
            SessionEventView::Spawned => (
                ShellStage::Running,
                seq![SessionActionView::Send(AgentResponseView::ShellStarted)],
            ),
            SessionEventView::SpawnFailed(m) => (
                ShellStage::Over,
                seq![
                    SessionActionView::Send(
                        AgentResponseView::Error("failed to start shell: "@ + m),
                    ),
                ],
            ),
            SessionEventView::Output(b) => (ShellStage::Running, seq![output_message(b)]),
            SessionEventView::OutputEnd => (
                ShellStage::Closing,
                seq![SessionActionView::WaitExit],
            ),
            SessionEventView::Message(AgentRequestView::ShellData(data)) => (
                ShellStage::Running,
                match base64::decoded_text(data) {
                    Ok(bytes) => seq![SessionActionView::Write(bytes)],
                    Err(_) => seq![],
                },
            ),
            SessionEventView::Message(AgentRequestView::ShellResize { cols, rows }) => (
                ShellStage::Running,
                seq![SessionActionView::Resize { cols, rows }],
            ),
            SessionEventView::Message(_) => (ShellStage::Running, seq![]),
            SessionEventView::HostGone => (ShellStage::Over, seq![SessionActionView::Kill]),
            SessionEventView::Exited(code) => if self.stage == ShellStage::Closing {
                (ShellStage::Over, seq![exit_message(reported_code(code))])
            } else {
                (
                    ShellStage::Draining { exit_code: reported_code(code) },
                    seq![SessionActionView::Drain],
                )
            },
            SessionEventView::Drained(b) => {
                let exit = exit_message(self.stage->exit_code);
                (
                    ShellStage::Over,
                    if b.len() == 0 {
                        seq![exit]
                    } else {
                        seq![output_message(b), exit]
                    },
                )
            },
        }
    }
}

/// A session, and what is done first, are those that a message asks for.
pub open spec fn session_started(
    message: AgentRequestView,
    session: ShellSessionView,
    first: SessionActionView,
) -> bool {
    message matches AgentRequestView::ShellStart { command, env, cols, rows } && {
        &&& session.stage == ShellStage::Opening
        &&& session.env == env
        &&& session.command == match command {
            Some(c) => c,
            None => "/bin/sh"@,
        }
        &&& first == (SessionActionView::OpenPty { cols, rows })
    }
}

fn send_output(b: &[u8]) -> (a: SessionAction)
    ensures
        a@ == output_message(b@),
{
    SessionAction::Send(AgentResponse::ShellData(ShellDataResponse { data: base64_encode(b) }))
}

fn send_exit(exit_code: i32) -> (a: SessionAction)
    ensures
        a@ == exit_message(exit_code),
{
    SessionAction::Send(AgentResponse::ShellExit(ShellExitResponse { exit_code }))
}

fn code_of(code: Option<i32>) -> (c: i32)
    ensures
        c == reported_code(code),
{
    match code {
        Some(c) => c,
        None => -1,
    }
}

impl ShellSession {
    /// A session for a request, and what is done first. Without a command the shell is
    /// `/bin/sh`.
    pub fn start(req: ShellStartRequest) -> (r: (ShellSession, SessionAction))
        ensures
            r.0@.stage == ShellStage::Opening,
            r.0@.command == (match req.command {
                Some(c) => c@,
                None => "/bin/sh"@,
            }),
            r.0@.env == text::pair_texts(req.env@),
            r.1@ == (SessionActionView::OpenPty { cols: req.cols, rows: req.rows }),
            session_started(AgentRequest::ShellStart(req)@, r.0@, r.1@),
    {
        let command = match req.command {
            Some(c) => c,
            None => "/bin/sh".to_owned(),
        };
        (
            ShellSession { stage: ShellStage::Opening, command, env: req.env },
            SessionAction::OpenPty { cols: req.cols, rows: req.rows },
        )
    }

    /// Takes what has happened and says what is to be done, in order. While the shell runs, the
    /// session then waits for whatever happens next.
    pub fn step(&mut self, event: SessionEvent) -> (actions: Vec<SessionAction>)
        requires
            old(self)@.expects(event@),
        ensures
            ({
                let (stage, todo) = old(self)@.after(event@);
                final(self).stage == stage && action_views(actions@) == todo
            }),
            final(self)@.command == old(self)@.command,
    {
        let ghost todo = self@.after(event@).1;
        let mut actions: Vec<SessionAction> = Vec::new();
        match event {
            SessionEvent::PtyOpened => {
                self.stage = ShellStage::Starting;
                let mut env: Vec<(String, String)> = Vec::new();
                std::mem::swap(&mut env, &mut self.env);
                actions.push(SessionAction::Spawn { command: self.command.clone(), env });
            },
            SessionEvent::PtyFailed(m) => {
                self.stage = ShellStage::Over;
                actions.push(
                    SessionAction::Send(error_reply("failed to open PTY: ", m.as_str())),
                );
            },
            SessionEvent::Spawned => {
                self.stage = ShellStage::Running;
                actions.push(SessionAction::Send(AgentResponse::ShellStarted));
            },
            SessionEvent::SpawnFailed(m) => {
                self.stage = ShellStage::Over;
                actions.push(
                    SessionAction::Send(error_reply("failed to start shell: ", m.as_str())),
                );
            },
            SessionEvent::Output(b) => {
                actions.push(send_output(b.as_slice()));
            },
            SessionEvent::OutputEnd => {
                self.stage = ShellStage::Closing;
                actions.push(SessionAction::WaitExit);
            },
            SessionEvent::Message(AgentRequest::ShellData(req)) => {
                if let Ok(data) = base64_decode(req.data.as_str()) {
                    actions.push(SessionAction::Write(data));
                }
            },
            SessionEvent::Message(AgentRequest::ShellResize(req)) => {
                actions.push(SessionAction::Resize { cols: req.cols, rows: req.rows });
            },
            SessionEvent::Message(_) => {},
            SessionEvent::HostGone => {
                self.stage = ShellStage::Over;
                actions.push(SessionAction::Kill);
            },
            SessionEvent::Exited(code) => {
                let exit_code: i32 = code_of(code);
                if let ShellStage::Closing = self.stage {
                    self.stage = ShellStage::Over;
                    actions.push(send_exit(exit_code));
                } else {
                    self.stage = ShellStage::Draining { exit_code };
                    actions.push(SessionAction::Drain);
                }
            },
            SessionEvent::Drained(b) => {
                let exit_code: i32 = match self.stage {
                    ShellStage::Draining { exit_code } => exit_code,
                    _ => -1,
                };
                self.stage = ShellStage::Over;
                if b.len() > 0 {
                    actions.push(send_output(b.as_slice()));
                }
                actions.push(send_exit(exit_code));
            },
        }
        assert(action_views(actions@) =~= todo);
        actions
    }
}

/// A session whose host stays reports the exit of the shell exactly once, as the last thing: on
/// each way out of a running shell the last message carries the exit code.
pub proof fn session_ends_with_the_exit_code(s: ShellSessionView, code: Option<i32>, rest: Seq<u8>)
    requires
        s.stage == ShellStage::Running,
    ensures
        ({
            let (drain, _) = s.after(SessionEventView::Exited(code));
            let (over, todo) = ShellSessionView { stage: drain, ..s }.after(
                SessionEventView::Drained(rest),
            );
            over == ShellStage::Over && todo.last() == exit_message(reported_code(code))
        }),
        ({
            let (closing, _) = s.after(SessionEventView::OutputEnd);
            let (over, todo) = ShellSessionView { stage: closing, ..s }.after(
                SessionEventView::Exited(code),
            );
            over == ShellStage::Over && todo == seq![exit_message(reported_code(code))]
        }),
{
}

/// A shell session does what the host asks for: it starts the shell that was asked for, in the
/// environment that was asked for, gives it the size that is asked for, and hands it what the host
/// sends, byte for byte; what the shell writes reaches the host byte for byte, and its exit code is
/// reported as it is.
pub proof fn session_does_as_asked(s: ShellSessionView, data: Seq<u8>, cols: u16, rows: u16, code: i32)
    ensures
        s.after(SessionEventView::PtyOpened).1 == seq![
            SessionActionView::Spawn { command: s.command, env: s.env },
        ],
        s.after(SessionEventView::Message(client::shell_data_message(data))).1 == seq![
            SessionActionView::Write(data),
        ],
        s.after(SessionEventView::Message(client::shell_resize_message(cols, rows))).1 == seq![
            SessionActionView::Resize { cols, rows },
        ],
        s.after(SessionEventView::Output(data)).1.len() == 1,
        s.after(SessionEventView::Output(data)).1[0] matches SessionActionView::Send(
            AgentResponseView::ShellData(sent),
        ) && base64::decoded_text(sent) == Ok::<Seq<u8>, Seq<char>>(data),
        exit_message(reported_code(Some(code))) == SessionActionView::Send(
            AgentResponseView::ShellExit(code),
        ),
        s.after(SessionEventView::HostGone) == (
            ShellStage::Over,
            seq![SessionActionView::Kill],
        ),
{
    crate::base64::decode_inverts_encode(data);
}

/// The exit code of a process is reported as it is; a process that was killed has the code -1.
pub proof fn exit_codes_are_reported(code: i32)
    ensures
        reported_code(Some(code)) == code,
        reported_code(None) == -1,
{
}

/// The host learns what became of a command: its exit code, what it wrote, and what it wrote as
/// errors; and a file that is read, or what a shell writes, reaches the host byte for byte.
pub proof fn host_learns_the_outcome(code: i32, stdout: Seq<u8>, stderr: Seq<u8>, data: Seq<u8>)
    ensures
        client::command_outcome(exec_answer(Some(code), stdout, stderr)) == Some(
            (code, text::lossy_text(stdout), text::lossy_text(stderr)),
        ),
        client::command_outcome(exec_answer(None, stdout, stderr)) matches Some(o) && o.0 < 0,
        client::carried_bytes(read_answer(data)) == Some(data),
        output_message(data) matches SessionActionView::Send(sent) && client::carried_bytes(sent)
            == Some(data),
{
    crate::base64::decode_inverts_encode(data);
}

/// A shell is started as the host asks for it: the command that is asked for, or `/bin/sh` where
/// none is, with the terminal of the size that is asked for and the kind of the terminal in its
/// environment.
pub proof fn shell_is_started_as_asked(
    command: Option<Seq<char>>,
    cols: u16,
    rows: u16,
    session: ShellSessionView,
    first: SessionActionView,
)
    requires
        session_started(client::shell_start_message(command, cols, rows), session, first),
    ensures
        first == (SessionActionView::OpenPty { cols, rows }),
        command matches Some(c) ==> session.command == c,
        command is None ==> session.command == "/bin/sh"@,
        session.env.contains(("TERM"@, "xterm"@)),
        session.after(SessionEventView::PtyOpened).1[0] == (SessionActionView::Spawn {
            command: session.command,
            env: session.env,
        }),
{
    assert(session.env[0] == ("TERM"@, "xterm"@));
}

} // verus!
