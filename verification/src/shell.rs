//! Interactive shells over the API: the messages, and the session between a client and the agent
//! of a VM.
use crate::base64;
use crate::base64::{base64_decode, base64_encode};
use crate::client::AgentError;
use crate::orchestrator::CoreError;
use crate::text;
use vstd::prelude::*;
use vstd::string::*;

verus! {

/// What a client sends.
#[derive(Debug)]
pub enum WsShellInput {
    Start { command: Option<String>, cols: u16, rows: u16 },
    /// Input of the shell, in Base64.
    Data { data: String },
    Resize { cols: u16, rows: u16 },
}

/// What a client is sent.
#[derive(Debug)]
pub enum WsShellOutput {
    Started,
    /// Output of the shell, in Base64.
    Data { data: String },
    Exit { exit_code: i32 },
    Error { message: String },
}

/// What a client is sent, over sequences.
pub enum WsShellOutputView {
    Started,
    Data(Seq<char>),
    Exit(i32),
    Error(Seq<char>),
}

impl View for WsShellOutput {
    type V = WsShellOutputView;

    open spec fn view(&self) -> WsShellOutputView {
        match self {
            WsShellOutput::Started => WsShellOutputView::Started,
            WsShellOutput::Data { data } => WsShellOutputView::Data(data@),
            WsShellOutput::Exit { exit_code } => WsShellOutputView::Exit(*exit_code),
            WsShellOutput::Error { message } => WsShellOutputView::Error(message@),
        }
    }
}

/// The width of a terminal whose width is not given.
pub fn default_cols() -> (n: u16)
    ensures
        n == 80,
{
    80
}

/// The height of a terminal whose height is not given.
pub fn default_rows() -> (n: u16)
    ensures
        n == 24,
{
    24
}

/// The request for a shell, with the usual size where none is given.
pub fn start_input(command: Option<String>, cols: Option<u16>, rows: Option<u16>) -> (i: WsShellInput)
    ensures
        i == (WsShellInput::Start {
            command,
            cols: match cols {
                Some(n) => n,
                None => 80,
            },
            rows: match rows {
                Some(n) => n,
                None => 24,
            },
        }),
{
    WsShellInput::Start {
        command,
        cols: match cols {
            Some(n) => n,
            None => default_cols(),
        },
        rows: match rows {
            Some(n) => n,
            None => default_rows(),
        },
    }
}

/// What happens in a session.
pub enum WsEvent {
    /// The client sent a message.
    Input(WsShellInput),
    /// The client sent text that is no message; in the words of the parser.
    Unreadable(String),
    /// The client sent something that is not text.
    Other,
    /// The client has gone, or its connection is broken.
    Gone,
    /// The agent was reached.
    Connected,
    NotConnected(CoreError),
    /// The agent started the shell.
    Started,
    NotStarted(AgentError),
    /// The shell wrote something.
    Output(Vec<u8>),
    Exited(i32),
    AgentFailed(AgentError),
    /// What was to be sent could not be sent.
    NotSent,
    /// It is time to see whether the client is there.
    Tick,
}

/// What to do in a session.
pub enum WsAction {
    /// Reach the agent.
    Connect,
    /// Have the agent start a shell.
    Start { command: Option<String>, cols: u16, rows: u16 },
    /// Tell the client; it does not matter whether it gets it.
    Announce(WsShellOutput),
    /// Tell the client.
    Say(WsShellOutput),
    /// Send input to the shell.
    SendToShell(Vec<u8>),
    ResizeShell { cols: u16, rows: u16 },
    /// See whether the client is there.
    Ping,
    Ignore,
    /// Tell the client, and end.
    SayAndEnd(WsShellOutput),
    /// Tell the client, close the connection and end.
    SayAndClose(WsShellOutput),
    /// Close the connection and end.
    Close,
    End,
}

/// What to do in a session, over sequences.
pub enum WsActionView {
    Connect,
    Start { command: Option<Seq<char>>, cols: u16, rows: u16 },
    Announce(WsShellOutputView),
    Say(WsShellOutputView),
    SendToShell(Seq<u8>),
    ResizeShell { cols: u16, rows: u16 },
    Ping,
    Ignore,
    SayAndEnd(WsShellOutputView),
    SayAndClose(WsShellOutputView),
    Close,
    End,
}

impl View for WsAction {
    type V = WsActionView;

    open spec fn view(&self) -> WsActionView {
        match self {
            WsAction::Connect => WsActionView::Connect,
            WsAction::Start { command, cols, rows } => WsActionView::Start {
                command: text::opt_text(*command),
                cols: *cols,
                rows: *rows,
            },
            WsAction::Announce(o) => WsActionView::Announce(o@),
            WsAction::Say(o) => WsActionView::Say(o@),
            WsAction::SendToShell(data) => WsActionView::SendToShell(data@),
            WsAction::ResizeShell { cols, rows } => WsActionView::ResizeShell {
                cols: *cols,
                rows: *rows,
            },
            WsAction::Ping => WsActionView::Ping,
            WsAction::Ignore => WsActionView::Ignore,
            WsAction::SayAndEnd(o) => WsActionView::SayAndEnd(o@),
            WsAction::SayAndClose(o) => WsActionView::SayAndClose(o@),
            WsAction::Close => WsActionView::Close,
            WsAction::End => WsActionView::End,
        }
    }
}

/// How far a session has come.
pub enum WsStage {
    /// The client has to ask for a shell.
    AwaitStart,
    /// The agent is being reached for the shell that was asked for.
    Connecting { command: Option<String>, cols: u16, rows: u16 },
    /// The shell is being started.
    Starting,
    /// Input and output are passed on.
    Bridging,
    Over,
}

/// How far a session has come, over sequences.
pub enum WsStageView {
    AwaitStart,
    Connecting { command: Option<Seq<char>>, cols: u16, rows: u16 },
    Starting,
    Bridging,
    Over,
}

impl View for WsStage {
    type V = WsStageView;

    open spec fn view(&self) -> WsStageView {
        match self {
            WsStage::AwaitStart => WsStageView::AwaitStart,
            WsStage::Connecting { command, cols, rows } => WsStageView::Connecting {
                command: text::opt_text(*command),
                cols: *cols,
                rows: *rows,
            },
            WsStage::Starting => WsStageView::Starting,
            WsStage::Bridging => WsStageView::Bridging,
            WsStage::Over => WsStageView::Over,
        }
    }
}

/// Says that something went wrong.
pub open spec fn error_output(prefix: Seq<char>, message: Seq<char>) -> WsShellOutputView {
    WsShellOutputView::Error(prefix + message)
}

/// What a session does with an event while input and output are passed on.
pub open spec fn bridge(event: WsEvent) -> (WsStageView, WsActionView) {
    match event {
        WsEvent::Input(WsShellInput::Data { data }) => (
            WsStageView::Bridging,
            match base64::decoded_text(data@) {
                Ok(bytes) => WsActionView::SendToShell(bytes),
                Err(_) => WsActionView::Ignore,
            },
        ),
        WsEvent::Input(WsShellInput::Resize { cols, rows }) => (
            WsStageView::Bridging,
            WsActionView::ResizeShell { cols, rows },
        ),
        WsEvent::Output(data) => (
            WsStageView::Bridging,
            WsActionView::Say(WsShellOutputView::Data(base64::encoded(data@))),
        ),
        WsEvent::Exited(code) => (
            WsStageView::Over,
            WsActionView::SayAndClose(WsShellOutputView::Exit(code)),
        ),
        WsEvent::AgentFailed(e) => (
            WsStageView::Over,
            WsActionView::SayAndClose(error_output("agent error: "@, e@.text())),
        ),
        WsEvent::Gone => (WsStageView::Over, WsActionView::Close),
        WsEvent::NotSent => (WsStageView::Over, WsActionView::Close),
        WsEvent::Tick => (WsStageView::Bridging, WsActionView::Ping),
        _ => (WsStageView::Bridging, WsActionView::Ignore),
    }
}

/// What a session does with an event: its next stage, and the action.
pub open spec fn session_step(stage: WsStageView, event: WsEvent) -> (WsStageView, WsActionView) {
    match stage {
        WsStageView::AwaitStart => match event {
            WsEvent::Input(WsShellInput::Start { command, cols, rows }) => (
                WsStageView::Connecting { command: text::opt_text(command), cols, rows },
                WsActionView::Connect,
            ),
            WsEvent::Input(_) => (
                WsStageView::Over,
                WsActionView::SayAndEnd(WsShellOutputView::Error("expected 'start' message"@)),
            ),
            WsEvent::Unreadable(m) => (
                WsStageView::Over,
                WsActionView::SayAndEnd(error_output("invalid message: "@, m@)),
            ),
            _ => (WsStageView::Over, WsActionView::End),
        },
        WsStageView::Connecting { command, cols, rows } => match event {
            WsEvent::Connected => (
                WsStageView::Starting,
                WsActionView::Start { command, cols, rows },
            ),
            WsEvent::NotConnected(e) => (
                WsStageView::Over,
                WsActionView::SayAndEnd(WsShellOutputView::Error(e@.text())),
            ),
            _ => (stage, WsActionView::Ignore),
        },
        WsStageView::Starting => match event {
            WsEvent::Started => (
                WsStageView::Bridging,
                WsActionView::Announce(WsShellOutputView::Started),
            ),
            WsEvent::NotStarted(e) => (
                WsStageView::Over,
                WsActionView::SayAndEnd(error_output("shell start failed: "@, e@.text())),
            ),
            _ => (stage, WsActionView::Ignore),
        },
        WsStageView::Bridging => bridge(event),
        WsStageView::Over => (stage, WsActionView::Ignore),
    }
}

/// A session between a client and the agent of a VM.
pub struct WsShellSession {
    pub stage: WsStage,
}

fn with_prefix(prefix: &str, message: String) -> (o: WsShellOutput)
    ensures
        o@ == error_output(prefix@, message@),
{
    let mut s = prefix.to_owned();
    s.append(message.as_str());
    WsShellOutput::Error { message: s }
}

impl WsShellSession {
    /// A session in which the client has to ask for a shell first.
    pub fn start() -> (s: WsShellSession)
        ensures
            s.stage@ == WsStageView::AwaitStart,
    {
        WsShellSession { stage: WsStage::AwaitStart }
    }

    fn bridge_step(&mut self, event: WsEvent) -> (action: WsAction)
        requires
            old(self).stage@ == WsStageView::Bridging,
        ensures
            (final(self).stage@, action@) == bridge(event),
    {
        match event {
            WsEvent::Input(WsShellInput::Data { data }) => match base64_decode(data.as_str()) {
                Ok(bytes) => WsAction::SendToShell(bytes),
                Err(_) => WsAction::Ignore,
            },
            WsEvent::Input(WsShellInput::Resize { cols, rows }) => WsAction::ResizeShell {
                cols,
                rows,
            },
            WsEvent::Output(data) => WsAction::Say(
                WsShellOutput::Data { data: base64_encode(data.as_slice()) },
            ),
            WsEvent::Exited(exit_code) => {
                self.stage = WsStage::Over;
                WsAction::SayAndClose(WsShellOutput::Exit { exit_code })
            },
            WsEvent::AgentFailed(e) => {
                self.stage = WsStage::Over;
                WsAction::SayAndClose(with_prefix("agent error: ", e.message()))
            },
            WsEvent::Gone => {
                self.stage = WsStage::Over;
                WsAction::Close
            },
            WsEvent::NotSent => {
                self.stage = WsStage::Over;
                WsAction::Close
            },
            WsEvent::Tick => WsAction::Ping,
            _ => WsAction::Ignore,
        }
    }

    /// Takes an event, and says what to do.
    pub fn step(&mut self, event: WsEvent) -> (action: WsAction)
        ensures
            (final(self).stage@, action@) == session_step(old(self).stage@, event),
    {
        let mut stage = WsStage::Over;
        std::mem::swap(&mut stage, &mut self.stage);
        match stage {
            WsStage::AwaitStart => match event {
                WsEvent::Input(WsShellInput::Start { command, cols, rows }) => {
                    self.stage = WsStage::Connecting { command, cols, rows };
                    WsAction::Connect
                },
                WsEvent::Input(_) => WsAction::SayAndEnd(
                    WsShellOutput::Error { message: "expected 'start' message".to_owned() },
                ),
                WsEvent::Unreadable(m) => WsAction::SayAndEnd(with_prefix("invalid message: ", m)),
                _ => WsAction::End,
            },
            WsStage::Connecting { command, cols, rows } => match event {
                WsEvent::Connected => {
                    self.stage = WsStage::Starting;
                    WsAction::Start { command, cols, rows }
                },
                WsEvent::NotConnected(e) => WsAction::SayAndEnd(
                    WsShellOutput::Error { message: e.message() },
                ),
                _ => {
                    self.stage = WsStage::Connecting { command, cols, rows };
                    WsAction::Ignore
                },
            },
            WsStage::Starting => match event {
                WsEvent::Started => {
                    self.stage = WsStage::Bridging;
                    WsAction::Announce(WsShellOutput::Started)
                },
                WsEvent::NotStarted(e) => WsAction::SayAndEnd(
                    with_prefix("shell start failed: ", e.message()),
                ),
                _ => {
                    self.stage = WsStage::Starting;
                    WsAction::Ignore
                },
            },
            WsStage::Bridging => {
                self.stage = WsStage::Bridging;
                self.bridge_step(event)
            },
            WsStage::Over => WsAction::Ignore,
        }
    }
}

/// What the client sends, the shell gets: input that was encoded reaches the shell as it was, and
/// output reaches the client in the encoding that it is decoded from.
pub proof fn session_passes_bytes_on(data: Seq<u8>, input: WsEvent, output: WsEvent)
    requires
        input matches WsEvent::Input(WsShellInput::Data { data: d }) && d@ == base64::encoded(data),
        output matches WsEvent::Output(o) && o@ == data,
    ensures
        session_step(WsStageView::Bridging, input) == (
            WsStageView::Bridging,
            WsActionView::SendToShell(data),
        ),
        session_step(WsStageView::Bridging, output).1 matches WsActionView::Say(
            WsShellOutputView::Data(sent),
        ) && base64::decoded_text(sent) == Ok::<Seq<u8>, Seq<char>>(data),
{
    base64::decode_inverts_encode(data);
}

/// A session that is over stays so, and does nothing more.
pub proof fn ended_session_does_nothing(event: WsEvent)
    ensures
        session_step(WsStageView::Over, event) == (WsStageView::Over, WsActionView::Ignore),
{
}

/// The shell is started only after the client has asked for it and the agent was reached, and
/// with the command and size that the client asked for.
pub proof fn shell_starts_as_asked(stage: WsStageView, event: WsEvent, command: Option<Seq<char>>, cols: u16, rows: u16)
    requires
        session_step(stage, event).1 == (WsActionView::Start { command, cols, rows }),
    ensures
        stage == (WsStageView::Connecting { command, cols, rows }),
        event is Connected,
{
}

/// The shell gets the size that the client asks for, and the client the exit code that the shell
/// ends with, which ends the session.
pub proof fn size_and_exit_code_are_passed_on(cols: u16, rows: u16, code: i32)
    ensures
        session_step(
            WsStageView::Bridging,
            WsEvent::Input(WsShellInput::Resize { cols, rows }),
        ) == (WsStageView::Bridging, WsActionView::ResizeShell { cols, rows }),
        session_step(WsStageView::Bridging, WsEvent::Exited(code)) == (
            WsStageView::Over,
            WsActionView::SayAndClose(WsShellOutputView::Exit(code)),
        ),
        session_step(WsStageView::Bridging, WsEvent::Gone) == (
            WsStageView::Over,
            WsActionView::Close,
        ),
{
}

/// From the client's request to the started shell: the agent is reached, the shell is started as
/// the client asked for it, the client is told, and then input and output are passed on.
pub proof fn session_runs_its_course(command: Option<String>, cols: u16, rows: u16)
    ensures
        ({
            let asked = WsEvent::Input(WsShellInput::Start { command, cols, rows });
            let (connecting, first) = session_step(WsStageView::AwaitStart, asked);
            let (starting, second) = session_step(connecting, WsEvent::Connected);
            let (bridging, third) = session_step(starting, WsEvent::Started);
            &&& first == WsActionView::Connect
            &&& second == (WsActionView::Start { command: text::opt_text(command), cols, rows })
            &&& third == WsActionView::Announce(WsShellOutputView::Started)
            &&& bridging == WsStageView::Bridging
        }),
{
}

} // verus!
