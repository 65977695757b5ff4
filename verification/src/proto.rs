//! The protocol between the host and the agent in the guest: the messages, and the frames in
//! which they travel.
//!
//! A frame is a four-byte big-endian length followed by that many bytes of JSON.
use crate::text;
use crate::text::{decimal_of, parse_uint};
use vstd::prelude::*;
use vstd::string::*;

verus! {

/// Largest payload of one frame (16 MiB), so that a peer cannot make the reader allocate
/// without bound.
pub const MAX_MESSAGE_SIZE: usize = 16 * 1024 * 1024;

/// Vsock port on which the agent in the guest listens.
pub const AGENT_VSOCK_PORT: u32 = 52;

/// Seconds within which a payload has to arrive once its length has been read, unless the
/// operator configured another bound.
pub const DEFAULT_READ_TIMEOUT_SECS: u64 = 30;

/// Upper bound on a single read of payload bytes. Growing the buffer one chunk at a time keeps
/// memory proportional to the bytes received, not to the length that the peer declared.
pub const PAYLOAD_READ_CHUNK: usize = 64 * 1024;

/// Messages from the host to the agent.
#[derive(Debug, Clone)]
pub enum AgentRequest {
    /// Run a command in the guest.
    Exec(ExecRequest),
    /// Read a file of the guest.
    ReadFile(ReadFileRequest),
    /// Write a file of the guest.
    WriteFile(WriteFileRequest),
    /// Ask whether the agent is alive.
    Ping,
    /// Start an interactive shell session.
    ShellStart(ShellStartRequest),
    /// Input for the shell.
    ShellData(ShellDataRequest),
    /// New size of the shell's terminal.
    ShellResize(ShellResizeRequest),
}

/// Messages from the agent to the host.
#[derive(Debug, Clone)]
pub enum AgentResponse {
    /// Result of a command.
    Exec(ExecResponse),
    /// Contents of a file.
    ReadFile(ReadFileResponse),
    /// A file was written.
    WriteFile(WriteFileResponse),
    /// Answer to a ping.
    Pong,
    /// The request failed.
    Error(ErrorResponse),
    /// The shell session has started.
    ShellStarted,
    /// Output of the shell.
    ShellData(ShellDataResponse),
    /// The shell has exited.
    ShellExit(ShellExitResponse),
}

#[derive(Debug, Clone)]
pub struct ExecRequest {
    pub command: String,
    pub args: Vec<String>,
    pub working_dir: Option<String>,
    pub env: Vec<(String, String)>,
}

#[derive(Debug, Clone)]
pub struct ExecResponse {
    pub exit_code: i32,
    pub stdout: String,
    pub stderr: String,
}

#[derive(Debug, Clone)]
pub struct ReadFileRequest {
    pub path: String,
}

#[derive(Debug, Clone)]
pub struct ReadFileResponse {
    /// File contents in base64.
    pub data: String,
    pub size: u64,
}

#[derive(Debug, Clone)]
pub struct WriteFileRequest {
    pub path: String,
    /// File contents in base64.
    pub data: String,
    pub mode: Option<u32>,
}

#[derive(Debug, Clone)]
pub struct WriteFileResponse {
    pub bytes_written: u64,
}

#[derive(Debug, Clone)]
pub struct ErrorResponse {
    pub message: String,
}

#[derive(Debug, Clone)]
pub struct ShellStartRequest {
    /// Shell to run; the agent's default shell if there is none.
    pub command: Option<String>,
    pub env: Vec<(String, String)>,
    pub cols: u16,
    pub rows: u16,
}

#[derive(Debug, Clone)]
pub struct ShellDataRequest {
    /// Input in base64.
    pub data: String,
}

#[derive(Debug, Clone)]
pub struct ShellResizeRequest {
    pub cols: u16,
    pub rows: u16,
}

#[derive(Debug, Clone)]
pub struct ShellDataResponse {
    /// Output in base64.
    pub data: String,
}

#[derive(Debug, Clone)]
pub struct ShellExitResponse {
    pub exit_code: i32,
}

/// A message from the agent, with its texts as characters.
pub enum AgentResponseView {
    Exec { exit_code: i32, stdout: Seq<char>, stderr: Seq<char> },
    ReadFile { data: Seq<char>, size: u64 },
    WriteFile { bytes_written: u64 },
    Pong,
    Error(Seq<char>),
    ShellStarted,
    ShellData(Seq<char>),
    ShellExit(i32),
}

impl View for AgentResponse {
    type V = AgentResponseView;

    open spec fn view(&self) -> AgentResponseView {
        match self {
            AgentResponse::Exec(r) => AgentResponseView::Exec {
                exit_code: r.exit_code,
                stdout: r.stdout@,
                stderr: r.stderr@,
            },
            AgentResponse::ReadFile(r) => AgentResponseView::ReadFile {
                data: r.data@,
                size: r.size,
            },
            AgentResponse::WriteFile(r) => AgentResponseView::WriteFile {
                bytes_written: r.bytes_written,
            },
            AgentResponse::Pong => AgentResponseView::Pong,
            AgentResponse::Error(r) => AgentResponseView::Error(r.message@),
            AgentResponse::ShellStarted => AgentResponseView::ShellStarted,
            AgentResponse::ShellData(r) => AgentResponseView::ShellData(r.data@),
            AgentResponse::ShellExit(r) => AgentResponseView::ShellExit(r.exit_code),
        }
    }
}

/// A message to the agent, with its texts as characters.
pub enum AgentRequestView {
    Exec {
        command: Seq<char>,
        args: Seq<Seq<char>>,
        working_dir: Option<Seq<char>>,
        env: Seq<(Seq<char>, Seq<char>)>,
    },
    ReadFile(Seq<char>),
    WriteFile { path: Seq<char>, data: Seq<char>, mode: Option<u32> },
    Ping,
    ShellStart {
        command: Option<Seq<char>>,
        env: Seq<(Seq<char>, Seq<char>)>,
        cols: u16,
        rows: u16,
    },
    ShellData(Seq<char>),
    ShellResize { cols: u16, rows: u16 },
}

impl View for AgentRequest {
    type V = AgentRequestView;

    open spec fn view(&self) -> AgentRequestView {
        match self {
            AgentRequest::Exec(r) => AgentRequestView::Exec {
                command: r.command@,
                args: text::texts(r.args@),
                working_dir: text::opt_text(r.working_dir),
                env: text::pair_texts(r.env@),
            },
            AgentRequest::ReadFile(r) => AgentRequestView::ReadFile(r.path@),
            AgentRequest::WriteFile(r) => AgentRequestView::WriteFile {
                path: r.path@,
                data: r.data@,
                mode: r.mode,
            },
            AgentRequest::Ping => AgentRequestView::Ping,
            AgentRequest::ShellStart(r) => AgentRequestView::ShellStart {
                command: text::opt_text(r.command),
                env: text::pair_texts(r.env@),
                cols: r.cols,
                rows: r.rows,
            },
            AgentRequest::ShellData(r) => AgentRequestView::ShellData(r.data@),
            AgentRequest::ShellResize(r) => AgentRequestView::ShellResize {
                cols: r.cols,
                rows: r.rows,
            },
        }
    }
}

/// What can go wrong while messages are exchanged.
#[derive(Debug)]
pub enum ProtocolError {
    MessageTooLarge { size: usize },
    ReadTimeout { declared: usize, timeout_secs: u64 },
    /// The payload is no valid message; in the words of the JSON parser.
    Json(String),
    /// The stream failed; in the words of the operating system.
    Io(String),
}

/// A protocol error, with its texts as characters.
pub enum ProtocolErrorView {
    MessageTooLarge { size: usize },
    ReadTimeout { declared: usize, timeout_secs: u64 },
    Json(Seq<char>),
    Io(Seq<char>),
}

impl View for ProtocolError {
    type V = ProtocolErrorView;

    open spec fn view(&self) -> ProtocolErrorView {
        match self {
            ProtocolError::MessageTooLarge { size } => ProtocolErrorView::MessageTooLarge {
                size: *size,
            },
            ProtocolError::ReadTimeout { declared, timeout_secs } => {
                ProtocolErrorView::ReadTimeout { declared: *declared, timeout_secs: *timeout_secs }
            },
            ProtocolError::Json(m) => ProtocolErrorView::Json(m@),
            ProtocolError::Io(m) => ProtocolErrorView::Io(m@),
        }
    }
}

impl ProtocolErrorView {
    /// The error in words.
    pub open spec fn text(self) -> Seq<char> {
        match self {
            ProtocolErrorView::MessageTooLarge { size } => "message too large: "@ + text::decimal(
                size as nat,
            ) + " bytes (max "@ + text::decimal(MAX_MESSAGE_SIZE as nat) + ")"@,
            ProtocolErrorView::ReadTimeout { declared, timeout_secs } => {
                "payload read timed out after "@ + text::decimal(timeout_secs as nat) + "s (declared "@
                    + text::decimal(declared as nat) + " bytes)"@
            },
            ProtocolErrorView::Json(m) => "json error: "@ + m,
            ProtocolErrorView::Io(m) => "io error: "@ + m,
        }
    }
}

impl ProtocolError {
    /// The error in words.
    pub fn message(&self) -> (s: String)
        ensures
            s@ == self@.text(),
    {
        match self {
            ProtocolError::MessageTooLarge { size } => {
                let mut s = "message too large: ".to_owned();
                s.append(decimal_of(*size as u64).as_str());
                s.append(" bytes (max ");
                s.append(decimal_of(MAX_MESSAGE_SIZE as u64).as_str());
                s.append(")");
                s
            },
            ProtocolError::ReadTimeout { declared, timeout_secs } => {
                let mut s = "payload read timed out after ".to_owned();
                s.append(decimal_of(*timeout_secs).as_str());
                s.append("s (declared ");
                s.append(decimal_of(*declared as u64).as_str());
                s.append(" bytes)");
                s
            },
            ProtocolError::Json(m) => {
                let mut s = "json error: ".to_owned();
                s.append(m.as_str());
                s
            },
            ProtocolError::Io(m) => {
                let mut s = "io error: ".to_owned();
                s.append(m.as_str());
                s
            },
        }
    }
}

/// `n` as four bytes, the most significant first.
pub open spec fn length_prefix(n: nat) -> Seq<u8> {
    seq![
        (n / 16777216) as u8,
        (n / 65536 % 256) as u8,
        (n / 256 % 256) as u8,
        (n % 256) as u8,
    ]
}

/// The number that the first four bytes stand for, the most significant first.
pub open spec fn prefix_value(b: Seq<u8>) -> nat {
    (b[0] * 16777216 + b[1] * 65536 + b[2] * 256 + b[3]) as nat
}

/// The frame that carries `payload`.
pub open spec fn frame(payload: Seq<u8>) -> Seq<u8> {
    length_prefix(payload.len()) + payload
}

/// The first frame in `buf`: its payload and the number of bytes that it takes; `Ok(None)` while
/// the frame is incomplete. A declared length over the maximum is an error.
pub open spec fn first_frame(buf: Seq<u8>) -> Result<Option<(Seq<u8>, nat)>, nat> {
    if buf.len() < 4 {
        Ok(None)
    } else {
        let len = prefix_value(buf);
        if len > MAX_MESSAGE_SIZE {
            Err(len)
        } else if buf.len() < 4 + len {
            Ok(None)
        } else {
            Ok(Some((buf.subrange(4, 4 + len as int), 4 + len)))
        }
    }
}

fn read_prefix(b: &[u8]) -> (n: u32)
    requires
        b@.len() >= 4,
    ensures
        n == prefix_value(b@),
{
    b[0] as u32 * 16777216 + b[1] as u32 * 65536 + b[2] as u32 * 256 + b[3] as u32
}

/// Puts a serialised message in a frame. A message over the maximum size is refused.
pub fn encode_message(json: &[u8]) -> (r: Result<Vec<u8>, ProtocolError>)
    ensures
        match r {
            Ok(buf) => json@.len() <= MAX_MESSAGE_SIZE && buf@ == frame(json@),
            Err(e) => json@.len() > MAX_MESSAGE_SIZE && e == (ProtocolError::MessageTooLarge {
                size: json.len(),
            }),
        },
{
    if json.len() > MAX_MESSAGE_SIZE {
        return Err(ProtocolError::MessageTooLarge { size: json.len() });
    }
    let n: usize = json.len();
    let mut buf: Vec<u8> = Vec::with_capacity(4 + n);
    buf.push((n / 16777216) as u8);
    buf.push((n / 65536 % 256) as u8);
    buf.push((n / 256 % 256) as u8);
    buf.push((n % 256) as u8);
    buf.extend_from_slice(json);
    assert(buf@ =~= frame(json@));
    Ok(buf)
}

/// Takes the first frame out of a buffer: the serialised message and the number of bytes
/// consumed, or `None` if the buffer does not hold a complete frame.
pub fn decode_message(buf: &[u8]) -> (r: Result<Option<(Vec<u8>, usize)>, ProtocolError>)
    ensures
        match r {
            Ok(Some((payload, used))) => first_frame(buf@) == Ok::<Option<(Seq<u8>, nat)>, nat>(
                Some((payload@, used as nat)),
            ),
            Ok(None) => first_frame(buf@) == Ok::<Option<(Seq<u8>, nat)>, nat>(None),
            Err(e) => e matches ProtocolError::MessageTooLarge { size } && first_frame(buf@) == Err::<
                Option<(Seq<u8>, nat)>,
                nat,
            >(size as nat),
        },
{
    if buf.len() < 4 {
        return Ok(None);
    }
    let len: usize = read_prefix(buf) as usize;
    if len > MAX_MESSAGE_SIZE {
        return Err(ProtocolError::MessageTooLarge { size: len });
    }
    if buf.len() < 4 + len {
        return Ok(None);
    }
    let mut payload: Vec<u8> = Vec::with_capacity(len);
    payload.extend_from_slice(vstd::slice::slice_subrange(buf, 4, 4 + len));
    assert(payload@ =~= buf@.subrange(4, 4 + len as int));
    Ok(Some((payload, 4 + len)))
}

/// The length prefix holds every length that a frame may have.
proof fn lemma_prefix_round_trip(n: nat, rest: Seq<u8>)
    requires
        n <= MAX_MESSAGE_SIZE,
    ensures
        prefix_value(length_prefix(n) + rest) == n,
        length_prefix(n).len() == 4,
{
}

/// Decoding gives back the payload of a frame, whatever follows it in the buffer, and consumes
/// exactly the frame.
pub proof fn decode_inverts_encode(payload: Seq<u8>, rest: Seq<u8>)
    requires
        payload.len() <= MAX_MESSAGE_SIZE,
    ensures
        first_frame(frame(payload) + rest) == Ok::<Option<(Seq<u8>, nat)>, nat>(
            Some((payload, frame(payload).len())),
        ),
{
    let buf = frame(payload) + rest;
    lemma_prefix_round_trip(payload.len(), payload + rest);
    assert(buf =~= length_prefix(payload.len()) + (payload + rest));
    assert(buf.subrange(4, 4 + payload.len() as int) =~= payload);
}

/// No strict prefix of a frame decodes to a message, and none is an error.
pub proof fn partial_frame_is_incomplete(payload: Seq<u8>, n: int)
    requires
        payload.len() <= MAX_MESSAGE_SIZE,
        0 <= n < frame(payload).len(),
    ensures
        first_frame(frame(payload).take(n)) == Ok::<Option<(Seq<u8>, nat)>, nat>(None),
{
    if n >= 4 {
        lemma_prefix_round_trip(payload.len(), payload.take(n - 4));
        assert(frame(payload).take(n) =~= length_prefix(payload.len()) + payload.take(n - 4));
    }
}

/// Seconds within which a payload has to arrive, given the configured value, if any. A value
/// that is no number is ignored.
pub open spec fn read_timeout_secs(configured: Option<Seq<char>>) -> u64 {
    match configured {
        Some(s) => match text::uint_value(s, 10, u64::MAX as nat) {
            Ok(n) => n as u64,
            Err(_) => DEFAULT_READ_TIMEOUT_SECS,
        },
        None => DEFAULT_READ_TIMEOUT_SECS,
    }
}

/// Seconds within which a payload has to arrive, given the configured value, if any.
pub fn default_read_timeout(configured: Option<&str>) -> (secs: u64)
    ensures
        secs == read_timeout_secs(
            match configured {
                Some(s) => Some(s@),
                None => None,
            },
        ),
{
    match configured {
        Some(s) => match parse_uint(s, 10, u64::MAX) {
            Ok(n) => n,
            Err(_) => DEFAULT_READ_TIMEOUT_SECS,
        },
        None => DEFAULT_READ_TIMEOUT_SECS,
    }
}

/// What became of a read that the reader asked for.
pub enum ReadEvent {
    /// All bytes that were asked for.
    Bytes(Vec<u8>),
    /// The stream failed when so many of the bytes were there; `eof` says that it ended.
    Failed { eof: bool, received: usize, message: String },
    /// The payload did not arrive in time.
    TimedOut,
}

/// A read event, over sequences.
pub enum ReadEventView {
    Bytes(Seq<u8>),
    Failed { eof: bool, received: usize, message: Seq<char> },
    TimedOut,
}

impl View for ReadEvent {
    type V = ReadEventView;

    open spec fn view(&self) -> ReadEventView {
        match self {
            ReadEvent::Bytes(b) => ReadEventView::Bytes(b@),
            ReadEvent::Failed { eof, received, message } => ReadEventView::Failed {
                eof: *eof,
                received: *received,
                message: message@,
            },
            ReadEvent::TimedOut => ReadEventView::TimedOut,
        }
    }
}

/// What to do next to receive a message.
pub enum ReadStep {
    /// Read exactly `len` bytes. Only payload reads are bounded by the read timeout, all
    /// reads of one payload together; waiting for a message to begin is not.
    Read { len: usize, bounded: bool },
    /// The peer has closed the stream; there is no message.
    Closed,
    /// The serialised message.
    Message(Vec<u8>),
    /// Receiving failed.
    Fail(ProtocolError),
}

/// A read step, over sequences.
pub enum ReadStepView {
    Read { len: nat, bounded: bool },
    Closed,
    Message(Seq<u8>),
    Fail(ProtocolErrorView),
}

impl View for ReadStep {
    type V = ReadStepView;

    open spec fn view(&self) -> ReadStepView {
        match self {
            ReadStep::Read { len, bounded } => ReadStepView::Read {
                len: *len as nat,
                bounded: *bounded,
            },
            ReadStep::Closed => ReadStepView::Closed,
            ReadStep::Message(m) => ReadStepView::Message(m@),
            ReadStep::Fail(e) => ReadStepView::Fail(e@),
        }
    }
}

/// Receives one message from a stream, read by read.
pub struct FrameReader {
    /// The length that the peer declared, once it is known.
    pub declared: Option<usize>,
    /// The payload bytes received so far.
    pub payload: Vec<u8>,
    /// The read timeout, for the error message.
    pub timeout_secs: u64,
}

/// A reader's state, over sequences.
pub struct FrameReaderView {
    pub declared: Option<usize>,
    pub payload: Seq<u8>,
    pub timeout_secs: u64,
}

impl View for FrameReader {
    type V = FrameReaderView;

    open spec fn view(&self) -> FrameReaderView {
        FrameReaderView {
            declared: self.declared,
            payload: self.payload@,
            timeout_secs: self.timeout_secs,
        }
    }
}

/// The size of the next read of a payload of which `remaining` bytes are outstanding.
pub open spec fn chunk_len(remaining: int) -> nat {
    if remaining < PAYLOAD_READ_CHUNK {
        remaining as nat
    } else {
        PAYLOAD_READ_CHUNK as nat
    }
}

impl FrameReaderView {
    /// A reader that has received nothing.
    pub open spec fn fresh(timeout_secs: u64) -> FrameReaderView {
        FrameReaderView { declared: None, payload: seq![], timeout_secs }
    }

    /// The reader is waiting for a length, or for payload bytes that are still outstanding.
    pub open spec fn wf(self) -> bool {
        match self.declared {
            None => self.payload.len() == 0,
            Some(n) => self.payload.len() < n <= MAX_MESSAGE_SIZE,
        }
    }

    /// How many bytes the reader is waiting for.
    pub open spec fn wanted(self) -> nat {
        match self.declared {
            None => 4,
            Some(n) => chunk_len(n - self.payload.len()),
        }
    }

    /// What the reader does next, given the payload that is outstanding.
    pub open spec fn awaiting(self) -> ReadStepView {
        match self.declared {
            None => ReadStepView::Read { len: 4, bounded: false },
            Some(n) => if self.payload.len() >= n {
                ReadStepView::Message(self.payload)
            } else {
                ReadStepView::Read { len: self.wanted(), bounded: true }
            },
        }
    }

    /// The state and the step after an event.
    pub open spec fn after(self, event: ReadEventView) -> (FrameReaderView, ReadStepView) {
        match event {
            ReadEventView::Bytes(b) => match self.declared {
                None => {
                    let n = prefix_value(b);
                    if n > MAX_MESSAGE_SIZE {
                        (
                            self,
                            ReadStepView::Fail(
                                ProtocolErrorView::MessageTooLarge { size: n as usize },
                            ),
                        )
                    } else {
                        let next = FrameReaderView { declared: Some(n as usize), ..self };
                        (next, next.awaiting())
                    }
                },
                Some(n) => {
                    let next = FrameReaderView { payload: self.payload + b, ..self };
                    (next, next.awaiting())
                },
            },
            ReadEventView::Failed { eof, received, message } => if eof && self.declared is None
                && received == 0 {
                (self, ReadStepView::Closed)
            } else {
                (self, ReadStepView::Fail(ProtocolErrorView::Io(message)))
            },
            ReadEventView::TimedOut => (
                self,
                ReadStepView::Fail(
                    ProtocolErrorView::ReadTimeout {
                        declared: self.declared->0,
                        timeout_secs: self.timeout_secs,
                    },
                ),
            ),
        }
    }
}

impl FrameReader {
    /// A reader for the next message, and its first step.
    pub fn start(timeout_secs: u64) -> (r: (FrameReader, ReadStep))
        ensures
            r.0@ == FrameReaderView::fresh(timeout_secs),
            r.0@.wf(),
            r.1@ == (ReadStepView::Read { len: 4, bounded: false }),
    {
        let reader = FrameReader { declared: None, payload: Vec::new(), timeout_secs };
        assert(reader@.payload =~= seq![]);
        (reader, ReadStep::Read { len: 4, bounded: false })
    }

    /// Takes what became of the read and says what comes next. A read either brings exactly the
    /// bytes that were asked for or fails; only a payload read can time out.
    pub fn step(&mut self, event: ReadEvent) -> (step: ReadStep)
        requires
            old(self)@.wf(),
            event@ matches ReadEventView::Bytes(b) ==> b.len() == old(self)@.wanted(),
            event@ matches ReadEventView::Failed { received, .. } ==> received < old(self)@.wanted(),
            event is TimedOut ==> old(self).declared is Some,
        ensures
            ({
                let (state, next) = old(self)@.after(event@);
                &&& step@ == next
                &&& step is Read ==> final(self)@ == state && final(self)@.wf()
            }),
    {
        match event {
            ReadEvent::Bytes(b) => {
                let mut b = b;
                match self.declared {
                    None => {
                        let n: usize = read_prefix(b.as_slice()) as usize;
                        if n > MAX_MESSAGE_SIZE {
                            return ReadStep::Fail(ProtocolError::MessageTooLarge { size: n });
                        }
                        self.declared = Some(n);
                    },
                    Some(_) => {
                        self.payload.append(&mut b);
                    },
                }
                let n: usize = match self.declared {
                    Some(n) => n,
                    None => 0,
                };
                if self.payload.len() < n {
                    let remaining: usize = n - self.payload.len();
                    let len: usize = if remaining < PAYLOAD_READ_CHUNK {
                        remaining
                    } else {
                        PAYLOAD_READ_CHUNK
                    };
                    ReadStep::Read { len, bounded: true }
                } else {
                    let mut message: Vec<u8> = Vec::new();
                    message.append(&mut self.payload);
                    ReadStep::Message(message)
                }
            },
            ReadEvent::Failed { eof, received, message } => {
                if eof && self.declared.is_none() && received == 0 {
                    ReadStep::Closed
                } else {
                    ReadStep::Fail(ProtocolError::Io(message))
                }
            },
            ReadEvent::TimedOut => {
                let declared: usize = match self.declared {
                    Some(n) => n,
                    None => 0,
                };
                ReadStep::Fail(
                    ProtocolError::ReadTimeout { declared, timeout_secs: self.timeout_secs },
                )
            },
        }
    }
}

/// What a reader that is at `step` ends with on a stream that delivers `stream` and then ends,
/// and what is left of the stream.
pub open spec fn receive(state: FrameReaderView, step: ReadStepView, stream: Seq<u8>) -> (
    ReadStepView,
    Seq<u8>,
)
    decreases stream.len(),
{
    match step {
        ReadStepView::Read { len, bounded } => if len == 0 {
            (step, stream)
        } else if stream.len() < len {
            let end = ReadEventView::Failed {
                eof: true,
                received: stream.len() as usize,
                message: "early eof"@,
            };
            (state.after(end).1, seq![])
        } else {
            let (next, then_step) = state.after(ReadEventView::Bytes(stream.take(len as int)));
            receive(next, then_step, stream.skip(len as int))
        },
        _ => (step, stream),
    }
}

proof fn lemma_receive_payload(state: FrameReaderView, payload: Seq<u8>, rest: Seq<u8>)
    requires
        state.declared == Some(payload.len() as usize),
        payload.len() <= MAX_MESSAGE_SIZE,
        state.payload.len() <= payload.len(),
        state.payload == payload.take(state.payload.len() as int),
    ensures
        receive(state, state.awaiting(), payload.skip(state.payload.len() as int) + rest) == (
            ReadStepView::Message(payload),
            rest,
        ),
    decreases payload.len() - state.payload.len(),
{
    let k = state.payload.len() as int;
    let stream = payload.skip(k) + rest;
    if k == payload.len() {
        assert(state.payload =~= payload);
        assert(stream =~= rest);
    } else {
        let len = state.wanted() as int;
        let next = FrameReaderView { payload: state.payload + stream.take(len), ..state };
        assert(next.payload =~= payload.take(k + len));
        assert(stream.skip(len) =~= payload.skip(k + len) + rest);
        lemma_receive_payload(next, payload, rest);
    }
}

/// A reader receives every frame whole, in however many chunks, and leaves what follows on the
/// stream.
pub proof fn reader_receives_frame(timeout_secs: u64, payload: Seq<u8>, rest: Seq<u8>)
    requires
        payload.len() <= MAX_MESSAGE_SIZE,
    ensures
        receive(
            FrameReaderView::fresh(timeout_secs),
            FrameReaderView::fresh(timeout_secs).awaiting(),
            frame(payload) + rest,
        ) == (ReadStepView::Message(payload), rest),
{
    let stream = frame(payload) + rest;
    let state = FrameReaderView::fresh(timeout_secs);
    lemma_prefix_round_trip(payload.len(), seq![]);
    assert(stream.take(4) =~= length_prefix(payload.len()) + Seq::<u8>::empty());
    let next = FrameReaderView { declared: Some(payload.len() as usize), ..state };
    assert(next.payload =~= payload.take(0));
    assert(stream.skip(4) =~= payload.skip(0) + rest);
    lemma_receive_payload(next, payload, rest);
}

/// A stream that ends where a message could have begun is a clean end, not an error.
pub proof fn reader_closes_on_end_of_stream(timeout_secs: u64)
    ensures
        receive(
            FrameReaderView::fresh(timeout_secs),
            FrameReaderView::fresh(timeout_secs).awaiting(),
            seq![],
        ) == (ReadStepView::Closed, Seq::<u8>::empty()),
{
}

proof fn lemma_receive_cut(state: FrameReaderView, stream: Seq<u8>)
    requires
        state.wf(),
        state.declared matches Some(n) && stream.len() < n - state.payload.len(),
    ensures
        receive(state, state.awaiting(), stream) == (
            ReadStepView::Fail(ProtocolErrorView::Io("early eof"@)),
            Seq::<u8>::empty(),
        ),
    decreases stream.len(),
{
    let len = state.wanted() as int;
    if stream.len() >= len {
        let next = FrameReaderView { payload: state.payload + stream.take(len), ..state };
        lemma_receive_cut(next, stream.skip(len));
    }
}

/// A stream that ends inside a message, be it in the length or in the payload, is an error.
pub proof fn reader_fails_on_cut_frame(timeout_secs: u64, payload: Seq<u8>, n: int)
    requires
        payload.len() <= MAX_MESSAGE_SIZE,
        0 < n < frame(payload).len(),
    ensures
        receive(
            FrameReaderView::fresh(timeout_secs),
            FrameReaderView::fresh(timeout_secs).awaiting(),
            frame(payload).take(n),
        ) == (
            ReadStepView::Fail(ProtocolErrorView::Io("early eof"@)),
            Seq::<u8>::empty(),
        ),
{
    let stream = frame(payload).take(n);
    let state = FrameReaderView::fresh(timeout_secs);
    if n >= 4 {
        lemma_prefix_round_trip(payload.len(), seq![]);
        assert(stream.take(4) =~= length_prefix(payload.len()) + Seq::<u8>::empty());
        let next = FrameReaderView { declared: Some(payload.len() as usize), ..state };
        lemma_receive_cut(next, stream.skip(4));
    }
}

/// A stream that ends inside a length, whatever length that was to be, is an error.
pub proof fn reader_fails_inside_length(timeout_secs: u64, stream: Seq<u8>)
    requires
        0 < stream.len() < 4,
    ensures
        receive(
            FrameReaderView::fresh(timeout_secs),
            FrameReaderView::fresh(timeout_secs).awaiting(),
            stream,
        ) == (
            ReadStepView::Fail(ProtocolErrorView::Io("early eof"@)),
            Seq::<u8>::empty(),
        ),
{
}

/// A declared length over the maximum is refused before any payload is read.
pub proof fn reader_refuses_oversized_length(timeout_secs: u64, stream: Seq<u8>)
    requires
        stream.len() >= 4,
        prefix_value(stream) > MAX_MESSAGE_SIZE,
    ensures
        receive(
            FrameReaderView::fresh(timeout_secs),
            FrameReaderView::fresh(timeout_secs).awaiting(),
            stream,
        ) == (
            ReadStepView::Fail(
                ProtocolErrorView::MessageTooLarge { size: prefix_value(stream) as usize },
            ),
            stream.skip(4),
        ),
{
    let state = FrameReaderView::fresh(timeout_secs);
    assert(prefix_value(stream.take(4)) == prefix_value(stream));
    let (next, step) = state.after(ReadEventView::Bytes(stream.take(4)));
    assert(receive(next, step, stream.skip(4)) == (step, stream.skip(4)));
}

/// How texts of four bytes are ordered.
proof fn lemma_four_bytes_le(a: Seq<u8>, b: Seq<u8>)
    requires
        a.len() == 4,
        b.len() == 4,
    ensures
        text::bytes_le(a, b) <==> a[0] < b[0] || (a[0] == b[0] && (a[1] < b[1] || (a[1] == b[1] && (
        a[2] < b[2] || (a[2] == b[2] && a[3] <= b[3]))))),
{
    let (a1, b1) = (a.skip(1), b.skip(1));
    let (a2, b2) = (a1.skip(1), b1.skip(1));
    let (a3, b3) = (a2.skip(1), b2.skip(1));
    assert(text::bytes_le(a3.skip(1), b3.skip(1)));
    assert(text::bytes_le(a3, b3) <==> a[3] <= b[3]);
    assert(text::bytes_le(a2, b2) <==> a[2] < b[2] || (a[2] == b[2] && text::bytes_le(a3, b3)));
    assert(text::bytes_le(a1, b1) <==> a[1] < b[1] || (a[1] == b[1] && text::bytes_le(a2, b2)));
    assert(text::bytes_le(a, b) <==> a[0] < b[0] || (a[0] == b[0] && text::bytes_le(a1, b1)));
}

/// A number of four digits to the base 256, by its digits.
proof fn lemma_digits_of(n: nat)
    requires
        n <= MAX_MESSAGE_SIZE,
    ensures
        length_prefix(n).len() == 4,
        n == length_prefix(n)[0] * 16777216 + length_prefix(n)[1] * 65536 + length_prefix(n)[2] * 256
            + length_prefix(n)[3],
{
}

/// The length stands at the front with its most significant byte first: compared byte for byte, the
/// prefixes of two lengths stand in the order of the lengths.
pub proof fn prefixes_stand_in_the_order_of_lengths(m: nat, n: nat)
    requires
        m <= MAX_MESSAGE_SIZE,
        n <= MAX_MESSAGE_SIZE,
    ensures
        text::bytes_le(length_prefix(m), length_prefix(n)) <==> m <= n,
        frame(Seq::new(m, |i: int| 0u8)).len() == m + 4,
{
    lemma_digits_of(m);
    lemma_digits_of(n);
    lemma_four_bytes_le(length_prefix(m), length_prefix(n));
}

/// An error of the protocol tells what it is about: how long a message is and may be, how long was
/// waited and for how much, or what was said of it.
pub proof fn errors_tell_what_it_is(e: ProtocolErrorView)
    ensures
        match e {
            ProtocolErrorView::MessageTooLarge { size } => {
                &&& text::occurs_in(text::decimal(size as nat) + " bytes"@, e.text())
                &&& text::ends_with(
                    e.text(),
                    "(max "@ + text::decimal(MAX_MESSAGE_SIZE as nat) + ")"@,
                )
            },
            ProtocolErrorView::ReadTimeout { declared, timeout_secs } => {
                &&& text::occurs_in("after "@ + text::decimal(timeout_secs as nat) + "s"@, e.text())
                &&& text::occurs_in(text::decimal(declared as nat) + " bytes"@, e.text())
            },
            ProtocolErrorView::Json(m) => text::ends_with(e.text(), m),
            ProtocolErrorView::Io(m) => text::ends_with(e.text(), m),
        },
{
    let t = e.text();
    reveal_strlit(" bytes");
    match e {
        ProtocolErrorView::MessageTooLarge { size } => {
            reveal_strlit("message too large: ");
            reveal_strlit(" bytes (max ");
            reveal_strlit("(max ");
            reveal_strlit(")");
            text::lemma_occurs(text::decimal(size as nat) + " bytes"@, t, 19);
            let end = "(max "@ + text::decimal(MAX_MESSAGE_SIZE as nat) + ")"@;
            assert(t.skip(t.len() - end.len()) =~= end);
        },
        ProtocolErrorView::ReadTimeout { declared, timeout_secs } => {
            reveal_strlit("payload read timed out after ");
            reveal_strlit("after ");
            reveal_strlit("s");
            reveal_strlit("s (declared ");
            reveal_strlit(" bytes)");
            let secs = text::decimal(timeout_secs as nat);
            text::lemma_occurs("after "@ + secs + "s"@, t, 23);
            text::lemma_occurs(
                text::decimal(declared as nat) + " bytes"@,
                t,
                29 + secs.len() as int + 12,
            );
        },
        ProtocolErrorView::Json(m) => text::lemma_ends_with("json error: "@, m),
        ProtocolErrorView::Io(m) => text::lemma_ends_with("io error: "@, m),
    }
}

/// A time that is configured in decimal is the one that is waited; a setting that is missing or no
/// number leaves the usual time, which is not none.
pub proof fn configured_time_is_waited(secs: u64, s: Seq<char>)
    ensures
        read_timeout_secs(Some(text::decimal(secs as nat))) == secs,
        read_timeout_secs(None) > 0,
        text::uint_value(s, 10, u64::MAX as nat) is Err ==> read_timeout_secs(Some(s))
            == read_timeout_secs(None),
{
    text::decimal_is_read_back(secs as nat, u64::MAX as nat);
}

} // verus!
