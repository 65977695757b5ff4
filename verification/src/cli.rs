//! What the command line tool decides: what its arguments mean, which address it asks, and what it
//! tells the user.
use crate::base64;
use crate::base64::{base64_decode, base64_encode};
use crate::ident;
use crate::ident::{format_uuid, new_uuid};
use crate::json;
use crate::json::JsonView;
use crate::orchestrator::CoreErrorView;
use crate::shell::{WsShellInput, WsShellOutput};
use crate::text;
use crate::text::{chars_of, decimal_of, find_text, parse_uint, part, same_text, string_of};
use vstd::prelude::*;
use vstd::string::*;

verus! {

/// One side of a copy.
#[derive(Debug)]
pub enum CpPath {
    Local(String),
    Vm { name: String, path: String },
}

/// One side of a copy, over sequences.
pub enum CpPathView {
    Local(Seq<char>),
    Vm { name: Seq<char>, path: Seq<char> },
}

impl View for CpPath {
    type V = CpPathView;

    open spec fn view(&self) -> CpPathView {
        match self {
            CpPath::Local(p) => CpPathView::Local(p@),
            CpPath::Vm { name, path } => CpPathView::Vm { name: name@, path: path@ },
        }
    }
}

/// What an argument of a copy means: with a colon that has something on both sides, a path in a
/// VM; else a path of the host.
pub open spec fn cp_path(s: Seq<char>) -> CpPathView {
    match text::parted(s, ':') {
        Some((name, path)) => if name.len() > 0 && path.len() > 0 {
            CpPathView::Vm { name, path }
        } else {
            CpPathView::Local(s)
        },
        None => CpPathView::Local(s),
    }
}

/// What an argument of a copy means.
pub fn parse_cp_path(s: &str) -> (p: CpPath)
    ensures
        p@ == cp_path(s@),
{
    match part(s, ':') {
        Some((name, path)) => {
            if chars_of(name.as_str()).len() > 0 && chars_of(path.as_str()).len() > 0 {
                CpPath::Vm { name, path }
            } else {
                CpPath::Local(s.to_owned())
            }
        },
        None => CpPath::Local(s.to_owned()),
    }
}

/// A copy between the host and a VM.
#[derive(Debug)]
pub enum CpPlan {
    Upload { local: String, name: String, path: String },
    Download { name: String, path: String, local: String },
}

/// Plans a copy. One side has to be on the host, and the other in a VM.
pub fn plan_cp(source: &str, dest: &str) -> (r: Result<CpPlan, String>)
    ensures
        match (cp_path(source@), cp_path(dest@)) {
            (CpPathView::Local(l), CpPathView::Vm { name, path }) => r matches Ok(
                CpPlan::Upload { local, name: n, path: p },
            ) && local@ == l && n@ == name && p@ == path,
            (CpPathView::Vm { name, path }, CpPathView::Local(l)) => r matches Ok(
                CpPlan::Download { name: n, path: p, local },
            ) && local@ == l && n@ == name && p@ == path,
            (CpPathView::Local(_), CpPathView::Local(_)) => r matches Err(m) && m@
                == "both source and destination are local paths; prefix one with vmname:"@,
            (CpPathView::Vm { .. }, CpPathView::Vm { .. }) => r matches Err(m) && m@
                == "VM-to-VM copy is not supported; copy to local first"@,
        },
{
    match (parse_cp_path(source), parse_cp_path(dest)) {
        (CpPath::Local(local), CpPath::Vm { name, path }) => Ok(
            CpPlan::Upload { local, name, path },
        ),
        (CpPath::Vm { name, path }, CpPath::Local(local)) => Ok(
            CpPlan::Download { name, path, local },
        ),
        (CpPath::Local(_), CpPath::Local(_)) => Err(
            "both source and destination are local paths; prefix one with vmname:".to_owned(),
        ),
        (CpPath::Vm { .. }, CpPath::Vm { .. }) => Err(
            "VM-to-VM copy is not supported; copy to local first".to_owned(),
        ),
    }
}

/// A file mode, given in octal.
pub fn parse_octal_mode(s: &str) -> (r: Result<u32, String>)
    ensures
        match text::uint_value(s@, 8, u32::MAX as nat) {
            Ok(n) => r matches Ok(mode) && mode == n,
            Err(fault) => r matches Err(m) && m@ == "invalid octal mode: "@ + fault.text(),
        },
{
    match parse_uint(s, 8, u32::MAX as u64) {
        Ok(n) => {
            proof {
                text::lemma_uint_max(s@, 8, u32::MAX as nat);
            }
            Ok(n as u32)
        },
        Err(fault) => {
            let mut m = "invalid octal mode: ".to_owned();
            m.append(fault.message().as_str());
            Err(m)
        },
    }
}

/// The variables among arguments like "KEY=VALUE". An argument without an equals sign is passed
/// over.
pub open spec fn env_pairs(args: Seq<Seq<char>>) -> Seq<(Seq<char>, Seq<char>)>
    decreases args.len(),
{
    if args.len() == 0 {
        seq![]
    } else {
        let before = env_pairs(args.drop_last());
        match text::parted(args.last(), '=') {
            Some(pair) => before.push(pair),
            None => before,
        }
    }
}

/// The variables among arguments like "KEY=VALUE".
pub fn parse_env(args: &[String]) -> (pairs: Vec<(String, String)>)
    ensures
        text::pair_texts(pairs@) == env_pairs(text::texts(args@)),
{
    let mut pairs: Vec<(String, String)> = Vec::new();
    let ghost all = text::texts(args@);
    let mut i: usize = 0;
    proof {
        assert(text::pair_texts(pairs@) =~= env_pairs(all.take(0)));
    }
    while i < args.len()
        invariant
            i <= args@.len(),
            all == text::texts(args@),
            text::pair_texts(pairs@) == env_pairs(all.take(i as int)),
        decreases args.len() - i,
    {
        proof {
            assert(all.take(i + 1).drop_last() =~= all.take(i as int));
            assert(all.take(i + 1).last() == args@[i as int]@);
        }
        let ghost before = text::pair_texts(pairs@);
        match part(args[i].as_str(), '=') {
            Some((key, value)) => {
                let ghost pair = (key@, value@);
                pairs.push((key, value));
                proof {
                    assert(text::pair_texts(pairs@) =~= before.push(pair));
                }
            },
            None => {},
        }
        i += 1;
    }
    proof {
        assert(all.take(i as int) =~= all);
    }
    pairs
}

/// A name for a VM that was given none.
pub fn new_vm_name() -> (s: String)
    ensures
        exists|id: u128| #[trigger]
            ident::is_random_uuid(id) && s@ == "vm-"@ + ident::uuid_text(id).take(8),
{
    let id = new_uuid();
    default_vm_name(id)
}

/// The name of a VM that was given none: the start of an id.
pub fn default_vm_name(id: u128) -> (s: String)
    ensures
        s@ == "vm-"@ + ident::uuid_text(id).take(8),
{
    let whole = chars_of(format_uuid(id).as_str());
    proof {
        ident::lemma_uuid_len(id);
    }
    let start = vstd::slice::slice_subrange(whole.as_slice(), 0, 8);
    proof {
        assert(start@ =~= ident::uuid_text(id).take(8));
    }
    let mut s = "vm-".to_owned();
    s.append(string_of(start).as_str());
    s
}

/// What the user is told where the daemon answers with an error: its message and hint, or what
/// else it said, or what its status means.
pub open spec fn error_text(
    status: u16,
    status_text: Seq<char>,
    body: Seq<char>,
    subject: Seq<char>,
) -> Seq<char> {
    if body.len() > 0 {
        error_in(json::json_in(body), body)
    } else if status == 404 {
        subject + " not found"@
    } else if status == 409 {
        subject + " already exists"@
    } else {
        subject + ": "@ + status_text
    }
}

/// What is said in the body of an answer.
pub open spec fn error_in(parsed: Option<JsonView>, body: Seq<char>) -> Seq<char> {
    match parsed {
        None => body,
        Some(j) => match j.text_member("message"@) {
            Some(message) => match j.text_member("hint"@) {
                Some(hint) => message + " (hint: "@ + hint + ")"@,
                None => message,
            },
            None => match j.text_member("error"@) {
                Some(error) => error,
                None => body,
            },
        },
    }
}

/// What is said in the body of an answer that was parsed.
pub fn error_in_body(parsed: &Option<json::Json>, body: &str) -> (s: String)
    ensures
        s@ == error_in(
            match parsed {
                Some(j) => Some(j@),
                None => None,
            },
            body@,
        ),
{
    match parsed {
        None => body.to_owned(),
        Some(j) => match j.text_member("message") {
            Some(message) => {
                let mut s = message.clone();
                if let Some(hint) = j.text_member("hint") {
                    s.append(" (hint: ");
                    s.append(hint.as_str());
                    s.append(")");
                }
                s
            },
            None => match j.text_member("error") {
                Some(error) => error.clone(),
                None => body.to_owned(),
            },
        },
    }
}

/// What the user is told where the daemon answers with an error. `status_text` is the status as
/// it is shown, and `body` is empty where it could not be read.
pub fn api_error(status: u16, status_text: &str, body: &str, subject: &str) -> (s: String)
    ensures
        s@ == error_text(status, status_text@, body@, subject@),
{
    if chars_of(body).len() > 0 {
        let parsed = json::parse(body);
        return error_in_body(&parsed, body);
    }
    let mut s = subject.to_owned();
    if status == 404 {
        s.append(" not found");
    } else if status == 409 {
        s.append(" already exists");
    } else {
        s.append(": ");
        s.append(status_text);
    }
    s
}

/// A command that may be refused because of the state that a VM is in.
#[derive(Debug, Clone, Copy, PartialEq, Eq, Structural)]
pub enum VmCommand {
    Run,
    Stop,
    Pause,
    Resume,
}

/// What may help where a command failed with the given message.
pub open spec fn hint_for(command: VmCommand, message: Seq<char>, name: Seq<char>) -> Option<
    Seq<char>,
> {
    let stopped = text::occurs_in("stopped"@, message);
    match command {
        VmCommand::Run => if text::occurs_in("already exists"@, message) {
            Some("stop or destroy it first with `husk destroy "@ + name + "`"@)
        } else {
            None
        },
        VmCommand::Stop => if stopped {
            Some("VM is already stopped"@)
        } else {
            None
        },
        VmCommand::Pause => if stopped {
            Some("start the VM first with `husk run`"@)
        } else {
            None
        },
        VmCommand::Resume => if stopped {
            Some("start the VM first with `husk run`"@)
        } else if text::occurs_in("running"@, message) {
            Some("VM is already running, nothing to resume"@)
        } else {
            None
        },
    }
}

fn mentions(message: &str, word: &str) -> (r: bool)
    ensures
        r == text::occurs_in(word@, message@),
{
    match find_text(message, word) {
        Some(i) => {
            proof {
                assert(message@.subrange(i as int, i + word@.len()) == word@);
            }
            true
        },
        None => false,
    }
}

/// What may help where a command failed with the given message.
pub fn command_hint(command: VmCommand, message: &str, name: &str) -> (h: Option<String>)
    ensures
        text::opt_text(h) == hint_for(command, message@, name@),
{
    match command {
        VmCommand::Run => {
            if mentions(message, "already exists") {
                let mut s = "stop or destroy it first with `husk destroy ".to_owned();
                s.append(name);
                s.append("`");
                return Some(s);
            }
            None
        },
        VmCommand::Stop => {
            if mentions(message, "stopped") {
                return Some("VM is already stopped".to_owned());
            }
            None
        },
        VmCommand::Pause => {
            if mentions(message, "stopped") {
                return Some("start the VM first with `husk run`".to_owned());
            }
            None
        },
        VmCommand::Resume => {
            if mentions(message, "stopped") {
                return Some("start the VM first with `husk run`".to_owned());
            }
            if mentions(message, "running") {
                return Some("VM is already running, nothing to resume".to_owned());
            }
            None
        },
    }
}

/// Why no shell can be opened in a VM, and what may help.
pub open spec fn shell_refusal_of(name: Seq<char>, state: Seq<char>) -> Option<
    (Seq<char>, Option<Seq<char>>),
> {
    if state == "running"@ {
        None
    } else {
        Some(
            (
                "VM '"@ + name + "' is "@ + state + ", expected running"@,
                if state == "stopped"@ {
                    Some("start the VM first with `husk run`"@)
                } else if state == "paused"@ {
                    Some("resume the VM first with `husk resume "@ + name + "`"@)
                } else {
                    None
                },
            ),
        )
    }
}

/// Why no shell can be opened in a VM that is in the given state, and what may help.
pub fn shell_refusal(name: &str, state: &str) -> (r: Option<(String, Option<String>)>)
    ensures
        match r {
            Some((message, hint)) => shell_refusal_of(name@, state@) == Some(
                (message@, text::opt_text(hint)),
            ),
            None => shell_refusal_of(name@, state@) is None,
        },
{
    if same_text(state, "running") {
        return None;
    }
    let mut message = "VM '".to_owned();
    message.append(name);
    message.append("' is ");
    message.append(state);
    message.append(", expected running");
    let hint = if same_text(state, "stopped") {
        Some("start the VM first with `husk run`".to_owned())
    } else if same_text(state, "paused") {
        let mut s = "resume the VM first with `husk resume ".to_owned();
        s.append(name);
        s.append("`");
        Some(s)
    } else {
        None
    };
    Some((message, hint))
}

/// `s` with the first `from` replaced by `to`.
pub open spec fn with_first_replaced(s: Seq<char>, from: Seq<char>, to: Seq<char>) -> Seq<char> {
    if text::occurs_in(from, s) {
        let i = choose|i: int| text::occurs_first_at(from, s, i);
        s.take(i) + to + s.skip(i + from.len())
    } else {
        s
    }
}

fn replace_first(s: &str, from: &str, to: &str) -> (r: String)
    ensures
        r@ == with_first_replaced(s@, from@, to@),
{
    match find_text(s, from) {
        None => s.to_owned(),
        Some(i) => {
            let v = chars_of(s);
            let w = chars_of(from);
            let n = v.len();
            let before = vstd::slice::slice_subrange(v.as_slice(), 0, i);
            let after = vstd::slice::slice_subrange(v.as_slice(), i + w.len(), n);
            let mut r = string_of(before);
            r.append(to);
            r.append(string_of(after).as_str());
            proof {
                assert(s@.subrange(i as int, i + from@.len()) == from@);
                assert(text::occurs_in(from@, s@));
                let k = choose|k: int| text::occurs_first_at(from@, s@, k);
                assert(text::occurs_first_at(from@, s@, i as int));
                assert(k == i) by {
                    if k < i {
                        assert(s@.subrange(k, k + from@.len()) != from@);
                    }
                    if i < k {
                        assert(s@.subrange(i as int, i + from@.len()) != from@);
                    }
                }
                assert(r@ =~= with_first_replaced(s@, from@, to@));
            }
            r
        },
    }
}

/// Where the shell of a VM is reached: the address of the API, for a web socket.
pub open spec fn shell_url_of(api_url: Seq<char>, name: Seq<char>) -> Seq<char> {
    with_first_replaced(
        with_first_replaced(api_url, "http://"@, "ws://"@),
        "https://"@,
        "wss://"@,
    ) + "/v1/vms/"@ + name + "/shell"@
}

/// Where the shell of a VM is reached.
pub fn shell_url(api_url: &str, name: &str) -> (s: String)
    ensures
        s@ == shell_url_of(api_url@, name@),
{
    let plain = replace_first(api_url, "http://", "ws://");
    let mut s = replace_first(plain.as_str(), "https://", "wss://");
    s.append("/v1/vms/");
    s.append(name);
    s.append("/shell");
    s
}

/// Where the log of a VM is reached.
pub open spec fn logs_url_of(api_url: Seq<char>, name: Seq<char>, follow: bool, tail: Option<u64>) -> Seq<char> {
    let base = api_url + "/v1/vms/"@ + name + "/logs"@;
    match tail {
        Some(n) => if follow {
            base + "?follow=true&tail="@ + text::decimal(n as nat)
        } else {
            base + "?tail="@ + text::decimal(n as nat)
        },
        None => if follow {
            base + "?follow=true"@
        } else {
            base
        },
    }
}

/// Where the log of a VM is reached.
pub fn logs_url(api_url: &str, name: &str, follow: bool, tail: Option<u64>) -> (s: String)
    ensures
        s@ == logs_url_of(api_url@, name@, follow, tail),
{
    let mut s = api_url.to_owned();
    s.append("/v1/vms/");
    s.append(name);
    s.append("/logs");
    match tail {
        Some(n) => {
            if follow {
                s.append("?follow=true&tail=");
            } else {
                s.append("?tail=");
            }
            s.append(decimal_of(n).as_str());
        },
        None => {
            if follow {
                s.append("?follow=true");
            }
        },
    }
    s
}

/// What the daemon's first answer means for a shell that was asked for.
pub fn shell_started(answer: WsShellOutput) -> (r: Result<(), String>)
    ensures
        match answer {
            WsShellOutput::Started => r is Ok,
            WsShellOutput::Error { message } => r == Err::<(), String>(message),
            _ => r matches Err(m) && m@ == "unexpected response from server"@,
        },
{
    match answer {
        WsShellOutput::Started => Ok(()),
        WsShellOutput::Error { message } => Err(message),
        _ => Err("unexpected response from server".to_owned()),
    }
}

/// What happens at a terminal whose shell is in a VM.
pub enum TerminalEvent {
    /// The user typed something; nothing at the end of the input.
    Typed(Vec<u8>),
    Resized { cols: u16, rows: u16 },
    /// The terminal has gone.
    HungUp,
    /// The daemon sent a message.
    Answer(WsShellOutput),
    /// The daemon sent something that is no message.
    Other,
    /// The daemon has closed the connection.
    Closed,
    /// The connection is broken; in the words of the operating system.
    Broken(String),
}

/// What to do at a terminal whose shell is in a VM.
pub enum TerminalAction {
    Send(WsShellInput),
    Write(Vec<u8>),
    Ignore,
    Exit(i32),
    /// Close the connection, and exit.
    CloseAndExit(i32),
    Fail(String),
}

/// What to do at a terminal whose shell is in a VM.
pub fn terminal_step(event: TerminalEvent) -> (action: TerminalAction)
    ensures
        match event {
            TerminalEvent::Typed(bytes) => if bytes@.len() == 0 {
                action == TerminalAction::Exit(0)
            } else {
                action matches TerminalAction::Send(WsShellInput::Data { data }) && data@
                    == base64::encoded(bytes@)
            },
            TerminalEvent::Resized { cols, rows } => action == TerminalAction::Send(
                WsShellInput::Resize { cols, rows },
            ),
            TerminalEvent::HungUp => action == TerminalAction::CloseAndExit(0),
            TerminalEvent::Answer(WsShellOutput::Data { data }) => match base64::decoded_text(
                data@,
            ) {
                Ok(bytes) => action matches TerminalAction::Write(b) && b@ == bytes,
                Err(e) => action matches TerminalAction::Fail(m) && m@ == "base64 decode: "@ + e,
            },
            TerminalEvent::Answer(WsShellOutput::Exit { exit_code }) => action
                == TerminalAction::Exit(exit_code),
            TerminalEvent::Answer(WsShellOutput::Error { message }) => action matches TerminalAction::Fail(
                m,
            ) && m@ == "agent error: "@ + message@,
            TerminalEvent::Answer(WsShellOutput::Started) => action == TerminalAction::Ignore,
            TerminalEvent::Other => action == TerminalAction::Ignore,
            TerminalEvent::Closed => action == TerminalAction::Exit(0),
            TerminalEvent::Broken(e) => action matches TerminalAction::Fail(m) && m@
                == "WebSocket error: "@ + e@,
        },
{
    match event {
        TerminalEvent::Typed(bytes) => {
            if bytes.len() == 0 {
                TerminalAction::Exit(0)
            } else {
                TerminalAction::Send(WsShellInput::Data { data: base64_encode(bytes.as_slice()) })
            }
        },
        TerminalEvent::Resized { cols, rows } => TerminalAction::Send(
            WsShellInput::Resize { cols, rows },
        ),
        TerminalEvent::HungUp => TerminalAction::CloseAndExit(0),
        TerminalEvent::Answer(WsShellOutput::Data { data }) => match base64_decode(data.as_str()) {
            Ok(bytes) => TerminalAction::Write(bytes),
            Err(e) => {
                let mut m = "base64 decode: ".to_owned();
                m.append(e.as_str());
                TerminalAction::Fail(m)
            },
        },
        TerminalEvent::Answer(WsShellOutput::Exit { exit_code }) => TerminalAction::Exit(exit_code),
        TerminalEvent::Answer(WsShellOutput::Error { message }) => {
            let mut m = "agent error: ".to_owned();
            m.append(message.as_str());
            TerminalAction::Fail(m)
        },
        TerminalEvent::Answer(WsShellOutput::Started) => TerminalAction::Ignore,
        TerminalEvent::Other => TerminalAction::Ignore,
        TerminalEvent::Closed => TerminalAction::Exit(0),
        TerminalEvent::Broken(e) => {
            let mut m = "WebSocket error: ".to_owned();
            m.append(e.as_str());
            TerminalAction::Fail(m)
        },
    }
}

/// The two sides of a path in a VM give the argument that it was read from.
pub proof fn vm_path_is_read_back(s: Seq<char>)
    ensures
        match cp_path(s) {
            CpPathView::Vm { name, path } => s == name + ":"@ + path && !name.contains(':'),
            CpPathView::Local(p) => s == p,
        },
{
    reveal_strlit(":");
    lemma_parted(s, ':');
    if let CpPathView::Vm { name, path } = cp_path(s) {
        assert(s =~= name + ":"@ + path);
    }
}

proof fn lemma_parted(s: Seq<char>, c: char)
    ensures
        0 <= text::first_index(s, c) <= s.len(),
        text::first_index(s, c) < s.len() ==> s[text::first_index(s, c)] == c,
        !s.take(text::first_index(s, c)).contains(c),
    decreases s.len(),
{
    if s.len() > 0 && s[0] != c {
        let rest = s.skip(1);
        lemma_parted(rest, c);
        let i = text::first_index(rest, c);
        let front = s.take(i + 1);
        assert forall|k: int| 0 <= k < front.len() implies #[trigger] front[k] != c by {
            if k > 0 {
                assert(rest.take(i)[k - 1] == s[k]);
                assert(rest.take(i).contains(s[k]));
            }
        }
    }
}

/// A VM's name and a path with a colon between them are read as the path in that VM.
pub proof fn vm_paths_are_understood(name: Seq<char>, path: Seq<char>)
    requires
        name.len() > 0,
        path.len() > 0,
        !name.contains(':'),
    ensures
        cp_path(name + ":"@ + path) == (CpPathView::Vm { name, path }),
{
    reveal_strlit(":");
    let s = name + ":"@ + path;
    lemma_parted_at(name, path, ':');
    assert(s =~= name.push(':') + path);
}

proof fn lemma_parted_at(before: Seq<char>, after: Seq<char>, c: char)
    requires
        !before.contains(c),
    ensures
        text::parted(before.push(c) + after, c) == Some((before, after)),
{
    let s = before.push(c) + after;
    let n = before.len() as int;
    assert forall|j: int| 0 <= j < n implies #[trigger] s[j] != c by {
        assert(before.contains(before[j]));
    }
    text::lemma_first_index(s, c, n);
    assert(s.take(n) =~= before);
    assert(s.skip(n + 1) =~= after);
}

/// An argument "KEY=VALUE" is one more variable, after those of the arguments before it, with all
/// that follows the first equals sign for its value; an argument without an equals sign is none.
pub proof fn variables_are_understood(
    args: Seq<Seq<char>>,
    key: Seq<char>,
    value: Seq<char>,
    other: Seq<char>,
)
    requires
        !key.contains('='),
        !other.contains('='),
    ensures
        env_pairs(args.push(key + "="@ + value)) == env_pairs(args).push((key, value)),
        env_pairs(args.push(other)) == env_pairs(args),
        env_pairs(seq![]).len() == 0,
{
    reveal_strlit("=");
    lemma_parted_at(key, value, '=');
    assert(key + "="@ + value =~= key.push('=') + value);
    assert(args.push(key + "="@ + value).drop_last() =~= args);
    assert(args.push(other).drop_last() =~= args);
    assert forall|j: int| 0 <= j < other.len() implies #[trigger] other[j] != '=' by {
        assert(other.contains(other[j]));
    }
    text::lemma_first_index(other, '=', other.len() as int);
}

/// The log of a VM is asked for at the VM's address: the whole log if nothing is said, the log as it
/// grows if it is to be followed, and as many lines as are asked for.
pub proof fn log_is_asked_for(api_url: Seq<char>, name: Seq<char>, follow: bool, tail: Option<u64>)
    ensures
        ({
            let url = logs_url_of(api_url, name, follow, tail);
            let base = api_url + "/v1/vms/"@ + name + "/logs"@;
            &&& text::starts_with(url, base)
            &&& !follow && tail is None ==> url == base
            &&& follow ==> text::occurs_in("follow=true"@, url)
            &&& tail matches Some(n) ==> text::ends_with(url, "tail="@ + text::decimal(n as nat))
            &&& tail is None && follow ==> text::ends_with(url, "?follow=true"@)
            &&& tail is Some && !follow ==> text::ends_with(
                url,
                "?tail="@ + text::decimal(tail->0 as nat),
            )
        }),
{
    let url = logs_url_of(api_url, name, follow, tail);
    let base = api_url + "/v1/vms/"@ + name + "/logs"@;
    let b = base.len() as int;
    reveal_strlit("?follow=true&tail=");
    reveal_strlit("?tail=");
    reveal_strlit("tail=");
    reveal_strlit("?follow=true");
    reveal_strlit("follow=true");
    assert(url.take(b) =~= base);
    if follow {
        text::lemma_occurs("follow=true"@, url, b + 1);
    }
    match tail {
        Some(n) => {
            let t = "tail="@ + text::decimal(n as nat);
            assert(url.skip(url.len() - t.len()) =~= t);
            if !follow {
                assert(url.skip(b) =~= "?tail="@ + text::decimal(n as nat));
            }
        },
        None => {
            if follow {
                assert(url.skip(b) =~= "?follow=true"@);
            }
        },
    }
}

proof fn lemma_replaced_in_front(from: Seq<char>, to: Seq<char>, rest: Seq<char>)
    ensures
        with_first_replaced(from + rest, from, to) == to + rest,
{
    let s = from + rest;
    text::lemma_occurs(from, s, 0);
    let n = from.len() as int;
    assert(s.subrange(0, n) =~= from);
    assert(text::occurs_first_at(from, s, 0));
    let i = choose|i: int| text::occurs_first_at(from, s, i);
    if i > 0 {
        assert(s.subrange(0, 0int + from.len()) != from);
    }
    assert(s.take(0) + to + s.skip(n) =~= to + rest);
}

proof fn lemma_occurs_behind(p: Seq<char>, front: Seq<char>, rest: Seq<char>)
    requires
        p.len() > 0,
        forall|k: int| 0 <= k < front.len() ==> #[trigger] front[k] != p[0],
        !text::occurs_in(p, rest),
    ensures
        !text::occurs_in(p, front + rest),
{
    let s = front + rest;
    let n = front.len() as int;
    if text::occurs_in(p, s) {
        let i = choose|i: int|
            0 <= i && i + p.len() <= s.len() && #[trigger] s.subrange(i, i + p.len()) == p;
        assert(s.subrange(i, i + p.len())[0] == s[i]);
        if i < n {
            assert(s[i] == front[i]);
        } else {
            assert(rest.subrange(i - n, i - n + p.len()) =~= s.subrange(i, i + p.len()));
        }
    }
}

/// The shell is reached at the host that the API is at, without encryption where the API is without
/// it, and with encryption where the API is with it.
pub proof fn shell_is_where_the_api_is(host: Seq<char>, name: Seq<char>)
    requires
        !text::occurs_in("http://"@, host),
        !text::occurs_in("https://"@, host),
    ensures
        shell_url_of("http://"@ + host, name) == "ws://"@ + host + "/v1/vms/"@ + name + "/shell"@,
        shell_url_of("https://"@ + host, name) == "wss://"@ + host + "/v1/vms/"@ + name + "/shell"@,
{
    reveal_strlit("http://");
    reveal_strlit("https://");
    reveal_strlit("ws://");
    lemma_replaced_in_front("http://"@, "ws://"@, host);
    lemma_occurs_behind("https://"@, "ws://"@, host);
    lemma_replaced_in_front("https://"@, "wss://"@, host);
    let rest = "https://"@.skip(1) + host;
    lemma_occurs_behind("http://"@, "https://"@.skip(1), host);
    let s = "https://"@ + host;
    assert(s.skip(1) =~= rest);
    if text::occurs_in("http://"@, s) {
        let i = choose|i: int|
            0 <= i && i + 7 <= s.len() && #[trigger] s.subrange(i, i + 7) == "http://"@;
        if i == 0 {
            assert(s.subrange(0, 7)[4] == s[4]);
        } else {
            assert(rest.subrange(i - 1, i - 1 + 7) =~= s.subrange(i, i + 7));
        }
    }
}

/// The user is told what the daemon said: its message, with the hint if there is one; what stands
/// under the older name if there is no message; and else what came.
pub proof fn user_is_told_what_was_said(answer: JsonView, body: Seq<char>)
    ensures
        error_in(None, body) == body,
        answer.text_member("message"@) matches Some(m) ==> text::starts_with(
            error_in(Some(answer), body),
            m,
        ),
        (answer.text_member("message"@) matches Some(m) && answer.text_member("hint"@) is None)
            ==> error_in(Some(answer), body) == answer.text_member("message"@)->0,
        (answer.text_member("message"@) is Some && answer.text_member("hint"@) is Some)
            ==> text::occurs_in(answer.text_member("hint"@)->0, error_in(Some(answer), body)),
        (answer.text_member("message"@) is None && answer.text_member("error"@) is Some)
            ==> error_in(Some(answer), body) == answer.text_member("error"@)->0,
        (answer.text_member("message"@) is None && answer.text_member("error"@) is None)
            ==> error_in(Some(answer), body) == body,
{
    let told = error_in(Some(answer), body);
    if let Some(m) = answer.text_member("message"@) {
        assert(told.take(m.len() as int) =~= m);
        if let Some(h) = answer.text_member("hint"@) {
            text::lemma_occurs(h, told, m.len() as int + " (hint: "@.len());
        }
    }
}

/// Where a command is refused because of the state that a VM is in, or because there is a VM of the
/// name, the message of the daemon brings a hint.
pub proof fn refusals_bring_hints(name: Seq<char>, expected: Seq<char>)
    ensures
        ({
            let stopped = CoreErrorView::InvalidState { name, actual: "stopped"@, expected }.text();
            let running = CoreErrorView::InvalidState { name, actual: "running"@, expected }.text();
            let taken = CoreErrorView::VmAlreadyExists(name).text();
            &&& hint_for(VmCommand::Stop, stopped, name) is Some
            &&& hint_for(VmCommand::Pause, stopped, name) is Some
            &&& hint_for(VmCommand::Resume, stopped, name) is Some
            &&& hint_for(VmCommand::Resume, running, name) is Some
            &&& hint_for(VmCommand::Run, taken, name) matches Some(h) && text::occurs_in(name, h)
        }),
{
    let stopped = CoreErrorView::InvalidState { name, actual: "stopped"@, expected }.text();
    let running = CoreErrorView::InvalidState { name, actual: "running"@, expected }.text();
    let taken = CoreErrorView::VmAlreadyExists(name).text();
    let at = "VM '"@.len() as int + name.len() + "' is "@.len();
    text::lemma_occurs("stopped"@, stopped, at);
    text::lemma_occurs("running"@, running, at);
    reveal_strlit("VM already exists: ");
    reveal_strlit("already exists");
    text::lemma_occurs("already exists"@, taken, 3);
    let hint = "stop or destroy it first with `husk destroy "@ + name + "`"@;
    text::lemma_occurs(name, hint, "stop or destroy it first with `husk destroy "@.len() as int);
}

/// A shell is refused exactly where the VM is not running, in the words in which the daemon refuses
/// it.
pub proof fn shell_needs_a_running_vm(name: Seq<char>, state: Seq<char>)
    ensures
        shell_refusal_of(name, state) is None <==> state == "running"@,
        shell_refusal_of(name, state) matches Some((message, _)) ==> message
            == (CoreErrorView::InvalidState { name, actual: state, expected: "running"@ }).text(),
{
    reveal_strlit(", expected running");
    reveal_strlit(", expected ");
    reveal_strlit("running");
    let front = "VM '"@ + name + "' is "@ + state;
    assert(front + ", expected running"@ =~= front + ", expected "@ + "running"@);
}

} // verus!
