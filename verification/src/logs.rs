//! Serial logs, as the API shows them: the last lines of a log, and what is added to it.
use crate::api;
use crate::api::{error_response, ApiError};
use crate::text;
use crate::text::{chars_of, has_suffix, join_texts, split_text, string_of};
use vstd::prelude::*;
use vstd::string::*;

verus! {

/// What of a log is asked for.
#[derive(Debug, Clone, Copy)]
pub struct LogsQuery {
    /// Whether to go on with what is added.
    pub follow: bool,
    /// How many lines to show of what there is; all where this is not given.
    pub tail: Option<u64>,
}

/// How much of a log is shown at most, in bytes.
pub const LOG_MAX_READ_BYTES: u64 = 1_048_576;

/// A line without the carriage return that ends it.
pub open spec fn without_return(line: Seq<char>) -> Seq<char> {
    if line.len() > 0 && line.last() == '\r' {
        line.drop_last()
    } else {
        line
    }
}

/// The lines of a text. Each ends with a line feed, or a carriage return and a line feed; the
/// last need not.
pub open spec fn lines(content: Seq<char>) -> Seq<Seq<char>> {
    let pieces = text::split(content, '\n');
    let ended = Seq::new((pieces.len() - 1) as nat, |i: int| without_return(pieces[i]));
    if pieces.last().len() == 0 {
        ended
    } else {
        ended.push(pieces.last())
    }
}

/// The last of the given texts, `n` of them or all.
pub open spec fn last_of(all: Seq<Seq<char>>, n: u64) -> Seq<Seq<char>> {
    if n >= all.len() {
        all
    } else {
        all.skip(all.len() - n)
    }
}

/// The last `n` lines of a text. They end with a line feed where the text does, unless nothing
/// is left of it.
pub open spec fn tail(content: Seq<char>, n: u64) -> Seq<char> {
    let shown = text::join(last_of(lines(content), n), "\n"@);
    if text::ends_with(content, "\n"@) && shown.len() > 0 {
        shown + "\n"@
    } else {
        shown
    }
}

fn drop_return(line: &str) -> (s: String)
    ensures
        s@ == without_return(line@),
{
    let v = chars_of(line);
    let n = v.len();
    if n > 0 && v[n - 1] == '\r' {
        let kept = vstd::slice::slice_subrange(v.as_slice(), 0, n - 1);
        proof {
            assert(kept@ =~= line@.drop_last());
        }
        string_of(kept)
    } else {
        line.to_owned()
    }
}

fn lines_of(content: &str) -> (all: Vec<String>)
    ensures
        text::texts(all@) == lines(content@),
{
    let pieces = split_text(content, '\n');
    let ghost whole = text::split(content@, '\n');
    proof {
        text::lemma_split_nonempty(content@, '\n');
        assert(text::texts(pieces@).len() == pieces@.len());
    }
    let last = pieces.len() - 1;
    let mut all: Vec<String> = Vec::new();
    let mut i: usize = 0;
    while i < last
        invariant
            i <= last,
            last + 1 == pieces@.len(),
            text::texts(pieces@) == whole,
            all@.len() == i,
            forall|k: int| 0 <= k < i ==> (#[trigger] all@[k])@ == without_return(whole[k]),
        decreases last - i,
    {
        proof {
            assert(whole[i as int] == pieces@[i as int]@);
        }
        all.push(drop_return(pieces[i].as_str()));
        i += 1;
    }
    proof {
        assert(whole.last() == pieces@[last as int]@);
    }
    let rest = chars_of(pieces[last].as_str());
    if rest.len() > 0 {
        all.push(pieces[last].clone());
    }
    proof {
        assert(text::texts(all@) =~= lines(content@));
    }
    all
}

/// The last `n` lines of a text.
pub fn tail_lines(content: &str, n: u64) -> (s: String)
    ensures
        s@ == tail(content@, n),
{
    let all = lines_of(content);
    let len = all.len();
    let start: usize = if n >= len as u64 {
        0
    } else {
        len - n as usize
    };
    let kept = vstd::slice::slice_subrange(all.as_slice(), start, len);
    proof {
        assert(text::texts(all@).len() == len);
        assert(text::texts(kept@) =~= last_of(lines(content@), n));
        reveal_strlit("\n");
    }
    let mut shown = join_texts(kept, "\n");
    let ghost bare = shown@;
    let empty = chars_of(shown.as_str()).len() == 0;
    proof {
        assert(empty == (bare.len() == 0));
    }
    if has_suffix(content, "\n") && !empty {
        shown.append("\n");
    }
    shown
}

/// Where the part of a log begins that is shown, or `None` where all of it is.
pub fn log_start(file_size: u64) -> (start: Option<u64>)
    ensures
        start == (if file_size > LOG_MAX_READ_BYTES {
            Some((file_size - LOG_MAX_READ_BYTES) as u64)
        } else {
            None
        }),
{
    if file_size > LOG_MAX_READ_BYTES {
        Some(file_size - LOG_MAX_READ_BYTES)
    } else {
        None
    }
}

/// What is shown of a log at first: where only its end was read, this is said first.
pub open spec fn first_view(content: Seq<char>, truncated: bool, n: Option<u64>) -> Seq<char> {
    let whole = if truncated {
        "[... truncated, showing last 1 MiB ...]\n"@ + content
    } else {
        content
    };
    match n {
        Some(n) => tail(whole, n),
        None => whole,
    }
}

/// What is shown of a log at first.
pub fn log_view(content: String, truncated: bool, n: Option<u64>) -> (s: String)
    ensures
        s@ == first_view(content@, truncated, n),
{
    let whole = if truncated {
        let mut s = "[... truncated, showing last 1 MiB ...]\n".to_owned();
        s.append(content.as_str());
        s
    } else {
        content
    };
    match n {
        Some(n) => tail_lines(whole.as_str(), n),
        None => whole,
    }
}

/// Why a file could not be used.
#[derive(Debug, Clone, Copy, PartialEq, Eq, Structural)]
pub enum FileFault {
    Missing,
    Other,
}

/// The answer where there is no log, or its length could not be told.
pub fn missing_log(name: &str, fault: FileFault, message: &str) -> (e: ApiError)
    ensures
        e@ == (match fault {
            FileFault::Missing => api::plain(
                404,
                "serial_log_not_found"@,
                "no serial log for VM '"@ + name@ + "'"@,
            ),
            FileFault::Other => api::plain(
                500,
                "serial_log_read_failed"@,
                "reading serial log: "@ + message@,
            ),
        }),
{
    match fault {
        FileFault::Missing => {
            let mut s = "no serial log for VM '".to_owned();
            s.append(name);
            s.append("'");
            ApiError { status: 404, body: error_response("serial_log_not_found", s) }
        },
        FileFault::Other => unreadable_log(message),
    }
}

/// The answer where a log could not be read.
pub fn unreadable_log(message: &str) -> (e: ApiError)
    ensures
        e@ == api::plain(500, "serial_log_read_failed"@, "reading serial log: "@ + message@),
{
    let mut s = "reading serial log: ".to_owned();
    s.append(message);
    ApiError { status: 500, body: error_response("serial_log_read_failed", s) }
}

/// The answer where the end of a log could not be reached.
pub fn unseekable_log(message: &str) -> (e: ApiError)
    ensures
        e@ == api::plain(500, "serial_log_seek_failed"@, "seeking serial log: "@ + message@),
{
    let mut s = "seeking serial log: ".to_owned();
    s.append(message);
    ApiError { status: 500, body: error_response("serial_log_seek_failed", s) }
}

/// What happens to a log that is followed.
pub enum FollowEvent {
    /// Time has passed, and the log is this long.
    Length(u64),
    /// Time has passed, and the length of the log could not be told.
    NoLength(FileFault),
    /// So many bytes were read.
    Read(usize),
    /// The log could not be opened.
    NotOpened(FileFault),
    /// The log could not be read.
    NotRead,
}

/// What to do with a log that is followed.
pub enum FollowAction {
    /// Wait for time to pass.
    Wait,
    /// Say that the log was cut, then wait.
    Notice,
    /// Read from the given place on, after saying that the log was cut where it was.
    Read { notice: bool, from: u64 },
    /// Pass on what was read, then wait.
    Pass,
    /// Pass on the error, and end.
    Fail,
    End,
}

/// Follows a log.
#[derive(Debug)]
pub struct LogFollower {
    /// How much of the log was passed on.
    pub offset: u64,
}

/// How far a log was followed, after an event.
pub open spec fn offset_after(offset: u64, event: FollowEvent) -> int {
    match event {
        FollowEvent::Length(len) => if len < offset {
            0
        } else {
            offset as int
        },
        FollowEvent::Read(n) => offset + n,
        _ => offset as int,
    }
}

/// What to do after an event.
pub open spec fn follow_action(offset: u64, event: FollowEvent) -> FollowAction {
    match event {
        FollowEvent::Length(len) => {
            let cut = len < offset;
            let from = if cut {
                0u64
            } else {
                offset
            };
            if len > from {
                FollowAction::Read { notice: cut, from }
            } else if cut {
                FollowAction::Notice
            } else {
                FollowAction::Wait
            }
        },
        FollowEvent::NoLength(FileFault::Missing) => FollowAction::End,
        FollowEvent::NoLength(FileFault::Other) => FollowAction::Wait,
        FollowEvent::Read(_) => FollowAction::Pass,
        FollowEvent::NotOpened(FileFault::Missing) => FollowAction::End,
        FollowEvent::NotOpened(FileFault::Other) => FollowAction::Fail,
        FollowEvent::NotRead => FollowAction::Fail,
    }
}

impl LogFollower {
    /// Follows a log from the given place on.
    pub fn start(offset: u64) -> (f: LogFollower)
        ensures
            f.offset == offset,
    {
        LogFollower { offset }
    }

    /// Takes an event, and says what to do.
    pub fn step(&mut self, event: FollowEvent) -> (action: FollowAction)
        requires
            offset_after(old(self).offset, event) <= u64::MAX,
        ensures
            final(self).offset == offset_after(old(self).offset, event),
            action == follow_action(old(self).offset, event),
    {
        match event {
            FollowEvent::Length(len) => {
                let cut = len < self.offset;
                if cut {
                    self.offset = 0;
                }
                if len > self.offset {
                    FollowAction::Read { notice: cut, from: self.offset }
                } else if cut {
                    FollowAction::Notice
                } else {
                    FollowAction::Wait
                }
            },
            FollowEvent::Read(n) => {
                self.offset = self.offset + n as u64;
                FollowAction::Pass
            },
            FollowEvent::NoLength(FileFault::Missing) => FollowAction::End,
            FollowEvent::NoLength(FileFault::Other) => FollowAction::Wait,
            FollowEvent::NotOpened(FileFault::Missing) => FollowAction::End,
            FollowEvent::NotOpened(FileFault::Other) => FollowAction::Fail,
            FollowEvent::NotRead => FollowAction::Fail,
        }
    }
}

/// What is said where a log was cut.
pub fn cut_notice() -> (s: &'static str)
    ensures
        s@ == "\n[... serial log rotated or truncated ...]\n"@,
{
    "\n[... serial log rotated or truncated ...]\n"
}

/// What is added to a log is passed on once and whole: where a log that was passed on up to its
/// end has grown, what is read next is what was added, and then it is passed on up to its new
/// end.
pub proof fn added_bytes_are_passed_on(before: Seq<u8>, added: Seq<u8>)
    requires
        0 < added.len(),
        before.len() + added.len() <= u64::MAX,
        added.len() <= usize::MAX,
    ensures
        ({
            let log = before + added;
            let offset = before.len() as u64;
            let length = FollowEvent::Length(log.len() as u64);
            &&& follow_action(offset, length) == (FollowAction::Read { notice: false, from: offset })
            &&& log.skip(offset as int) == added
            &&& offset_after(offset, length) == offset
            &&& offset_after(offset, FollowEvent::Read(added.len() as usize)) == log.len()
        }),
{
    assert((before + added).skip(before.len() as int) =~= added);
}

/// A log that was cut is passed on from its start, after this was said.
pub proof fn cut_log_starts_anew(offset: u64, len: u64)
    requires
        0 < len < offset,
    ensures
        follow_action(offset, FollowEvent::Length(len)) == (FollowAction::Read {
            notice: true,
            from: 0,
        }),
        offset_after(offset, FollowEvent::Length(len)) == 0,
{
}

proof fn lemma_join_split(s: Seq<char>, sep: char)
    ensures
        text::join(text::split(s, sep), seq![sep]) == s,
    decreases s.len(),
{
    if s.len() == 0 {
        assert(text::split(s, sep) =~= seq![Seq::<char>::empty()]);
        assert(s =~= seq![]);
    } else {
        let init = s.drop_last();
        lemma_join_split(init, sep);
        text::lemma_split_nonempty(init, sep);
        let before = text::split(init, sep);
        if s.last() == sep {
            let after = before.push(seq![]);
            assert(after.drop_last() =~= before);
            assert(text::join(after, seq![sep]) =~= s);
        } else {
            let after = before.drop_last().push(before.last().push(s.last()));
            assert(after.drop_last() =~= before.drop_last());
            if before.len() == 1 {
                assert(text::join(after, seq![sep]) =~= s);
            } else {
                assert(text::join(after, seq![sep]) =~= text::join(before, seq![sep]).push(
                    s.last(),
                ));
                assert(init.push(s.last()) =~= s);
            }
        }
    }
}

proof fn lemma_pieces_avoid(s: Seq<char>, sep: char, c: char)
    requires
        !s.contains(c),
    ensures
        forall|i: int|
            0 <= i < text::split(s, sep).len() ==> !(#[trigger] text::split(s, sep)[i]).contains(c),
    decreases s.len(),
{
    if s.len() > 0 {
        let init = s.drop_last();
        assert(s.contains(s.last()));
        assert forall|k: int| 0 <= k < init.len() implies init[k] != c by {
            assert(s.contains(s[k]));
        }
        lemma_pieces_avoid(init, sep, c);
        text::lemma_split_nonempty(init, sep);
        let before = text::split(init, sep);
        let after = text::split(s, sep);
        assert forall|i: int| 0 <= i < after.len() implies !(#[trigger] after[i]).contains(c) by {
            if i < before.len() - 1 || (s.last() == sep && i == before.len() - 1) {
                assert(after[i] == before[i]);
            } else if s.last() != sep {
                assert(!before.last().contains(c));
                if after[i].contains(c) {
                    let k = choose|k: int| 0 <= k < after[i].len() && after[i][k] == c;
                    if k < before.last().len() {
                        assert(before.last()[k] == c);
                    }
                }
            }
        }
    }
}

/// A text without carriage returns, and that is not just a line feed, is shown whole where at
/// least as many lines are asked for as it has.
pub proof fn whole_text_is_shown(content: Seq<char>, n: u64)
    requires
        !content.contains('\r'),
        content != "\n"@,
        n >= lines(content).len(),
    ensures
        tail(content, n) == content,
{
    reveal_strlit("\n");
    assert("\n"@ =~= seq!['\n']);
    let pieces = text::split(content, '\n');
    text::lemma_split_nonempty(content, '\n');
    lemma_join_split(content, '\n');
    lemma_pieces_avoid(content, '\n', '\r');
    assert forall|i: int| 0 <= i < pieces.len() implies without_return(#[trigger] pieces[i])
        == pieces[i] by {
        if pieces[i].len() > 0 && pieces[i].last() == '\r' {
            assert(pieces[i].contains('\r'));
        }
    }
    let all = lines(content);
    if pieces.last().len() == 0 {
        assert(all =~= pieces.drop_last());
        assert(pieces.last() =~= seq![]);
        if pieces.len() == 1 {
            assert(pieces[0] == pieces.last());
            assert(content =~= seq![]);
            assert(all.len() == 0);
            assert(text::join(all, "\n"@) =~= seq![]);
        } else {
            let shown = text::join(all, "\n"@);
            assert(content =~= shown + "\n"@);
            assert(content.skip(content.len() - 1) =~= "\n"@);
            assert(text::ends_with(content, "\n"@));
            if shown.len() == 0 {
                assert(content =~= "\n"@);
            }
        }
    } else {
        assert(all =~= pieces);
        let shown = text::join(all, "\n"@);
        assert(shown == content);
        if text::ends_with(content, "\n"@) {
            assert(content.last() == '\n') by {
                assert(content.skip(content.len() - 1)[0] == content.last());
            }
            let before = text::split(content.drop_last(), '\n');
            assert(pieces.last() == Seq::<char>::empty());
        }
    }
}

proof fn lemma_split_joined(a: Seq<char>, b: Seq<char>, sep: char)
    ensures
        text::split(a.push(sep) + b, sep) == text::split(a, sep) + text::split(b, sep),
    decreases b.len(),
{
    let whole = a.push(sep) + b;
    if b.len() == 0 {
        assert(whole =~= a.push(sep));
        assert(whole.drop_last() =~= a);
        assert(text::split(b, sep) =~= seq![Seq::<char>::empty()]);
        assert(text::split(whole, sep) =~= text::split(a, sep) + text::split(b, sep));
    } else {
        let init = b.drop_last();
        lemma_split_joined(a, init, sep);
        text::lemma_split_nonempty(init, sep);
        assert(whole.drop_last() =~= a.push(sep) + init);
        assert(whole.last() == b.last());
        assert(text::split(whole, sep) =~= text::split(a, sep) + text::split(b, sep));
    }
}

/// The last lines of a log are shown: where a log ends with a text of `n` lines, those `n` lines are
/// shown, as they are, and nothing of what stands before them.
pub proof fn last_lines_are_shown(before: Seq<char>, end: Seq<char>, n: u64)
    requires
        !end.contains('\r'),
        end != "\n"@,
        end.len() > 0,
        lines(end).len() == n,
    ensures
        tail(before.push('\n') + end, n) == end,
{
    reveal_strlit("\n");
    let content = before.push('\n') + end;
    lemma_split_joined(before, end, '\n');
    text::lemma_split_nonempty(before, '\n');
    text::lemma_split_nonempty(end, '\n');
    let a = text::split(before, '\n');
    let b = text::split(end, '\n');
    let all = lines(content);
    let own = lines(end);
    assert((a + b).last() == b.last());
    assert(all.skip(all.len() - n) =~= own);
    assert(last_of(all, n) =~= own);
    assert(last_of(own, n) =~= own);
    assert(content.skip(content.len() - 1) =~= end.skip(end.len() - 1));
    assert(text::ends_with(content, "\n"@) == text::ends_with(end, "\n"@));
    whole_text_is_shown(end, n);
}

/// Where only the end of a log was read, this is said first, and all that was read follows; else
/// all is shown, unless fewer lines are asked for.
pub proof fn shown_log_is_the_log(content: Seq<char>)
    ensures
        first_view(content, false, None) == content,
        text::ends_with(first_view(content, true, None), content),
        content.len() < first_view(content, true, None).len(),
{
    reveal_strlit("[... truncated, showing last 1 MiB ...]\n");
    let s = first_view(content, true, None);
    assert(s.skip(s.len() - content.len()) =~= content);
}

/// A log that is gone ends the following, and one that cannot be read fails it; while nothing is
/// added, nothing is passed on.
pub proof fn following_ends_with_the_log(offset: u64)
    ensures
        follow_action(offset, FollowEvent::NoLength(FileFault::Missing)) == FollowAction::End,
        follow_action(offset, FollowEvent::NotOpened(FileFault::Missing)) == FollowAction::End,
        follow_action(offset, FollowEvent::NotRead) == FollowAction::Fail,
        follow_action(offset, FollowEvent::NotOpened(FileFault::Other)) == FollowAction::Fail,
        follow_action(offset, FollowEvent::NoLength(FileFault::Other)) == FollowAction::Wait,
        follow_action(offset, FollowEvent::Length(offset)) == FollowAction::Wait,
        offset_after(offset, FollowEvent::Length(offset)) == offset,
{
}

} // verus!
