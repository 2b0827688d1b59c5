//! What code that runs in the background has put out so far.

use vstd::prelude::*;

use std::collections::VecDeque;

use crate::bytes::byte_len;
use crate::bytes::byte_strings;
use crate::bytes::chunks;
use crate::bytes::encoded;
use crate::bytes::lemma_chunks;
use crate::bytes::lemma_join_size;
use crate::bytes::lemma_size_bound;
use crate::bytes::lemma_size_push;
use crate::bytes::lemma_size_zero;
use crate::bytes::lemma_total_push;
use crate::bytes::size;
use crate::bytes::split_utf8_chunks_with_limits;
use crate::bytes::total;
use crate::text::copy_opt;
use crate::text::join;
use crate::text::joined;
use crate::text::opt_text;
use crate::text::push_text;
use crate::text::same_text;
use crate::text::texts;

verus! {

/// How many bytes of lines are kept for the next poll.
pub const JS_REPL_POLL_LOG_QUEUE_MAX_BYTES: usize = 65536;

/// How many bytes of lines are kept in all.
pub const JS_REPL_POLL_ALL_LOGS_MAX_BYTES: usize = 1048576;

/// How many bytes a piece of output holds.
pub const JS_REPL_OUTPUT_DELTA_MAX_BYTES: usize = 8192;

/// How many pieces of output a call sends.
pub const MAX_EXEC_OUTPUT_DELTAS_PER_CALL: usize = 10000;

/// What stands in front where lines for the next poll were left out.
pub const JS_REPL_POLL_LOGS_TRUNCATED_MARKER: &'static str =
    "[js_repl logs truncated; poll more frequently for complete streaming logs]";

/// What stands at the end where lines were left out.
pub const JS_REPL_POLL_ALL_LOGS_TRUNCATED_MARKER: &'static str =
    "[js_repl logs truncated; output exceeds byte limit]";

/// How code came to an end.
#[derive(Clone, Copy, Debug, PartialEq, Eq, Structural)]
pub enum ExecTerminalKind {
    /// The code did what it should.
    Success,
    /// The code failed.
    Error,
    /// The kernel ended.
    KernelExit,
    /// The code was called off.
    Cancelled,
}

/// What is told when code came to an end.
#[derive(Clone, Debug, PartialEq, Eq)]
pub struct ExecCompletionEvent {
    /// The call that the code belongs to.
    pub event_call_id: String,
    /// What the code put out.
    pub output: String,
    /// What went wrong.
    pub error: Option<String>,
    /// How long the code ran, in nanoseconds.
    pub duration: u64,
    /// Whether the code ran for too long.
    pub timed_out: bool,
}

/// What is told when code came to an end, with texts as characters.
pub struct CompletionView {
    /// The call that the code belongs to.
    pub event_call_id: Seq<char>,
    /// What the code put out.
    pub output: Seq<char>,
    /// What went wrong.
    pub error: Option<Seq<char>>,
    /// How long the code ran, in nanoseconds.
    pub duration: nat,
    /// Whether the code ran for too long.
    pub timed_out: bool,
}

impl View for ExecCompletionEvent {
    type V = CompletionView;

    open spec fn view(&self) -> CompletionView {
        CompletionView {
            event_call_id: self.event_call_id@,
            output: self.output@,
            error: opt_text(self.error),
            duration: self.duration as nat,
            timed_out: self.timed_out,
        }
    }
}

/// The view of an optional event.
pub open spec fn opt_completion(event: Option<ExecCompletionEvent>) -> Option<CompletionView> {
    match event {
        Some(event) => Some(event@),
        None => None,
    }
}

/// What code has put out so far, and how it stands.
#[derive(Clone, Debug)]
pub struct ExecBuffer {
    /// The call that the code belongs to.
    pub event_call_id: String,
    /// The session in which it runs.
    pub session_id: Option<String>,
    /// The lines for the next poll.
    pub logs: VecDeque<String>,
    /// The bytes of the lines for the next poll.
    pub logs_bytes: usize,
    /// Whether lines for the next poll were left out.
    pub logs_truncated: bool,
    /// All lines.
    pub all_logs: Vec<String>,
    /// The bytes of all lines.
    pub all_logs_bytes: usize,
    /// Whether lines were left out.
    pub all_logs_truncated: bool,
    /// What the code gave back.
    pub output: Option<String>,
    /// What went wrong.
    pub error: Option<String>,
    /// Whether the code came to an end.
    pub done: bool,
    /// Whether the kernel is being ended on purpose.
    pub host_terminating: bool,
    /// How the code came to an end.
    pub terminal_kind: Option<ExecTerminalKind>,
    /// When the code began, in nanoseconds.
    pub started_at: u64,
    /// How many pieces of output were sent.
    pub emitted_deltas: usize,
}

/// What code has put out so far, with texts as characters.
#[verifier::ext_equal]
pub struct BufferView {
    /// The call that the code belongs to.
    pub event_call_id: Seq<char>,
    /// The session in which it runs.
    pub session_id: Option<Seq<char>>,
    /// The lines for the next poll.
    pub logs: Seq<Seq<char>>,
    /// Whether lines for the next poll were left out.
    pub logs_truncated: bool,
    /// All lines.
    pub all_logs: Seq<Seq<char>>,
    /// Whether lines were left out.
    pub all_logs_truncated: bool,
    /// What the code gave back.
    pub output: Option<Seq<char>>,
    /// What went wrong.
    pub error: Option<Seq<char>>,
    /// Whether the code came to an end.
    pub done: bool,
    /// Whether the kernel is being ended on purpose.
    pub host_terminating: bool,
    /// How the code came to an end.
    pub terminal_kind: Option<ExecTerminalKind>,
    /// When the code began, in nanoseconds.
    pub started_at: nat,
    /// How many pieces of output were sent.
    pub emitted_deltas: nat,
}

impl View for ExecBuffer {
    type V = BufferView;

    open spec fn view(&self) -> BufferView {
        BufferView {
            event_call_id: self.event_call_id@,
            session_id: opt_text(self.session_id),
            logs: texts(self.logs@),
            logs_truncated: self.logs_truncated,
            all_logs: texts(self.all_logs@),
            all_logs_truncated: self.all_logs_truncated,
            output: opt_text(self.output),
            error: opt_text(self.error),
            done: self.done,
            host_terminating: self.host_terminating,
            terminal_kind: self.terminal_kind,
            started_at: self.started_at as nat,
            emitted_deltas: self.emitted_deltas as nat,
        }
    }
}

/// The bytes of lines with a line break between them.
pub open spec fn lines_bytes(lines: Seq<Seq<char>>) -> nat {
    if lines.len() == 0 {
        0
    } else {
        (total(lines) + lines.len() - 1) as nat
    }
}

/// The lines that were not left out.
pub open spec fn whole_lines(lines: Seq<Seq<char>>, truncated: bool) -> Seq<Seq<char>> {
    if truncated {
        lines.drop_last()
    } else {
        lines
    }
}

impl ExecBuffer {
    /// Whether the counts are right and the limits kept.
    pub open spec fn wf(&self) -> bool {
        &&& self.logs_bytes == total(texts(self.logs@))
        &&& self.logs_bytes <= JS_REPL_POLL_LOG_QUEUE_MAX_BYTES
        &&& self.logs_truncated ==> texts(self.logs@).len() > 0 && texts(self.logs@)[0]
            == JS_REPL_POLL_LOGS_TRUNCATED_MARKER@
        &&& self.all_logs_truncated ==> texts(self.all_logs@).len() > 0 && texts(
            self.all_logs@,
        ).last() == JS_REPL_POLL_ALL_LOGS_TRUNCATED_MARKER@
        &&& self.all_logs_bytes == lines_bytes(
            whole_lines(texts(self.all_logs@), self.all_logs_truncated),
        )
        &&& self.all_logs_bytes <= JS_REPL_POLL_ALL_LOGS_MAX_BYTES
        &&& self.emitted_deltas <= MAX_EXEC_OUTPUT_DELTAS_PER_CALL
    }
}

/// A buffer with nothing in it.
pub open spec fn fresh_buffer(
    event_call_id: Seq<char>,
    session_id: Option<Seq<char>>,
    now: nat,
) -> BufferView {
    BufferView {
        event_call_id,
        session_id,
        logs: Seq::empty(),
        logs_truncated: false,
        all_logs: Seq::empty(),
        all_logs_truncated: false,
        output: None,
        error: None,
        done: false,
        host_terminating: false,
        terminal_kind: None,
        started_at: now,
        emitted_deltas: 0,
    }
}

// ---------------------------------------------------------------------------------------------
// Lines
// ---------------------------------------------------------------------------------------------

/// The newest lines that take no more than some bytes.
pub open spec fn newest(lines: Seq<Seq<char>>, limit: int) -> Seq<Seq<char>>
    decreases lines.len(),
{
    if lines.len() > 0 && total(lines) > limit {
        newest(lines.drop_first(), limit)
    } else {
        lines
    }
}

/// Whether lines for the next poll are left out after one more.
pub open spec fn queue_truncated(lines: Seq<Seq<char>>, truncated: bool, line: Seq<char>) -> bool {
    truncated || total(lines.push(line)) > JS_REPL_POLL_LOG_QUEUE_MAX_BYTES
}

/// The lines for the next poll after one more: the newest that fit, behind a marker where lines
/// were left out.
pub open spec fn queue_after(lines: Seq<Seq<char>>, truncated: bool, line: Seq<char>) -> Seq<
    Seq<char>,
> {
    let marker = JS_REPL_POLL_LOGS_TRUNCATED_MARKER@;
    let kept = newest(lines.push(line), JS_REPL_POLL_LOG_QUEUE_MAX_BYTES as int);
    if queue_truncated(lines, truncated, line) && (kept.len() == 0 || kept[0] != marker) {
        seq![marker] + newest(kept, JS_REPL_POLL_LOG_QUEUE_MAX_BYTES - size(marker))
    } else {
        kept
    }
}

/// Whether one more line is too much to keep.
pub open spec fn overflows(lines: Seq<Seq<char>>, line: Seq<char>) -> bool {
    lines_bytes(lines.push(line)) > JS_REPL_POLL_ALL_LOGS_MAX_BYTES
}

/// All lines after one more: the first that is too much is left out, and all after it.
pub open spec fn all_after(lines: Seq<Seq<char>>, truncated: bool, line: Seq<char>) -> Seq<
    Seq<char>,
> {
    if truncated {
        lines
    } else if overflows(lines, line) {
        lines.push(JS_REPL_POLL_ALL_LOGS_TRUNCATED_MARKER@)
    } else {
        lines.push(line)
    }
}

/// A buffer after one more line.
pub open spec fn logged(buffer: BufferView, line: Seq<char>) -> BufferView {
    BufferView {
        logs: queue_after(buffer.logs, buffer.logs_truncated, line),
        logs_truncated: queue_truncated(buffer.logs, buffer.logs_truncated, line),
        all_logs: all_after(buffer.all_logs, buffer.all_logs_truncated, line),
        all_logs_truncated: buffer.all_logs_truncated || overflows(buffer.all_logs, line),
        ..buffer
    }
}

/// A buffer whose lines were polled.
pub open spec fn drained(buffer: BufferView) -> BufferView {
    BufferView { logs: Seq::empty(), logs_truncated: false, ..buffer }
}

/// What is shown of what code put out: what it gave back, or else its lines.
pub open spec fn display_text(buffer: BufferView) -> Seq<char> {
    match buffer.output {
        Some(output) => if output.len() > 0 {
            output
        } else {
            join(buffer.all_logs, "\n"@)
        },
        None => join(buffer.all_logs, "\n"@),
    }
}

/// The marker fits among the lines for the next poll.
proof fn lemma_marker_fits()
    ensures
        size(JS_REPL_POLL_LOGS_TRUNCATED_MARKER@) <= 1024,
{
    reveal_strlit("[js_repl logs truncated; poll more frequently for complete streaming logs]");
    lemma_size_bound(JS_REPL_POLL_LOGS_TRUNCATED_MARKER@);
}

/// The newest lines are the last ones, and take no more than the limit.
proof fn lemma_newest(lines: Seq<Seq<char>>, limit: int)
    requires
        limit >= 0,
    ensures
        total(newest(lines, limit)) <= limit,
        newest(lines, limit).len() <= lines.len(),
        newest(lines, limit) == lines.skip(lines.len() - newest(lines, limit).len()),
    decreases lines.len(),
{
    if lines.len() > 0 && total(lines) > limit {
        let rest = lines.drop_first();
        lemma_newest(rest, limit);
        let kept = newest(rest, limit);
        assert(rest.skip(rest.len() - kept.len()) =~= lines.skip(lines.len() - kept.len()));
    } else {
        assert(lines.skip(0) =~= lines);
    }
}

/// The last line is among the newest where it fits by itself.
proof fn lemma_newest_last(lines: Seq<Seq<char>>, limit: int)
    requires
        lines.len() > 0,
        size(lines.last()) <= limit,
    ensures
        newest(lines, limit).len() > 0,
        newest(lines, limit).last() == lines.last(),
    decreases lines.len(),
{
    if total(lines) > limit {
        if lines.len() == 1 {
            assert(lines.drop_first() =~= Seq::<Seq<char>>::empty());
            assert(total(lines.drop_first()) == 0);
        } else {
            assert(lines.drop_first().last() == lines.last());
            lemma_newest_last(lines.drop_first(), limit);
        }
    }
}

/// The newest of the newest.
proof fn lemma_newest_step(lines: Seq<Seq<char>>, limit: int)
    requires
        lines.len() > 0,
        total(lines) > limit,
    ensures
        newest(lines, limit) == newest(lines.drop_first(), limit),
        total(lines.drop_first()) == total(lines) - size(lines[0]),
{
}

/// A line that fits beside the marker is always there for the next poll, behind all lines that
/// are older; where lines were left out, the marker stands in front; and the limit is kept.
pub proof fn lemma_queue_after(lines: Seq<Seq<char>>, truncated: bool, line: Seq<char>)
    requires
        truncated ==> lines.len() > 0 && lines[0] == JS_REPL_POLL_LOGS_TRUNCATED_MARKER@,
    ensures
        total(queue_after(lines, truncated, line)) <= JS_REPL_POLL_LOG_QUEUE_MAX_BYTES,
        queue_truncated(lines, truncated, line) ==> queue_after(lines, truncated, line).len() > 0
            && queue_after(lines, truncated, line)[0] == JS_REPL_POLL_LOGS_TRUNCATED_MARKER@,
        !queue_truncated(lines, truncated, line) ==> queue_after(lines, truncated, line)
            == lines.push(line),
        size(line) + size(JS_REPL_POLL_LOGS_TRUNCATED_MARKER@) <= JS_REPL_POLL_LOG_QUEUE_MAX_BYTES
            ==> queue_after(lines, truncated, line).last() == line,
{
    let limit = JS_REPL_POLL_LOG_QUEUE_MAX_BYTES as int;
    let marker = JS_REPL_POLL_LOGS_TRUNCATED_MARKER@;
    let pushed = lines.push(line);
    let kept = newest(pushed, limit);
    lemma_marker_fits();
    lemma_newest(pushed, limit);
    if size(line) + size(marker) <= limit {
        lemma_newest_last(pushed, limit);
    }
    if queue_truncated(lines, truncated, line) && (kept.len() == 0 || kept[0] != marker) {
        let rest = newest(kept, limit - size(marker));
        lemma_newest(kept, limit - size(marker));
        let after = seq![marker] + rest;
        assert(after.drop_first() =~= rest);
        assert(after[0] == marker);
        if size(line) + size(marker) <= limit {
            lemma_newest_last(kept, limit - size(marker));
            assert(after.last() == rest.last());
        }
    }
}

/// More lines would not fit.
proof fn lemma_newest_most(lines: Seq<Seq<char>>, limit: int, from: int)
    requires
        0 <= from < lines.len() - newest(lines, limit).len(),
    ensures
        total(lines.skip(from)) > limit,
    decreases lines.len(),
{
    if lines.len() > 0 && total(lines) > limit {
        if from == 0 {
            assert(lines.skip(0) =~= lines);
        } else {
            lemma_newest_most(lines.drop_first(), limit, from - 1);
            assert(lines.drop_first().skip(from - 1) =~= lines.skip(from));
        }
    }
}

/// More lines take more bytes.
proof fn lemma_total_skip(lines: Seq<Seq<char>>, from: int, to: int)
    requires
        0 <= from <= to <= lines.len(),
    ensures
        total(lines.skip(from)) >= total(lines.skip(to)),
    decreases to - from,
{
    if from < to {
        lemma_total_skip(lines, from + 1, to);
        assert(lines.skip(from).drop_first() =~= lines.skip(from + 1));
    }
}

/// A buffer after more lines.
pub open spec fn all_logged(buffer: BufferView, lines: Seq<Seq<char>>) -> BufferView
    decreases lines.len(),
{
    if lines.len() == 0 {
        buffer
    } else {
        logged(all_logged(buffer, lines.drop_last()), lines.last())
    }
}

/// Whether lines from some place on fit behind the marker.
pub open spec fn fits_marked(lines: Seq<Seq<char>>, from: int) -> bool {
    total(lines.skip(from)) + size(JS_REPL_POLL_LOGS_TRUNCATED_MARKER@)
        <= JS_REPL_POLL_LOG_QUEUE_MAX_BYTES
}

/// Whether a queue is the marker and the lines from some place on behind it: all that fit, unless
/// the line in front of them is what the marker says and stands for it.
pub open spec fn is_marked_tail(queue: Seq<Seq<char>>, lines: Seq<Seq<char>>, from: int) -> bool {
    &&& 0 < from <= lines.len()
    &&& queue == seq![JS_REPL_POLL_LOGS_TRUNCATED_MARKER@] + lines.skip(from)
    &&& fits_marked(lines, from)
    &&& lines[from - 1] == JS_REPL_POLL_LOGS_TRUNCATED_MARKER@ || forall|earlier: int|
        0 <= earlier < from ==> !#[trigger] fits_marked(lines, earlier)
}

/// The lines for the next poll are all lines since the last one, where they fit, and else the
/// marker and as many of the newest lines as fit behind it.
pub proof fn lemma_queue_since_poll(buffer: BufferView, lines: Seq<Seq<char>>)
    requires
        buffer.logs.len() == 0,
        !buffer.logs_truncated,
    ensures
        ({
            let after = all_logged(buffer, lines);
            let fits = total(lines) <= JS_REPL_POLL_LOG_QUEUE_MAX_BYTES;
            &&& after.logs_truncated == !fits
            &&& fits ==> after.logs == lines
            &&& !fits ==> exists|from: int| is_marked_tail(after.logs, lines, from)
        }),
    decreases lines.len(),
{
    if lines.len() == 0 {
        assert(buffer.logs =~= lines);
    } else {
        let earlier = lines.drop_last();
        let line = lines.last();
        lemma_queue_since_poll(buffer, earlier);
        let before = all_logged(buffer, earlier);
        lemma_total_push(earlier, line);
        assert(earlier.push(line) =~= lines);
        let after = all_logged(buffer, lines);
        let queue = queue_after(before.logs, before.logs_truncated, line);
        assert(after.logs == queue);
        if !before.logs_truncated {
            assert(before.logs.push(line) == lines);
            if total(lines) > JS_REPL_POLL_LOG_QUEUE_MAX_BYTES {
                lemma_queue_cut(before.logs, false, line, lines, 0);
                let to = choose|to: int| is_marked_tail(queue, lines, to);
                assert(is_marked_tail(after.logs, lines, to));
            }
        } else {
            let marker = JS_REPL_POLL_LOGS_TRUNCATED_MARKER@;
            let from = choose|from: int| is_marked_tail(before.logs, earlier, from);
            let pushed = before.logs.push(line);
            assert(earlier.skip(from).push(line) =~= lines.skip(from));
            assert(pushed =~= seq![marker] + lines.skip(from));
            assert(pushed.drop_first() =~= lines.skip(from));
            assert(total(pushed) == size(marker) + total(lines.skip(from)));
            if total(pushed) > JS_REPL_POLL_LOG_QUEUE_MAX_BYTES {
                lemma_queue_cut(before.logs, true, line, lines, from);
                let to = choose|to: int| is_marked_tail(queue, lines, to);
                assert(is_marked_tail(after.logs, lines, to));
            } else {
                assert(queue == pushed);
                assert forall|i: int|
                    0 <= i < from && !fits_marked(earlier, i) implies !#[trigger] fits_marked(
                    lines,
                    i,
                ) by {
                    assert(earlier.skip(i).push(line) =~= lines.skip(i));
                    lemma_total_push(earlier.skip(i), line);
                }
                assert(lines[from - 1] == earlier[from - 1]);
                assert(is_marked_tail(after.logs, lines, from));
            }
        }
    }
}

/// A queue that holds the lines from some place on, behind the marker or not, and is too long by
/// one more.
proof fn lemma_queue_cut(
    queue: Seq<Seq<char>>,
    truncated: bool,
    line: Seq<char>,
    lines: Seq<Seq<char>>,
    from: int,
)
    requires
        0 <= from <= lines.len(),
        lines.len() > 0,
        if truncated {
            queue.push(line) == seq![JS_REPL_POLL_LOGS_TRUNCATED_MARKER@] + lines.skip(from)
        } else {
            from == 0 && queue.push(line) == lines
        },
        total(queue.push(line)) > JS_REPL_POLL_LOG_QUEUE_MAX_BYTES,
    ensures
        exists|to: int| is_marked_tail(queue_after(queue, truncated, line), lines, to),
{
    let limit = JS_REPL_POLL_LOG_QUEUE_MAX_BYTES as int;
    let marker = JS_REPL_POLL_LOGS_TRUNCATED_MARKER@;
    let pushed = queue.push(line);
    let tail = lines.skip(from);
    let after = queue_after(queue, truncated, line);
    lemma_marker_fits();
    if truncated {
        assert(pushed.drop_first() =~= tail);
        assert(pushed[0] == marker);
    } else {
        assert(tail =~= lines);
    }
    assert(total(tail) + size(marker) > limit);
    assert(newest(pushed, limit) == newest(tail, limit));
    let kept = newest(tail, limit);
    let room = limit - size(marker);
    lemma_newest(tail, limit);
    let start = lines.len() - kept.len();
    assert(kept =~= lines.skip(start));
    if kept.len() > 0 && kept[0] == marker {
        let to = start + 1;
        assert(after == kept);
        assert(lines[start] == kept[0]);
        assert(kept.drop_first() =~= lines.skip(to));
        assert(after =~= seq![marker] + lines.skip(to));
        assert(is_marked_tail(after, lines, to));
    } else {
        let rest = newest(kept, room);
        lemma_newest(kept, room);
        let to = lines.len() - rest.len();
        assert(rest =~= lines.skip(to));
        assert(after =~= seq![marker] + lines.skip(to));
        assert forall|i: int| 0 <= i < to implies !#[trigger] fits_marked(lines, i) by {
            if i < from {
                lemma_total_skip(lines, i, from);
            } else if i < start {
                lemma_newest_most(tail, limit, i - from);
                assert(tail.skip(i - from) =~= lines.skip(i));
            } else {
                lemma_newest_most(kept, room, i - start);
                assert(kept.skip(i - start) =~= lines.skip(i));
            }
        }
        if to == 0 {
            assert(lines.skip(0) =~= lines);
            assert(tail =~= lines);
        }
        assert(is_marked_tail(after, lines, to));
    }
}

/// Lines that were kept stay, and once lines were left out nothing changes any more.
pub proof fn lemma_all_after(lines: Seq<Seq<char>>, truncated: bool, line: Seq<char>)
    ensures
        truncated ==> all_after(lines, truncated, line) == lines,
        !truncated ==> all_after(lines, truncated, line).drop_last() == lines,
{
    if !truncated {
        assert(all_after(lines, truncated, line).drop_last() =~= lines);
    }
}

impl ExecBuffer {
    /// A buffer with nothing in it.
    pub fn new(event_call_id: String, session_id: Option<String>, now: u64) -> (buffer: ExecBuffer)
        ensures
            buffer.wf(),
            buffer@ == fresh_buffer(event_call_id@, opt_text(session_id), now as nat),
    {
        let buffer = ExecBuffer {
            event_call_id,
            session_id,
            logs: VecDeque::new(),
            logs_bytes: 0,
            logs_truncated: false,
            all_logs: Vec::new(),
            all_logs_bytes: 0,
            all_logs_truncated: false,
            output: None,
            error: None,
            done: false,
            host_terminating: false,
            terminal_kind: None,
            started_at: now,
            emitted_deltas: 0,
        };
        proof {
            assert(texts(buffer.logs@) =~= Seq::<Seq<char>>::empty());
            assert(texts(buffer.all_logs@) =~= Seq::<Seq<char>>::empty());
        }
        buffer
    }

    /// Takes one more line in.
    #[verifier::rlimit(30)]
    pub fn push_log(&mut self, text: String)
        requires
            old(self).wf(),
        ensures
            final(self).wf(),
            final(self)@ == logged(old(self)@, text@),
    {
        let ghost before = self@;
        let ghost limit = JS_REPL_POLL_LOG_QUEUE_MAX_BYTES as int;
        let ghost pushed = before.logs.push(text@);
        let length = byte_len(text.as_str());
        proof {
            lemma_marker_fits();
            lemma_queue_after(before.logs, before.logs_truncated, text@);
            lemma_total_push(before.logs, text@);
            lemma_newest(pushed, limit);
        }
        self.logs.push_back(text.clone());
        assert(texts(self.logs@) =~= pushed);
        let mut bytes: u128 = self.logs_bytes as u128 + length as u128;
        while bytes > JS_REPL_POLL_LOG_QUEUE_MAX_BYTES as u128
            invariant
                bytes == total(texts(self.logs@)),
                newest(texts(self.logs@), limit) == newest(pushed, limit),
                limit == JS_REPL_POLL_LOG_QUEUE_MAX_BYTES,
                self.logs_truncated == (before.logs_truncated || (texts(self.logs@) != pushed)),
                texts(self.logs@) != pushed ==> total(pushed) > limit,
                texts(self.logs@).len() <= pushed.len(),
                self@ == (BufferView {
                    logs: texts(self.logs@),
                    logs_truncated: self.logs_truncated,
                    ..before
                }),
                self.all_logs_bytes == old(self).all_logs_bytes,
                self.emitted_deltas == old(self).emitted_deltas,
            decreases texts(self.logs@).len(),
        {
            let ghost here = texts(self.logs@);
            proof {
                if here.len() > 0 {
                    lemma_newest_step(here, limit);
                }
            }
            match self.logs.pop_front() {
                Some(removed) => {
                    assert(texts(self.logs@) =~= here.drop_first());
                    assert(here[0] == removed@);
                    bytes = bytes - byte_len(removed.as_str()) as u128;
                    self.logs_truncated = true;
                },
                None => {
                    assert(here.len() == 0);
                },
            }
        }
        let ghost kept = texts(self.logs@);
        assert(kept == newest(pushed, limit));
        let marked = self.logs.len() > 0 && same_text(
            self.logs[0].as_str(),
            JS_REPL_POLL_LOGS_TRUNCATED_MARKER,
        );
        assert(marked == (kept.len() > 0 && kept[0] == JS_REPL_POLL_LOGS_TRUNCATED_MARKER@));
        if self.logs_truncated && !marked {
            let marker_length = byte_len(JS_REPL_POLL_LOGS_TRUNCATED_MARKER);
            let ghost room = limit - marker_length;
            while bytes + marker_length as u128 > JS_REPL_POLL_LOG_QUEUE_MAX_BYTES as u128
                invariant
                    bytes == total(texts(self.logs@)),
                    bytes <= JS_REPL_POLL_LOG_QUEUE_MAX_BYTES,
                    marker_length == size(JS_REPL_POLL_LOGS_TRUNCATED_MARKER@),
                    marker_length <= 1024,
                    room == JS_REPL_POLL_LOG_QUEUE_MAX_BYTES - marker_length,
                    newest(texts(self.logs@), room) == newest(kept, room),
                    self.logs_truncated,
                    self@ == (BufferView {
                        logs: texts(self.logs@),
                        logs_truncated: true,
                        ..before
                    }),
                    self.all_logs_bytes == old(self).all_logs_bytes,
                    self.emitted_deltas == old(self).emitted_deltas,
                decreases texts(self.logs@).len(),
            {
                let ghost here = texts(self.logs@);
                proof {
                    if here.len() > 0 {
                        lemma_newest_step(here, room);
                    }
                }
                match self.logs.pop_front() {
                    Some(removed) => {
                        assert(texts(self.logs@) =~= here.drop_first());
                        assert(here[0] == removed@);
                        bytes = bytes - byte_len(removed.as_str()) as u128;
                    },
                    None => {
                        assert(here.len() == 0);
                    },
                }
            }
            let ghost rest = texts(self.logs@);
            self.logs.push_front(JS_REPL_POLL_LOGS_TRUNCATED_MARKER.to_owned());
            bytes = bytes + marker_length as u128;
            proof {
                let after = seq![JS_REPL_POLL_LOGS_TRUNCATED_MARKER@] + rest;
                assert(texts(self.logs@) =~= after);
                assert(after.drop_first() =~= rest);
            }
        }
        self.logs_bytes = bytes as usize;
        assert(self@.logs == logged(before, text@).logs);
        if self.all_logs_truncated {
            return ;
        }
        let ghost lines = before.all_logs;
        let separator: usize = if self.all_logs.len() == 0 {
            0
        } else {
            1
        };
        let next: u128 = self.all_logs_bytes as u128 + length as u128 + separator as u128;
        proof {
            lemma_total_push(lines, text@);
            assert(next == lines_bytes(lines.push(text@)));
        }
        if next > JS_REPL_POLL_ALL_LOGS_MAX_BYTES as u128 {
            push_text(&mut self.all_logs, JS_REPL_POLL_ALL_LOGS_TRUNCATED_MARKER.to_owned());
            self.all_logs_truncated = true;
            assert(self@.all_logs.drop_last() =~= lines);
            return ;
        }
        push_text(&mut self.all_logs, text);
        self.all_logs_bytes = next as usize;
    }

    /// Hands out the lines for the poll.
    pub fn poll_logs(&mut self) -> (lines: Vec<String>)
        requires
            old(self).wf(),
        ensures
            final(self).wf(),
            texts(lines@) == old(self)@.logs,
            final(self)@ == drained(old(self)@),
    {
        let mut lines: Vec<String> = Vec::new();
        let mut at: usize = 0;
        assert(texts(lines@) =~= texts(self.logs@).take(0));
        while at < self.logs.len()
            invariant
                *self == *old(self),
                at <= self.logs@.len(),
                texts(lines@) == texts(self.logs@).take(at as int),
            decreases self.logs@.len() - at,
        {
            push_text(&mut lines, self.logs[at].clone());
            assert(texts(self.logs@).take(at + 1) =~= texts(self.logs@).take(at as int).push(
                self.logs@[at as int]@,
            ));
            at += 1;
        }
        assert(texts(self.logs@).take(at as int) =~= texts(self.logs@));
        self.logs.clear();
        assert(texts(self.logs@) =~= Seq::<Seq<char>>::empty());
        self.logs_bytes = 0;
        self.logs_truncated = false;
        lines
    }

    /// What is shown of what the code put out.
    pub fn display_output(&self) -> (text: String)
        ensures
            text@ == display_text(self@),
    {
        match &self.output {
            Some(output) => if same_text(output.as_str(), "") {
                proof {
                    reveal_strlit("");
                }
                joined(&self.all_logs, "\n")
            } else {
                proof {
                    reveal_strlit("");
                    assert(output@.len() == 0 ==> output@ =~= ""@);
                }
                output.clone()
            },
            None => joined(&self.all_logs, "\n"),
        }
    }

    /// The pieces in which a line is sent on: none once as many as allowed were sent.
    pub fn output_delta_chunks_for_log_line(&mut self, line: &str) -> (pieces: Vec<Vec<u8>>)
        requires
            old(self).wf(),
        ensures
            final(self).wf(),
            byte_strings(pieces@) == encoded(
                chunks(
                    line@.push('\n'),
                    JS_REPL_OUTPUT_DELTA_MAX_BYTES as nat,
                    (MAX_EXEC_OUTPUT_DELTAS_PER_CALL - old(self).emitted_deltas) as nat,
                ),
            ),
            final(self)@ == (BufferView {
                emitted_deltas: old(self)@.emitted_deltas + pieces@.len(),
                ..old(self)@
            }),
    {
        let mut text = line.to_owned();
        text.push('\n');
        let remaining = MAX_EXEC_OUTPUT_DELTAS_PER_CALL - self.emitted_deltas;
        let pieces = split_utf8_chunks_with_limits(
            text.as_str(),
            JS_REPL_OUTPUT_DELTA_MAX_BYTES,
            remaining,
        );
        proof {
            lemma_chunks(text@, JS_REPL_OUTPUT_DELTA_MAX_BYTES as nat, remaining as nat);
            assert(byte_strings(pieces@).len() == pieces@.len());
        }
        self.emitted_deltas = self.emitted_deltas + pieces.len();
        pieces
    }
}

/// The bytes that are counted are those of the lines as one text.
pub proof fn lemma_lines_bytes(lines: Seq<Seq<char>>)
    requires
        lines.len() > 0,
    ensures
        size(join(lines, "\n"@)) == lines_bytes(lines),
{
    reveal_strlit("\n");
    assert("\n"@ =~= Seq::<char>::empty().push('\n'));
    lemma_size_push(Seq::<char>::empty(), '\n');
    lemma_size_zero(Seq::<char>::empty());
    lemma_join_size(lines, "\n"@);
}

// ---------------------------------------------------------------------------------------------
// Coming to an end
// ---------------------------------------------------------------------------------------------

/// Whether code may come to an end in some way. It does so once, except that calling it off may
/// overrule the end of its kernel; and the end of a kernel that is ended on purpose is none.
pub open spec fn may_complete(
    buffer: BufferView,
    kind: ExecTerminalKind,
    override_kernel_exit: bool,
) -> bool {
    &&& !(kind == ExecTerminalKind::KernelExit && buffer.host_terminating)
    &&& !buffer.done || (override_kernel_exit && buffer.terminal_kind == Some(
        ExecTerminalKind::KernelExit,
    ))
}

/// A buffer whose code came to an end.
pub open spec fn completed(
    buffer: BufferView,
    kind: ExecTerminalKind,
    output: Option<Seq<char>>,
    error: Option<Seq<char>>,
) -> BufferView {
    BufferView {
        done: true,
        host_terminating: false,
        output: if output is Some {
            output
        } else {
            buffer.output
        },
        error,
        terminal_kind: Some(kind),
        ..buffer
    }
}

/// What is told when code came to an end.
pub open spec fn completion(buffer: BufferView, now: nat) -> CompletionView {
    CompletionView {
        event_call_id: buffer.event_call_id,
        output: display_text(buffer),
        error: buffer.error,
        duration: if now >= buffer.started_at {
            (now - buffer.started_at) as nat
        } else {
            0
        },
        timed_out: false,
    }
}

/// Code comes to an end once: after that, nothing but calling it off changes anything, and that
/// only where its kernel had ended.
pub proof fn lemma_completed_once(
    buffer: BufferView,
    kind: ExecTerminalKind,
    output: Option<Seq<char>>,
    error: Option<Seq<char>>,
    again: ExecTerminalKind,
    override_kernel_exit: bool,
)
    ensures
        may_complete(completed(buffer, kind, output, error), again, override_kernel_exit) <==> kind
            == ExecTerminalKind::KernelExit && override_kernel_exit,
{
}

impl ExecBuffer {
    /// Brings the code to an end, where it may come to that; what is told of it is handed back.
    pub fn complete(
        &mut self,
        kind: ExecTerminalKind,
        output: Option<String>,
        error: Option<String>,
        override_kernel_exit: bool,
        now: u64,
    ) -> (event: Option<ExecCompletionEvent>)
        requires
            old(self).wf(),
        ensures
            final(self).wf(),
            if may_complete(old(self)@, kind, override_kernel_exit) {
                &&& final(self)@ == completed(old(self)@, kind, opt_text(output), opt_text(error))
                &&& opt_completion(event) == Some(completion(final(self)@, now as nat))
            } else {
                *final(self) == *old(self) && event is None
            },
    {
        if kind == ExecTerminalKind::KernelExit && self.host_terminating {
            return None;
        }
        let ended_with_kernel = match self.terminal_kind {
            Some(ExecTerminalKind::KernelExit) => true,
            _ => false,
        };
        if self.done && !(override_kernel_exit && ended_with_kernel) {
            return None;
        }
        self.done = true;
        self.host_terminating = false;
        if let Some(output) = output {
            self.output = Some(output);
        }
        self.error = error;
        self.terminal_kind = Some(kind);
        let duration = if now >= self.started_at {
            now - self.started_at
        } else {
            0
        };
        Some(
            ExecCompletionEvent {
                event_call_id: self.event_call_id.clone(),
                output: self.display_output(),
                error: copy_opt(&self.error),
                duration,
                timed_out: false,
            },
        )
    }
}

/// Code that runs comes to an end in whatever way it is told to, unless its kernel ends on purpose;
/// code that came to an end stays as it is, except that calling it off may overrule the end of its
/// kernel. Coming to an end keeps what the code gave back, what went wrong and how it ended as they
/// are told, and leaves the lines, the call and the session alone; where nothing is told of what
/// the code gave back, what there was stays.
pub proof fn lemma_completed(
    buffer: BufferView,
    kind: ExecTerminalKind,
    output: Option<Seq<char>>,
    error: Option<Seq<char>>,
    override_kernel_exit: bool,
)
    ensures
        !buffer.done && kind != ExecTerminalKind::KernelExit ==> may_complete(
            buffer,
            kind,
            override_kernel_exit,
        ),
        !buffer.done && kind == ExecTerminalKind::KernelExit ==> may_complete(
            buffer,
            kind,
            override_kernel_exit,
        ) == !buffer.host_terminating,
        buffer.done && !override_kernel_exit ==> !may_complete(buffer, kind, override_kernel_exit),
        buffer.done && buffer.terminal_kind != Some(ExecTerminalKind::KernelExit) ==> !may_complete(
            buffer,
            kind,
            override_kernel_exit,
        ),
        buffer.done && buffer.terminal_kind == Some(ExecTerminalKind::KernelExit) && kind
            == ExecTerminalKind::Cancelled ==> may_complete(buffer, kind, true),
        ({
            let after = completed(buffer, kind, output, error);
            &&& after.done
            &&& after.terminal_kind == Some(kind)
            &&& after.error == error
            &&& output is Some ==> after.output == output
            &&& output is None ==> after.output == buffer.output
            &&& !after.host_terminating
            &&& after.logs == buffer.logs
            &&& after.logs_truncated == buffer.logs_truncated
            &&& after.all_logs == buffer.all_logs
            &&& after.all_logs_truncated == buffer.all_logs_truncated
            &&& after.event_call_id == buffer.event_call_id
            &&& after.session_id == buffer.session_id
            &&& after.started_at == buffer.started_at
            &&& after.emitted_deltas == buffer.emitted_deltas
        }),
{
}

/// What the user is told when code came to an end: for the call that it belongs to, what it gave
/// back, or all its lines where it gave back nothing; what went wrong; and how long it ran.
pub proof fn lemma_completion_told(buffer: BufferView, now: nat)
    ensures
        ({
            let told = completion(buffer, now);
            &&& told.event_call_id == buffer.event_call_id
            &&& told.error == buffer.error
            &&& buffer.output matches Some(output) ==> output.len() > 0 ==> told.output == output
            &&& buffer.output matches Some(output) ==> output.len() == 0 ==> told.output == join(
                buffer.all_logs,
                "\n"@,
            )
            &&& buffer.output is None ==> told.output == join(buffer.all_logs, "\n"@)
            &&& now >= buffer.started_at ==> told.duration == now - buffer.started_at
            &&& now < buffer.started_at ==> told.duration == 0
            &&& !told.timed_out
        }),
{
}

/// All lines that code put out are kept, in order, as long as they fit as one text.
pub proof fn lemma_all_lines_kept(buffer: BufferView, lines: Seq<Seq<char>>)
    requires
        buffer.all_logs.len() == 0,
        !buffer.all_logs_truncated,
        lines_bytes(lines) <= 1048576,
    ensures
        all_logged(buffer, lines).all_logs == lines,
        !all_logged(buffer, lines).all_logs_truncated,
    decreases lines.len(),
{
    if lines.len() == 0 {
        assert(buffer.all_logs =~= lines);
    } else {
        let earlier = lines.drop_last();
        assert(earlier.push(lines.last()) =~= lines);
        lemma_total_push(earlier, lines.last());
        lemma_all_lines_kept(buffer, earlier);
    }
}

/// The first line that is too much is replaced by the marker, and no later one is kept.
pub proof fn lemma_lines_cut(buffer: BufferView, line: Seq<char>, later: Seq<char>)
    requires
        !buffer.all_logs_truncated,
        lines_bytes(buffer.all_logs.push(line)) > 1048576,
    ensures
        logged(buffer, line).all_logs == buffer.all_logs.push(
            "[js_repl logs truncated; output exceeds byte limit]"@,
        ),
        logged(logged(buffer, line), later).all_logs == logged(buffer, line).all_logs,
{
}

} // verus!
