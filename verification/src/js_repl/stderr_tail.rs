//! The last lines that a kernel wrote to its error stream.

use vstd::prelude::*;

use std::collections::VecDeque;

use crate::bytes::byte_len;
use crate::bytes::lemma_fitting_shape;
use crate::bytes::lemma_join_size;
use crate::bytes::lemma_prefix_by_bytes;
use crate::bytes::lemma_size_zero;
use crate::bytes::lemma_total_push;
use crate::bytes::prefix_by_bytes;
use crate::bytes::size;
use crate::bytes::total;
use crate::bytes::truncate_utf8_prefix_by_bytes;
use crate::text::join;
use crate::text::joined;
use crate::text::push_text;
use crate::text::texts;

verus! {

/// How many lines are kept.
pub const JS_REPL_STDERR_TAIL_LINE_LIMIT: usize = 20;

/// How many bytes of a line are kept.
pub const JS_REPL_STDERR_TAIL_LINE_MAX_BYTES: usize = 512;

/// How many bytes are kept, separators included.
pub const JS_REPL_STDERR_TAIL_MAX_BYTES: usize = 4096;

/// What stands between two lines.
pub const JS_REPL_STDERR_TAIL_SEPARATOR: &'static str = " | ";

/// Lines as one text.
pub open spec fn tail_text(lines: Seq<Seq<char>>) -> Seq<char> {
    if lines.len() == 0 {
        "<empty>"@
    } else {
        join(lines, JS_REPL_STDERR_TAIL_SEPARATOR@)
    }
}

/// The number of bytes of lines as one text; none for no lines.
pub open spec fn tail_bytes(lines: Seq<Seq<char>>) -> nat {
    if lines.len() == 0 {
        0
    } else {
        (total(lines) + 3 * (lines.len() - 1)) as nat
    }
}

/// The separator takes three bytes.
proof fn lemma_separator()
    ensures
        size(JS_REPL_STDERR_TAIL_SEPARATOR@) == 3,
{
    reveal_strlit(" | ");
    let whole = JS_REPL_STDERR_TAIL_SEPARATOR@;
    assert(whole =~= Seq::<char>::empty().push(' ').push('|').push(' '));
    crate::bytes::lemma_size_push(Seq::<char>::empty(), ' ');
    crate::bytes::lemma_size_push(Seq::<char>::empty().push(' '), '|');
    crate::bytes::lemma_size_push(Seq::<char>::empty().push(' ').push('|'), ' ');
    lemma_size_zero(Seq::<char>::empty());
}

/// The bytes that are counted are those of the text.
pub proof fn lemma_tail_bytes(lines: Seq<Seq<char>>)
    requires
        lines.len() > 0,
    ensures
        size(tail_text(lines)) == tail_bytes(lines),
{
    lemma_separator();
    lemma_join_size(lines, JS_REPL_STDERR_TAIL_SEPARATOR@);
}

/// One more line takes its own bytes more, and those of a separator.
proof fn lemma_tail_push(lines: Seq<Seq<char>>, line: Seq<char>)
    ensures
        tail_bytes(lines.push(line)) == (if lines.len() == 0 {
            size(line)
        } else {
            tail_bytes(lines) + 3 + size(line)
        }),
{
    lemma_total_push(lines, line);
    if lines.len() == 0 {
        assert(total(lines) == 0);
    }
}

/// Lines as one text.
pub fn format_stderr_tail(lines: &VecDeque<String>) -> (text: String)
    ensures
        text@ == tail_text(texts(lines@)),
{
    if lines.len() == 0 {
        return "<empty>".to_owned();
    }
    let mut parts: Vec<String> = Vec::new();
    let mut at: usize = 0;
    assert(texts(parts@) =~= texts(lines@).take(0));
    while at < lines.len()
        invariant
            at <= lines@.len(),
            texts(parts@) == texts(lines@).take(at as int),
        decreases lines@.len() - at,
    {
        push_text(&mut parts, lines[at].clone());
        assert(texts(lines@).take(at + 1) =~= texts(lines@).take(at as int).push(
            lines@[at as int]@,
        ));
        at += 1;
    }
    assert(texts(lines@).take(at as int) =~= texts(lines@));
    joined(&parts, JS_REPL_STDERR_TAIL_SEPARATOR)
}

/// The number of bytes of lines as one text; none for no lines.
pub fn stderr_tail_formatted_bytes(lines: &VecDeque<String>) -> (bytes: usize)
    requires
        tail_bytes(texts(lines@)) <= usize::MAX,
    ensures
        bytes == tail_bytes(texts(lines@)),
{
    let ghost all = texts(lines@);
    let mut bytes: usize = 0;
    let mut at: usize = 0;
    assert(all.take(0) =~= Seq::<Seq<char>>::empty());
    while at < lines.len()
        invariant
            all == texts(lines@),
            at <= lines@.len(),
            tail_bytes(all) <= usize::MAX,
            bytes == tail_bytes(all.take(at as int)),
        decreases lines@.len() - at,
    {
        proof {
            assert(all.take(at + 1) =~= all.take(at as int).push(all[at as int]));
            lemma_tail_push(all.take(at as int), all[at as int]);
            lemma_tail_grows(all, at + 1);
        }
        if at > 0 {
            bytes = bytes + 3;
        }
        bytes = bytes + byte_len(lines[at].as_str());
        at += 1;
    }
    assert(all.take(at as int) =~= all);
    bytes
}

/// The first lines take no more bytes than all.
proof fn lemma_tail_grows(lines: Seq<Seq<char>>, count: int)
    requires
        0 <= count <= lines.len(),
    ensures
        tail_bytes(lines.take(count)) <= tail_bytes(lines),
    decreases lines.len() - count,
{
    if count < lines.len() {
        assert(lines.take(count + 1) =~= lines.take(count).push(lines[count]));
        lemma_tail_push(lines.take(count), lines[count]);
        lemma_tail_grows(lines, count + 1);
    } else {
        assert(lines.take(count) =~= lines);
    }
}

/// The number of bytes of lines and one more as one text.
pub fn stderr_tail_bytes_with_candidate(lines: &VecDeque<String>, line: &str) -> (bytes: usize)
    requires
        tail_bytes(texts(lines@).push(line@)) <= usize::MAX,
    ensures
        bytes == tail_bytes(texts(lines@).push(line@)),
{
    proof {
        lemma_tail_push(texts(lines@), line@);
    }
    if lines.len() == 0 {
        return byte_len(line);
    }
    stderr_tail_formatted_bytes(lines) + 3 + byte_len(line)
}

/// What is left of lines when room has been made for one more.
pub open spec fn tail_room(lines: Seq<Seq<char>>, line: Seq<char>) -> Seq<Seq<char>>
    decreases lines.len(),
{
    if lines.len() > 0 && (lines.len() >= JS_REPL_STDERR_TAIL_LINE_LIMIT || tail_bytes(
        lines.push(line),
    ) > JS_REPL_STDERR_TAIL_MAX_BYTES) {
        tail_room(lines.drop_first(), line)
    } else {
        lines
    }
}

/// What is kept of a line.
pub open spec fn bounded_line(line: Seq<char>) -> Seq<char> {
    prefix_by_bytes(line, JS_REPL_STDERR_TAIL_LINE_MAX_BYTES as nat)
}

/// The lines that are kept after one more was written.
pub open spec fn tail_after(lines: Seq<Seq<char>>, line: Seq<char>) -> Seq<Seq<char>> {
    if bounded_line(line).len() == 0 {
        lines
    } else {
        tail_room(lines, bounded_line(line)).push(bounded_line(line))
    }
}

/// Keeps one more line, in place of the oldest where there is no room; what is kept of it is
/// handed back.
pub fn push_stderr_tail_line(lines: &mut VecDeque<String>, line: &str) -> (kept: String)
    requires
        tail_bytes(texts(old(lines)@)) + 3 + JS_REPL_STDERR_TAIL_LINE_MAX_BYTES <= usize::MAX,
    ensures
        kept@ == bounded_line(line@),
        texts(final(lines)@) == tail_after(texts(old(lines)@), line@),
{
    let kept = truncate_utf8_prefix_by_bytes(line, JS_REPL_STDERR_TAIL_LINE_MAX_BYTES);
    proof {
        lemma_size_zero(kept@);
        lemma_bounded_line(line@);
    }
    if byte_len(kept.as_str()) == 0 {
        return kept;
    }
    let ghost before = texts(lines@);
    proof {
        lemma_tail_push(before, kept@);
    }
    while lines.len() > 0 && (lines.len() >= JS_REPL_STDERR_TAIL_LINE_LIMIT
        || stderr_tail_bytes_with_candidate(lines, kept.as_str()) > JS_REPL_STDERR_TAIL_MAX_BYTES)
        invariant
            tail_bytes(texts(lines@).push(kept@)) <= usize::MAX,
            tail_room(before, kept@) == tail_room(texts(lines@), kept@),
        decreases lines@.len(),
    {
        let ghost here = texts(lines@);
        proof {
            assert(here.push(kept@).drop_first() =~= here.drop_first().push(kept@));
            lemma_tail_push(here, kept@);
            lemma_tail_push(here.drop_first(), kept@);
        }
        lines.pop_front();
        assert(texts(lines@) =~= here.drop_first());
    }
    let ghost room = texts(lines@);
    lines.push_back(kept.clone());
    assert(texts(lines@) =~= room.push(kept@));
    kept
}

/// What is kept of a line takes no more than its share.
proof fn lemma_bounded_line(line: Seq<char>)
    ensures
        size(bounded_line(line)) <= JS_REPL_STDERR_TAIL_LINE_MAX_BYTES,
{
    lemma_fitting_shape(line, JS_REPL_STDERR_TAIL_LINE_MAX_BYTES as nat);
}

/// Whether lines keep to the limits on their number, their own bytes, and the bytes of all.
pub open spec fn tail_bounded(lines: Seq<Seq<char>>) -> bool {
    &&& lines.len() <= JS_REPL_STDERR_TAIL_LINE_LIMIT
    &&& tail_bytes(lines) <= JS_REPL_STDERR_TAIL_MAX_BYTES
    &&& forall|i: int|
        0 <= i < lines.len() ==> size(#[trigger] lines[i]) <= JS_REPL_STDERR_TAIL_LINE_MAX_BYTES
}

/// Lines that keep to the limits still do after one more was written, and the newest is what was
/// kept of it.
pub proof fn lemma_tail_bounded(lines: Seq<Seq<char>>, line: Seq<char>)
    requires
        tail_bounded(lines),
    ensures
        tail_bounded(tail_after(lines, line)),
        bounded_line(line).len() > 0 ==> tail_after(lines, line).last() == bounded_line(line),
{
    let kept = bounded_line(line);
    lemma_bounded_line(line);
    if kept.len() > 0 {
        lemma_tail_room(lines, kept);
        let room = tail_room(lines, kept);
        let after = room.push(kept);
        assert forall|i: int| 0 <= i < after.len() implies size(#[trigger] after[i])
            <= JS_REPL_STDERR_TAIL_LINE_MAX_BYTES by {
            if i < room.len() {
                assert(after[i] == room[i]);
            }
        }
    }
}

/// Where room has been made, one more line fits.
proof fn lemma_tail_room(lines: Seq<Seq<char>>, line: Seq<char>)
    requires
        size(line) <= JS_REPL_STDERR_TAIL_LINE_MAX_BYTES,
        forall|i: int|
            0 <= i < lines.len() ==> size(#[trigger] lines[i])
                <= JS_REPL_STDERR_TAIL_LINE_MAX_BYTES,
    ensures
        tail_room(lines, line).len() < JS_REPL_STDERR_TAIL_LINE_LIMIT,
        tail_bytes(tail_room(lines, line).push(line)) <= JS_REPL_STDERR_TAIL_MAX_BYTES,
        forall|i: int|
            0 <= i < tail_room(lines, line).len() ==> size(#[trigger] tail_room(lines, line)[i])
                <= JS_REPL_STDERR_TAIL_LINE_MAX_BYTES,
    decreases lines.len(),
{
    lemma_tail_push(lines, line);
    if lines.len() > 0 && (lines.len() >= JS_REPL_STDERR_TAIL_LINE_LIMIT || tail_bytes(
        lines.push(line),
    ) > JS_REPL_STDERR_TAIL_MAX_BYTES) {
        lemma_tail_room(lines.drop_first(), line);
    }
}

/// After one more line, the kept lines are the newest of those before, in order, and what was kept
/// of it behind them. None is dropped where all fit; and where some are, one fewer would be too
/// many. A blank line changes nothing.
pub proof fn lemma_tail_after(lines: Seq<Seq<char>>, line: Seq<char>)
    ensures
        ({
            let kept = bounded_line(line);
            let after = tail_after(lines, line);
            let dropped = lines.len() + 1 - after.len();
            &&& line.len() == 0 ==> after == lines
            &&& kept.len() > 0 ==> {
                &&& 0 <= dropped <= lines.len()
                &&& after == lines.skip(dropped).push(kept)
                &&& lines.len() < 20 && tail_bytes(lines.push(kept))
                    <= 4096 ==> after == lines.push(kept)
                &&& dropped > 0 ==> lines.skip(dropped - 1).len() >= 20
                    || tail_bytes(lines.skip(dropped - 1).push(kept))
                    > 4096
            }
        }),
{
    let kept = bounded_line(line);
    lemma_fitting_shape(line, JS_REPL_STDERR_TAIL_LINE_MAX_BYTES as nat);
    if kept.len() > 0 {
        lemma_tail_room_newest(lines, kept);
    }
}

/// What is kept of a line: its beginning, and all of it where it takes no more than its share.
pub proof fn lemma_line_kept(line: Seq<char>)
    ensures
        bounded_line(line) == line.take(bounded_line(line).len() as int),
        bounded_line(line).len() <= line.len(),
        size(bounded_line(line)) <= 512,
        size(line) <= 512 ==> bounded_line(line) == line,
        bounded_line(line).len() < line.len() ==> size(
            line.take(bounded_line(line).len() as int + 1),
        ) > 512,
{
    lemma_prefix_by_bytes(line, JS_REPL_STDERR_TAIL_LINE_MAX_BYTES as nat);
}

/// Room is made by dropping the oldest lines, and no more of them than has to be.
proof fn lemma_tail_room_newest(lines: Seq<Seq<char>>, line: Seq<char>)
    ensures
        ({
            let room = tail_room(lines, line);
            let dropped = lines.len() - room.len();
            &&& 0 <= dropped
            &&& room == lines.skip(dropped)
            &&& dropped > 0 ==> lines.skip(dropped - 1).len() >= JS_REPL_STDERR_TAIL_LINE_LIMIT
                || tail_bytes(lines.skip(dropped - 1).push(line)) > JS_REPL_STDERR_TAIL_MAX_BYTES
        }),
    decreases lines.len(),
{
    if lines.len() > 0 && (lines.len() >= JS_REPL_STDERR_TAIL_LINE_LIMIT || tail_bytes(
        lines.push(line),
    ) > JS_REPL_STDERR_TAIL_MAX_BYTES) {
        let rest = lines.drop_first();
        lemma_tail_room_newest(rest, line);
        let room = tail_room(lines, line);
        let dropped = lines.len() - room.len();
        assert(rest.skip(dropped - 1) =~= lines.skip(dropped));
        if dropped > 1 {
            assert(rest.skip(dropped - 2) =~= lines.skip(dropped - 1));
        } else {
            assert(lines.skip(0) =~= lines);
        }
    } else {
        assert(lines.skip(0) =~= lines);
    }
}

/// The lines as one text: each of them, in order, with the separator between two; and a word that
/// says so where there are none.
pub proof fn lemma_tail_text(lines: Seq<Seq<char>>, line: Seq<char>)
    ensures
        tail_text(Seq::<Seq<char>>::empty()) == "<empty>"@,
        tail_text(seq![line]) == line,
        lines.len() > 0 ==> tail_text(lines.push(line)) == tail_text(lines) + " | "@ + line,
{
    assert(lines.push(line).drop_last() =~= lines);
}

} // verus!
