//! Sizes of texts in UTF-8, and cutting texts at character boundaries.

use vstd::prelude::*;
use vstd::utf8::*;

use crate::text::chars_of;
use crate::text::join;
use crate::text::text_of;

verus! {

/// The number of bytes that a text takes in UTF-8.
pub open spec fn size(text: Seq<char>) -> nat {
    encode_utf8(text).len()
}

/// The number of bytes that a character takes in UTF-8.
pub open spec fn width(ch: char) -> nat {
    if ch <= '\u{7f}' {
        1
    } else if ch <= '\u{7ff}' {
        2
    } else if ch <= '\u{ffff}' {
        3
    } else {
        4
    }
}

/// The number of bytes that a character takes in UTF-8.
pub fn char_width(ch: char) -> (bytes: usize)
    ensures
        bytes == width(ch),
{
    if ch <= '\u{7f}' {
        1
    } else if ch <= '\u{7ff}' {
        2
    } else if ch <= '\u{ffff}' {
        3
    } else {
        4
    }
}

/// The number of bytes that a text takes in UTF-8.
pub fn byte_len(text: &str) -> (bytes: usize)
    ensures
        bytes == size(text@),
{
    text.as_bytes().len()
}

proof fn lemma_encode_char(ch: char)
    ensures
        encode_scalar(ch as u32).len() == width(ch),
{
    char_is_scalar(ch);
}

/// The bytes of a text are those of its parts.
pub proof fn lemma_encode_concat(left: Seq<char>, right: Seq<char>)
    ensures
        encode_utf8(left + right) == encode_utf8(left) + encode_utf8(right),
        size(left + right) == size(left) + size(right),
    decreases left.len(),
{
    if left.len() == 0 {
        assert(left + right =~= right);
        assert(encode_utf8(left) + encode_utf8(right) =~= encode_utf8(right));
    } else {
        lemma_encode_concat(left.drop_first(), right);
        assert((left + right).drop_first() =~= left.drop_first() + right);
        assert(encode_utf8(left + right) =~= encode_utf8(left) + encode_utf8(right));
    }
}

/// One character more takes its width more.
pub proof fn lemma_size_push(text: Seq<char>, ch: char)
    ensures
        size(text.push(ch)) == size(text) + width(ch),
        encode_utf8(text.push(ch)) == encode_utf8(text) + encode_scalar(ch as u32),
{
    let one = seq![ch];
    assert(text.push(ch) =~= text + one);
    lemma_encode_concat(text, one);
    reveal_with_fuel(encode_utf8, 2);
    assert(one.drop_first() =~= Seq::<char>::empty());
    assert(encode_utf8(one) =~= encode_scalar(ch as u32));
    lemma_encode_char(ch);
}

/// A longer prefix takes more bytes.
pub proof fn lemma_size_take(text: Seq<char>, shorter: int, longer: int)
    requires
        0 <= shorter <= longer <= text.len(),
    ensures
        size(text.take(shorter)) <= size(text.take(longer)),
        shorter < longer ==> size(text.take(shorter)) < size(text.take(longer)),
        longer - shorter <= size(text.take(longer)) - size(text.take(shorter)),
    decreases longer - shorter,
{
    if shorter < longer {
        lemma_size_take(text, shorter, longer - 1);
        assert(text.take(longer) =~= text.take(longer - 1).push(text[longer - 1]));
        lemma_size_push(text.take(longer - 1), text[longer - 1]);
    }
}

/// A text with characters takes bytes, one without takes none.
pub proof fn lemma_size_zero(text: Seq<char>)
    ensures
        (size(text) == 0) == (text.len() == 0),
        text.len() <= size(text),
{
    lemma_size_take(text, 0, text.len() as int);
    assert(text.take(text.len() as int) =~= text);
    assert(text.take(0) =~= Seq::<char>::empty());
}

/// The most characters of a text that fit in a number of bytes.
pub open spec fn fitting(text: Seq<char>, max_bytes: nat) -> int
    decreases text.len(),
{
    if size(text) <= max_bytes {
        text.len() as int
    } else {
        fitting(text.drop_last(), max_bytes)
    }
}

/// `count` characters fit, one more does not.
proof fn lemma_fitting(text: Seq<char>, max_bytes: nat, count: int)
    requires
        0 <= count <= text.len(),
        size(text.take(count)) <= max_bytes,
        count < text.len() ==> size(text.take(count + 1)) > max_bytes,
    ensures
        fitting(text, max_bytes) == count,
    decreases text.len(),
{
    assert(text.take(text.len() as int) =~= text);
    if count < text.len() {
        lemma_size_take(text, count + 1, text.len() as int);
        let shorter = text.drop_last();
        assert(shorter.take(count) =~= text.take(count));
        if count < shorter.len() {
            assert(shorter.take(count + 1) =~= text.take(count + 1));
        }
        lemma_fitting(shorter, max_bytes, count);
    }
}

/// What the most characters that fit are.
pub proof fn lemma_fitting_shape(text: Seq<char>, max_bytes: nat)
    ensures
        0 <= fitting(text, max_bytes) <= text.len(),
        size(text.take(fitting(text, max_bytes))) <= max_bytes,
        fitting(text, max_bytes) < text.len() ==> size(
            text.take(fitting(text, max_bytes) + 1),
        ) > max_bytes,
    decreases text.len(),
{
    assert(text.take(text.len() as int) =~= text);
    if size(text) > max_bytes {
        lemma_size_zero(text);
        let shorter = text.drop_last();
        lemma_fitting_shape(shorter, max_bytes);
        let count = fitting(shorter, max_bytes);
        assert(shorter.take(count) =~= text.take(count));
        if count < shorter.len() {
            assert(shorter.take(count + 1) =~= text.take(count + 1));
        }
    }
}

/// The place after the most characters from `from` on that fit in a number of bytes.
fn fit_from(chars: &Vec<char>, from: usize, max_bytes: usize) -> (to: usize)
    requires
        from <= chars@.len(),
    ensures
        from <= to <= chars@.len(),
        to == from + fitting(chars@.skip(from as int), max_bytes as nat),
{
    let ghost rest = chars@.skip(from as int);
    let mut used: usize = 0;
    let mut to: usize = from;
    proof {
        assert(rest.take(0) =~= Seq::<char>::empty());
    }
    while to < chars.len()
        invariant
            from <= to <= chars@.len(),
            rest == chars@.skip(from as int),
            used == size(rest.take(to - from)),
            used <= max_bytes,
        decreases chars@.len() - to,
    {
        let next = char_width(chars[to]);
        proof {
            assert(rest.take(to - from + 1) =~= rest.take(to - from).push(chars@[to as int]));
            lemma_size_push(rest.take(to - from), chars@[to as int]);
        }
        if next > max_bytes - used {
            proof {
                lemma_fitting(rest, max_bytes as nat, to - from);
            }
            return to;
        }
        used += next;
        to += 1;
    }
    proof {
        lemma_fitting(rest, max_bytes as nat, to - from);
    }
    to
}

/// The longest prefix of a text, in whole characters, that fits in a number of bytes.
pub open spec fn prefix_by_bytes(text: Seq<char>, max_bytes: nat) -> Seq<char> {
    text.take(fitting(text, max_bytes))
}

/// The longest prefix of a text, in whole characters, that fits in a number of bytes.
pub fn truncate_utf8_prefix_by_bytes(input: &str, max_bytes: usize) -> (prefix: String)
    ensures
        prefix@ == prefix_by_bytes(input@, max_bytes as nat),
        size(prefix@) <= max_bytes,
        size(input@) <= max_bytes ==> prefix@ == input@,
{
    let chars = chars_of(input);
    let to = fit_from(&chars, 0, max_bytes);
    proof {
        assert(chars@.skip(0) =~= input@);
        lemma_fitting_shape(input@, max_bytes as nat);
        assert(input@.take(input@.len() as int) =~= input@);
        assert(chars@.subrange(0, to as int) =~= input@.take(to as int));
    }
    text_of(&chars, 0, to)
}

/// The number of characters of the next chunk: the most that fit, but at least one.
pub open spec fn chunk_chars(text: Seq<char>, max_bytes: nat) -> int {
    if fitting(text, max_bytes) == 0 && text.len() > 0 {
        1
    } else {
        fitting(text, max_bytes)
    }
}

/// A text cut into chunks from the left, at most `max_chunks` of them.
pub open spec fn chunks(text: Seq<char>, max_bytes: nat, max_chunks: nat) -> Seq<Seq<char>>
    decreases max_chunks,
{
    if text.len() == 0 || max_bytes == 0 || max_chunks == 0 {
        Seq::empty()
    } else {
        let count = chunk_chars(text, max_bytes);
        seq![text.take(count)] + chunks(text.skip(count), max_bytes, (max_chunks - 1) as nat)
    }
}

/// The bytes of each text of a list.
pub open spec fn encoded(parts: Seq<Seq<char>>) -> Seq<Seq<u8>> {
    Seq::new(parts.len(), |i: int| encode_utf8(parts[i]))
}

/// The bytes that a list of byte strings holds.
pub open spec fn byte_strings(items: Seq<Vec<u8>>) -> Seq<Seq<u8>> {
    Seq::new(items.len(), |i: int| items[i]@)
}

/// The texts of a list one after another.
pub open spec fn flat(parts: Seq<Seq<char>>) -> Seq<char>
    decreases parts.len(),
{
    if parts.len() == 0 {
        Seq::empty()
    } else {
        parts[0] + flat(parts.drop_first())
    }
}

proof fn lemma_chunk_chars(text: Seq<char>, max_bytes: nat)
    requires
        text.len() > 0,
    ensures
        0 < chunk_chars(text, max_bytes) <= text.len(),
        size(text.take(chunk_chars(text, max_bytes))) <= max_bytes || chunk_chars(text, max_bytes)
            == 1,
{
    lemma_fitting_shape(text, max_bytes);
}

/// Chunks are prefixes one after another: none is empty, none takes more than the limit unless it
/// is one wide character, there are no more than asked for, together they are a prefix of the
/// text, and the whole text where fewer than the most allowed were cut.
pub proof fn lemma_chunks(text: Seq<char>, max_bytes: nat, max_chunks: nat)
    requires
        max_bytes > 0,
    ensures
        chunks(text, max_bytes, max_chunks).len() <= max_chunks,
        flat(chunks(text, max_bytes, max_chunks)).len() <= text.len(),
        flat(chunks(text, max_bytes, max_chunks)) == text.take(
            flat(chunks(text, max_bytes, max_chunks)).len() as int,
        ),
        chunks(text, max_bytes, max_chunks).len() < max_chunks ==> flat(
            chunks(text, max_bytes, max_chunks),
        ) == text,
        forall|i: int|
            0 <= i < chunks(text, max_bytes, max_chunks).len() ==> {
                let chunk = #[trigger] chunks(text, max_bytes, max_chunks)[i];
                chunk.len() > 0 && (size(chunk) <= max_bytes || chunk.len() == 1)
            },
    decreases max_chunks,
{
    let all = chunks(text, max_bytes, max_chunks);
    if text.len() == 0 || max_chunks == 0 {
        assert(text.take(0) =~= Seq::<char>::empty());
    } else {
        lemma_chunk_chars(text, max_bytes);
        let count = chunk_chars(text, max_bytes);
        let rest = chunks(text.skip(count), max_bytes, (max_chunks - 1) as nat);
        lemma_chunks(text.skip(count), max_bytes, (max_chunks - 1) as nat);
        assert(all[0] == text.take(count));
        assert(all.drop_first() =~= rest);
        let whole = flat(all);
        assert(whole == text.take(count) + flat(rest));
        assert(whole =~= text.take(whole.len() as int));
        if all.len() < max_chunks {
            assert(text.take(count) + text.skip(count) =~= text);
        }
        assert forall|i: int| 0 <= i < all.len() implies ({
            let chunk = #[trigger] all[i];
            chunk.len() > 0 && (size(chunk) <= max_bytes || chunk.len() == 1)
        }) by {
            if i > 0 {
                assert(all[i] == rest[i - 1]);
            }
        }
    }
}

/// The bytes of a text.
fn bytes_of(text: &str) -> (bytes: Vec<u8>)
    ensures
        bytes@ == encode_utf8(text@),
{
    let source = text.as_bytes();
    let mut bytes: Vec<u8> = Vec::new();
    let mut at: usize = 0;
    while at < source.len()
        invariant
            source@ == encode_utf8(text@),
            at <= source@.len(),
            bytes@ == source@.take(at as int),
        decreases source@.len() - at,
    {
        bytes.push(source[at]);
        at += 1;
    }
    bytes
}

/// The bytes of a text cut into chunks from the left. A chunk holds whole characters, as many as
/// fit in `max_bytes` but at least one; at most `max_chunks` chunks are cut.
pub fn split_utf8_chunks_with_limits(input: &str, max_bytes: usize, max_chunks: usize) -> (output:
    Vec<Vec<u8>>)
    ensures
        byte_strings(output@) == encoded(chunks(input@, max_bytes as nat, max_chunks as nat)),
{
    let chars = chars_of(input);
    let mut output: Vec<Vec<u8>> = Vec::new();
    let ghost all = chunks(input@, max_bytes as nat, max_chunks as nat);
    proof {
        assert(chars@.skip(0) =~= input@);
        assert(byte_strings(output@) =~= Seq::<Seq<u8>>::empty());
        assert(byte_strings(output@) + encoded(all) =~= encoded(all));
    }
    if max_bytes == 0 {
        return output;
    }
    let mut start: usize = 0;
    while start < chars.len() && output.len() < max_chunks
        invariant
            chars@ == input@,
            max_bytes > 0,
            start <= chars@.len(),
            output@.len() <= max_chunks,
            byte_strings(output@) + encoded(
                chunks(
                    chars@.skip(start as int),
                    max_bytes as nat,
                    (max_chunks - output@.len()) as nat,
                ),
            ) == encoded(all),
        decreases chars@.len() - start,
    {
        let ghost rest = chars@.skip(start as int);
        let ghost left = (max_chunks - output@.len()) as nat;
        let ghost before = byte_strings(output@);
        let mut end = fit_from(&chars, start, max_bytes);
        proof {
            lemma_chunk_chars(rest, max_bytes as nat);
        }
        if end == start {
            end = start + 1;
        }
        let chunk = text_of(&chars, start, end);
        let bytes = bytes_of(chunk.as_str());
        output.push(bytes);
        proof {
            assert(chunk@ =~= rest.take(end - start));
            assert(rest.skip(end - start) =~= chars@.skip(end as int));
            let tail = chunks(chars@.skip(end as int), max_bytes as nat, (left - 1) as nat);
            assert(chunks(rest, max_bytes as nat, left) == seq![chunk@] + tail);
            assert(encoded(seq![chunk@] + tail) =~= seq![bytes@] + encoded(tail));
            assert(byte_strings(output@) =~= before.push(bytes@));
            assert(before + (seq![bytes@] + encoded(tail)) =~= before.push(bytes@) + encoded(tail));
        }
        start = end;
    }
    proof {
        let tail = chunks(
            chars@.skip(start as int),
            max_bytes as nat,
            (max_chunks - output@.len()) as nat,
        );
        assert(tail.len() == 0);
        assert(byte_strings(output@) + encoded(tail) =~= byte_strings(output@));
    }
    output
}

// ---------------------------------------------------------------------------------------------
// Lists
// ---------------------------------------------------------------------------------------------

/// The number of bytes that the texts of a list take together.
pub open spec fn total(parts: Seq<Seq<char>>) -> nat
    decreases parts.len(),
{
    if parts.len() == 0 {
        0
    } else {
        size(parts[0]) + total(parts.drop_first())
    }
}

/// One more text takes its own bytes more.
pub proof fn lemma_total_push(parts: Seq<Seq<char>>, part: Seq<char>)
    ensures
        total(parts.push(part)) == total(parts) + size(part),
    decreases parts.len(),
{
    let more = parts.push(part);
    if parts.len() == 0 {
        assert(more.drop_first() =~= Seq::<Seq<char>>::empty());
        assert(total(Seq::<Seq<char>>::empty()) == 0);
    } else {
        assert(more.drop_first() =~= parts.drop_first().push(part));
        lemma_total_push(parts.drop_first(), part);
    }
}

/// The bytes of joined texts: their own, and those of the separators.
pub proof fn lemma_join_size(parts: Seq<Seq<char>>, separator: Seq<char>)
    requires
        parts.len() > 0,
    ensures
        size(join(parts, separator)) == total(parts) + size(separator) * (parts.len() - 1),
    decreases parts.len(),
{
    let count = parts.len();
    if count == 1 {
        assert(parts.drop_first() =~= Seq::<Seq<char>>::empty());
        assert(total(parts.drop_first()) == 0);
        assert(size(separator) * 0 == 0) by (nonlinear_arith);
    } else {
        let rest = parts.drop_last();
        lemma_join_size(rest, separator);
        lemma_encode_concat(join(rest, separator), separator);
        lemma_encode_concat(join(rest, separator) + separator, parts.last());
        assert(parts =~= rest.push(parts.last()));
        lemma_total_push(rest, parts.last());
        assert(size(separator) * (count - 2) + size(separator) == size(separator) * (count - 1))
            by (nonlinear_arith);
    }
}

/// A text takes at most four bytes for each character.
pub proof fn lemma_size_bound(text: Seq<char>)
    ensures
        size(text) <= 4 * text.len(),
    decreases text.len(),
{
    if text.len() == 0 {
        lemma_size_zero(text);
    } else {
        lemma_size_bound(text.drop_last());
        lemma_size_push(text.drop_last(), text.last());
        assert(text.drop_last().push(text.last()) =~= text);
    }
}

/// What is kept of a text when it is cut: its beginning, as much of it as fits, and all of it where
/// it fits.
pub proof fn lemma_prefix_by_bytes(text: Seq<char>, max_bytes: nat)
    ensures
        ({
            let kept = prefix_by_bytes(text, max_bytes);
            &&& kept.len() <= text.len()
            &&& kept == text.take(kept.len() as int)
            &&& size(kept) <= max_bytes
            &&& kept.len() < text.len() ==> size(text.take(kept.len() as int + 1)) > max_bytes
            &&& size(text) <= max_bytes <==> kept == text
        }),
{
    lemma_fitting_shape(text, max_bytes);
    assert(text.take(text.len() as int) =~= text);
}

/// Chunks are as long as they can be: with the first character of the next one, a chunk takes too
/// many bytes. A text that fits is one chunk.
pub proof fn lemma_chunks_full(text: Seq<char>, max_bytes: nat, max_chunks: nat, at: int)
    requires
        max_bytes > 0,
        0 <= at < chunks(text, max_bytes, max_chunks).len() - 1,
    ensures
        size(
            chunks(text, max_bytes, max_chunks)[at].push(
                chunks(text, max_bytes, max_chunks)[at + 1][0],
            ),
        ) > max_bytes,
    decreases at,
{
    let count = chunk_chars(text, max_bytes);
    let rest = text.skip(count);
    let fewer = (max_chunks - 1) as nat;
    let all = chunks(text, max_bytes, max_chunks);
    let later = chunks(rest, max_bytes, fewer);
    lemma_chunk_chars(text, max_bytes);
    assert(all =~= seq![text.take(count)] + later);
    if at == 0 {
        lemma_chunk_chars(rest, max_bytes);
        assert(later[0] == rest.take(chunk_chars(rest, max_bytes)));
        assert(later[0][0] == text[count]);
        lemma_fitting_shape(text, max_bytes);
        assert(text.take(count).push(text[count]) =~= text.take(count + 1));
        lemma_size_take(text, fitting(text, max_bytes) + 1, count + 1);
    } else {
        lemma_chunks_full(rest, max_bytes, fewer, at - 1);
        assert(all[at] == later[at - 1]);
        assert(all[at + 1] == later[at]);
    }
}

/// A text that fits is one chunk, where there may be any.
pub proof fn lemma_one_chunk(text: Seq<char>, max_bytes: nat, max_chunks: nat)
    requires
        text.len() > 0,
        size(text) <= max_bytes,
        max_chunks > 0,
    ensures
        chunks(text, max_bytes, max_chunks) == seq![text],
{
    lemma_size_zero(text);
    assert(text.take(text.len() as int) =~= text);
    let rest = text.skip(text.len() as int);
    assert(rest.len() == 0);
    assert(chunks(rest, max_bytes, (max_chunks - 1) as nat).len() == 0);
    assert(chunks(text, max_bytes, max_chunks) =~= seq![text]);
}

} // verus!
