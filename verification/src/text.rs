//! Text as sequences of characters: classes of characters, trimming, searching, splitting and
//! joining.

use vstd::prelude::*;

verus! {

/// `String::push` adds one character at the end.
pub assume_specification[ String::push ](text: &mut String, ch: char)
    ensures
        final(text)@ == old(text)@.push(ch),
;

/// The characters that a list of texts holds, text by text.
pub open spec fn texts(items: Seq<String>) -> Seq<Seq<char>> {
    Seq::new(items.len(), |i: int| items[i]@)
}

/// The characters of an optional text.
pub open spec fn opt_text(item: Option<String>) -> Option<Seq<char>> {
    match item {
        Some(text) => Some(text@),
        None => None,
    }
}

/// The characters of an optional borrowed text.
pub open spec fn opt_str(item: Option<&str>) -> Option<Seq<char>> {
    match item {
        Some(text) => Some(text@),
        None => None,
    }
}

/// The characters of a text, in order.
pub fn chars_of(text: &str) -> (chars: Vec<char>)
    ensures
        chars@ == text@,
{
    let mut chars: Vec<char> = Vec::new();
    for ch in it: text.chars()
        invariant
            chars@ == text@.take(it.index()),
            it.seq() == text@,
    {
        chars.push(ch);
    }
    chars
}

/// The text that a range of characters spells.
pub fn text_of(chars: &Vec<char>, from: usize, to: usize) -> (text: String)
    requires
        from <= to <= chars@.len(),
    ensures
        text@ == chars@.subrange(from as int, to as int),
{
    let mut text = String::new();
    let mut at: usize = from;
    while at < to
        invariant
            from <= at <= to <= chars@.len(),
            text@ == chars@.subrange(from as int, at as int),
        decreases to - at,
    {
        text.push(chars[at]);
        at += 1;
    }
    text
}

/// Whether two texts hold the same characters.
pub fn same_text(left: &str, right: &str) -> (same: bool)
    ensures
        same == (left@ == right@),
{
    let left_chars = chars_of(left);
    let right_chars = chars_of(right);
    if left_chars.len() != right_chars.len() {
        return false;
    }
    let mut at: usize = 0;
    while at < left_chars.len()
        invariant
            left_chars@ == left@,
            right_chars@ == right@,
            left_chars@.len() == right_chars@.len(),
            at <= left_chars@.len(),
            forall|i: int| 0 <= i < at ==> left_chars@[i] == right_chars@[i],
        decreases left_chars@.len() - at,
    {
        if left_chars[at] != right_chars[at] {
            return false;
        }
        at += 1;
    }
    assert(left@ =~= right@);
    true
}

/// Whether a list of texts holds a text.
pub fn holds_text(items: &Vec<String>, text: &str) -> (held: bool)
    ensures
        held == texts(items@).contains(text@),
{
    let mut at: usize = 0;
    while at < items.len()
        invariant
            at <= items@.len(),
            forall|i: int| 0 <= i < at ==> items@[i]@ != text@,
        decreases items@.len() - at,
    {
        if same_text(items[at].as_str(), text) {
            assert(texts(items@)[at as int] == text@);
            return true;
        }
        at += 1;
    }
    assert(!texts(items@).contains(text@)) by {
        if texts(items@).contains(text@) {
            let i = choose|i: int| 0 <= i < items@.len() && texts(items@)[i] == text@;
            assert(items@[i]@ == text@);
        }
    }
    false
}

/// A copy of an optional text.
pub fn copy_opt(item: &Option<String>) -> (copy: Option<String>)
    ensures
        opt_text(copy) == opt_text(*item),
        copy == *item,
{
    match item {
        Some(text) => Some(text.clone()),
        None => None,
    }
}

/// A copy of a list of texts.
pub fn copy_texts(items: &Vec<String>) -> (copy: Vec<String>)
    ensures
        copy@ == items@,
{
    let mut copy: Vec<String> = Vec::new();
    let mut at: usize = 0;
    while at < items.len()
        invariant
            at <= items@.len(),
            copy@ == items@.take(at as int),
        decreases items@.len() - at,
    {
        copy.push(items[at].clone());
        at += 1;
    }
    copy
}

// ---------------------------------------------------------------------------------------------
// Classes of characters
// ---------------------------------------------------------------------------------------------

/// The characters with the Unicode property White_Space.
pub open spec fn is_white(ch: char) -> bool {
    ||| '\u{9}' <= ch <= '\u{d}'
    ||| ch == '\u{20}'
    ||| ch == '\u{85}'
    ||| ch == '\u{a0}'
    ||| ch == '\u{1680}'
    ||| '\u{2000}' <= ch <= '\u{200a}'
    ||| ch == '\u{2028}'
    ||| ch == '\u{2029}'
    ||| ch == '\u{202f}'
    ||| ch == '\u{205f}'
    ||| ch == '\u{3000}'
}

/// Whether a character has the Unicode property White_Space.
pub fn is_whitespace(ch: char) -> (white: bool)
    ensures
        white == is_white(ch),
{
    ('\u{9}' <= ch && ch <= '\u{d}') || ch == '\u{20}' || ch == '\u{85}' || ch == '\u{a0}' || ch
        == '\u{1680}' || ('\u{2000}' <= ch && ch <= '\u{200a}') || ch == '\u{2028}' || ch
        == '\u{2029}' || ch == '\u{202f}' || ch == '\u{205f}' || ch == '\u{3000}'
}

/// The characters of the general category Cc.
pub open spec fn is_control_char(ch: char) -> bool {
    ch <= '\u{1f}' || '\u{7f}' <= ch <= '\u{9f}'
}

/// Whether a character is of the general category Cc.
pub fn is_control(ch: char) -> (control: bool)
    ensures
        control == is_control_char(ch),
{
    ch <= '\u{1f}' || ('\u{7f}' <= ch && ch <= '\u{9f}')
}

/// The decimal digits of ASCII.
pub open spec fn is_digit(ch: char) -> bool {
    '0' <= ch <= '9'
}

/// The letters and decimal digits of ASCII.
pub open spec fn is_alphanumeric(ch: char) -> bool {
    is_digit(ch) || 'a' <= ch <= 'z' || 'A' <= ch <= 'Z'
}

/// Whether a character is a letter or a decimal digit of ASCII.
pub fn is_ascii_alphanumeric(ch: char) -> (alphanumeric: bool)
    ensures
        alphanumeric == is_alphanumeric(ch),
{
    ('0' <= ch && ch <= '9') || ('a' <= ch && ch <= 'z') || ('A' <= ch && ch <= 'Z')
}

/// The small letter for a capital letter of ASCII, any other character itself.
pub open spec fn lower(ch: char) -> char {
    if 'A' <= ch <= 'Z' {
        ((ch as u8) + 32) as u8 as char
    } else {
        ch
    }
}

/// A text with the capital letters of ASCII made small.
pub open spec fn lower_text(text: Seq<char>) -> Seq<char> {
    Seq::new(text.len(), |i: int| lower(text[i]))
}

/// A text with the capital letters of ASCII made small.
pub fn to_ascii_lowercase(text: &str) -> (lowered: String)
    ensures
        lowered@ == lower_text(text@),
{
    let chars = chars_of(text);
    let mut lowered = String::new();
    let mut at: usize = 0;
    while at < chars.len()
        invariant
            chars@ == text@,
            at <= chars@.len(),
            lowered@ == lower_text(text@).take(at as int),
        decreases chars@.len() - at,
    {
        let ch = chars[at];
        if 'A' <= ch && ch <= 'Z' {
            lowered.push((ch as u8 + 32) as char);
        } else {
            lowered.push(ch);
        }
        at += 1;
        assert(lowered@ =~= lower_text(text@).take(at as int));
    }
    assert(lower_text(text@).take(at as int) =~= lower_text(text@));
    lowered
}

// ---------------------------------------------------------------------------------------------
// Trimming
// ---------------------------------------------------------------------------------------------

/// A text without the white space at its start.
pub open spec fn trim_start(text: Seq<char>) -> Seq<char>
    decreases text.len(),
{
    if text.len() > 0 && is_white(text[0]) {
        trim_start(text.drop_first())
    } else {
        text
    }
}

/// A text without the white space at its end.
pub open spec fn trim_end(text: Seq<char>) -> Seq<char>
    decreases text.len(),
{
    if text.len() > 0 && is_white(text.last()) {
        trim_end(text.drop_last())
    } else {
        text
    }
}

/// A text without the white space at either end.
pub open spec fn trim(text: Seq<char>) -> Seq<char> {
    trim_end(trim_start(text))
}

/// A text that holds nothing but white space.
pub open spec fn is_blank(text: Seq<char>) -> bool {
    forall|i: int| 0 <= i < text.len() ==> is_white(#[trigger] text[i])
}

/// White space up to `from`, none at `from`: what is left is `text.skip(from)`.
proof fn lemma_trim_start(text: Seq<char>, from: int)
    requires
        0 <= from <= text.len(),
        forall|i: int| 0 <= i < from ==> is_white(#[trigger] text[i]),
        from < text.len() ==> !is_white(text[from]),
    ensures
        trim_start(text) == text.skip(from),
    decreases from,
{
    if from == 0 {
        assert(text.skip(0) =~= text);
    } else {
        assert(is_white(text[0]));
        let rest = text.drop_first();
        assert forall|i: int| 0 <= i < from - 1 implies is_white(#[trigger] rest[i]) by {
            assert(rest[i] == text[i + 1]);
        }
        lemma_trim_start(rest, from - 1);
        assert(rest.skip(from - 1) =~= text.skip(from));
    }
}

/// White space from `to` on, none before it: what is left is `text.take(to)`.
proof fn lemma_trim_end(text: Seq<char>, to: int)
    requires
        0 <= to <= text.len(),
        forall|i: int| to <= i < text.len() ==> is_white(#[trigger] text[i]),
        to > 0 ==> !is_white(text[to - 1]),
    ensures
        trim_end(text) == text.take(to),
    decreases text.len() - to,
{
    if to == text.len() {
        assert(text.take(to) =~= text);
    } else {
        assert(is_white(text[text.len() - 1]));
        lemma_trim_end(text.drop_last(), to);
        assert(text.drop_last().take(to) =~= text.take(to));
    }
}

/// White space in front is left out at the start.
proof fn lemma_trim_start_blank(before: Seq<char>, text: Seq<char>)
    requires
        is_blank(before),
    ensures
        trim_start(before + text) == trim_start(text),
    decreases before.len(),
{
    if before.len() == 0 {
        assert(before + text =~= text);
    } else {
        let rest = before.drop_first();
        assert(is_white(before[0]));
        assert forall|i: int| 0 <= i < rest.len() implies is_white(#[trigger] rest[i]) by {
            assert(rest[i] == before[i + 1]);
        }
        lemma_trim_start_blank(rest, text);
        assert((before + text).drop_first() =~= rest + text);
    }
}

/// White space behind is left out at the end.
proof fn lemma_trim_end_blank(text: Seq<char>, after: Seq<char>)
    requires
        is_blank(after),
    ensures
        trim_end(text + after) == trim_end(text),
    decreases after.len(),
{
    if after.len() == 0 {
        assert(text + after =~= text);
    } else {
        let rest = after.drop_last();
        assert(is_white(after[after.len() - 1]));
        assert forall|i: int| 0 <= i < rest.len() implies is_white(#[trigger] rest[i]) by {
            assert(rest[i] == after[i]);
        }
        lemma_trim_end_blank(text, rest);
        assert((text + after).drop_last() =~= text + rest);
        assert((text + after).last() == after.last());
    }
}

/// What follows a text that is not blank stays when the start is trimmed.
proof fn lemma_trim_start_front(text: Seq<char>, rest: Seq<char>)
    requires
        !is_blank(text),
    ensures
        trim_start(text + rest) == trim_start(text) + rest,
    decreases text.len(),
{
    let i = choose|i: int| 0 <= i < text.len() && !is_white(#[trigger] text[i]);
    assert((text + rest)[0] == text[0]);
    if is_white(text[0]) {
        let later = text.drop_first();
        assert(later[i - 1] == text[i]);
        lemma_trim_start_front(later, rest);
        assert((text + rest).drop_first() =~= later + rest);
    }
}

/// What stands in front of the end stays when the end is trimmed, where it ends with no white
/// space.
pub proof fn lemma_trim_end_front(front: Seq<char>, rest: Seq<char>)
    requires
        front.len() > 0,
        !is_white(front.last()),
    ensures
        trim_end(front + rest) == front + trim_end(rest),
    decreases rest.len(),
{
    let whole = front + rest;
    if rest.len() == 0 {
        assert(whole =~= front);
        assert(front + trim_end(rest) =~= front);
    } else {
        assert(whole.last() == rest.last());
        if is_white(rest.last()) {
            lemma_trim_end_front(front, rest.drop_last());
            assert(whole.drop_last() =~= front + rest.drop_last());
        }
    }
}

/// White space around a text is left out.
pub proof fn lemma_trim_around(before: Seq<char>, text: Seq<char>, after: Seq<char>)
    requires
        is_blank(before),
        is_blank(after),
    ensures
        trim(before + text + after) == trim(text),
{
    assert(before + text + after =~= before + (text + after));
    lemma_trim_start_blank(before, text + after);
    if is_blank(text) {
        lemma_trim_start_blank(text, after);
        lemma_trim_blank(after);
        lemma_trim_blank(text);
        assert(trim_start(after) =~= trim_start(text));
    } else {
        lemma_trim_start_front(text, after);
        lemma_trim_end_blank(trim_start(text), after);
    }
}

/// Trimming leaves nothing exactly of a blank text.
pub proof fn lemma_trim_blank(text: Seq<char>)
    ensures
        (trim(text).len() == 0) == is_blank(text),
        (trim_start(text).len() == 0) == is_blank(text),
{
    lemma_trim_start_shape(text);
    let from = text.len() - trim_start(text).len();
    let rest = trim_start(text);
    lemma_trim_end_shape(rest);
    if rest.len() == 0 {
        assert forall|i: int| 0 <= i < text.len() implies is_white(#[trigger] text[i]) by {}
    } else {
        assert(rest[0] == text[from]);
        assert(!is_white(text[from]));
        if trim(text).len() == 0 {
            assert(is_white(rest[0]));
        }
    }
}

/// Trimming the start drops a run of white space and stops at the first other character.
pub proof fn lemma_trim_start_shape(text: Seq<char>)
    ensures
        trim_start(text).len() <= text.len(),
        trim_start(text) == text.skip(text.len() - trim_start(text).len()),
        forall|i: int|
            0 <= i < text.len() - trim_start(text).len() ==> is_white(#[trigger] text[i]),
        trim_start(text).len() > 0 ==> !is_white(trim_start(text)[0]),
    decreases text.len(),
{
    if text.len() > 0 && is_white(text[0]) {
        let rest = text.drop_first();
        lemma_trim_start_shape(rest);
        let dropped = text.len() - trim_start(text).len();
        assert(rest.skip(dropped - 1) =~= text.skip(dropped));
        assert forall|i: int| 0 <= i < dropped implies is_white(#[trigger] text[i]) by {
            if i > 0 {
                assert(rest[i - 1] == text[i]);
            }
        }
    } else {
        assert(text.skip(0) =~= text);
    }
}

/// Trimming the end drops a run of white space and stops at the last other character.
pub proof fn lemma_trim_end_shape(text: Seq<char>)
    ensures
        trim_end(text).len() <= text.len(),
        trim_end(text) == text.take(trim_end(text).len() as int),
        forall|i: int| trim_end(text).len() <= i < text.len() ==> is_white(#[trigger] text[i]),
        trim_end(text).len() > 0 ==> !is_white(trim_end(text).last()),
    decreases text.len(),
{
    if text.len() > 0 && is_white(text.last()) {
        let rest = text.drop_last();
        lemma_trim_end_shape(rest);
        assert(rest.take(trim_end(text).len() as int) =~= text.take(trim_end(text).len() as int));
        assert forall|i: int| trim_end(text).len() <= i < text.len() implies is_white(
            #[trigger] text[i],
        ) by {
            if i < text.len() - 1 {
                assert(rest[i] == text[i]);
            }
        }
    } else {
        assert(text.take(text.len() as int) =~= text);
    }
}

/// The first place from `from` on that is not white space, or the end.
fn skip_white(chars: &Vec<char>, from: usize) -> (at: usize)
    requires
        from <= chars@.len(),
    ensures
        from <= at <= chars@.len(),
        forall|i: int| from <= i < at ==> is_white(#[trigger] chars@[i]),
        at < chars@.len() ==> !is_white(chars@[at as int]),
{
    let mut at: usize = from;
    while at < chars.len() && is_whitespace(chars[at])
        invariant
            from <= at <= chars@.len(),
            forall|i: int| from <= i < at ==> is_white(#[trigger] chars@[i]),
        decreases chars@.len() - at,
    {
        at += 1;
    }
    at
}

/// A text without the white space at its start.
pub fn trimmed_start(text: &str) -> (trimmed: String)
    ensures
        trimmed@ == trim_start(text@),
{
    let chars = chars_of(text);
    let from = skip_white(&chars, 0);
    proof {
        lemma_trim_start(text@, from as int);
        assert(text@.skip(from as int) =~= chars@.subrange(from as int, chars@.len() as int));
    }
    text_of(&chars, from, chars.len())
}

/// A text without the white space at either end.
pub fn trimmed(text: &str) -> (trimmed: String)
    ensures
        trimmed@ == trim(text@),
{
    let chars = chars_of(text);
    let from = skip_white(&chars, 0);
    let mut to: usize = chars.len();
    while to > from && is_whitespace(chars[to - 1])
        invariant
            from <= to <= chars@.len(),
            forall|i: int| to <= i < chars@.len() ==> is_white(#[trigger] chars@[i]),
        decreases to - from,
    {
        to -= 1;
    }
    proof {
        lemma_trim_start(text@, from as int);
        let rest = text@.skip(from as int);
        assert forall|i: int| to - from <= i < rest.len() implies is_white(#[trigger] rest[i]) by {
            assert(rest[i] == text@[i + from]);
        }
        lemma_trim_end(rest, to - from);
        assert(rest.take(to - from) =~= chars@.subrange(from as int, to as int));
    }
    text_of(&chars, from, to)
}

/// Whether a text holds nothing but white space.
pub fn blank(text: &str) -> (blank: bool)
    ensures
        blank == is_blank(text@),
        blank == (trim(text@).len() == 0),
{
    proof {
        lemma_trim_blank(text@);
    }
    let chars = chars_of(text);
    skip_white(&chars, 0) == chars.len()
}

// ---------------------------------------------------------------------------------------------
// Searching and splitting
// ---------------------------------------------------------------------------------------------

/// The first place at which a character of a class stands, or the length of the text.
pub open spec fn index_where(text: Seq<char>, class: spec_fn(char) -> bool) -> int
    decreases text.len(),
{
    if text.len() == 0 || class(text[0]) {
        0
    } else {
        1 + index_where(text.drop_first(), class)
    }
}

/// The class that holds one character.
pub open spec fn just(ch: char) -> spec_fn(char) -> bool {
    |other: char| other == ch
}

/// No character of the class before `at`, one there unless the text ends there.
pub proof fn lemma_index_where(text: Seq<char>, class: spec_fn(char) -> bool, at: int)
    requires
        0 <= at <= text.len(),
        forall|i: int| 0 <= i < at ==> !class(#[trigger] text[i]),
        at < text.len() ==> class(text[at]),
    ensures
        index_where(text, class) == at,
    decreases at,
{
    if at > 0 {
        assert(!class(text[0]));
        let rest = text.drop_first();
        assert forall|i: int| 0 <= i < at - 1 implies !class(#[trigger] rest[i]) by {
            assert(rest[i] == text[i + 1]);
        }
        lemma_index_where(rest, class, at - 1);
    }
}

/// What the first place of a class is.
pub proof fn lemma_index_where_shape(text: Seq<char>, class: spec_fn(char) -> bool)
    ensures
        0 <= index_where(text, class) <= text.len(),
        forall|i: int| 0 <= i < index_where(text, class) ==> !class(#[trigger] text[i]),
        index_where(text, class) < text.len() ==> class(text[index_where(text, class)]),
    decreases text.len(),
{
    if text.len() > 0 && !class(text[0]) {
        let rest = text.drop_first();
        lemma_index_where_shape(rest, class);
        assert forall|i: int| 0 <= i < index_where(text, class) implies !class(
            #[trigger] text[i],
        ) by {
            if i > 0 {
                assert(rest[i - 1] == text[i]);
            }
        }
    }
}

/// The first place from `from` on at which a character stands, or the end.
pub fn find_char(chars: &Vec<char>, from: usize, ch: char) -> (at: usize)
    requires
        from <= chars@.len(),
    ensures
        from <= at <= chars@.len(),
        at == from + index_where(chars@.skip(from as int), just(ch)),
{
    let mut at: usize = from;
    while at < chars.len() && chars[at] != ch
        invariant
            from <= at <= chars@.len(),
            forall|i: int| from <= i < at ==> chars@[i] != ch,
        decreases chars@.len() - at,
    {
        at += 1;
    }
    proof {
        let rest = chars@.skip(from as int);
        assert forall|i: int| 0 <= i < at - from implies !just(ch)(#[trigger] rest[i]) by {
            assert(rest[i] == chars@[i + from]);
        }
        lemma_index_where(rest, just(ch), at - from);
    }
    at
}

/// What stands before and after the first occurrence of a character.
pub open spec fn split_once(text: Seq<char>, ch: char) -> Option<(Seq<char>, Seq<char>)> {
    let at = index_where(text, just(ch));
    if at < text.len() {
        Some((text.take(at), text.skip(at + 1)))
    } else {
        None
    }
}

/// What stands before and after the first occurrence of a character.
pub fn split_text_once(text: &str, ch: char) -> (halves: Option<(String, String)>)
    ensures
        match halves {
            Some(pair) => split_once(text@, ch) == Some((pair.0@, pair.1@)),
            None => split_once(text@, ch) is None,
        },
{
    let chars = chars_of(text);
    let at = find_char(&chars, 0, ch);
    proof {
        assert(chars@.skip(0) =~= text@);
    }
    if at < chars.len() {
        let before = text_of(&chars, 0, at);
        let after = text_of(&chars, at + 1, chars.len());
        proof {
            assert(before@ =~= text@.take(at as int));
            assert(after@ =~= text@.skip(at + 1));
        }
        Some((before, after))
    } else {
        None
    }
}

/// The parts of a text between the characters of a class.
pub open spec fn split_where(text: Seq<char>, class: spec_fn(char) -> bool) -> Seq<Seq<char>>
    decreases text.len(),
    via split_where_shrinks
{
    let at = index_where(text, class);
    if at < text.len() {
        seq![text.take(at)] + split_where(text.skip(at + 1), class)
    } else {
        seq![text]
    }
}

#[via_fn]
proof fn split_where_shrinks(text: Seq<char>, class: spec_fn(char) -> bool) {
    lemma_index_where_shape(text, class);
}

/// The parts of a text between the occurrences of a character.
pub fn split_text(text: &str, ch: char) -> (parts: Vec<String>)
    ensures
        texts(parts@) == split_where(text@, just(ch)),
{
    let chars = chars_of(text);
    let mut parts: Vec<String> = Vec::new();
    let mut from: usize = 0;
    proof {
        assert(chars@.skip(0) =~= text@);
        assert(texts(parts@) =~= Seq::<Seq<char>>::empty());
        assert(texts(parts@) + split_where(chars@.skip(0), just(ch)) =~= split_where(
            text@,
            just(ch),
        ));
    }
    loop
        invariant
            from <= chars@.len(),
            texts(parts@) + split_where(chars@.skip(from as int), just(ch)) == split_where(
                text@,
                just(ch),
            ),
        decreases chars@.len() - from,
    {
        let ghost rest = chars@.skip(from as int);
        let ghost before = texts(parts@);
        let at = find_char(&chars, from, ch);
        let part = text_of(&chars, from, at);
        parts.push(part);
        proof {
            assert(texts(parts@) =~= before.push(part@));
            assert(part@ =~= rest.take(at - from));
        }
        if at >= chars.len() {
            proof {
                assert(rest.take(at - from) =~= rest);
                assert(split_where(rest, just(ch)) =~= seq![rest]);
                assert(before + seq![rest] =~= before.push(rest));
            }
            return parts;
        }
        proof {
            let next = chars@.skip(at + 1);
            assert(rest.skip(at - from + 1) =~= next);
            assert(split_where(rest, just(ch)) == seq![part@] + split_where(next, just(ch)));
            assert(before + (seq![part@] + split_where(next, just(ch))) =~= before.push(part@)
                + split_where(next, just(ch)));
        }
        from = at + 1;
    }
}

/// The class of white space.
pub open spec fn white() -> spec_fn(char) -> bool {
    |ch: char| is_white(ch)
}

/// The runs of a text between white space.
pub open spec fn words(text: Seq<char>) -> Seq<Seq<char>>
    decreases text.len(),
    via words_shrinks
{
    let rest = trim_start(text);
    if rest.len() == 0 {
        Seq::empty()
    } else {
        let at = index_where(rest, white());
        seq![rest.take(at)] + words(rest.skip(at))
    }
}

#[via_fn]
proof fn words_shrinks(text: Seq<char>) {
    lemma_trim_start_shape(text);
    let rest = trim_start(text);
    lemma_index_where_shape(rest, white());
    if rest.len() > 0 {
        assert(!is_white(rest[0]));
        assert(index_where(rest, white()) > 0);
    }
}

/// The runs of a text between white space.
pub fn split_whitespace(text: &str) -> (runs: Vec<String>)
    ensures
        texts(runs@) == words(text@),
{
    let chars = chars_of(text);
    let mut runs: Vec<String> = Vec::new();
    let mut from: usize = 0;
    proof {
        assert(chars@.skip(0) =~= text@);
        assert(texts(runs@) =~= Seq::<Seq<char>>::empty());
        assert(texts(runs@) + words(chars@.skip(0)) =~= words(text@));
    }
    loop
        invariant
            from <= chars@.len(),
            texts(runs@) + words(chars@.skip(from as int)) == words(text@),
        decreases chars@.len() - from,
    {
        let ghost rest = chars@.skip(from as int);
        let ghost before = texts(runs@);
        let start = skip_white(&chars, from);
        proof {
            assert forall|i: int| 0 <= i < start - from implies is_white(#[trigger] rest[i]) by {
                assert(rest[i] == chars@[i + from]);
            }
            lemma_trim_start(rest, start - from);
            assert(rest.skip(start - from) =~= chars@.skip(start as int));
        }
        if start >= chars.len() {
            proof {
                assert(words(rest) =~= Seq::<Seq<char>>::empty());
                assert(before + words(rest) =~= before);
            }
            return runs;
        }
        let mut end: usize = start;
        while end < chars.len() && !is_whitespace(chars[end])
            invariant
                start <= end <= chars@.len(),
                forall|i: int| start <= i < end ==> !is_white(#[trigger] chars@[i]),
            decreases chars@.len() - end,
        {
            end += 1;
        }
        let run = text_of(&chars, start, end);
        runs.push(run);
        proof {
            let tail = chars@.skip(start as int);
            assert forall|i: int| 0 <= i < end - start implies !white()(#[trigger] tail[i]) by {
                assert(tail[i] == chars@[i + start]);
            }
            lemma_index_where(tail, white(), end - start);
            assert(run@ =~= tail.take(end - start));
            assert(tail.skip(end - start) =~= chars@.skip(end as int));
            assert(words(rest) == seq![run@] + words(chars@.skip(end as int)));
            assert(texts(runs@) =~= before.push(run@));
            assert(before + words(rest) =~= before.push(run@) + words(chars@.skip(end as int)));
            assert(start < end);
        }
        from = end;
    }
}

/// Whether a text begins with another.
pub open spec fn starts(text: Seq<char>, prefix: Seq<char>) -> bool {
    prefix.len() <= text.len() && text.take(prefix.len() as int) == prefix
}

/// What follows a prefix that a text begins with.
pub open spec fn strip(text: Seq<char>, prefix: Seq<char>) -> Option<Seq<char>> {
    if starts(text, prefix) {
        Some(text.skip(prefix.len() as int))
    } else {
        None
    }
}

/// Whether the characters at a place are those of another text.
fn matches_at(chars: &Vec<char>, at: usize, needle: &Vec<char>) -> (matched: bool)
    requires
        at <= chars@.len(),
    ensures
        matched == starts(chars@.skip(at as int), needle@),
{
    if chars.len() - at < needle.len() {
        return false;
    }
    let mut i: usize = 0;
    while i < needle.len()
        invariant
            i <= needle@.len(),
            at + needle@.len() <= chars.len(),
            forall|j: int| 0 <= j < i ==> chars@[at + j] == needle@[j],
        decreases needle@.len() - i,
    {
        if chars[at + i] != needle[i] {
            assert(chars@.skip(at as int).take(needle@.len() as int)[i as int] != needle@[i as int]);
            return false;
        }
        i += 1;
    }
    assert(chars@.skip(at as int).take(needle@.len() as int) =~= needle@);
    true
}

/// Whether a text begins with another.
pub fn starts_with(text: &str, prefix: &str) -> (begins: bool)
    ensures
        begins == starts(text@, prefix@),
{
    let chars = chars_of(text);
    let needle = chars_of(prefix);
    proof {
        assert(chars@.skip(0) =~= text@);
    }
    matches_at(&chars, 0, &needle)
}

/// What follows a prefix that a text begins with.
pub fn strip_prefix(text: &str, prefix: &str) -> (rest: Option<String>)
    ensures
        opt_text(rest) == strip(text@, prefix@),
{
    let chars = chars_of(text);
    let needle = chars_of(prefix);
    proof {
        assert(chars@.skip(0) =~= text@);
    }
    if matches_at(&chars, 0, &needle) {
        let rest = text_of(&chars, needle.len(), chars.len());
        assert(rest@ =~= text@.skip(needle@.len() as int));
        Some(rest)
    } else {
        None
    }
}

/// The first place at which another text stands.
pub open spec fn find_text(text: Seq<char>, needle: Seq<char>) -> Option<int>
    decreases text.len(),
{
    if starts(text, needle) {
        Some(0int)
    } else if text.len() == 0 {
        None
    } else {
        match find_text(text.drop_first(), needle) {
            Some(at) => Some(at + 1),
            None => None,
        }
    }
}

/// What the first place of another text is.
pub proof fn lemma_find_text_shape(text: Seq<char>, needle: Seq<char>)
    ensures
        match find_text(text, needle) {
            Some(at) => {
                &&& 0 <= at <= text.len() - needle.len()
                &&& text.subrange(at, at + needle.len()) == needle
            },
            None => forall|at: int|
                0 <= at <= text.len() - needle.len() ==> #[trigger] text.subrange(
                    at,
                    at + needle.len(),
                ) != needle,
        },
    decreases text.len(),
{
    if starts(text, needle) {
        assert(text.subrange(0, needle.len() as int) =~= text.take(needle.len() as int));
    } else if text.len() > 0 {
        let rest = text.drop_first();
        lemma_find_text_shape(rest, needle);
        match find_text(rest, needle) {
            Some(at) => {
                assert(text.subrange(at + 1, at + 1 + needle.len()) =~= rest.subrange(
                    at,
                    at + needle.len(),
                ));
            },
            None => {
                assert forall|at: int|
                    0 <= at <= text.len() - needle.len() implies #[trigger] text.subrange(
                    at,
                    at + needle.len(),
                ) != needle by {
                    if at == 0 {
                        assert(text.subrange(0, needle.len() as int) =~= text.take(
                            needle.len() as int,
                        ));
                    } else {
                        assert(text.subrange(at, at + needle.len()) =~= rest.subrange(
                            at - 1,
                            at - 1 + needle.len(),
                        ));
                    }
                }
            },
        }
    } else {
        assert forall|at: int|
            0 <= at <= text.len() - needle.len() implies #[trigger] text.subrange(
            at,
            at + needle.len(),
        ) != needle by {
            assert(text.subrange(0, 0) =~= text.take(0));
        }
    }
}

/// The first place at which another text stands.
pub fn find(chars: &Vec<char>, needle: &str) -> (place: Option<usize>)
    ensures
        match place {
            Some(at) => find_text(chars@, needle@) == Some(at as int) && at + needle@.len()
                <= chars@.len(),
            None => find_text(chars@, needle@) is None,
        },
{
    let needle_chars = chars_of(needle);
    let mut at: usize = 0;
    proof {
        assert(chars@.skip(0) =~= chars@);
    }
    while at < chars.len()
        invariant
            needle_chars@ == needle@,
            at <= chars@.len(),
            find_text(chars@, needle@) == match find_text(chars@.skip(at as int), needle@) {
                Some(further) => Some(further + at),
                None => None,
            },
        decreases chars@.len() - at,
    {
        if matches_at(chars, at, &needle_chars) {
            return Some(at);
        }
        assert(chars@.skip(at as int).drop_first() =~= chars@.skip(at + 1));
        at += 1;
    }
    if matches_at(chars, at, &needle_chars) {
        Some(at)
    } else {
        None
    }
}

/// Whether a text holds another.
pub open spec fn has(text: Seq<char>, needle: Seq<char>) -> bool {
    find_text(text, needle) is Some
}

/// Whether a text holds another.
pub fn contains(text: &str, needle: &str) -> (held: bool)
    ensures
        held == has(text@, needle@),
{
    let chars = chars_of(text);
    find(&chars, needle).is_some()
}

/// Whether a text holds a character.
pub fn contains_char(text: &str, ch: char) -> (held: bool)
    ensures
        held == text@.contains(ch),
{
    let chars = chars_of(text);
    let mut at: usize = 0;
    while at < chars.len()
        invariant
            chars@ == text@,
            at <= chars@.len(),
            forall|i: int| 0 <= i < at ==> text@[i] != ch,
        decreases chars@.len() - at,
    {
        if chars[at] == ch {
            return true;
        }
        at += 1;
    }
    false
}

/// Adds a text at the end of a list.
pub fn push_text(items: &mut Vec<String>, text: String)
    ensures
        texts(final(items)@) == texts(old(items)@).push(text@),
{
    let ghost before = texts(items@);
    items.push(text);
    assert(texts(items@) =~= before.push(text@));
}

// ---------------------------------------------------------------------------------------------
// Joining
// ---------------------------------------------------------------------------------------------

/// The parts one after another, with a separator between them.
pub open spec fn join(parts: Seq<Seq<char>>, separator: Seq<char>) -> Seq<char>
    decreases parts.len(),
{
    if parts.len() == 0 {
        Seq::empty()
    } else if parts.len() == 1 {
        parts[0]
    } else {
        join(parts.drop_last(), separator) + separator + parts.last()
    }
}

/// The parts one after another, with a separator between them.
pub fn joined(parts: &Vec<String>, separator: &str) -> (whole: String)
    ensures
        whole@ == join(texts(parts@), separator@),
{
    let mut whole = String::new();
    let mut at: usize = 0;
    proof {
        assert(texts(parts@).take(0) =~= Seq::<Seq<char>>::empty());
    }
    while at < parts.len()
        invariant
            at <= parts@.len(),
            whole@ == join(texts(parts@).take(at as int), separator@),
        decreases parts@.len() - at,
    {
        let ghost before = texts(parts@).take(at as int);
        let ghost after = texts(parts@).take(at + 1);
        if at > 0 {
            whole.append(separator);
        }
        whole.append(parts[at].as_str());
        proof {
            assert(after.drop_last() =~= before);
            assert(after.last() == parts@[at as int]@);
            if at == 0 {
                assert(whole@ =~= parts@[0]@);
            }
        }
        at += 1;
    }
    assert(texts(parts@).take(at as int) =~= texts(parts@));
    whole
}

/// A text made of two.
pub fn plus(left: &str, right: &str) -> (whole: String)
    ensures
        whole@ == left@ + right@,
{
    let mut whole = left.to_owned();
    whole.append(right);
    whole
}

/// A text made of three.
pub fn plus3(first: &str, second: &str, third: &str) -> (whole: String)
    ensures
        whole@ == first@ + second@ + third@,
{
    let mut whole = first.to_owned();
    whole.append(second);
    whole.append(third);
    whole
}

/// What stands before the first break is the first part.
pub proof fn lemma_split_part(
    part: Seq<char>,
    brk: char,
    rest: Seq<char>,
    class: spec_fn(char) -> bool,
)
    requires
        class(brk),
        forall|i: int| 0 <= i < part.len() ==> !class(#[trigger] part[i]),
    ensures
        split_where(part + seq![brk] + rest, class) == seq![part] + split_where(rest, class),
{
    let text = part + seq![brk] + rest;
    let at = part.len() as int;
    assert forall|i: int| 0 <= i < at implies !class(#[trigger] text[i]) by {
        assert(text[i] == part[i]);
    }
    assert(text[at] == brk);
    lemma_index_where(text, class, at);
    assert(text.take(at) =~= part);
    assert(text.skip(at + 1) =~= rest);
}

/// A text without breaks is one part.
pub proof fn lemma_split_whole(part: Seq<char>, class: spec_fn(char) -> bool)
    requires
        forall|i: int| 0 <= i < part.len() ==> !class(#[trigger] part[i]),
    ensures
        split_where(part, class) == seq![part],
{
    lemma_index_where(part, class, part.len() as int);
}

/// The parts of two texts with a break between them are those of the first, and then those of the
/// second.
pub proof fn lemma_split_around(
    text: Seq<char>,
    brk: char,
    rest: Seq<char>,
    class: spec_fn(char) -> bool,
)
    requires
        class(brk),
    ensures
        split_where(text + seq![brk] + rest, class) == split_where(text, class) + split_where(
            rest,
            class,
        ),
    decreases text.len(),
{
    let at = index_where(text, class);
    lemma_index_where_shape(text, class);
    if at < text.len() {
        let first = text.take(at);
        let later = text.skip(at + 1);
        assert forall|i: int| 0 <= i < first.len() implies !class(#[trigger] first[i]) by {
            assert(first[i] == text[i]);
        }
        lemma_split_around(later, brk, rest, class);
        let joined = later + seq![brk] + rest;
        assert(text + seq![brk] + rest =~= first + seq![text[at]] + joined);
        lemma_split_part(first, text[at], joined, class);
        assert(split_where(text + seq![brk] + rest, class) =~= split_where(text, class)
            + split_where(rest, class));
    } else {
        lemma_split_part(text, brk, rest, class);
        lemma_split_whole(text, class);
    }
}

/// Whether a character stands nowhere in a text.
pub open spec fn lacks(text: Seq<char>, ch: char) -> bool {
    forall|i: int| 0 <= i < text.len() ==> #[trigger] text[i] != ch
}

/// Splitting a text undoes joining parts that do not hold the separator.
pub proof fn lemma_split_join(parts: Seq<Seq<char>>, ch: char)
    requires
        parts.len() > 0,
        forall|i: int| 0 <= i < parts.len() ==> lacks(#[trigger] parts[i], ch),
    ensures
        split_where(join(parts, seq![ch]), just(ch)) == parts,
    decreases parts.len(),
{
    let last = parts[parts.len() - 1];
    assert(lacks(last, ch));
    lemma_split_whole(last, just(ch));
    if parts.len() == 1 {
        assert(parts =~= seq![last]);
    } else {
        let earlier = parts.drop_last();
        assert forall|i: int| 0 <= i < earlier.len() implies lacks(#[trigger] earlier[i], ch) by {
            assert(earlier[i] == parts[i]);
        }
        lemma_split_join(earlier, ch);
        lemma_split_around(join(earlier, seq![ch]), ch, last, just(ch));
        assert(earlier + seq![last] =~= parts);
    }
}

/// Joining undoes splitting, and no part holds the separator.
pub proof fn lemma_join_split(text: Seq<char>, ch: char)
    ensures
        join(split_where(text, just(ch)), seq![ch]) == text,
        split_where(text, just(ch)).len() > 0,
        forall|i: int|
            0 <= i < split_where(text, just(ch)).len() ==> lacks(
                #[trigger] split_where(text, just(ch))[i],
                ch,
            ),
    decreases text.len(),
{
    let at = index_where(text, just(ch));
    lemma_index_where_shape(text, just(ch));
    let parts = split_where(text, just(ch));
    if at < text.len() {
        let first = text.take(at);
        let later = text.skip(at + 1);
        let rest = split_where(later, just(ch));
        lemma_join_split(later, ch);
        assert(lacks(first, ch)) by {
            assert forall|i: int| 0 <= i < first.len() implies #[trigger] first[i] != ch by {
                assert(!just(ch)(text[i]));
            }
        }
        lemma_join_first(first, rest, seq![ch]);
        assert(first + seq![ch] + later =~= text);
        assert forall|i: int| 0 <= i < parts.len() implies lacks(#[trigger] parts[i], ch) by {
            if i > 0 {
                assert(parts[i] == rest[i - 1]);
            }
        }
    } else {
        assert forall|i: int| 0 <= i < text.len() implies #[trigger] text[i] != ch by {
            assert(!just(ch)(text[i]));
        }
    }
}

/// The first of some parts stands in front of the others.
pub proof fn lemma_join_first(first: Seq<char>, rest: Seq<Seq<char>>, separator: Seq<char>)
    requires
        rest.len() > 0,
    ensures
        join(seq![first] + rest, separator) == first + separator + join(rest, separator),
    decreases rest.len(),
{
    let all = seq![first] + rest;
    if rest.len() == 1 {
        assert(all.drop_last() =~= seq![first]);
        assert(all.last() == rest[0]);
        assert(join(seq![first], separator) == first);
    } else {
        let fewer = rest.drop_last();
        lemma_join_first(first, fewer, separator);
        assert(all.drop_last() =~= seq![first] + fewer);
        assert(all.last() == rest.last());
        assert(join(all, separator) =~= first + separator + join(rest, separator));
    }
}

/// What stripping a prefix gives: what follows it, where the text begins with it.
pub proof fn lemma_strip(text: Seq<char>, prefix: Seq<char>, rest: Seq<char>)
    ensures
        strip(prefix + rest, prefix) == Some(rest),
        strip(text, prefix) matches Some(left) ==> text == prefix + left,
{
    assert((prefix + rest).take(prefix.len() as int) =~= prefix);
    assert((prefix + rest).skip(prefix.len() as int) =~= rest);
    if let Some(left) = strip(text, prefix) {
        assert(text =~= prefix + left);
    }
}

/// Blanks, tabulators and line breaks are white space; what can be seen of ASCII is not.
pub proof fn lemma_white(ch: char)
    ensures
        ch == ' ' || ch == '\t' || ch == '\n' || ch == '\r' ==> is_white(ch),
        '!' <= ch <= '~' ==> !is_white(ch),
        is_white(ch) && is_control_char(ch) ==> ch != ' ',
        is_alphanumeric(ch) ==> !is_white(ch) && !is_control_char(ch),
{
}

/// Making letters small changes capital letters only, each to the small letter in its place of the
/// alphabet, and doing it again changes nothing.
pub proof fn lemma_lower(text: Seq<char>, at: int)
    requires
        0 <= at < text.len(),
    ensures
        lower_text(text).len() == text.len(),
        !('A' <= text[at] <= 'Z') ==> lower_text(text)[at] == text[at],
        'A' <= text[at] <= 'Z' ==> lower_text(text)[at] as int - 'a' as int == text[at] as int
            - 'A' as int,
        lower_text(lower_text(text)) == lower_text(text),
{
    assert forall|i: int| 0 <= i < text.len() implies lower(#[trigger] lower(text[i])) == lower(
        text[i],
    ) by {
        if 'A' <= text[i] <= 'Z' {
            let code = text[i] as u8;
            assert(((code + 32) as u8) == code + 32);
        }
    }
    if 'A' <= text[at] <= 'Z' {
        let code = text[at] as u8;
        assert(((code + 32) as u8) == code + 32);
    }
    assert(lower_text(lower_text(text)) =~= lower_text(text));
}

/// Whether a text holds no white space, and is not empty.
pub open spec fn is_word(text: Seq<char>) -> bool {
    text.len() > 0 && forall|i: int| 0 <= i < text.len() ==> !is_white(#[trigger] text[i])
}

/// A word, white space and the rest: the word comes first, and then what the rest holds.
pub proof fn lemma_words_on(before: Seq<char>, word: Seq<char>, rest: Seq<char>)
    requires
        is_blank(before),
        is_word(word),
        rest.len() > 0 ==> is_white(rest[0]),
    ensures
        words(before + word + rest) == seq![word] + words(rest),
        words(before).len() == 0,
{
    let text = before + word + rest;
    let tail = word + rest;
    assert forall|i: int| 0 <= i < before.len() implies is_white(#[trigger] text[i]) by {
        assert(text[i] == before[i]);
    }
    assert(text[before.len() as int] == word[0]);
    assert(!is_white(word[0]));
    lemma_trim_start(text, before.len() as int);
    assert(text.skip(before.len() as int) =~= tail);
    let at = word.len() as int;
    assert forall|i: int| 0 <= i < at implies !white()(#[trigger] tail[i]) by {
        assert(tail[i] == word[i]);
    }
    if at < tail.len() {
        assert(tail[at] == rest[0]);
    }
    lemma_index_where(tail, white(), at);
    assert(tail.take(at) =~= word);
    assert(tail.skip(at) =~= rest);
    lemma_trim_start(before, before.len() as int);
    assert(before.skip(before.len() as int).len() == 0);
}

/// What stands before and after the first occurrence of a character, where there is one.
pub proof fn lemma_split_once(before: Seq<char>, ch: char, after: Seq<char>)
    requires
        lacks(before, ch),
    ensures
        split_once(before + seq![ch] + after, ch) == Some((before, after)),
        split_once(before, ch) is None,
{
    let text = before + seq![ch] + after;
    let at = before.len() as int;
    assert forall|i: int| 0 <= i < at implies !just(ch)(#[trigger] text[i]) by {
        assert(text[i] == before[i]);
    }
    assert(text[at] == ch);
    lemma_index_where(text, just(ch), at);
    assert(text.take(at) =~= before);
    assert(text.skip(at + 1) =~= after);
    assert forall|i: int| 0 <= i < at implies !just(ch)(#[trigger] before[i]) by {}
    lemma_index_where(before, just(ch), at);
}

/// White space in front of a text that begins with none is dropped.
pub proof fn lemma_trim_start_white(before: Seq<char>, text: Seq<char>)
    requires
        is_blank(before),
        text.len() > 0 ==> !is_white(text[0]),
    ensures
        trim_start(before + text) == text,
{
    let whole = before + text;
    assert forall|i: int| 0 <= i < before.len() implies is_white(#[trigger] whole[i]) by {
        assert(whole[i] == before[i]);
    }
    lemma_trim_start(whole, before.len() as int);
    assert(whole.skip(before.len() as int) =~= text);
}

/// The words of two texts with white space between them are those of the first, and then those of
/// the second.
pub proof fn lemma_words_around(text: Seq<char>, white_space: Seq<char>, rest: Seq<char>)
    requires
        white_space.len() > 0,
        is_blank(white_space),
    ensures
        words(text + white_space + rest) == words(text) + words(rest),
    decreases text.len(),
{
    let whole = text + white_space + rest;
    let tail = trim_start(text);
    lemma_trim_start_shape(text);
    let before = text.take(text.len() - tail.len());
    assert(text =~= before + tail);
    assert forall|i: int| 0 <= i < before.len() implies is_white(#[trigger] before[i]) by {
        assert(before[i] == text[i]);
    }
    if tail.len() == 0 {
        let blank_part = text + white_space;
        assert forall|i: int| 0 <= i < blank_part.len() implies is_white(
            #[trigger] blank_part[i],
        ) by {
            if i < text.len() {
                assert(blank_part[i] == text[i]);
            } else {
                assert(blank_part[i] == white_space[i - text.len()]);
            }
        }
        lemma_trim_start_blank(blank_part, rest);
        assert(words(whole) == words(rest));
        assert(words(text).len() == 0);
        assert(words(text) + words(rest) =~= words(rest));
    } else {
        let at = index_where(tail, white());
        lemma_index_where_shape(tail, white());
        let word = tail.take(at);
        let later = tail.skip(at);
        assert(!is_white(tail[0]));
        assert(at > 0);
        let more = tail + white_space + rest;
        assert(whole =~= before + more);
        lemma_trim_start_white(before, more);
        assert forall|i: int| 0 <= i < at implies !white()(#[trigger] more[i]) by {
            assert(more[i] == tail[i]);
        }
        if at < tail.len() {
            assert(more[at] == tail[at]);
        } else {
            assert(more[at] == white_space[0]);
        }
        lemma_index_where(more, white(), at);
        assert(more.take(at) =~= word);
        assert(more.skip(at) =~= later + white_space + rest);
        lemma_words_around(later, white_space, rest);
        assert(words(whole) =~= seq![word] + (words(later) + words(rest)));
        assert(words(text) =~= seq![word] + words(later));
    }
}

/// Another text is found where it stands first, and is found wherever it stands.
pub proof fn lemma_find_text(text: Seq<char>, needle: Seq<char>, at: int)
    requires
        0 <= at <= text.len() - needle.len(),
        text.subrange(at, at + needle.len()) == needle,
    ensures
        find_text(text, needle) matches Some(first) && first <= at,
        has(text, needle),
    decreases text.len(),
{
    if at == 0 {
        assert(text.take(needle.len() as int) =~= text.subrange(0, needle.len() as int));
    } else if !starts(text, needle) {
        let rest = text.drop_first();
        assert(rest.subrange(at - 1, at - 1 + needle.len()) =~= text.subrange(
            at,
            at + needle.len(),
        ));
        lemma_find_text(rest, needle, at - 1);
    }
}

/// A text begins with another where something can be put behind that other to give it.
pub proof fn lemma_starts(text: Seq<char>, prefix: Seq<char>, rest: Seq<char>)
    ensures
        starts(prefix + rest, prefix),
        starts(text, prefix) ==> text == prefix + text.skip(prefix.len() as int),
        text.len() < prefix.len() ==> !starts(text, prefix),
{
    assert((prefix + rest).take(prefix.len() as int) =~= prefix);
    if starts(text, prefix) {
        assert(text =~= prefix + text.skip(prefix.len() as int));
    }
}

} // verus!
