//! Titles for the terminal window: what of a title may be shown, and how it is written.

use vstd::prelude::*;

use crate::text::chars_of;
use crate::text::index_where;
use crate::text::is_blank;
use crate::text::is_control;
use crate::text::is_control_char;
use crate::text::is_white;
use crate::text::is_whitespace;
use crate::text::join;
use crate::text::joined;
use crate::text::lemma_index_where_shape;
use crate::text::lemma_join_first;
use crate::text::lemma_trim_start_shape;
use crate::text::lemma_words_around;
use crate::text::split_whitespace;
use crate::text::text_of;
use crate::text::trim_start;
use crate::text::white;
use crate::text::words;

verus! {

/// The most characters of a title that are shown.
pub const MAX_TERMINAL_TITLE_CHARS: usize = 240;

/// Characters that a title may not hold: control characters, the controls of bidirectional text,
/// and common formatting characters that are not rendered.
pub open spec fn is_disallowed(ch: char) -> bool {
    ||| is_control_char(ch)
    ||| ch == '\u{ad}'
    ||| ch == '\u{34f}'
    ||| ch == '\u{61c}'
    ||| ch == '\u{180e}'
    ||| '\u{200b}' <= ch <= '\u{200f}'
    ||| '\u{202a}' <= ch <= '\u{202e}'
    ||| '\u{2060}' <= ch <= '\u{206f}'
    ||| '\u{fe00}' <= ch <= '\u{fe0f}'
    ||| ch == '\u{feff}'
    ||| '\u{fff9}' <= ch <= '\u{fffb}'
    ||| '\u{1bca0}' <= ch <= '\u{1bca3}'
    ||| '\u{e0100}' <= ch <= '\u{e01ef}'
}

/// Whether a title may not hold a character. These are stripped so that a title can neither
/// smuggle terminal control semantics nor mislead the eye.
pub fn is_disallowed_terminal_title_char(ch: char) -> (disallowed: bool)
    ensures
        disallowed == is_disallowed(ch),
{
    is_control(ch) || ch == '\u{ad}' || ch == '\u{34f}' || ch == '\u{61c}' || ch == '\u{180e}' || (
    '\u{200b}' <= ch && ch <= '\u{200f}') || ('\u{202a}' <= ch && ch <= '\u{202e}') || (
    '\u{2060}' <= ch && ch <= '\u{206f}') || ('\u{fe00}' <= ch && ch <= '\u{fe0f}') || ch
        == '\u{feff}' || ('\u{fff9}' <= ch && ch <= '\u{fffb}') || ('\u{1bca0}' <= ch && ch
        <= '\u{1bca3}') || ('\u{e0100}' <= ch && ch <= '\u{e01ef}')
}

/// White space, and the characters that are shown.
pub open spec fn is_kept() -> spec_fn(char) -> bool {
    |ch: char| is_white(ch) || !is_disallowed(ch)
}

/// The words of a title without its disallowed characters, with one space between them.
pub open spec fn tidy(title: Seq<char>) -> Seq<char> {
    join(words(title.filter(is_kept())), seq![' '])
}

/// A tidied title, cut after the most characters that are shown.
pub open spec fn sanitized(title: Seq<char>) -> Seq<char> {
    if tidy(title).len() > MAX_TERMINAL_TITLE_CHARS {
        tidy(title).take(MAX_TERMINAL_TITLE_CHARS as int)
    } else {
        tidy(title)
    }
}

/// A title without its disallowed characters.
fn kept_chars(title: &str) -> (kept: String)
    ensures
        kept@ == title@.filter(is_kept()),
{
    let chars = chars_of(title);
    let mut kept = String::new();
    let mut at: usize = 0;
    proof {
        reveal(Seq::filter);
        assert(title@.take(0) =~= Seq::<char>::empty());
    }
    while at < chars.len()
        invariant
            chars@ == title@,
            at <= chars@.len(),
            kept@ == title@.take(at as int).filter(is_kept()),
        decreases chars@.len() - at,
    {
        proof {
            reveal(Seq::filter);
            assert(title@.take(at + 1).drop_last() =~= title@.take(at as int));
            assert(title@.take(at + 1).last() == chars@[at as int]);
        }
        if is_whitespace(chars[at]) || !is_disallowed_terminal_title_char(chars[at]) {
            kept.push(chars[at]);
        }
        at += 1;
    }
    assert(title@.take(at as int) =~= title@);
    kept
}

/// The title as it is shown: without disallowed characters, with each run of white space between
/// words made one space and none at the ends, and cut after the most characters that are shown.
pub fn sanitize_terminal_title(title: &str) -> (shown: String)
    ensures
        shown@ == sanitized(title@),
{
    let kept = kept_chars(title);
    let runs = split_whitespace(kept.as_str());
    let tidied = joined(&runs, " ");
    proof {
        reveal_strlit(" ");
        assert(" "@ =~= seq![' ']);
    }
    let chars = chars_of(tidied.as_str());
    if chars.len() > MAX_TERMINAL_TITLE_CHARS {
        assert(chars@.subrange(0, 240) =~= tidied@.take(240));
        text_of(&chars, 0, MAX_TERMINAL_TITLE_CHARS)
    } else {
        tidied
    }
}

/// The command that sets the title of the window.
#[derive(Clone, Debug)]
pub struct SetWindowTitle(pub String);

/// The control sequence that sets a title: OSC 0, ended by the string terminator.
pub open spec fn osc_title(title: Seq<char>) -> Seq<char> {
    seq!['\u{1b}', ']', '0', ';'] + title + seq!['\u{1b}', '\\']
}

impl SetWindowTitle {
    /// Writes the control sequence behind what has been written. The canonical string terminator
    /// ends it, though most terminals take a bell too.
    pub fn write_ansi(&self, out: &mut String)
        ensures
            final(out)@ == old(out)@ + osc_title(self.0@),
    {
        let ghost before = out@;
        out.push('\u{1b}');
        out.push(']');
        out.push('0');
        out.push(';');
        out.append(self.0.as_str());
        out.push('\u{1b}');
        out.push('\\');
        assert(out@ =~= before + osc_title(self.0@));
    }
}

/// The command to write for a title: none where the output is no terminal or nothing of the title
/// is shown.
pub fn set_terminal_title(is_terminal: bool, title: &str) -> (command: Option<SetWindowTitle>)
    ensures
        match command {
            Some(command) => is_terminal && sanitized(title@).len() > 0 && command.0@ == sanitized(
                title@,
            ),
            None => !is_terminal || sanitized(title@).len() == 0,
        },
{
    if !is_terminal {
        return None;
    }
    let shown = sanitize_terminal_title(title);
    if shown.as_str().is_empty() {
        return None;
    }
    Some(SetWindowTitle(shown))
}

// ---------------------------------------------------------------------------------------------
// What is shown
// ---------------------------------------------------------------------------------------------

/// Single spaces between words of characters that are shown, none at the start.
pub open spec fn is_tidy_prefix(title: Seq<char>) -> bool {
    &&& forall|i: int|
        0 <= i < title.len() ==> !is_disallowed(#[trigger] title[i]) && (is_white(title[i])
            ==> title[i] == ' ')
    &&& title.len() > 0 ==> title[0] != ' '
    &&& forall|i: int|
        0 <= i < title.len() - 1 ==> !(#[trigger] title[i] == ' ' && title[i + 1] == ' ')
}

/// Words of characters that are shown.
spec fn plain_words(runs: Seq<Seq<char>>) -> bool {
    forall|i: int|
        #![trigger runs[i]]
        0 <= i < runs.len() ==> runs[i].len() > 0 && forall|j: int|
            0 <= j < runs[i].len() ==> !is_white(#[trigger] runs[i][j]) && !is_disallowed(
                runs[i][j],
            )
}

/// Words of a text whose characters are white space or shown.
proof fn lemma_words_plain(text: Seq<char>)
    requires
        forall|i: int| 0 <= i < text.len() ==> is_kept()(#[trigger] text[i]),
    ensures
        plain_words(words(text)),
    decreases text.len(),
{
    let rest = trim_start(text);
    lemma_trim_start_shape(text);
    if rest.len() > 0 {
        lemma_index_where_shape(rest, white());
        let at = index_where(rest, white());
        assert(!is_white(rest[0]));
        let tail = rest.skip(at);
        let dropped = text.len() - rest.len();
        assert forall|i: int| 0 <= i < tail.len() implies is_kept()(#[trigger] tail[i]) by {
            assert(tail[i] == text[i + at + dropped]);
        }
        assert(at > 0);
        lemma_words_plain(tail);
        let first = rest.take(at);
        assert forall|j: int| 0 <= j < first.len() implies !is_white(#[trigger] first[j])
            && !is_disallowed(first[j]) by {
            assert(!white()(rest[j]));
            assert(first[j] == text[j + dropped]);
            assert(is_kept()(text[j + dropped]));
        }
        let all = words(text);
        assert forall|i: int| #![trigger all[i]] 0 <= i < all.len() implies all[i].len() > 0
            && forall|j: int|
            0 <= j < all[i].len() ==> !is_white(#[trigger] all[i][j]) && !is_disallowed(
                all[i][j],
            ) by {
            if i == 0 {
                assert(all[0] == first);
            } else {
                assert(all[i] == words(tail)[i - 1]);
            }
        }
    }
}

/// Words with single spaces between them.
proof fn lemma_join_tidy(runs: Seq<Seq<char>>)
    requires
        plain_words(runs),
    ensures
        is_tidy_prefix(join(runs, seq![' '])),
        join(runs, seq![' ']).len() > 0 ==> join(runs, seq![' ']).last() != ' ',
        runs.len() > 0 ==> join(runs, seq![' ']).len() > 0,
    decreases runs.len(),
{
    assert(is_white(' '));
    let whole = join(runs, seq![' ']);
    if runs.len() == 1 {
        assert(whole == runs[0]);
        assert(!is_white(runs[0][0]));
        assert(!is_white(runs[0][runs[0].len() - 1]));
    } else if runs.len() > 1 {
        let shorter = runs.drop_last();
        assert(plain_words(shorter)) by {
            assert forall|i: int|
                #![trigger shorter[i]]
                0 <= i < shorter.len() implies shorter[i].len() > 0 && forall|j: int|
                0 <= j < shorter[i].len() ==> !is_white(#[trigger] shorter[i][j])
                    && !is_disallowed(shorter[i][j]) by {
                assert(shorter[i] == runs[i]);
            }
        }
        lemma_join_tidy(shorter);
        let head = join(shorter, seq![' ']);
        let last = runs.last();
        assert(last == runs[runs.len() - 1]);
        assert(whole == head + seq![' '] + last);
        assert(!is_disallowed(' '));
        assert forall|i: int| 0 <= i < whole.len() implies !is_disallowed(#[trigger] whole[i]) && (
        is_white(whole[i]) ==> whole[i] == ' ') by {
            if i < head.len() {
                assert(whole[i] == head[i]);
            } else if i > head.len() {
                assert(whole[i] == last[i - head.len() - 1]);
            }
        }
        assert(whole[0] == head[0]);
        assert(!is_white(last[0]));
        assert(!is_white(last[last.len() - 1]));
        assert(whole.last() == last[last.len() - 1]);
        assert forall|i: int| 0 <= i < whole.len() - 1 implies !(#[trigger] whole[i] == ' '
            && whole[i + 1] == ' ') by {
            if i < head.len() - 1 {
                assert(whole[i] == head[i] && whole[i + 1] == head[i + 1]);
            } else if i == head.len() - 1 {
                assert(whole[i] == head.last());
            } else if i == head.len() {
                assert(whole[i + 1] == last[0]);
            } else {
                assert(whole[i] == last[i - head.len() - 1]);
                assert(!is_white(last[i - head.len() - 1]));
            }
        }
    }
}

/// What is shown of a title has at most the allowed number of characters, none of them
/// disallowed; its only white space is single spaces, none at the start, and none at the end
/// unless the title was cut there.
pub proof fn lemma_sanitized(title: Seq<char>)
    ensures
        sanitized(title).len() <= MAX_TERMINAL_TITLE_CHARS,
        is_tidy_prefix(sanitized(title)),
        0 < sanitized(title).len() < MAX_TERMINAL_TITLE_CHARS ==> sanitized(title).last() != ' ',
{
    let kept = title.filter(is_kept());
    assert forall|i: int| 0 <= i < kept.len() implies is_kept()(#[trigger] kept[i]) by {
        title.lemma_filter_pred(is_kept(), i);
    }
    lemma_words_plain(kept);
    lemma_join_tidy(words(kept));
    let whole = tidy(title);
    let shown = sanitized(title);
    assert forall|i: int| 0 <= i < shown.len() implies shown[i] == #[trigger] whole[i] by {}
    assert forall|i: int| 0 <= i < shown.len() implies !is_disallowed(#[trigger] shown[i]) && (
    is_white(shown[i]) ==> shown[i] == ' ') by {
        assert(shown[i] == whole[i]);
    }
    assert forall|i: int| 0 <= i < shown.len() - 1 implies !(#[trigger] shown[i] == ' ' && shown[i
        + 1] == ' ') by {
        assert(shown[i] == whole[i] && shown[i + 1] == whole[i + 1]);
    }
    if shown.len() > 0 {
        assert(shown[0] == whole[0]);
    }
}

/// The first part stands in front of the rest.
proof fn lemma_join_front(first: Seq<char>, rest: Seq<Seq<char>>, separator: Seq<char>)
    requires
        rest.len() > 0,
    ensures
        join(seq![first] + rest, separator) == first + separator + join(rest, separator),
{
    lemma_join_first(first, rest, separator);
}

/// The words of a text with single spaces only, joined by spaces, are the text.
proof fn lemma_words_of_tidy(text: Seq<char>)
    requires
        is_tidy_prefix(text),
        text.len() > 0 ==> text.last() != ' ',
    ensures
        join(words(text), seq![' ']) == text,
        text.len() > 0 ==> words(text).len() > 0,
    decreases text.len(),
{
    if text.len() == 0 {
        assert(words(text) =~= Seq::<Seq<char>>::empty());
    } else {
        assert(!is_white(text[0]));
        assert(trim_start(text) == text);
        lemma_index_where_shape(text, white());
        let at = index_where(text, white());
        let tail = text.skip(at);
        if at == text.len() {
            assert(text.take(at) =~= text);
            assert(tail.len() == 0);
            assert(words(tail) =~= Seq::<Seq<char>>::empty());
            assert(words(text) =~= seq![text]);
        } else {
            assert(white()(text[at]));
            assert(text[at] == ' ');
            assert(at < text.len() - 1);
            let next = text.skip(at + 1);
            assert(tail.drop_first() =~= next);
            assert(tail[0] == ' ');
            assert(text[at + 1] != ' ');
            assert(next[0] == text[at + 1]);
            assert(trim_start(next) == next) by {
                assert(!is_white(next[0]));
            }
            assert(trim_start(tail) == next);
            assert(words(tail) == words(next));
            assert(is_tidy_prefix(next)) by {
                assert forall|i: int| 0 <= i < next.len() implies !is_disallowed(
                    #[trigger] next[i],
                ) && (is_white(next[i]) ==> next[i] == ' ') by {
                    assert(next[i] == text[i + at + 1]);
                }
                assert forall|i: int| 0 <= i < next.len() - 1 implies !(#[trigger] next[i] == ' '
                    && next[i + 1] == ' ') by {
                    assert(next[i] == text[i + at + 1] && next[i + 1] == text[i + at + 2]);
                }
            }
            lemma_words_of_tidy(next);
            lemma_join_front(text.take(at), words(next), seq![' ']);
            assert(text.take(at) + seq![' '] + next =~= text);
        }
    }
}

/// A text that holds only kept characters loses none of them.
proof fn lemma_filter_kept(text: Seq<char>)
    requires
        forall|i: int| 0 <= i < text.len() ==> is_kept()(#[trigger] text[i]),
    ensures
        text.filter(is_kept()) == text,
    decreases text.len(),
{
    reveal(Seq::filter);
    if text.len() > 0 {
        let shorter = text.drop_last();
        assert forall|i: int| 0 <= i < shorter.len() implies is_kept()(#[trigger] shorter[i]) by {
            assert(shorter[i] == text[i]);
        }
        lemma_filter_kept(shorter);
        assert(is_kept()(text[text.len() - 1]));
        assert(shorter.push(text.last()) =~= text);
    }
}

/// What is shown of a title is shown unchanged, unless the title was cut right behind a space.
pub proof fn lemma_sanitized_twice(title: Seq<char>)
    requires
        sanitized(title).len() > 0 ==> sanitized(title).last() != ' ',
    ensures
        sanitized(sanitized(title)) == sanitized(title),
{
    let shown = sanitized(title);
    lemma_sanitized(title);
    assert forall|i: int| 0 <= i < shown.len() implies is_kept()(#[trigger] shown[i]) by {
        assert(!is_disallowed(shown[i]));
    }
    lemma_filter_kept(shown);
    lemma_words_of_tidy(shown);
}

/// A title that is tidy already and not too long is shown as it is.
pub proof fn lemma_tidy_shown(title: Seq<char>)
    requires
        is_tidy_prefix(title),
        title.len() > 0 ==> title.last() != ' ',
        title.len() <= 240,
    ensures
        sanitized(title) == title,
{
    assert forall|i: int| 0 <= i < title.len() implies is_kept()(#[trigger] title[i]) by {
        assert(!is_disallowed(title[i]));
    }
    lemma_filter_kept(title);
    lemma_words_of_tidy(title);
}

/// A character that may not be shown makes no difference, wherever it stands. White space between
/// words counts as one space, however much there is, and none at either end.
pub proof fn lemma_title_noise(before: Seq<char>, noise: Seq<char>, ch: char, after: Seq<char>)
    requires
        noise.len() > 0,
        is_blank(noise),
        is_disallowed(ch),
        !is_white(ch),
    ensures
        sanitized(before + seq![ch] + after) == sanitized(before + after),
        sanitized(before + noise + after) == sanitized(before + seq![' '] + after),
        sanitized(noise + after) == sanitized(after),
        sanitized(before + noise) == sanitized(before),
{
    let kept = is_kept();
    let empty = Seq::<char>::empty();
    Seq::filter_distributes_over_add(before + seq![ch], after, kept);
    Seq::filter_distributes_over_add(before, seq![ch], kept);
    Seq::filter_distributes_over_add(before, after, kept);
    assert(seq![ch].filter(kept) =~= empty) by {
        reveal(Seq::filter);
        assert(seq![ch].drop_last() =~= empty);
        assert(seq![ch].last() == ch);
        assert(empty.filter(kept) =~= empty);
    }
    assert(before.filter(kept) + empty =~= before.filter(kept));
    assert forall|i: int| 0 <= i < noise.len() implies kept(#[trigger] noise[i]) by {}
    lemma_filter_kept(noise);
    let space = seq![' '];
    assert forall|i: int| 0 <= i < space.len() implies kept(#[trigger] space[i]) by {}
    lemma_filter_kept(space);
    Seq::filter_distributes_over_add(before + noise, after, kept);
    Seq::filter_distributes_over_add(before, noise, kept);
    Seq::filter_distributes_over_add(before + space, after, kept);
    Seq::filter_distributes_over_add(before, space, kept);
    let left = before.filter(kept);
    let right = after.filter(kept);
    lemma_words_around(left, noise, right);
    lemma_words_around(left, space, right);
    Seq::filter_distributes_over_add(noise, after, kept);
    lemma_words_around(empty, noise, right);
    assert(empty + noise + right =~= noise + right);
    assert(words(empty).len() == 0);
    assert(words(empty) + words(right) =~= words(right));
    lemma_words_around(left, noise, empty);
    assert(left + noise + empty =~= left + noise);
    assert(words(left) + words(empty) =~= words(left));
}

/// Of a title that is too long, the beginning is shown: what is tidy, up to as many characters as
/// may be.
pub proof fn lemma_title_cut(title: Seq<char>)
    requires
        is_tidy_prefix(title),
        title.len() > 0 ==> title.last() != ' ',
    ensures
        title.len() > 240 ==> sanitized(title) == title.take(240),
{
    assert forall|i: int| 0 <= i < title.len() implies is_kept()(#[trigger] title[i]) by {
        assert(!is_disallowed(title[i]));
    }
    lemma_filter_kept(title);
    lemma_words_of_tidy(title);
}

/// What may not be shown: control characters, the controls of bidirectional text, and what is not
/// rendered; but no character of ASCII that can be seen, and no white space that is no control.
pub proof fn lemma_disallowed(ch: char)
    ensures
        is_control_char(ch) ==> is_disallowed(ch),
        '\u{200b}' <= ch <= '\u{200f}' ==> is_disallowed(ch),
        '\u{202a}' <= ch <= '\u{202e}' ==> is_disallowed(ch),
        '\u{2060}' <= ch <= '\u{206f}' ==> is_disallowed(ch),
        '\u{fe00}' <= ch <= '\u{fe0f}' ==> is_disallowed(ch),
        '\u{fff9}' <= ch <= '\u{fffb}' ==> is_disallowed(ch),
        '\u{1bca0}' <= ch <= '\u{1bca3}' ==> is_disallowed(ch),
        '\u{e0100}' <= ch <= '\u{e01ef}' ==> is_disallowed(ch),
        ch == '\u{ad}' || ch == '\u{34f}' || ch == '\u{61c}' || ch == '\u{180e}' || ch
            == '\u{feff}' ==> is_disallowed(ch),
        ' ' <= ch <= '~' ==> !is_disallowed(ch),
        is_white(ch) && !is_control_char(ch) ==> !is_disallowed(ch),
{
}

/// The control sequence holds the title between its introducer and its terminator, and a title that
/// is shown does not end it early.
pub proof fn lemma_osc_title(title: Seq<char>, at: int)
    requires
        0 <= at < sanitized(title).len(),
    ensures
        osc_title(sanitized(title)).len() == sanitized(title).len() + 6,
        osc_title(sanitized(title))[at + 4] == sanitized(title)[at],
        sanitized(title)[at] != '\u{1b}' && sanitized(title)[at] != '\u{7}',
        osc_title(sanitized(title))[0] == '\u{1b}',
        osc_title(sanitized(title))[1] == ']',
        osc_title(sanitized(title))[2] == '0',
        osc_title(sanitized(title))[3] == ';',
        osc_title(sanitized(title)).last() == '\\',
{
    lemma_sanitized(title);
    assert(!is_disallowed(sanitized(title)[at]));
}

} // verus!
