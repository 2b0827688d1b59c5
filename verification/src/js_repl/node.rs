//! The JavaScript runtime that kernels need.

use vstd::prelude::*;

use crate::numbers::decimal;
use crate::numbers::decimal_u64;
use crate::numbers::lemma_decimal_digits;
use crate::numbers::lemma_unsigned_round_trip;
use crate::numbers::parse_u64;
use crate::numbers::unsigned_value;
use crate::numbers::IntegerError;
use crate::text::blank;
use crate::text::chars_of;
use crate::text::copy_opt;
use crate::text::is_blank;
use crate::text::is_digit;
use crate::text::is_white;
use crate::text::lemma_index_where;
use crate::text::lemma_trim_around;
use crate::text::lemma_trim_end_front;
use crate::text::lemma_trim_end_shape;
use crate::text::lemma_trim_start_shape;
use crate::text::opt_str;
use crate::text::opt_text;
use crate::text::plus;
use crate::text::plus3;
use crate::text::push_text;
use crate::text::split_where;
use crate::text::text_of;
use crate::text::texts;
use crate::text::trim;
use crate::text::trim_end;
use crate::text::trim_start;
use crate::text::trimmed;

verus! {

/// A version of the runtime.
#[derive(Clone, Copy, Debug, PartialEq, Eq, PartialOrd, Ord)]
pub struct NodeVersion {
    /// The first number.
    pub major: u64,
    /// The second number.
    pub minor: u64,
    /// The third number.
    pub patch: u64,
}

/// What stands between the parts of a version.
pub open spec fn version_break() -> spec_fn(char) -> bool {
    |ch: char| ch == '.' || ch == '-' || ch == '+'
}

/// A text without each `v` in front.
pub open spec fn without_v(text: Seq<char>) -> Seq<char>
    decreases text.len(),
{
    if text.len() > 0 && text[0] == 'v' {
        without_v(text.drop_first())
    } else {
        text
    }
}

/// The parts of a version.
pub open spec fn version_parts(input: Seq<char>) -> Seq<Seq<char>> {
    split_where(without_v(trim(input)), version_break())
}

/// One of the numbers of a version, or why there is none.
pub open spec fn version_number(parts: Seq<Seq<char>>, at: int, name: Seq<char>) -> Result<
    nat,
    Seq<char>,
> {
    if at >= parts.len() {
        Err("missing "@ + name + " version"@)
    } else {
        match unsigned_value(parts[at]) {
            Ok(number) => Ok(number),
            Err(error) => Err("invalid "@ + name + " version: "@ + error.sentence()),
        }
    }
}

/// The version that a text is the notation of, or why it is none.
pub open spec fn version_of(input: Seq<char>) -> Result<(nat, nat, nat), Seq<char>> {
    let parts = version_parts(input);
    match version_number(parts, 0, "major"@) {
        Err(message) => Err(message),
        Ok(major) => match version_number(parts, 1, "minor"@) {
            Err(message) => Err(message),
            Ok(minor) => match version_number(parts, 2, "patch"@) {
                Err(message) => Err(message),
                Ok(patch) => Ok((major, minor, patch)),
            },
        },
    }
}

/// The view of a parse.
pub open spec fn version_result(version: Result<NodeVersion, String>) -> Result<
    (nat, nat, nat),
    Seq<char>,
> {
    match version {
        Ok(version) => Ok((version.major as nat, version.minor as nat, version.patch as nat)),
        Err(message) => Err(message@),
    }
}

/// The parts of a text between the breaks of a version.
fn split_version(text: &str) -> (parts: Vec<String>)
    ensures
        texts(parts@) == split_where(text@, version_break()),
{
    let chars = chars_of(text);
    let mut parts: Vec<String> = Vec::new();
    let mut from: usize = 0;
    proof {
        assert(chars@.skip(0) =~= text@);
        assert(texts(parts@) + split_where(chars@.skip(0), version_break()) =~= split_where(
            text@,
            version_break(),
        ));
    }
    loop
        invariant
            from <= chars@.len(),
            texts(parts@) + split_where(chars@.skip(from as int), version_break()) == split_where(
                text@,
                version_break(),
            ),
        decreases chars@.len() - from,
    {
        let ghost rest = chars@.skip(from as int);
        let ghost before = texts(parts@);
        let mut at: usize = from;
        while at < chars.len() && chars[at] != '.' && chars[at] != '-' && chars[at] != '+'
            invariant
                from <= at <= chars@.len(),
                forall|i: int|
                    from <= i < at ==> chars@[i] != '.' && chars@[i] != '-' && chars@[i] != '+',
            decreases chars@.len() - at,
        {
            at += 1;
        }
        let part = text_of(&chars, from, at);
        proof {
            assert forall|i: int| 0 <= i < at - from implies !version_break()(#[trigger] rest[i]) by {
                assert(rest[i] == chars@[i + from]);
            }
            lemma_index_where(rest, version_break(), at - from);
            assert(part@ =~= rest.take(at - from));
        }
        push_text(&mut parts, part);
        if at >= chars.len() {
            proof {
                assert(rest.take(at - from) =~= rest);
                assert(split_where(rest, version_break()) =~= seq![rest]);
                assert(before + seq![rest] =~= before.push(rest));
            }
            return parts;
        }
        proof {
            let next = chars@.skip(at + 1);
            assert(rest.skip(at - from + 1) =~= next);
            assert(split_where(rest, version_break()) == seq![rest.take(at - from)] + split_where(
                next,
                version_break(),
            ));
            assert(before + (seq![rest.take(at - from)] + split_where(next, version_break()))
                =~= before.push(rest.take(at - from)) + split_where(next, version_break()));
        }
        from = at + 1;
    }
}

/// A text without each `v` in front.
fn strip_v(text: &str) -> (stripped: String)
    ensures
        stripped@ == without_v(text@),
{
    let chars = chars_of(text);
    let mut at: usize = 0;
    assert(chars@.skip(0) =~= text@);
    while at < chars.len() && chars[at] == 'v'
        invariant
            at <= chars@.len(),
            without_v(chars@.skip(at as int)) == without_v(text@),
        decreases chars@.len() - at,
    {
        assert(chars@.skip(at as int)[0] == 'v');
        assert(chars@.skip(at as int).drop_first() =~= chars@.skip(at + 1));
        at += 1;
    }
    let stripped = text_of(&chars, at, chars.len());
    proof {
        let rest = chars@.skip(at as int);
        assert(stripped@ =~= rest);
        if rest.len() > 0 {
            assert(rest[0] == chars@[at as int]);
        }
    }
    stripped
}

/// One of the numbers of a version.
fn parse_part(parts: &Vec<String>, at: usize, name: &str) -> (number: Result<u64, String>)
    ensures
        (match number {
            Ok(number) => Ok(number as nat),
            Err(message) => Err(message@),
        }) == version_number(texts(parts@), at as int, name@),
{
    if at >= parts.len() {
        return Err(plus3("missing ", name, " version"));
    }
    match parse_u64(parts[at].as_str()) {
        Ok(number) => Ok(number),
        Err(error) => Err(plus(plus3("invalid ", name, " version: ").as_str(), error.message())),
    }
}

impl NodeVersion {
    /// The version that a text is the notation of: three numbers, with `v` in front or not, and
    /// with more behind or not.
    pub fn parse(input: &str) -> (version: Result<NodeVersion, String>)
        ensures
            version_result(version) == version_of(input@),
    {
        let parts = split_version(strip_v(trimmed(input).as_str()).as_str());
        let major = match parse_part(&parts, 0, "major") {
            Ok(number) => number,
            Err(message) => return Err(message),
        };
        let minor = match parse_part(&parts, 1, "minor") {
            Ok(number) => number,
            Err(message) => return Err(message),
        };
        let patch = match parse_part(&parts, 2, "patch") {
            Ok(number) => number,
            Err(message) => return Err(message),
        };
        Ok(NodeVersion { major, minor, patch })
    }

    /// The notation of the version.
    pub open spec fn notation(self) -> Seq<char> {
        decimal(self.major as nat) + "."@ + decimal(self.minor as nat) + "."@ + decimal(
            self.patch as nat,
        )
    }

    /// Whether the version comes before another.
    pub open spec fn before(self, other: NodeVersion) -> bool {
        self.major < other.major || (self.major == other.major && (self.minor < other.minor || (
        self.minor == other.minor && self.patch < other.patch)))
    }

    /// The notation of the version.
    pub fn to_text(&self) -> (text: String)
        ensures
            text@ == self.notation(),
    {
        let two = plus3(
            decimal_u64(self.major).as_str(),
            ".",
            decimal_u64(self.minor).as_str(),
        );
        plus3(two.as_str(), ".", decimal_u64(self.patch).as_str())
    }

    /// Whether the version comes before another.
    pub fn is_before(&self, other: &NodeVersion) -> (older: bool)
        ensures
            older == self.before(*other),
    {
        self.major < other.major || (self.major == other.major && (self.minor < other.minor || (
        self.minor == other.minor && self.patch < other.patch)))
    }
}

/// A part without breaks stands by itself.
proof fn lemma_split_part(part: Seq<char>, brk: char, rest: Seq<char>)
    requires
        version_break()(brk),
        forall|i: int| 0 <= i < part.len() ==> !version_break()(#[trigger] part[i]),
    ensures
        split_where(part + seq![brk] + rest, version_break()) == seq![part] + split_where(
            rest,
            version_break(),
        ),
{
    crate::text::lemma_split_part(part, brk, rest, version_break());
}

/// A text without breaks is one part.
proof fn lemma_split_whole(part: Seq<char>)
    requires
        forall|i: int| 0 <= i < part.len() ==> !version_break()(#[trigger] part[i]),
    ensures
        split_where(part, version_break()) == seq![part],
{
    crate::text::lemma_split_whole(part, version_break());
}

/// Parsing the notation of a version gives the version back.
pub proof fn lemma_version_round_trip(version: NodeVersion)
    ensures
        version_of(version.notation()) == Ok::<(nat, nat, nat), Seq<char>>(
            (version.major as nat, version.minor as nat, version.patch as nat),
        ),
{
    let major = decimal(version.major as nat);
    let minor = decimal(version.minor as nat);
    let patch = decimal(version.patch as nat);
    lemma_decimal_digits(version.major as nat);
    lemma_decimal_digits(version.minor as nat);
    lemma_decimal_digits(version.patch as nat);
    lemma_unsigned_round_trip(version.major as nat);
    lemma_unsigned_round_trip(version.minor as nat);
    lemma_unsigned_round_trip(version.patch as nat);
    reveal_strlit(".");
    assert("."@ =~= seq!['.']);
    let text = version.notation();
    let later = minor + seq!['.'] + patch;
    assert(text =~= major + seq!['.'] + later);
    assert(is_digit(text[0])) by {
        assert(text[0] == major[0]);
    }
    assert(is_digit(text.last())) by {
        assert(text.last() == patch.last());
        assert(patch.last() == patch[patch.len() - 1]);
    }
    assert(trim_start(text) == text);
    assert(trim(text) == text);
    assert(without_v(text) == text);
    lemma_split_part(major, '.', later);
    lemma_split_part(minor, '.', patch);
    lemma_split_whole(patch);
    let parts = version_parts(text);
    assert(parts =~= seq![major, minor, patch]);
}

/// White space around a text changes nothing in the version that it is the notation of.
pub proof fn lemma_version_white(before: Seq<char>, text: Seq<char>, after: Seq<char>)
    requires
        is_blank(before),
        is_blank(after),
    ensures
        version_of(before + text + after) == version_of(text),
{
    lemma_trim_around(before, text, after);
}

/// A `v` in front of a text changes nothing in the version that it is the notation of.
pub proof fn lemma_version_v(text: Seq<char>)
    requires
        text.len() > 0 ==> !is_white(text[0]),
    ensures
        version_of(seq!['v'] + text) == version_of(text),
{
    let whole = seq!['v'] + text;
    assert(trim_start(whole) == whole);
    lemma_trim_end_front(seq!['v'], text);
    assert(trim(whole).drop_first() =~= trim(text));
}

/// The parts of two texts with a break between them are those of either.
proof fn lemma_split_around(text: Seq<char>, brk: char, rest: Seq<char>)
    requires
        version_break()(brk),
    ensures
        split_where(text + seq![brk] + rest, version_break()) == split_where(text, version_break())
            + split_where(rest, version_break()),
{
    crate::text::lemma_split_around(text, brk, rest, version_break());
}

/// What stands behind a text without its `v`s stays.
proof fn lemma_without_v_front(text: Seq<char>, rest: Seq<char>)
    requires
        rest.len() > 0,
        rest[0] != 'v',
    ensures
        without_v(text + rest) == without_v(text) + rest,
    decreases text.len(),
{
    if text.len() == 0 {
        assert(text + rest =~= rest);
        assert(without_v(text) + rest =~= rest);
    } else {
        assert((text + rest)[0] == text[0]);
        if text[0] == 'v' {
            assert((text + rest).drop_first() =~= text.drop_first() + rest);
            lemma_without_v_front(text.drop_first(), rest);
        }
    }
}

/// What stands behind the notation of a version, after a break, changes nothing in the version.
pub proof fn lemma_version_tail(text: Seq<char>, brk: char, tail: Seq<char>)
    requires
        version_of(text) is Ok,
        trim(text) == text,
        version_break()(brk),
    ensures
        version_of(text + seq![brk] + tail) == version_of(text),
{
    let whole = text + seq![brk] + tail;
    let kept = trim_end(tail);
    if text.len() == 0 {
        assert(without_v(text) == text);
        lemma_split_whole(text);
        assert(unsigned_value(version_parts(text)[0]) is Err);
    }
    lemma_trim_start_shape(text);
    lemma_trim_end_shape(trim_start(text));
    assert(trim_start(text) =~= text);
    assert(whole[0] == text[0]);
    assert(trim_start(whole) == whole);
    let front = text + seq![brk];
    assert(front.last() == brk);
    lemma_trim_end_front(front, tail);
    let behind = seq![brk] + kept;
    assert(trim(whole) =~= text + behind);
    lemma_without_v_front(text, behind);
    let stripped = without_v(text);
    assert(stripped + behind =~= stripped + seq![brk] + kept);
    lemma_split_around(stripped, brk, kept);
    let parts = version_parts(text);
    let more = version_parts(whole);
    assert(more == parts + split_where(kept, version_break()));
    assert(parts.len() >= 3);
    assert(more[0] == parts[0] && more[1] == parts[1] && more[2] == parts[2]);
}

/// The least version that kernels need, by its notation.
pub fn required_node_version(minimum: &str) -> (version: Result<NodeVersion, String>)
    ensures
        version_result(version) == version_of(minimum@),
{
    NodeVersion::parse(minimum)
}

/// What the runtime put out when it was asked for its version, in words.
pub open spec fn version_details(stdout: Seq<char>, stderr: Seq<char>) -> Seq<char> {
    let first = if is_blank(stdout) {
        Seq::empty()
    } else {
        " stdout: "@ + trim(stdout)
    };
    let both = if is_blank(stderr) {
        first
    } else {
        first + " stderr: "@ + trim(stderr)
    };
    if both.len() == 0 {
        Seq::empty()
    } else {
        " ("@ + both + ")"@
    }
}

/// The version that the runtime put out, or what went wrong. `failed` tells how the runtime ended
/// where it failed.
pub open spec fn reported_version(
    failed: Option<Seq<char>>,
    stdout: Seq<char>,
    stderr: Seq<char>,
) -> Result<(nat, nat, nat), Seq<char>> {
    match failed {
        Some(status) => Err(
            "failed to read Node version (status "@ + status + ")"@ + version_details(
                stdout,
                stderr,
            ),
        ),
        None => match version_of(trim(stdout)) {
            Ok(version) => Ok(version),
            Err(message) => Err(
                "failed to parse Node version output `"@ + trim(stdout) + "`: "@ + message,
            ),
        },
    }
}

/// What the runtime put out when it was asked for its version, in words.
fn describe_output(stdout: &str, stderr: &str) -> (details: String)
    ensures
        details@ == version_details(stdout@, stderr@),
{
    let mut details = String::new();
    proof {
        reveal_strlit(" stdout: ");
        reveal_strlit(" stderr: ");
    }
    let quiet = blank(stdout) && blank(stderr);
    if !blank(stdout) {
        details.append(" stdout: ");
        details.append(trimmed(stdout).as_str());
        assert(details@ =~= " stdout: "@ + trim(stdout@));
    }
    if !blank(stderr) {
        details.append(" stderr: ");
        details.append(trimmed(stderr).as_str());
    }
    if quiet {
        String::new()
    } else {
        plus3(" (", details.as_str(), ")")
    }
}

/// The version that the runtime put out when it was asked for it. `failed` tells how it ended
/// where it failed.
pub fn read_node_version(failed: Option<&str>, stdout: &str, stderr: &str) -> (version: Result<
    NodeVersion,
    String,
>)
    ensures
        version_result(version) == reported_version(
            opt_str(failed),
            stdout@,
            stderr@,
        ),
{
    match failed {
        Some(status) => {
            let told = plus3("failed to read Node version (status ", status, ")");
            Err(plus(told.as_str(), describe_output(stdout, stderr).as_str()))
        },
        None => {
            let shown = trimmed(stdout);
            match NodeVersion::parse(shown.as_str()) {
                Ok(version) => Ok(version),
                Err(message) => {
                    let told = plus3(
                        "failed to parse Node version output `",
                        shown.as_str(),
                        "`: ",
                    );
                    Err(plus(told.as_str(), message.as_str()))
                },
            }
        },
    }
}

/// Whether a version of the runtime will do, or why not.
pub fn ensure_node_version(
    node_path: &str,
    required: &Result<NodeVersion, String>,
    found: &Result<NodeVersion, String>,
) -> (verdict: Result<(), String>)
    ensures
        match verdict {
            Ok(_) => *required is Ok && *found is Ok && !found->Ok_0.before(required->Ok_0),
            Err(message) => match (*required, *found) {
                (Err(cause), _) => message@ == cause@,
                (Ok(_), Err(cause)) => message@ == cause@,
                (Ok(required), Ok(found)) => found.before(required) && message@
                    == "Node runtime too old for js_repl (resolved "@ + node_path@
                    + "): found v"@ + found.notation() + ", requires >= v"@ + required.notation()
                    + ". Install/update Node or set js_repl_node_path to a newer runtime."@,
            },
        },
{
    let required = match required {
        Ok(required) => required,
        Err(cause) => return Err(cause.clone()),
    };
    let found = match found {
        Ok(found) => found,
        Err(cause) => return Err(cause.clone()),
    };
    if found.is_before(required) {
        let mut message = plus3(
            "Node runtime too old for js_repl (resolved ",
            node_path,
            "): found v",
        );
        message.append(found.to_text().as_str());
        message.append(", requires >= v");
        message.append(required.to_text().as_str());
        message.append(". Install/update Node or set js_repl_node_path to a newer runtime.");
        return Err(message);
    }
    Ok(())
}

/// A place where the runtime may be, and whether there is a file there.
#[derive(Clone, Debug, PartialEq, Eq)]
pub struct NodeCandidate {
    /// The path.
    pub path: String,
    /// Whether there is a file.
    pub exists: bool,
}

/// The path of a candidate with a file.
pub open spec fn present(candidate: Option<NodeCandidate>) -> Option<Seq<char>> {
    match candidate {
        Some(candidate) => if candidate.exists {
            Some(candidate.path@)
        } else {
            None
        },
        None => None,
    }
}

/// The runtime that is used: the one that the environment names, or else the one that the
/// configuration names, where there is such a file; or else the one on the search path.
pub fn resolve_node(
    environment: &Option<NodeCandidate>,
    configured: &Option<NodeCandidate>,
    searched: &Option<String>,
) -> (path: Option<String>)
    ensures
        opt_text(path) == (if present(*environment) is Some {
            present(*environment)
        } else if present(*configured) is Some {
            present(*configured)
        } else {
            opt_text(*searched)
        }),
{
    if let Some(candidate) = environment {
        if candidate.exists {
            return Some(candidate.path.clone());
        }
    }
    if let Some(candidate) = configured {
        if candidate.exists {
            return Some(candidate.path.clone());
        }
    }
    copy_opt(searched)
}

/// Versions come one before the other: of two different ones exactly one does, by the first number
/// in which they differ, and what comes before one before another comes before that other.
pub proof fn lemma_before(one: NodeVersion, two: NodeVersion, three: NodeVersion)
    ensures
        one.major < two.major ==> one.before(two),
        one.major == two.major && one.minor < two.minor ==> one.before(two),
        one.major == two.major && one.minor == two.minor && one.patch < two.patch ==> one.before(
            two,
        ),
        one.before(two) ==> !two.before(one) && one != two,
        !one.before(two) && !two.before(one) ==> one == two,
        one.before(two) && two.before(three) ==> one.before(three),
{
}

/// A text with fewer than three numbers is the notation of no version, and neither is one with
/// anything but digits in one of them.
pub proof fn lemma_no_version(text: Seq<char>)
    ensures
        version_parts(text).len() < 3 ==> version_of(text) is Err,
        version_of(text) matches Ok((major, minor, patch)) ==> version_parts(text).len() >= 3
            && unsigned_value(version_parts(text)[0]) == Ok::<_, IntegerError>(major)
            && unsigned_value(version_parts(text)[1]) == Ok::<_, IntegerError>(minor)
            && unsigned_value(version_parts(text)[2]) == Ok::<_, IntegerError>(patch),
        forall|i: int|
            0 <= i < 3 && i < version_parts(text).len() && unsigned_value(
                #[trigger] version_parts(text)[i],
            ) is Err ==> version_of(text) is Err,
{
}

/// The version that the runtime put out is the one it is the notation of; a runtime that failed has
/// none, whatever it put out, and neither has one that put out anything else.
pub proof fn lemma_reported_version(
    failed: Option<Seq<char>>,
    version: NodeVersion,
    stdout: Seq<char>,
    stderr: Seq<char>,
)
    ensures
        failed is Some ==> reported_version(failed, stdout, stderr) is Err,
        failed is None && trim(stdout) == version.notation() ==> reported_version(
            failed,
            stdout,
            stderr,
        ) == Ok::<(nat, nat, nat), Seq<char>>(
            (version.major as nat, version.minor as nat, version.patch as nat),
        ),
        failed is None && version_of(trim(stdout)) is Err ==> reported_version(
            failed,
            stdout,
            stderr,
        ) is Err,
{
    lemma_version_round_trip(version);
}

/// A place counts where there is a file, and only there.
pub proof fn lemma_present(candidate: NodeCandidate)
    ensures
        candidate.exists ==> present(Some(candidate)) == Some(candidate.path@),
        !candidate.exists ==> present(Some(candidate)) is None,
        present(None) is None,
{
}

/// What the runtime put out is told where there is anything but white space in it: its output, its
/// errors, or both.
pub proof fn lemma_version_details(stdout: Seq<char>, stderr: Seq<char>)
    ensures
        is_blank(stdout) && is_blank(stderr) ==> version_details(stdout, stderr).len() == 0,
        !is_blank(stdout) && is_blank(stderr) ==> version_details(stdout, stderr) == " ("@ + (
        " stdout: "@ + trim(stdout)) + ")"@,
        is_blank(stdout) && !is_blank(stderr) ==> version_details(stdout, stderr) == " ("@ + (
        " stderr: "@ + trim(stderr)) + ")"@,
        !is_blank(stdout) && !is_blank(stderr) ==> version_details(stdout, stderr) == " ("@ + (
        " stdout: "@ + trim(stdout) + " stderr: "@ + trim(stderr)) + ")"@,
{
    reveal_strlit(" stdout: ");
    reveal_strlit(" stderr: ");
    assert(Seq::<char>::empty() + " stderr: "@ =~= " stderr: "@);
}

} // verus!
