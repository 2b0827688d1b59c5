//! What the model asks to have run, and the line of pragmas that may stand before it.

use vstd::prelude::*;

use crate::json::json_kind;
use crate::json::json_kind_of;
use crate::json::JsonKind;
use crate::numbers::decimal;
use crate::numbers::lemma_unsigned_round_trip;
use crate::numbers::parse_u64;
use crate::numbers::unsigned_value;
use crate::text::blank;
use crate::text::copy_opt;
use crate::text::is_blank;
use crate::text::is_white;
use crate::text::lacks;
use crate::text::lemma_split_once;
use crate::text::lemma_strip;
use crate::text::lemma_trim_start_white;
use crate::text::lower_text;
use crate::text::opt_text;
use crate::text::plus3;
use crate::text::same_text;
use crate::text::split_once;
use crate::text::split_text_once;
use crate::text::split_whitespace;
use crate::text::starts;
use crate::text::starts_with;
use crate::text::strip;
use crate::text::strip_prefix;
use crate::text::texts;
use crate::text::to_ascii_lowercase;
use crate::text::trim;
use crate::text::trim_start;
use crate::text::trimmed;
use crate::text::trimmed_start;
use crate::text::words;
use crate::tools::respond;
use crate::tools::ErrorView;
use crate::tools::FunctionCallError;

verus! {

/// What a line of pragmas begins with.
pub const JS_REPL_PRAGMA_PREFIX: &'static str = "// codex-js-repl:";

/// What is said where a time limit is set on code that is polled.
pub const JS_REPL_POLL_TIMEOUT_ARG_ERROR_MESSAGE: &'static str =
    "js_repl timeout_ms is not supported when poll=true; use js_repl_poll yield_time_ms";

/// Code to run, and how.
#[derive(Clone, Debug, PartialEq, Eq)]
pub struct JsReplArgs {
    /// The code.
    pub code: String,
    /// How long the code may run.
    pub timeout_ms: Option<u64>,
    /// Whether the code runs in the background, to be polled.
    pub poll: bool,
    /// The session in which it runs.
    pub session_id: Option<String>,
}

/// Code to run, with texts as characters.
#[verifier::ext_equal]
pub struct ArgsView {
    /// The code.
    pub code: Seq<char>,
    /// How long the code may run.
    pub timeout_ms: Option<u64>,
    /// Whether the code runs in the background, to be polled.
    pub poll: bool,
    /// The session in which it runs.
    pub session_id: Option<Seq<char>>,
}

impl View for JsReplArgs {
    type V = ArgsView;

    open spec fn view(&self) -> ArgsView {
        ArgsView {
            code: self.code@,
            timeout_ms: self.timeout_ms,
            poll: self.poll,
            session_id: opt_text(self.session_id),
        }
    }
}

impl JsReplArgs {
    /// A copy.
    pub fn copy(&self) -> (copy: JsReplArgs)
        ensures
            copy@ == self@,
    {
        JsReplArgs {
            code: self.code.clone(),
            timeout_ms: self.timeout_ms,
            poll: self.poll,
            session_id: copy_opt(&self.session_id),
        }
    }
}

/// The view of a parse.
pub open spec fn args_result(args: Result<JsReplArgs, FunctionCallError>) -> Result<
    ArgsView,
    ErrorView,
> {
    match args {
        Ok(args) => Ok(args@),
        Err(error) => Err(error@),
    }
}

// ---------------------------------------------------------------------------------------------
// Source text
// ---------------------------------------------------------------------------------------------

/// Why a text is not taken for source, given the kind of JSON that it is; none where it is taken.
pub open spec fn source_fault(code: Seq<char>, kind: Option<JsonKind>) -> Option<Seq<char>> {
    if starts(trim(code), "```"@) {
        Some(
            "js_repl expects raw JavaScript source, not markdown code fences. Resend plain JS only (optional first line `// codex-js-repl: ...`)."@,
        )
    } else if kind == Some(JsonKind::Object) || kind == Some(JsonKind::Text) {
        Some(
            "js_repl is a freeform tool and expects raw JavaScript source. Resend plain JS only (optional first line `// codex-js-repl: ...`); do not send JSON (`{\"code\":...}`), quoted code, or markdown fences."@,
        )
    } else {
        None
    }
}

/// The view of a test.
pub open spec fn fault(result: Result<(), FunctionCallError>) -> Option<ErrorView> {
    match result {
        Ok(_) => None,
        Err(error) => Some(error@),
    }
}

/// An error that the model is told, where there is one.
pub open spec fn told(message: Option<Seq<char>>) -> Option<ErrorView> {
    match message {
        Some(message) => Some(ErrorView::RespondToModel(message)),
        None => None,
    }
}

/// Whether a text is taken for source, given the kind of JSON that it is.
pub fn judge_source(code: &str, kind: Option<JsonKind>) -> (verdict: Result<(), FunctionCallError>)
    ensures
        fault(verdict) == told(source_fault(code@, kind)),
{
    if starts_with(trimmed(code).as_str(), "```") {
        return Err(
            respond(
                "js_repl expects raw JavaScript source, not markdown code fences. Resend plain JS only (optional first line `// codex-js-repl: ...`).",
            ),
        );
    }
    match kind {
        Some(JsonKind::Object) | Some(JsonKind::Text) => Err(
            respond(
                "js_repl is a freeform tool and expects raw JavaScript source. Resend plain JS only (optional first line `// codex-js-repl: ...`); do not send JSON (`{\"code\":...}`), quoted code, or markdown fences.",
            ),
        ),
        _ => Ok(()),
    }
}

/// Whether a text is taken for source: not where it is fenced, nor where it is a JSON object or a
/// JSON text.
pub fn reject_json_or_quoted_source(code: &str) -> (verdict: Result<(), FunctionCallError>)
    ensures
        fault(verdict) == told(source_fault(code@, json_kind_of(trim(code@)))),
{
    judge_source(code, json_kind(trimmed(code).as_str()))
}

// ---------------------------------------------------------------------------------------------
// Pragmas
// ---------------------------------------------------------------------------------------------

/// What the pragmas so far say.
pub struct Pragmas {
    /// The time limit.
    pub timeout_ms: Option<u64>,
    /// Whether the code is polled.
    pub poll: Option<bool>,
    /// The session.
    pub session_id: Option<String>,
}

/// What the pragmas so far say, with texts as characters.
pub struct PragmasView {
    /// The time limit.
    pub timeout_ms: Option<u64>,
    /// Whether the code is polled.
    pub poll: Option<bool>,
    /// The session.
    pub session_id: Option<Seq<char>>,
}

impl View for Pragmas {
    type V = PragmasView;

    open spec fn view(&self) -> PragmasView {
        PragmasView {
            timeout_ms: self.timeout_ms,
            poll: self.poll,
            session_id: opt_text(self.session_id),
        }
    }
}

/// What the pragmas say after one more, or why it will not do.
pub open spec fn with_pragma(so_far: PragmasView, token: Seq<char>) -> Result<
    PragmasView,
    Seq<char>,
> {
    match split_once(token, '=') {
        None => Err(
            "js_repl pragma expects space-separated key=value pairs (supported keys: timeout_ms, poll, session_id); got `"@
                + token + "`"@,
        ),
        Some((key, value)) => if key == "timeout_ms"@ {
            if so_far.timeout_ms is Some {
                Err("js_repl pragma specifies timeout_ms more than once"@)
            } else {
                match unsigned_value(value) {
                    Ok(limit) => Ok(PragmasView { timeout_ms: Some(limit as u64), ..so_far }),
                    Err(_) => Err(
                        "js_repl pragma timeout_ms must be an integer; got `"@ + value + "`"@,
                    ),
                }
            }
        } else if key == "poll"@ {
            if so_far.poll is Some {
                Err("js_repl pragma specifies poll more than once"@)
            } else if lower_text(value) == "true"@ {
                Ok(PragmasView { poll: Some(true), ..so_far })
            } else if lower_text(value) == "false"@ {
                Ok(PragmasView { poll: Some(false), ..so_far })
            } else {
                Err("js_repl pragma poll must be true or false; got `"@ + value + "`"@)
            }
        } else if key == "session_id"@ {
            if so_far.session_id is Some {
                Err("js_repl pragma specifies session_id more than once"@)
            } else if is_blank(value) {
                Err("js_repl session_id must not be empty"@)
            } else {
                Ok(PragmasView { session_id: Some(value), ..so_far })
            }
        } else {
            Err("js_repl pragma only supports timeout_ms, poll, session_id; got `"@ + key + "`"@)
        },
    }
}

/// What pragmas say together, or why the first that will not do will not.
pub open spec fn pragmas_of(tokens: Seq<Seq<char>>) -> Result<PragmasView, Seq<char>>
    decreases tokens.len(),
{
    if tokens.len() == 0 {
        Ok(PragmasView { timeout_ms: None, poll: None, session_id: None })
    } else {
        match pragmas_of(tokens.drop_last()) {
            Ok(so_far) => with_pragma(so_far, tokens.last()),
            Err(message) => Err(message),
        }
    }
}

/// The view of a step through pragmas.
pub open spec fn pragma_step(
    result: Result<(), FunctionCallError>,
    after: PragmasView,
) -> Result<PragmasView, ErrorView> {
    match result {
        Ok(_) => Ok(after),
        Err(error) => Err(error@),
    }
}

/// A result with a message as an error that the model is told.
pub open spec fn told_result<T>(result: Result<T, Seq<char>>) -> Result<T, ErrorView> {
    match result {
        Ok(value) => Ok(value),
        Err(message) => Err(ErrorView::RespondToModel(message)),
    }
}

/// Takes one more pragma in.
fn apply_pragma(pragmas: &mut Pragmas, token: &str) -> (result: Result<(), FunctionCallError>)
    ensures
        pragma_step(result, final(pragmas)@) == told_result(with_pragma(old(pragmas)@, token@)),
{
    proof {
        reveal_strlit("timeout_ms");
        reveal_strlit("poll");
        reveal_strlit("session_id");
        reveal_strlit("true");
        reveal_strlit("false");
    }
    let (key, value) = match split_text_once(token, '=') {
        Some(pair) => pair,
        None => return Err(
            FunctionCallError::RespondToModel(
                plus3(
                    "js_repl pragma expects space-separated key=value pairs (supported keys: timeout_ms, poll, session_id); got `",
                    token,
                    "`",
                ),
            ),
        ),
    };
    if same_text(key.as_str(), "timeout_ms") {
        if pragmas.timeout_ms.is_some() {
            return Err(respond("js_repl pragma specifies timeout_ms more than once"));
        }
        match parse_u64(value.as_str()) {
            Ok(limit) => {
                pragmas.timeout_ms = Some(limit);
                Ok(())
            },
            Err(_) => Err(
                FunctionCallError::RespondToModel(
                    plus3(
                        "js_repl pragma timeout_ms must be an integer; got `",
                        value.as_str(),
                        "`",
                    ),
                ),
            ),
        }
    } else if same_text(key.as_str(), "poll") {
        if pragmas.poll.is_some() {
            return Err(respond("js_repl pragma specifies poll more than once"));
        }
        let lowered = to_ascii_lowercase(value.as_str());
        if same_text(lowered.as_str(), "true") {
            pragmas.poll = Some(true);
            Ok(())
        } else if same_text(lowered.as_str(), "false") {
            pragmas.poll = Some(false);
            Ok(())
        } else {
            Err(
                FunctionCallError::RespondToModel(
                    plus3("js_repl pragma poll must be true or false; got `", value.as_str(), "`"),
                ),
            )
        }
    } else if same_text(key.as_str(), "session_id") {
        if pragmas.session_id.is_some() {
            return Err(respond("js_repl pragma specifies session_id more than once"));
        }
        if blank(value.as_str()) {
            return Err(respond("js_repl session_id must not be empty"));
        }
        pragmas.session_id = Some(value);
        Ok(())
    } else {
        Err(
            FunctionCallError::RespondToModel(
                plus3(
                    "js_repl pragma only supports timeout_ms, poll, session_id; got `",
                    key.as_str(),
                    "`",
                ),
            ),
        )
    }
}

/// The view of parsed pragmas.
pub open spec fn pragmas_result(result: Result<Pragmas, FunctionCallError>) -> Result<
    PragmasView,
    ErrorView,
> {
    match result {
        Ok(pragmas) => Ok(pragmas@),
        Err(error) => Err(error@),
    }
}

/// Once a pragma will not do, no later one mends it.
proof fn lemma_fault_stays(tokens: Seq<Seq<char>>, count: int)
    requires
        0 <= count <= tokens.len(),
        pragmas_of(tokens.take(count)) is Err,
    ensures
        pragmas_of(tokens) == pragmas_of(tokens.take(count)),
    decreases tokens.len(),
{
    if count < tokens.len() {
        assert(tokens.drop_last().take(count) =~= tokens.take(count));
        lemma_fault_stays(tokens.drop_last(), count);
    } else {
        assert(tokens.take(count) =~= tokens);
    }
}

/// What the pragmas on a line say together.
pub fn parse_pragmas(directive: &str) -> (pragmas: Result<Pragmas, FunctionCallError>)
    ensures
        pragmas_result(pragmas) == told_result(pragmas_of(words(directive@))),
{
    let tokens = split_whitespace(directive);
    let ghost all = texts(tokens@);
    let mut pragmas = Pragmas { timeout_ms: None, poll: None, session_id: None };
    let mut at: usize = 0;
    assert(pragmas_of(all.take(0)) == Ok::<_, Seq<char>>(pragmas@));
    while at < tokens.len()
        invariant
            all == texts(tokens@),
            all == words(directive@),
            at <= tokens@.len(),
            pragmas_of(all.take(at as int)) == Ok::<_, Seq<char>>(pragmas@),
        decreases tokens@.len() - at,
    {
        proof {
            assert(all.take(at + 1).drop_last() =~= all.take(at as int));
            assert(all.take(at + 1).last() == tokens@[at as int]@);
        }
        match apply_pragma(&mut pragmas, tokens[at].as_str()) {
            Ok(_) => {},
            Err(error) => {
                proof {
                    lemma_fault_stays(all, at + 1);
                }
                return Err(error);
            },
        }
        at += 1;
    }
    assert(all.take(at as int) =~= all);
    Ok(pragmas)
}

// ---------------------------------------------------------------------------------------------
// Input
// ---------------------------------------------------------------------------------------------

/// The first line of a text.
pub open spec fn first_line(text: Seq<char>) -> Seq<char> {
    match split_once(text, '\n') {
        Some((first, rest)) => first,
        None => text,
    }
}

/// What follows the first line of a text.
pub open spec fn later_lines(text: Seq<char>) -> Seq<char> {
    match split_once(text, '\n') {
        Some((first, rest)) => rest,
        None => Seq::empty(),
    }
}

/// What stands on the line of pragmas, where the text begins with one.
pub open spec fn directive_of(input: Seq<char>) -> Option<Seq<char>> {
    strip(trim_start(first_line(input)), JS_REPL_PRAGMA_PREFIX@)
}

/// The source in a text: all of it, or what follows the line of pragmas.
pub open spec fn source_of(input: Seq<char>) -> Seq<char> {
    if directive_of(input) is Some {
        later_lines(input)
    } else {
        input
    }
}

/// Why pragmas do not go together; none where they do.
pub open spec fn clash(session_id: Option<Seq<char>>, poll: bool, timeout_ms: Option<u64>) -> Option<
    Seq<char>,
> {
    if session_id is Some && !poll {
        Some("js_repl session_id is only supported when poll=true"@)
    } else if poll && timeout_ms is Some {
        Some(JS_REPL_POLL_TIMEOUT_ARG_ERROR_MESSAGE@)
    } else {
        None
    }
}

/// What a text asks to have run, given the kind of JSON that its source is, or why it will not
/// do.
pub open spec fn freeform_args(input: Seq<char>, kind: Option<JsonKind>) -> Result<
    ArgsView,
    Seq<char>,
> {
    if is_blank(input) {
        Err(
            "js_repl expects raw JavaScript tool input (non-empty). Provide JS source text, optionally with first-line `// codex-js-repl: ...`."@,
        )
    } else {
        let source = source_of(input);
        match directive_of(input) {
            None => match source_fault(source, kind) {
                Some(message) => Err(message),
                None => Ok(
                    ArgsView { code: source, timeout_ms: None, poll: false, session_id: None },
                ),
            },
            Some(directive) => match pragmas_of(words(trim(directive))) {
                Err(message) => Err(message),
                Ok(pragmas) => if is_blank(source) {
                    Err(
                        "js_repl pragma must be followed by JavaScript source on subsequent lines"@,
                    )
                } else if source_fault(source, kind) is Some {
                    Err(source_fault(source, kind)->0)
                } else {
                    let poll = pragmas.poll == Some(true);
                    match clash(pragmas.session_id, poll, pragmas.timeout_ms) {
                        Some(message) => Err(message),
                        None => Ok(
                            ArgsView {
                                code: source,
                                timeout_ms: pragmas.timeout_ms,
                                poll,
                                session_id: pragmas.session_id,
                            },
                        ),
                    }
                },
            },
        }
    }
}

/// The first line of a text, and what follows it.
fn split_first_line(text: &str) -> (lines: (String, String))
    ensures
        lines.0@ == first_line(text@),
        lines.1@ == later_lines(text@),
{
    match split_text_once(text, '\n') {
        Some(pair) => pair,
        None => (text.to_owned(), String::new()),
    }
}

/// The source in a text: all of it, or what follows the line of pragmas.
pub fn freeform_source(input: &str) -> (source: String)
    ensures
        source@ == source_of(input@),
{
    let (first, rest) = split_first_line(input);
    match strip_prefix(trimmed_start(first.as_str()).as_str(), JS_REPL_PRAGMA_PREFIX) {
        Some(_) => rest,
        None => input.to_owned(),
    }
}

/// What a text asks to have run, given the kind of JSON that its source is.
pub fn parse_freeform(input: &str, kind: Option<JsonKind>) -> (args: Result<
    JsReplArgs,
    FunctionCallError,
>)
    ensures
        args_result(args) == told_result(freeform_args(input@, kind)),
{
    if blank(input) {
        return Err(
            respond(
                "js_repl expects raw JavaScript tool input (non-empty). Provide JS source text, optionally with first-line `// codex-js-repl: ...`.",
            ),
        );
    }
    let (first, rest) = split_first_line(input);
    let directive = match strip_prefix(
        trimmed_start(first.as_str()).as_str(),
        JS_REPL_PRAGMA_PREFIX,
    ) {
        Some(directive) => directive,
        None => {
            return match judge_source(input, kind) {
                Ok(_) => Ok(
                    JsReplArgs {
                        code: input.to_owned(),
                        timeout_ms: None,
                        poll: false,
                        session_id: None,
                    },
                ),
                Err(error) => Err(error),
            };
        },
    };
    let pragmas = match parse_pragmas(trimmed(directive.as_str()).as_str()) {
        Ok(pragmas) => pragmas,
        Err(error) => return Err(error),
    };
    if blank(rest.as_str()) {
        return Err(
            respond("js_repl pragma must be followed by JavaScript source on subsequent lines"),
        );
    }
    if let Err(error) = judge_source(rest.as_str(), kind) {
        return Err(error);
    }
    let poll = match pragmas.poll {
        Some(poll) => poll,
        None => false,
    };
    if pragmas.session_id.is_some() && !poll {
        return Err(respond("js_repl session_id is only supported when poll=true"));
    }
    if poll && pragmas.timeout_ms.is_some() {
        return Err(respond(JS_REPL_POLL_TIMEOUT_ARG_ERROR_MESSAGE));
    }
    Ok(
        JsReplArgs {
            code: rest,
            timeout_ms: pragmas.timeout_ms,
            poll,
            session_id: pragmas.session_id,
        },
    )
}

/// What a text asks to have run.
pub fn parse_freeform_args(input: &str) -> (args: Result<JsReplArgs, FunctionCallError>)
    ensures
        args_result(args) == told_result(
            freeform_args(input@, json_kind_of(trim(source_of(input@)))),
        ),
{
    let source = freeform_source(input);
    let kind = json_kind(trimmed(source.as_str()).as_str());
    parse_freeform(input, kind)
}

/// What is asked to be run is never blank, has a session only where it is polled, and a time limit
/// only where it is not; and no session has a blank name.
pub proof fn lemma_freeform_args(input: Seq<char>, kind: Option<JsonKind>)
    ensures
        freeform_args(input, kind) matches Ok(args) ==> {
            &&& !is_blank(args.code)
            &&& args.session_id is Some ==> args.poll
            &&& args.poll ==> args.timeout_ms is None
            &&& args.session_id matches Some(id) ==> !is_blank(id)
        },
{
    if let Some(directive) = directive_of(input) {
        lemma_session_not_blank(words(trim(directive)));
    }
}

/// No pragma names a session with a blank name.
proof fn lemma_session_not_blank(tokens: Seq<Seq<char>>)
    ensures
        pragmas_of(tokens) matches Ok(pragmas) ==> (pragmas.session_id matches Some(id)
            ==> !is_blank(id)),
    decreases tokens.len(),
{
    if tokens.len() > 0 {
        lemma_session_not_blank(tokens.drop_last());
    }
}

/// A text is taken for source unless it begins with a fence, behind white space, or is an object or
/// a text of JSON.
pub proof fn lemma_source_taken(code: Seq<char>, kind: Option<JsonKind>)
    ensures
        source_fault(code, kind) is None <==> !starts(trim(code), "```"@) && kind != Some(
            JsonKind::Object,
        ) && kind != Some(JsonKind::Text),
{
}

/// Source without a line of pragmas is run as it was sent, to the last character: without a time
/// limit, not in the background, and in no session.
pub proof fn lemma_plain_source(input: Seq<char>, kind: Option<JsonKind>)
    requires
        !is_blank(input),
        !starts(trim_start(first_line(input)), "// codex-js-repl:"@),
    ensures
        source_of(input) == input,
        match freeform_args(input, kind) {
            Ok(args) => {
                &&& source_fault(input, kind) is None
                &&& args.code == input
                &&& args.timeout_ms is None
                &&& !args.poll
                &&& args.session_id is None
            },
            Err(message) => source_fault(input, kind) == Some(message),
        },
{
}

/// Source below a line of pragmas is run as it was sent, to the last character, in the way that the
/// pragmas say. Where they do not go together, or one of them will not do, nothing is run; nor
/// where there is no source.
pub proof fn lemma_pragma_source(
    white: Seq<char>,
    directive: Seq<char>,
    source: Seq<char>,
    kind: Option<JsonKind>,
)
    requires
        is_blank(white),
        lacks(white, '\n'),
        lacks(directive, '\n'),
    ensures
        ({
            let input = white + "// codex-js-repl:"@ + directive + seq!['\n'] + source;
            let pragmas = pragmas_of(words(trim(directive)));
            &&& source_of(input) == source
            &&& pragmas is Err || is_blank(source) || source_fault(source, kind) is Some
                ==> freeform_args(input, kind) is Err
            &&& !is_blank(source) && source_fault(source, kind) is None ==> (
            pragmas matches Ok(pragmas) ==> {
                let poll = pragmas.poll == Some(true);
                let clashes = (pragmas.session_id is Some && !poll) || (poll
                    && pragmas.timeout_ms is Some);
                &&& clashes ==> freeform_args(input, kind) is Err
                &&& !clashes ==> (freeform_args(input, kind) matches Ok(args) && {
                    &&& args.code == source
                    &&& args.timeout_ms == pragmas.timeout_ms
                    &&& args.poll == poll
                    &&& args.session_id == pragmas.session_id
                })
            })
        }),
{
    let prefix = "// codex-js-repl:"@;
    reveal_strlit("// codex-js-repl:");
    let line = white + prefix + directive;
    let input = line + seq!['\n'] + source;
    assert(lacks(line, '\n')) by {
        assert forall|i: int| 0 <= i < line.len() implies #[trigger] line[i] != '\n' by {
            if i < white.len() {
                assert(line[i] == white[i]);
            } else if i < white.len() + prefix.len() {
                assert(line[i] == prefix[i - white.len()]);
            } else {
                assert(line[i] == directive[i - white.len() - prefix.len()]);
            }
        }
    }
    lemma_split_once(line, '\n', source);
    assert(first_line(input) == line);
    assert(later_lines(input) == source);
    let rest = prefix + directive;
    assert(line =~= white + rest);
    assert(!is_white(rest[0]));
    lemma_trim_start_white(white, rest);
    lemma_strip(line, prefix, directive);
    assert(directive_of(input) == Some(directive));
    assert(!is_blank(input)) by {
        assert(input[white.len() as int] == rest[0]);
        assert(!is_white(input[white.len() as int]));
    }
}

/// What one more pragma says, behind those so far. Each says one thing and leaves the others as
/// they are: a time limit as a whole number, whether the code is polled in letters of either size,
/// or a session by a name that is not blank. None may be said twice, and nothing else can be said.
pub proof fn lemma_pragma(so_far: PragmasView, key: Seq<char>, value: Seq<char>, limit: u64)
    requires
        lacks(key, '='),
    ensures
        ({
            let after = with_pragma(so_far, key + seq!['='] + value);
            &&& key == "timeout_ms"@ && so_far.timeout_ms is None && value == decimal(limit as nat)
                ==> (after matches Ok(pragmas) && pragmas.timeout_ms == Some(limit) && pragmas.poll
                == so_far.poll && pragmas.session_id == so_far.session_id)
            &&& key == "timeout_ms"@ && unsigned_value(value) is Err ==> after is Err
            &&& key == "timeout_ms"@ && so_far.timeout_ms is Some ==> after is Err
            &&& key == "poll"@ && so_far.poll is None && lower_text(value) == "true"@ ==> (
            after matches Ok(pragmas) && pragmas.poll == Some(true) && pragmas.timeout_ms
                == so_far.timeout_ms && pragmas.session_id == so_far.session_id)
            &&& key == "poll"@ && so_far.poll is None && lower_text(value) == "false"@ ==> (
            after matches Ok(pragmas) && pragmas.poll == Some(false) && pragmas.timeout_ms
                == so_far.timeout_ms && pragmas.session_id == so_far.session_id)
            &&& key == "poll"@ && (so_far.poll is Some || (lower_text(value) != "true"@
                && lower_text(value) != "false"@)) ==> after is Err
            &&& key == "session_id"@ && so_far.session_id is None && !is_blank(value) ==> (
            after matches Ok(pragmas) && pragmas.session_id == Some(value) && pragmas.timeout_ms
                == so_far.timeout_ms && pragmas.poll == so_far.poll)
            &&& key == "session_id"@ && (so_far.session_id is Some || is_blank(value)) ==> after
                is Err
            &&& key != "timeout_ms"@ && key != "poll"@ && key != "session_id"@ ==> after is Err
        }),
        with_pragma(so_far, key) is Err,
{
    lemma_split_once(key, '=', value);
    lemma_unsigned_round_trip(limit as nat);
    reveal_strlit("timeout_ms");
    reveal_strlit("poll");
    reveal_strlit("session_id");
    reveal_strlit("true");
    reveal_strlit("false");
    assert("timeout_ms"@.len() == 10 && "timeout_ms"@[0] == 't');
    assert("session_id"@.len() == 10 && "session_id"@[0] == 's');
    assert("poll"@.len() == 4);
    assert("true"@.len() != "false"@.len());
}

/// Pragmas are taken in one after another, and the first that will not do settles it.
pub proof fn lemma_pragmas_on(tokens: Seq<Seq<char>>, token: Seq<char>)
    ensures
        pragmas_of(tokens) matches Ok(so_far) ==> pragmas_of(tokens.push(token)) == with_pragma(
            so_far,
            token,
        ),
        pragmas_of(tokens) matches Err(message) ==> pragmas_of(tokens.push(token)) == Err::<
            PragmasView,
            Seq<char>,
        >(message),
        pragmas_of(Seq::<Seq<char>>::empty()) matches Ok(none) && none.timeout_ms is None
            && none.poll is None && none.session_id is None,
{
    assert(tokens.push(token).drop_last() =~= tokens);
}

} // verus!
