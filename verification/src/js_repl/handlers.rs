//! The tools with which the model runs code, polls it, and resets sessions.

use vstd::prelude::*;

use crate::js_repl::args::freeform_args;
use crate::js_repl::args::lemma_freeform_args;
use crate::js_repl::args::parse_freeform_args;
use crate::js_repl::args::source_of;
use crate::js_repl::args::told;
use crate::js_repl::args::told_result;
use crate::js_repl::args::ArgsView;
use crate::js_repl::args::JsReplArgs;
use crate::js_repl::args::JS_REPL_POLL_TIMEOUT_ARG_ERROR_MESSAGE;
use crate::js_repl::diagnostics::text_or_null;
use crate::js_repl::kernel::JsExecResult;
use crate::js_repl::kernel::JS_REPL_TIMEOUT_ERROR_MESSAGE;
use crate::js_repl::messages::exec_output;
use crate::js_repl::messages::js_repl_exec_end;
use crate::js_repl::messages::ToolEventStage;
use crate::js_repl::sessions::JsExecPollResult;
use crate::js_repl::sessions::JsExecSubmission;
use crate::js_repl::sessions::PollView;
use crate::json::json_kind_of;
use crate::json::json_members;
use crate::json::json_text;
use crate::json::lemma_json_view;
use crate::json::member;
use crate::json::JsonKind;
use crate::json::JsonValue;
use crate::json::JsonView;
use crate::text::blank;
use crate::text::is_blank;
use crate::text::join;
use crate::text::joined;
use crate::text::opt_text;
use crate::text::same_text;
use crate::text::trim;
use crate::tools::error_message;
use crate::tools::respond;
use crate::tools::ErrorView;
use crate::tools::FunctionCallError;
use crate::tools::OutputView;
use crate::tools::PayloadView;
use crate::tools::ToolKind;
use crate::tools::ToolOutput;
use crate::tools::ToolPayload;
use crate::user_input::text_result;

verus! {

/// The tool that runs code.
pub struct JsReplHandler;

/// The tool that resets sessions.
pub struct JsReplResetHandler;

/// The tool that polls code.
pub struct JsReplPollHandler;

/// What is said where code cannot be run.
pub const DISABLED_MESSAGE: &'static str = "js_repl is disabled by feature flag";

/// What is said where code cannot be polled.
pub const POLLING_DISABLED_MESSAGE: &'static str = "js_repl polling is disabled by feature flag";

/// Whether a message says that code ran for too long.
pub fn is_js_repl_timeout_message(message: &str) -> (timed_out: bool)
    ensures
        timed_out == (message@ == JS_REPL_TIMEOUT_ERROR_MESSAGE@),
{
    same_text(message, JS_REPL_TIMEOUT_ERROR_MESSAGE)
}

// ---------------------------------------------------------------------------------------------
// Running code
// ---------------------------------------------------------------------------------------------

/// What the model asks to have run.
#[derive(Clone, Debug, PartialEq, Eq)]
pub enum JsReplInput {
    /// Arguments in JSON, which are still to be read.
    Arguments(String),
    /// Arguments that were read.
    Parsed(JsReplArgs),
}

/// What the model asks to have run, with texts as characters.
pub enum InputView {
    /// Arguments in JSON, which are still to be read.
    Arguments(Seq<char>),
    /// Arguments that were read.
    Parsed(ArgsView),
}

impl View for JsReplInput {
    type V = InputView;

    open spec fn view(&self) -> InputView {
        match *self {
            JsReplInput::Arguments(arguments) => InputView::Arguments(arguments@),
            JsReplInput::Parsed(args) => InputView::Parsed(args@),
        }
    }
}

/// What a call asks to have run, or why it is refused.
pub open spec fn accepted_input(payload: PayloadView, enabled: bool) -> Result<
    InputView,
    Seq<char>,
> {
    if !enabled {
        Err(DISABLED_MESSAGE@)
    } else {
        match payload {
            PayloadView::Function(arguments) => Ok(InputView::Arguments(arguments)),
            PayloadView::Custom(input) => match freeform_args(
                input,
                json_kind_of(trim(source_of(input))),
            ) {
                Ok(args) => Ok(InputView::Parsed(args)),
                Err(message) => Err(message),
            },
            _ => Err("js_repl expects custom or function payload"@),
        }
    }
}

/// Why code is not run; none where it is.
pub open spec fn args_fault(args: ArgsView, polling_enabled: bool) -> Option<Seq<char>> {
    if args.session_id is Some && !args.poll {
        Some("js_repl session_id is only supported when poll=true"@)
    } else if args.session_id matches Some(session_id) && is_blank(session_id) {
        Some("js_repl session_id must not be empty"@)
    } else if args.poll && args.timeout_ms is Some {
        Some(JS_REPL_POLL_TIMEOUT_ARG_ERROR_MESSAGE@)
    } else if args.poll && !polling_enabled {
        Some(POLLING_DISABLED_MESSAGE@)
    } else {
        None
    }
}

/// What a call gives back, and what the user is told of it.
#[derive(Debug, PartialEq, Eq)]
pub struct HandlerResult {
    /// What the model gets.
    pub output: Result<ToolOutput, FunctionCallError>,
    /// What the user is told.
    pub event: Option<ToolEventStage>,
}

/// The view of what the model gets.
pub open spec fn output_result(output: Result<ToolOutput, FunctionCallError>) -> Result<
    OutputView,
    ErrorView,
> {
    match output {
        Ok(output) => Ok(output@),
        Err(error) => Err(error@),
    }
}

/// Whether the user is told that a call failed with some message.
pub open spec fn tells_failure(
    event: Option<ToolEventStage>,
    message: Seq<char>,
    duration: u64,
    timed_out: bool,
) -> bool {
    event matches Some(ToolEventStage::Failure(result)) && result@ == exec_output(
        Seq::empty(),
        Some(message),
        duration as nat,
        timed_out,
    )
}

/// Whether the user is told that a call succeeded with some output.
pub open spec fn tells_success(event: Option<ToolEventStage>, output: Seq<char>, duration: u64) -> bool {
    event matches Some(ToolEventStage::Success(result)) && result@ == exec_output(
        output,
        None,
        duration as nat,
        false,
    )
}

/// What the model gets for code that was handed to a session.
pub open spec fn submission_value(exec_id: Seq<char>, session_id: Seq<char>) -> JsonView {
    JsonView::Object(
        seq![
            ("exec_id"@, JsonView::Text(exec_id)),
            ("session_id"@, JsonView::Text(session_id)),
            ("status"@, JsonView::Text("running"@)),
        ],
    )
}

impl JsReplHandler {
    /// The kind of the tool.
    pub fn kind(&self) -> (kind: ToolKind)
        ensures
            kind == ToolKind::Function,
    {
        ToolKind::Function
    }

    /// Whether the tool can be called with some payload.
    pub fn matches_kind(&self, payload: &ToolPayload) -> (matched: bool)
        ensures
            matched == (payload@ is Function || payload@ is Custom),
    {
        match payload {
            ToolPayload::Function { .. } => true,
            ToolPayload::Custom { .. } => true,
            _ => false,
        }
    }

    /// What a call asks to have run.
    pub fn accept(&self, payload: &ToolPayload, enabled: bool) -> (input: Result<
        JsReplInput,
        FunctionCallError,
    >)
        ensures
            (match input {
                Ok(input) => Ok(input@),
                Err(error) => Err(error@),
            }) == told_result(accepted_input(payload@, enabled)),
    {
        if !enabled {
            return Err(respond(DISABLED_MESSAGE));
        }
        match payload {
            ToolPayload::Function { arguments } => Ok(JsReplInput::Arguments(arguments.clone())),
            ToolPayload::Custom { input } => match parse_freeform_args(input.as_str()) {
                Ok(args) => Ok(JsReplInput::Parsed(args)),
                Err(error) => Err(error),
            },
            _ => Err(respond("js_repl expects custom or function payload")),
        }
    }

    /// Whether code is run: in the background where it is polled, and else waited for.
    pub fn check(&self, args: &JsReplArgs, polling_enabled: bool) -> (verdict: Result<
        bool,
        FunctionCallError,
    >)
        ensures
            match verdict {
                Ok(poll) => args_fault(args@, polling_enabled) is None && poll == args.poll,
                Err(error) => Some(error@) == told(args_fault(args@, polling_enabled)),
            },
    {
        if args.session_id.is_some() && !args.poll {
            return Err(respond("js_repl session_id is only supported when poll=true"));
        }
        if let Some(session_id) = &args.session_id {
            if blank(session_id.as_str()) {
                return Err(respond("js_repl session_id must not be empty"));
            }
        }
        if args.poll && args.timeout_ms.is_some() {
            return Err(respond(JS_REPL_POLL_TIMEOUT_ARG_ERROR_MESSAGE));
        }
        if args.poll && !polling_enabled {
            return Err(respond(POLLING_DISABLED_MESSAGE));
        }
        Ok(args.poll)
    }

    /// What a call gives back whose code was handed to a session, or was not.
    pub fn submitted(
        &self,
        submission: Result<JsExecSubmission, FunctionCallError>,
        duration: u64,
    ) -> (result: HandlerResult)
        ensures
            match submission {
                Ok(submission) => {
                    &&& output_result(result.output) == Ok::<_, ErrorView>(
                        OutputView::Text(
                            json_text(
                                submission_value(submission.exec_id@, submission.session_id@),
                            ),
                            true,
                        ),
                    )
                    &&& result.event is None
                },
                Err(error) => {
                    &&& output_result(result.output) == Err::<OutputView, _>(error@)
                    &&& tells_failure(result.event, error_message(error@), duration, false)
                },
            },
    {
        match submission {
            Ok(submission) => {
                let ghost told = submission_value(submission.exec_id@, submission.session_id@);
                let members = vec![
                    ("exec_id".to_owned(), JsonValue::Text(submission.exec_id)),
                    ("session_id".to_owned(), JsonValue::Text(submission.session_id)),
                    ("status".to_owned(), JsonValue::Text("running".to_owned())),
                ];
                let value = JsonValue::Object(members);
                proof {
                    lemma_json_view(value);
                    assert(value@->Object_0 =~= told->Object_0);
                }
                HandlerResult {
                    output: Ok(ToolOutput::Text { content: value.to_text(), success: true }),
                    event: None,
                }
            },
            Err(error) => {
                let message = error.message();
                proof {
                    reveal_strlit("");
                    assert(""@ =~= Seq::<char>::empty());
                }
                let event = js_repl_exec_end("", Some(message.as_str()), duration, false);
                HandlerResult { output: Err(error), event: Some(event) }
            },
        }
    }

    /// What a call gives back whose code was waited for.
    pub fn executed(&self, result: Result<JsExecResult, FunctionCallError>, duration: u64) -> (told:
        HandlerResult)
        ensures
            match result {
                Ok(result) => {
                    &&& output_result(told.output) == Ok::<_, ErrorView>(
                        OutputView::InputText(result.output@, true),
                    )
                    &&& tells_success(told.event, result.output@, duration)
                },
                Err(error) => {
                    &&& output_result(told.output) == Err::<OutputView, _>(error@)
                    &&& tells_failure(
                        told.event,
                        error_message(error@),
                        duration,
                        error_message(error@) == JS_REPL_TIMEOUT_ERROR_MESSAGE@,
                    )
                },
            },
    {
        match result {
            Ok(result) => {
                let event = js_repl_exec_end(result.output.as_str(), None, duration, false);
                HandlerResult {
                    output: Ok(ToolOutput::InputText { text: result.output, success: true }),
                    event: Some(event),
                }
            },
            Err(error) => {
                let message = error.message();
                let timed_out = is_js_repl_timeout_message(message.as_str());
                proof {
                    reveal_strlit("");
                    assert(""@ =~= Seq::<char>::empty());
                }
                let event = js_repl_exec_end("", Some(message.as_str()), duration, timed_out);
                HandlerResult { output: Err(error), event: Some(event) }
            },
        }
    }
}

// ---------------------------------------------------------------------------------------------
// Resetting sessions
// ---------------------------------------------------------------------------------------------

/// What the model gets when sessions were reset.
pub open spec fn reset_value(session_id: Option<Seq<char>>) -> JsonView {
    match session_id {
        Some(session_id) => JsonView::Object(
            seq![
                ("session_id"@, JsonView::Text(session_id)),
                ("status"@, JsonView::Text("reset"@)),
            ],
        ),
        None => JsonView::Object(seq![("status"@, JsonView::Text("reset_all"@))]),
    }
}

/// Which session is to be reset; all where none is named.
#[derive(Clone, Debug, PartialEq, Eq)]
pub struct JsReplResetArgs {
    /// The session.
    pub session_id: Option<String>,
}

impl JsReplResetHandler {
    /// The kind of the tool.
    pub fn kind(&self) -> (kind: ToolKind)
        ensures
            kind == ToolKind::Function,
    {
        ToolKind::Function
    }

    /// The arguments of a call, in JSON.
    pub fn accept(&self, payload: &ToolPayload, enabled: bool) -> (arguments: Result<
        String,
        FunctionCallError,
    >)
        ensures
            text_result(arguments) == told_result(
                if !enabled {
                    Err(DISABLED_MESSAGE@)
                } else {
                    match payload@ {
                        PayloadView::Function(arguments) => Ok(arguments),
                        _ => Err("js_repl_reset expects function payload"@),
                    }
                },
            ),
    {
        if !enabled {
            return Err(respond(DISABLED_MESSAGE));
        }
        match payload {
            ToolPayload::Function { arguments } => Ok(arguments.clone()),
            _ => Err(respond("js_repl_reset expects function payload")),
        }
    }

    /// Whether a session can be named so.
    pub fn check(&self, args: &JsReplResetArgs) -> (verdict: Result<(), FunctionCallError>)
        ensures
            match verdict {
                Ok(_) => opt_text(args.session_id) matches Some(session_id) ==> !is_blank(
                    session_id,
                ),
                Err(error) => {
                    &&& opt_text(args.session_id) matches Some(session_id) && is_blank(session_id)
                    &&& error@ == ErrorView::RespondToModel("js_repl session_id must not be empty"@)
                },
            },
    {
        if let Some(session_id) = &args.session_id {
            if blank(session_id.as_str()) {
                return Err(respond("js_repl session_id must not be empty"));
            }
        }
        Ok(())
    }

    /// What a call gives back.
    pub fn finished(&self, args: &JsReplResetArgs) -> (output: ToolOutput)
        ensures
            output@ == OutputView::Text(json_text(reset_value(opt_text(args.session_id))), true),
    {
        let ghost told = reset_value(opt_text(args.session_id));
        let members = match &args.session_id {
            Some(session_id) => vec![
                ("session_id".to_owned(), JsonValue::Text(session_id.clone())),
                ("status".to_owned(), JsonValue::Text("reset".to_owned())),
            ],
            None => vec![("status".to_owned(), JsonValue::Text("reset_all".to_owned()))],
        };
        let value = JsonValue::Object(members);
        proof {
            lemma_json_view(value);
            assert(json_members(members@) =~= told->Object_0);
        }
        ToolOutput::Text { content: value.to_text(), success: true }
    }
}

// ---------------------------------------------------------------------------------------------
// Polling
// ---------------------------------------------------------------------------------------------

/// Which code is polled, and how long the poll waits.
#[derive(Clone, Debug, PartialEq, Eq)]
pub struct JsReplPollArgs {
    /// The code.
    pub exec_id: String,
    /// How long the poll waits, in milliseconds.
    pub yield_time_ms: Option<u64>,
}

/// What the model gets for a poll.
#[derive(Clone, Debug, PartialEq, Eq)]
pub struct JsReplPollOutput {
    /// The text.
    pub content: String,
}

/// How polled code stands, in a word.
pub open spec fn poll_status(result: PollView) -> Seq<char> {
    if result.done {
        if result.error is Some {
            "error"@
        } else {
            "completed"@
        }
    } else {
        "running"@
    }
}

/// The lines of a poll, where there are any.
pub open spec fn poll_lines(result: PollView) -> Option<Seq<char>> {
    if result.logs.len() == 0 {
        None
    } else {
        Some(join(result.logs, "\n"@))
    }
}

/// What the model gets for a poll.
pub open spec fn poll_value(result: PollView) -> JsonView {
    JsonView::Object(
        seq![
            ("error"@, text_or_null(result.error)),
            ("exec_id"@, JsonView::Text(result.exec_id)),
            ("logs"@, text_or_null(poll_lines(result))),
            ("output"@, text_or_null(result.output)),
            ("session_id"@, JsonView::Text(result.session_id)),
            ("status"@, JsonView::Text(poll_status(result))),
        ],
    )
}

/// An optional text of JSON.
fn opt_value(text: &Option<String>) -> (value: JsonValue)
    ensures
        value@ == text_or_null(opt_text(*text)),
{
    match text {
        Some(text) => JsonValue::Text(text.clone()),
        None => JsonValue::Null,
    }
}

/// What the model gets for a poll.
pub fn format_poll_output(result: &JsExecPollResult) -> (output: Result<
    JsReplPollOutput,
    FunctionCallError,
>)
    ensures
        output matches Ok(output) && output.content@ == json_text(poll_value(result@)),
{
    let status = if result.done {
        if result.error.is_some() {
            "error"
        } else {
            "completed"
        }
    } else {
        "running"
    };
    let logs = if result.logs.len() == 0 {
        None
    } else {
        Some(joined(&result.logs, "\n"))
    };
    let members = vec![
        ("error".to_owned(), opt_value(&result.error)),
        ("exec_id".to_owned(), JsonValue::Text(result.exec_id.clone())),
        ("logs".to_owned(), opt_value(&logs)),
        ("output".to_owned(), opt_value(&result.output)),
        ("session_id".to_owned(), JsonValue::Text(result.session_id.clone())),
        ("status".to_owned(), JsonValue::Text(status.to_owned())),
    ];
    let value = JsonValue::Object(members);
    proof {
        lemma_json_view(value);
        assert(value@->Object_0 =~= poll_value(result@)->Object_0);
    }
    Ok(JsReplPollOutput { content: value.to_text() })
}

impl JsReplPollHandler {
    /// The kind of the tool.
    pub fn kind(&self) -> (kind: ToolKind)
        ensures
            kind == ToolKind::Function,
    {
        ToolKind::Function
    }

    /// The arguments of a call, in JSON.
    pub fn accept(&self, payload: &ToolPayload, enabled: bool, polling_enabled: bool) -> (arguments:
        Result<String, FunctionCallError>)
        ensures
            text_result(arguments) == told_result(
                if !enabled {
                    Err(DISABLED_MESSAGE@)
                } else if !polling_enabled {
                    Err(POLLING_DISABLED_MESSAGE@)
                } else {
                    match payload@ {
                        PayloadView::Function(arguments) => Ok(arguments),
                        _ => Err("js_repl_poll expects function payload"@),
                    }
                },
            ),
    {
        if !enabled {
            return Err(respond(DISABLED_MESSAGE));
        }
        if !polling_enabled {
            return Err(respond(POLLING_DISABLED_MESSAGE));
        }
        match payload {
            ToolPayload::Function { arguments } => Ok(arguments.clone()),
            _ => Err(respond("js_repl_poll expects function payload")),
        }
    }

    /// What a call gives back.
    pub fn finished(&self, result: &JsExecPollResult) -> (output: Result<
        ToolOutput,
        FunctionCallError,
    >)
        ensures
            output_result(output) == Ok::<_, ErrorView>(
                OutputView::Text(json_text(poll_value(result@)), true),
            ),
    {
        match format_poll_output(result) {
            Ok(output) => Ok(ToolOutput::Text { content: output.content, success: true }),
            Err(error) => Err(error),
        }
    }
}

// ---------------------------------------------------------------------------------------------
// Laws
// ---------------------------------------------------------------------------------------------

/// What the model reads in the answer to a poll: the code and its session by name, its lines as one
/// text, what it gave back and what went wrong, and `null` for what there is none of. Code that has
/// not come to an end is running, whatever it has put out; code that has is complete, or in error
/// where something went wrong.
pub proof fn lemma_poll_value(result: PollView)
    ensures
        poll_value(result) matches JsonView::Object(members) && {
            &&& members.len() == 6
            &&& member(members, "exec_id"@) == Some(JsonView::Text(result.exec_id))
            &&& member(members, "session_id"@) == Some(JsonView::Text(result.session_id))
            &&& result.logs.len() == 0 ==> member(members, "logs"@) == Some(JsonView::Null)
            &&& result.logs.len() > 0 ==> member(members, "logs"@) == Some(
                JsonView::Text(join(result.logs, "\n"@)),
            )
            &&& result.output is None ==> member(members, "output"@) == Some(JsonView::Null)
            &&& result.output matches Some(output) ==> member(members, "output"@) == Some(
                JsonView::Text(output),
            )
            &&& result.error is None ==> member(members, "error"@) == Some(JsonView::Null)
            &&& result.error matches Some(error) ==> member(members, "error"@) == Some(
                JsonView::Text(error),
            )
            &&& !result.done ==> member(members, "status"@) == Some(JsonView::Text("running"@))
            &&& result.done && result.error is None ==> member(members, "status"@) == Some(
                JsonView::Text("completed"@),
            )
            &&& result.done && result.error is Some ==> member(members, "status"@) == Some(
                JsonView::Text("error"@),
            )
        },
{
    lemma_answer_names();
    reveal_with_fuel(member, 8);
    let members = poll_value(result)->Object_0;
    let rest = members.drop_first();
    let third = rest.drop_first();
    let fourth = third.drop_first();
    let fifth = fourth.drop_first();
    let sixth = fifth.drop_first();
    assert(members[0].0 == "error"@);
    assert(rest[0].0 == "exec_id"@);
    assert(third[0].0 == "logs"@);
    assert(fourth[0].0 == "output"@);
    assert(fifth[0].0 == "session_id"@);
    assert(sixth[0].0 == "status"@);
}

/// The names in answers differ.
proof fn lemma_answer_names()
    ensures
        "error"@.len() == 5,
        "error"@[0] == 'e',
        "exec_id"@.len() == 7,
        "logs"@.len() == 4,
        "output"@.len() == 6,
        "output"@[0] == 'o',
        "session_id"@.len() == 10,
        "status"@.len() == 6,
        "status"@[0] == 's',
{
    reveal_strlit("error");
    reveal_strlit("exec_id");
    reveal_strlit("logs");
    reveal_strlit("output");
    reveal_strlit("session_id");
    reveal_strlit("status");
}

/// What the model reads in the answer to code that was handed to a session: both names, and that
/// the code is running.
pub proof fn lemma_submission_value(exec_id: Seq<char>, session_id: Seq<char>)
    ensures
        submission_value(exec_id, session_id) matches JsonView::Object(members) && {
            &&& members.len() == 3
            &&& member(members, "exec_id"@) == Some(JsonView::Text(exec_id))
            &&& member(members, "session_id"@) == Some(JsonView::Text(session_id))
            &&& member(members, "status"@) == Some(JsonView::Text("running"@))
        },
{
    lemma_answer_names();
    reveal_with_fuel(member, 5);
    let members = submission_value(exec_id, session_id)->Object_0;
    let rest = members.drop_first();
    let third = rest.drop_first();
    assert(members[0].0 == "exec_id"@);
    assert(rest[0].0 == "session_id"@);
    assert(third[0].0 == "status"@);
}

/// What the model reads in the answer to a reset: the session that was named, or that all were
/// reset.
pub proof fn lemma_reset_value(session_id: Option<Seq<char>>)
    ensures
        reset_value(session_id) matches JsonView::Object(members) && {
            &&& session_id matches Some(name) ==> {
                &&& members.len() == 2
                &&& member(members, "session_id"@) == Some(JsonView::Text(name))
                &&& member(members, "status"@) == Some(JsonView::Text("reset"@))
            }
            &&& session_id is None ==> {
                &&& members.len() == 1
                &&& member(members, "status"@) == Some(JsonView::Text("reset_all"@))
            }
        },
{
    lemma_answer_names();
    reveal_with_fuel(member, 4);
    let members = reset_value(session_id)->Object_0;
    if session_id is Some {
        let rest = members.drop_first();
        assert(members[0].0 == "session_id"@);
        assert(rest[0].0 == "status"@);
    } else {
        assert(members[0].0 == "status"@);
    }
}

/// Code is run where polling, sessions and time limits go together: a session only with polling and
/// by a name that is not blank, a time limit only without, and polling only where it is switched
/// on. Anything else is refused.
pub proof fn lemma_args_fault(args: ArgsView, polling_enabled: bool)
    ensures
        args_fault(args, polling_enabled) is None <==> {
            &&& args.session_id is Some ==> args.poll
            &&& args.session_id matches Some(name) ==> !is_blank(name)
            &&& args.poll ==> args.timeout_ms is None
            &&& args.poll ==> polling_enabled
        },
        args.session_id is Some && !args.poll ==> args_fault(args, polling_enabled) == Some(
            "js_repl session_id is only supported when poll=true"@,
        ),
        args.session_id is None && args.poll && args.timeout_ms is Some ==> args_fault(
            args,
            polling_enabled,
        ) == Some(
            "js_repl timeout_ms is not supported when poll=true; use js_repl_poll yield_time_ms"@,
        ),
        args.session_id is None && args.poll && args.timeout_ms is None && !polling_enabled
            ==> args_fault(args, polling_enabled) == Some(
            "js_repl polling is disabled by feature flag"@,
        ),
{
}

/// What a call is taken for: nothing where the tool is switched off; a function's arguments as they
/// are; and source text that asks for what is read in it, or is refused with what is said of it.
pub proof fn lemma_accepted_input(payload: PayloadView, enabled: bool)
    ensures
        !enabled ==> accepted_input(payload, enabled) == Err::<InputView, Seq<char>>(
            "js_repl is disabled by feature flag"@,
        ),
        enabled ==> (payload matches PayloadView::Function(arguments) ==> accepted_input(
            payload,
            enabled,
        ) == Ok::<InputView, Seq<char>>(InputView::Arguments(arguments))),
        enabled ==> (payload matches PayloadView::Custom(input) ==> match freeform_args(
            input,
            json_kind_of(trim(source_of(input))),
        ) {
            Ok(args) => accepted_input(payload, enabled) == Ok::<InputView, Seq<char>>(
                InputView::Parsed(args),
            ),
            Err(message) => accepted_input(payload, enabled) == Err::<InputView, Seq<char>>(message),
        }),
        enabled && !(payload is Function) && !(payload is Custom) ==> accepted_input(
            payload,
            enabled,
        ) is Err,
{
}

/// Code whose source asks for it is run the way it asks: what is read in a source text is never
/// refused afterwards, but for polling that is switched off.
pub proof fn lemma_read_args_run(input: Seq<char>, kind: Option<JsonKind>, polling_enabled: bool)
    ensures
        freeform_args(input, kind) matches Ok(args) ==> (args_fault(args, polling_enabled) is None
            <==> !args.poll || polling_enabled),
{
    lemma_freeform_args(input, kind);
}

/// What the user is told of a call: a success gives back nought and its output, in the time it took;
/// a failure gives back one and what went wrong, and says whether that was for want of time.
pub proof fn lemma_call_told(
    event: Option<ToolEventStage>,
    text: Seq<char>,
    duration: u64,
    timed_out: bool,
)
    ensures
        tells_success(event, text, duration) ==> (event matches Some(ToolEventStage::Success(result))
            && result.exit_code == 0 && result.stdout@ == text && result.stderr@.len() == 0
            && result.aggregated_output@ == text && result.duration == duration
            && !result.timed_out),
        tells_failure(event, text, duration, timed_out) ==> (
        event matches Some(ToolEventStage::Failure(result)) && result.exit_code == 1
            && result.stdout@.len() == 0 && result.stderr@ == text && result.aggregated_output@
            == text && result.duration == duration && result.timed_out == timed_out),
{
}

} // verus!
