//! What the host and its kernels tell each other, and what the user is shown.

use vstd::prelude::*;

use crate::json::opt_json_owned;
use crate::json::JsonValue;
use crate::json::JsonView;
use crate::numbers::decimal;
use crate::numbers::decimal_usize;
use crate::text::opt_str;
use crate::text::opt_text;
use crate::text::plus;
use crate::text::plus3;
use crate::text::push_text;
use crate::text::same_text;
use crate::text::texts;
use crate::tools::error_message;
use crate::tools::FunctionCallError;
use crate::tools::PayloadView;
use crate::tools::ToolPayload;

verus! {

// ---------------------------------------------------------------------------------------------
// Messages
// ---------------------------------------------------------------------------------------------

/// A kernel's request to call a tool.
#[derive(Clone, Debug, PartialEq, Eq)]
pub struct RunToolRequest {
    /// The name of the request.
    pub id: String,
    /// The code that made it.
    pub exec_id: String,
    /// The tool.
    pub tool_name: String,
    /// The arguments.
    pub arguments: String,
}

/// What a call of a tool came to.
#[derive(Debug, PartialEq, Eq)]
pub struct RunToolResult {
    /// The name of the request.
    pub id: String,
    /// Whether the call succeeded.
    pub ok: bool,
    /// What the tool gave back.
    pub response: Option<JsonValue>,
    /// What went wrong.
    pub error: Option<String>,
}

/// What a call of a tool came to, with texts as characters.
pub struct ToolResultView {
    /// The name of the request.
    pub id: Seq<char>,
    /// Whether the call succeeded.
    pub ok: bool,
    /// What the tool gave back.
    pub response: Option<JsonView>,
    /// What went wrong.
    pub error: Option<Seq<char>>,
}

impl View for RunToolResult {
    type V = ToolResultView;

    open spec fn view(&self) -> ToolResultView {
        ToolResultView {
            id: self.id@,
            ok: self.ok,
            response: opt_json_owned(self.response),
            error: opt_text(self.error),
        }
    }
}

/// What a kernel tells the host.
#[derive(Clone, Debug, PartialEq, Eq)]
pub enum KernelToHost {
    /// Code began.
    ExecStarted {
        /// The code's name.
        id: String,
    },
    /// Code put a line out.
    ExecLog {
        /// The code's name.
        id: String,
        /// The line.
        text: String,
    },
    /// Code came to an end.
    ExecResult {
        /// The code's name.
        id: String,
        /// Whether it succeeded.
        ok: bool,
        /// What it gave back.
        output: String,
        /// What went wrong.
        error: Option<String>,
    },
    /// Code calls a tool.
    RunTool(RunToolRequest),
}

/// Code for a kernel to run.
#[derive(Clone, Debug, PartialEq, Eq)]
pub struct ExecMessage {
    /// The code's name.
    pub id: String,
    /// The code.
    pub code: String,
    /// How long it may run.
    pub timeout_ms: Option<u64>,
    /// Whether its lines are sent as they come.
    pub stream_logs: bool,
}

/// Code for a kernel to run, with texts as characters.
pub struct ExecMessageView {
    /// The code's name.
    pub id: Seq<char>,
    /// The code.
    pub code: Seq<char>,
    /// How long it may run.
    pub timeout_ms: Option<u64>,
    /// Whether its lines are sent as they come.
    pub stream_logs: bool,
}

impl View for ExecMessage {
    type V = ExecMessageView;

    open spec fn view(&self) -> ExecMessageView {
        ExecMessageView {
            id: self.id@,
            code: self.code@,
            timeout_ms: self.timeout_ms,
            stream_logs: self.stream_logs,
        }
    }
}

/// What the host tells a kernel.
#[derive(Debug, PartialEq, Eq)]
pub enum HostToKernel {
    /// Code is to be run.
    Exec(ExecMessage),
    /// A tool was called.
    RunToolResult(RunToolResult),
}

/// What code came to.
#[derive(Clone, Debug, PartialEq, Eq)]
pub enum ExecResultMessage {
    /// What it gave back.
    Done {
        /// The text.
        output: String,
    },
    /// What went wrong.
    Failed {
        /// The text.
        message: String,
    },
}

impl View for ExecResultMessage {
    type V = Result<Seq<char>, Seq<char>>;

    open spec fn view(&self) -> Result<Seq<char>, Seq<char>> {
        match *self {
            ExecResultMessage::Done { output } => Ok(output@),
            ExecResultMessage::Failed { message } => Err(message@),
        }
    }
}

/// The part of writing to a kernel that failed.
#[derive(Clone, Copy, Debug, PartialEq, Eq, Structural)]
pub enum WriteStage {
    /// The message could not be put into JSON.
    Serialize,
    /// The message could not be written.
    Write,
    /// The end of the line could not be written.
    Flush,
}

/// What is said where writing to a kernel failed.
pub open spec fn write_error(stage: WriteStage, cause: Seq<char>) -> Seq<char> {
    match stage {
        WriteStage::Serialize => "failed to serialize kernel message: "@ + cause,
        WriteStage::Write => "failed to write to kernel: "@ + cause,
        WriteStage::Flush => "failed to flush kernel message: "@ + cause,
    }
}

/// What is said where writing to a kernel failed.
pub fn write_error_message(stage: WriteStage, cause: &str) -> (message: String)
    ensures
        message@ == write_error(stage, cause@),
{
    match stage {
        WriteStage::Serialize => plus("failed to serialize kernel message: ", cause),
        WriteStage::Write => plus("failed to write to kernel: ", cause),
        WriteStage::Flush => plus("failed to flush kernel message: ", cause),
    }
}

// ---------------------------------------------------------------------------------------------
// Tools that code calls
// ---------------------------------------------------------------------------------------------

/// A tool that the model may call.
#[derive(Clone, Debug, PartialEq, Eq)]
pub struct ToolSpec {
    /// Its name.
    pub name: String,
    /// Whether it takes a text of any form.
    pub freeform: bool,
}

/// Whether a tool of some name takes a text of any form.
pub open spec fn takes_text(specs: Seq<ToolSpec>, name: Seq<char>) -> bool {
    exists|i: int| 0 <= i < specs.len() && (#[trigger] specs[i]).name@ == name && specs[i].freeform
}

/// Whether a tool of some name takes a text of any form.
pub fn is_freeform_tool(specs: &Vec<ToolSpec>, name: &str) -> (freeform: bool)
    ensures
        freeform == takes_text(specs@, name@),
{
    let mut at: usize = 0;
    while at < specs.len()
        invariant
            at <= specs@.len(),
            forall|i: int|
                0 <= i < at ==> !((#[trigger] specs@[i]).name@ == name@ && specs@[i].freeform),
        decreases specs@.len() - at,
    {
        if same_text(specs[at].name.as_str(), name) && specs[at].freeform {
            return true;
        }
        at += 1;
    }
    false
}

/// Whether a tool is one that runs code.
pub open spec fn runs_code(name: Seq<char>) -> bool {
    name == "js_repl"@ || name == "js_repl_poll"@ || name == "js_repl_reset"@
}

/// Whether a tool is one that runs code.
pub fn is_js_repl_internal_tool(name: &str) -> (internal: bool)
    ensures
        internal == runs_code(name@),
{
    same_text(name, "js_repl") || same_text(name, "js_repl_poll") || same_text(
        name,
        "js_repl_reset",
    )
}

/// A call that came to nothing.
pub open spec fn tool_failure(id: Seq<char>, error: Seq<char>) -> ToolResultView {
    ToolResultView { id, ok: false, response: None, error: Some(error) }
}

/// A call that came to nothing.
pub fn failed_tool(id: &str, error: &str) -> (result: RunToolResult)
    ensures
        result@ == tool_failure(id@, error@),
{
    RunToolResult {
        id: id.to_owned(),
        ok: false,
        response: None,
        error: Some(error.to_owned()),
    }
}

/// A tool call that code asks for.
#[derive(Clone, Debug, PartialEq, Eq)]
pub struct ToolCall {
    /// The tool.
    pub tool_name: String,
    /// The name of the call.
    pub call_id: String,
    /// What the tool is called with.
    pub payload: ToolPayload,
}

/// What a tool that code asks for is called with. `server` tells the server and the tool that a
/// name stands for.
pub open spec fn tool_payload(
    req: RunToolRequest,
    server: Option<(String, String)>,
    specs: Seq<ToolSpec>,
) -> PayloadView {
    match server {
        Some((server, tool)) => PayloadView::Mcp(server@, tool@, req.arguments@),
        None => if takes_text(specs, req.tool_name@) {
            PayloadView::Custom(req.arguments@)
        } else {
            PayloadView::Function(req.arguments@)
        },
    }
}

/// The tool call that code asks for; none where the tool is one that runs code itself. `server`
/// tells the server and the tool that the name stands for.
pub fn plan_tool_call(
    req: &RunToolRequest,
    server: Option<(String, String)>,
    specs: &Vec<ToolSpec>,
) -> (call: Result<ToolCall, RunToolResult>)
    ensures
        match call {
            Ok(call) => {
                &&& !runs_code(req.tool_name@)
                &&& call.tool_name@ == req.tool_name@
                &&& call.call_id@ == req.id@
                &&& call.payload@ == tool_payload(*req, server, specs@)
            },
            Err(result) => runs_code(req.tool_name@) && result@ == tool_failure(
                req.id@,
                "js_repl cannot invoke itself"@,
            ),
        },
{
    if is_js_repl_internal_tool(req.tool_name.as_str()) {
        return Err(failed_tool(req.id.as_str(), "js_repl cannot invoke itself"));
    }
    let payload = match server {
        Some((server, tool)) => ToolPayload::Mcp {
            server,
            tool,
            raw_arguments: req.arguments.clone(),
        },
        None => if is_freeform_tool(specs, req.tool_name.as_str()) {
            ToolPayload::Custom { input: req.arguments.clone() }
        } else {
            ToolPayload::Function { arguments: req.arguments.clone() }
        },
    };
    Ok(ToolCall { tool_name: req.tool_name.clone(), call_id: req.id.clone(), payload })
}

/// What a call of a tool came to.
#[derive(Debug, PartialEq, Eq)]
pub enum ToolReply {
    /// What the tool gave back.
    Response(JsonValue),
    /// What the tool gave back could not be put into JSON.
    Unserializable(String),
    /// The call failed.
    Failed(FunctionCallError),
}

/// What a kernel is told of a call.
pub open spec fn tool_result(id: Seq<char>, reply: ToolReply) -> ToolResultView {
    match reply {
        ToolReply::Response(value) => ToolResultView {
            id,
            ok: true,
            response: Some(value@),
            error: None,
        },
        ToolReply::Unserializable(cause) => tool_failure(
            id,
            "failed to serialize tool output: "@ + cause@,
        ),
        ToolReply::Failed(error) => tool_failure(id, error_message(error@)),
    }
}

/// What a kernel is told of a call.
pub fn finish_tool_call(id: &str, reply: ToolReply) -> (result: RunToolResult)
    ensures
        result@ == tool_result(id@, reply),
{
    match reply {
        ToolReply::Response(value) => RunToolResult {
            id: id.to_owned(),
            ok: true,
            response: Some(value),
            error: None,
        },
        ToolReply::Unserializable(cause) => failed_tool(
            id,
            plus("failed to serialize tool output: ", cause.as_str()).as_str(),
        ),
        ToolReply::Failed(error) => failed_tool(id, error.message().as_str()),
    }
}

// ---------------------------------------------------------------------------------------------
// What is shown
// ---------------------------------------------------------------------------------------------

/// What a command put out.
#[derive(Clone, Debug, PartialEq, Eq)]
pub struct ExecToolCallOutput {
    /// The code that it gave back.
    pub exit_code: i32,
    /// Its output.
    pub stdout: String,
    /// Its errors.
    pub stderr: String,
    /// Both.
    pub aggregated_output: String,
    /// How long it ran, in nanoseconds.
    pub duration: u64,
    /// Whether it ran for too long.
    pub timed_out: bool,
}

/// What a command put out, with texts as characters.
pub struct ExecOutputView {
    /// The code that it gave back.
    pub exit_code: int,
    /// Its output.
    pub stdout: Seq<char>,
    /// Its errors.
    pub stderr: Seq<char>,
    /// Both.
    pub aggregated_output: Seq<char>,
    /// How long it ran, in nanoseconds.
    pub duration: nat,
    /// Whether it ran for too long.
    pub timed_out: bool,
}

impl View for ExecToolCallOutput {
    type V = ExecOutputView;

    open spec fn view(&self) -> ExecOutputView {
        ExecOutputView {
            exit_code: self.exit_code as int,
            stdout: self.stdout@,
            stderr: self.stderr@,
            aggregated_output: self.aggregated_output@,
            duration: self.duration as nat,
            timed_out: self.timed_out,
        }
    }
}

/// Output and errors as one text.
pub open spec fn both_outputs(stdout: Seq<char>, stderr: Seq<char>) -> Seq<char> {
    if stdout.len() == 0 {
        stderr
    } else if stderr.len() == 0 {
        stdout
    } else {
        stdout + "\n"@ + stderr
    }
}

/// Output and errors as one text.
pub fn join_outputs(stdout: &str, stderr: &str) -> (whole: String)
    ensures
        whole@ == both_outputs(stdout@, stderr@),
{
    proof {
        reveal_strlit("");
        assert(stdout@.len() == 0 ==> stdout@ =~= ""@);
        assert(stderr@.len() == 0 ==> stderr@ =~= ""@);
    }
    if same_text(stdout, "") {
        stderr.to_owned()
    } else if same_text(stderr, "") {
        stdout.to_owned()
    } else {
        plus3(stdout, "\n", stderr)
    }
}

/// A text, or an empty one.
pub open spec fn or_empty(text: Option<Seq<char>>) -> Seq<char> {
    match text {
        Some(text) => text,
        None => Seq::empty(),
    }
}

/// What running code put out, as of a command.
pub open spec fn exec_output(
    output: Seq<char>,
    error: Option<Seq<char>>,
    duration: nat,
    timed_out: bool,
) -> ExecOutputView {
    ExecOutputView {
        exit_code: if error is Some {
            1
        } else {
            0
        },
        stdout: output,
        stderr: or_empty(error),
        aggregated_output: both_outputs(output, or_empty(error)),
        duration,
        timed_out,
    }
}

/// What running code put out, as of a command.
pub fn build_js_repl_exec_output(
    output: &str,
    error: Option<&str>,
    duration: u64,
    timed_out: bool,
) -> (result: ExecToolCallOutput)
    ensures
        result@ == exec_output(output@, opt_str(error), duration as nat, timed_out),
{
    let stderr = match error {
        Some(error) => error.to_owned(),
        None => String::new(),
    };
    let aggregated_output = join_outputs(output, stderr.as_str());
    ExecToolCallOutput {
        exit_code: if error.is_some() {
            1
        } else {
            0
        },
        stdout: output.to_owned(),
        stderr,
        aggregated_output,
        duration,
        timed_out,
    }
}

/// What is told when a call came to an end.
#[derive(Clone, Debug, PartialEq, Eq)]
pub enum ToolEventStage {
    /// The call succeeded.
    Success(ExecToolCallOutput),
    /// The call failed.
    Failure(ExecToolCallOutput),
}

/// What is told when a call of code came to an end: whether it failed, and what it put out.
pub fn js_repl_exec_end(output: &str, error: Option<&str>, duration: u64, timed_out: bool) -> (
    stage: ToolEventStage)
    ensures
        match stage {
            ToolEventStage::Success(result) => error is None && result@ == exec_output(
                output@,
                opt_str(error),
                duration as nat,
                timed_out,
            ),
            ToolEventStage::Failure(result) => error is Some && result@ == exec_output(
                output@,
                opt_str(error),
                duration as nat,
                timed_out,
            ),
        },
{
    let result = build_js_repl_exec_output(output, error, duration, timed_out);
    if error.is_some() {
        ToolEventStage::Failure(result)
    } else {
        ToolEventStage::Success(result)
    }
}

/// The shortest time for which a poll waits.
pub const JS_REPL_POLL_MIN_MS: u64 = 50;

/// The longest time for which a poll waits.
pub const JS_REPL_POLL_MAX_MS: u64 = 5000;

/// How long a poll waits where it is not told.
pub const JS_REPL_POLL_DEFAULT_MS: u64 = 1000;

/// How long a poll waits.
pub open spec fn poll_wait(value: Option<u64>) -> u64 {
    let asked = match value {
        Some(value) => value,
        None => JS_REPL_POLL_DEFAULT_MS,
    };
    if asked < JS_REPL_POLL_MIN_MS {
        JS_REPL_POLL_MIN_MS
    } else if asked > JS_REPL_POLL_MAX_MS {
        JS_REPL_POLL_MAX_MS
    } else {
        asked
    }
}

/// How long a poll waits.
pub fn clamp_poll_ms(value: Option<u64>) -> (wait: u64)
    ensures
        wait == poll_wait(value),
        JS_REPL_POLL_MIN_MS <= wait <= JS_REPL_POLL_MAX_MS,
{
    let asked = match value {
        Some(value) => value,
        None => JS_REPL_POLL_DEFAULT_MS,
    };
    if asked < JS_REPL_POLL_MIN_MS {
        JS_REPL_POLL_MIN_MS
    } else if asked > JS_REPL_POLL_MAX_MS {
        JS_REPL_POLL_MAX_MS
    } else {
        asked
    }
}

/// How many names are listed.
pub const JS_REPL_EXEC_ID_LOG_LIMIT: usize = 8;

/// The first names of a list, and how many more there are.
pub open spec fn short_list(ids: Seq<Seq<char>>) -> Seq<Seq<char>> {
    if ids.len() <= JS_REPL_EXEC_ID_LOG_LIMIT {
        ids
    } else {
        ids.take(JS_REPL_EXEC_ID_LOG_LIMIT as int).push(
            "...+"@ + decimal((ids.len() - JS_REPL_EXEC_ID_LOG_LIMIT) as nat),
        )
    }
}

/// The first names of a list, and how many more there are.
pub fn truncate_id_list(ids: &Vec<String>) -> (output: Vec<String>)
    ensures
        texts(output@) == short_list(texts(ids@)),
{
    let ghost all = texts(ids@);
    let count: usize = if ids.len() <= JS_REPL_EXEC_ID_LOG_LIMIT {
        ids.len()
    } else {
        JS_REPL_EXEC_ID_LOG_LIMIT
    };
    let mut output: Vec<String> = Vec::new();
    let mut at: usize = 0;
    assert(texts(output@) =~= all.take(0));
    while at < count
        invariant
            all == texts(ids@),
            at <= count <= ids@.len(),
            texts(output@) == all.take(at as int),
        decreases count - at,
    {
        push_text(&mut output, ids[at].clone());
        assert(all.take(at + 1) =~= all.take(at as int).push(all[at as int]));
        at += 1;
    }
    if ids.len() > count {
        push_text(
            &mut output,
            plus("...+", decimal_usize(ids.len() - JS_REPL_EXEC_ID_LOG_LIMIT).as_str()),
        );
    } else {
        assert(all.take(count as int) =~= all);
    }
    output
}

/// A tool that runs code is never called by code; any other is called under its name, for the
/// request that asked for it, with the arguments as they came: as those of a server's tool where
/// the name stands for one, as a text where the tool takes one, and else as those of a function.
pub proof fn lemma_tool_payload(
    req: RunToolRequest,
    server: Option<(String, String)>,
    specs: Seq<ToolSpec>,
    at: int,
)
    requires
        0 <= at < specs.len(),
    ensures
        runs_code(req.tool_name@) <==> req.tool_name@ == "js_repl"@ || req.tool_name@
            == "js_repl_poll"@ || req.tool_name@ == "js_repl_reset"@,
        server matches Some((name, tool)) ==> tool_payload(req, server, specs)
            == PayloadView::Mcp(name@, tool@, req.arguments@),
        server is None && specs[at].name@ == req.tool_name@ && specs[at].freeform ==> tool_payload(
            req,
            server,
            specs,
        ) == PayloadView::Custom(req.arguments@),
        server is None && (forall|i: int|
            0 <= i < specs.len() && (#[trigger] specs[i]).name@ == req.tool_name@
                ==> !specs[i].freeform) ==> tool_payload(req, server, specs)
            == PayloadView::Function(req.arguments@),
{
}

/// What a kernel is told of a tool call: what the tool gave back, as a success, or what went wrong,
/// as a failure; never both, and always for the request that asked.
pub proof fn lemma_tool_result(id: Seq<char>, reply: ToolReply)
    ensures
        ({
            let told = tool_result(id, reply);
            &&& told.id == id
            &&& told.ok <==> reply is Response
            &&& reply matches ToolReply::Response(value) ==> told.response == Some(value@)
                && told.error is None
            &&& reply matches ToolReply::Failed(error) ==> told.response is None && told.error
                == Some(error_message(error@))
            &&& reply matches ToolReply::Unserializable(cause) ==> told.response is None
                && told.error == Some("failed to serialize tool output: "@ + cause@)
        }),
{
}

/// What running code put out, as a command: it gives back nought where nothing went wrong and one
/// where something did; its output and its errors are told apart, and together with a line break
/// between them where there are both.
pub proof fn lemma_exec_output(
    output: Seq<char>,
    error: Option<Seq<char>>,
    duration: nat,
    timed_out: bool,
)
    ensures
        ({
            let told = exec_output(output, error, duration, timed_out);
            &&& told.exit_code == 0 <==> error is None
            &&& told.exit_code == 1 <==> error is Some
            &&& told.stdout == output
            &&& error matches Some(message) ==> told.stderr == message
            &&& error is None ==> told.stderr.len() == 0 && told.aggregated_output == output
            &&& output.len() == 0 ==> (error matches Some(message) ==> told.aggregated_output
                == message)
            &&& output.len() > 0 ==> (error matches Some(message) ==> message.len() > 0
                ==> told.aggregated_output == output + "\n"@ + message)
            &&& told.duration == duration
            &&& told.timed_out == timed_out
        }),
{
}

/// How long a poll waits: as long as is asked, but no less than the shortest time and no more than
/// the longest; one that is not told waits a second.
pub proof fn lemma_poll_wait(value: Option<u64>)
    ensures
        50 <= poll_wait(value) <= 5000,
        value is None ==> poll_wait(value) == 1000,
        value matches Some(asked) ==> 50 <= asked <= 5000 ==> poll_wait(value) == asked,
        value matches Some(asked) ==> asked < 50 ==> poll_wait(value) == 50,
        value matches Some(asked) ==> asked > 5000 ==> poll_wait(value) == 5000,
{
}

} // verus!
