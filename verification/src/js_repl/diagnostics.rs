//! What the model is told of a kernel that failed.

use vstd::prelude::*;

use crate::bytes::lemma_prefix_by_bytes;
use crate::bytes::prefix_by_bytes;
use crate::bytes::size;
use crate::bytes::truncate_utf8_prefix_by_bytes;
use crate::json::json_text;
use crate::json::lemma_json_view;
use crate::json::member;
use crate::json::JsonNumber;
use crate::json::JsonValue;
use crate::json::JsonView;
use crate::json::NumberKind;
use crate::json::NumberKindView;
use crate::json::NumberView;
use crate::numbers::decimal_i64;
use crate::numbers::decimal_int;
use crate::text::contains;
use crate::text::has;
use crate::text::lower_text;
use crate::text::opt_str;
use crate::text::plus;
use crate::text::plus3;
use crate::text::starts;
use crate::text::starts_with;
use crate::text::to_ascii_lowercase;

verus! {

/// How many bytes of the error stream the model is shown.
pub const JS_REPL_MODEL_DIAG_STDERR_MAX_BYTES: usize = 1024;

/// How many bytes of an error the model is shown.
pub const JS_REPL_MODEL_DIAG_ERROR_MAX_BYTES: usize = 256;

/// Why no more is read from a kernel.
#[derive(Clone, Debug, PartialEq, Eq)]
pub enum KernelStreamEnd {
    /// The kernel is ended on purpose.
    Shutdown,
    /// The kernel closed its output.
    StdoutEof,
    /// The kernel's output could not be read.
    StdoutReadError(String),
}

impl KernelStreamEnd {
    /// The name of the reason.
    pub open spec fn reason_name(&self) -> Seq<char> {
        match *self {
            KernelStreamEnd::Shutdown => "shutdown"@,
            KernelStreamEnd::StdoutEof => "stdout_eof"@,
            KernelStreamEnd::StdoutReadError(_) => "stdout_read_error"@,
        }
    }

    /// What went wrong with reading.
    pub open spec fn read_error(&self) -> Option<Seq<char>> {
        match *self {
            KernelStreamEnd::StdoutReadError(error) => Some(error@),
            _ => None,
        }
    }

    /// The name of the reason.
    pub fn reason(&self) -> (name: &'static str)
        ensures
            name@ == self.reason_name(),
    {
        match self {
            KernelStreamEnd::Shutdown => "shutdown",
            KernelStreamEnd::StdoutEof => "stdout_eof",
            KernelStreamEnd::StdoutReadError(_) => "stdout_read_error",
        }
    }

    /// What went wrong with reading.
    pub fn error(&self) -> (error: Option<&str>)
        ensures
            opt_str(error) == self.read_error(),
    {
        match self {
            KernelStreamEnd::StdoutReadError(error) => Some(error.as_str()),
            _ => None,
        }
    }
}

/// How a process ended.
#[derive(Clone, Copy, Debug, PartialEq, Eq, Structural)]
pub struct ProcessExit {
    /// The code that it gave back.
    pub code: Option<i32>,
    /// The signal that ended it.
    pub signal: Option<i32>,
}

/// How a process stands.
#[derive(Clone, Debug, PartialEq, Eq)]
pub enum ChildStatus {
    /// The process ended.
    Exited(ProcessExit),
    /// The process runs.
    Running,
    /// It could not be told.
    Unknown(String),
}

/// How a process ended, in words.
pub open spec fn exit_text(exit: ProcessExit) -> Seq<char> {
    match exit.code {
        Some(code) => "code="@ + decimal_int(code as int),
        None => match exit.signal {
            Some(signal) => "signal="@ + decimal_int(signal as int),
            None => "unknown"@,
        },
    }
}

/// How a process ended, in words.
pub fn format_exit_status(status: ProcessExit) -> (text: String)
    ensures
        text@ == exit_text(status),
{
    match status.code {
        Some(code) => plus("code=", decimal_i64(code as i64).as_str()),
        None => match status.signal {
            Some(signal) => plus("signal=", decimal_i64(signal as i64).as_str()),
            None => "unknown".to_owned(),
        },
    }
}

/// How a process stands, in words.
pub open spec fn status_text(status: ChildStatus) -> Seq<char> {
    match status {
        ChildStatus::Exited(exit) => "exited("@ + exit_text(exit) + ")"@,
        ChildStatus::Running => "running"@,
        ChildStatus::Unknown(error) => "unknown ("@ + error@ + ")"@,
    }
}

/// How a process stands, in words.
pub fn kernel_status_text(status: &ChildStatus) -> (text: String)
    ensures
        text@ == status_text(*status),
{
    match status {
        ChildStatus::Exited(exit) => plus3("exited(", format_exit_status(*exit).as_str(), ")"),
        ChildStatus::Running => "running".to_owned(),
        ChildStatus::Unknown(error) => plus3("unknown (", error.as_str(), ")"),
    }
}

/// Whether a process has to be killed: not where it ended by itself.
pub fn needs_kill(status: &ChildStatus) -> (needed: bool)
    ensures
        needed == !(*status is Exited),
{
    match status {
        ChildStatus::Exited(_) => false,
        _ => true,
    }
}

/// How a kernel stands.
#[derive(Clone, Debug, PartialEq, Eq)]
pub struct KernelDebugSnapshot {
    /// The number of its process.
    pub pid: Option<u32>,
    /// How the process stands, in words.
    pub status: String,
    /// The last lines of its error stream.
    pub stderr_tail: String,
}

/// Whether words on how a process stands say that it ended.
pub fn is_kernel_status_exited(status: &str) -> (exited: bool)
    ensures
        exited == starts(status@, "exited("@),
{
    starts_with(status, "exited(")
}

/// The words on how a process stands say that it ended exactly where it did.
pub proof fn lemma_status_exited(status: ChildStatus)
    ensures
        starts(status_text(status), "exited("@) == (status is Exited),
{
    reveal_strlit("exited(");
    reveal_strlit("running");
    reveal_strlit("unknown (");
    let text = status_text(status);
    match status {
        ChildStatus::Exited(exit) => {
            assert(text.take(7) =~= "exited("@);
        },
        ChildStatus::Running => {
            assert(text[0] == 'r');
        },
        ChildStatus::Unknown(error) => {
            assert(text[0] == 'u');
        },
    }
    if starts(text, "exited("@) {
        assert(text.take(7)[0] == 'e');
    }
}

/// Whether a failure to write to a kernel is likely its own.
pub open spec fn kernel_failed(message: Seq<char>, status: Seq<char>) -> bool {
    starts(status, "exited("@) || has(lower_text(message), "broken pipe"@)
}

/// Whether a failure to write to a kernel is likely its own.
pub fn should_include_model_diagnostics_for_write_error(
    err_message: &str,
    snapshot: &KernelDebugSnapshot,
) -> (included: bool)
    ensures
        included == kernel_failed(err_message@, snapshot.status@),
{
    is_kernel_status_exited(snapshot.status.as_str()) || contains(
        to_ascii_lowercase(err_message).as_str(),
        "broken pipe",
    )
}

/// A text of JSON, or `null`.
pub open spec fn text_or_null(text: Option<Seq<char>>) -> JsonView {
    match text {
        Some(text) => JsonView::Text(text),
        None => JsonView::Null,
    }
}

/// The number of a process in JSON, or `null`.
pub open spec fn pid_value(pid: Option<u32>) -> JsonView {
    match pid {
        Some(pid) => JsonView::Number(
            NumberView { kind: NumberKindView::PosInt(pid as nat), double: None },
        ),
        None => JsonView::Null,
    }
}

/// An optional text cut to so many bytes.
pub open spec fn cut(text: Option<Seq<char>>, limit: usize) -> Option<Seq<char>> {
    match text {
        Some(text) => Some(prefix_by_bytes(text, limit as nat)),
        None => None,
    }
}

/// What the model is told of a kernel that failed, as JSON.
pub open spec fn failure_payload(
    reason: Seq<char>,
    stream_error: Option<Seq<char>>,
    snapshot: KernelDebugSnapshot,
) -> JsonView {
    JsonView::Object(
        seq![
            ("kernel_pid"@, pid_value(snapshot.pid)),
            ("kernel_status"@, JsonView::Text(snapshot.status@)),
            (
                "kernel_stderr_tail"@,
                JsonView::Text(
                    prefix_by_bytes(
                        snapshot.stderr_tail@,
                        JS_REPL_MODEL_DIAG_STDERR_MAX_BYTES as nat,
                    ),
                ),
            ),
            ("reason"@, JsonView::Text(reason)),
            ("stream_error"@, text_or_null(cut(stream_error, JS_REPL_MODEL_DIAG_ERROR_MAX_BYTES))),
        ],
    )
}

/// What the model is told of a kernel that failed.
pub open spec fn failure_details(
    reason: Seq<char>,
    stream_error: Option<Seq<char>>,
    snapshot: KernelDebugSnapshot,
) -> Seq<char> {
    "js_repl diagnostics: "@ + json_text(failure_payload(reason, stream_error, snapshot))
}

/// What the model is told of a kernel that failed.
pub fn format_model_kernel_failure_details(
    reason: &str,
    stream_error: Option<&str>,
    snapshot: &KernelDebugSnapshot,
) -> (details: String)
    ensures
        details@ == failure_details(reason@, opt_str(stream_error), *snapshot),
{
    let pid = match snapshot.pid {
        Some(pid) => JsonValue::Number(
            JsonNumber { kind: NumberKind::PosInt(pid as u64), double: None },
        ),
        None => JsonValue::Null,
    };
    let error = match stream_error {
        Some(error) => JsonValue::Text(
            truncate_utf8_prefix_by_bytes(error, JS_REPL_MODEL_DIAG_ERROR_MAX_BYTES),
        ),
        None => JsonValue::Null,
    };
    let tail = truncate_utf8_prefix_by_bytes(
        snapshot.stderr_tail.as_str(),
        JS_REPL_MODEL_DIAG_STDERR_MAX_BYTES,
    );
    let members = vec![
        ("kernel_pid".to_owned(), pid),
        ("kernel_status".to_owned(), JsonValue::Text(snapshot.status.clone())),
        ("kernel_stderr_tail".to_owned(), JsonValue::Text(tail)),
        ("reason".to_owned(), JsonValue::Text(reason.to_owned())),
        ("stream_error".to_owned(), error),
    ];
    let payload = JsonValue::Object(members);
    proof {
        lemma_json_view(payload);
        let told = failure_payload(reason@, opt_str(stream_error), *snapshot);
        assert(payload@->Object_0 =~= told->Object_0);
    }
    plus("js_repl diagnostics: ", payload.to_text().as_str())
}

/// A message with what the model is told of the kernel behind it.
pub open spec fn failure_message(
    base: Seq<char>,
    reason: Seq<char>,
    stream_error: Option<Seq<char>>,
    snapshot: KernelDebugSnapshot,
) -> Seq<char> {
    base + "\n\n"@ + failure_details(reason, stream_error, snapshot)
}

/// A message with what the model is told of the kernel behind it.
pub fn with_model_kernel_failure_message(
    base_message: &str,
    reason: &str,
    stream_error: Option<&str>,
    snapshot: &KernelDebugSnapshot,
) -> (message: String)
    ensures
        message@ == failure_message(base_message@, reason@, opt_str(stream_error), *snapshot),
{
    plus3(
        base_message,
        "\n\n",
        format_model_kernel_failure_details(reason, stream_error, snapshot).as_str(),
    )
}

/// What the model is told where code could not be handed to a kernel.
pub open spec fn write_failure(message: Seq<char>, snapshot: KernelDebugSnapshot) -> Seq<char> {
    if kernel_failed(message, snapshot.status@) {
        failure_message(message, "write_failed"@, Some(message), snapshot)
    } else {
        message
    }
}

/// What the model is told where code could not be handed to a kernel.
pub fn write_failure_message(err_message: String, snapshot: &KernelDebugSnapshot) -> (message:
    String)
    ensures
        message@ == write_failure(err_message@, *snapshot),
{
    if should_include_model_diagnostics_for_write_error(err_message.as_str(), snapshot) {
        with_model_kernel_failure_message(
            err_message.as_str(),
            "write_failed",
            Some(err_message.as_str()),
            snapshot,
        )
    } else {
        err_message
    }
}

/// What the model is told where a kernel stopped answering.
pub open spec fn closed_failure(snapshot: KernelDebugSnapshot) -> Seq<char> {
    if starts(snapshot.status@, "exited("@) {
        failure_message(
            "js_repl kernel closed unexpectedly"@,
            "response_channel_closed"@,
            None,
            snapshot,
        )
    } else {
        "js_repl kernel closed unexpectedly"@
    }
}

/// What the model is told where a kernel stopped answering.
pub fn closed_failure_message(snapshot: &KernelDebugSnapshot) -> (message: String)
    ensures
        message@ == closed_failure(*snapshot),
{
    if is_kernel_status_exited(snapshot.status.as_str()) {
        with_model_kernel_failure_message(
            "js_repl kernel closed unexpectedly",
            "response_channel_closed",
            None,
            snapshot,
        )
    } else {
        "js_repl kernel closed unexpectedly".to_owned()
    }
}

/// What the model is told where a kernel ended: how it stands goes with it unless it was ended on
/// purpose.
pub open spec fn exit_failure(end: KernelStreamEnd, snapshot: Option<KernelDebugSnapshot>) -> Seq<
    char,
> {
    match snapshot {
        Some(snapshot) => if end is Shutdown {
            "js_repl kernel exited unexpectedly"@
        } else {
            failure_message(
                "js_repl kernel exited unexpectedly"@,
                end.reason_name(),
                end.read_error(),
                snapshot,
            )
        },
        None => "js_repl kernel exited unexpectedly"@,
    }
}

/// What the model is told where a kernel ended.
pub fn exit_failure_message(end: &KernelStreamEnd, snapshot: &Option<KernelDebugSnapshot>) -> (
    message: String)
    ensures
        message@ == exit_failure(*end, *snapshot),
{
    match (end, snapshot) {
        (KernelStreamEnd::Shutdown, _) => "js_repl kernel exited unexpectedly".to_owned(),
        (_, Some(snapshot)) => with_model_kernel_failure_message(
            "js_repl kernel exited unexpectedly",
            end.reason(),
            end.error(),
            snapshot,
        ),
        (_, None) => "js_repl kernel exited unexpectedly".to_owned(),
    }
}

/// What the model reads about a kernel that failed: its process, how that stands, the beginning of
/// its last errors, the reason, and the beginning of the error where there is one; `null` for what
/// there is none of.
pub proof fn lemma_failure_payload(
    reason: Seq<char>,
    stream_error: Option<Seq<char>>,
    snapshot: KernelDebugSnapshot,
)
    ensures
        failure_payload(reason, stream_error, snapshot) matches JsonView::Object(members) && {
            &&& members.len() == 5
            &&& member(members, "reason"@) == Some(JsonView::Text(reason))
            &&& member(members, "kernel_status"@) == Some(JsonView::Text(snapshot.status@))
            &&& snapshot.pid is None ==> member(members, "kernel_pid"@) == Some(JsonView::Null)
            &&& snapshot.pid matches Some(pid) ==> (member(members, "kernel_pid"@) matches Some(
                JsonView::Number(number),
            ) && number.kind == NumberKindView::PosInt(pid as nat))
            &&& stream_error is None ==> member(members, "stream_error"@) == Some(JsonView::Null)
            &&& stream_error matches Some(error) ==> (member(members, "stream_error"@)
                matches Some(JsonView::Text(shown)) && shown.len() <= error.len() && shown
                == error.take(shown.len() as int) && size(shown)
                <= 256 && (size(error)
                <= 256 ==> shown == error))
            &&& member(members, "kernel_stderr_tail"@) matches Some(JsonView::Text(shown)) && {
                let tail = snapshot.stderr_tail@;
                &&& shown.len() <= tail.len()
                &&& shown == tail.take(shown.len() as int)
                &&& size(shown) <= 1024
                &&& size(tail) <= 1024 ==> shown == tail
            }
        },
{
    reveal_strlit("kernel_pid");
    reveal_strlit("kernel_status");
    reveal_strlit("kernel_stderr_tail");
    reveal_strlit("reason");
    reveal_strlit("stream_error");
    reveal_with_fuel(member, 7);
    let members = failure_payload(reason, stream_error, snapshot)->Object_0;
    let rest = members.drop_first();
    let third = rest.drop_first();
    let fourth = third.drop_first();
    let fifth = fourth.drop_first();
    assert(members[0].0.len() == 10);
    assert(rest[0].0.len() == 13);
    assert(third[0].0.len() == 18);
    assert(fourth[0].0.len() == 6);
    assert(fifth[0].0.len() == 12);
    lemma_prefix_by_bytes(snapshot.stderr_tail@, JS_REPL_MODEL_DIAG_STDERR_MAX_BYTES as nat);
    if let Some(error) = stream_error {
        lemma_prefix_by_bytes(error, JS_REPL_MODEL_DIAG_ERROR_MAX_BYTES as nat);
    }
}

/// What the model is told of a failure begins with the failure itself. Where the kernel is likely
/// at fault, what is known of it stands behind, with the reason; where it is not, nothing does. A
/// kernel that was ended on purpose is not at fault.
pub proof fn lemma_failures_told(
    message: Seq<char>,
    snapshot: KernelDebugSnapshot,
    end: KernelStreamEnd,
)
    ensures
        starts(snapshot.status@, "exited("@) || has(lower_text(message), "broken pipe"@)
            ==> write_failure(message, snapshot) == message + "\n\n"@ + failure_details(
            "write_failed"@,
            Some(message),
            snapshot,
        ),
        !starts(snapshot.status@, "exited("@) && !(has(lower_text(message), "broken pipe"@))
            ==> write_failure(message, snapshot) == message,
        starts(snapshot.status@, "exited("@) ==> closed_failure(snapshot)
            == "js_repl kernel closed unexpectedly"@ + "\n\n"@ + failure_details(
            "response_channel_closed"@,
            None,
            snapshot,
        ),
        !starts(snapshot.status@, "exited("@) ==> closed_failure(snapshot)
            == "js_repl kernel closed unexpectedly"@,
        exit_failure(end, None) == "js_repl kernel exited unexpectedly"@,
        end is Shutdown ==> exit_failure(end, Some(snapshot))
            == "js_repl kernel exited unexpectedly"@,
        end is StdoutEof ==> exit_failure(end, Some(snapshot))
            == "js_repl kernel exited unexpectedly"@ + "\n\n"@ + failure_details(
            "stdout_eof"@,
            None,
            snapshot,
        ),
        end matches KernelStreamEnd::StdoutReadError(error) ==> exit_failure(end, Some(snapshot))
            == "js_repl kernel exited unexpectedly"@ + "\n\n"@ + failure_details(
            "stdout_read_error"@,
            Some(error@),
            snapshot,
        ),
{
}

/// How a process stands, in words: with the code that it gave back where it gave one, else with the
/// signal that ended it.
pub proof fn lemma_status_text(exit: ProcessExit)
    ensures
        exit.code matches Some(code) ==> status_text(ChildStatus::Exited(exit)) == "exited("@ + (
        "code="@ + decimal_int(code as int)) + ")"@,
        exit.code is None ==> (exit.signal matches Some(signal) ==> status_text(
            ChildStatus::Exited(exit),
        ) == "exited("@ + ("signal="@ + decimal_int(signal as int)) + ")"@),
        exit.code is None && exit.signal is None ==> status_text(ChildStatus::Exited(exit))
            == "exited("@ + "unknown"@ + ")"@,
        status_text(ChildStatus::Running) == "running"@,
{
}

} // verus!
