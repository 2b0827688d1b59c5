//! A kernel: what it was asked to run, what it tells the host, and how it ends.

use vstd::prelude::*;

use std::collections::VecDeque;

use crate::bytes::byte_strings;
use crate::bytes::chunks;
use crate::bytes::encoded;
use crate::bytes::flat;
use crate::bytes::lemma_chunks;
use crate::bytes::lemma_chunks_full;
use crate::bytes::lemma_one_chunk;
use crate::bytes::lemma_size_bound;
use crate::bytes::lemma_size_push;
use crate::bytes::size;
use crate::bytes::total;
use crate::js_repl::args::told_result;
use crate::js_repl::args::JsReplArgs;
use crate::js_repl::diagnostics::closed_failure;
use crate::js_repl::diagnostics::closed_failure_message;
use crate::js_repl::diagnostics::kernel_status_text;
use crate::js_repl::diagnostics::status_text;
use crate::js_repl::diagnostics::write_failure;
use crate::js_repl::diagnostics::write_failure_message;
use crate::js_repl::diagnostics::ChildStatus;
use crate::js_repl::diagnostics::KernelDebugSnapshot;
use crate::js_repl::exec_buffer::all_logged;
use crate::js_repl::exec_buffer::completed;
use crate::js_repl::exec_buffer::completion;
use crate::js_repl::exec_buffer::is_marked_tail;
use crate::js_repl::exec_buffer::lemma_queue_since_poll;
use crate::js_repl::exec_buffer::logged;
use crate::js_repl::exec_buffer::may_complete;
use crate::js_repl::exec_buffer::opt_completion;
use crate::js_repl::exec_buffer::BufferView;
use crate::js_repl::exec_buffer::CompletionView;
use crate::js_repl::exec_buffer::ExecCompletionEvent;
use crate::js_repl::exec_buffer::ExecTerminalKind;
use crate::js_repl::exec_buffer::JS_REPL_OUTPUT_DELTA_MAX_BYTES;
use crate::js_repl::exec_buffer::JS_REPL_POLL_LOGS_TRUNCATED_MARKER;
use crate::js_repl::exec_buffer::JS_REPL_POLL_LOG_QUEUE_MAX_BYTES;
use crate::js_repl::exec_buffer::MAX_EXEC_OUTPUT_DELTAS_PER_CALL;
use crate::js_repl::manager::calls_cancelled;
use crate::js_repl::manager::calls_cleared;
use crate::js_repl::manager::calls_registered;
use crate::js_repl::manager::exec_completed;
use crate::js_repl::manager::exec_may_complete;
use crate::js_repl::manager::routes_view;
use crate::js_repl::manager::JsReplManager;
use crate::js_repl::manager::ManagerView;
use crate::js_repl::manager::SessionView;
use crate::js_repl::messages::failed_tool;
use crate::js_repl::messages::tool_failure;
use crate::js_repl::messages::ExecMessage;
use crate::js_repl::messages::ExecMessageView;
use crate::js_repl::messages::ExecResultMessage;
use crate::js_repl::messages::RunToolResult;
use crate::js_repl::sessions::claim_fault;
use crate::js_repl::sessions::exec_polled;
use crate::js_repl::sessions::has_news;
use crate::js_repl::sessions::poll_fault;
use crate::js_repl::sessions::poll_result;
use crate::js_repl::sessions::runs;
use crate::js_repl::stderr_tail::bounded_line;
use crate::js_repl::stderr_tail::format_stderr_tail;
use crate::js_repl::stderr_tail::lemma_tail_bounded;
use crate::js_repl::stderr_tail::push_stderr_tail_line;
use crate::js_repl::stderr_tail::tail_after;
use crate::js_repl::stderr_tail::tail_bounded;
use crate::js_repl::stderr_tail::tail_text;
use crate::string_map::StringMap;
use crate::text::blank;
use crate::text::holds_text;
use crate::text::is_blank;
use crate::text::opt_str;
use crate::text::opt_text;
use crate::text::plus;
use crate::text::push_text;
use crate::text::same_text;
use crate::text::texts;
use crate::text::trim;
use crate::text::trimmed;
use crate::tools::respond;
use crate::tools::ErrorView;
use crate::tools::FunctionCallError;

verus! {

/// What the host knows of a kernel.
#[derive(Debug)]
pub struct KernelState {
    /// The code whose end is waited for.
    pub pending_execs: StringMap<()>,
    /// The code that may call tools.
    pub exec_contexts: StringMap<()>,
    /// The last lines of the kernel's error stream.
    pub recent_stderr: VecDeque<String>,
}

/// What the host knows of a kernel, with texts as characters.
#[verifier::ext_equal]
pub struct KernelView {
    /// The code whose end is waited for.
    pub pending: Set<Seq<char>>,
    /// The code that may call tools.
    pub contexts: Set<Seq<char>>,
    /// The last lines of the kernel's error stream.
    pub stderr: Seq<Seq<char>>,
}

impl View for KernelState {
    type V = KernelView;

    open spec fn view(&self) -> KernelView {
        KernelView {
            pending: self.pending_execs@.dom(),
            contexts: self.exec_contexts@.dom(),
            stderr: texts(self.recent_stderr@),
        }
    }
}

impl KernelState {
    /// Whether the state is sound: the lines keep to their limits.
    pub open spec fn wf(&self) -> bool {
        &&& self.pending_execs.wf()
        &&& self.exec_contexts.wf()
        &&& tail_bounded(texts(self.recent_stderr@))
    }

    /// A kernel that was just started.
    pub fn new() -> (kernel: KernelState)
        ensures
            kernel.wf(),
            kernel@ == (KernelView {
                pending: Set::empty(),
                contexts: Set::empty(),
                stderr: Seq::empty(),
            }),
    {
        let kernel = KernelState {
            pending_execs: StringMap::new(),
            exec_contexts: StringMap::new(),
            recent_stderr: VecDeque::new(),
        };
        proof {
            assert(kernel@.pending =~= Set::<Seq<char>>::empty());
            assert(kernel@.contexts =~= Set::<Seq<char>>::empty());
            assert(kernel@.stderr =~= Seq::<Seq<char>>::empty());
        }
        kernel
    }
}

// ---------------------------------------------------------------------------------------------
// Starting
// ---------------------------------------------------------------------------------------------

/// Why a kernel could not be started.
#[derive(Clone, Debug, PartialEq, Eq)]
pub enum StartFailure {
    /// There is no place for its files.
    TempDir(String),
    /// Its files could not be written.
    Script(String),
    /// There is no runtime.
    NoRuntime,
    /// The runtime will not do.
    Runtime(String),
    /// Its environment could not be set up.
    Environment(String),
    /// Its sandbox could not be set up.
    Sandbox(String),
    /// The runtime could not be run.
    Spawn(String),
    /// Its output cannot be read.
    NoStdout,
    /// Nothing can be written to it.
    NoStdin,
}

/// What is said where a kernel could not be started.
pub open spec fn start_message(failure: StartFailure) -> Seq<char> {
    match failure {
        StartFailure::TempDir(cause) => "failed to create js_repl temp dir: "@ + cause@,
        StartFailure::Script(cause) => "failed to stage js_repl kernel script: "@ + cause@,
        StartFailure::NoRuntime =>
            "Node runtime not found; install Node or set CODEX_JS_REPL_NODE_PATH"@,
        StartFailure::Runtime(message) => message@,
        StartFailure::Environment(message) => message@,
        StartFailure::Sandbox(cause) => "failed to configure sandbox for js_repl: "@ + cause@,
        StartFailure::Spawn(cause) => "failed to start Node runtime: "@ + cause@,
        StartFailure::NoStdout => "js_repl kernel missing stdout"@,
        StartFailure::NoStdin => "js_repl kernel missing stdin"@,
    }
}

/// What the model is told where a kernel could not be started.
pub fn start_error(failure: &StartFailure) -> (error: FunctionCallError)
    ensures
        error@ == ErrorView::RespondToModel(start_message(*failure)),
{
    let message = match failure {
        StartFailure::TempDir(cause) => plus(
            "failed to create js_repl temp dir: ",
            cause.as_str(),
        ),
        StartFailure::Script(cause) => plus(
            "failed to stage js_repl kernel script: ",
            cause.as_str(),
        ),
        StartFailure::NoRuntime =>
            "Node runtime not found; install Node or set CODEX_JS_REPL_NODE_PATH".to_owned(),
        StartFailure::Runtime(message) => message.clone(),
        StartFailure::Environment(message) => message.clone(),
        StartFailure::Sandbox(cause) => plus(
            "failed to configure sandbox for js_repl: ",
            cause.as_str(),
        ),
        StartFailure::Spawn(cause) => plus("failed to start Node runtime: ", cause.as_str()),
        StartFailure::NoStdout => "js_repl kernel missing stdout".to_owned(),
        StartFailure::NoStdin => "js_repl kernel missing stdin".to_owned(),
    };
    FunctionCallError::RespondToModel(message)
}

/// The variable that names the directory for a kernel's files.
pub const TMP_DIR_VARIABLE: &'static str = "CODEX_JS_TMP_DIR";

/// The variable that names the directories of modules.
pub const MODULE_DIRS_VARIABLE: &'static str = "CODEX_JS_REPL_NODE_MODULE_DIRS";

/// The environment of a kernel, or why there is none. `module_dirs` holds the configured
/// directories of modules as one text, or why they cannot be one; the environment's own go before
/// them.
pub open spec fn kernel_env(
    env: Map<Seq<char>, Seq<char>>,
    tmp_dir: Seq<char>,
    module_dirs: Option<Result<Seq<char>, Seq<char>>>,
) -> Result<Map<Seq<char>, Seq<char>>, Seq<char>> {
    let with_tmp = env.insert(TMP_DIR_VARIABLE@, tmp_dir);
    match module_dirs {
        Some(joined) => if with_tmp.contains_key(MODULE_DIRS_VARIABLE@) {
            Ok(with_tmp)
        } else {
            match joined {
                Ok(dirs) => Ok(with_tmp.insert(MODULE_DIRS_VARIABLE@, dirs)),
                Err(cause) => Err("failed to join js_repl_node_module_dirs: "@ + cause),
            }
        },
        None => Ok(with_tmp),
    }
}

/// The view of joined directories.
pub open spec fn joined_dirs(dirs: Option<Result<String, String>>) -> Option<
    Result<Seq<char>, Seq<char>>,
> {
    match dirs {
        Some(Ok(dirs)) => Some(Ok(dirs@)),
        Some(Err(cause)) => Some(Err(cause@)),
        None => None,
    }
}

/// The environment of a kernel. `module_dirs` holds the configured directories of modules as one
/// text, or why they cannot be one; the environment's own go before them.
pub fn kernel_environment(
    env: StringMap<String>,
    tmp_dir: &str,
    module_dirs: Option<Result<String, String>>,
) -> (result: Result<StringMap<String>, StartFailure>)
    requires
        env.wf(),
    ensures
        match result {
            Ok(after) => after.wf() && kernel_env(
                routes_view(env@),
                tmp_dir@,
                joined_dirs(module_dirs),
            ) == Ok::<_, Seq<char>>(routes_view(after@)),
            Err(failure) => kernel_env(
                routes_view(env@),
                tmp_dir@,
                joined_dirs(module_dirs),
            ) == Err::<Map<Seq<char>, Seq<char>>, _>(start_message(failure)) && failure
                is Environment,
        },
{
    let ghost before = routes_view(env@);
    let mut env = env;
    env.insert(TMP_DIR_VARIABLE.to_owned(), tmp_dir.to_owned());
    let ghost with_tmp = before.insert(TMP_DIR_VARIABLE@, tmp_dir@);
    assert(routes_view(env@) =~= with_tmp);
    match module_dirs {
        Some(joined) => {
            if env.contains_key(MODULE_DIRS_VARIABLE) {
                return Ok(env);
            }
            match joined {
                Ok(dirs) => {
                    env.insert(MODULE_DIRS_VARIABLE.to_owned(), dirs);
                    assert(routes_view(env@) =~= with_tmp.insert(MODULE_DIRS_VARIABLE@, dirs@));
                    Ok(env)
                },
                Err(cause) => Err(
                    StartFailure::Environment(
                        plus("failed to join js_repl_node_module_dirs: ", cause.as_str()),
                    ),
                ),
            }
        },
        None => Ok(env),
    }
}

/// A command.
#[derive(Clone, Debug, PartialEq, Eq)]
pub struct KernelCommand {
    /// The program.
    pub program: String,
    /// Its arguments.
    pub args: Vec<String>,
    /// The name under which it runs.
    pub arg0: Option<String>,
}

/// The command that runs a kernel.
pub fn kernel_command(node_path: &str, kernel_path: &str) -> (command: KernelCommand)
    ensures
        command.program@ == node_path@,
        texts(command.args@) == seq!["--experimental-vm-modules"@, kernel_path@],
        command.arg0 is None,
{
    let args = vec!["--experimental-vm-modules".to_owned(), kernel_path.to_owned()];
    assert(texts(args@) =~= seq!["--experimental-vm-modules"@, kernel_path@]);
    KernelCommand { program: node_path.to_owned(), args, arg0: None }
}

/// The command that a command line stands for: its first word is the program, and the name under
/// which it runs where no other is given.
pub fn spawn_command(line: &Vec<String>, arg0: &Option<String>) -> (command: KernelCommand)
    ensures
        command.program@ == (if line@.len() > 0 {
            line@[0]@
        } else {
            Seq::empty()
        }),
        texts(command.args@) == (if line@.len() > 0 {
            texts(line@).drop_first()
        } else {
            Seq::empty()
        }),
        opt_text(command.arg0) == Some(
            match opt_text(*arg0) {
                Some(name) => name,
                None => command.program@,
            },
        ),
{
    let program = if line.len() > 0 {
        line[0].clone()
    } else {
        String::new()
    };
    let name = match arg0 {
        Some(name) => name.clone(),
        None => program.clone(),
    };
    let mut args: Vec<String> = Vec::new();
    assert(texts(args@) =~= Seq::<Seq<char>>::empty());
    if line.len() > 0 {
        let mut at: usize = 1;
        let ghost rest = texts(line@).drop_first();
        assert(texts(args@) =~= rest.take(0));
        while at < line.len()
            invariant
                rest == texts(line@).drop_first(),
                1 <= at <= line@.len(),
                texts(args@) == rest.take(at - 1),
            decreases line@.len() - at,
        {
            push_text(&mut args, line[at].clone());
            assert(rest.take(at as int) =~= rest.take(at - 1).push(rest[at - 1]));
            at += 1;
        }
        assert(rest.take(at - 1) =~= rest);
    }
    KernelCommand { program, args, arg0: Some(name) }
}

// ---------------------------------------------------------------------------------------------
// Code that is waited for
// ---------------------------------------------------------------------------------------------

/// What is said of code that ran for too long.
pub const JS_REPL_TIMEOUT_ERROR_MESSAGE: &'static str =
    "js_repl execution timed out; kernel reset, rerun your request";

/// How long code may run where it is not told, in milliseconds.
pub const JS_REPL_DEFAULT_TIMEOUT_MS: u64 = 30000;

/// What code that was waited for gave back.
#[derive(Clone, Debug, PartialEq, Eq)]
pub struct JsExecResult {
    /// The text.
    pub output: String,
}

/// What there is to do before code can be run and waited for.
#[derive(Clone, Copy, Debug, PartialEq, Eq, Structural)]
pub struct ExecutePlan {
    /// Whether a kernel has to be started.
    pub needs_kernel: bool,
    /// How long the code may run, in milliseconds.
    pub wait_ms: u64,
}

/// What became of code that is waited for.
#[derive(Clone, Debug, PartialEq, Eq)]
pub enum ExecuteOutcome {
    /// It could not be handed to the kernel.
    WriteFailed {
        /// What went wrong.
        message: String,
        /// How the kernel stands.
        snapshot: KernelDebugSnapshot,
    },
    /// The kernel stopped answering.
    Closed {
        /// How the kernel stands.
        snapshot: KernelDebugSnapshot,
    },
    /// It ran for too long.
    TimedOut,
    /// It came to an end.
    Replied(ExecResultMessage),
}

/// How waiting for code ended.
#[derive(Clone, Copy, Debug, PartialEq, Eq, Structural)]
pub enum ExecuteEnd {
    /// The code could not be handed to the kernel.
    WriteFailed,
    /// The kernel stopped answering.
    Closed,
    /// The code ran for too long.
    TimedOut,
    /// The code came to an end.
    Replied,
}

/// What is left to do once waiting for code ended.
#[derive(Clone, Copy, Debug, PartialEq, Eq, Structural)]
pub struct ExecuteCleanup {
    /// The kernel to end.
    pub kernel: Option<u64>,
    /// Whether the code's tool calls are to be called off, waited for, and counted no longer.
    pub end_calls: bool,
}

/// What the model is told of code that is waited for.
pub open spec fn execute_reply(outcome: ExecuteOutcome) -> Result<Seq<char>, Seq<char>> {
    match outcome {
        ExecuteOutcome::WriteFailed { message, snapshot } => Err(
            write_failure(message@, snapshot),
        ),
        ExecuteOutcome::Closed { snapshot } => Err(closed_failure(snapshot)),
        ExecuteOutcome::TimedOut => Err(JS_REPL_TIMEOUT_ERROR_MESSAGE@),
        ExecuteOutcome::Replied(message) => message@,
    }
}

/// What the model is told of code that is waited for.
pub fn execute_result(outcome: ExecuteOutcome) -> (result: Result<JsExecResult, FunctionCallError>)
    ensures
        (match result {
            Ok(result) => Ok(result.output@),
            Err(error) => Err(error@),
        }) == told_result(execute_reply(outcome)),
        outcome matches ExecuteOutcome::Replied(ExecResultMessage::Done { output }) ==> (
        result matches Ok(given) && given.output@ == output@),
        outcome matches ExecuteOutcome::Replied(ExecResultMessage::Failed { message }) ==> (
        result matches Err(FunctionCallError::RespondToModel(told)) && told@ == message@),
{
    match outcome {
        ExecuteOutcome::WriteFailed { message, snapshot } => Err(
            FunctionCallError::RespondToModel(write_failure_message(message, &snapshot)),
        ),
        ExecuteOutcome::Closed { snapshot } => Err(
            FunctionCallError::RespondToModel(closed_failure_message(&snapshot)),
        ),
        ExecuteOutcome::TimedOut => Err(respond(JS_REPL_TIMEOUT_ERROR_MESSAGE)),
        ExecuteOutcome::Replied(ExecResultMessage::Done { output }) => Ok(JsExecResult { output }),
        ExecuteOutcome::Replied(ExecResultMessage::Failed { message }) => Err(
            FunctionCallError::RespondToModel(message),
        ),
    }
}

impl KernelState {
    /// Forgets code that is no longer waited for.
    pub fn withdraw_exec(&mut self, exec_id: &str)
        requires
            old(self).wf(),
        ensures
            final(self).wf(),
            final(self)@ == exec_withdrawn(old(self)@, exec_id@),
    {
        self.pending_execs.remove(exec_id);
        assert(self@.pending =~= old(self)@.pending.remove(exec_id@));
        self.exec_contexts.remove(exec_id);
        assert(self@.contexts =~= old(self)@.contexts.remove(exec_id@));
    }

    /// Takes a line of the kernel's error stream in, unless it is blank. What is kept of it is
    /// handed back.
    pub fn note_stderr(&mut self, line: &str) -> (kept: Option<String>)
        requires
            old(self).wf(),
        ensures
            final(self).wf(),
            if is_blank(line@) {
                kept is None && final(self)@ == old(self)@
            } else {
                &&& final(self)@ == (KernelView {
                    stderr: tail_after(old(self)@.stderr, trim(line@)),
                    ..old(self)@
                })
                &&& opt_text(kept) == (if bounded_line(trim(line@)).len() == 0 {
                    None
                } else {
                    Some(bounded_line(trim(line@)))
                })
            },
    {
        if blank(line) {
            return None;
        }
        proof {
            lemma_tail_bounded(texts(self.recent_stderr@), trim(line@));
        }
        let kept = push_stderr_tail_line(&mut self.recent_stderr, trimmed(line).as_str());
        proof {
            reveal_strlit("");
            assert(kept@.len() == 0 ==> kept@ =~= ""@);
        }
        if same_text(kept.as_str(), "") {
            None
        } else {
            Some(kept)
        }
    }

    /// How the kernel stands.
    pub fn snapshot(&self, pid: Option<u32>, status: &ChildStatus) -> (snapshot:
        KernelDebugSnapshot)
        ensures
            snapshot.pid == pid,
            snapshot.status@ == status_text(*status),
            snapshot.stderr_tail@ == tail_text(self@.stderr),
    {
        KernelDebugSnapshot {
            pid,
            status: kernel_status_text(status),
            stderr_tail: format_stderr_tail(&self.recent_stderr),
        }
    }
}

impl JsReplManager {
    /// What there is to do before code can be run and waited for; it runs in no session.
    pub fn execute(&self, args: &JsReplArgs) -> (plan: Result<ExecutePlan, FunctionCallError>)
        ensures
            match plan {
                Ok(plan) => {
                    &&& args@.session_id is None
                    &&& plan.needs_kernel == (self@.kernel is None)
                    &&& plan.wait_ms == (match args.timeout_ms {
                        Some(limit) => limit,
                        None => JS_REPL_DEFAULT_TIMEOUT_MS,
                    })
                    &&& args.timeout_ms is None ==> plan.wait_ms == 30_000
                },
                Err(error) => args@.session_id is Some && error@ == ErrorView::RespondToModel(
                    "js_repl session_id is only supported when poll=true"@,
                ),
            },
    {
        if args.session_id.is_some() {
            return Err(respond("js_repl session_id is only supported when poll=true"));
        }
        Ok(
            ExecutePlan {
                needs_kernel: self.kernel.is_none(),
                wait_ms: match args.timeout_ms {
                    Some(limit) => limit,
                    None => JS_REPL_DEFAULT_TIMEOUT_MS,
                },
            },
        )
    }

    /// Takes a kernel for code that is waited for.
    pub fn use_kernel(&mut self, kernel: u64)
        requires
            old(self).wf(),
        ensures
            final(self).wf(),
            final(self)@ == (ManagerView { kernel: Some(kernel), ..old(self)@ }),
    {
        self.kernel = Some(kernel);
    }

    /// Makes code known that is waited for, before it is handed to its kernel. What the kernel is
    /// told is handed back.
    pub fn begin_execute(
        &mut self,
        kernel: &mut KernelState,
        exec_id: &str,
        args: &JsReplArgs,
    ) -> (message: ExecMessage)
        requires
            old(self).wf(),
            old(kernel).wf(),
        ensures
            final(self).wf(),
            final(kernel).wf(),
            final(self)@ == calls_registered(old(self)@, exec_id@),
            final(kernel)@ == (KernelView {
                pending: old(kernel)@.pending.insert(exec_id@),
                contexts: old(kernel)@.contexts.insert(exec_id@),
                ..old(kernel)@
            }),
            message@ == (ExecMessageView {
                id: exec_id@,
                code: args@.code,
                timeout_ms: args.timeout_ms,
                stream_logs: false,
            }),
    {
        kernel.pending_execs.insert(exec_id.to_owned(), ());
        assert(kernel@.pending =~= old(kernel)@.pending.insert(exec_id@));
        kernel.exec_contexts.insert(exec_id.to_owned(), ());
        assert(kernel@.contexts =~= old(kernel)@.contexts.insert(exec_id@));
        self.register_exec_tool_calls(exec_id);
        ExecMessage {
            id: exec_id.to_owned(),
            code: args.code.clone(),
            timeout_ms: args.timeout_ms,
            stream_logs: false,
        }
    }

    /// Takes in that waiting for code ended. Code that came to an end left nothing behind; any
    /// other is forgotten, and takes its kernel with it where it ran for too long.
    pub fn end_execute(&mut self, kernel: &mut KernelState, exec_id: &str, end: ExecuteEnd) -> (
        cleanup: ExecuteCleanup)
        requires
            old(self).wf(),
            old(kernel).wf(),
        ensures
            final(self).wf(),
            final(kernel).wf(),
            final(kernel)@ == (if end == ExecuteEnd::Replied {
                old(kernel)@
            } else {
                exec_withdrawn(old(kernel)@, exec_id@)
            }),
            final(self)@ == execute_ended(old(self)@, exec_id@, end),
            cleanup.kernel == (if end == ExecuteEnd::TimedOut {
                old(self)@.kernel
            } else {
                None
            }),
            cleanup.end_calls == leaves_calls(end),
    {
        match end {
            ExecuteEnd::WriteFailed => {
                kernel.withdraw_exec(exec_id);
                self.clear_exec_tool_calls(exec_id);
                ExecuteCleanup { kernel: None, end_calls: false }
            },
            ExecuteEnd::Closed => {
                kernel.withdraw_exec(exec_id);
                ExecuteCleanup { kernel: None, end_calls: true }
            },
            ExecuteEnd::TimedOut => {
                kernel.withdraw_exec(exec_id);
                ExecuteCleanup { kernel: self.reset_kernel(), end_calls: true }
            },
            ExecuteEnd::Replied => ExecuteCleanup { kernel: None, end_calls: false },
        }
    }
}

/// What is known of a kernel when code is no longer waited for.
pub open spec fn exec_withdrawn(kernel: KernelView, id: Seq<char>) -> KernelView {
    KernelView { pending: kernel.pending.remove(id), contexts: kernel.contexts.remove(id), ..kernel }
}

/// Whether the tool calls of code are still counted when waiting for it ended.
pub open spec fn leaves_calls(end: ExecuteEnd) -> bool {
    end == ExecuteEnd::Closed || end == ExecuteEnd::TimedOut
}

/// The state when waiting for code ended.
pub open spec fn execute_ended(state: ManagerView, id: Seq<char>, end: ExecuteEnd) -> ManagerView {
    match end {
        ExecuteEnd::WriteFailed => calls_cleared(state, id),
        ExecuteEnd::TimedOut => ManagerView { kernel: None, ..state },
        _ => state,
    }
}

/// Code whose end is not awaited after all leaves nothing behind in its kernel or among the tool
/// calls that are counted. Only where it runs for too long is its kernel gone.
pub proof fn lemma_execute_leaves_nothing(
    state: ManagerView,
    kernel: KernelView,
    id: Seq<char>,
    end: ExecuteEnd,
)
    requires
        end != ExecuteEnd::Replied,
        !state.calls.contains_key(id),
        !kernel.pending.contains(id),
        !kernel.contexts.contains(id),
    ensures
        ({
            let ended = execute_ended(calls_registered(state, id), id, end);
            let after = if leaves_calls(end) {
                calls_cleared(calls_cancelled(ended, id), id)
            } else {
                ended
            };
            after == (ManagerView {
                kernel: if end == ExecuteEnd::TimedOut {
                    None
                } else {
                    state.kernel
                },
                ..state
            })
        }),
        exec_withdrawn(
            KernelView {
                pending: kernel.pending.insert(id),
                contexts: kernel.contexts.insert(id),
                ..kernel
            },
            id,
        ) == kernel,
{
    let begun = calls_registered(state, id);
    assert(begun.calls.remove(id) =~= state.calls);
    assert(calls_cancelled(begun, id).calls.remove(id) =~= state.calls);
    assert(kernel.pending.insert(id).remove(id) =~= kernel.pending);
    assert(kernel.contexts.insert(id).remove(id) =~= kernel.contexts);
}

// ---------------------------------------------------------------------------------------------
// What a kernel tells
// ---------------------------------------------------------------------------------------------

/// Pieces of output to send on.
#[derive(Clone, Debug, PartialEq, Eq)]
pub struct OutputDeltas {
    /// The call that the code belongs to.
    pub event_call_id: String,
    /// The pieces.
    pub chunks: Vec<Vec<u8>>,
}

/// The pieces in which a line of some code is sent on.
pub open spec fn delta_pieces(buffer: BufferView, line: Seq<char>) -> Seq<Seq<char>> {
    chunks(
        line.push('\n'),
        JS_REPL_OUTPUT_DELTA_MAX_BYTES as nat,
        (MAX_EXEC_OUTPUT_DELTAS_PER_CALL - buffer.emitted_deltas) as nat,
    )
}

/// The state when some code in the background has put a line out.
pub open spec fn line_taken(state: ManagerView, id: Seq<char>, line: Seq<char>) -> ManagerView {
    if state.store.contains_key(id) {
        let buffer = state.store[id];
        ManagerView {
            store: state.store.insert(
                id,
                BufferView {
                    emitted_deltas: buffer.emitted_deltas + delta_pieces(buffer, line).len(),
                    ..logged(buffer, line)
                },
            ),
            ..state
        }
    } else {
        state
    }
}

/// The state when some code in the background has put lines out, one after another.
pub open spec fn lines_taken(state: ManagerView, id: Seq<char>, lines: Seq<Seq<char>>) -> ManagerView
    decreases lines.len(),
{
    if lines.len() == 0 {
        state
    } else {
        line_taken(lines_taken(state, id, lines.drop_last()), id, lines.last())
    }
}

/// What a line changes: the queue for the next poll and all lines, and nothing else of the code;
/// no other code, no session.
pub proof fn lemma_line_taken(state: ManagerView, id: Seq<char>, line: Seq<char>)
    requires
        state.store.contains_key(id),
    ensures
        ({
            let after = line_taken(state, id, line);
            let before = state.store[id];
            let buffer = after.store[id];
            &&& after.store.dom() == state.store.dom()
            &&& buffer.session_id == before.session_id
            &&& buffer.event_call_id == before.event_call_id
            &&& buffer.output == before.output
            &&& buffer.error == before.error
            &&& buffer.done == before.done
            &&& buffer.terminal_kind == before.terminal_kind
            &&& buffer.host_terminating == before.host_terminating
            &&& buffer.started_at == before.started_at
            &&& forall|other: Seq<char>|
                other != id && state.store.contains_key(other) ==> #[trigger] after.store[other]
                    == state.store[other]
            &&& after.sessions == state.sessions
            &&& after.routes == state.routes
            &&& after.calls == state.calls
            &&& after.kernel == state.kernel
        }),
{
    assert(line_taken(state, id, line).store.dom() =~= state.store.dom());
}

/// A line is sent on as it is, with a line break behind it: in one piece where it fits, and else in
/// as few as hold it, one after another. What is sent is counted, and nothing is sent once as many
/// pieces were as may be.
pub proof fn lemma_line_sent(state: ManagerView, id: Seq<char>, line: Seq<char>)
    requires
        state.store.contains_key(id),
        state.store[id].emitted_deltas <= MAX_EXEC_OUTPUT_DELTAS_PER_CALL,
    ensures
        ({
            let buffer = state.store[id];
            let pieces = delta_pieces(buffer, line);
            let sent = buffer.emitted_deltas + pieces.len();
            &&& line_taken(state, id, line).store[id].emitted_deltas == sent
            &&& sent <= 10000
            &&& buffer.emitted_deltas == 10000 ==> pieces.len() == 0
            &&& sent < 10000 ==> flat(pieces) == line.push('\n')
            &&& flat(pieces).len() <= line.len() + 1
            &&& flat(pieces) == line.push('\n').take(flat(pieces).len() as int)
            &&& size(line) < 8192 && buffer.emitted_deltas < 10000 ==> pieces == seq![
                line.push('\n'),
            ]
            &&& forall|i: int|
                0 <= i < pieces.len() ==> size(#[trigger] pieces[i]) <= 8192
            &&& forall|i: int|
                0 <= i < pieces.len() - 1 ==> size((#[trigger] pieces[i]).push(pieces[i + 1][0]))
                    > 8192
        }),
{
    let text = line.push('\n');
    let remaining = (MAX_EXEC_OUTPUT_DELTAS_PER_CALL - state.store[id].emitted_deltas) as nat;
    let most = JS_REPL_OUTPUT_DELTA_MAX_BYTES as nat;
    lemma_chunks(text, most, remaining);
    lemma_size_push(line, '\n');
    let pieces = delta_pieces(state.store[id], line);
    if size(line) < 8192 && remaining > 0 {
        lemma_one_chunk(text, most, remaining);
    }
    assert forall|i: int| 0 <= i < pieces.len() implies size(#[trigger] pieces[i]) <= 8192 by {
        if pieces[i].len() == 1 {
            lemma_size_bound(pieces[i]);
        }
    }
    assert forall|i: int| 0 <= i < pieces.len() - 1 implies size(
        (#[trigger] pieces[i]).push(pieces[i + 1][0]),
    ) > 8192 by {
        lemma_chunks_full(text, most, remaining, i);
    }
}

/// How many pieces were sent makes no difference to the lines that are kept.
proof fn lemma_lines_taken(state: ManagerView, id: Seq<char>, lines: Seq<Seq<char>>)
    requires
        state.store.contains_key(id),
    ensures
        ({
            let after = lines_taken(state, id, lines);
            &&& after.store.contains_key(id)
            &&& after.store[id] == (BufferView {
                emitted_deltas: after.store[id].emitted_deltas,
                ..all_logged(state.store[id], lines)
            })
        }),
    decreases lines.len(),
{
    if lines.len() > 0 {
        lemma_lines_taken(state, id, lines.drop_last());
    }
}

/// Lines do not change how code stands.
proof fn lemma_lines_leave(state: ManagerView, id: Seq<char>, lines: Seq<Seq<char>>)
    requires
        state.store.contains_key(id),
    ensures
        ({
            let before = state.store[id];
            let after = lines_taken(state, id, lines).store[id];
            &&& lines_taken(state, id, lines).store.contains_key(id)
            &&& after.session_id == before.session_id
            &&& after.output == before.output
            &&& after.error == before.error
            &&& after.done == before.done
        }),
    decreases lines.len(),
{
    if lines.len() > 0 {
        let earlier = lines.drop_last();
        lemma_lines_leave(state, id, earlier);
        lemma_line_taken(lines_taken(state, id, earlier), id, lines.last());
    }
}

/// The lines that code puts out after a poll are what the next poll gives, all of them and in
/// order, whether or not the code came to an end; where they take too many bytes, the marker and
/// the newest of them. The poll after that gives none of them again.
pub proof fn lemma_lines_polled(state: ManagerView, id: Seq<char>, lines: Seq<Seq<char>>)
    requires
        state.store.contains_key(id),
        state.store[id].session_id is Some,
    ensures
        ({
            let after = lines_taken(exec_polled(state, id), id, lines);
            let told = poll_result(id, after.store[id]);
            &&& poll_fault(after, id) is None
            &&& total(lines) <= 65536 ==> told.logs == lines
            &&& total(lines) > 65536 ==> exists|from: int|
                is_marked_tail(told.logs, lines, from)
            &&& lines.len() > 0 ==> has_news(after.store[id])
            &&& told.done == state.store[id].done
            &&& told.output == state.store[id].output
            &&& told.error == state.store[id].error
            &&& poll_result(id, exec_polled(after, id).store[id]).logs.len() == 0
        }),
{
    let polled = exec_polled(state, id);
    lemma_lines_taken(polled, id, lines);
    lemma_lines_leave(polled, id, lines);
    lemma_queue_since_poll(polled.store[id], lines);
    let after = lines_taken(polled, id, lines);
    if total(lines) > JS_REPL_POLL_LOG_QUEUE_MAX_BYTES {
        let logs = all_logged(polled.store[id], lines).logs;
        let from = choose|from: int| is_marked_tail(logs, lines, from);
        let told = poll_result(id, after.store[id]);
        assert(is_marked_tail(told.logs, lines, from));
        assert(told.logs[0] == JS_REPL_POLL_LOGS_TRUNCATED_MARKER@);
        assert(told.logs.len() > 0);
    }
}

/// What is waited for of code that came to an end.
pub open spec fn result_reply(ok: bool, output: Seq<char>, error: Option<Seq<char>>) -> Result<
    Seq<char>,
    Seq<char>,
> {
    if ok {
        Ok(output)
    } else {
        Err(
            match error {
                Some(error) => error,
                None => "js_repl execution failed"@,
            },
        )
    }
}

/// The state when a session no longer runs some code.
pub open spec fn session_freed(
    state: ManagerView,
    session_id: Option<Seq<char>>,
    exec_id: Seq<char>,
    now: u64,
) -> ManagerView {
    match session_id {
        Some(session_id) => if runs(state, session_id, exec_id) {
            ManagerView {
                sessions: state.sessions.insert(
                    session_id,
                    SessionView {
                        active_exec: None,
                        last_used: now,
                        ..state.sessions[session_id]
                    },
                ),
                ..state
            }
        } else {
            state
        },
        None => state,
    }
}

/// The state when a kernel has told what code came to.
pub open spec fn result_taken(
    state: ManagerView,
    id: Seq<char>,
    ok: bool,
    output: Seq<char>,
    error: Option<Seq<char>>,
    session_id: Option<Seq<char>>,
    now: u64,
) -> ManagerView {
    session_freed(
        calls_cleared(
            exec_completed(
                state,
                id,
                result_kind(ok),
                Some(output),
                result_error(ok, output, error),
                false,
            ),
            id,
        ),
        session_id,
        id,
        now,
    )
}

/// How code came to an end.
pub open spec fn result_kind(ok: bool) -> ExecTerminalKind {
    if ok {
        ExecTerminalKind::Success
    } else {
        ExecTerminalKind::Error
    }
}

/// What went wrong with code.
pub open spec fn result_error(ok: bool, output: Seq<char>, error: Option<Seq<char>>) -> Option<
    Seq<char>,
> {
    match result_reply(ok, output, error) {
        Ok(_) => None,
        Err(message) => Some(message),
    }
}

/// What there is to tell when code came to an end.
#[derive(Clone, Debug, PartialEq, Eq)]
pub struct ResultStep {
    /// For who waits for it.
    pub reply: Option<ExecResultMessage>,
    /// For the user.
    pub event: Option<ExecCompletionEvent>,
}

impl JsReplManager {
    /// Takes a line in that code in the background has put out. The pieces in which it is sent on
    /// are handed back; none where the code is not known.
    pub fn handle_log(&mut self, id: &str, text: String) -> (deltas: Option<OutputDeltas>)
        requires
            old(self).wf(),
        ensures
            final(self).wf(),
            final(self)@ == line_taken(old(self)@, id@, text@),
            match deltas {
                Some(deltas) => {
                    &&& old(self)@.store.contains_key(id@)
                    &&& deltas.event_call_id@ == old(self)@.store[id@].event_call_id
                    &&& byte_strings(deltas.chunks@) == encoded(
                        delta_pieces(old(self)@.store[id@], text@),
                    )
                },
                None => !old(self)@.store.contains_key(id@),
            },
    {
        let ghost before = self@;
        match self.exec_store.get_mut(id) {
            Some(entry) => {
                let line = text.clone();
                entry.push_log(text);
                let chunks = entry.output_delta_chunks_for_log_line(line.as_str());
                let event_call_id = entry.event_call_id.clone();
                proof {
                    assert(byte_strings(chunks@).len() == chunks@.len());
                    assert(self@.store =~= line_taken(before, id@, text@).store);
                }
                Some(OutputDeltas { event_call_id, chunks })
            },
            None => None,
        }
    }

    /// Takes the session of code that came to an end. Its tool calls are to be waited for.
    pub fn take_route(&mut self, id: &str) -> (session_id: Option<String>)
        requires
            old(self).wf(),
        ensures
            final(self).wf(),
            final(self)@ == (ManagerView { routes: old(self)@.routes.remove(id@), ..old(self)@ }),
            opt_text(session_id) == (if old(self)@.routes.contains_key(id@) {
                Some(old(self)@.routes[id@])
            } else {
                None
            }),
    {
        let ghost before = self@;
        let session_id = self.exec_to_session.remove(id);
        assert(self@.routes =~= before.routes.remove(id@));
        session_id
    }

    /// Takes in what code came to, once its tool calls have ended.
    pub fn finish_result(
        &mut self,
        kernel: &mut KernelState,
        id: &str,
        ok: bool,
        output: String,
        error: Option<String>,
        session_id: Option<&str>,
        now: u64,
    ) -> (step: ResultStep)
        requires
            old(self).wf(),
            old(kernel).wf(),
        ensures
            final(self).wf(),
            final(kernel).wf(),
            final(kernel)@ == exec_withdrawn(old(kernel)@, id@),
            final(self)@ == result_taken(
                old(self)@,
                id@,
                ok,
                output@,
                opt_text(error),
                opt_str(session_id),
                now,
            ),
            match step.reply {
                Some(reply) => old(kernel)@.pending.contains(id@) && reply@ == result_reply(
                    ok,
                    output@,
                    opt_text(error),
                ),
                None => !old(kernel)@.pending.contains(id@),
            },
            step.reply matches Some(reply) ==> match reply {
                ExecResultMessage::Done { output: told } => ok && told@ == output@,
                ExecResultMessage::Failed { message } => !ok && (match error {
                    Some(problem) => message@ == problem@,
                    None => message@ == "js_repl execution failed"@,
                }),
            },
            opt_completion(step.event) == (if exec_may_complete(
                old(self)@,
                id@,
                result_kind(ok),
                false,
            ) {
                Some(completion(final(self)@.store[id@], now as nat))
            } else {
                None
            }),
    {
        let awaited = kernel.pending_execs.contains_key(id);
        let failure = match error {
            Some(error) => error,
            None => "js_repl execution failed".to_owned(),
        };
        let reply = if awaited {
            Some(
                if ok {
                    ExecResultMessage::Done { output: output.clone() }
                } else {
                    ExecResultMessage::Failed { message: failure.clone() }
                },
            )
        } else {
            None
        };
        let kind = if ok {
            ExecTerminalKind::Success
        } else {
            ExecTerminalKind::Error
        };
        let problem = if ok {
            None
        } else {
            Some(failure)
        };
        let event = self.complete_exec(id, kind, Some(output), problem, false, now);
        kernel.withdraw_exec(id);
        self.clear_exec_tool_calls(id);
        if let Some(session_id) = session_id {
            self.free_session(session_id, id, now);
        }
        ResultStep { reply, event }
    }

    /// Notes that a session no longer runs some code.
    fn free_session(&mut self, session_id: &str, exec_id: &str, now: u64)
        requires
            old(self).wf(),
        ensures
            final(self).wf(),
            final(self)@ == session_freed(old(self)@, Some(session_id@), exec_id@, now),
    {
        let ghost before = self@;
        let ghost sessions = self.poll_sessions;
        match self.poll_sessions.get_mut(session_id) {
            Some(session) => {
                let running = match &session.active_exec {
                    Some(active) => same_text(active.as_str(), exec_id),
                    None => false,
                };
                if running {
                    session.active_exec = None;
                    session.last_used = now;
                }
                proof {
                    assert(self@.sessions =~= session_freed(
                        before,
                        Some(session_id@),
                        exec_id@,
                        now,
                    ).sessions);
                    sessions.lemma_order();
                    self.poll_sessions.lemma_order();
                }
            },
            None => {},
        }
    }
}

/// Code that comes to an end frees its session, which can run more. A poll then gives what the code
/// came to, and its tool calls are counted no longer.
pub proof fn lemma_result_frees_session(
    state: ManagerView,
    session_id: Seq<char>,
    exec_id: Seq<char>,
    ok: bool,
    output: Seq<char>,
    error: Option<Seq<char>>,
    now: u64,
)
    requires
        runs(state, session_id, exec_id),
        poll_fault(state, exec_id) is None,
        !state.store[exec_id].done,
    ensures
        ({
            let after = result_taken(state, exec_id, ok, output, error, Some(session_id), now);
            let told = poll_result(exec_id, after.store[exec_id]);
            &&& claim_fault(after, session_id) is None
            &&& after.sessions[session_id].last_used == now
            &&& after.sessions[session_id].kernel == state.sessions[session_id].kernel
            &&& poll_fault(after, exec_id) is None
            &&& told.done
            &&& told.output == Some(output)
            &&& told.error == result_error(ok, output, error)
            &&& told.logs == state.store[exec_id].logs
            &&& !after.calls.contains_key(exec_id)
        }),
{
}

/// What code came to is told as its kernel put it. Code that did what it should gives its output,
/// and nothing went wrong; code that failed never gives its output to who waits for it, but what
/// the kernel says went wrong, or a general message where the kernel says nothing. Code in the
/// background keeps the same for later polls, together with its lines; unless it had come to an end
/// before, which stands. No other code is changed.
pub proof fn lemma_result_told(
    state: ManagerView,
    id: Seq<char>,
    ok: bool,
    output: Seq<char>,
    error: Option<Seq<char>>,
    session_id: Option<Seq<char>>,
    now: u64,
)
    ensures
        ok ==> result_reply(ok, output, error) == Ok::<Seq<char>, Seq<char>>(output),
        !ok ==> (error matches Some(message) ==> result_reply(ok, output, error) == Err::<
            Seq<char>,
            Seq<char>,
        >(message)),
        !ok && error is None ==> result_reply(ok, output, error) == Err::<Seq<char>, Seq<char>>(
            "js_repl execution failed"@,
        ),
        ({
            let after = result_taken(state, id, ok, output, error, session_id, now);
            &&& after.store.dom() == state.store.dom()
            &&& state.store.contains_key(id) && !state.store[id].done ==> {
                let before = state.store[id];
                let told = after.store[id];
                &&& told.done
                &&& told.output == Some(output)
                &&& ok ==> told.error is None && told.terminal_kind == Some(
                    ExecTerminalKind::Success,
                )
                &&& !ok ==> told.terminal_kind == Some(ExecTerminalKind::Error)
                &&& !ok ==> (error matches Some(message) ==> told.error == Some(message))
                &&& !ok && error is None ==> told.error == Some("js_repl execution failed"@)
                &&& told.logs == before.logs
                &&& told.logs_truncated == before.logs_truncated
                &&& told.all_logs == before.all_logs
                &&& told.session_id == before.session_id
                &&& told.event_call_id == before.event_call_id
                &&& told.started_at == before.started_at
            }
            &&& state.store.contains_key(id) && state.store[id].done ==> after.store[id]
                == state.store[id]
            &&& forall|other: Seq<char>|
                other != id && state.store.contains_key(other) ==> #[trigger] after.store[other]
                    == state.store[other]
            &&& !after.calls.contains_key(id)
            &&& forall|other: Seq<char>|
                other != id && state.calls.contains_key(other) ==> after.calls.contains_key(other)
                    && #[trigger] after.calls[other] == state.calls[other]
            &&& after.routes == state.routes
            &&& after.kernel == state.kernel
            &&& after.sessions.dom() == state.sessions.dom()
            &&& forall|other: Seq<char>|
                state.sessions.contains_key(other) && (session_id != Some(other)
                    || state.sessions[other].active_exec != Some(id))
                    ==> #[trigger] after.sessions[other] == state.sessions[other]
        }),
{
    let after = result_taken(state, id, ok, output, error, session_id, now);
    assert(after.store.dom() =~= state.store.dom());
    assert(after.sessions.dom() =~= state.sessions.dom());
}

/// Who waits for code gets exactly what it came to: the output of code that did what it should, and
/// what went wrong with any other, as the kernel says it. Code that ran for too long, could not be
/// handed over or lost its kernel gives no output.
pub proof fn lemma_awaited_result(
    ok: bool,
    output: Seq<char>,
    error: Option<Seq<char>>,
    message: ExecResultMessage,
    outcome: ExecuteOutcome,
)
    requires
        message@ == result_reply(ok, output, error),
    ensures
        message is Done <==> ok,
        ok ==> message->output@ == output,
        !ok ==> (error matches Some(problem) ==> message->message@ == problem),
        ok ==> told_result(execute_reply(ExecuteOutcome::Replied(message))) == Ok::<
            Seq<char>,
            ErrorView,
        >(output),
        !ok ==> (error matches Some(problem) ==> told_result(
            execute_reply(ExecuteOutcome::Replied(message)),
        ) == Err::<Seq<char>, ErrorView>(ErrorView::RespondToModel(problem))),
        told_result(execute_reply(ExecuteOutcome::TimedOut)) == Err::<Seq<char>, ErrorView>(
            ErrorView::RespondToModel(
                "js_repl execution timed out; kernel reset, rerun your request"@,
            ),
        ),
        !(outcome is Replied) ==> (told_result(execute_reply(outcome)) matches Err(problem)
            && problem is RespondToModel),
{
}

/// What became of a tool call that code asked for.
#[derive(Debug, PartialEq, Eq)]
pub enum ToolTaskOutcome {
    /// The code is not known.
    NoContext,
    /// The code was called off.
    Reset,
    /// The call came to an end.
    Finished(RunToolResult),
}

/// What a kernel is told of a tool call that code asked for.
pub fn answer_run_tool(id: &str, outcome: ToolTaskOutcome) -> (result: RunToolResult)
    ensures
        result@ == (match outcome {
            ToolTaskOutcome::NoContext => tool_failure(id@, "js_repl exec context not found"@),
            ToolTaskOutcome::Reset => tool_failure(id@, "js_repl execution reset"@),
            ToolTaskOutcome::Finished(result) => result@,
        }),
{
    match outcome {
        ToolTaskOutcome::NoContext => failed_tool(id, "js_repl exec context not found"),
        ToolTaskOutcome::Reset => failed_tool(id, "js_repl execution reset"),
        ToolTaskOutcome::Finished(result) => result,
    }
}

// ---------------------------------------------------------------------------------------------
// How a kernel ends
// ---------------------------------------------------------------------------------------------

/// What there is to tell when a kernel ended.
#[derive(Clone, Debug, PartialEq, Eq)]
pub struct StreamEnd {
    /// The code whose end is waited for: it is told that the kernel ended.
    pub unanswered: Vec<String>,
    /// All code that the end of the kernel ended.
    pub affected: Vec<String>,
    /// What the user is told.
    pub events: Vec<ExecCompletionEvent>,
}

/// Whether a session has some kernel.
pub open spec fn session_has_kernel(
    state: ManagerView,
    session_id: Option<Seq<char>>,
    kernel: u64,
) -> bool {
    session_id matches Some(session_id) && state.sessions.contains_key(session_id)
        && state.sessions[session_id].kernel == kernel
}

/// The state when a session whose kernel ended is no longer there.
pub open spec fn kernel_session_removed(
    state: ManagerView,
    session_id: Option<Seq<char>>,
    kernel: u64,
) -> ManagerView {
    if session_has_kernel(state, session_id, kernel) {
        ManagerView { sessions: state.sessions.remove(session_id->0), ..state }
    } else {
        state
    }
}

/// The code that the end of a kernel ends: what may call tools, what is waited for, and what its
/// session runs.
pub open spec fn is_affected(
    state: ManagerView,
    session_id: Option<Seq<char>>,
    kernel: u64,
    contexts: Seq<Seq<char>>,
    pending: Set<Seq<char>>,
    id: Seq<char>,
) -> bool {
    contexts.contains(id) || pending.contains(id) || (session_has_kernel(state, session_id, kernel)
        && state.sessions[session_id->0].active_exec == Some(id))
}

/// The state when some code has no session any more.
pub open spec fn routes_dropped(state: ManagerView, ids: Seq<Seq<char>>) -> ManagerView
    decreases ids.len(),
{
    if ids.len() == 0 {
        state
    } else {
        let before = routes_dropped(state, ids.drop_last());
        ManagerView { routes: before.routes.remove(ids.last()), ..before }
    }
}

/// The state when some code has come to an end with its kernel.
pub open spec fn all_exited(state: ManagerView, ids: Seq<Seq<char>>, message: Seq<char>) -> ManagerView
    decreases ids.len(),
{
    if ids.len() == 0 {
        state
    } else {
        exec_completed(
            all_exited(state, ids.drop_last(), message),
            ids.last(),
            ExecTerminalKind::KernelExit,
            None,
            Some(message),
            false,
        )
    }
}

/// What the user is told when code has come to an end with its kernel.
pub open spec fn exit_events(
    state: ManagerView,
    ids: Seq<Seq<char>>,
    message: Seq<char>,
    now: nat,
) -> Seq<CompletionView>
    decreases ids.len(),
{
    if ids.len() == 0 {
        Seq::empty()
    } else {
        let earlier = exit_events(state, ids.drop_last(), message, now);
        let before = all_exited(state, ids.drop_last(), message);
        if exec_may_complete(before, ids.last(), ExecTerminalKind::KernelExit, false) {
            earlier.push(completion(all_exited(state, ids, message).store[ids.last()], now))
        } else {
            earlier
        }
    }
}

/// Events, with texts as characters.
pub open spec fn completion_views(events: Seq<ExecCompletionEvent>) -> Seq<CompletionView> {
    Seq::new(events.len(), |i: int| events[i]@)
}

impl KernelState {
    /// Takes the code that may call tools: its calls are to be called off, waited for, and counted
    /// no longer.
    pub fn drain_contexts(&mut self) -> (exec_ids: Vec<String>)
        requires
            old(self).wf(),
        ensures
            final(self).wf(),
            final(self)@ == (KernelView { contexts: Set::empty(), ..old(self)@ }),
            texts(exec_ids@).no_duplicates(),
            forall|id: Seq<char>| #[trigger]
                texts(exec_ids@).contains(id) <==> old(self)@.contexts.contains(id),
    {
        let exec_ids = self.exec_contexts.keys();
        proof {
            self.exec_contexts.lemma_order();
        }
        self.exec_contexts = StringMap::new();
        assert(self@.contexts =~= Set::<Seq<char>>::empty());
        exec_ids
    }
}

/// Adds a name to a list that does not hold it.
fn add_id(ids: &mut Vec<String>, id: &str)
    requires
        texts(old(ids)@).no_duplicates(),
    ensures
        texts(final(ids)@).no_duplicates(),
        forall|other: Seq<char>| #[trigger]
            texts(final(ids)@).contains(other) <==> texts(old(ids)@).contains(other) || other
                == id@,
{
    let ghost before = texts(ids@);
    if !holds_text(ids, id) {
        push_text(ids, id.to_owned());
        proof {
            let after = texts(ids@);
            assert forall|other: Seq<char>| #[trigger]
                after.contains(other) <==> before.contains(other) || other == id@ by {
                if before.contains(other) {
                    let i = choose|i: int| 0 <= i < before.len() && before[i] == other;
                    assert(after[i] == other);
                }
                if other == id@ {
                    assert(after[before.len() as int] == other);
                }
            }
        }
    }
}

/// Adds names to a list that it does not hold.
fn add_ids(ids: &mut Vec<String>, more: &Vec<String>)
    requires
        texts(old(ids)@).no_duplicates(),
    ensures
        texts(final(ids)@).no_duplicates(),
        forall|other: Seq<char>| #[trigger]
            texts(final(ids)@).contains(other) <==> texts(old(ids)@).contains(other) || texts(
                more@,
            ).contains(other),
{
    let ghost before = texts(ids@);
    let ghost all = texts(more@);
    let mut at: usize = 0;
    while at < more.len()
        invariant
            before == texts(old(ids)@),
            all == texts(more@),
            at <= more@.len(),
            texts(ids@).no_duplicates(),
            forall|other: Seq<char>| #[trigger]
                texts(ids@).contains(other) <==> before.contains(other) || all.take(
                    at as int,
                ).contains(other),
        decreases more@.len() - at,
    {
        let ghost here = texts(ids@);
        add_id(ids, more[at].as_str());
        proof {
            let earlier = all.take(at as int);
            let later = all.take(at + 1);
            assert(later =~= earlier.push(all[at as int]));
            assert forall|other: Seq<char>| #[trigger]
                texts(ids@).contains(other) <==> before.contains(other) || later.contains(other) by {
                if earlier.contains(other) {
                    let i = choose|i: int| 0 <= i < earlier.len() && earlier[i] == other;
                    assert(later[i] == other);
                }
                if other == all[at as int] {
                    assert(later[at as int] == other);
                }
                if later.contains(other) {
                    let i = choose|i: int| 0 <= i < later.len() && later[i] == other;
                    if i < at {
                        assert(earlier[i] == other);
                    }
                }
                assert(here.contains(other) <==> before.contains(other) || earlier.contains(
                    other,
                ));
            }
        }
        at += 1;
    }
    assert(all.take(at as int) =~= all);
}

impl JsReplManager {
    /// Takes in that a kernel ended, once the tool calls of its code have: its session is no
    /// longer there, and its code comes to an end. `contexts` is the code that could call tools.
    pub fn end_stream(
        &mut self,
        kernel: &mut KernelState,
        kernel_id: u64,
        poll_session_id: Option<&str>,
        contexts: &Vec<String>,
        message: &str,
        now: u64,
    ) -> (end: StreamEnd)
        requires
            old(self).wf(),
            old(kernel).wf(),
        ensures
            final(self).wf(),
            final(kernel).wf(),
            final(kernel)@ == (KernelView { pending: Set::empty(), ..old(kernel)@ }),
            texts(end.unanswered@).no_duplicates(),
            forall|id: Seq<char>| #[trigger]
                texts(end.unanswered@).contains(id) <==> old(kernel)@.pending.contains(id),
            texts(end.affected@).no_duplicates(),
            forall|id: Seq<char>| #[trigger]
                texts(end.affected@).contains(id) <==> is_affected(
                    old(self)@,
                    opt_str(poll_session_id),
                    kernel_id,
                    texts(contexts@),
                    old(kernel)@.pending,
                    id,
                ),
            final(self)@ == all_exited(
                routes_dropped(
                    kernel_session_removed(old(self)@, opt_str(poll_session_id), kernel_id),
                    texts(end.affected@),
                ),
                texts(end.affected@),
                message@,
            ),
            completion_views(end.events@) == exit_events(
                routes_dropped(
                    kernel_session_removed(old(self)@, opt_str(poll_session_id), kernel_id),
                    texts(end.affected@),
                ),
                texts(end.affected@),
                message@,
                now as nat,
            ),
    {
        let ghost before = self@;
        let unanswered = kernel.pending_execs.keys();
        proof {
            kernel.pending_execs.lemma_order();
        }
        kernel.pending_execs = StringMap::new();
        assert(kernel@.pending =~= Set::<Seq<char>>::empty());
        let mut affected: Vec<String> = Vec::new();
        assert(texts(affected@) =~= Seq::<Seq<char>>::empty());
        add_ids(&mut affected, contexts);
        add_ids(&mut affected, &unanswered);
        if let Some(session_id) = poll_session_id {
            if let Some(active) = self.remove_kernel_session(session_id, kernel_id) {
                add_id(&mut affected, active.as_str());
            }
        }
        let ghost removed = self@;
        let ghost ids = texts(affected@);
        let mut at: usize = 0;
        assert(ids.take(0) =~= Seq::<Seq<char>>::empty());
        while at < affected.len()
            invariant
                self.wf(),
                ids == texts(affected@),
                at <= affected@.len(),
                self@ == routes_dropped(removed, ids.take(at as int)),
            decreases affected@.len() - at,
        {
            proof {
                assert(ids.take(at + 1).drop_last() =~= ids.take(at as int));
                assert(ids.take(at + 1).last() == affected@[at as int]@);
            }
            self.take_route(affected[at].as_str());
            at += 1;
        }
        assert(ids.take(at as int) =~= ids);
        let ghost dropped = self@;
        let mut events: Vec<ExecCompletionEvent> = Vec::new();
        let mut at: usize = 0;
        assert(completion_views(events@) =~= Seq::<CompletionView>::empty());
        while at < affected.len()
            invariant
                self.wf(),
                ids == texts(affected@),
                at <= affected@.len(),
                self@ == all_exited(dropped, ids.take(at as int), message@),
                completion_views(events@) == exit_events(
                    dropped,
                    ids.take(at as int),
                    message@,
                    now as nat,
                ),
            decreases affected@.len() - at,
        {
            proof {
                assert(ids.take(at + 1).drop_last() =~= ids.take(at as int));
                assert(ids.take(at + 1).last() == affected@[at as int]@);
            }
            let event = self.complete_exec(
                affected[at].as_str(),
                ExecTerminalKind::KernelExit,
                None,
                Some(message.to_owned()),
                false,
                now,
            );
            if let Some(event) = event {
                let ghost told = completion_views(events@);
                events.push(event);
                assert(completion_views(events@) =~= told.push(event@));
            }
            at += 1;
        }
        assert(ids.take(at as int) =~= ids);
        StreamEnd { unanswered, affected, events }
    }

    /// Takes a session out whose kernel ended. The code that it was running is handed back.
    fn remove_kernel_session(&mut self, session_id: &str, kernel: u64) -> (active: Option<String>)
        requires
            old(self).wf(),
        ensures
            final(self).wf(),
            final(self)@ == kernel_session_removed(old(self)@, Some(session_id@), kernel),
            opt_text(active) == (if session_has_kernel(old(self)@, Some(session_id@), kernel) {
                old(self)@.sessions[session_id@].active_exec
            } else {
                None
            }),
    {
        let ghost before = self@;
        let same = match self.poll_sessions.get(session_id) {
            Some(session) => session.kernel == kernel,
            None => false,
        };
        if !same {
            return None;
        }
        let ghost sessions = self.poll_sessions;
        let removed = self.poll_sessions.remove(session_id);
        proof {
            assert(self@.sessions =~= before.sessions.remove(session_id@));
            sessions.lemma_order();
            self.poll_sessions.lemma_order();
        }
        match removed {
            Some(session) => session.active_exec,
            None => None,
        }
    }
}

/// Code that the end of a kernel reaches comes to an end, unless it had come to one or its kernel
/// was being ended on purpose; other code is left alone.
pub proof fn lemma_all_exited(
    state: ManagerView,
    ids: Seq<Seq<char>>,
    message: Seq<char>,
    id: Seq<char>,
)
    ensures
        all_exited(state, ids, message).store.dom() == state.store.dom(),
        state.store.contains_key(id) ==> all_exited(state, ids, message).store[id] == (
        if ids.contains(id) && may_complete(
            state.store[id],
            ExecTerminalKind::KernelExit,
            false,
        ) {
            completed(state.store[id], ExecTerminalKind::KernelExit, None, Some(message))
        } else {
            state.store[id]
        }),
    decreases ids.len(),
{
    if ids.len() > 0 {
        let earlier = ids.drop_last();
        lemma_all_exited(state, earlier, message, id);
        let before = all_exited(state, earlier, message);
        let after = all_exited(state, ids, message);
        assert(after.store.dom() =~= before.store.dom());
        if ids.contains(id) {
            let i = choose|i: int| 0 <= i < ids.len() && ids[i] == id;
            if i < earlier.len() {
                assert(earlier[i] == id);
            }
        }
        if earlier.contains(id) {
            let i = choose|i: int| 0 <= i < earlier.len() && earlier[i] == id;
            assert(ids[i] == id);
        }
        if ids.last() == id {
            assert(ids[ids.len() - 1] == id);
        }
    }
}

/// The code that the end of a kernel ends: all that may call tools, all that is waited for, and what
/// its session runs; and no code of a session with another kernel for that session's sake.
pub proof fn lemma_affected(
    state: ManagerView,
    session_id: Seq<char>,
    kernel: u64,
    contexts: Seq<Seq<char>>,
    pending: Set<Seq<char>>,
    id: Seq<char>,
)
    ensures
        contexts.contains(id) || pending.contains(id) ==> is_affected(
            state,
            Some(session_id),
            kernel,
            contexts,
            pending,
            id,
        ) && is_affected(state, None, kernel, contexts, pending, id),
        state.sessions.contains_key(session_id) && state.sessions[session_id].kernel == kernel
            && state.sessions[session_id].active_exec == Some(id) ==> is_affected(
            state,
            Some(session_id),
            kernel,
            contexts,
            pending,
            id,
        ),
        !contexts.contains(id) && !pending.contains(id) ==> !is_affected(
            state,
            None,
            kernel,
            contexts,
            pending,
            id,
        ),
        !contexts.contains(id) && !pending.contains(id) && (!state.sessions.contains_key(session_id)
            || state.sessions[session_id].kernel != kernel
            || state.sessions[session_id].active_exec != Some(id)) ==> !is_affected(
            state,
            Some(session_id),
            kernel,
            contexts,
            pending,
            id,
        ),
{
}

/// The session of a kernel that ended is gone, and no other; one that has another kernel by now
/// stays.
pub proof fn lemma_kernel_session_removed(state: ManagerView, session_id: Seq<char>, kernel: u64)
    ensures
        ({
            let after = kernel_session_removed(state, Some(session_id), kernel);
            &&& state.sessions.contains_key(session_id) && state.sessions[session_id].kernel
                == kernel ==> !after.sessions.contains_key(session_id)
            &&& state.sessions.contains_key(session_id) && state.sessions[session_id].kernel
                != kernel ==> after == state
            &&& forall|other: Seq<char>|
                other != session_id && state.sessions.contains_key(other)
                    ==> after.sessions.contains_key(other) && #[trigger] after.sessions[other]
                    == state.sessions[other]
            &&& after.store == state.store
            &&& after.routes == state.routes
            &&& after.calls == state.calls
            &&& after.kernel == state.kernel
        }),
        kernel_session_removed(state, None, kernel) == state,
{
}

/// Code that came to an end with its kernel is told so: it failed with the message, whatever it had
/// put out stays, and it can be polled for both. Code whose kernel was ended on purpose, and code
/// that had come to an end before, are not told.
pub proof fn lemma_exit_told(
    state: ManagerView,
    ids: Seq<Seq<char>>,
    message: Seq<char>,
    id: Seq<char>,
)
    requires
        state.store.contains_key(id),
    ensures
        ({
            let before = state.store[id];
            let after = all_exited(state, ids, message).store[id];
            &&& ids.contains(id) && !before.done && !before.host_terminating ==> {
                &&& after.done
                &&& after.error == Some(message)
                &&& after.terminal_kind == Some(ExecTerminalKind::KernelExit)
                &&& after.output == before.output
                &&& after.logs == before.logs
                &&& after.all_logs == before.all_logs
                &&& after.session_id == before.session_id
                &&& after.event_call_id == before.event_call_id
            }
            &&& !ids.contains(id) || before.done || before.host_terminating ==> after == before
        }),
        all_exited(state, ids, message).sessions == state.sessions,
        all_exited(state, ids, message).routes == state.routes,
        all_exited(state, ids, message).calls == state.calls,
{
    lemma_all_exited(state, ids, message, id);
    lemma_exit_leaves(state, ids, message);
}

/// The end of a kernel changes code only.
proof fn lemma_exit_leaves(state: ManagerView, ids: Seq<Seq<char>>, message: Seq<char>)
    ensures
        all_exited(state, ids, message).sessions == state.sessions,
        all_exited(state, ids, message).routes == state.routes,
        all_exited(state, ids, message).calls == state.calls,
        all_exited(state, ids, message).kernel == state.kernel,
    decreases ids.len(),
{
    if ids.len() > 0 {
        lemma_exit_leaves(state, ids.drop_last(), message);
    }
}

/// The user is told once of each piece of code that came to an end with its kernel, in order and
/// with the message, and of no other.
pub proof fn lemma_exit_events(
    state: ManagerView,
    ids: Seq<Seq<char>>,
    message: Seq<char>,
    now: nat,
)
    requires
        ids.no_duplicates(),
    ensures
        ({
            let ended = |id: Seq<char>|
                state.store.contains_key(id) && !state.store[id].done
                    && !state.store[id].host_terminating;
            let told = exit_events(state, ids, message, now);
            let reached = ids.filter(ended);
            &&& told.len() == reached.len()
            &&& forall|i: int|
                0 <= i < told.len() ==> (#[trigger] told[i]).error == Some(message)
                    && told[i].event_call_id == state.store[reached[i]].event_call_id
        }),
    decreases ids.len(),
{
    let ended = |id: Seq<char>|
        state.store.contains_key(id) && !state.store[id].done && !state.store[id].host_terminating;
    reveal(Seq::filter);
    if ids.len() > 0 {
        let earlier = ids.drop_last();
        let last = ids.last();
        lemma_exit_events(state, earlier, message, now);
        let before = all_exited(state, earlier, message);
        lemma_all_exited(state, earlier, message, last);
        assert(!earlier.contains(last)) by {
            if earlier.contains(last) {
                let i = choose|i: int| 0 <= i < earlier.len() && earlier[i] == last;
                assert(ids[i] == ids[ids.len() - 1]);
            }
        }
        assert(before.store.contains_key(last) == state.store.contains_key(last));
        assert(ids.filter(ended) == if ended(last) {
            earlier.filter(ended).push(last)
        } else {
            earlier.filter(ended)
        });
    }
}

/// Code that lost its kernel has no session any more; other code keeps its own.
pub proof fn lemma_routes_dropped(state: ManagerView, ids: Seq<Seq<char>>, id: Seq<char>)
    ensures
        ({
            let after = routes_dropped(state, ids);
            &&& ids.contains(id) ==> !after.routes.contains_key(id)
            &&& !ids.contains(id) ==> after.routes.contains_key(id) == state.routes.contains_key(id)
            &&& !ids.contains(id) && state.routes.contains_key(id) ==> after.routes[id]
                == state.routes[id]
            &&& after.store == state.store
            &&& after.sessions == state.sessions
            &&& after.calls == state.calls
            &&& after.kernel == state.kernel
        }),
    decreases ids.len(),
{
    if ids.len() > 0 {
        let earlier = ids.drop_last();
        lemma_routes_dropped(state, earlier, id);
        if ids.contains(id) {
            let i = choose|i: int| 0 <= i < ids.len() && ids[i] == id;
            if i < earlier.len() {
                assert(earlier[i] == id);
            }
        }
        if earlier.contains(id) {
            let i = choose|i: int| 0 <= i < earlier.len() && earlier[i] == id;
            assert(ids[i] == id);
        }
        assert(ids[ids.len() - 1] == ids.last());
    }
}

/// The environment of a kernel: everything that was there, the directory for its files, and the
/// configured directories of modules unless the environment has its own. Only directories that are
/// needed and cannot be one text are a failure.
pub proof fn lemma_kernel_env(
    env: Map<Seq<char>, Seq<char>>,
    tmp_dir: Seq<char>,
    module_dirs: Option<Result<Seq<char>, Seq<char>>>,
)
    ensures
        ({
            let result = kernel_env(env, tmp_dir, module_dirs);
            let own = env.contains_key("CODEX_JS_REPL_NODE_MODULE_DIRS"@);
            &&& result is Err <==> !own && (module_dirs matches Some(joined) && joined is Err)
            &&& result matches Ok(after) ==> {
                &&& after.contains_key("CODEX_JS_TMP_DIR"@)
                &&& after["CODEX_JS_TMP_DIR"@] == tmp_dir
                &&& own ==> after.contains_key("CODEX_JS_REPL_NODE_MODULE_DIRS"@)
                    && after["CODEX_JS_REPL_NODE_MODULE_DIRS"@]
                    == env["CODEX_JS_REPL_NODE_MODULE_DIRS"@]
                &&& !own ==> (module_dirs matches Some(Ok(dirs)) ==> after.contains_key(
                    "CODEX_JS_REPL_NODE_MODULE_DIRS"@,
                ) && after["CODEX_JS_REPL_NODE_MODULE_DIRS"@] == dirs)
                &&& !own && module_dirs is None ==> !after.contains_key(
                    "CODEX_JS_REPL_NODE_MODULE_DIRS"@,
                )
                &&& forall|name: Seq<char>|
                    name != "CODEX_JS_TMP_DIR"@ && env.contains_key(name)
                        ==> after.contains_key(name) && #[trigger] after[name] == env[name]
                &&& forall|name: Seq<char>|
                    name != "CODEX_JS_TMP_DIR"@ && name != "CODEX_JS_REPL_NODE_MODULE_DIRS"@
                        && #[trigger] after.contains_key(name) ==> env.contains_key(name)
            }
        }),
{
    reveal_strlit("CODEX_JS_TMP_DIR");
    reveal_strlit("CODEX_JS_REPL_NODE_MODULE_DIRS");
    assert("CODEX_JS_TMP_DIR"@.len() == 16);
    assert("CODEX_JS_REPL_NODE_MODULE_DIRS"@.len() == 30);
}

/// Where waiting for code ends, the code is forgotten by its kernel unless it came to an end, and
/// only code that ran for too long takes the kernel with it. Tool calls that may still run are left
/// to be called off.
pub proof fn lemma_execute_ended(state: ManagerView, kernel: KernelView, id: Seq<char>, end: ExecuteEnd)
    ensures
        ({
            let after = execute_ended(state, id, end);
            &&& end == ExecuteEnd::TimedOut ==> after.kernel is None
            &&& end != ExecuteEnd::TimedOut ==> after.kernel == state.kernel
            &&& end == ExecuteEnd::WriteFailed ==> !after.calls.contains_key(id)
            &&& end != ExecuteEnd::WriteFailed ==> after.calls == state.calls
            &&& leaves_calls(end) <==> end == ExecuteEnd::TimedOut || end == ExecuteEnd::Closed
            &&& after.store == state.store
            &&& after.sessions == state.sessions
            &&& after.routes == state.routes
        }),
        ({
            let left = exec_withdrawn(kernel, id);
            &&& !left.pending.contains(id)
            &&& !left.contexts.contains(id)
            &&& forall|other: Seq<char>|
                other != id ==> #[trigger] left.pending.contains(other) == kernel.pending.contains(
                    other,
                )
            &&& forall|other: Seq<char>|
                other != id ==> #[trigger] left.contexts.contains(other)
                    == kernel.contexts.contains(other)
            &&& left.stderr == kernel.stderr
        }),
{
}

} // verus!
