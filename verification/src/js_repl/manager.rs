//! The state that running code shares: kernels, sessions, output so far, and tool calls.

use vstd::prelude::*;

use crate::js_repl::exec_buffer::completed;
use crate::js_repl::exec_buffer::completion;
use crate::js_repl::exec_buffer::may_complete;
use crate::js_repl::exec_buffer::opt_completion;
use crate::js_repl::exec_buffer::BufferView;
use crate::js_repl::exec_buffer::ExecBuffer;
use crate::js_repl::exec_buffer::ExecCompletionEvent;
use crate::js_repl::exec_buffer::ExecTerminalKind;
use crate::string_map::StringMap;
use crate::text::copy_opt;
use crate::text::opt_text;
use crate::text::texts;
use crate::tools::respond;
use crate::tools::ErrorView;
use crate::tools::FunctionCallError;

verus! {

/// How many sessions there may be.
pub const JS_REPL_POLL_MAX_SESSIONS: usize = 16;

/// For how long the output of code that came to an end is kept, in seconds.
pub const JS_REPL_POLL_COMPLETED_EXEC_RETENTION_SECS: u64 = 300;

/// What is said of code that was called off.
pub const JS_REPL_CANCEL_ERROR_MESSAGE: &'static str = "js_repl execution canceled";

/// The tool calls that code has made.
#[derive(Clone, Copy, Debug, PartialEq, Eq, Structural)]
pub struct ExecToolCalls {
    /// How many are still running.
    pub in_flight: usize,
    /// Whether they are called off.
    pub cancelled: bool,
}

/// A session.
#[derive(Clone, Debug, PartialEq, Eq)]
pub struct PollSessionState {
    /// Its kernel.
    pub kernel: u64,
    /// The code that it runs.
    pub active_exec: Option<String>,
    /// When it was last used, in nanoseconds.
    pub last_used: u64,
}

/// A session, with texts as characters.
#[verifier::ext_equal]
pub struct SessionView {
    /// Its kernel.
    pub kernel: u64,
    /// The code that it runs.
    pub active_exec: Option<Seq<char>>,
    /// When it was last used, in nanoseconds.
    pub last_used: u64,
}

impl View for PollSessionState {
    type V = SessionView;

    open spec fn view(&self) -> SessionView {
        SessionView {
            kernel: self.kernel,
            active_exec: opt_text(self.active_exec),
            last_used: self.last_used,
        }
    }
}

/// The state that running code shares.
#[derive(Debug)]
pub struct JsReplManager {
    /// The kernel of code that is waited for.
    pub kernel: Option<u64>,
    /// The tool calls of each piece of code.
    pub exec_tool_calls: StringMap<ExecToolCalls>,
    /// What each piece of code in the background has put out.
    pub exec_store: StringMap<ExecBuffer>,
    /// The sessions.
    pub poll_sessions: StringMap<PollSessionState>,
    /// The session of each piece of code in the background.
    pub exec_to_session: StringMap<String>,
}

/// The shared state, with texts as characters.
#[verifier::ext_equal]
pub struct ManagerView {
    /// The kernel of code that is waited for.
    pub kernel: Option<u64>,
    /// The tool calls of each piece of code.
    pub calls: Map<Seq<char>, ExecToolCalls>,
    /// What each piece of code in the background has put out.
    pub store: Map<Seq<char>, BufferView>,
    /// The sessions.
    pub sessions: Map<Seq<char>, SessionView>,
    /// The session of each piece of code in the background.
    pub routes: Map<Seq<char>, Seq<char>>,
}

/// Output so far, with texts as characters.
pub open spec fn store_view(store: Map<Seq<char>, ExecBuffer>) -> Map<Seq<char>, BufferView> {
    store.map_values(|buffer: ExecBuffer| buffer@)
}

/// Sessions, with texts as characters.
pub open spec fn sessions_view(sessions: Map<Seq<char>, PollSessionState>) -> Map<
    Seq<char>,
    SessionView,
> {
    sessions.map_values(|session: PollSessionState| session@)
}

/// Texts, as characters.
pub open spec fn routes_view(routes: Map<Seq<char>, String>) -> Map<Seq<char>, Seq<char>> {
    routes.map_values(|session: String| session@)
}

impl View for JsReplManager {
    type V = ManagerView;

    open spec fn view(&self) -> ManagerView {
        ManagerView {
            kernel: self.kernel,
            calls: self.exec_tool_calls@,
            store: store_view(self.exec_store@),
            sessions: sessions_view(self.poll_sessions@),
            routes: routes_view(self.exec_to_session@),
        }
    }
}

impl JsReplManager {
    /// Whether the state is sound: output so far keeps to its limits, and there are not too many
    /// sessions.
    pub open spec fn wf(&self) -> bool {
        &&& self.exec_tool_calls.wf()
        &&& self.exec_store.wf()
        &&& self.poll_sessions.wf()
        &&& self.exec_to_session.wf()
        &&& forall|id: Seq<char>| #[trigger]
            self.exec_store@.contains_key(id) ==> self.exec_store@[id].wf()
        &&& self.poll_sessions@.dom().len() <= JS_REPL_POLL_MAX_SESSIONS
    }

    /// A state with nothing in it.
    pub fn new() -> (manager: JsReplManager)
        ensures
            manager.wf(),
            manager@ == (ManagerView {
                kernel: None,
                calls: Map::empty(),
                store: Map::empty(),
                sessions: Map::empty(),
                routes: Map::empty(),
            }),
    {
        let manager = JsReplManager {
            kernel: None,
            exec_tool_calls: StringMap::new(),
            exec_store: StringMap::new(),
            poll_sessions: StringMap::new(),
            exec_to_session: StringMap::new(),
        };
        proof {
            assert(manager@.store =~= Map::<Seq<char>, BufferView>::empty());
            assert(manager@.sessions =~= Map::<Seq<char>, SessionView>::empty());
            assert(manager@.routes =~= Map::<Seq<char>, Seq<char>>::empty());
            manager.poll_sessions.lemma_order();
            assert(manager.poll_sessions@.dom() =~= Set::<Seq<char>>::empty());
        }
        manager
    }
}

// ---------------------------------------------------------------------------------------------
// Tool calls
// ---------------------------------------------------------------------------------------------

/// The state when the tool calls of some code are counted.
pub open spec fn calls_registered(state: ManagerView, id: Seq<char>) -> ManagerView {
    ManagerView {
        calls: state.calls.insert(id, ExecToolCalls { in_flight: 0, cancelled: false }),
        ..state
    }
}

/// The state when the tool calls of some code are no longer counted.
pub open spec fn calls_cleared(state: ManagerView, id: Seq<char>) -> ManagerView {
    ManagerView { calls: state.calls.remove(id), ..state }
}

/// The state when the tool calls of some code are called off.
pub open spec fn calls_cancelled(state: ManagerView, id: Seq<char>) -> ManagerView {
    if state.calls.contains_key(id) {
        ManagerView {
            calls: state.calls.insert(id, ExecToolCalls { cancelled: true, ..state.calls[id] }),
            ..state
        }
    } else {
        state
    }
}

/// The state when some code has begun one more tool call.
pub open spec fn call_begun(state: ManagerView, id: Seq<char>) -> ManagerView {
    if state.calls.contains_key(id) {
        ManagerView {
            calls: state.calls.insert(
                id,
                ExecToolCalls {
                    in_flight: (state.calls[id].in_flight + 1) as usize,
                    ..state.calls[id]
                },
            ),
            ..state
        }
    } else {
        state
    }
}

/// Whether some code has a tool call that is still running.
pub open spec fn calls_running(state: ManagerView, id: Seq<char>) -> bool {
    state.calls.contains_key(id) && state.calls[id].in_flight > 0
}

/// The state when a tool call of some code has ended.
pub open spec fn call_finished(state: ManagerView, id: Seq<char>) -> ManagerView {
    if calls_running(state, id) {
        ManagerView {
            calls: state.calls.insert(
                id,
                ExecToolCalls {
                    in_flight: (state.calls[id].in_flight - 1) as usize,
                    ..state.calls[id]
                },
            ),
            ..state
        }
    } else {
        state
    }
}

/// A tool call that begins and ends leaves the count as it was.
pub proof fn lemma_call_balanced(state: ManagerView, id: Seq<char>)
    requires
        state.calls.contains_key(id) ==> state.calls[id].in_flight < usize::MAX,
    ensures
        call_finished(call_begun(state, id), id) == (if state.calls.contains_key(id) {
            state
        } else {
            call_finished(state, id)
        }),
        state.calls.contains_key(id) ==> calls_running(call_begun(state, id), id),
        !calls_running(calls_cleared(state, id), id),
{
    if state.calls.contains_key(id) {
        assert(call_finished(call_begun(state, id), id).calls =~= state.calls);
    }
}

impl JsReplManager {
    /// Counts the tool calls of some code from now on.
    pub fn register_exec_tool_calls(&mut self, exec_id: &str)
        requires
            old(self).wf(),
        ensures
            final(self).wf(),
            final(self)@ == calls_registered(old(self)@, exec_id@),
    {
        self.exec_tool_calls.insert(
            exec_id.to_owned(),
            ExecToolCalls { in_flight: 0, cancelled: false },
        );
    }

    /// Counts the tool calls of some code no longer. Whether they were counted is handed back: if
    /// so, they are called off, and who waits for them is told.
    pub fn clear_exec_tool_calls(&mut self, exec_id: &str) -> (cleared: bool)
        requires
            old(self).wf(),
        ensures
            final(self).wf(),
            final(self)@ == calls_cleared(old(self)@, exec_id@),
            cleared == old(self)@.calls.contains_key(exec_id@),
    {
        match self.exec_tool_calls.remove(exec_id) {
            Some(_) => true,
            None => {
                assert(self@.calls =~= old(self)@.calls.remove(exec_id@));
                false
            },
        }
    }

    /// Calls the tool calls of some code off. Whether they are counted is handed back: if so, who
    /// waits for them is told.
    pub fn cancel_exec_tool_calls(&mut self, exec_id: &str) -> (cancelled: bool)
        requires
            old(self).wf(),
        ensures
            final(self).wf(),
            final(self)@ == calls_cancelled(old(self)@, exec_id@),
            cancelled == old(self)@.calls.contains_key(exec_id@),
    {
        match self.exec_tool_calls.get_mut(exec_id) {
            Some(calls) => {
                calls.cancelled = true;
                true
            },
            None => false,
        }
    }

    /// Whether the tool calls of some code have to be waited for.
    pub fn must_wait_for_exec_tool_calls(&self, exec_id: &str) -> (wait: bool)
        requires
            self.wf(),
        ensures
            wait == calls_running(self@, exec_id@),
    {
        match self.exec_tool_calls.get(exec_id) {
            Some(calls) => calls.in_flight > 0,
            None => false,
        }
    }

    /// Counts one more tool call of some code. Whether the calls are called off already is handed
    /// back; none where they are not counted.
    pub fn begin_exec_tool_call(&mut self, exec_id: &str) -> (cancelled: Option<bool>)
        requires
            old(self).wf(),
            old(self)@.calls.contains_key(exec_id@) ==> old(self)@.calls[exec_id@].in_flight
                < usize::MAX,
        ensures
            final(self).wf(),
            final(self)@ == call_begun(old(self)@, exec_id@),
            match cancelled {
                Some(cancelled) => old(self)@.calls.contains_key(exec_id@) && cancelled
                    == old(self)@.calls[exec_id@].cancelled,
                None => !old(self)@.calls.contains_key(exec_id@),
            },
    {
        match self.exec_tool_calls.get_mut(exec_id) {
            Some(calls) => {
                calls.in_flight = calls.in_flight + 1;
                Some(calls.cancelled)
            },
            None => None,
        }
    }

    /// Counts one tool call of some code less. Whether it was the last that was still running is
    /// handed back: if so, who waits for them is told.
    pub fn finish_exec_tool_call(&mut self, exec_id: &str) -> (last: bool)
        requires
            old(self).wf(),
        ensures
            final(self).wf(),
            final(self)@ == call_finished(old(self)@, exec_id@),
            last == (calls_running(old(self)@, exec_id@) && !calls_running(
                final(self)@,
                exec_id@,
            )),
    {
        match self.exec_tool_calls.get_mut(exec_id) {
            Some(calls) => {
                if calls.in_flight == 0 {
                    assert(self@.calls =~= old(self)@.calls);
                    return false;
                }
                calls.in_flight = calls.in_flight - 1;
                calls.in_flight == 0
            },
            None => false,
        }
    }

    /// Counts no tool calls any longer. The code whose calls were counted is handed back: they
    /// are called off, and who waits for them is told.
    pub fn clear_all_exec_tool_calls(&mut self) -> (exec_ids: Vec<String>)
        requires
            old(self).wf(),
        ensures
            final(self).wf(),
            final(self)@ == (ManagerView { calls: Map::empty(), ..old(self)@ }),
            texts(exec_ids@).no_duplicates(),
            forall|id: Seq<char>| #[trigger]
                texts(exec_ids@).contains(id) <==> old(self)@.calls.contains_key(id),
    {
        let exec_ids = self.exec_tool_calls.keys();
        proof {
            self.exec_tool_calls.lemma_order();
        }
        self.exec_tool_calls = StringMap::new();
        exec_ids
    }
}

// ---------------------------------------------------------------------------------------------
// Coming to an end
// ---------------------------------------------------------------------------------------------

/// Whether some code in the background may come to an end in some way.
pub open spec fn exec_may_complete(
    state: ManagerView,
    id: Seq<char>,
    kind: ExecTerminalKind,
    override_kernel_exit: bool,
) -> bool {
    state.store.contains_key(id) && may_complete(state.store[id], kind, override_kernel_exit)
}

/// The state when some code in the background has come to an end, where it may.
pub open spec fn exec_completed(
    state: ManagerView,
    id: Seq<char>,
    kind: ExecTerminalKind,
    output: Option<Seq<char>>,
    error: Option<Seq<char>>,
    override_kernel_exit: bool,
) -> ManagerView {
    if exec_may_complete(state, id, kind, override_kernel_exit) {
        ManagerView {
            store: state.store.insert(id, completed(state.store[id], kind, output, error)),
            ..state
        }
    } else {
        state
    }
}

/// The state when the kernel of some code is being ended on purpose.
pub open spec fn exec_terminating(state: ManagerView, id: Seq<char>) -> ManagerView {
    if state.store.contains_key(id) && !state.store[id].done {
        ManagerView {
            store: state.store.insert(
                id,
                BufferView { host_terminating: true, ..state.store[id] },
            ),
            ..state
        }
    } else {
        state
    }
}

/// The state when output of code that came to an end is kept no longer.
pub open spec fn exec_evicted(state: ManagerView, id: Seq<char>) -> ManagerView {
    if state.store.contains_key(id) && state.store[id].done {
        ManagerView { store: state.store.remove(id), ..state }
    } else {
        state
    }
}

impl JsReplManager {
    /// Brings some code in the background to an end, where it may come to that. What is told of it
    /// is handed back; its output is kept for a while.
    pub fn complete_exec(
        &mut self,
        exec_id: &str,
        kind: ExecTerminalKind,
        output: Option<String>,
        error: Option<String>,
        override_kernel_exit: bool,
        now: u64,
    ) -> (event: Option<ExecCompletionEvent>)
        requires
            old(self).wf(),
        ensures
            final(self).wf(),
            final(self)@ == exec_completed(
                old(self)@,
                exec_id@,
                kind,
                opt_text(output),
                opt_text(error),
                override_kernel_exit,
            ),
            opt_completion(event) == (if exec_may_complete(
                old(self)@,
                exec_id@,
                kind,
                override_kernel_exit,
            ) {
                Some(completion(final(self)@.store[exec_id@], now as nat))
            } else {
                None
            }),
    {
        let ghost before = self@;
        match self.exec_store.get_mut(exec_id) {
            Some(entry) => {
                let event = entry.complete(kind, output, error, override_kernel_exit, now);
                proof {
                    let after = exec_completed(
                        before,
                        exec_id@,
                        kind,
                        opt_text(output),
                        opt_text(error),
                        override_kernel_exit,
                    );
                    assert(self@.store =~= after.store);
                }
                event
            },
            None => None,
        }
    }

    /// Notes that the kernel of some code is being ended on purpose.
    pub fn mark_exec_host_terminating(&mut self, exec_id: &str)
        requires
            old(self).wf(),
        ensures
            final(self).wf(),
            final(self)@ == exec_terminating(old(self)@, exec_id@),
    {
        let ghost before = self@;
        match self.exec_store.get_mut(exec_id) {
            Some(entry) => {
                if !entry.done {
                    entry.host_terminating = true;
                }
                assert(self@.store =~= exec_terminating(before, exec_id@).store);
            },
            None => {},
        }
    }

    /// Keeps the output of code that came to an end no longer.
    pub fn evict_completed_exec(&mut self, exec_id: &str)
        requires
            old(self).wf(),
        ensures
            final(self).wf(),
            final(self)@ == exec_evicted(old(self)@, exec_id@),
    {
        let ghost before = self@;
        let done = match self.exec_store.get(exec_id) {
            Some(entry) => entry.done,
            None => false,
        };
        if done {
            self.exec_store.remove(exec_id);
            assert(self@.store =~= before.store.remove(exec_id@));
        }
    }
}

// ---------------------------------------------------------------------------------------------
// Ending sessions
// ---------------------------------------------------------------------------------------------

/// A session that is no longer there.
#[derive(Clone, Debug, PartialEq, Eq)]
pub struct EndedSession {
    /// Its kernel, which is to be ended.
    pub kernel: u64,
    /// The code that it was running, which is to be called off.
    pub active_exec: Option<String>,
}

/// The kernels and the code to end.
#[derive(Clone, Debug, PartialEq, Eq)]
pub struct ResetPlan {
    /// The kernel of code that is waited for.
    pub kernel: Option<u64>,
    /// The sessions that are no longer there.
    pub sessions: Vec<EndedSession>,
}

/// The state when a session is no longer there.
pub open spec fn session_removed(state: ManagerView, session_id: Seq<char>) -> ManagerView {
    let without = ManagerView { sessions: state.sessions.remove(session_id), ..state };
    match state.sessions[session_id].active_exec {
        Some(exec_id) => exec_terminating(without, exec_id),
        None => without,
    }
}

/// The state when code that is called off has lost its session.
pub open spec fn exec_released(state: ManagerView, id: Seq<char>) -> ManagerView {
    calls_cancelled(ManagerView { routes: state.routes.remove(id), ..state }, id)
}

/// The state when code has been called off.
pub open spec fn exec_cancelled(state: ManagerView, id: Seq<char>) -> ManagerView {
    calls_cleared(
        exec_completed(
            state,
            id,
            ExecTerminalKind::Cancelled,
            None,
            Some(JS_REPL_CANCEL_ERROR_MESSAGE@),
            true,
        ),
        id,
    )
}

impl JsReplManager {
    /// Takes the kernel of code that is waited for, which is to be ended.
    pub fn reset_kernel(&mut self) -> (kernel: Option<u64>)
        requires
            old(self).wf(),
        ensures
            final(self).wf(),
            final(self)@ == (ManagerView { kernel: None, ..old(self)@ }),
            kernel == old(self)@.kernel,
    {
        let kernel = self.kernel;
        self.kernel = None;
        kernel
    }

    /// Takes a session out. Its kernel is to be ended; code that it was running is to be released,
    /// its tool calls waited for, and then it is called off.
    pub fn reset_session(&mut self, session_id: &str) -> (ended: Result<
        EndedSession,
        FunctionCallError,
    >)
        requires
            old(self).wf(),
        ensures
            final(self).wf(),
            match ended {
                Ok(ended) => {
                    &&& old(self)@.sessions.contains_key(session_id@)
                    &&& ended.kernel == old(self)@.sessions[session_id@].kernel
                    &&& opt_text(ended.active_exec) == old(self)@.sessions[session_id@].active_exec
                    &&& final(self)@ == session_removed(old(self)@, session_id@)
                },
                Err(error) => {
                    &&& !old(self)@.sessions.contains_key(session_id@)
                    &&& error@ == ErrorView::RespondToModel("js_repl session id not found"@)
                    &&& *final(self) == *old(self)
                },
            },
    {
        let ghost before = self@;
        match self.poll_sessions.remove(session_id) {
            Some(session) => {
                proof {
                    assert(self@.sessions =~= before.sessions.remove(session_id@));
                    old(self).poll_sessions.lemma_order();
                    self.poll_sessions.lemma_order();
                }
                if let Some(exec_id) = &session.active_exec {
                    self.mark_exec_host_terminating(exec_id.as_str());
                }
                Ok(EndedSession { kernel: session.kernel, active_exec: session.active_exec })
            },
            None => Err(respond("js_repl session id not found")),
        }
    }

    /// Takes out all sessions, and the kernel of code that is waited for. The kernels are to be
    /// ended; code that was running is to be marked as ending on purpose, released, its tool calls
    /// waited for, and then it is called off.
    pub fn reset(&mut self) -> (plan: ResetPlan)
        requires
            old(self).wf(),
        ensures
            final(self).wf(),
            final(self)@ == (ManagerView { kernel: None, sessions: Map::empty(), ..old(self)@ }),
            plan.kernel == old(self)@.kernel,
            plan.sessions@.len() == old(self).poll_sessions.order().len(),
            forall|i: int|
                0 <= i < plan.sessions@.len() ==> {
                    let session = old(self)@.sessions[old(self).poll_sessions.order()[i]];
                    (#[trigger] plan.sessions@[i]).kernel == session.kernel && opt_text(
                        plan.sessions@[i].active_exec,
                    ) == session.active_exec
                },
    {
        let kernel = self.kernel;
        self.kernel = None;
        let ids = self.poll_sessions.keys();
        let ghost order = self.poll_sessions.order();
        let mut sessions: Vec<EndedSession> = Vec::new();
        let mut at: usize = 0;
        while at < ids.len()
            invariant
                order == texts(ids@),
                self.poll_sessions == old(self).poll_sessions,
                self.poll_sessions.wf(),
                order == self.poll_sessions.order(),
                at <= ids@.len(),
                sessions@.len() == at,
                forall|i: int|
                    0 <= i < at ==> {
                        let session = old(self)@.sessions[order[i]];
                        (#[trigger] sessions@[i]).kernel == session.kernel && opt_text(
                            sessions@[i].active_exec,
                        ) == session.active_exec
                    },
            decreases ids@.len() - at,
        {
            proof {
                self.poll_sessions.lemma_order();
                assert(order.contains(order[at as int]));
                assert(order[at as int] == ids@[at as int]@);
            }
            match self.poll_sessions.get(ids[at].as_str()) {
                Some(session) => {
                    sessions.push(
                        EndedSession {
                            kernel: session.kernel,
                            active_exec: copy_opt(&session.active_exec),
                        },
                    );
                },
                None => {
                    assert(false);
                },
            }
            at += 1;
        }
        self.poll_sessions = StringMap::new();
        proof {
            assert(self@.sessions =~= Map::<Seq<char>, SessionView>::empty());
            self.poll_sessions.lemma_order();
            assert(self.poll_sessions@.dom() =~= Set::<Seq<char>>::empty());
        }
        ResetPlan { kernel, sessions }
    }

    /// Lets go of code whose session is no longer there: its tool calls are called off, and are to
    /// be waited for.
    pub fn release_exec(&mut self, exec_id: &str)
        requires
            old(self).wf(),
        ensures
            final(self).wf(),
            final(self)@ == exec_released(old(self)@, exec_id@),
    {
        let ghost before = self@;
        self.exec_to_session.remove(exec_id);
        assert(self@.routes =~= before.routes.remove(exec_id@));
        self.cancel_exec_tool_calls(exec_id);
    }

    /// Calls code off whose session is no longer there. What is told of it is handed back.
    pub fn cancel_exec(&mut self, exec_id: &str, now: u64) -> (event: Option<ExecCompletionEvent>)
        requires
            old(self).wf(),
        ensures
            final(self).wf(),
            final(self)@ == exec_cancelled(old(self)@, exec_id@),
            opt_completion(event) == (if exec_may_complete(
                old(self)@,
                exec_id@,
                ExecTerminalKind::Cancelled,
                true,
            ) {
                Some(completion(final(self)@.store[exec_id@], now as nat))
            } else {
                None
            }),
    {
        let event = self.complete_exec(
            exec_id,
            ExecTerminalKind::Cancelled,
            None,
            Some(JS_REPL_CANCEL_ERROR_MESSAGE.to_owned()),
            true,
            now,
        );
        self.clear_exec_tool_calls(exec_id);
        event
    }
}

/// The code that a session runs when the session is reset: the session is gone, the code has no
/// session and no tool calls any more, and it has come to an end; unless it had come to one of
/// another kind than with its kernel before, it was called off. Other sessions, other code, and
/// the kernel of code that is waited for are left alone.
pub proof fn lemma_reset_session(state: ManagerView, session_id: Seq<char>, exec_id: Seq<char>)
    requires
        state.sessions.contains_key(session_id),
        state.sessions[session_id].active_exec == Some(exec_id),
        state.store.contains_key(exec_id),
    ensures
        ({
            let after = exec_cancelled(
                exec_released(session_removed(state, session_id), exec_id),
                exec_id,
            );
            let before = state.store[exec_id];
            &&& !after.sessions.contains_key(session_id)
            &&& !after.routes.contains_key(exec_id)
            &&& !after.calls.contains_key(exec_id)
            &&& after.store.contains_key(exec_id)
            &&& after.store[exec_id].done
            &&& !before.done || before.terminal_kind == Some(ExecTerminalKind::KernelExit)
                ==> after.store[exec_id].terminal_kind == Some(ExecTerminalKind::Cancelled)
                && after.store[exec_id].error == Some(JS_REPL_CANCEL_ERROR_MESSAGE@)
            &&& before.done && before.terminal_kind != Some(ExecTerminalKind::KernelExit)
                ==> after.store[exec_id] == before
            &&& after.kernel == state.kernel
            &&& forall|other: Seq<char>|
                other != session_id ==> (#[trigger] after.sessions.contains_key(other)
                    <==> state.sessions.contains_key(other))
            &&& forall|other: Seq<char>|
                other != session_id && state.sessions.contains_key(other)
                    ==> #[trigger] after.sessions[other] == state.sessions[other]
            &&& forall|other: Seq<char>|
                other != exec_id && state.store.contains_key(other)
                    ==> #[trigger] after.store[other] == state.store[other]
            &&& forall|other: Seq<char>|
                other != exec_id && state.calls.contains_key(other)
                    ==> #[trigger] after.calls[other] == state.calls[other]
        }),
{
}

/// The end of a kernel is not told of code whose session is being reset: calling it off is.
pub proof fn lemma_no_kernel_exit_while_terminating(
    state: ManagerView,
    exec_id: Seq<char>,
    output: Option<Seq<char>>,
    error: Option<Seq<char>>,
    override_kernel_exit: bool,
)
    requires
        state.store.contains_key(exec_id),
        !state.store[exec_id].done,
    ensures
        exec_completed(
            exec_terminating(state, exec_id),
            exec_id,
            ExecTerminalKind::KernelExit,
            output,
            error,
            override_kernel_exit,
        ) == exec_terminating(state, exec_id),
{
}

/// What counting tool calls comes to. Calls that are counted from now on start with none running,
/// and not called off; one that begins and one that ends count one more and one less; calling off
/// says so and counts nothing; and what is counted no longer is gone. Calls of other code are left
/// alone, and so is everything else.
pub proof fn lemma_calls_counted(state: ManagerView, id: Seq<char>, other: Seq<char>)
    requires
        state.calls.contains_key(id) ==> state.calls[id].in_flight < usize::MAX,
    ensures
        calls_registered(state, id).calls.contains_key(id),
        calls_registered(state, id).calls[id].in_flight == 0,
        !calls_registered(state, id).calls[id].cancelled,
        !calls_cleared(state, id).calls.contains_key(id),
        state.calls.contains_key(id) ==> {
            let before = state.calls[id];
            let begun = call_begun(state, id).calls;
            let finished = call_finished(state, id).calls;
            let cancelled = calls_cancelled(state, id).calls;
            &&& begun.contains_key(id) && begun[id].in_flight == before.in_flight + 1
                && begun[id].cancelled == before.cancelled
            &&& finished.contains_key(id) && finished[id].cancelled == before.cancelled
            &&& before.in_flight > 0 ==> finished[id].in_flight == before.in_flight - 1
            &&& before.in_flight == 0 ==> finished[id].in_flight == 0
            &&& cancelled.contains_key(id) && cancelled[id].cancelled && cancelled[id].in_flight
                == before.in_flight
            &&& calls_running(state, id) <==> before.in_flight > 0
        },
        !state.calls.contains_key(id) ==> {
            &&& call_begun(state, id) == state
            &&& call_finished(state, id) == state
            &&& calls_cancelled(state, id) == state
            &&& !calls_running(state, id)
        },
        other != id && state.calls.contains_key(other) ==> {
            &&& calls_registered(state, id).calls.contains_key(other) && calls_registered(
                state,
                id,
            ).calls[other] == state.calls[other]
            &&& calls_cleared(state, id).calls.contains_key(other) && calls_cleared(
                state,
                id,
            ).calls[other] == state.calls[other]
            &&& call_begun(state, id).calls[other] == state.calls[other]
            &&& call_finished(state, id).calls[other] == state.calls[other]
            &&& calls_cancelled(state, id).calls[other] == state.calls[other]
        },
        calls_registered(state, id).store == state.store,
        calls_cleared(state, id).store == state.store,
        call_begun(state, id).store == state.store,
        call_finished(state, id).store == state.store,
        calls_cancelled(state, id).store == state.store,
        calls_registered(state, id).sessions == state.sessions,
        calls_cleared(state, id).sessions == state.sessions,
        call_begun(state, id).sessions == state.sessions,
        call_finished(state, id).sessions == state.sessions,
        calls_cancelled(state, id).sessions == state.sessions,
{
}

/// Code that is called off while it runs has come to an end, was called off, and says so; what it
/// had put out can still be polled. Code that had come to an end by itself is left as it was. Its
/// tool calls are counted no longer, and other code is left alone.
pub proof fn lemma_cancelled(state: ManagerView, id: Seq<char>, other: Seq<char>)
    requires
        state.store.contains_key(id),
    ensures
        ({
            let before = state.store[id];
            let state_after = exec_cancelled(state, id);
            let after = state_after.store[id];
            &&& !before.done || before.terminal_kind == Some(ExecTerminalKind::KernelExit) ==> {
                &&& after.done
                &&& after.terminal_kind == Some(ExecTerminalKind::Cancelled)
                &&& after.error == Some("js_repl execution canceled"@)
                &&& after.output == before.output
                &&& after.logs == before.logs
                &&& after.all_logs == before.all_logs
                &&& after.session_id == before.session_id
                &&& after.event_call_id == before.event_call_id
            }
            &&& before.done && before.terminal_kind != Some(ExecTerminalKind::KernelExit)
                ==> after == before
            &&& !state_after.calls.contains_key(id)
            &&& state_after.sessions == state.sessions
            &&& other != id && state.store.contains_key(other) ==> state_after.store.contains_key(
                other,
            ) && state_after.store[other] == state.store[other]
        }),
{
}

/// What is kept of code is dropped only once it came to an end. Its kernel is known to end on
/// purpose only while it runs. Neither touches other code.
pub proof fn lemma_evicted(state: ManagerView, id: Seq<char>, other: Seq<char>)
    requires
        state.store.contains_key(id),
    ensures
        state.store[id].done ==> !exec_evicted(state, id).store.contains_key(id),
        !state.store[id].done ==> exec_evicted(state, id) == state,
        state.store[id].done ==> exec_terminating(state, id) == state,
        !state.store[id].done ==> exec_terminating(state, id).store[id] == (BufferView {
            host_terminating: true,
            ..state.store[id]
        }),
        other != id && state.store.contains_key(other) ==> exec_evicted(
            state,
            id,
        ).store.contains_key(other) && exec_evicted(state, id).store[other] == state.store[other]
            && exec_terminating(state, id).store.contains_key(other) && exec_terminating(
            state,
            id,
        ).store[other] == state.store[other],
        exec_evicted(state, id).sessions == state.sessions,
        exec_terminating(state, id).sessions == state.sessions,
{
}

} // verus!
