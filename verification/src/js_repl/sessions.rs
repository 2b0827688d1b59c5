//! Code that runs in the background: handing it to a session, and polling it.

use vstd::prelude::*;

use crate::js_repl::args::JsReplArgs;
use crate::js_repl::args::JS_REPL_POLL_TIMEOUT_ARG_ERROR_MESSAGE;
use crate::js_repl::exec_buffer::drained;
use crate::js_repl::exec_buffer::fresh_buffer;
use crate::js_repl::exec_buffer::BufferView;
use crate::js_repl::exec_buffer::ExecBuffer;
use crate::js_repl::ids::choose_session_id;
use crate::js_repl::ids::is_fresh_form;
use crate::js_repl::ids::lemma_fresh_not_blank;
use crate::js_repl::kernel::KernelState;
use crate::js_repl::kernel::KernelView;
use crate::js_repl::manager::calls_cleared;
use crate::js_repl::manager::calls_registered;
use crate::js_repl::manager::JsReplManager;
use crate::js_repl::manager::ManagerView;
use crate::js_repl::manager::PollSessionState;
use crate::js_repl::manager::SessionView;
use crate::js_repl::manager::JS_REPL_POLL_MAX_SESSIONS;
use crate::js_repl::messages::clamp_poll_ms;
use crate::js_repl::messages::poll_wait;
use crate::js_repl::messages::ExecMessage;
use crate::js_repl::messages::ExecMessageView;
use crate::text::blank;
use crate::text::copy_opt;
use crate::text::is_blank;
use crate::text::opt_text;
use crate::text::plus3;
use crate::text::same_text;
use crate::text::texts;
use crate::tools::respond;
use crate::tools::ErrorView;
use crate::tools::FunctionCallError;

verus! {

// ---------------------------------------------------------------------------------------------
// Finding a session
// ---------------------------------------------------------------------------------------------

/// What the model gets for code that was handed to a session.
#[derive(Clone, Debug, PartialEq, Eq)]
pub struct JsExecSubmission {
    /// The code's name.
    pub exec_id: String,
    /// The session's name.
    pub session_id: String,
}

/// What there is to do before code can be handed to a session.
#[derive(Clone, Debug, PartialEq, Eq)]
pub struct SubmitStep {
    /// The session's name.
    pub session_id: String,
    /// Whether a kernel has to be started for it.
    pub needs_kernel: bool,
    /// A session that made room, whose kernel is to be ended.
    pub pruned: Option<PrunedSession>,
}

/// A session that made room for another.
#[derive(Clone, Debug, PartialEq, Eq)]
pub struct PrunedSession {
    /// Its name.
    pub session_id: String,
    /// Its kernel.
    pub kernel: u64,
}

/// What is said where there are too many sessions that all run code.
pub const AT_CAPACITY_MESSAGE: &'static str =
    "js_repl polling has reached the maximum of 16 active sessions; reset a session before creating another";

/// What is said where a session runs code already.
pub open spec fn busy_message(session_id: Seq<char>, exec_id: Seq<char>) -> Seq<char> {
    "js_repl session `"@ + session_id + "` already has a running exec: `"@ + exec_id + "`"@
}

/// What is said where a session runs code already.
fn busy_error(session_id: &str, exec_id: &str) -> (error: FunctionCallError)
    ensures
        error@ == ErrorView::RespondToModel(busy_message(session_id@, exec_id@)),
{
    let named = plus3("js_repl session `", session_id, "` already has a running exec: `");
    FunctionCallError::RespondToModel(plus3(named.as_str(), exec_id, "`"))
}

/// Whether a session runs no code.
pub open spec fn is_idle(sessions: Map<Seq<char>, SessionView>, id: Seq<char>) -> bool {
    sessions.contains_key(id) && sessions[id].active_exec is None
}

/// Whether a session runs no code and was not used for as long as any that runs none.
pub open spec fn is_least_used(sessions: Map<Seq<char>, SessionView>, id: Seq<char>) -> bool {
    &&& is_idle(sessions, id)
    &&& forall|other: Seq<char>| #[trigger]
        is_idle(sessions, other) ==> sessions[id].last_used <= sessions[other].last_used
}

/// Whether there are as many sessions as there may be.
pub open spec fn at_capacity(sessions: Map<Seq<char>, SessionView>) -> bool {
    sessions.dom().len() >= JS_REPL_POLL_MAX_SESSIONS
}

/// Why code cannot be handed to a session; none where it can.
pub open spec fn submit_fault(
    state: ManagerView,
    timeout_ms: Option<u64>,
    session_id: Seq<char>,
    provided: bool,
) -> Option<Seq<char>> {
    if timeout_ms is Some {
        Some(JS_REPL_POLL_TIMEOUT_ARG_ERROR_MESSAGE@)
    } else if is_blank(session_id) {
        Some("js_repl session_id must not be empty"@)
    } else if state.sessions.contains_key(session_id) {
        match state.sessions[session_id].active_exec {
            Some(exec_id) => Some(busy_message(session_id, exec_id)),
            None => None,
        }
    } else if provided {
        Some("js_repl session id not found"@)
    } else if at_capacity(state.sessions) && forall|id: Seq<char>| !is_idle(state.sessions, id) {
        Some(AT_CAPACITY_MESSAGE@)
    } else {
        None
    }
}

/// The state when a session was used.
pub open spec fn session_touched(state: ManagerView, session_id: Seq<char>, now: u64) -> ManagerView {
    if state.sessions.contains_key(session_id) {
        ManagerView {
            sessions: state.sessions.insert(
                session_id,
                SessionView { last_used: now, ..state.sessions[session_id] },
            ),
            ..state
        }
    } else {
        state
    }
}

/// Whether a step, and the state after it, are what handing code to a session comes to.
pub open spec fn submit_ready(
    before: ManagerView,
    session_id: Seq<char>,
    now: u64,
    step: SubmitStep,
    after: ManagerView,
) -> bool {
    &&& step.session_id@ == session_id
    &&& step.needs_kernel == !before.sessions.contains_key(session_id)
    &&& step.pruned is Some == (step.needs_kernel && at_capacity(before.sessions))
    &&& match step.pruned {
        Some(pruned) => {
            &&& is_least_used(before.sessions, pruned.session_id@)
            &&& pruned.kernel == before.sessions[pruned.session_id@].kernel
            &&& after == (ManagerView {
                sessions: before.sessions.remove(pruned.session_id@),
                ..before
            })
        },
        None => after == session_touched(before, session_id, now),
    }
}

impl JsReplManager {
    /// The views of the sessions have the same names.
    proof fn lemma_session_names(&self)
        requires
            self.poll_sessions.wf(),
        ensures
            self@.sessions.dom() == self.poll_sessions@.dom(),
            self.poll_sessions@.dom().finite(),
    {
        assert(self@.sessions.dom() =~= self.poll_sessions@.dom());
        self.poll_sessions.lemma_order();
    }

    /// A session that runs no code and was not used for the longest time.
    fn least_used_session(&self) -> (found: Option<String>)
        requires
            self.wf(),
        ensures
            match found {
                Some(id) => is_least_used(self@.sessions, id@),
                None => forall|id: Seq<char>| !is_idle(self@.sessions, id),
            },
    {
        let ids = self.poll_sessions.keys();
        let ghost order = texts(ids@);
        let mut found: Option<usize> = None;
        let mut least: u64 = 0;
        let mut at: usize = 0;
        while at < ids.len()
            invariant
                self.wf(),
                order == texts(ids@),
                order == self.poll_sessions.order(),
                at <= ids@.len(),
                match found {
                    Some(place) => {
                        &&& place < at
                        &&& is_idle(self@.sessions, order[place as int])
                        &&& least == self@.sessions[order[place as int]].last_used
                        &&& forall|i: int|
                            0 <= i < at && is_idle(self@.sessions, #[trigger] order[i]) ==> least
                                <= self@.sessions[order[i]].last_used
                    },
                    None => forall|i: int|
                        0 <= i < at ==> !is_idle(self@.sessions, #[trigger] order[i]),
                },
            decreases ids@.len() - at,
        {
            proof {
                self.poll_sessions.lemma_order();
                assert(order.contains(order[at as int]));
                assert(order[at as int] == ids@[at as int]@);
            }
            if let Some(session) = self.poll_sessions.get(ids[at].as_str()) {
                if session.active_exec.is_none() && (found.is_none() || session.last_used < least) {
                    found = Some(at);
                    least = session.last_used;
                }
            }
            at += 1;
        }
        proof {
            self.poll_sessions.lemma_order();
            assert forall|id: Seq<char>| is_idle(self@.sessions, id) implies exists|i: int|
                0 <= i < order.len() && order[i] == id by {
                assert(self.poll_sessions@.contains_key(id));
                assert(order.contains(id));
            }
        }
        match found {
            Some(place) => Some(ids[place].clone()),
            None => None,
        }
    }

    /// Finds the session of some name for code to run in. Where it does not exist and the model
    /// did not name it, a kernel is to be started for it, in place of the session that was not
    /// used for the longest time where there are too many.
    pub fn submit_in(
        &mut self,
        timeout_ms: Option<u64>,
        session_id: String,
        provided: bool,
        now: u64,
    ) -> (step: Result<SubmitStep, FunctionCallError>)
        requires
            old(self).wf(),
        ensures
            final(self).wf(),
            match step {
                Ok(step) => {
                    &&& submit_fault(old(self)@, timeout_ms, session_id@, provided) is None
                    &&& submit_ready(old(self)@, session_id@, now, step, final(self)@)
                },
                Err(error) => {
                    &&& submit_fault(old(self)@, timeout_ms, session_id@, provided) matches Some(
                        message,
                    ) && error@ == ErrorView::RespondToModel(message)
                    &&& final(self)@ == old(self)@
                },
            },
    {
        let ghost before = self@;
        proof {
            self.lemma_session_names();
        }
        if timeout_ms.is_some() {
            return Err(respond(JS_REPL_POLL_TIMEOUT_ARG_ERROR_MESSAGE));
        }
        if blank(session_id.as_str()) {
            return Err(respond("js_repl session_id must not be empty"));
        }
        let known = self.poll_sessions.contains_key(session_id.as_str());
        if known {
            if let Some(session) = self.poll_sessions.get(session_id.as_str()) {
                if let Some(exec_id) = &session.active_exec {
                    return Err(busy_error(session_id.as_str(), exec_id.as_str()));
                }
            }
            self.touch_session(session_id.as_str(), now);
            return Ok(SubmitStep { session_id, needs_kernel: false, pruned: None });
        }
        if provided {
            return Err(respond("js_repl session id not found"));
        }
        if self.poll_sessions.len() >= JS_REPL_POLL_MAX_SESSIONS {
            let least = match self.least_used_session() {
                Some(least) => least,
                None => return Err(respond(AT_CAPACITY_MESSAGE)),
            };
            match self.poll_sessions.remove(least.as_str()) {
                Some(session) => {
                    proof {
                        assert(self@.sessions =~= before.sessions.remove(least@));
                        self.lemma_session_names();
                    }
                    Ok(
                        SubmitStep {
                            session_id,
                            needs_kernel: true,
                            pruned: Some(
                                PrunedSession { session_id: least, kernel: session.kernel },
                            ),
                        },
                    )
                },
                None => {
                    assert(false);
                    Err(respond(AT_CAPACITY_MESSAGE))
                },
            }
        } else {
            Ok(SubmitStep { session_id, needs_kernel: true, pruned: None })
        }
    }

    /// Notes that a session was used.
    pub fn touch_session(&mut self, session_id: &str, now: u64)
        requires
            old(self).wf(),
        ensures
            final(self).wf(),
            final(self)@ == session_touched(old(self)@, session_id@, now),
    {
        let ghost before = self@;
        match self.poll_sessions.get_mut(session_id) {
            Some(session) => {
                session.last_used = now;
                proof {
                    assert(self@.sessions =~= session_touched(before, session_id@, now).sessions);
                    old(self).lemma_session_names();
                    self.lemma_session_names();
                    self.poll_sessions.lemma_order();
                    old(self).poll_sessions.lemma_order();
                }
            },
            None => {},
        }
    }

    /// Finds a session for code to run in: the one that the model names, or else a new one.
    pub fn submit(&mut self, args: &JsReplArgs, now: u64) -> (step: Result<
        SubmitStep,
        FunctionCallError,
    >)
        requires
            old(self).wf(),
        ensures
            final(self).wf(),
            match args@.session_id {
                Some(session_id) => match step {
                    Ok(step) => {
                        &&& submit_fault(old(self)@, args.timeout_ms, session_id, true) is None
                        &&& submit_ready(old(self)@, session_id, now, step, final(self)@)
                    },
                    Err(error) => {
                        &&& submit_fault(
                            old(self)@,
                            args.timeout_ms,
                            session_id,
                            true,
                        ) matches Some(message) && error@ == ErrorView::RespondToModel(message)
                        &&& final(self)@ == old(self)@
                    },
                },
                None => match step {
                    Ok(step) => {
                        &&& is_fresh_form(step.session_id@)
                        &&& submit_fault(
                            old(self)@,
                            args.timeout_ms,
                            step.session_id@,
                            false,
                        ) is None
                        &&& submit_ready(
                            old(self)@,
                            step.session_id@,
                            now,
                            step,
                            final(self)@,
                        )
                    },
                    Err(error) => {
                        &&& exists|session_id: Seq<char>| #[trigger]
                            is_fresh_form(session_id) && submit_fault(
                                old(self)@,
                                args.timeout_ms,
                                session_id,
                                false,
                            ) == Some(error@->RespondToModel_0)
                        &&& error@ is RespondToModel
                        &&& final(self)@ == old(self)@
                    },
                },
            },
    {
        let choice = choose_session_id(args);
        self.submit_in(args.timeout_ms, choice.session_id, choice.provided, now)
    }
}

/// A session that the model did not name is never refused for its name.
pub proof fn lemma_fresh_session(state: ManagerView, session_id: Seq<char>)
    requires
        is_fresh_form(session_id),
        !state.sessions.contains_key(session_id),
        !at_capacity(state.sessions) || exists|id: Seq<char>| is_idle(state.sessions, id),
    ensures
        submit_fault(state, None, session_id, false) is None,
{
    lemma_fresh_not_blank(session_id);
}

/// When code is refused for its session, and what is said. Code with a time limit is refused, and
/// so is a blank name. A session that is there takes code as long as it runs none. One that is not
/// there is refused where the model names it; a new one is refused only where there are as many as
/// there may be and all of them run code.
pub proof fn lemma_submit_refused(
    state: ManagerView,
    timeout_ms: Option<u64>,
    session_id: Seq<char>,
    provided: bool,
)
    ensures
        timeout_ms is Some ==> submit_fault(state, timeout_ms, session_id, provided) == Some(
            JS_REPL_POLL_TIMEOUT_ARG_ERROR_MESSAGE@,
        ),
        timeout_ms is None && is_blank(session_id) ==> submit_fault(
            state,
            timeout_ms,
            session_id,
            provided,
        ) == Some("js_repl session_id must not be empty"@),
        timeout_ms is None && !is_blank(session_id) && state.sessions.contains_key(session_id) ==> {
            let fault = submit_fault(state, timeout_ms, session_id, provided);
            match state.sessions[session_id].active_exec {
                Some(exec_id) => fault == Some(
                    "js_repl session `"@ + session_id + "` already has a running exec: `"@
                        + exec_id + "`"@,
                ),
                None => fault is None,
            }
        },
        timeout_ms is None && !is_blank(session_id) && !state.sessions.contains_key(session_id)
            && provided ==> submit_fault(state, timeout_ms, session_id, provided) == Some(
            "js_repl session id not found"@,
        ),
        timeout_ms is None && !is_blank(session_id) && !state.sessions.contains_key(session_id)
            && !provided && state.sessions.dom().len() < 16 ==> submit_fault(
            state,
            timeout_ms,
            session_id,
            provided,
        ) is None,
        timeout_ms is None && !is_blank(session_id) && !state.sessions.contains_key(session_id)
            && !provided && state.sessions.dom().len() >= 16 ==> {
            let fault = submit_fault(state, timeout_ms, session_id, provided);
            let all_run = forall|id: Seq<char>|
                state.sessions.contains_key(id) ==> (#[trigger] state.sessions[id]).active_exec
                    is Some;
            if all_run {
                fault == Some(AT_CAPACITY_MESSAGE@)
            } else {
                fault is None
            }
        },
{
    let all_run = forall|id: Seq<char>|
        state.sessions.contains_key(id) ==> (#[trigger] state.sessions[id]).active_exec is Some;
    if all_run {
        assert forall|id: Seq<char>| !is_idle(state.sessions, id) by {
            if state.sessions.contains_key(id) {
                assert(state.sessions[id].active_exec is Some);
            }
        }
    } else {
        let id = choose|id: Seq<char>|
            state.sessions.contains_key(id) && !((#[trigger] state.sessions[id]).active_exec
                is Some);
        assert(is_idle(state.sessions, id));
    }
}

/// What handing code to a session changes. A session that is there keeps its kernel and what it
/// runs, and counts as used now. For a new one a kernel is started; where there are as many as
/// there may be, one makes room that runs no code and was not used for as long as any such. No
/// other session is changed, and no code.
pub proof fn lemma_submit_step(
    before: ManagerView,
    session_id: Seq<char>,
    now: u64,
    step: SubmitStep,
    after: ManagerView,
)
    requires
        submit_ready(before, session_id, now, step, after),
    ensures
        step.session_id@ == session_id,
        after.store == before.store,
        after.routes == before.routes,
        after.calls == before.calls,
        after.kernel == before.kernel,
        before.sessions.contains_key(session_id) ==> {
            &&& !step.needs_kernel
            &&& step.pruned is None
            &&& after.sessions.dom() == before.sessions.dom()
            &&& after.sessions[session_id].last_used == now
            &&& after.sessions[session_id].kernel == before.sessions[session_id].kernel
            &&& after.sessions[session_id].active_exec == before.sessions[session_id].active_exec
        },
        !before.sessions.contains_key(session_id) ==> step.needs_kernel,
        !before.sessions.contains_key(session_id) && before.sessions.dom().len() < 16
            ==> step.pruned is None && after.sessions == before.sessions,
        !before.sessions.contains_key(session_id) && before.sessions.dom().len() >= 16 ==> (
        step.pruned matches Some(pruned) && {
            let name = pruned.session_id@;
            &&& before.sessions.contains_key(name)
            &&& before.sessions[name].active_exec is None
            &&& pruned.kernel == before.sessions[name].kernel
            &&& after.sessions.dom() == before.sessions.dom().remove(name)
            &&& forall|other: Seq<char>|
                before.sessions.contains_key(other) && (#[trigger] before.sessions[other]).active_exec
                    is None ==> before.sessions[name].last_used <= before.sessions[other].last_used
        }),
        forall|other: Seq<char>|
            other != session_id && after.sessions.contains_key(other)
                ==> before.sessions.contains_key(other) && #[trigger] after.sessions[other]
                == before.sessions[other],
{
    if before.sessions.contains_key(session_id) {
        assert(after.sessions.dom() =~= before.sessions.dom());
    } else if let Some(pruned) = step.pruned {
        let name = pruned.session_id@;
        assert(after.sessions.dom() =~= before.sessions.dom().remove(name));
        assert forall|other: Seq<char>|
            before.sessions.contains_key(other) && (#[trigger] before.sessions[other]).active_exec
                is None implies before.sessions[name].last_used
            <= before.sessions[other].last_used by {
            assert(is_idle(before.sessions, other));
        }
    }
}

// ---------------------------------------------------------------------------------------------
// Handing code over
// ---------------------------------------------------------------------------------------------

/// What became of a kernel that was started for a session.
#[derive(Clone, Copy, Debug, PartialEq, Eq, Structural)]
pub enum Installed {
    /// It is the session's kernel.
    Installed,
    /// The session has a kernel already: the new one is to be ended.
    Stale,
    /// There are too many sessions: the new kernel is to be ended, and the code is refused.
    AtCapacity,
}

/// The state when a session runs some code.
pub open spec fn session_claimed(
    state: ManagerView,
    session_id: Seq<char>,
    exec_id: Seq<char>,
    now: u64,
) -> ManagerView {
    ManagerView {
        sessions: state.sessions.insert(
            session_id,
            SessionView {
                active_exec: Some(exec_id),
                last_used: now,
                ..state.sessions[session_id]
            },
        ),
        ..state
    }
}

/// Why a session cannot run some code; none where it can.
pub open spec fn claim_fault(state: ManagerView, session_id: Seq<char>) -> Option<Seq<char>> {
    if !state.sessions.contains_key(session_id) {
        Some("js_repl session `"@ + session_id + "` is unavailable"@)
    } else {
        match state.sessions[session_id].active_exec {
            Some(exec_id) => Some(busy_message(session_id, exec_id)),
            None => None,
        }
    }
}

/// The state when code in the background is known.
pub open spec fn exec_registered(
    state: ManagerView,
    exec_id: Seq<char>,
    session_id: Seq<char>,
    event_call_id: Seq<char>,
    now: u64,
) -> ManagerView {
    calls_registered(
        ManagerView {
            store: state.store.insert(
                exec_id,
                fresh_buffer(event_call_id, Some(session_id), now as nat),
            ),
            routes: state.routes.insert(exec_id, session_id),
            ..state
        },
        exec_id,
    )
}

/// The state when code in the background could not be handed over.
pub open spec fn exec_abandoned(state: ManagerView, exec_id: Seq<char>, session_id: Seq<char>) -> ManagerView {
    let forgotten = calls_cleared(
        ManagerView {
            store: state.store.remove(exec_id),
            routes: state.routes.remove(exec_id),
            ..state
        },
        exec_id,
    );
    if runs(state, session_id, exec_id) {
        ManagerView { sessions: state.sessions.remove(session_id), ..forgotten }
    } else {
        forgotten
    }
}

/// Whether a session runs some code.
pub open spec fn runs(state: ManagerView, session_id: Seq<char>, exec_id: Seq<char>) -> bool {
    state.sessions.contains_key(session_id) && state.sessions[session_id].active_exec == Some(
        exec_id,
    )
}

impl JsReplManager {
    /// Gives a session the kernel that was started for it.
    pub fn install_session(&mut self, session_id: &str, kernel: u64, now: u64) -> (installed:
        Installed)
        requires
            old(self).wf(),
        ensures
            final(self).wf(),
            installed == (if old(self)@.sessions.contains_key(session_id@) {
                Installed::Stale
            } else if at_capacity(old(self)@.sessions) {
                Installed::AtCapacity
            } else {
                Installed::Installed
            }),
            final(self)@ == (if installed == Installed::Installed {
                ManagerView {
                    sessions: old(self)@.sessions.insert(
                        session_id@,
                        SessionView { kernel, active_exec: None, last_used: now },
                    ),
                    ..old(self)@
                }
            } else {
                old(self)@
            }),
    {
        let ghost before = self@;
        proof {
            self.lemma_session_names();
        }
        if self.poll_sessions.contains_key(session_id) {
            return Installed::Stale;
        }
        if self.poll_sessions.len() >= JS_REPL_POLL_MAX_SESSIONS {
            return Installed::AtCapacity;
        }
        let session = PollSessionState { kernel, active_exec: None, last_used: now };
        self.poll_sessions.insert(session_id.to_owned(), session);
        proof {
            assert(self@.sessions =~= before.sessions.insert(session_id@, session@));
            self.lemma_session_names();
            self.poll_sessions.lemma_order();
            old(self).poll_sessions.lemma_order();
        }
        Installed::Installed
    }

    /// What is said where a kernel came too late for its session.
    pub fn at_capacity_error() -> (error: FunctionCallError)
        ensures
            error@ == ErrorView::RespondToModel(AT_CAPACITY_MESSAGE@),
    {
        respond(AT_CAPACITY_MESSAGE)
    }

    /// Lets a session run some code: it runs one piece at a time. Its kernel is handed back.
    pub fn claim_session(&mut self, session_id: &str, exec_id: &str, now: u64) -> (kernel: Result<
        u64,
        FunctionCallError,
    >)
        requires
            old(self).wf(),
        ensures
            final(self).wf(),
            match kernel {
                Ok(kernel) => {
                    &&& claim_fault(old(self)@, session_id@) is None
                    &&& kernel == old(self)@.sessions[session_id@].kernel
                    &&& final(self)@ == session_claimed(old(self)@, session_id@, exec_id@, now)
                },
                Err(error) => {
                    &&& claim_fault(old(self)@, session_id@) matches Some(message) && error@
                        == ErrorView::RespondToModel(message)
                    &&& final(self)@ == old(self)@
                },
            },
    {
        let ghost before = self@;
        match self.poll_sessions.get(session_id) {
            Some(session) => {
                if let Some(active) = &session.active_exec {
                    return Err(busy_error(session_id, active.as_str()));
                }
            },
            None => return Err(
                FunctionCallError::RespondToModel(
                    plus3("js_repl session `", session_id, "` is unavailable"),
                ),
            ),
        }
        match self.poll_sessions.get_mut(session_id) {
            Some(session) => {
                session.active_exec = Some(exec_id.to_owned());
                session.last_used = now;
                let kernel = session.kernel;
                proof {
                    assert(self@.sessions =~= session_claimed(
                        before,
                        session_id@,
                        exec_id@,
                        now,
                    ).sessions);
                    old(self).lemma_session_names();
                    self.lemma_session_names();
                    self.poll_sessions.lemma_order();
                    old(self).poll_sessions.lemma_order();
                }
                Ok(kernel)
            },
            None => {
                assert(false);
                Err(respond("js_repl session id not found"))
            },
        }
    }

    /// Makes code in the background known, before it is handed to a session's kernel. What the
    /// kernel is told is handed back.
    pub fn register_exec(
        &mut self,
        kernel: &mut KernelState,
        exec_id: &str,
        session_id: &str,
        event_call_id: String,
        args: &JsReplArgs,
        now: u64,
    ) -> (message: ExecMessage)
        requires
            old(self).wf(),
            old(kernel).wf(),
        ensures
            final(self).wf(),
            final(kernel).wf(),
            final(self)@ == exec_registered(
                old(self)@,
                exec_id@,
                session_id@,
                event_call_id@,
                now,
            ),
            final(kernel)@ == (KernelView {
                contexts: old(kernel)@.contexts.insert(exec_id@),
                ..old(kernel)@
            }),
            message@ == (ExecMessageView {
                id: exec_id@,
                code: args@.code,
                timeout_ms: args.timeout_ms,
                stream_logs: true,
            }),
    {
        let ghost before = self@;
        kernel.exec_contexts.insert(exec_id.to_owned(), ());
        assert(kernel@.contexts =~= old(kernel)@.contexts.insert(exec_id@));
        let buffer = ExecBuffer::new(event_call_id, Some(session_id.to_owned()), now);
        let ghost fresh = buffer@;
        self.exec_store.insert(exec_id.to_owned(), buffer);
        assert(self@.store =~= before.store.insert(exec_id@, fresh));
        self.exec_to_session.insert(exec_id.to_owned(), session_id.to_owned());
        assert(self@.routes =~= before.routes.insert(exec_id@, session_id@));
        self.register_exec_tool_calls(exec_id);
        ExecMessage {
            id: exec_id.to_owned(),
            code: args.code.clone(),
            timeout_ms: args.timeout_ms,
            stream_logs: true,
        }
    }

    /// Forgets code in the background that could not be handed to its session's kernel, and with
    /// it the session. Its kernel is handed back, to be ended.
    pub fn abandon_exec(&mut self, kernel: &mut KernelState, exec_id: &str, session_id: &str) -> (
        ended: Option<u64>)
        requires
            old(self).wf(),
            old(kernel).wf(),
        ensures
            final(self).wf(),
            final(kernel).wf(),
            final(self)@ == exec_abandoned(old(self)@, exec_id@, session_id@),
            final(kernel)@ == (KernelView {
                contexts: old(kernel)@.contexts.remove(exec_id@),
                ..old(kernel)@
            }),
            ended == (if runs(old(self)@, session_id@, exec_id@) {
                Some(old(self)@.sessions[session_id@].kernel)
            } else {
                None
            }),
    {
        let ghost before = self@;
        kernel.exec_contexts.remove(exec_id);
        assert(kernel@.contexts =~= old(kernel)@.contexts.remove(exec_id@));
        self.exec_store.remove(exec_id);
        assert(self@.store =~= before.store.remove(exec_id@));
        self.exec_to_session.remove(exec_id);
        assert(self@.routes =~= before.routes.remove(exec_id@));
        self.clear_exec_tool_calls(exec_id);
        let ghost forgotten = self@;
        proof {
            self.lemma_session_names();
        }
        let running = match self.poll_sessions.get(session_id) {
            Some(session) => match &session.active_exec {
                Some(active) => same_text(active.as_str(), exec_id),
                None => false,
            },
            None => false,
        };
        if !running {
            return None;
        }
        let ghost sessions = self.poll_sessions;
        let removed = self.poll_sessions.remove(session_id);
        proof {
            assert(self@.sessions =~= before.sessions.remove(session_id@));
            sessions.lemma_order();
            self.poll_sessions.lemma_order();
        }
        match removed {
            Some(session) => Some(session.kernel),
            None => None,
        }
    }
}

/// A session that runs code refuses more, and one that was just claimed does.
pub proof fn lemma_one_exec_per_session(
    state: ManagerView,
    session_id: Seq<char>,
    exec_id: Seq<char>,
    now: u64,
)
    requires
        claim_fault(state, session_id) is None,
    ensures
        claim_fault(session_claimed(state, session_id, exec_id, now), session_id) == Some(
            busy_message(session_id, exec_id),
        ),
        !is_blank(session_id) ==> submit_fault(
            session_claimed(state, session_id, exec_id, now),
            None,
            session_id,
            true,
        ) == Some(busy_message(session_id, exec_id)),
{
}

/// Code that could not be handed to its kernel leaves nothing behind, and takes its session with
/// it.
pub proof fn lemma_abandoned(
    state: ManagerView,
    session_id: Seq<char>,
    exec_id: Seq<char>,
    event_call_id: Seq<char>,
    claimed: u64,
    registered: u64,
)
    requires
        claim_fault(state, session_id) is None,
        !state.store.contains_key(exec_id),
        !state.routes.contains_key(exec_id),
        !state.calls.contains_key(exec_id),
    ensures
        exec_abandoned(
            exec_registered(
                session_claimed(state, session_id, exec_id, claimed),
                exec_id,
                session_id,
                event_call_id,
                registered,
            ),
            exec_id,
            session_id,
        ) == (ManagerView { sessions: state.sessions.remove(session_id), ..state }),
{
    let after = exec_abandoned(
        exec_registered(
            session_claimed(state, session_id, exec_id, claimed),
            exec_id,
            session_id,
            event_call_id,
            registered,
        ),
        exec_id,
        session_id,
    );
    assert(after.store =~= state.store);
    assert(after.routes =~= state.routes);
    assert(after.calls =~= state.calls);
    assert(after.sessions =~= state.sessions.remove(session_id));
}

/// A session runs code where it is there and runs none. It then runs that code, counts as used, and
/// keeps its kernel; other sessions are left alone.
pub proof fn lemma_claimed(
    state: ManagerView,
    session_id: Seq<char>,
    exec_id: Seq<char>,
    now: u64,
)
    ensures
        claim_fault(state, session_id) is None <==> state.sessions.contains_key(session_id)
            && state.sessions[session_id].active_exec is None,
        state.sessions.contains_key(session_id) ==> (
        state.sessions[session_id].active_exec matches Some(running) ==> claim_fault(
            state,
            session_id,
        ) == Some(
            "js_repl session `"@ + session_id + "` already has a running exec: `"@ + running
                + "`"@,
        )),
        ({
            let after = session_claimed(state, session_id, exec_id, now);
            &&& after.sessions.contains_key(session_id)
            &&& after.sessions[session_id].active_exec == Some(exec_id)
            &&& after.sessions[session_id].last_used == now
            &&& after.sessions[session_id].kernel == state.sessions[session_id].kernel
            &&& after.store == state.store
            &&& after.routes == state.routes
            &&& after.calls == state.calls
            &&& after.kernel == state.kernel
            &&& forall|other: Seq<char>|
                other != session_id ==> (#[trigger] after.sessions.contains_key(other)
                    <==> state.sessions.contains_key(other))
            &&& forall|other: Seq<char>|
                other != session_id && state.sessions.contains_key(other)
                    ==> #[trigger] after.sessions[other] == state.sessions[other]
        }),
{
}

/// Code that was just made known can be polled: it has put nothing out, nothing went wrong, and it
/// has not come to an end. It belongs to its session and to its call, and none of its tool calls is
/// running or called off. Other code is left alone.
pub proof fn lemma_registered(
    state: ManagerView,
    exec_id: Seq<char>,
    session_id: Seq<char>,
    event_call_id: Seq<char>,
    now: u64,
)
    ensures
        ({
            let after = exec_registered(state, exec_id, session_id, event_call_id, now);
            let told = poll_result(exec_id, after.store[exec_id]);
            &&& poll_fault(after, exec_id) is None
            &&& told.exec_id == exec_id
            &&& told.session_id == session_id
            &&& told.logs.len() == 0
            &&& told.output is None
            &&& told.error is None
            &&& !told.done
            &&& !has_news(after.store[exec_id])
            &&& after.store[exec_id].event_call_id == event_call_id
            &&& after.store[exec_id].started_at == now
            &&& after.store[exec_id].emitted_deltas == 0
            &&& after.store[exec_id].all_logs.len() == 0
            &&& !after.store[exec_id].logs_truncated
            &&& !after.store[exec_id].all_logs_truncated
            &&& after.store[exec_id].terminal_kind is None
            &&& !after.store[exec_id].host_terminating
            &&& after.routes.contains_key(exec_id)
            &&& after.routes[exec_id] == session_id
            &&& after.calls.contains_key(exec_id)
            &&& after.calls[exec_id].in_flight == 0
            &&& !after.calls[exec_id].cancelled
            &&& after.sessions == state.sessions
            &&& after.kernel == state.kernel
            &&& forall|other: Seq<char>|
                other != exec_id ==> (#[trigger] after.store.contains_key(other)
                    <==> state.store.contains_key(other))
            &&& forall|other: Seq<char>|
                other != exec_id && state.store.contains_key(other)
                    ==> #[trigger] after.store[other] == state.store[other]
            &&& forall|other: Seq<char>|
                other != exec_id && state.routes.contains_key(other)
                    ==> after.routes.contains_key(other) && #[trigger] after.routes[other]
                    == state.routes[other]
            &&& forall|other: Seq<char>|
                other != exec_id && state.calls.contains_key(other)
                    ==> after.calls.contains_key(other) && #[trigger] after.calls[other]
                    == state.calls[other]
        }),
{
}

// ---------------------------------------------------------------------------------------------
// Polling
// ---------------------------------------------------------------------------------------------

/// What a poll gives.
#[derive(Clone, Debug, PartialEq, Eq)]
pub struct JsExecPollResult {
    /// The code's name.
    pub exec_id: String,
    /// The session's name.
    pub session_id: String,
    /// The lines since the last poll.
    pub logs: Vec<String>,
    /// What the code gave back.
    pub output: Option<String>,
    /// What went wrong.
    pub error: Option<String>,
    /// Whether the code came to an end.
    pub done: bool,
}

/// What a poll gives, with texts as characters.
#[verifier::ext_equal]
pub struct PollView {
    /// The code's name.
    pub exec_id: Seq<char>,
    /// The session's name.
    pub session_id: Seq<char>,
    /// The lines since the last poll.
    pub logs: Seq<Seq<char>>,
    /// What the code gave back.
    pub output: Option<Seq<char>>,
    /// What went wrong.
    pub error: Option<Seq<char>>,
    /// Whether the code came to an end.
    pub done: bool,
}

impl View for JsExecPollResult {
    type V = PollView;

    open spec fn view(&self) -> PollView {
        PollView {
            exec_id: self.exec_id@,
            session_id: self.session_id@,
            logs: texts(self.logs@),
            output: opt_text(self.output),
            error: opt_text(self.error),
            done: self.done,
        }
    }
}

/// How a poll goes on.
#[derive(Clone, Debug, PartialEq, Eq)]
pub enum PollStep {
    /// There is something to give.
    Ready(JsExecPollResult),
    /// There is nothing yet: so many nanoseconds are left to wait.
    Wait(u64),
}

/// Why some code cannot be polled; none where it can.
pub open spec fn poll_fault(state: ManagerView, exec_id: Seq<char>) -> Option<Seq<char>> {
    if !state.store.contains_key(exec_id) {
        Some("js_repl exec id not found"@)
    } else if state.store[exec_id].session_id is None {
        Some("js_repl exec id is not pollable"@)
    } else {
        None
    }
}

/// What a poll gives of some code.
pub open spec fn poll_result(exec_id: Seq<char>, buffer: BufferView) -> PollView {
    PollView {
        exec_id,
        session_id: buffer.session_id->0,
        logs: buffer.logs,
        output: buffer.output,
        error: buffer.error,
        done: buffer.done,
    }
}

/// Whether there is something to give.
pub open spec fn has_news(buffer: BufferView) -> bool {
    buffer.logs.len() > 0 || buffer.done
}

/// The state when some code was polled.
pub open spec fn exec_polled(state: ManagerView, exec_id: Seq<char>) -> ManagerView {
    ManagerView { store: state.store.insert(exec_id, drained(state.store[exec_id])), ..state }
}

/// Until when a poll that begins now waits.
pub fn poll_deadline(now: u64, yield_time_ms: Option<u64>) -> (deadline: u64)
    requires
        now + 5_000_000_000 <= u64::MAX,
    ensures
        deadline == now + poll_wait(yield_time_ms) * 1_000_000,
{
    now + clamp_poll_ms(yield_time_ms) * 1_000_000
}

impl JsReplManager {
    /// Gives what there is to give of some code.
    pub fn snapshot_exec(&mut self, exec_id: &str) -> (result: Result<
        JsExecPollResult,
        FunctionCallError,
    >)
        requires
            old(self).wf(),
        ensures
            final(self).wf(),
            match result {
                Ok(result) => {
                    &&& poll_fault(old(self)@, exec_id@) is None
                    &&& result@ == poll_result(exec_id@, old(self)@.store[exec_id@])
                    &&& texts(result.logs@) == old(self)@.store[exec_id@].logs
                    &&& result.done == old(self)@.store[exec_id@].done
                    &&& opt_text(result.output) == old(self)@.store[exec_id@].output
                    &&& opt_text(result.error) == old(self)@.store[exec_id@].error
                    &&& final(self)@ == exec_polled(old(self)@, exec_id@)
                },
                Err(error) => {
                    &&& poll_fault(old(self)@, exec_id@) matches Some(message) && error@
                        == ErrorView::RespondToModel(message)
                    &&& final(self)@ == old(self)@
                },
            },
    {
        let ghost before = self@;
        match self.exec_store.get_mut(exec_id) {
            Some(entry) => {
                let session_id = match &entry.session_id {
                    Some(session_id) => session_id.clone(),
                    None => {
                        assert(self@.store =~= before.store);
                        return Err(respond("js_repl exec id is not pollable"));
                    },
                };
                let logs = entry.poll_logs();
                let output = copy_opt(&entry.output);
                let error = copy_opt(&entry.error);
                let done = entry.done;
                assert(self@.store =~= exec_polled(before, exec_id@).store);
                Ok(
                    JsExecPollResult {
                        exec_id: exec_id.to_owned(),
                        session_id,
                        logs,
                        output,
                        error,
                        done,
                    },
                )
            },
            None => Err(respond("js_repl exec id not found")),
        }
    }

    /// Polls some code. Where there is nothing to give, the session counts as used, and there is a
    /// wait until the deadline; `timed_out` tells that there was one, to no avail.
    pub fn poll(&mut self, exec_id: &str, now: u64, deadline: u64, timed_out: bool) -> (step:
        Result<PollStep, FunctionCallError>)
        requires
            old(self).wf(),
        ensures
            final(self).wf(),
            match step {
                Err(error) => {
                    &&& poll_fault(old(self)@, exec_id@) matches Some(message) && error@
                        == ErrorView::RespondToModel(message)
                    &&& final(self)@ == old(self)@
                },
                Ok(step) => {
                    let buffer = old(self)@.store[exec_id@];
                    let touched = session_touched(old(self)@, buffer.session_id->0, now);
                    &&& poll_fault(old(self)@, exec_id@) is None
                    &&& match step {
                        PollStep::Ready(result) => {
                            &&& timed_out || has_news(buffer) || now >= deadline
                            &&& result@ == poll_result(exec_id@, buffer)
                            &&& texts(result.logs@) == buffer.logs
                            &&& result.done == buffer.done
                            &&& final(self)@ == (if timed_out || has_news(buffer) {
                                exec_polled(old(self)@, exec_id@)
                            } else {
                                exec_polled(touched, exec_id@)
                            })
                        },
                        PollStep::Wait(remaining) => {
                            &&& !timed_out && !has_news(buffer) && now < deadline
                            &&& remaining == deadline - now
                            &&& final(self)@ == touched
                        },
                    }
                },
            },
    {
        if timed_out {
            return match self.snapshot_exec(exec_id) {
                Ok(result) => Ok(PollStep::Ready(result)),
                Err(error) => Err(error),
            };
        }
        let (news, session_id) = match self.exec_store.get(exec_id) {
            Some(entry) => {
                let news = entry.logs.len() > 0 || entry.done;
                (news, copy_opt(&entry.session_id))
            },
            None => return Err(respond("js_repl exec id not found")),
        };
        let session_id = match session_id {
            Some(session_id) => session_id,
            None => return Err(respond("js_repl exec id is not pollable")),
        };
        if !news {
            self.touch_session(session_id.as_str(), now);
            if now < deadline {
                return Ok(PollStep::Wait(deadline - now));
            }
        }
        match self.snapshot_exec(exec_id) {
            Ok(result) => Ok(PollStep::Ready(result)),
            Err(error) => Err(error),
        }
    }
}

/// Code that came to an end can be polled again and again: what it gave back and what went wrong
/// stay the same, and its lines are given once.
pub proof fn lemma_poll_replayable(state: ManagerView, exec_id: Seq<char>)
    requires
        poll_fault(state, exec_id) is None,
        state.store[exec_id].done,
    ensures
        ({
            let after = exec_polled(state, exec_id);
            let first = poll_result(exec_id, state.store[exec_id]);
            let again = poll_result(exec_id, after.store[exec_id]);
            &&& poll_fault(after, exec_id) is None
            &&& has_news(after.store[exec_id])
            &&& again == (PollView { logs: Seq::empty(), ..first })
            &&& exec_polled(after, exec_id) == after
        }),
{
    let after = exec_polled(state, exec_id);
    assert(exec_polled(after, exec_id).store =~= after.store);
}

/// Code in a session can be polled whether or not it came to an end, and a poll gives all lines
/// that wait, in order, with what the code gave back, what went wrong and whether it came to an
/// end as they stand. What the poll takes out of the queue is what it gives, and nothing else
/// changes. There is something to give where a line waits or the code came to an end.
pub proof fn lemma_poll_gives_lines(state: ManagerView, exec_id: Seq<char>)
    ensures
        !state.store.contains_key(exec_id) ==> poll_fault(state, exec_id) == Some(
            "js_repl exec id not found"@,
        ),
        state.store.contains_key(exec_id) && state.store[exec_id].session_id is None ==> poll_fault(
            state,
            exec_id,
        ) == Some("js_repl exec id is not pollable"@),
        state.store.contains_key(exec_id) ==> (state.store[exec_id].session_id matches Some(
            session_id,
        ) ==> {
            let buffer = state.store[exec_id];
            let told = poll_result(exec_id, buffer);
            let after = exec_polled(state, exec_id);
            let left = after.store[exec_id];
            &&& poll_fault(state, exec_id) is None
            &&& told.exec_id == exec_id
            &&& told.session_id == session_id
            &&& told.logs + left.logs == buffer.logs
            &&& left.logs.len() == 0
            &&& !left.logs_truncated
            &&& told.output == buffer.output
            &&& told.error == buffer.error
            &&& told.done == buffer.done
            &&& buffer.logs.len() > 0 ==> has_news(buffer)
            &&& buffer.done ==> has_news(buffer)
            &&& buffer.logs.len() == 0 && !buffer.done ==> !has_news(buffer)
            &&& left.session_id == buffer.session_id
            &&& left.output == buffer.output
            &&& left.error == buffer.error
            &&& left.done == buffer.done
            &&& left.terminal_kind == buffer.terminal_kind
            &&& left.host_terminating == buffer.host_terminating
            &&& left.all_logs == buffer.all_logs
            &&& left.all_logs_truncated == buffer.all_logs_truncated
            &&& left.event_call_id == buffer.event_call_id
            &&& left.started_at == buffer.started_at
            &&& left.emitted_deltas == buffer.emitted_deltas
            &&& after.store.dom() == state.store.dom()
            &&& forall|other: Seq<char>|
                other != exec_id && state.store.contains_key(other)
                    ==> #[trigger] after.store[other] == state.store[other]
            &&& after.sessions == state.sessions
            &&& after.routes == state.routes
            &&& after.calls == state.calls
            &&& after.kernel == state.kernel
        }),
{
    if poll_fault(state, exec_id) is None {
        let after = exec_polled(state, exec_id);
        assert(after.store.dom() =~= state.store.dom());
    }
}

/// A poll that finds nothing counts as a use of the session: it keeps its kernel and what it runs,
/// and other sessions are left alone.
pub proof fn lemma_touched(state: ManagerView, session_id: Seq<char>, now: u64)
    ensures
        ({
            let after = session_touched(state, session_id, now);
            &&& after.sessions.dom() == state.sessions.dom()
            &&& state.sessions.contains_key(session_id) ==> {
                &&& after.sessions[session_id].last_used == now
                &&& after.sessions[session_id].kernel == state.sessions[session_id].kernel
                &&& after.sessions[session_id].active_exec == state.sessions[session_id].active_exec
            }
            &&& forall|other: Seq<char>|
                other != session_id && state.sessions.contains_key(other)
                    ==> #[trigger] after.sessions[other] == state.sessions[other]
            &&& after.store == state.store
            &&& after.routes == state.routes
            &&& after.calls == state.calls
            &&& after.kernel == state.kernel
        }),
{
    assert(session_touched(state, session_id, now).sessions.dom() =~= state.sessions.dom());
}

/// A session runs some code where it is there and that is the code it has.
pub proof fn lemma_runs(state: ManagerView, session_id: Seq<char>, exec_id: Seq<char>)
    ensures
        !state.sessions.contains_key(session_id) ==> !runs(state, session_id, exec_id),
        state.sessions.contains_key(session_id) ==> (runs(state, session_id, exec_id)
            <==> state.sessions[session_id].active_exec == Some(exec_id)),
{
}

} // verus!
