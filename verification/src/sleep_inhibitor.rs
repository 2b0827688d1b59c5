//! Keeping the machine awake while a turn runs.

use vstd::prelude::*;

use crate::text::opt_text;
use crate::text::plus;
use crate::text::texts;

verus! {

/// What the system is told on why the machine stays awake.
pub const ASSERTION_REASON: &'static str = "Codex is running an active turn";

/// The name under which the system knows the program.
pub const APP_ID: &'static str = "codex";

/// For how long a helper keeps the machine awake, in seconds.
pub const BLOCKER_SLEEP_SECONDS: &'static str = "2147483647";

// ---------------------------------------------------------------------------------------------
// Helpers
// ---------------------------------------------------------------------------------------------

/// A helper program that keeps the machine awake while it runs.
#[derive(Clone, Copy, Debug, PartialEq, Eq, Structural)]
pub enum LinuxBackend {
    /// That of systemd.
    SystemdInhibit,
    /// That of GNOME.
    GnomeSessionInhibit,
}

/// A command.
#[derive(Clone, Debug, PartialEq, Eq)]
pub struct BackendCommand {
    /// The program.
    pub program: String,
    /// Its arguments.
    pub args: Vec<String>,
}

/// The program of a helper.
pub open spec fn backend_program(backend: LinuxBackend) -> Seq<char> {
    match backend {
        LinuxBackend::SystemdInhibit => "systemd-inhibit"@,
        LinuxBackend::GnomeSessionInhibit => "gnome-session-inhibit"@,
    }
}

/// The arguments of a helper.
pub open spec fn backend_args(backend: LinuxBackend) -> Seq<Seq<char>> {
    match backend {
        LinuxBackend::SystemdInhibit => seq![
            "--what=idle"@,
            "--mode=block"@,
            "--who"@,
            APP_ID@,
            "--why"@,
            ASSERTION_REASON@,
            "--"@,
            "sleep"@,
            BLOCKER_SLEEP_SECONDS@,
        ],
        LinuxBackend::GnomeSessionInhibit => seq![
            "--inhibit"@,
            "idle"@,
            "--reason"@,
            ASSERTION_REASON@,
            "sleep"@,
            BLOCKER_SLEEP_SECONDS@,
        ],
    }
}

/// The command that runs a helper.
pub fn spawn_backend(backend: LinuxBackend) -> (command: BackendCommand)
    ensures
        command.program@ == backend_program(backend),
        texts(command.args@) == backend_args(backend),
{
    match backend {
        LinuxBackend::SystemdInhibit => {
            let args = vec![
                "--what=idle".to_owned(),
                "--mode=block".to_owned(),
                "--who".to_owned(),
                APP_ID.to_owned(),
                "--why".to_owned(),
                ASSERTION_REASON.to_owned(),
                "--".to_owned(),
                "sleep".to_owned(),
                BLOCKER_SLEEP_SECONDS.to_owned(),
            ];
            assert(texts(args@) =~= backend_args(backend));
            BackendCommand { program: "systemd-inhibit".to_owned(), args }
        },
        LinuxBackend::GnomeSessionInhibit => {
            let args = vec![
                "--inhibit".to_owned(),
                "idle".to_owned(),
                "--reason".to_owned(),
                ASSERTION_REASON.to_owned(),
                "sleep".to_owned(),
                BLOCKER_SLEEP_SECONDS.to_owned(),
            ];
            assert(texts(args@) =~= backend_args(backend));
            BackendCommand { program: "gnome-session-inhibit".to_owned(), args }
        },
    }
}

/// What kind of error the system gave.
#[derive(Clone, Copy, Debug, PartialEq, Eq, Structural)]
pub enum IoErrorKind {
    /// There is no such file.
    NotFound,
    /// The input was invalid.
    InvalidInput,
    /// Any other.
    Other,
}

/// Whether an error says that a helper has ended already.
pub fn child_exited(error: IoErrorKind) -> (exited: bool)
    ensures
        exited == (error == IoErrorKind::InvalidInput),
{
    match error {
        IoErrorKind::InvalidInput => true,
        _ => false,
    }
}

// ---------------------------------------------------------------------------------------------
// Linux
// ---------------------------------------------------------------------------------------------

/// Keeps the machine awake with one of the helpers.
#[derive(Clone, Copy, Debug, PartialEq, Eq, Structural)]
pub struct LinuxSleepInhibitor {
    /// The helper that runs.
    pub active: Option<LinuxBackend>,
    /// The helper that ran last.
    pub preferred_backend: Option<LinuxBackend>,
    /// Whether it was logged that no helper runs.
    pub missing_backend_logged: bool,
}

/// How a helper stands.
#[derive(Clone, Copy, Debug, PartialEq, Eq, Structural)]
pub enum ChildQuery {
    /// It runs.
    Running,
    /// It ended.
    Exited,
    /// It could not be told.
    Failed,
}

/// What came of running a helper.
#[derive(Clone, Copy, Debug, PartialEq, Eq, Structural)]
pub enum SpawnOutcome {
    /// It runs, or has ended, or it could not be told.
    Spawned(ChildQuery),
    /// It could not be run.
    NotSpawned(IoErrorKind),
}

/// What is done next.
#[derive(Clone, Copy, Debug, PartialEq, Eq, Structural)]
pub enum InhibitAction {
    /// Nothing.
    Done,
    /// It is found out how the helper stands that runs.
    QueryChild,
    /// A helper is run.
    Spawn(LinuxBackend),
}

/// What is logged.
#[derive(Clone, Copy, Debug, PartialEq, Eq, Structural)]
pub enum InhibitWarning {
    /// The helper ended by itself.
    ExitedUnexpectedly(LinuxBackend),
    /// How the helper stands could not be told.
    QueryFailed(LinuxBackend),
    /// A helper ended as soon as it was run.
    ExitedImmediately(LinuxBackend),
    /// How a helper stands that was run could not be told.
    QueryAfterSpawnFailed(LinuxBackend),
    /// A helper could not be run.
    SpawnFailed(LinuxBackend),
}

/// What is done next, and what is logged.
#[derive(Clone, Copy, Debug, PartialEq, Eq, Structural)]
pub struct InhibitStep {
    /// What is done next.
    pub action: InhibitAction,
    /// What is logged.
    pub warning: Option<InhibitWarning>,
    /// Whether it is logged that no helper runs.
    pub none_available: bool,
}

/// The helper that is run first: the one that ran last.
pub open spec fn first_backend(preferred: Option<LinuxBackend>) -> LinuxBackend {
    match preferred {
        Some(backend) => backend,
        None => LinuxBackend::SystemdInhibit,
    }
}

/// The helper that is not some helper.
pub open spec fn other_backend(backend: LinuxBackend) -> LinuxBackend {
    match backend {
        LinuxBackend::SystemdInhibit => LinuxBackend::GnomeSessionInhibit,
        LinuxBackend::GnomeSessionInhibit => LinuxBackend::SystemdInhibit,
    }
}

/// What is logged where a helper does not run.
pub open spec fn spawn_warning(backend: LinuxBackend, outcome: SpawnOutcome) -> Option<
    InhibitWarning,
> {
    match outcome {
        SpawnOutcome::Spawned(ChildQuery::Running) => None,
        SpawnOutcome::Spawned(ChildQuery::Exited) => Some(
            InhibitWarning::ExitedImmediately(backend),
        ),
        SpawnOutcome::Spawned(ChildQuery::Failed) => Some(
            InhibitWarning::QueryAfterSpawnFailed(backend),
        ),
        SpawnOutcome::NotSpawned(IoErrorKind::NotFound) => None,
        SpawnOutcome::NotSpawned(_) => Some(InhibitWarning::SpawnFailed(backend)),
    }
}

/// A step that does nothing more.
pub open spec fn quiet(action: InhibitAction) -> InhibitStep {
    InhibitStep { action, warning: None, none_available: false }
}

/// How keeping the machine awake begins.
pub open spec fn acquiring(inhibitor: LinuxSleepInhibitor) -> InhibitStep {
    match inhibitor.active {
        Some(_) => quiet(InhibitAction::QueryChild),
        None => quiet(InhibitAction::Spawn(first_backend(inhibitor.preferred_backend))),
    }
}

/// How it goes on when it was found out how the helper stands.
pub open spec fn queried(inhibitor: LinuxSleepInhibitor, status: ChildQuery) -> (
    LinuxSleepInhibitor,
    InhibitStep,
) {
    match inhibitor.active {
        Some(backend) => match status {
            ChildQuery::Running => (inhibitor, quiet(InhibitAction::Done)),
            ChildQuery::Failed => (
                inhibitor,
                InhibitStep {
                    action: InhibitAction::Done,
                    warning: Some(InhibitWarning::QueryFailed(backend)),
                    none_available: false,
                },
            ),
            ChildQuery::Exited => (
                LinuxSleepInhibitor { active: None, ..inhibitor },
                InhibitStep {
                    action: InhibitAction::Spawn(first_backend(inhibitor.preferred_backend)),
                    warning: Some(InhibitWarning::ExitedUnexpectedly(backend)),
                    none_available: false,
                },
            ),
        },
        None => (inhibitor, quiet(InhibitAction::Done)),
    }
}

/// How it goes on when a helper was run: where it does not run, the other is, and it is logged
/// once that none runs.
pub open spec fn spawned(
    inhibitor: LinuxSleepInhibitor,
    backend: LinuxBackend,
    outcome: SpawnOutcome,
) -> (LinuxSleepInhibitor, InhibitStep) {
    if outcome == SpawnOutcome::Spawned(ChildQuery::Running) {
        (
            LinuxSleepInhibitor {
                active: Some(backend),
                preferred_backend: Some(backend),
                missing_backend_logged: false,
            },
            quiet(InhibitAction::Done),
        )
    } else {
        let logs = !inhibitor.missing_backend_logged;
        let warning = if logs {
            spawn_warning(backend, outcome)
        } else {
            None
        };
        if backend == first_backend(inhibitor.preferred_backend) {
            (
                inhibitor,
                InhibitStep {
                    action: InhibitAction::Spawn(other_backend(backend)),
                    warning,
                    none_available: false,
                },
            )
        } else {
            (
                LinuxSleepInhibitor { missing_backend_logged: true, ..inhibitor },
                InhibitStep { action: InhibitAction::Done, warning, none_available: logs },
            )
        }
    }
}

impl LinuxSleepInhibitor {
    /// Nothing keeps the machine awake.
    pub fn new() -> (inhibitor: LinuxSleepInhibitor)
        ensures
            inhibitor == (LinuxSleepInhibitor {
                active: None,
                preferred_backend: None,
                missing_backend_logged: false,
            }),
    {
        LinuxSleepInhibitor {
            active: None,
            preferred_backend: None,
            missing_backend_logged: false,
        }
    }

    /// The helper that is run first.
    fn first_choice(&self) -> (backend: LinuxBackend)
        ensures
            backend == first_backend(self.preferred_backend),
    {
        match self.preferred_backend {
            Some(backend) => backend,
            None => LinuxBackend::SystemdInhibit,
        }
    }

    /// Begins to keep the machine awake.
    pub fn acquire(&self) -> (step: InhibitStep)
        ensures
            step == acquiring(*self),
    {
        let action = match self.active {
            Some(_) => InhibitAction::QueryChild,
            None => InhibitAction::Spawn(self.first_choice()),
        };
        InhibitStep { action, warning: None, none_available: false }
    }

    /// Takes in how the helper stands that runs.
    pub fn child_queried(&mut self, status: ChildQuery) -> (step: InhibitStep)
        ensures
            (*final(self), step) == queried(*old(self), status),
    {
        let backend = match self.active {
            Some(backend) => backend,
            None => return InhibitStep {
                action: InhibitAction::Done,
                warning: None,
                none_available: false,
            },
        };
        match status {
            ChildQuery::Running => InhibitStep {
                action: InhibitAction::Done,
                warning: None,
                none_available: false,
            },
            ChildQuery::Failed => InhibitStep {
                action: InhibitAction::Done,
                warning: Some(InhibitWarning::QueryFailed(backend)),
                none_available: false,
            },
            ChildQuery::Exited => {
                self.active = None;
                InhibitStep {
                    action: InhibitAction::Spawn(self.first_choice()),
                    warning: Some(InhibitWarning::ExitedUnexpectedly(backend)),
                    none_available: false,
                }
            },
        }
    }

    /// Takes in what came of running a helper.
    pub fn backend_spawned(&mut self, backend: LinuxBackend, outcome: SpawnOutcome) -> (step:
        InhibitStep)
        ensures
            (*final(self), step) == spawned(*old(self), backend, outcome),
    {
        let failure = match outcome {
            SpawnOutcome::Spawned(ChildQuery::Running) => {
                self.active = Some(backend);
                self.preferred_backend = Some(backend);
                self.missing_backend_logged = false;
                return InhibitStep {
                    action: InhibitAction::Done,
                    warning: None,
                    none_available: false,
                };
            },
            SpawnOutcome::Spawned(ChildQuery::Exited) => Some(
                InhibitWarning::ExitedImmediately(backend),
            ),
            SpawnOutcome::Spawned(ChildQuery::Failed) => Some(
                InhibitWarning::QueryAfterSpawnFailed(backend),
            ),
            SpawnOutcome::NotSpawned(IoErrorKind::NotFound) => None,
            SpawnOutcome::NotSpawned(_) => Some(InhibitWarning::SpawnFailed(backend)),
        };
        let logs = !self.missing_backend_logged;
        let warning = if logs {
            failure
        } else {
            None
        };
        if backend == self.first_choice() {
            let other = match backend {
                LinuxBackend::SystemdInhibit => LinuxBackend::GnomeSessionInhibit,
                LinuxBackend::GnomeSessionInhibit => LinuxBackend::SystemdInhibit,
            };
            InhibitStep { action: InhibitAction::Spawn(other), warning, none_available: false }
        } else {
            self.missing_backend_logged = true;
            InhibitStep { action: InhibitAction::Done, warning, none_available: logs }
        }
    }

    /// Keeps the machine awake no longer. The helper that runs is handed back, to be ended.
    pub fn release(&mut self) -> (ended: Option<LinuxBackend>)
        ensures
            ended == old(self).active,
            *final(self) == (LinuxSleepInhibitor { active: None, ..*old(self) }),
    {
        let ended = self.active;
        self.active = None;
        ended
    }
}

/// Keeping the machine awake runs each helper at most once, the one that ran last before the
/// other: where the first runs, it is the helper; where only the second does, that is; and where
/// none does, nothing keeps the machine awake, which is logged unless it was before.
pub proof fn lemma_acquire(
    inhibitor: LinuxSleepInhibitor,
    first: SpawnOutcome,
    second: SpawnOutcome,
)
    requires
        inhibitor.active is None,
    ensures
        ({
            let one = first_backend(inhibitor.preferred_backend);
            let other = other_backend(one);
            let running = SpawnOutcome::Spawned(ChildQuery::Running);
            let (after_one, step_one) = spawned(inhibitor, one, first);
            let (after_two, step_two) = spawned(after_one, other, second);
            &&& acquiring(inhibitor) == quiet(InhibitAction::Spawn(one))
            &&& first == running ==> step_one.action == InhibitAction::Done && after_one.active
                == Some(one) && after_one.preferred_backend == Some(one)
            &&& first != running ==> step_one.action == InhibitAction::Spawn(other)
                && after_one == inhibitor && step_two.action == InhibitAction::Done
            &&& first != running && second == running ==> after_two.active == Some(other)
                && after_two.preferred_backend == Some(other) && !after_two.missing_backend_logged
            &&& first != running && second != running ==> after_two.active is None
                && after_two.preferred_backend == inhibitor.preferred_backend
                && after_two.missing_backend_logged && step_two.none_available
                == !inhibitor.missing_backend_logged
        }),
{
}

/// While the helper runs, keeping the machine awake once more changes nothing.
pub proof fn lemma_acquire_again(inhibitor: LinuxSleepInhibitor)
    requires
        inhibitor.active is Some,
    ensures
        acquiring(inhibitor) == quiet(InhibitAction::QueryChild),
        queried(inhibitor, ChildQuery::Running) == (inhibitor, quiet(InhibitAction::Done)),
{
}

// ---------------------------------------------------------------------------------------------
// Windows
// ---------------------------------------------------------------------------------------------

/// Keeps the machine awake with a request to the system.
#[derive(Clone, Copy, Debug, PartialEq, Eq, Structural)]
pub struct WindowsSleepInhibitor {
    /// Whether there is a request.
    pub requested: bool,
}

/// What a character is in UTF-16.
pub open spec fn wide_char(ch: char) -> Seq<u16> {
    let code = ch as u32;
    if code < 0x10000 {
        seq![code as u16]
    } else {
        seq![
            (0xd800 + (code - 0x10000) / 0x400) as u16,
            (0xdc00 + (code - 0x10000) % 0x400) as u16,
        ]
    }
}

/// What a text is in UTF-16.
pub open spec fn wide(text: Seq<char>) -> Seq<u16>
    decreases text.len(),
{
    if text.len() == 0 {
        Seq::empty()
    } else {
        wide(text.drop_last()) + wide_char(text.last())
    }
}

/// A text in UTF-16, with a zero behind it.
pub fn wide_reason(reason: &str) -> (units: Vec<u16>)
    ensures
        units@ == wide(reason@).push(0u16),
{
    let mut units: Vec<u16> = Vec::new();
    assert(units@ =~= wide(reason@.take(0)));
    for ch in it: reason.chars()
        invariant
            it.seq() == reason@,
            units@ == wide(reason@.take(it.index())),
    {
        let ghost before = units@;
        proof {
            vstd::utf8::char_is_scalar(ch);
        }
        let code: u32 = ch as u32;
        if code < 0x10000 {
            units.push(code as u16);
        } else {
            let offset: u32 = code - 0x10000;
            units.push((0xd800 + offset / 0x400) as u16);
            units.push((0xdc00 + offset % 0x400) as u16);
        }
        proof {
            assert(reason@.take(it.index() + 1).drop_last() =~= reason@.take(it.index()));
            assert(reason@.take(it.index() + 1).last() == ch);
            assert(units@ =~= before + wide_char(ch));
        }
    }
    assert(reason@.take(reason@.len() as int) =~= reason@);
    units.push(0);
    units
}

/// Whether the system gave a request.
pub fn is_request(handle: i64) -> (given: bool)
    ensures
        given == (handle != 0 && handle != -1),
{
    handle != 0 && handle != -1
}

/// What came of asking the system to keep the machine awake.
#[derive(Clone, Debug, PartialEq, Eq)]
pub enum PowerOutcome {
    /// The system gave no request.
    NotCreated(String),
    /// The request could not be switched on: it is to be closed.
    NotSet(String),
    /// The request is on.
    Granted,
}

/// What is said where the machine is not kept awake; none where it is.
pub open spec fn power_fault(outcome: PowerOutcome) -> Option<Seq<char>> {
    match outcome {
        PowerOutcome::NotCreated(error) => Some("PowerCreateRequest failed: "@ + error@),
        PowerOutcome::NotSet(error) => Some("PowerSetRequest failed: "@ + error@),
        PowerOutcome::Granted => None,
    }
}

impl WindowsSleepInhibitor {
    /// Nothing keeps the machine awake.
    pub fn new() -> (inhibitor: WindowsSleepInhibitor)
        ensures
            !inhibitor.requested,
    {
        WindowsSleepInhibitor { requested: false }
    }

    /// Whether the system has to be asked to keep the machine awake.
    pub fn acquire(&self) -> (ask: bool)
        ensures
            ask == !self.requested,
    {
        !self.requested
    }

    /// Takes in what came of asking the system. What went wrong is handed back.
    pub fn requested(&mut self, outcome: &PowerOutcome) -> (fault: Option<String>)
        ensures
            opt_text(fault) == power_fault(*outcome),
            final(self).requested == (old(self).requested || *outcome is Granted),
    {
        match outcome {
            PowerOutcome::NotCreated(error) => Some(
                plus("PowerCreateRequest failed: ", error.as_str()),
            ),
            PowerOutcome::NotSet(error) => Some(plus("PowerSetRequest failed: ", error.as_str())),
            PowerOutcome::Granted => {
                self.requested = true;
                None
            },
        }
    }

    /// Keeps the machine awake no longer. Whether there was a request is handed back: if so, it is
    /// to be switched off and closed.
    pub fn release(&mut self) -> (ended: bool)
        ensures
            ended == old(self).requested,
            !final(self).requested,
    {
        let ended = self.requested;
        self.requested = false;
        ended
    }
}

/// A helper that ended is run again, or the one that ran last is, and that it ended is logged; one
/// of which it cannot be told is left alone, and that is logged too.
pub proof fn lemma_helper_ended(inhibitor: LinuxSleepInhibitor, backend: LinuxBackend)
    requires
        inhibitor.active == Some(backend),
    ensures
        ({
            let (after, step) = queried(inhibitor, ChildQuery::Exited);
            &&& after.active is None
            &&& after.preferred_backend == inhibitor.preferred_backend
            &&& after.missing_backend_logged == inhibitor.missing_backend_logged
            &&& step.warning == Some(InhibitWarning::ExitedUnexpectedly(backend))
            &&& !step.none_available
            &&& inhibitor.preferred_backend matches Some(last) ==> step.action
                == InhibitAction::Spawn(last)
            &&& inhibitor.preferred_backend is None ==> step.action == InhibitAction::Spawn(
                LinuxBackend::SystemdInhibit,
            )
        }),
        ({
            let (after, step) = queried(inhibitor, ChildQuery::Failed);
            &&& after == inhibitor
            &&& step.action == InhibitAction::Done
            &&& step.warning == Some(InhibitWarning::QueryFailed(backend))
            &&& !step.none_available
        }),
        acquiring(inhibitor).action == InhibitAction::QueryChild,
        acquiring(inhibitor).warning is None,
        !acquiring(inhibitor).none_available,
        queried(inhibitor, ChildQuery::Running).1.warning is None,
        !queried(inhibitor, ChildQuery::Running).1.none_available,
{
}

/// A helper that is not there is passed over in silence; any other that does not run is logged,
/// each for its own reason, unless it was logged before that none runs. The helper that ran last is
/// run first, and that of systemd where none did.
pub proof fn lemma_helper_failed(
    inhibitor: LinuxSleepInhibitor,
    backend: LinuxBackend,
    outcome: SpawnOutcome,
)
    requires
        outcome != SpawnOutcome::Spawned(ChildQuery::Running),
    ensures
        ({
            let (after, step) = spawned(inhibitor, backend, outcome);
            &&& after.active == inhibitor.active
            &&& after.preferred_backend == inhibitor.preferred_backend
            &&& inhibitor.missing_backend_logged ==> step.warning is None && !step.none_available
            &&& outcome == SpawnOutcome::NotSpawned(IoErrorKind::NotFound) ==> step.warning is None
            &&& !inhibitor.missing_backend_logged && outcome == SpawnOutcome::Spawned(
                ChildQuery::Exited,
            ) ==> step.warning == Some(InhibitWarning::ExitedImmediately(backend))
            &&& !inhibitor.missing_backend_logged && outcome == SpawnOutcome::Spawned(
                ChildQuery::Failed,
            ) ==> step.warning == Some(InhibitWarning::QueryAfterSpawnFailed(backend))
            &&& !inhibitor.missing_backend_logged && (outcome matches SpawnOutcome::NotSpawned(kind)
                && kind != IoErrorKind::NotFound) ==> step.warning == Some(
                InhibitWarning::SpawnFailed(backend),
            )
        }),
        inhibitor.preferred_backend matches Some(last) ==> first_backend(
            inhibitor.preferred_backend,
        ) == last,
        inhibitor.preferred_backend is None ==> first_backend(inhibitor.preferred_backend)
            == LinuxBackend::SystemdInhibit,
        other_backend(backend) != backend,
{
}

/// A text in UTF-16 is that of its parts one after another. A character is one unit with its own
/// number, or two from which its number can be told.
pub proof fn lemma_wide(text: Seq<char>, ch: char)
    ensures
        wide(text.push(ch)) == wide(text) + wide_char(ch),
        wide(Seq::<char>::empty()).len() == 0,
        (ch as u32) < 0x10000 ==> wide_char(ch).len() == 1 && wide_char(ch)[0] == ch as u32,
        (ch as u32) >= 0x10000 ==> {
            let units = wide_char(ch);
            &&& units.len() == 2
            &&& 0xd800 <= units[0] < 0xdc00
            &&& 0xdc00 <= units[1] < 0xe000
            &&& (units[0] - 0xd800) * 0x400 + (units[1] - 0xdc00) + 0x10000 == ch as u32
        },
{
    assert(text.push(ch).drop_last() =~= text);
    vstd::utf8::char_is_scalar(ch);
}

/// A helper keeps the machine from idling, says why, and does so until it is ended.
pub proof fn lemma_helper_commands(backend: LinuxBackend)
    ensures
        backend == LinuxBackend::SystemdInhibit ==> backend_program(backend) == "systemd-inhibit"@
            && backend_args(backend)[0] == "--what=idle"@ && backend_args(backend)[1]
            == "--mode=block"@,
        backend == LinuxBackend::GnomeSessionInhibit ==> backend_program(backend)
            == "gnome-session-inhibit"@ && backend_args(backend)[0] == "--inhibit"@
            && backend_args(backend)[1] == "idle"@,
        backend_args(backend).contains("Codex is running an active turn"@),
        backend_args(backend)[backend_args(backend).len() - 2] == "sleep"@,
        backend_args(backend).last() == "2147483647"@,
{
    match backend {
        LinuxBackend::SystemdInhibit => {
            assert(backend_args(backend)[5] == "Codex is running an active turn"@);
        },
        LinuxBackend::GnomeSessionInhibit => {
            assert(backend_args(backend)[3] == "Codex is running an active turn"@);
        },
    }
}

} // verus!
