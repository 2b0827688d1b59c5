use codex_kit::sleep_inhibitor::child_exited;
use codex_kit::sleep_inhibitor::is_request;
use codex_kit::sleep_inhibitor::spawn_backend;
use codex_kit::sleep_inhibitor::wide_reason;
use codex_kit::sleep_inhibitor::ChildQuery;
use codex_kit::sleep_inhibitor::InhibitAction;
use codex_kit::sleep_inhibitor::InhibitWarning;
use codex_kit::sleep_inhibitor::IoErrorKind;
use codex_kit::sleep_inhibitor::LinuxBackend;
use codex_kit::sleep_inhibitor::LinuxSleepInhibitor;
use codex_kit::sleep_inhibitor::PowerOutcome;
use codex_kit::sleep_inhibitor::SpawnOutcome;
use codex_kit::sleep_inhibitor::WindowsSleepInhibitor;
use codex_kit::sleep_inhibitor::ASSERTION_REASON;

const SYSTEMD: LinuxBackend = LinuxBackend::SystemdInhibit;
const GNOME: LinuxBackend = LinuxBackend::GnomeSessionInhibit;
const RUNS: SpawnOutcome = SpawnOutcome::Spawned(ChildQuery::Running);
const ABSENT: SpawnOutcome = SpawnOutcome::NotSpawned(IoErrorKind::NotFound);

#[test]
fn helpers_are_run_with_their_arguments() {
    let systemd = spawn_backend(SYSTEMD);
    assert_eq!(systemd.program, "systemd-inhibit");
    assert_eq!(
        systemd.args,
        [
            "--what=idle",
            "--mode=block",
            "--who",
            "codex",
            "--why",
            "Codex is running an active turn",
            "--",
            "sleep",
            "2147483647",
        ]
    );
    let gnome = spawn_backend(GNOME);
    assert_eq!(gnome.program, "gnome-session-inhibit");
    assert_eq!(
        gnome.args,
        ["--inhibit", "idle", "--reason", ASSERTION_REASON, "sleep", "2147483647"]
    );
    assert!(child_exited(IoErrorKind::InvalidInput));
    assert!(!child_exited(IoErrorKind::NotFound));
    assert!(!child_exited(IoErrorKind::Other));
}

#[test]
fn the_first_helper_that_runs_is_kept() {
    let mut inhibitor = LinuxSleepInhibitor::new();
    assert_eq!(inhibitor.acquire().action, InhibitAction::Spawn(SYSTEMD));
    let step = inhibitor.backend_spawned(SYSTEMD, ABSENT);
    assert_eq!(step.action, InhibitAction::Spawn(GNOME));
    assert_eq!(step.warning, None);
    let step = inhibitor.backend_spawned(GNOME, RUNS);
    assert_eq!(step.action, InhibitAction::Done);
    assert_eq!(inhibitor.active, Some(GNOME));
    assert_eq!(inhibitor.acquire().action, InhibitAction::QueryChild);
    assert_eq!(inhibitor.child_queried(ChildQuery::Running).action, InhibitAction::Done);
    let failed = inhibitor.child_queried(ChildQuery::Failed);
    assert_eq!(failed.warning, Some(InhibitWarning::QueryFailed(GNOME)));
    assert_eq!(inhibitor.active, Some(GNOME));
    let exited = inhibitor.child_queried(ChildQuery::Exited);
    assert_eq!(exited.action, InhibitAction::Spawn(GNOME));
    assert_eq!(exited.warning, Some(InhibitWarning::ExitedUnexpectedly(GNOME)));
    assert_eq!(inhibitor.active, None);
    inhibitor.backend_spawned(GNOME, RUNS);
    assert_eq!(inhibitor.release(), Some(GNOME));
    assert_eq!(inhibitor.release(), None);
    assert_eq!(inhibitor.acquire().action, InhibitAction::Spawn(GNOME));
}

#[test]
fn missing_helpers_are_logged_once() {
    let mut inhibitor = LinuxSleepInhibitor::new();
    let exited = SpawnOutcome::Spawned(ChildQuery::Exited);
    let refused = SpawnOutcome::NotSpawned(IoErrorKind::Other);
    let unknown = SpawnOutcome::Spawned(ChildQuery::Failed);
    let first = inhibitor.backend_spawned(SYSTEMD, exited);
    assert_eq!(first.warning, Some(InhibitWarning::ExitedImmediately(SYSTEMD)));
    let second = inhibitor.backend_spawned(GNOME, refused);
    assert_eq!(second.warning, Some(InhibitWarning::SpawnFailed(GNOME)));
    assert!(second.none_available);
    assert_eq!(second.action, InhibitAction::Done);
    assert!(inhibitor.missing_backend_logged);
    assert_eq!(inhibitor.acquire().action, InhibitAction::Spawn(SYSTEMD));
    assert_eq!(inhibitor.backend_spawned(SYSTEMD, unknown).warning, None);
    let again = inhibitor.backend_spawned(GNOME, refused);
    assert_eq!((again.warning, again.none_available), (None, false));
    inhibitor.backend_spawned(SYSTEMD, RUNS);
    assert!(!inhibitor.missing_backend_logged);
    inhibitor.release();
    assert_eq!(
        inhibitor.backend_spawned(SYSTEMD, unknown).warning,
        Some(InhibitWarning::QueryAfterSpawnFailed(SYSTEMD))
    );
}

#[test]
fn one_request_keeps_the_machine_awake() {
    let mut inhibitor = WindowsSleepInhibitor::new();
    assert!(inhibitor.acquire());
    assert_eq!(
        inhibitor.requested(&PowerOutcome::NotCreated("no".to_string())).as_deref(),
        Some("PowerCreateRequest failed: no")
    );
    assert_eq!(
        inhibitor.requested(&PowerOutcome::NotSet("no".to_string())).as_deref(),
        Some("PowerSetRequest failed: no")
    );
    assert!(inhibitor.acquire());
    assert_eq!(inhibitor.requested(&PowerOutcome::Granted), None);
    assert!(!inhibitor.acquire());
    assert!(inhibitor.release());
    assert!(!inhibitor.release());
    assert!(is_request(4) && !is_request(0) && !is_request(-1));
}

#[test]
fn reasons_are_written_in_utf_16() {
    for text in ["", ASSERTION_REASON, "é\u{ffff}🙂\u{10ffff}"] {
        let expected: Vec<u16> = text.encode_utf16().chain([0]).collect();
        assert_eq!(wide_reason(text), expected);
    }
}
