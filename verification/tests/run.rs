use nami::decision::{RefuseReason, SchedulingDecision};
use nami::program::{
    exit_code, launch, record_cancelled, record_outcome, resolve_program, supervise_step, Launch, SupervisorAction,
    SupervisorEvent,
};

fn is_executable(p: &str) -> bool {
    std::path::Path::new(p).is_file()
}

#[test]
fn resolves_absolute_path_to_real_binary() {
    assert!(resolve_program("/bin/sh", None, is_executable).is_ok());
}

#[test]
fn rejects_missing_absolute_path() {
    assert!(resolve_program("/no/such/binary-xyz", None, is_executable).is_err());
}

#[test]
fn rejects_directory_as_program() {
    assert!(resolve_program("/bin", None, is_executable).is_err());
}

#[test]
fn finds_bare_name_on_path() {
    assert!(resolve_program("sh", Some("/usr/bin:/bin"), is_executable).is_ok());
}

#[test]
fn bare_name_not_on_path_fails() {
    assert!(resolve_program("definitely-not-a-real-cmd-xyz", Some("/bin"), is_executable).is_err());
}

#[test]
fn bare_name_without_path_env_fails() {
    assert!(resolve_program("sh", None, is_executable).is_err());
}

#[test]
fn empty_program_is_refused_with_message() {
    let e = resolve_program("", Some("/bin"), is_executable).unwrap_err();
    assert_eq!(e.message(), "empty command");
}

#[test]
fn candidates_skip_empty_path_fields_in_order() {
    let c = nami::program::candidates_on_path("sh", "/a::/b/");
    assert_eq!(c, vec!["/a/sh".to_string(), "/b/sh".to_string()]);
}

#[test]
fn signal_terminated_status_maps_to_128_plus_signal() {
    assert_eq!(exit_code(None, Some(15)), 128 + 15);
}

#[test]
fn normal_exit_code_is_propagated() {
    assert_eq!(exit_code(Some(42), None), 42);
}

#[test]
fn first_forwarded_signal_starts_the_grace_period() {
    let (running, action) = supervise_step(false, SupervisorEvent::Signal(2));
    assert!(running);
    assert_eq!(action, SupervisorAction::Forward { signal: 2, start_grace: true });
    let (running, action) = supervise_step(true, SupervisorEvent::Signal(15));
    assert!(running);
    assert_eq!(action, SupervisorAction::Forward { signal: 15, start_grace: false });
}

#[test]
fn grace_running_out_kills_and_exit_finishes() {
    assert_eq!(supervise_step(true, SupervisorEvent::GraceElapsed), (false, SupervisorAction::Kill));
    assert_eq!(supervise_step(true, SupervisorEvent::ChildExited), (true, SupervisorAction::Finish));
    assert_eq!(supervise_step(false, SupervisorEvent::ChildExited), (false, SupervisorAction::Finish));
}

fn report() -> nami::run_report::RunReport {
    let date = time::Date::from_calendar_date(2026, time::Month::May, 20).unwrap();
    let now = time::OffsetDateTime::new_utc(date, time::Time::from_hms(6, 0, 0).unwrap()).unix_timestamp_nanos();
    let h: i128 = 3_600_000_000_000;
    nami::preview::assemble(
        Some(nami::region::Region::Caiso),
        vec!["true".to_string()],
        h,
        now + 12 * h,
        0,
        now,
        nami::preview::CacheState::Missing,
        8,
        None,
        nami::cache::Intensity { bits: 250.0f64.to_bits() },
    )
    .unwrap()
}

#[test]
fn launch_follows_the_decision() {
    let r = report();
    assert_eq!(launch(&r.decision, 42), Launch::At(42));
    assert_eq!(launch(&SchedulingDecision::Refuse { reason: RefuseReason::NoWindowBeforeDeadline }, 42), Launch::Exit(1));
}

#[test]
fn cancelled_wait_is_recorded_and_exits_zero() {
    let mut r = report();
    let n = r.warnings.len();
    assert_eq!(record_cancelled(&mut r), 0);
    assert_eq!(r.warnings.len(), n + 1);
    assert_eq!(
        r.warnings[n],
        "Schedule cancelled by SIGINT during the wait phase; the command was not started."
    );
    assert_eq!(r.started_at, None);
}

#[test]
fn finished_run_records_times_and_code() {
    let mut r = report();
    assert_eq!(record_outcome(&mut r, 1_000, 4_000, Some(3), None), 3);
    assert_eq!((r.started_at, r.finished_at, r.wall_duration, r.exit_code), (Some(1_000), Some(4_000), Some(3_000), Some(3)));
    assert_eq!(record_outcome(&mut r, 1_000, 2_000, None, Some(15)), 143);
    assert_eq!(r.exit_code, Some(143));
}
