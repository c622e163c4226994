use urwtest_rs::console::{Message, Style};
use urwtest_rs::engine::pass::WritePassResult;
use urwtest_rs::engine::preparation::{prepare_manifest, Removal};
use urwtest_rs::engine::recovery::{records_fit, with_files};
use urwtest_rs::engine::session::{Session, SessionAction, SessionEvent, Stage};
use urwtest_rs::engine::verifying::{VerifyFailure, VerifyPassResult};
use urwtest_rs::engine::{
    run_test, seed_for, verify_test, EngineError, FileRecord, RunOptions, VerifyOptions,
    FAT_CHUNK_SIZE,
};
use urwtest_rs::manifest::{make_test_file_name, StateStatus, TestFile, TestState};
use urwtest_rs::types::{CleanupMode, VerifyMode};
use urwtest_rs::volume::{VolumeInfo, VolumeKind};

fn volume() -> VolumeInfo {
    VolumeInfo {
        mount_point: "/mnt/usb".to_string(),
        device: Some("/dev/sdb1".to_string()),
        fs: "vfat".to_string(),
        total_bytes: 8_000_000_000,
        free_bytes: 7_000_000_000,
        kind: VolumeKind::Removable,
        label: None,
    }
}

fn run_options(passes: u32, verify: VerifyMode) -> RunOptions {
    RunOptions {
        target: "/mnt/usb".to_string(),
        volume: volume(),
        passes,
        verify,
        delay: None,
        stop_on_fail: false,
        cleanup: CleanupMode::OnSuccess,
        force: false,
        progress: false,
    }
}

fn verify_options() -> VerifyOptions {
    VerifyOptions {
        target: "/mnt/usb".to_string(),
        volume: volume(),
        stop_on_fail: false,
        cleanup: CleanupMode::OnSuccess,
        progress: false,
    }
}

fn file(pass: u32, total: u32, index: u32, size: u64) -> TestFile {
    TestFile {
        name: make_test_file_name(pass, total, index, 7),
        pass,
        total_passes: total,
        index,
        seed: 7,
        actual_size: size,
    }
}

fn record(file: TestFile) -> FileRecord {
    FileRecord { expected_size: file.actual_size, file, verified: false, passed: None }
}

fn state(status: StateStatus, completed: u32, total: u32) -> TestState {
    let mut state = TestState::new(&volume(), total, false, CleanupMode::Always, 5);
    state.status = status;
    state.completed_passes = completed;
    state.current_pass = completed + 1;
    state
}

fn lines(messages: &[Message]) -> Vec<(Style, &str)> {
    messages.iter().map(|m| (m.style, m.text.as_str())).collect()
}

fn written(pass: u32, total: u32, capacity_ok: bool) -> SessionEvent {
    SessionEvent::Written(WritePassResult {
        files: vec![record(file(pass, total, 0, 10)), record(file(pass, total, 1, 5))],
        expected_total: 20,
        actual_total: 15,
        capacity_ok,
    })
}

fn verified(session: &Session, good: bool) -> SessionEvent {
    let mut pass = session.verification();
    while let Some(index) = pass.current() {
        let verdict =
            if good || index > 0 { Ok(()) } else { Err(VerifyFailure::Mismatch { offset: 0 }) };
        pass.record(verdict);
    }
    SessionEvent::Verified(pass.finish())
}

/// Runs a session on a device that works or fails, and lists the actions.
fn play(session: &mut Session, capacity_ok: bool, good: bool) -> Vec<SessionAction> {
    let mut actions = Vec::new();
    loop {
        let action = session.action();
        if action == SessionAction::Finish {
            return actions;
        }
        actions.push(action);
        let event = match action {
            SessionAction::Write(pass) => written(pass, session.data().state.total_passes, capacity_ok),
            SessionAction::Verify => verified(session, good),
            _ => SessionEvent::Done,
        };
        assert!(session.accepts(&event));
        session.step(event);
    }
}

#[test]
fn a_new_test_starts_without_removing_anything() {
    let prepared = prepare_manifest(&run_options(0, VerifyMode::Immediate), None, false, 9).unwrap();
    assert_eq!(prepared.removal, Removal::Nothing);
    assert_eq!(prepared.state.total_passes, 1);
    assert_eq!((prepared.state.completed_passes, prepared.state.created_unix), (0, 9));
}

#[test]
fn existing_tests_are_refused_without_force() {
    let options = run_options(2, VerifyMode::Immediate);
    assert!(matches!(
        prepare_manifest(&options, None, true, 0),
        Err(EngineError::TestFilesExist(_))
    ));
    for status in [StateStatus::Writing, StateStatus::Verifying] {
        assert!(matches!(
            prepare_manifest(&options, Some(state(status, 0, 2)), false, 0),
            Err(EngineError::InterruptedExists(_))
        ));
    }
    assert!(matches!(
        prepare_manifest(&options, Some(state(StateStatus::PendingVerify, 0, 2)), true, 0),
        Err(EngineError::PendingExists(_))
    ));
    assert!(matches!(
        prepare_manifest(&options, Some(state(StateStatus::Completed, 2, 2)), true, 0),
        Err(EngineError::CompletedExists(_))
    ));
    assert!(matches!(
        prepare_manifest(&options, Some(state(StateStatus::Failed, 0, 2)), true, 0),
        Err(EngineError::FailedExists(_))
    ));
    assert!(matches!(
        prepare_manifest(&options, Some(state(StateStatus::PassComplete, 2, 2)), true, 0),
        Err(EngineError::AllPassesComplete)
    ));
}

#[test]
fn force_discards_whatever_is_there() {
    let mut options = run_options(4, VerifyMode::Immediate);
    options.force = true;
    for status in [
        StateStatus::Writing,
        StateStatus::PendingVerify,
        StateStatus::Verifying,
        StateStatus::PassComplete,
        StateStatus::Completed,
        StateStatus::Failed,
    ] {
        let prepared = prepare_manifest(&options, Some(state(status, 1, 2)), false, 3).unwrap();
        assert_eq!(prepared.removal, Removal::Everything);
        assert_eq!(prepared.state.total_passes, 4);
        assert_eq!(prepared.state.completed_passes, 0);
    }
    let prepared = prepare_manifest(&options, None, true, 3).unwrap();
    assert_eq!(prepared.removal, Removal::Everything);
    let prepared = prepare_manifest(&options, None, false, 3).unwrap();
    assert_eq!(prepared.removal, Removal::Nothing);
}

#[test]
fn a_completed_pass_is_continued() {
    let mut options = run_options(9, VerifyMode::Immediate);
    options.stop_on_fail = true;
    options.cleanup = CleanupMode::Never;
    let prepared =
        prepare_manifest(&options, Some(state(StateStatus::PassComplete, 1, 3)), false, 0).unwrap();
    assert_eq!(prepared.removal, Removal::Files);
    assert_eq!((prepared.state.completed_passes, prepared.state.total_passes), (1, 3));
    assert!(prepared.state.stop_on_fail);
    assert_eq!(prepared.state.cleanup, CleanupMode::Never);
}

#[test]
fn a_good_test_goes_through_all_passes() {
    let mut session = run_test(&run_options(2, VerifyMode::Immediate), None, false, 1).unwrap();
    assert_eq!(session.data().stage, Stage::SavingStart);
    assert_eq!(session.data().state.status, StateStatus::Writing);
    let actions = play(&mut session, true, true);
    assert_eq!(
        actions,
        vec![
            SessionAction::Save,
            SessionAction::Write(1),
            SessionAction::Save,
            SessionAction::Verify,
            SessionAction::Save,
            SessionAction::RemoveFiles,
            SessionAction::Save,
            SessionAction::Write(2),
            SessionAction::Save,
            SessionAction::Verify,
            SessionAction::Save,
            SessionAction::Discard,
        ]
    );
    assert_eq!(session.data().state.status, StateStatus::Completed);
    let report = &session.data().report;
    assert!(report.success && report.capacity_ok && !report.pending_verify);
    assert_eq!((report.passes_completed, report.passes_total), (2, 2));
    assert_eq!((report.files_passed, report.files_failed, report.files_total), (4, 0, 4));
    assert_eq!((report.expected_total, report.actual_total), (20, 15));
}

#[test]
fn a_bad_file_fails_the_test() {
    for (cleanup, discards) in
        [(CleanupMode::Always, true), (CleanupMode::OnSuccess, false), (CleanupMode::Never, false)]
    {
        let mut options = run_options(3, VerifyMode::Immediate);
        options.cleanup = cleanup;
        let mut session = run_test(&options, None, false, 1).unwrap();
        let actions = play(&mut session, true, false);
        assert_eq!(actions.last() == Some(&SessionAction::Discard), discards);
        assert_eq!(session.data().state.status, StateStatus::Failed);
        assert_eq!(session.data().state.last_error.as_deref(), Some("verification failed"));
        assert_eq!(session.data().state.completed_passes, 0);
        assert!(!session.data().report.success);
        assert_eq!((session.data().report.files_passed, session.data().report.files_failed), (1, 1));
        assert_eq!(session.data().report.failed_files, vec![make_test_file_name(1, 3, 0, 7)]);
    }
}

#[test]
fn a_missing_capacity_fails_the_test() {
    let mut session = run_test(&run_options(1, VerifyMode::Immediate), None, false, 1).unwrap();
    play(&mut session, false, true);
    assert_eq!(session.data().state.status, StateStatus::Failed);
    assert_eq!(session.data().state.last_error.as_deref(), Some("capacity shortfall"));
    assert!(!session.data().report.success && !session.data().report.capacity_ok);
    assert_eq!(session.data().report.files_failed, 0);
}

#[test]
fn files_are_kept_where_that_is_wanted() {
    let mut options = run_options(1, VerifyMode::Immediate);
    options.cleanup = CleanupMode::Never;
    let mut session = run_test(&options, None, false, 1).unwrap();
    let actions = play(&mut session, true, true);
    assert!(!actions.contains(&SessionAction::Discard));
    assert!(session.data().report.success);
}

#[test]
fn old_data_is_removed_first() {
    let mut options = run_options(1, VerifyMode::Immediate);
    options.force = true;
    let mut session = run_test(&options, None, true, 1).unwrap();
    assert_eq!(session.action(), SessionAction::Discard);
    session.step(SessionEvent::Done);
    assert_eq!(session.action(), SessionAction::Save);

    let options = run_options(1, VerifyMode::Immediate);
    let session =
        run_test(&options, Some(state(StateStatus::PassComplete, 1, 3)), true, 1).unwrap();
    assert_eq!(session.action(), SessionAction::RemoveFiles);
    assert_eq!(session.data().state.current_pass, 2);
}

#[test]
fn verification_can_wait() {
    let mut options = run_options(1, VerifyMode::Delay);
    options.delay = Some(30);
    let mut session = run_test(&options, None, false, 1).unwrap();
    assert_eq!(
        lines(&session.step(SessionEvent::Done)),
        vec![(Style::Info, "Pass 1/1: writing test data")]
    );
    assert!(session.step(written(1, 1, true)).is_empty());
    assert_eq!(
        lines(&session.step(SessionEvent::Done)),
        vec![(Style::Info, "Waiting 30 second(s) before verification...")]
    );
    assert_eq!(session.action(), SessionAction::Wait(30));
    session.step(SessionEvent::Done);
    assert_eq!(session.action(), SessionAction::Verify);

    let mut session = run_test(&run_options(1, VerifyMode::Delay), None, false, 1).unwrap();
    session.step(SessionEvent::Done);
    session.step(written(1, 1, true));
    session.step(SessionEvent::Done);
    assert_eq!(session.action(), SessionAction::Verify);
}

#[test]
fn verification_can_be_deferred_and_taken_up_again() {
    let mut session = run_test(&run_options(2, VerifyMode::Later), None, false, 1).unwrap();
    assert_eq!(
        lines(&session.step(SessionEvent::Done)),
        vec![(Style::Info, "Pass 1/2: writing test data (verification deferred)")]
    );
    session.step(written(1, 2, true));
    session.step(SessionEvent::Done);
    assert_eq!(session.action(), SessionAction::Finish);
    assert!(session.data().report.pending_verify && session.data().report.success);
    assert_eq!(session.data().state.status, StateStatus::PendingVerify);

    let files = vec![file(1, 2, 0, 10), file(1, 2, 1, 5)];
    let mut later = verify_test(&verify_options(), Some(session.data().state.clone()), &files, 2).unwrap();
    assert_eq!(later.data().report.files_total, 2);
    let actions = play(&mut later, true, true);
    assert_eq!(
        actions,
        vec![
            SessionAction::Save,
            SessionAction::Verify,
            SessionAction::Save,
            SessionAction::RemoveFiles
        ]
    );
    assert!(later.data().report.success);
    assert_eq!(later.data().state.status, StateStatus::PassComplete);
    assert_eq!(later.data().state.completed_passes, 1);

    let session = run_test(&run_options(9, VerifyMode::Immediate), Some(later.data().state.clone()), false, 3);
    let session = session.unwrap();
    assert_eq!((session.data().state.current_pass, session.data().state.total_passes), (2, 2));
}

#[test]
fn deferred_data_without_the_capacity_is_no_success() {
    let mut session = run_test(&run_options(1, VerifyMode::Later), None, false, 1).unwrap();
    session.step(SessionEvent::Done);
    session.step(written(1, 1, false));
    session.step(SessionEvent::Done);
    assert!(session.data().report.pending_verify && !session.data().report.success);
}

#[test]
fn only_pending_data_is_verified() {
    assert!(matches!(
        verify_test(&verify_options(), None, &[], 0),
        Err(EngineError::NoTestData(_))
    ));
    for status in [StateStatus::Writing, StateStatus::PassComplete, StateStatus::Failed] {
        match verify_test(&verify_options(), Some(state(status, 0, 1)), &[], 0) {
            Err(EngineError::NotPending(target, found)) => {
                assert_eq!((target.as_str(), found), ("/mnt/usb", status))
            }
            other => panic!("{:?}", other),
        }
    }
}

#[test]
fn a_lost_state_is_recovered_from_the_files() {
    let files = vec![file(2, 3, 0, 10), file(2, 3, 1, 5), file(3, 3, 0, 100)];
    let mut session = verify_test(&verify_options(), None, &files, 8).unwrap();
    let state = &session.data().state;
    assert_eq!((state.completed_passes, state.current_pass), (1, 2));
    assert_eq!(state.total_passes, 3);
    assert_eq!((state.expected_total, state.actual_total), (15, 15));
    assert_eq!(state.files.len(), 2);
    assert_eq!(session.data().report.files_total, 2);
    play(&mut session, true, true);
    assert!(session.data().report.success);
    assert_eq!(session.data().state.completed_passes, 2);
    assert_eq!(session.data().state.status, StateStatus::PassComplete);
}

#[test]
fn a_gap_in_the_files_is_noticed() {
    let files = vec![file(1, 1, 0, 10), file(1, 1, 3, 5), file(1, 1, 4, 5)];
    let session = verify_test(&verify_options(), None, &files, 8).unwrap();
    let records = &session.data().state.files;
    let indices: Vec<u32> = records.iter().map(|r| r.file.index).collect();
    assert_eq!(indices, vec![0, 2, 3, 4]);
    assert_eq!(records[1].file.name, make_test_file_name(1, 1, 2, seed_for(1, 2)));
    assert_eq!((records[1].file.seed, records[1].file.actual_size), (seed_for(1, 2), 0));
    assert_eq!(session.data().state.actual_total, 20);
}

/// A device that keeps files by name and verifies them.
fn verify_on(session: &Session, names: &[String]) -> SessionEvent {
    let mut pass = session.verification();
    while let Some(index) = pass.current() {
        let there = names.contains(&pass.data().files[index].file.name);
        let verdict =
            if there { Ok(()) } else { Err(VerifyFailure::CannotStat("gone".to_string())) };
        pass.record(verdict);
    }
    SessionEvent::Verified(pass.finish())
}

#[test]
fn missing_files_are_named_by_a_later_verification() {
    let mut run = run_test(&run_options(1, VerifyMode::Later), None, false, 1).unwrap();
    play(&mut run, true, true);
    let first = file(1, 1, 0, 10);
    let lost = file(1, 1, 1, 5).name;
    let state = run.data().state.clone();
    let mut session = verify_test(&verify_options(), Some(state), &[first.clone()], 8).unwrap();
    session.step(SessionEvent::Done);
    let event = verify_on(&session, &[first.name]);
    session.step(event);
    let data = session.data();
    assert_eq!(data.state.status, StateStatus::Failed);
    assert_eq!(data.state.last_error.as_deref(), Some("verification failed"));
    let report = &data.report;
    assert_eq!((report.files_total, report.files_passed, report.files_failed), (2, 1, 1));
    assert_eq!(report.failed_files, vec![lost]);
    assert!(!report.success);
}

#[test]
fn a_deferred_verification_reports_what_an_immediate_one_does() {
    // The last file could not be created: it is recorded, and not on the device.
    let result = || {
        SessionEvent::Written(WritePassResult {
            files: vec![record(file(1, 1, 0, 15)), record(file(1, 1, 1, 0))],
            expected_total: 20,
            actual_total: 15,
            capacity_ok: true,
        })
    };
    let names = [file(1, 1, 0, 15).name];

    let mut now = run_test(&run_options(1, VerifyMode::Immediate), None, false, 1).unwrap();
    now.step(SessionEvent::Done);
    now.step(result());
    now.step(SessionEvent::Done);
    let event = verify_on(&now, &names);
    now.step(event);

    let mut later = run_test(&run_options(1, VerifyMode::Later), None, false, 1).unwrap();
    later.step(SessionEvent::Done);
    later.step(result());
    later.step(SessionEvent::Done);
    assert_eq!(later.action(), SessionAction::Finish);
    later.touch(99);
    let found = [file(1, 1, 0, 15)];
    let mut check =
        verify_test(&verify_options(), Some(later.data().state.clone()), &found, 100).unwrap();
    check.step(SessionEvent::Done);
    let event = verify_on(&check, &names);
    check.step(event);

    assert_eq!(check.data().state.updated_unix, 99);
    assert_eq!(check.data().state.status, now.data().state.status);
    let (a, b) = (check.into_report(), now.into_report());
    assert_eq!((a.success, a.capacity_ok, a.pending_verify), (b.success, b.capacity_ok, false));
    assert_eq!((a.passes_completed, a.passes_total), (b.passes_completed, b.passes_total));
    assert_eq!((a.files_total, a.files_passed, a.files_failed), (2, 1, 1));
    assert_eq!((b.files_total, b.files_passed, b.files_failed), (2, 1, 1));
    assert_eq!(a.failed_files, b.failed_files);
    assert_eq!((a.expected_total, a.actual_total), (b.expected_total, b.actual_total));
}

#[test]
fn options_can_be_copied() {
    let options = run_options(3, VerifyMode::Later);
    let copy = options.clone();
    assert_eq!((copy.target, copy.passes, copy.verify), (options.target, 3, VerifyMode::Later));
    assert_eq!(copy.volume.device, options.volume.device);
    let options = verify_options();
    assert_eq!(options.clone().cleanup, options.cleanup);
}

#[test]
fn events_that_do_not_fit_are_not_accepted() {
    let mut session = run_test(&run_options(1, VerifyMode::Immediate), None, false, 1).unwrap();
    assert!(session.accepts(&SessionEvent::Done));
    assert!(!session.accepts(&written(1, 1, true)));
    session.step(SessionEvent::Done);
    assert!(!session.accepts(&SessionEvent::Done));
    assert!(session.accepts(&written(1, 1, true)));
    session.step(written(1, 1, true));
    session.step(SessionEvent::Done);
    assert_eq!(session.action(), SessionAction::Verify);
    let result = |sizes: &[u64], data_ok: bool, passed: u32, names: &[&str], failed: u32| {
        let files = sizes.iter().enumerate();
        SessionEvent::Verified(VerifyPassResult {
            files: files.map(|(i, &size)| record(file(1, 1, i as u32, size))).collect(),
            data_ok,
            passed,
            failed,
            failed_files: names.iter().map(|name| name.to_string()).collect(),
        })
    };
    assert!(session.accepts(&result(&[10, 5], true, 2, &[], 0)));
    assert!(session.accepts(&result(&[10, 5], false, 0, &["a"], 1)));
    assert!(!session.accepts(&result(&[10], true, 1, &[], 0)));
    assert!(!session.accepts(&result(&[10, 6], true, 2, &[], 0)));
    assert!(!session.accepts(&result(&[10, 5], true, 2, &["a"], 0)));
    assert!(!session.accepts(&result(&[10, 5], false, 1, &[], 1)));
    assert!(!session.accepts(&result(&[10, 5], true, 1, &[], 0)));
    assert!(!session.accepts(&result(&[10, 5], true, 1, &["a"], 1)));
    assert!(!session.accepts(&result(&[10, 5], false, 2, &[], 0)));
    assert!(!session.accepts(&result(&[10, 5], false, 2, &["a"], 1)));
    assert!(!session.accepts(&SessionEvent::Done));
}

#[test]
fn files_of_another_pass_are_not_accepted() {
    let mut session = run_test(&run_options(2, VerifyMode::Immediate), None, false, 1).unwrap();
    session.step(SessionEvent::Done);
    assert!(session.accepts(&written(1, 2, true)));
    assert!(!session.accepts(&written(2, 2, true)));
}

#[test]
fn a_session_starts_its_own_pass() {
    let mut session = run_test(&run_options(2, VerifyMode::Immediate), None, false, 1).unwrap();
    session.step(SessionEvent::Done);
    let writing = session.writing("vfat", 3 << 30).unwrap();
    assert_eq!((writing.data().pass, writing.data().total_passes), (1, 2));
    assert_eq!(writing.plan().size, FAT_CHUNK_SIZE);
    assert_eq!(
        session.writing("vfat", 1000).unwrap_err().message(),
        "not enough free space on /mnt/usb to start a test (1000 B available)"
    );
}

#[test]
fn a_state_without_its_files_gets_those_on_the_volume() {
    let files = vec![file(1, 2, 0, 10), file(2, 2, 0, 7), file(2, 2, 2, 5)];
    assert!(records_fit(&files, 2));
    let bare = state(StateStatus::PendingVerify, 1, 2);
    let complete = with_files(bare, &files);
    let indices: Vec<u32> = complete.files.iter().map(|r| r.file.index).collect();
    assert_eq!(indices, vec![0, 1, 2]);
    assert_eq!((complete.completed_passes, complete.status), (1, StateStatus::PendingVerify));
    let again = with_files(complete, &files[..1]);
    assert_eq!(again.files.len(), 3);
}
