use urwtest_rs::cli::{
    exit_code, list_report, status_report, status_summary, Cli, CliError, Commands, RunArgs,
    StatusArgs, StatusSummary, Task, VerifyArgs,
};
use urwtest_rs::console::{Console, Message, Style};
use urwtest_rs::engine::TestReport;
use urwtest_rs::interactive::{
    answer_target, answer_u32, answer_u64, answer_yes_no, Dialogue, DialogueAction, DialogueEvent,
    DialogueStage, InteractiveError, TargetAnswer,
};
use urwtest_rs::manifest::{make_test_file_name, StateStatus, TestFile, TestState};
use urwtest_rs::types::{CleanupMode, ColorMode, VerifyMode};
use urwtest_rs::volume::{VolumeInfo, VolumeKind};

fn volume(mount_point: &str) -> VolumeInfo {
    VolumeInfo {
        mount_point: mount_point.to_string(),
        device: None,
        fs: "vfat".to_string(),
        total_bytes: 10,
        free_bytes: 5,
        kind: VolumeKind::Fixed,
        label: None,
    }
}

fn console() -> Console {
    Console::new(ColorMode::Never, false)
}

fn lines(messages: &[Message]) -> Vec<(Style, &str)> {
    messages.iter().map(|m| (m.style, m.text.as_str())).collect()
}

fn line(text: &str) -> DialogueEvent {
    DialogueEvent::Line(text.to_string())
}

/// A dialogue in which the second volume was chosen and looked up.
fn chosen(state: Option<TestState>) -> (Dialogue, Vec<Message>) {
    let volumes = vec![volume("/a"), volume("/b")];
    let (mut dialogue, _) = Dialogue::new(volumes, &console(), true).ok().unwrap();
    dialogue.step(line("2\n"));
    assert_eq!(dialogue.action(), DialogueAction::Find);
    assert_eq!(dialogue.data().target, "/b");
    dialogue.step(DialogueEvent::Found(Some(volume("/b"))));
    assert_eq!(dialogue.action(), DialogueAction::Load);
    let messages = dialogue.step(DialogueEvent::Loaded(state));
    (dialogue, messages)
}

fn state(status: StateStatus) -> TestState {
    let mut state = TestState::new(&volume("/b"), 3, false, CleanupMode::OnSuccess, 0);
    state.status = status;
    state
}

fn report(success: bool, completed: u32, total: u32) -> TestReport {
    let mut report = TestReport::new("/b");
    report.success = success;
    report.passes_completed = completed;
    report.passes_total = total;
    report.capacity_ok = true;
    report
}

#[test]
fn answers_to_yes_or_no() {
    for (text, default, answer) in [
        ("", true, Some(true)),
        (" \r\n", false, Some(false)),
        ("y", false, Some(true)),
        (" YES\n", false, Some(true)),
        ("n\n", true, Some(false)),
        ("No", true, Some(false)),
        ("yep", true, None),
        ("1", true, None),
    ] {
        assert_eq!(answer_yes_no(text, default), answer, "{:?}", text);
    }
}

#[test]
fn answers_with_numbers() {
    assert_eq!(answer_u32("\n", 1), Some(1));
    assert_eq!(answer_u32(" 12 \n", 1), Some(12));
    assert_eq!(answer_u32("0", 1), None);
    assert_eq!(answer_u32("-1", 1), None);
    assert_eq!(answer_u32("4294967296", 1), None);
    assert_eq!(answer_u32("4294967295", 1), Some(u32::MAX));
    assert_eq!(answer_u64("", 5), Some(5));
    assert_eq!(answer_u64("0", 5), Some(0));
    assert_eq!(answer_u64("18446744073709551615", 5), Some(u64::MAX));
    assert_eq!(answer_u64("x", 5), None);
}

#[test]
fn answers_with_a_target() {
    assert!(matches!(answer_target(" \n", 2), TargetAnswer::Empty));
    assert!(matches!(answer_target("1\n", 2), TargetAnswer::Volume(0)));
    assert!(matches!(answer_target("+2", 2), TargetAnswer::Volume(1)));
    assert!(matches!(answer_target("0", 2), TargetAnswer::Invalid));
    assert!(matches!(answer_target("3", 2), TargetAnswer::Invalid));
    match answer_target(" /mnt/my disk\n", 2) {
        TargetAnswer::Path(path) => assert_eq!(path, "/mnt/my disk"),
        other => panic!("{:?}", other),
    }
    assert!(matches!(answer_target("99999999999999999999999", 2), TargetAnswer::Path(_)));
}

#[test]
fn a_dialogue_needs_volumes() {
    let error = Dialogue::new(Vec::new(), &console(), true).err().unwrap();
    assert_eq!(error.message(), "no testable mounted volumes found");
    assert_eq!(InteractiveError::InputClosed.message(), "standard input closed");

    let (dialogue, messages) = Dialogue::new(vec![volume("/a")], &console(), true).ok().unwrap();
    let shown = lines(&messages);
    assert_eq!(shown[0], (Style::Plain, "Available volumes:"));
    assert_eq!(shown.len(), 5);
    assert_eq!(shown[4], (Style::Plain, ""));
    assert_eq!(dialogue.prompt(), "Enter volume number or path: ");
}

#[test]
fn a_target_is_asked_for_until_it_is_one() {
    let volumes = vec![volume("/a")];
    let (mut dialogue, _) = Dialogue::new(volumes, &console(), true).ok().unwrap();
    assert!(dialogue.step(line("\n")).is_empty());
    assert_eq!(
        lines(&dialogue.step(line("7"))),
        vec![(Style::Error, "Invalid volume number.")]
    );
    assert_eq!(dialogue.action(), DialogueAction::Ask);
    assert!(dialogue.step(line("/nowhere")).is_empty());
    assert_eq!(dialogue.action(), DialogueAction::Find);
    assert_eq!(
        lines(&dialogue.step(DialogueEvent::Found(None))),
        vec![(Style::Error, "/nowhere is not a mounted volume root.")]
    );
    assert_eq!(dialogue.data().stage, DialogueStage::Target);

    dialogue.step(line("1"));
    assert!(dialogue.step(DialogueEvent::Found(None)).is_empty());
    assert_eq!(dialogue.action(), DialogueAction::Fail);
    assert_eq!(dialogue.error().message(), "/a is not a mounted volume root");
}

#[test]
fn a_new_test_is_described_by_answers() {
    let (mut dialogue, messages) = chosen(None);
    assert!(messages.is_empty());
    assert_eq!(dialogue.prompt(), "Enter pass count [1] ");
    assert_eq!(
        lines(&dialogue.step(line("none"))),
        vec![(Style::Error, "Please enter a positive integer.")]
    );
    dialogue.step(line("4"));
    assert_eq!(dialogue.prompt(), "Write then verify immediately? [Y/n] ");
    assert_eq!(
        lines(&dialogue.step(line("perhaps"))),
        vec![(Style::Error, "Please answer y or n.")]
    );
    dialogue.step(line("n"));
    assert_eq!(dialogue.prompt(), "Enter delay seconds (0 = exit and verify later) [0] ");
    assert_eq!(
        lines(&dialogue.step(line("-3"))),
        vec![(Style::Error, "Please enter a non-negative integer.")]
    );
    dialogue.step(line("60"));
    assert_eq!(dialogue.prompt(), "Stop on first failure? [Y/n] ");
    dialogue.step(line("n"));
    assert_eq!(dialogue.prompt(), "Keep test files after verification? [y/N] ");
    let messages = dialogue.step(line("y"));
    assert_eq!(
        lines(&messages),
        vec![
            (Style::Plain, ""),
            (Style::Plain, "Target: /b"),
            (Style::Plain, "Passes: 4"),
            (Style::Plain, "Verify: after delay"),
            (Style::Plain, "Delay: 60 second(s)"),
            (Style::Plain, "On failure: continue"),
            (Style::Plain, "Test files: keep"),
        ]
    );
    assert_eq!(dialogue.prompt(), "Start test? [Y/n] ");
    dialogue.step(line(""));
    assert_eq!(dialogue.action(), DialogueAction::Run);
    let options = dialogue.run_options();
    assert_eq!((options.target.as_str(), options.passes), ("/b", 4));
    assert_eq!((options.verify, options.delay), (VerifyMode::Delay, Some(60)));
    assert!(!options.stop_on_fail && !options.force && options.progress);
    assert_eq!(options.cleanup, CleanupMode::Never);
    dialogue.step(DialogueEvent::Reported(report(true, 4, 4)));
    assert_eq!(dialogue.action(), DialogueAction::Finish);
}

#[test]
fn the_defaults_make_a_test_too() {
    let (mut dialogue, _) = chosen(None);
    for _ in 0..3 {
        dialogue.step(line("\n"));
    }
    let messages = dialogue.step(line("\n"));
    assert_eq!(
        lines(&messages)[3..],
        [
            (Style::Plain, "Verify: immediate"),
            (Style::Plain, "On failure: stop immediately"),
            (Style::Plain, "Test files: remove on success"),
        ]
    );
    dialogue.step(line("y"));
    let options = dialogue.run_options();
    assert_eq!((options.passes, options.verify), (1, VerifyMode::Immediate));
    assert!(options.stop_on_fail);
    assert_eq!(options.cleanup, CleanupMode::OnSuccess);
}

#[test]
fn a_deferred_verification_is_announced() {
    let (mut dialogue, _) = chosen(None);
    for answer in ["1", "n", "0", "", "", ""] {
        dialogue.step(line(answer));
    }
    let options = dialogue.run_options();
    assert_eq!((options.verify, options.delay), (VerifyMode::Later, None));
    let mut pending = report(true, 0, 1);
    pending.pending_verify = true;
    let messages = dialogue.step(DialogueEvent::Reported(pending));
    assert_eq!(
        lines(&messages).last(),
        Some(&(Style::Info, "写入完成。请下次插入该盘并重新运行本程序进行校验。"))
    );
    assert_eq!(lines(&messages)[0], (Style::Plain, ""));
}

#[test]
fn a_test_need_not_be_started() {
    let (mut dialogue, _) = chosen(None);
    for answer in ["", "", "", "", "no"] {
        dialogue.step(line(answer));
    }
    assert_eq!(dialogue.action(), DialogueAction::Finish);
}

#[test]
fn pending_data_is_verified_and_continued() {
    let (mut dialogue, _) = chosen(Some(state(StateStatus::PendingVerify)));
    assert_eq!(dialogue.prompt(), "检测到存在已经写入数据，是否立刻校验？ [Y/n] ");
    dialogue.step(line("y"));
    assert_eq!(dialogue.action(), DialogueAction::Verify);
    let options = dialogue.verify_options();
    assert_eq!((options.target.as_str(), options.cleanup), ("/b", CleanupMode::OnSuccess));
    assert!(!options.stop_on_fail && options.progress);
    let messages = dialogue.step(DialogueEvent::Reported(report(true, 1, 3)));
    assert_eq!(lines(&messages)[1], (Style::Plain, "Target: /b"));
    assert_eq!(dialogue.prompt(), "还有未完成的跑圈，是否继续下一圈？ [Y/n] ");
    dialogue.step(line(""));
    let options = dialogue.run_options();
    assert_eq!((options.passes, options.verify), (3, VerifyMode::Immediate));
    assert!(!options.force && !options.stop_on_fail);
    dialogue.step(DialogueEvent::Reported(report(true, 3, 3)));
    assert_eq!(dialogue.action(), DialogueAction::Finish);

    for (success, completed) in [(false, 0), (true, 3)] {
        let (mut dialogue, _) = chosen(Some(state(StateStatus::PendingVerify)));
        dialogue.step(line("y"));
        dialogue.step(DialogueEvent::Reported(report(success, completed, 3)));
        assert_eq!(dialogue.action(), DialogueAction::Finish);
    }
    let (mut dialogue, _) = chosen(Some(state(StateStatus::PendingVerify)));
    dialogue.step(line("n"));
    assert_eq!(dialogue.action(), DialogueAction::Finish);
}

#[test]
fn other_states_are_met_with_a_word() {
    let (mut dialogue, _) = chosen(Some(state(StateStatus::PassComplete)));
    assert_eq!(dialogue.prompt(), "检测到上一圈已完成，是否继续下一圈？ [Y/n] ");
    dialogue.step(line("y"));
    assert_eq!(dialogue.run_options().passes, 3);

    for (status, said) in [
        (StateStatus::Completed, (Style::Info, "该卷上的测试已经完成。")),
        (
            StateStatus::Failed,
            (Style::Fail, "该卷上的测试之前失败了。请使用 --force 重新开始。"),
        ),
        (
            StateStatus::Writing,
            (Style::Fail, "检测到中断的测试状态。请使用 --force 重新开始。"),
        ),
        (
            StateStatus::Verifying,
            (Style::Fail, "检测到中断的测试状态。请使用 --force 重新开始。"),
        ),
    ] {
        let (dialogue, messages) = chosen(Some(state(status)));
        assert_eq!(lines(&messages), vec![said]);
        assert_eq!(dialogue.action(), DialogueAction::Finish);
    }
}

fn run_args(verify: VerifyMode, delay: Option<u64>) -> RunArgs {
    RunArgs {
        target: "E:".to_string(),
        passes: 0,
        verify,
        delay,
        stop_on_fail: true,
        cleanup: CleanupMode::Always,
        force: true,
    }
}

fn cli(command: Option<Commands>) -> Cli {
    Cli { json: false, color: ColorMode::Auto, no_progress: false, command }
}

#[test]
fn commands_come_to_tasks() {
    assert!(matches!(cli(None).task(false), Ok(Task::Interactive)));
    assert!(matches!(cli(Some(Commands::List)).task(false), Ok(Task::List)));
    let run = Commands::Run(run_args(VerifyMode::Immediate, None));
    assert!(matches!(cli(Some(run)).task(true), Ok(Task::Run(t)) if t == "E:\\"));
    let verify = Commands::Verify(VerifyArgs {
        target: "/x".to_string(),
        stop_on_fail: false,
        cleanup: CleanupMode::Never,
    });
    assert!(matches!(cli(Some(verify)).task(false), Ok(Task::Verify(t)) if t == "/x"));
    let status = Commands::Status(StatusArgs { target: "E:".to_string() });
    assert!(matches!(cli(Some(status)).task(false), Ok(Task::Status(t)) if t == "E:"));
}

#[test]
fn a_delay_is_needed_to_delay() {
    let run = Commands::Run(run_args(VerifyMode::Delay, None));
    let error = cli(Some(run)).task(false).unwrap_err();
    assert_eq!(error, CliError::DelayRequired);
    assert_eq!(error.message(), "--delay is required when --verify delay is used");
    let run = Commands::Run(run_args(VerifyMode::Delay, Some(0)));
    assert!(matches!(cli(Some(run)).task(false), Ok(Task::Run(_))));
}

#[test]
fn arguments_become_options() {
    let options = run_args(VerifyMode::Later, Some(4)).options("/x".to_string(), volume("/x"), true);
    assert_eq!((options.target.as_str(), options.passes), ("/x", 1));
    assert_eq!((options.verify, options.delay), (VerifyMode::Later, Some(4)));
    assert!(options.stop_on_fail && options.force && options.progress);
    assert_eq!(options.cleanup, CleanupMode::Always);
    let args =
        VerifyArgs { target: "E:".to_string(), stop_on_fail: true, cleanup: CleanupMode::Never };
    let options = args.options("/x".to_string(), volume("/x"), false);
    assert_eq!(options.volume.mount_point, "/x");
    assert!(options.stop_on_fail && !options.progress);
    assert_eq!(options.cleanup, CleanupMode::Never);
}

#[test]
fn progress_is_for_terminals() {
    for (terminal, no_progress, shown) in
        [(true, false, true), (true, true, false), (false, false, false), (false, true, false)]
    {
        let mut cli = cli(None);
        cli.no_progress = no_progress;
        assert_eq!(cli.shows_progress(&Console::new(ColorMode::Never, terminal)), shown);
    }
}

#[test]
fn volumes_are_listed() {
    assert_eq!(
        lines(&list_report(&console(), &[])),
        vec![(Style::Warn, "No testable mounted volumes found.")]
    );
    let listed = list_report(&console(), &[volume("/a"), volume("/b")]);
    assert_eq!(listed.len(), 4);
    assert!(listed[3].text.starts_with("2    /b "));
}

#[test]
fn a_status_is_told_from_the_state_or_the_files() {
    let mut known = state(StateStatus::Failed);
    known.expected_total = 2048;
    known.actual_total = 1024;
    known.last_error = Some("verification failed".to_string());
    assert_eq!(
        lines(&status_report(&Some(known), &[])),
        vec![
            (Style::Plain, "Target: /b"),
            (Style::Plain, "Status: Failed"),
            (Style::Plain, "Passes: 0/3"),
            (Style::Plain, "Current pass: 1"),
            (Style::Plain, "Capacity: 1.00 KiB / 2.00 KiB"),
            (Style::Plain, "Last error: verification failed"),
        ]
    );
    assert_eq!(status_report(&Some(state(StateStatus::Writing)), &[]).len(), 5);

    let file = TestFile {
        name: make_test_file_name(2, 3, 0, 1),
        pass: 2,
        total_passes: 3,
        index: 0,
        seed: 1,
        actual_size: 4,
    };
    let files = vec![file.clone(), file];
    assert_eq!(
        lines(&status_report(&None, &files)),
        vec![
            (Style::Warn, "No state file, but 2 pending test file(s) found."),
            (Style::Plain, "Detected pass: 2 / 3"),
        ]
    );
    assert_eq!(
        lines(&status_report(&None, &[])),
        vec![(Style::Warn, "No test state found for this volume.")]
    );
    assert_eq!(status_summary(true, &files), StatusSummary::State);
    assert_eq!(
        status_summary(false, &files),
        StatusSummary::Pending { files: 2, pass: 2, total_passes: 3 }
    );
    assert_eq!(status_summary(false, &[]), StatusSummary::Nothing);
}

#[test]
fn failures_have_an_exit_code() {
    assert_eq!(exit_code(true), 0);
    assert_eq!(exit_code(false), 1);
}
