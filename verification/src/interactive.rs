//! The dialogue with a user who gives no command: which volume is tested and
//! how, or what becomes of the test that is already on it.

use crate::console::{self, say, say_volumes, Console, Message, Style};
use crate::engine::preparation::Prepared;
use crate::engine::session::{self, SessionAction, SessionData, SessionEvent};
use crate::engine::{RunOptions, TestReport, VerifyOptions};
use crate::manifest::{StateStatus, TestState};
use crate::report::{self, print_report};
use crate::text;
use crate::types::{CleanupMode, VerifyMode};
use crate::volume::VolumeInfo;
use vstd::prelude::*;

verus! {

/// Why a dialogue cannot go on.
#[derive(Debug)]
pub enum InteractiveError {
    /// There is no volume to test.
    NoVolumes,
    /// The chosen target is no volume any more.
    NotARoot(String),
    /// The user is gone.
    InputClosed,
}

impl InteractiveError {
    /// What the message of an error says.
    pub open spec fn text(self) -> Seq<char> {
        match self {
            InteractiveError::NoVolumes => "no testable mounted volumes found"@,
            InteractiveError::NotARoot(target) => target@ + " is not a mounted volume root"@,
            InteractiveError::InputClosed => "standard input closed"@,
        }
    }

    /// The message of an error.
    pub fn message(&self) -> (message: String)
        ensures
            message@ == self.text(),
    {
        match self {
            InteractiveError::NoVolumes => "no testable mounted volumes found".to_owned(),
            InteractiveError::NotARoot(target) => target.clone().concat(
                " is not a mounted volume root",
            ),
            InteractiveError::InputClosed => "standard input closed".to_owned(),
        }
    }
}

/// What a line means as an answer to a yes-or-no question: nothing if it is
/// neither, and the default if it is empty.
pub open spec fn yes_or_no(line: Seq<char>, default: bool) -> Option<bool> {
    let answer = text::lower(text::trim(line));
    if answer == ""@ {
        Some(default)
    } else if answer == "y"@ || answer == "yes"@ {
        Some(true)
    } else if answer == "n"@ || answer == "no"@ {
        Some(false)
    } else {
        None
    }
}

/// The answer to a yes-or-no question.
pub fn answer_yes_no(line: &str, default: bool) -> (answer: Option<bool>)
    ensures
        answer == yes_or_no(line@, default),
{
    let chars = text::chars_of(line);
    let trimmed = text::trimmed(chars.as_slice());
    let lowered = text::lowered(trimmed.as_slice());
    let answer = lowered.as_slice();
    if text::is_text(answer, "") {
        Some(default)
    } else if text::is_text(answer, "y") || text::is_text(answer, "yes") {
        Some(true)
    } else if text::is_text(answer, "n") || text::is_text(answer, "no") {
        Some(false)
    } else {
        None
    }
}

/// What a line means as a number of passes: at least one, and the default if the
/// line is empty.
pub open spec fn count_in(line: Seq<char>, default: u32) -> Option<u32> {
    let answer = text::trim(line);
    let number = text::number(answer, u32::MAX as nat);
    if answer.len() == 0 {
        Some(default)
    } else if number is Some && number->0 >= 1 {
        Some(number->0 as u32)
    } else {
        None
    }
}

/// The answer to a question for a positive number.
pub fn answer_u32(line: &str, default: u32) -> (answer: Option<u32>)
    ensures
        answer == count_in(line@, default),
        answer matches Some(n) ==> n >= 1 || n == default,
{
    let chars = text::chars_of(line);
    let answer = text::trimmed(chars.as_slice());
    if answer.len() == 0 {
        return Some(default);
    }
    match text::parse_number(answer.as_slice(), u32::MAX as u64) {
        Some(n) => if n >= 1 {
            Some(n as u32)
        } else {
            None
        },
        None => None,
    }
}

/// What a line means as a number of seconds, and the default if the line is
/// empty.
pub open spec fn seconds_in(line: Seq<char>, default: u64) -> Option<u64> {
    let answer = text::trim(line);
    let number = text::number(answer, u64::MAX as nat);
    if answer.len() == 0 {
        Some(default)
    } else if number is Some {
        Some(number->0 as u64)
    } else {
        None
    }
}

/// The answer to a question for a number.
pub fn answer_u64(line: &str, default: u64) -> (answer: Option<u64>)
    ensures
        answer == seconds_in(line@, default),
{
    let chars = text::chars_of(line);
    let answer = text::trimmed(chars.as_slice());
    if answer.len() == 0 {
        return Some(default);
    }
    text::parse_number(answer.as_slice(), u64::MAX)
}

/// The answer to the question for the volume.
#[derive(Debug)]
pub enum TargetAnswer {
    /// None was given.
    Empty,
    /// The volume at an index of the list.
    Volume(usize),
    /// A number that is not in the list.
    Invalid,
    /// A path.
    Path(String),
}

/// What a line means as an answer to the question for one of so many volumes,
/// which are numbered from one on.
pub open spec fn is_target_answer(answer: TargetAnswer, line: Seq<char>, count: nat) -> bool {
    let given = text::trim(line);
    let number = text::number(given, usize::MAX as nat);
    if given.len() == 0 {
        answer is Empty
    } else if number is Some {
        if 1 <= number->0 <= count {
            answer matches TargetAnswer::Volume(index) && index + 1 == number->0
        } else {
            answer is Invalid
        }
    } else {
        answer matches TargetAnswer::Path(path) && path@ == given
    }
}

/// The answer to the question for the volume.
pub fn answer_target(line: &str, count: usize) -> (answer: TargetAnswer)
    ensures
        is_target_answer(answer, line@, count as nat),
{
    let chars = text::chars_of(line);
    let given = text::trimmed(chars.as_slice());
    if given.len() == 0 {
        return TargetAnswer::Empty;
    }
    match text::parse_number(given.as_slice(), usize::MAX as u64) {
        Some(number) => if 1 <= number && number <= count as u64 {
            TargetAnswer::Volume((number - 1) as usize)
        } else {
            TargetAnswer::Invalid
        },
        None => TargetAnswer::Path(text::string_of(given.as_slice())),
    }
}

/// Where a dialogue stands.
#[derive(Debug, Clone, Copy, PartialEq, Eq, Structural)]
pub enum DialogueStage {
    /// The user is asked for a volume.
    Target,
    /// The target is looked up among the volumes; it was typed as a path or
    /// taken from the list.
    Looking { typed: bool },
    /// The state of the test on the volume is looked up.
    Loading,
    /// The user is asked whether pending data is verified.
    VerifyNow,
    /// Pending data is verified.
    Verifying,
    /// The user is asked, after a verification, whether the next pass begins.
    MorePasses,
    /// The user is asked whether the next pass begins.
    NextPass,
    /// The user is asked for the number of passes.
    Passes,
    /// The user is asked whether data is verified at once.
    Immediate,
    /// The user is asked for the time before verification.
    Delay,
    /// The user is asked whether a failure ends the test.
    StopOnFail,
    /// The user is asked whether test files are kept.
    KeepFiles,
    /// The user is asked whether to begin.
    Confirm,
    /// A test is run: one that the user has described, or one that goes on.
    Running { fresh: bool },
    /// The dialogue is over.
    Finished,
    /// The chosen target is no volume any more.
    Failed,
}

/// What is to be done next.
#[derive(Debug, Clone, Copy, PartialEq, Eq, Structural)]
pub enum DialogueAction {
    /// Show the prompt and read a line.
    Ask,
    /// Find the volume at the target.
    Find,
    /// Load the state of the volume.
    Load,
    /// Verify the data on the target.
    Verify,
    /// Run a test on the target.
    Run,
    /// Nothing.
    Finish,
    /// Nothing: the dialogue cannot go on.
    Fail,
}

/// How an action ended.
#[derive(Debug)]
pub enum DialogueEvent {
    Line(String),
    Found(Option<VolumeInfo>),
    Loaded(Option<TestState>),
    Reported(TestReport),
}

/// How the user wants a test to be run.
#[derive(Debug, Clone, Copy)]
pub struct Answers {
    pub passes: u32,
    pub verify: VerifyMode,
    pub delay: Option<u64>,
    pub stop_on_fail: bool,
    pub keep_files: bool,
}

/// Where a dialogue with the user stands.
#[derive(Debug)]
pub struct DialogueData {
    pub volumes: Vec<VolumeInfo>,
    pub stage: DialogueStage,
    pub target: String,
    pub volume: Option<VolumeInfo>,
    /// The passes of the test that is already on the volume.
    pub total_passes: u32,
    pub answers: Answers,
    pub progress: bool,
}

/// The lines that open a dialogue.
pub open spec fn opening(volumes: Seq<VolumeInfo>) -> Seq<(Style, Seq<char>)> {
    seq![(Style::Plain, "Available volumes:"@)] + console::table(volumes) + seq![
        (Style::Plain, ""@),
    ]
}

/// The name of a way to verify.
pub open spec fn mode_text(mode: VerifyMode) -> Seq<char> {
    match mode {
        VerifyMode::Immediate => "immediate"@,
        VerifyMode::Later => "later"@,
        VerifyMode::Delay => "after delay"@,
    }
}

/// What the user has chosen.
pub open spec fn summary(volume: VolumeInfo, answers: Answers) -> Seq<(Style, Seq<char>)> {
    let head = seq![
        (Style::Plain, ""@),
        (Style::Plain, "Target: "@ + volume.title()),
        (Style::Plain, "Passes: "@ + text::decimal(answers.passes as nat)),
        (Style::Plain, "Verify: "@ + mode_text(answers.verify)),
    ];
    let delay = match answers.delay {
        Some(seconds) => seq![
            (Style::Plain, "Delay: "@ + text::decimal(seconds as nat) + " second(s)"@),
        ],
        None => Seq::empty(),
    };
    head + delay + seq![
        (
            Style::Plain,
            "On failure: "@ + if answers.stop_on_fail {
                "stop immediately"@
            } else {
                "continue"@
            },
        ),
        (
            Style::Plain,
            "Test files: "@ + if answers.keep_files {
                "keep"@
            } else {
                "remove on success"@
            },
        ),
    ]
}

fn summarize(volume: &VolumeInfo, answers: Answers) -> (messages: Vec<Message>)
    ensures
        console::contents(messages@) == summary(*volume, answers),
{
    let mut messages: Vec<Message> = Vec::new();
    assert(console::contents(messages@) =~= Seq::empty());
    say(&mut messages, Style::Plain, "".to_owned());
    say(
        &mut messages,
        Style::Plain,
        "Target: ".to_owned().concat(volume.display_name().as_str()),
    );
    let mut passes = "Passes: ".to_owned();
    text::push_decimal(&mut passes, answers.passes as u64);
    say(&mut messages, Style::Plain, passes);
    let mode: &'static str = match answers.verify {
        VerifyMode::Immediate => "immediate",
        VerifyMode::Later => "later",
        VerifyMode::Delay => "after delay",
    };
    say(&mut messages, Style::Plain, "Verify: ".to_owned().concat(mode));
    if let Some(seconds) = answers.delay {
        let mut delay = "Delay: ".to_owned();
        text::push_decimal(&mut delay, seconds);
        delay.append(" second(s)");
        say(&mut messages, Style::Plain, delay);
    }
    let on_failure: &'static str = if answers.stop_on_fail {
        "stop immediately"
    } else {
        "continue"
    };
    say(&mut messages, Style::Plain, "On failure: ".to_owned().concat(on_failure));
    let files: &'static str = if answers.keep_files {
        "keep"
    } else {
        "remove on success"
    };
    say(&mut messages, Style::Plain, "Test files: ".to_owned().concat(files));
    assert(console::contents(messages@) =~= summary(*volume, answers));
    messages
}

impl DialogueData {
    /// The default of the yes-or-no question, in the stages that ask one.
    pub open spec fn default_answer(self) -> bool {
        self.stage != DialogueStage::KeepFiles
    }

    /// A yes-or-no question is asked.
    pub open spec fn asks_yes_no(self) -> bool {
        match self.stage {
            DialogueStage::VerifyNow | DialogueStage::MorePasses | DialogueStage::NextPass
            | DialogueStage::Immediate | DialogueStage::StopOnFail | DialogueStage::KeepFiles
            | DialogueStage::Confirm => true,
            _ => false,
        }
    }

    /// What the user is asked.
    pub open spec fn question(self) -> Seq<char> {
        match self.stage {
            DialogueStage::Target => "Enter volume number or path: "@,
            DialogueStage::VerifyNow => "检测到存在已经写入数据，是否立刻校验？ [Y/n] "@,
            DialogueStage::MorePasses => "还有未完成的跑圈，是否继续下一圈？ [Y/n] "@,
            DialogueStage::NextPass => "检测到上一圈已完成，是否继续下一圈？ [Y/n] "@,
            DialogueStage::Passes => "Enter pass count [1] "@,
            DialogueStage::Immediate => "Write then verify immediately? [Y/n] "@,
            DialogueStage::Delay => "Enter delay seconds (0 = exit and verify later) [0] "@,
            DialogueStage::StopOnFail => "Stop on first failure? [Y/n] "@,
            DialogueStage::KeepFiles => "Keep test files after verification? [y/N] "@,
            DialogueStage::Confirm => "Start test? [Y/n] "@,
            _ => ""@,
        }
    }

    /// What is to be done next.
    pub open spec fn next_action(self) -> DialogueAction {
        match self.stage {
            DialogueStage::Looking { .. } => DialogueAction::Find,
            DialogueStage::Loading => DialogueAction::Load,
            DialogueStage::Verifying => DialogueAction::Verify,
            DialogueStage::Running { .. } => DialogueAction::Run,
            DialogueStage::Finished => DialogueAction::Finish,
            DialogueStage::Failed => DialogueAction::Fail,
            _ => DialogueAction::Ask,
        }
    }

    /// The event is one that the action can end in.
    pub open spec fn admits(self, event: DialogueEvent) -> bool {
        match self.next_action() {
            DialogueAction::Ask => event is Line,
            DialogueAction::Find => event is Found,
            DialogueAction::Load => event is Loaded,
            DialogueAction::Verify | DialogueAction::Run => event is Reported,
            DialogueAction::Finish | DialogueAction::Fail => false,
        }
    }

    /// The volume is known once it has been found, and a delay is given exactly
    /// where verification is to be delayed.
    pub open spec fn valid(self) -> bool {
        &&& match self.stage {
            DialogueStage::Target | DialogueStage::Looking { .. } | DialogueStage::Failed
            | DialogueStage::Finished => true,
            _ => self.volume is Some,
        }
        &&& self.answers.passes >= 1
        &&& self.answers.verify == VerifyMode::Delay <==> self.answers.delay is Some
        &&& self.answers.delay matches Some(seconds) ==> seconds > 0
    }

    /// The dialogue goes on in a stage and is otherwise unchanged.
    pub open spec fn only_at(self, after: DialogueData, stage: DialogueStage) -> bool {
        after == DialogueData { stage, ..self }
    }

    /// The dialogue goes on in a stage with other answers.
    pub open spec fn answered(self, after: DialogueData, answers: Answers, stage: DialogueStage) -> bool {
        after == DialogueData { stage, answers, ..self }
    }

    /// The dialogue goes on as `after` when the user has given a line.
    pub open spec fn hears(self, after: DialogueData, line: Seq<char>) -> bool {
        let answer = yes_or_no(line, self.default_answer());
        if self.asks_yes_no() {
            match answer {
                None => after == self,
                Some(yes) => match self.stage {
                    DialogueStage::VerifyNow => self.only_at(
                        after,
                        if yes {
                            DialogueStage::Verifying
                        } else {
                            DialogueStage::Finished
                        },
                    ),
                    DialogueStage::MorePasses | DialogueStage::NextPass => self.only_at(
                        after,
                        if yes {
                            DialogueStage::Running { fresh: false }
                        } else {
                            DialogueStage::Finished
                        },
                    ),
                    DialogueStage::Immediate => if yes {
                        self.answered(
                            after,
                            Answers { verify: VerifyMode::Immediate, delay: None, ..self.answers },
                            DialogueStage::StopOnFail,
                        )
                    } else {
                        self.only_at(after, DialogueStage::Delay)
                    },
                    DialogueStage::StopOnFail => self.answered(
                        after,
                        Answers { stop_on_fail: yes, ..self.answers },
                        DialogueStage::KeepFiles,
                    ),
                    DialogueStage::KeepFiles => self.answered(
                        after,
                        Answers { keep_files: yes, ..self.answers },
                        DialogueStage::Confirm,
                    ),
                    _ => self.only_at(
                        after,
                        if yes {
                            DialogueStage::Running { fresh: true }
                        } else {
                            DialogueStage::Finished
                        },
                    ),
                },
            }
        } else {
            match self.stage {
                DialogueStage::Passes => match count_in(line, 1) {
                    Some(passes) => self.answered(
                        after,
                        Answers { passes, ..self.answers },
                        DialogueStage::Immediate,
                    ),
                    None => after == self,
                },
                DialogueStage::Delay => match seconds_in(line, 0) {
                    Some(seconds) => self.answered(
                        after,
                        if seconds == 0 {
                            Answers { verify: VerifyMode::Later, delay: None, ..self.answers }
                        } else {
                            Answers {
                                verify: VerifyMode::Delay,
                                delay: Some(seconds),
                                ..self.answers
                            }
                        },
                        DialogueStage::StopOnFail,
                    ),
                    None => after == self,
                },
                _ => self.chooses(after, line),
            }
        }
    }

    /// The dialogue goes on as `after` when the user has named a target.
    pub open spec fn chooses(self, after: DialogueData, line: Seq<char>) -> bool {
        let given = text::trim(line);
        let number = text::number(given, usize::MAX as nat);
        if given.len() == 0 {
            after == self
        } else if number is Some {
            if 1 <= number->0 <= self.volumes@.len() {
                &&& after == (DialogueData {
                    stage: DialogueStage::Looking { typed: false },
                    target: after.target,
                    ..self
                })
                &&& after.target@ == self.volumes@[number->0 - 1].mount_point@
            } else {
                after == self
            }
        } else {
            &&& after == (DialogueData {
                stage: DialogueStage::Looking { typed: true },
                target: after.target,
                ..self
            })
            &&& after.target@ == given
        }
    }

    /// The dialogue goes on as `after` when its action has ended.
    pub open spec fn moves(self, after: DialogueData, event: DialogueEvent) -> bool {
        match event {
            DialogueEvent::Line(line) => self.hears(after, line@),
            DialogueEvent::Found(None) => self.only_at(
                after,
                if self.stage == (DialogueStage::Looking { typed: true }) {
                    DialogueStage::Target
                } else {
                    DialogueStage::Failed
                },
            ),
            DialogueEvent::Found(Some(volume)) => after == (DialogueData {
                stage: DialogueStage::Loading,
                volume: Some(volume),
                ..self
            }),
            DialogueEvent::Loaded(None) => self.only_at(after, DialogueStage::Passes),
            DialogueEvent::Loaded(Some(state)) => match state.status {
                StateStatus::PendingVerify => self.only_at(after, DialogueStage::VerifyNow),
                StateStatus::PassComplete => after == (DialogueData {
                    stage: DialogueStage::NextPass,
                    total_passes: state.total_passes,
                    ..self
                }),
                _ => self.only_at(after, DialogueStage::Finished),
            },
            DialogueEvent::Reported(report) => if self.stage == DialogueStage::Verifying
                && report.success && report.passes_completed < report.passes_total {
                after == (DialogueData {
                    stage: DialogueStage::MorePasses,
                    total_passes: report.passes_total,
                    ..self
                })
            } else {
                self.only_at(after, DialogueStage::Finished)
            },
        }
    }

    /// What the user is told when a line was given.
    pub open spec fn replies(self, line: Seq<char>) -> Seq<(Style, Seq<char>)> {
        let answer = yes_or_no(line, self.default_answer());
        let given = text::trim(line);
        let number = text::number(given, usize::MAX as nat);
        if self.asks_yes_no() {
            match answer {
                None => seq![(Style::Error, "Please answer y or n."@)],
                Some(yes) => if self.stage == DialogueStage::KeepFiles {
                    summary(self.volume->0, Answers { keep_files: yes, ..self.answers })
                } else {
                    Seq::empty()
                },
            }
        } else if self.stage == DialogueStage::Passes && count_in(line, 1) is None {
            seq![(Style::Error, "Please enter a positive integer."@)]
        } else if self.stage == DialogueStage::Delay && seconds_in(line, 0) is None {
            seq![(Style::Error, "Please enter a non-negative integer."@)]
        } else if self.stage == DialogueStage::Target && given.len() > 0 && number is Some && !(1
            <= number->0 <= self.volumes@.len()) {
            seq![(Style::Error, "Invalid volume number."@)]
        } else {
            Seq::empty()
        }
    }

    /// What the user is told when an action has ended.
    pub open spec fn says(self, event: DialogueEvent) -> Seq<(Style, Seq<char>)> {
        match event {
            DialogueEvent::Line(line) => self.replies(line@),
            DialogueEvent::Found(None) => if self.stage == (DialogueStage::Looking { typed: true })
            {
                seq![(Style::Error, self.target@ + " is not a mounted volume root."@)]
            } else {
                Seq::empty()
            },
            DialogueEvent::Loaded(Some(state)) => match state.status {
                StateStatus::Completed => seq![(Style::Info, "该卷上的测试已经完成。"@)],
                StateStatus::Failed => seq![
                    (
                        Style::Fail,
                        "该卷上的测试之前失败了。请使用 --force 重新开始。"@,
                    ),
                ],
                StateStatus::Writing | StateStatus::Verifying => seq![
                    (
                        Style::Fail,
                        "检测到中断的测试状态。请使用 --force 重新开始。"@,
                    ),
                ],
                _ => Seq::empty(),
            },
            DialogueEvent::Reported(report) => {
                let lines = seq![(Style::Plain, ""@)] + report::report_lines(report, None, None);
                if self.stage == (DialogueStage::Running { fresh: true })
                    && report.pending_verify {
                    lines.push(
                        (
                            Style::Info,
                            "写入完成。请下次插入该盘并重新运行本程序进行校验。"@,
                        ),
                    )
                } else {
                    lines
                }
            },
            _ => Seq::empty(),
        }
    }

    /// The verification of the pending data.
    pub open spec fn describes_verification(self, options: VerifyOptions) -> bool {
        &&& options.target@ == self.target@
        &&& options.volume == self.volume->0
        &&& !options.stop_on_fail
        &&& options.cleanup == CleanupMode::OnSuccess
        &&& options.progress == self.progress
    }

    /// The test that is run: the one that the user has described, or the next
    /// passes of the one that is on the volume. Nothing is discarded for it.
    pub open spec fn describes_run(self, options: RunOptions) -> bool {
        &&& options.target@ == self.target@
        &&& options.volume == self.volume->0
        &&& options.progress == self.progress
        &&& !options.force
        &&& if self.stage->fresh {
            &&& options.passes == self.answers.passes
            &&& options.verify == self.answers.verify
            &&& options.delay == self.answers.delay
            &&& options.stop_on_fail == self.answers.stop_on_fail
            &&& options.cleanup == if self.answers.keep_files {
                CleanupMode::Never
            } else {
                CleanupMode::OnSuccess
            }
        } else {
            &&& options.passes == self.total_passes
            &&& options.verify == VerifyMode::Immediate
            &&& options.delay is None
            &&& !options.stop_on_fail
            &&& options.cleanup == CleanupMode::OnSuccess
        }
    }

    /// What is to be done next.
    fn action(&self) -> (action: DialogueAction)
        ensures
            action == self.next_action(),
    {
        match self.stage {
            DialogueStage::Looking { .. } => DialogueAction::Find,
            DialogueStage::Loading => DialogueAction::Load,
            DialogueStage::Verifying => DialogueAction::Verify,
            DialogueStage::Running { .. } => DialogueAction::Run,
            DialogueStage::Finished => DialogueAction::Finish,
            DialogueStage::Failed => DialogueAction::Fail,
            _ => DialogueAction::Ask,
        }
    }

    /// What the user is asked.
    fn prompt(&self) -> (prompt: &'static str)
        ensures
            prompt@ == self.question(),
    {
        match self.stage {
            DialogueStage::Target => "Enter volume number or path: ",
            DialogueStage::VerifyNow => "检测到存在已经写入数据，是否立刻校验？ [Y/n] ",
            DialogueStage::MorePasses => "还有未完成的跑圈，是否继续下一圈？ [Y/n] ",
            DialogueStage::NextPass => "检测到上一圈已完成，是否继续下一圈？ [Y/n] ",
            DialogueStage::Passes => "Enter pass count [1] ",
            DialogueStage::Immediate => "Write then verify immediately? [Y/n] ",
            DialogueStage::Delay => "Enter delay seconds (0 = exit and verify later) [0] ",
            DialogueStage::StopOnFail => "Stop on first failure? [Y/n] ",
            DialogueStage::KeepFiles => "Keep test files after verification? [y/N] ",
            DialogueStage::Confirm => "Start test? [Y/n] ",
            _ => "",
        }
    }

    /// The error that ends a dialogue which cannot go on.
    fn error(&self) -> (error: InteractiveError)
        ensures
            error matches InteractiveError::NotARoot(target) && target@ == self.target@,
    {
        InteractiveError::NotARoot(self.target.clone())
    }

    /// The verification of the pending data.
    fn verify_options(&self) -> (options: VerifyOptions)
        requires
            self.valid(),
            self.stage == DialogueStage::Verifying,
        ensures
            self.describes_verification(options),
    {
        VerifyOptions {
            target: self.target.clone(),
            volume: self.volume.as_ref().unwrap().clone(),
            stop_on_fail: false,
            cleanup: CleanupMode::OnSuccess,
            progress: self.progress,
        }
    }

    /// The test that is run: the one that the user has described, or the next
    /// passes of the one that is on the volume. Nothing is discarded for it.
    fn run_options(&self) -> (options: RunOptions)
        requires
            self.valid(),
            self.stage is Running,
        ensures
            self.describes_run(options),
    {
        let fresh: bool = self.stage == DialogueStage::Running { fresh: true };
        let target = self.target.clone();
        let volume = self.volume.as_ref().unwrap().clone();
        if fresh {
            RunOptions {
                target,
                volume,
                passes: self.answers.passes,
                verify: self.answers.verify,
                delay: self.answers.delay,
                stop_on_fail: self.answers.stop_on_fail,
                cleanup: if self.answers.keep_files {
                    CleanupMode::Never
                } else {
                    CleanupMode::OnSuccess
                },
                force: false,
                progress: self.progress,
            }
        } else {
            RunOptions {
                target,
                volume,
                passes: self.total_passes,
                verify: VerifyMode::Immediate,
                delay: None,
                stop_on_fail: false,
                cleanup: CleanupMode::OnSuccess,
                force: false,
                progress: self.progress,
            }
        }
    }
}

impl DialogueData {
    /// Takes note of the target that the user has named.
    fn choose_target(&mut self, line: &str) -> (messages: Vec<Message>)
        requires
            old(self).valid(),
            old(self).stage == DialogueStage::Target,
        ensures
            final(self).valid(),
            old(self).hears(*final(self), line@),
            console::contents(messages@) == old(self).replies(line@),
    {
        let mut messages: Vec<Message> = Vec::new();
        assert(console::contents(messages@) =~= Seq::empty());
        match answer_target(line, self.volumes.len()) {
            TargetAnswer::Empty => {},
            TargetAnswer::Volume(index) => {
                self.target = self.volumes[index].mount_point.clone();
                self.stage = DialogueStage::Looking { typed: false };
            },
            TargetAnswer::Invalid => {
                say(&mut messages, Style::Error, "Invalid volume number.".to_owned());
            },
            TargetAnswer::Path(path) => {
                self.target = path;
                self.stage = DialogueStage::Looking { typed: true };
            },
        }
        assert(console::contents(messages@) =~= old(self).replies(line@));
        messages
    }

    /// Takes note of a yes or a no.
    fn decide(&mut self, line: &str) -> (messages: Vec<Message>)
        requires
            old(self).valid(),
            old(self).asks_yes_no(),
        ensures
            final(self).valid(),
            old(self).hears(*final(self), line@),
            console::contents(messages@) == old(self).replies(line@),
    {
        let default: bool = self.stage != DialogueStage::KeepFiles;
        let mut messages: Vec<Message> = Vec::new();
        assert(console::contents(messages@) =~= Seq::empty());
        let yes: bool = match answer_yes_no(line, default) {
            Some(yes) => yes,
            None => {
                say(&mut messages, Style::Error, "Please answer y or n.".to_owned());
                assert(console::contents(messages@) =~= old(self).replies(line@));
                return messages;
            },
        };
        match self.stage {
            DialogueStage::VerifyNow => {
                self.stage = if yes {
                    DialogueStage::Verifying
                } else {
                    DialogueStage::Finished
                };
            },
            DialogueStage::MorePasses | DialogueStage::NextPass => {
                self.stage = if yes {
                    DialogueStage::Running { fresh: false }
                } else {
                    DialogueStage::Finished
                };
            },
            DialogueStage::Immediate => {
                if yes {
                    self.answers.verify = VerifyMode::Immediate;
                    self.answers.delay = None;
                    self.stage = DialogueStage::StopOnFail;
                } else {
                    self.stage = DialogueStage::Delay;
                }
            },
            DialogueStage::StopOnFail => {
                self.answers.stop_on_fail = yes;
                self.stage = DialogueStage::KeepFiles;
            },
            DialogueStage::KeepFiles => {
                self.answers.keep_files = yes;
                self.stage = DialogueStage::Confirm;
                messages = summarize(self.volume.as_ref().unwrap(), self.answers);
            },
            _ => {
                self.stage = if yes {
                    DialogueStage::Running { fresh: true }
                } else {
                    DialogueStage::Finished
                };
            },
        }
        messages
    }

    /// Takes note of the number of passes.
    fn set_passes(&mut self, line: &str) -> (messages: Vec<Message>)
        requires
            old(self).valid(),
            old(self).stage == DialogueStage::Passes,
        ensures
            final(self).valid(),
            old(self).hears(*final(self), line@),
            console::contents(messages@) == old(self).replies(line@),
    {
        let mut messages: Vec<Message> = Vec::new();
        assert(console::contents(messages@) =~= Seq::empty());
        match answer_u32(line, 1) {
            Some(passes) => {
                self.answers.passes = passes;
                self.stage = DialogueStage::Immediate;
            },
            None => {
                say(&mut messages, Style::Error, "Please enter a positive integer.".to_owned());
            },
        }
        assert(console::contents(messages@) =~= old(self).replies(line@));
        messages
    }

    /// Takes note of the time before verification.
    fn set_delay(&mut self, line: &str) -> (messages: Vec<Message>)
        requires
            old(self).valid(),
            old(self).stage == DialogueStage::Delay,
        ensures
            final(self).valid(),
            old(self).hears(*final(self), line@),
            console::contents(messages@) == old(self).replies(line@),
    {
        let mut messages: Vec<Message> = Vec::new();
        assert(console::contents(messages@) =~= Seq::empty());
        match answer_u64(line, 0) {
            Some(seconds) => {
                if seconds == 0 {
                    self.answers.verify = VerifyMode::Later;
                    self.answers.delay = None;
                } else {
                    self.answers.verify = VerifyMode::Delay;
                    self.answers.delay = Some(seconds);
                }
                self.stage = DialogueStage::StopOnFail;
            },
            None => {
                say(
                    &mut messages,
                    Style::Error,
                    "Please enter a non-negative integer.".to_owned(),
                );
            },
        }
        assert(console::contents(messages@) =~= old(self).replies(line@));
        messages
    }

    /// Takes note of the state of the test on the volume.
    fn meet(&mut self, state: &TestState) -> (messages: Vec<Message>)
        requires
            old(self).valid(),
            old(self).stage == DialogueStage::Loading,
        ensures
            final(self).valid(),
            old(self).moves(*final(self), DialogueEvent::Loaded(Some(*state))),
            console::contents(messages@) == old(self).says(DialogueEvent::Loaded(Some(*state))),
    {
        let mut messages: Vec<Message> = Vec::new();
        assert(console::contents(messages@) =~= Seq::empty());
        match state.status {
            StateStatus::PendingVerify => {
                self.stage = DialogueStage::VerifyNow;
            },
            StateStatus::PassComplete => {
                self.total_passes = state.total_passes;
                self.stage = DialogueStage::NextPass;
            },
            StateStatus::Completed => {
                say(&mut messages, Style::Info, "该卷上的测试已经完成。".to_owned());
                self.stage = DialogueStage::Finished;
            },
            StateStatus::Failed => {
                say(
                    &mut messages,
                    Style::Fail,
                    "该卷上的测试之前失败了。请使用 --force 重新开始。".to_owned(),
                );
                self.stage = DialogueStage::Finished;
            },
            StateStatus::Writing | StateStatus::Verifying => {
                say(
                    &mut messages,
                    Style::Fail,
                    "检测到中断的测试状态。请使用 --force 重新开始。".to_owned(),
                );
                self.stage = DialogueStage::Finished;
            },
        }
        assert(console::contents(messages@) =~= old(self).says(
            DialogueEvent::Loaded(Some(*state)),
        ));
        messages
    }

    /// Takes note of what a test or a verification came to.
    fn conclude(&mut self, report: &TestReport) -> (messages: Vec<Message>)
        requires
            old(self).valid(),
            old(self).stage == DialogueStage::Verifying || old(self).stage is Running,
        ensures
            final(self).valid(),
            old(self).moves(*final(self), DialogueEvent::Reported(*report)),
            console::contents(messages@) == old(self).says(DialogueEvent::Reported(*report)),
    {
        let mut messages = print_report(report);
        if self.stage == DialogueStage::Verifying && report.success && report.passes_completed
            < report.passes_total {
            self.total_passes = report.passes_total;
            self.stage = DialogueStage::MorePasses;
        } else {
            if self.stage == (DialogueStage::Running { fresh: true }) && report.pending_verify {
                say(
                    &mut messages,
                    Style::Info,
                    "写入完成。请下次插入该盘并重新运行本程序进行校验。".to_owned(),
                );
            }
            self.stage = DialogueStage::Finished;
        }
        messages
    }

    /// Takes note of how the action ended.
    fn step(&mut self, event: DialogueEvent) -> (messages: Vec<Message>)
        requires
            old(self).valid(),
            old(self).admits(event),
        ensures
            final(self).valid(),
            old(self).moves(*final(self), event),
            console::contents(messages@) == old(self).says(event),
    {
        let mut messages: Vec<Message> = Vec::new();
        assert(console::contents(messages@) =~= Seq::empty());
        match event {
            DialogueEvent::Line(line) => {
                let line = line.as_str();
                messages = match self.stage {
                    DialogueStage::Target => self.choose_target(line),
                    DialogueStage::Passes => self.set_passes(line),
                    DialogueStage::Delay => self.set_delay(line),
                    _ => self.decide(line),
                };
            },
            DialogueEvent::Found(Some(volume)) => {
                self.volume = Some(volume);
                self.stage = DialogueStage::Loading;
            },
            DialogueEvent::Found(None) => {
                if self.stage == (DialogueStage::Looking { typed: true }) {
                    let line = self.target.clone().concat(" is not a mounted volume root.");
                    say(&mut messages, Style::Error, line);
                    self.stage = DialogueStage::Target;
                } else {
                    self.stage = DialogueStage::Failed;
                }
                assert(console::contents(messages@) =~= old(self).says(event));
            },
            DialogueEvent::Loaded(Some(state)) => {
                messages = self.meet(&state);
            },
            DialogueEvent::Loaded(None) => {
                self.stage = DialogueStage::Passes;
            },
            DialogueEvent::Reported(report) => {
                messages = self.conclude(&report);
            },
        }
        messages
    }
}

/// A dialogue with the user.
#[derive(Debug)]
pub struct Dialogue {
    data: DialogueData,
}

impl Dialogue {
    /// Where the dialogue stands.
    pub closed spec fn view(self) -> DialogueData {
        self.data
    }

    /// Where the dialogue stands.
    pub fn data(&self) -> (data: &DialogueData)
        ensures
            *data == self@,
    {
        &self.data
    }

    /// Begins a dialogue on the volumes that can be tested.
    pub fn new(volumes: Vec<VolumeInfo>, console: &Console, progress: bool) -> (result: Result<
        (Dialogue, Vec<Message>),
        InteractiveError,
    >)
        ensures
            match result {
                Ok((dialogue, messages)) => {
                    &&& volumes@.len() > 0
                    &&& dialogue@.valid()
                    &&& dialogue@.stage == DialogueStage::Target
                    &&& dialogue@.volumes == volumes
                    &&& dialogue@.target@ == Seq::<char>::empty()
                    &&& dialogue@.volume is None
                    &&& dialogue@.total_passes == 0
                    &&& dialogue@.answers == (Answers {
                        passes: 1,
                        verify: VerifyMode::Immediate,
                        delay: None,
                        stop_on_fail: true,
                        keep_files: false,
                    })
                    &&& dialogue@.progress == progress
                    &&& console::contents(messages@) == opening(volumes@)
                },
                Err(error) => volumes@.len() == 0 && error is NoVolumes,
            },
    {
        if volumes.len() == 0 {
            return Err(InteractiveError::NoVolumes);
        }
        let mut messages: Vec<Message> = Vec::new();
        assert(console::contents(messages@) =~= Seq::empty());
        say(&mut messages, Style::Plain, "Available volumes:".to_owned());
        say_volumes(&mut messages, console, volumes.as_slice());
        say(&mut messages, Style::Plain, "".to_owned());
        assert(console::contents(messages@) =~= opening(volumes@));
        let data = DialogueData {
            volumes,
            stage: DialogueStage::Target,
            target: String::new(),
            volume: None,
            total_passes: 0,
            answers: Answers {
                passes: 1,
                verify: VerifyMode::Immediate,
                delay: None,
                stop_on_fail: true,
                keep_files: false,
            },
            progress,
        };
        Ok((Dialogue { data }, messages))
    }

    /// What is to be done next.
    pub fn action(&self) -> (action: DialogueAction)
        ensures
            action == self@.next_action(),
    {
        self.data.action()
    }

    /// What the user is asked.
    pub fn prompt(&self) -> (prompt: &'static str)
        ensures
            prompt@ == self@.question(),
    {
        self.data.prompt()
    }

    /// The error that ends a dialogue which cannot go on.
    pub fn error(&self) -> (error: InteractiveError)
        ensures
            error matches InteractiveError::NotARoot(target) && target@ == self@.target@,
    {
        self.data.error()
    }

    /// The verification of the pending data.
    pub fn verify_options(&self) -> (options: VerifyOptions)
        requires
            self@.valid(),
            self@.stage == DialogueStage::Verifying,
        ensures
            self@.describes_verification(options),
            options.target@ == self@.target@,
            options.cleanup == CleanupMode::OnSuccess,
            !options.stop_on_fail,
    {
        self.data.verify_options()
    }

    /// The test that is run.
    pub fn run_options(&self) -> (options: RunOptions)
        requires
            self@.valid(),
            self@.stage is Running,
        ensures
            self@.describes_run(options),
            options.target@ == self@.target@,
            !options.force,
            self@.stage == (DialogueStage::Running { fresh: false }) ==> {
                &&& options.passes == self@.total_passes
                &&& options.verify == VerifyMode::Immediate
                &&& options.delay is None
                &&& options.cleanup == CleanupMode::OnSuccess
                &&& !options.stop_on_fail
            },
            self@.stage == (DialogueStage::Running { fresh: true }) ==> {
                &&& options.passes == self@.answers.passes
                &&& options.verify == self@.answers.verify
                &&& options.delay == self@.answers.delay
                &&& options.stop_on_fail == self@.answers.stop_on_fail
                &&& options.cleanup == CleanupMode::Never <==> self@.answers.keep_files
                &&& options.cleanup == CleanupMode::OnSuccess <==> !self@.answers.keep_files
            },
    {
        self.data.run_options()
    }

    /// Takes note of how the action ended, and says what the user is told.
    pub fn step(&mut self, event: DialogueEvent) -> (messages: Vec<Message>)
        requires
            old(self)@.valid(),
            old(self)@.admits(event),
        ensures
            final(self)@.valid(),
            old(self)@.moves(final(self)@, event),
            console::contents(messages@) == old(self)@.says(event),
    {
        self.data.step(event)
    }
}

/// A dialogue lets nothing be discarded: a test is only described for a volume
/// that has none, and for a volume that has one either its data is verified or
/// its next pass is run.
pub proof fn dialogue_respects_tests(before: DialogueData, after: DialogueData, state: TestState)
    requires
        before.valid(),
        before.stage == DialogueStage::Loading,
        before.moves(after, DialogueEvent::Loaded(Some(state))),
    ensures
        after.stage == DialogueStage::VerifyNow <==> state.status == StateStatus::PendingVerify,
        after.stage == DialogueStage::NextPass <==> state.status == StateStatus::PassComplete,
        after.stage != DialogueStage::VerifyNow && after.stage != DialogueStage::NextPass
            ==> after.stage == DialogueStage::Finished,
{
}

/// A question is asked again, and nothing is changed, until it is answered.
pub proof fn questions_are_repeated(before: DialogueData, after: DialogueData, line: Seq<char>)
    requires
        before.valid(),
        before.asks_yes_no(),
        before.hears(after, line),
        yes_or_no(line, before.default_answer()) is None,
    ensures
        after == before,
        before.replies(line) == seq![(Style::Error, "Please answer y or n."@)],
{
}

/// A test that goes on in a dialogue is discarded once its last pass is completed,
/// and kept when it has failed: whatever its earlier passes were run with.
pub proof fn continued_tests_are_tidied_up(
    dialogue: DialogueData,
    options: RunOptions,
    prepared: Prepared,
    course: Seq<SessionData>,
    events: Seq<SessionEvent>,
    k: int,
)
    requires
        dialogue.valid(),
        dialogue.stage == (DialogueStage::Running { fresh: false }),
        dialogue.describes_run(options),
        session::opens_test(course[0], options, prepared),
        session::is_session_course(course, events),
        0 <= k,
        k + 2 < course.len(),
        course[k].next_action() is Verify,
    ensures
        course[k + 1].state.status == StateStatus::Completed ==> course[k + 2].next_action()
            == SessionAction::Discard,
        course[k + 1].state.status == StateStatus::Failed ==> course[k + 2].next_action()
            == SessionAction::Finish,
        course[k + 1].state.status == StateStatus::PassComplete ==> course[k + 2].next_action()
            == SessionAction::RemoveFiles,
{
    session::runs_follow_their_options(options, prepared, course, events, k);
    session::verdicts_decide_what_follows(course, events, k);
}

/// A test that the user has described keeps its files exactly if the user wants
/// to keep them, or if it has failed.
pub proof fn described_tests_are_tidied_up(
    dialogue: DialogueData,
    options: RunOptions,
    prepared: Prepared,
    course: Seq<SessionData>,
    events: Seq<SessionEvent>,
    k: int,
)
    requires
        dialogue.valid(),
        dialogue.stage == (DialogueStage::Running { fresh: true }),
        dialogue.describes_run(options),
        session::opens_test(course[0], options, prepared),
        session::is_session_course(course, events),
        0 <= k,
        k + 2 < course.len(),
        course[k].next_action() is Verify,
    ensures
        course[k + 1].state.status == StateStatus::Completed && !dialogue.answers.keep_files
            ==> course[k + 2].next_action() == SessionAction::Discard,
        course[k + 1].state.status == StateStatus::Completed && dialogue.answers.keep_files
            ==> course[k + 2].next_action() == SessionAction::Finish,
        course[k + 1].state.status == StateStatus::Failed ==> course[k + 2].next_action()
            == SessionAction::Finish,
        course[k].stop_on_fail == dialogue.answers.stop_on_fail,
        course[k].verify == dialogue.answers.verify,
{
    session::runs_follow_their_options(options, prepared, course, events, k);
    session::verdicts_decide_what_follows(course, events, k);
}

/// A verification in a dialogue discards a test whose last pass it completes,
/// keeps one that has failed, and does not stop on a failure.
pub proof fn verified_tests_are_tidied_up(
    dialogue: DialogueData,
    options: VerifyOptions,
    pending: TestState,
    course: Seq<SessionData>,
    events: Seq<SessionEvent>,
    k: int,
)
    requires
        dialogue.valid(),
        dialogue.stage == DialogueStage::Verifying,
        dialogue.describes_verification(options),
        session::opens_verification(course[0], options, pending),
        session::is_session_course(course, events),
        0 <= k,
        k + 2 < course.len(),
        course[k].next_action() is Verify,
    ensures
        course[k + 1].state.status == StateStatus::Completed ==> course[k + 2].next_action()
            == SessionAction::Discard,
        course[k + 1].state.status == StateStatus::Failed ==> course[k + 2].next_action()
            == SessionAction::Finish,
        !course[k].stop_on_fail,
{
    session::verifications_follow_their_options(options, pending, course, events, k);
    session::verdicts_decide_what_follows(course, events, k);
}

/// A dialogue never has a test discarded, and tests the volume that was found at
/// its target.
pub proof fn dialogues_force_nothing(
    dialogue: DialogueData,
    run: RunOptions,
    verify: VerifyOptions,
)
    requires
        dialogue.valid(),
        dialogue.describes_run(run),
        dialogue.describes_verification(verify),
    ensures
        !run.force,
        run.target@ == dialogue.target@,
        verify.target@ == dialogue.target@,
        dialogue.volume is Some ==> run.volume == dialogue.volume->0 && verify.volume
            == dialogue.volume->0,
        run.progress == dialogue.progress,
        verify.progress == dialogue.progress,
        run.delay is Some <==> run.verify == VerifyMode::Delay,
        run.delay matches Some(seconds) ==> seconds > 0,
{
}

/// A yes is a `y` or a `yes`, a no is an `n` or a `no`, in upper or lower case and
/// with any white space around it. An empty line is the default, and nothing else
/// is an answer.
pub proof fn answers_are_yes_or_no(line: Seq<char>, word: Seq<char>, default: bool)
    requires
        text::lower(text::trim(line)) == word,
    ensures
        yes_or_no(line, default) == Some(true) <==> {
            ||| word == seq!['y'] || word == seq!['y', 'e', 's']
            ||| word.len() == 0 && default
        },
        yes_or_no(line, default) == Some(false) <==> {
            ||| word == seq!['n'] || word == seq!['n', 'o']
            ||| word.len() == 0 && !default
        },
{
    reveal_strlit("");
    reveal_strlit("y");
    reveal_strlit("yes");
    reveal_strlit("n");
    reveal_strlit("no");
    assert("y"@ =~= seq!['y']);
    assert("yes"@ =~= seq!['y', 'e', 's']);
    assert("n"@ =~= seq!['n']);
    assert("no"@ =~= seq!['n', 'o']);
    assert("y"@[0] == 'y' && "yes"@[0] == 'y' && "n"@[0] == 'n' && "no"@[0] == 'n');
    if word.len() == 0 {
        assert(word =~= ""@);
    }
}

/// A number of passes is read from its decimal notation, with any white space
/// around it; an empty line is the default, and zero is refused.
pub proof fn counts_are_read(line: Seq<char>, default: u32, n: nat)
    ensures
        text::trim(line).len() == 0 ==> count_in(line, default) == Some(default),
        text::trim(line) == text::decimal(n) ==> count_in(line, default) == if 1 <= n
            <= 4294967295 {
            Some(n as u32)
        } else {
            None::<u32>
        },
        count_in(line, default) matches Some(count) ==> count == default || (count >= 1
            && text::number(text::trim(line), 4294967295) == Some(count as nat)),
{
    text::decimal_reads_back(n, 4294967295);
    text::only_digits_are_numbers(text::trim(line), 4294967295);
}

/// A number of seconds is read from its decimal notation, whatever it is up to the
/// largest; an empty line is the default.
pub proof fn seconds_are_read(line: Seq<char>, default: u64, n: nat)
    ensures
        text::trim(line).len() == 0 ==> seconds_in(line, default) == Some(default),
        text::trim(line) == text::decimal(n) ==> seconds_in(line, default) == if n
            <= 18446744073709551615 {
            Some(n as u64)
        } else {
            None::<u64>
        },
        seconds_in(line, default) matches Some(seconds) ==> seconds == default || text::number(
            text::trim(line),
            18446744073709551615,
        ) == Some(seconds as nat),
{
    text::decimal_reads_back(n, 18446744073709551615);
    text::only_digits_are_numbers(text::trim(line), 18446744073709551615);
}

/// A target is named by its number in the list, which counts from one, or by its
/// path; a number that is not in the list names nothing.
pub proof fn targets_are_chosen(
    before: DialogueData,
    after: DialogueData,
    line: Seq<char>,
    n: nat,
)
    requires
        before.valid(),
        before.stage == DialogueStage::Target,
        before.hears(after, line),
        n <= usize::MAX,
    ensures
        text::trim(line).len() == 0 ==> after == before,
        text::trim(line) == text::decimal(n) && 1 <= n <= before.volumes@.len() ==> {
            &&& after.next_action() == DialogueAction::Find
            &&& after.target@ == before.volumes@[n - 1].mount_point@
        },
        text::trim(line) == text::decimal(n) && !(1 <= n <= before.volumes@.len()) ==> {
            &&& after == before
            &&& before.replies(line) == seq![(Style::Error, "Invalid volume number."@)]
        },
        text::trim(line).len() > 0 && text::number(text::trim(line), usize::MAX as nat) is None
            ==> {
            &&& after.next_action() == DialogueAction::Find
            &&& after.target@ == text::trim(line)
        },
        after.volumes == before.volumes,
        after.answers == before.answers,
        after.progress == before.progress,
{
    text::decimal_reads_back(n, usize::MAX as nat);
}

/// What becomes of a target that is looked up: a volume is tested, a path that is
/// no volume is asked for again, and a volume of the list that is gone ends the
/// dialogue.
pub proof fn targets_are_looked_up(
    before: DialogueData,
    after: DialogueData,
    found: Option<VolumeInfo>,
)
    requires
        before.valid(),
        before.stage is Looking,
        before.moves(after, DialogueEvent::Found(found)),
    ensures
        found matches Some(volume) ==> {
            &&& after.next_action() == DialogueAction::Load
            &&& after.volume == Some(volume)
        },
        found is None && before.stage->typed ==> {
            &&& after.stage == DialogueStage::Target
            &&& after.next_action() == DialogueAction::Ask
        },
        found is None && !before.stage->typed ==> after.next_action() == DialogueAction::Fail,
        after.target == before.target,
{
}

/// A test is described only for a volume without one. Of a test that is there the
/// data is verified or the next pass is run if the user says yes to that, and in
/// every other case nothing is done.
pub proof fn tests_are_taken_up(
    before: DialogueData,
    asked: DialogueData,
    after: DialogueData,
    state: Option<TestState>,
    line: Seq<char>,
)
    requires
        before.valid(),
        before.stage == DialogueStage::Loading,
        before.moves(asked, DialogueEvent::Loaded(state)),
        asked.next_action() == DialogueAction::Ask,
        asked.hears(after, line),
    ensures
        state is None ==> asked.stage == DialogueStage::Passes,
        state matches Some(found) ==> {
            &&& found.status == StateStatus::PendingVerify || found.status
                == StateStatus::PassComplete
            &&& yes_or_no(line, true) == Some(true) && found.status == StateStatus::PendingVerify
                ==> after.next_action() == DialogueAction::Verify
            &&& yes_or_no(line, true) == Some(true) && found.status == StateStatus::PassComplete
                ==> after.next_action() == DialogueAction::Run && after.total_passes
                == found.total_passes && after.stage == (DialogueStage::Running { fresh: false })
            &&& yes_or_no(line, true) == Some(false) ==> after.next_action()
                == DialogueAction::Finish
            &&& yes_or_no(line, true) is None ==> after == asked
        },
        after.target == before.target,
        after.volume == before.volume,
{
}

/// A test in any other state is left alone.
pub proof fn other_tests_are_left_alone(
    before: DialogueData,
    after: DialogueData,
    state: TestState,
)
    requires
        before.valid(),
        before.stage == DialogueStage::Loading,
        before.moves(after, DialogueEvent::Loaded(Some(state))),
        state.status != StateStatus::PendingVerify,
        state.status != StateStatus::PassComplete,
    ensures
        after.next_action() == DialogueAction::Finish,
        before.says(DialogueEvent::Loaded(Some(state))).len() == 1,
{
}

/// What the user answers is what the test is run with: the number of passes, when
/// it is verified, whether it stops on a failure and whether its files are kept.
/// The questions come in this order, and a yes to the last one starts the test.
pub proof fn answers_are_kept(before: DialogueData, after: DialogueData, line: Seq<char>)
    requires
        before.valid(),
        before.next_action() == DialogueAction::Ask,
        before.hears(after, line),
    ensures
        before.stage == DialogueStage::Passes && count_in(line, 1) is Some ==> {
            &&& after.answers == (Answers { passes: count_in(line, 1)->0, ..before.answers })
            &&& after.stage == DialogueStage::Immediate
        },
        before.stage == DialogueStage::Immediate && yes_or_no(line, true) == Some(true) ==> {
            &&& after.answers == (Answers {
                verify: VerifyMode::Immediate,
                delay: None,
                ..before.answers
            })
            &&& after.stage == DialogueStage::StopOnFail
        },
        before.stage == DialogueStage::Immediate && yes_or_no(line, true) == Some(false) ==> {
            &&& after.answers == before.answers
            &&& after.stage == DialogueStage::Delay
        },
        before.stage == DialogueStage::Delay && seconds_in(line, 0) is Some ==> {
            &&& seconds_in(line, 0)->0 == 0 ==> after.answers.verify == VerifyMode::Later
                && after.answers.delay is None
            &&& seconds_in(line, 0)->0 > 0 ==> after.answers.verify == VerifyMode::Delay
                && after.answers.delay == seconds_in(line, 0)
            &&& after.answers.passes == before.answers.passes
            &&& after.answers.stop_on_fail == before.answers.stop_on_fail
            &&& after.answers.keep_files == before.answers.keep_files
            &&& after.stage == DialogueStage::StopOnFail
        },
        before.stage == DialogueStage::StopOnFail && yes_or_no(line, true) is Some ==> {
            &&& after.answers == (Answers {
                stop_on_fail: yes_or_no(line, true)->0,
                ..before.answers
            })
            &&& after.stage == DialogueStage::KeepFiles
        },
        before.stage == DialogueStage::KeepFiles && yes_or_no(line, false) is Some ==> {
            &&& after.answers == (Answers {
                keep_files: yes_or_no(line, false)->0,
                ..before.answers
            })
            &&& after.stage == DialogueStage::Confirm
        },
        before.stage == DialogueStage::Confirm && yes_or_no(line, true) == Some(true) ==> {
            &&& after.answers == before.answers
            &&& after.stage == (DialogueStage::Running { fresh: true })
            &&& after.next_action() == DialogueAction::Run
        },
        before.stage == DialogueStage::Confirm && yes_or_no(line, true) == Some(false) ==>
            after.next_action() == DialogueAction::Finish,
        before.stage == DialogueStage::Passes && count_in(line, 1) is None ==> after == before,
        before.stage == DialogueStage::Delay && seconds_in(line, 0) is None ==> after == before,
        after.volume == before.volume,
        after.progress == before.progress,
        before.stage != DialogueStage::Target ==> after.target == before.target,
{
}

/// After a verification that has succeeded the next pass is offered exactly if
/// there is one; everything else ends the dialogue. The report is told in any case.
pub proof fn reports_end_the_dialogue(
    before: DialogueData,
    after: DialogueData,
    report: TestReport,
)
    requires
        before.valid(),
        before.stage == DialogueStage::Verifying || before.stage is Running,
        before.moves(after, DialogueEvent::Reported(report)),
    ensures
        before.next_action() == DialogueAction::Verify && report.success
            && report.passes_completed < report.passes_total ==> {
            &&& after.stage == DialogueStage::MorePasses
            &&& after.next_action() == DialogueAction::Ask
            &&& after.total_passes == report.passes_total
        },
        before.next_action() == DialogueAction::Run || !report.success || report.passes_completed
            >= report.passes_total ==> after.next_action() == DialogueAction::Finish,
        before.says(DialogueEvent::Reported(report)).len() >= report::report_lines(
            report,
            None,
            None,
        ).len() + 1,
{
}

/// A dialogue begins exactly if there are volumes, with the question for one of
/// them and with the answers that an empty line stands for.
pub proof fn dialogues_need_volumes(
    volumes: Vec<VolumeInfo>,
    console: Console,
    progress: bool,
    result: Result<(Dialogue, Vec<Message>), InteractiveError>,
)
    requires
        call_ensures(Dialogue::new, (volumes, &console, progress), result),
    ensures
        result is Ok <==> volumes@.len() > 0,
        result matches Err(error) ==> error is NoVolumes,
        result matches Ok(begun) ==> {
            let data = begun.0@;
            &&& data.next_action() == DialogueAction::Ask
            &&& data.stage == DialogueStage::Target
            &&& data.volumes@ == volumes@
            &&& data.answers.passes == 1
            &&& data.answers.verify == VerifyMode::Immediate
            &&& data.answers.delay is None
            &&& data.answers.stop_on_fail
            &&& !data.answers.keep_files
            &&& data.progress == progress
        },
{
}

/// A dialogue takes every end that its action can come to: any line, any volume or
/// none, any state or none, and any report.
pub proof fn every_answer_is_taken(
    dialogue: DialogueData,
    line: String,
    found: Option<VolumeInfo>,
    loaded: Option<TestState>,
    report: TestReport,
)
    ensures
        dialogue.admits(DialogueEvent::Line(line)) <==> dialogue.next_action()
            == DialogueAction::Ask,
        dialogue.admits(DialogueEvent::Found(found)) <==> dialogue.next_action()
            == DialogueAction::Find,
        dialogue.admits(DialogueEvent::Loaded(loaded)) <==> dialogue.next_action()
            == DialogueAction::Load,
        dialogue.admits(DialogueEvent::Reported(report)) <==> dialogue.next_action()
            == DialogueAction::Verify || dialogue.next_action() == DialogueAction::Run,
{
}

/// What a line means where a volume is asked for: nothing if it is empty, the
/// volume with that number in the list, and else a path.
pub proof fn target_answers_are_read(answer: TargetAnswer, line: Seq<char>, count: nat, n: nat)
    requires
        is_target_answer(answer, line, count),
        n <= usize::MAX,
    ensures
        text::trim(line).len() == 0 <==> answer is Empty,
        text::trim(line) == text::decimal(n) && 1 <= n <= count ==> (
        answer matches TargetAnswer::Volume(index) && index == n - 1),
        text::trim(line) == text::decimal(n) && !(1 <= n <= count) ==> answer is Invalid,
        answer matches TargetAnswer::Volume(index) ==> index < count,
        answer matches TargetAnswer::Path(path) ==> path@ == text::trim(line),
{
    text::decimal_reads_back(n, usize::MAX as nat);
}

/// What the user has chosen is summed up before the test starts: the volume, the
/// passes, when it is verified, and what happens on a failure and to the files.
pub proof fn choices_are_summed_up(volume: VolumeInfo, answers: Answers)
    ensures
        ({
            let lines = summary(volume, answers);
            let n = lines.len() as int;
            &&& n == if answers.delay is Some {
                7int
            } else {
                6
            }
            &&& lines[1].1 == "Target: "@ + volume.title()
            &&& lines[2].1 == "Passes: "@ + text::decimal(answers.passes as nat)
            &&& answers.verify == VerifyMode::Immediate ==> lines[3].1 == "Verify: "@
                + "immediate"@
            &&& answers.verify == VerifyMode::Later ==> lines[3].1 == "Verify: "@ + "later"@
            &&& answers.verify == VerifyMode::Delay ==> lines[3].1 == "Verify: "@
                + "after delay"@
            &&& answers.delay matches Some(seconds) ==> lines[4].1 == "Delay: "@ + text::decimal(
                seconds as nat,
            ) + " second(s)"@
            &&& lines[n - 2].1 == "On failure: "@ + if answers.stop_on_fail {
                "stop immediately"@
            } else {
                "continue"@
            }
            &&& lines[n - 1].1 == "Test files: "@ + if answers.keep_files {
                "keep"@
            } else {
                "remove on success"@
            }
        }),
{
}

/// An empty line is a yes to every question but whether to keep the files.
pub proof fn defaults_are_yes_but_for_keeping(before: DialogueData, after: DialogueData, line: Seq<char>)
    requires
        before.valid(),
        before.asks_yes_no(),
        before.hears(after, line),
        text::trim(line).len() == 0,
    ensures
        before.stage == DialogueStage::VerifyNow ==> after.stage == DialogueStage::Verifying,
        before.stage == DialogueStage::MorePasses || before.stage == DialogueStage::NextPass
            ==> after.stage == (DialogueStage::Running { fresh: false }),
        before.stage == DialogueStage::Immediate ==> after.answers.verify == VerifyMode::Immediate,
        before.stage == DialogueStage::StopOnFail ==> after.answers.stop_on_fail,
        before.stage == DialogueStage::KeepFiles ==> !after.answers.keep_files,
        before.stage == DialogueStage::Confirm ==> after.stage == (DialogueStage::Running {
            fresh: true,
        }),
{
    let word = text::lower(text::trim(line));
    answers_are_yes_or_no(line, word, before.default_answer());
}

/// A dialogue opens with the table of volumes.
pub proof fn dialogues_open_with_the_volumes(volumes: Seq<VolumeInfo>)
    ensures
        opening(volumes).len() == volumes.len() + 4,
        opening(volumes)[0] == (Style::Plain, "Available volumes:"@),
        opening(volumes).subrange(1, volumes.len() as int + 3) == console::table(volumes),
{
    assert(opening(volumes).subrange(1, volumes.len() as int + 3) =~= console::table(volumes));
}

/// A question says which answer an empty line stands for.
pub proof fn questions_show_their_default(dialogue: DialogueData)
    requires
        dialogue.asks_yes_no(),
    ensures
        dialogue.default_answer() <==> text::has_suffix(dialogue.question(), "[Y/n] "@),
        !dialogue.default_answer() <==> text::has_suffix(dialogue.question(), "[y/N] "@),
{
    reveal_strlit("[Y/n] ");
    reveal_strlit("[y/N] ");
    reveal_strlit("检测到存在已经写入数据，是否立刻校验？ [Y/n] ");
    reveal_strlit("还有未完成的跑圈，是否继续下一圈？ [Y/n] ");
    reveal_strlit("检测到上一圈已完成，是否继续下一圈？ [Y/n] ");
    reveal_strlit("Write then verify immediately? [Y/n] ");
    reveal_strlit("Stop on first failure? [Y/n] ");
    reveal_strlit("Keep test files after verification? [y/N] ");
    reveal_strlit("Start test? [Y/n] ");
    let asked = dialogue.question();
    let end = asked.skip(asked.len() - 6);
    if dialogue.default_answer() {
        assert(end =~= "[Y/n] "@);
        assert("[y/N] "@[1] == 'y' && end[1] == 'Y');
    } else {
        assert(end =~= "[y/N] "@);
        assert("[Y/n] "@[1] == 'Y' && end[1] == 'y');
    }
}

/// A target that is no volume is named in what the user is told of it.
pub proof fn lost_targets_are_named(dialogue: DialogueData, error: InteractiveError)
    ensures
        error matches InteractiveError::NotARoot(target) ==> error.text() == target@
            + " is not a mounted volume root"@,
        dialogue.stage == (DialogueStage::Looking { typed: true }) ==> dialogue.says(
            DialogueEvent::Found(None),
        ) == seq![(Style::Error, dialogue.target@ + " is not a mounted volume root."@)],
{
}

/// The volumes of a dialogue and whether it shows progress stay as they are, and
/// only a line from the user changes the answers.
pub proof fn dialogues_keep_what_they_know(
    before: DialogueData,
    after: DialogueData,
    event: DialogueEvent,
)
    requires
        before.valid(),
        before.admits(event),
        before.moves(after, event),
    ensures
        after.volumes == before.volumes,
        after.progress == before.progress,
        event !is Line ==> after.answers == before.answers && after.target == before.target,
        event !is Found ==> after.volume == before.volume,
        event is Line || event is Found ==> after.total_passes == before.total_passes,
{
}

} // verus!
