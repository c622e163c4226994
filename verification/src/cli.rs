//! The command line: what is asked for, and what is answered.

use crate::console::{self, format_bytes, say, say_volumes, Console, Message, Style};
use crate::engine::{RunOptions, VerifyOptions};
use crate::manifest::{self, TestFile, TestState};
use crate::text;
use crate::types::{CleanupMode, ColorMode, VerifyMode};
use crate::volume::{self, normalize_target_path, VolumeInfo};
use vstd::prelude::*;

verus! {

/// The command line.
#[derive(Debug)]
pub struct Cli {
    /// Emit machine-readable JSON where supported.
    pub json: bool,
    /// Control ANSI colors.
    pub color: ColorMode,
    /// Disable live speed/progress output.
    pub no_progress: bool,
    pub command: Option<Commands>,
}

/// What is to be done.
#[derive(Debug)]
pub enum Commands {
    /// List mounted volumes that can be tested.
    List,
    /// Write test data to a mounted volume and optionally verify it.
    Run(RunArgs),
    /// Verify test data previously written to a mounted volume.
    Verify(VerifyArgs),
    /// Show the persisted test state for a mounted volume.
    Status(StatusArgs),
}

/// How a test is to be run.
#[derive(Debug)]
pub struct RunArgs {
    /// Mount point or drive letter to test, for example /mnt/usb or E:\.
    pub target: String,
    /// Number of write/verify passes.
    pub passes: u32,
    /// When to verify the written data.
    pub verify: VerifyMode,
    /// Seconds to wait before verification when --verify delay is used.
    pub delay: Option<u64>,
    /// Stop the current pass after the first failed file.
    pub stop_on_fail: bool,
    /// What to do with test files after verification.
    pub cleanup: CleanupMode,
    /// Discard existing test state on the target volume and start over.
    pub force: bool,
}

/// How test data is to be verified.
#[derive(Debug)]
pub struct VerifyArgs {
    /// Mount point or drive letter containing pending test data.
    pub target: String,
    /// Stop the pass after the first failed file.
    pub stop_on_fail: bool,
    /// What to do with test files after verification.
    pub cleanup: CleanupMode,
}

/// What the state is asked of.
#[derive(Debug)]
pub struct StatusArgs {
    /// Mount point or drive letter to inspect.
    pub target: String,
}

/// Why a command line is refused.
#[derive(Debug, Clone, Copy, PartialEq, Eq, Structural)]
pub enum CliError {
    /// Verification is to be delayed, and nothing says for how long.
    DelayRequired,
}

impl CliError {
    /// What the message of an error says.
    pub open spec fn text(self) -> Seq<char> {
        match self {
            CliError::DelayRequired => "--delay is required when --verify delay is used"@,
        }
    }

    /// The message of an error.
    pub fn message(self) -> (message: &'static str)
        ensures
            message@ == self.text(),
    {
        match self {
            CliError::DelayRequired => "--delay is required when --verify delay is used",
        }
    }
}

/// What a command line comes to, with its target in the form the platform wants.
#[derive(Debug)]
pub enum Task {
    /// Ask the user.
    Interactive,
    /// List the volumes.
    List,
    /// Test a target.
    Run(String),
    /// Verify what is on a target.
    Verify(String),
    /// Show the state of a target.
    Status(String),
}

impl Cli {
    /// Tells whether live progress is shown.
    pub fn shows_progress(&self, console: &Console) -> (result: bool)
        ensures
            result == (console.on_terminal() && !self.no_progress),
    {
        console.progress_enabled() && !self.no_progress
    }

    /// What the command line comes to.
    pub fn task(&self, windows: bool) -> (result: Result<Task, CliError>)
        ensures
            match self.command {
                None => result matches Ok(Task::Interactive),
                Some(Commands::List) => result matches Ok(Task::List),
                Some(Commands::Run(args)) => if args.verify == VerifyMode::Delay && args.delay
                    is None {
                    result == Err::<Task, CliError>(CliError::DelayRequired)
                } else {
                    result matches Ok(Task::Run(target)) && target@ == volume::normalized_target(
                        args.target@,
                        windows,
                    )
                },
                Some(Commands::Verify(args)) => result matches Ok(Task::Verify(target)) && target@
                    == volume::normalized_target(args.target@, windows),
                Some(Commands::Status(args)) => result matches Ok(Task::Status(target)) && target@
                    == volume::normalized_target(args.target@, windows),
            },
    {
        match &self.command {
            None => Ok(Task::Interactive),
            Some(Commands::List) => Ok(Task::List),
            Some(Commands::Run(args)) => {
                if args.verify == VerifyMode::Delay && args.delay.is_none() {
                    return Err(CliError::DelayRequired);
                }
                Ok(Task::Run(normalize_target_path(args.target.as_str(), windows)))
            },
            Some(Commands::Verify(args)) => Ok(
                Task::Verify(normalize_target_path(args.target.as_str(), windows)),
            ),
            Some(Commands::Status(args)) => Ok(
                Task::Status(normalize_target_path(args.target.as_str(), windows)),
            ),
        }
    }
}

impl RunArgs {
    /// The test that is asked for, on a target and its volume.
    pub fn options(&self, target: String, volume: VolumeInfo, progress: bool) -> (options:
        RunOptions)
        ensures
            options == (RunOptions {
                target,
                volume,
                passes: manifest::at_least_one(self.passes),
                verify: self.verify,
                delay: self.delay,
                stop_on_fail: self.stop_on_fail,
                cleanup: self.cleanup,
                force: self.force,
                progress,
            }),
    {
        RunOptions {
            target,
            volume,
            passes: if self.passes < 1 {
                1
            } else {
                self.passes
            },
            verify: self.verify,
            delay: self.delay,
            stop_on_fail: self.stop_on_fail,
            cleanup: self.cleanup,
            force: self.force,
            progress,
        }
    }
}

impl VerifyArgs {
    /// The verification that is asked for, on a target and its volume.
    pub fn options(&self, target: String, volume: VolumeInfo, progress: bool) -> (options:
        VerifyOptions)
        ensures
            options == (VerifyOptions {
                target,
                volume,
                stop_on_fail: self.stop_on_fail,
                cleanup: self.cleanup,
                progress,
            }),
    {
        VerifyOptions {
            target,
            volume,
            stop_on_fail: self.stop_on_fail,
            cleanup: self.cleanup,
            progress,
        }
    }
}

/// The answer to a request for the volumes.
pub fn list_report(console: &Console, volumes: &[VolumeInfo]) -> (messages: Vec<Message>)
    ensures
        console::contents(messages@) == if volumes@.len() == 0 {
            seq![(Style::Warn, "No testable mounted volumes found."@)]
        } else {
            console::table(volumes@)
        },
{
    let mut messages: Vec<Message> = Vec::new();
    assert(console::contents(messages@) =~= Seq::empty());
    if volumes.len() == 0 {
        say(&mut messages, Style::Warn, "No testable mounted volumes found.".to_owned());
        assert(console::contents(messages@) =~= seq![
            (Style::Warn, "No testable mounted volumes found."@),
        ]);
    } else {
        say_volumes(&mut messages, console, volumes);
        assert(console::contents(messages@) =~= console::table(volumes@));
    }
    messages
}

/// What is known of the test on a volume.
#[derive(Debug, Clone, Copy, PartialEq, Eq, Structural)]
pub enum StatusSummary {
    /// There is a state.
    State,
    /// There is no state, but there are test files; the first one belongs to a
    /// pass.
    Pending { files: usize, pass: u32, total_passes: u32 },
    /// There is nothing.
    Nothing,
}

/// What a state and test files tell.
pub open spec fn summary_of(known: bool, files: Seq<TestFile>) -> StatusSummary {
    if known {
        StatusSummary::State
    } else if files.len() > 0 {
        StatusSummary::Pending {
            files: files.len() as usize,
            pass: files[0].pass,
            total_passes: files[0].total_passes,
        }
    } else {
        StatusSummary::Nothing
    }
}

/// Sums up what is known of the test on a volume.
pub fn status_summary(known: bool, files: &[TestFile]) -> (summary: StatusSummary)
    ensures
        summary == summary_of(known, files@),
{
    if known {
        StatusSummary::State
    } else if files.len() > 0 {
        StatusSummary::Pending {
            files: files.len(),
            pass: files[0].pass,
            total_passes: files[0].total_passes,
        }
    } else {
        StatusSummary::Nothing
    }
}

/// The lines on a state.
pub open spec fn state_lines(state: TestState) -> Seq<(Style, Seq<char>)> {
    let lines = seq![
        (Style::Plain, "Target: "@ + state.target@),
        (Style::Plain, "Status: "@ + state.status.text()),
        (
            Style::Plain,
            "Passes: "@ + text::decimal(state.completed_passes as nat) + "/"@ + text::decimal(
                state.total_passes as nat,
            ),
        ),
        (Style::Plain, "Current pass: "@ + text::decimal(state.current_pass as nat)),
        (
            Style::Plain,
            "Capacity: "@ + console::size_text(state.actual_total) + " / "@ + console::size_text(
                state.expected_total,
            ),
        ),
    ];
    match state.last_error {
        Some(error) => lines.push((Style::Plain, "Last error: "@ + error@)),
        None => lines,
    }
}

/// The lines on a volume's test.
pub open spec fn status_lines(state: Option<TestState>, files: Seq<TestFile>) -> Seq<
    (Style, Seq<char>),
> {
    match state {
        Some(state) => state_lines(state),
        None => if files.len() > 0 {
            seq![
                (
                    Style::Warn,
                    "No state file, but "@ + text::decimal(files.len())
                        + " pending test file(s) found."@,
                ),
                (
                    Style::Plain,
                    "Detected pass: "@ + text::decimal(files[0].pass as nat) + " / "@
                        + text::decimal(files[0].total_passes as nat),
                ),
            ]
        } else {
            seq![(Style::Warn, "No test state found for this volume."@)]
        },
    }
}

fn state_report(state: &TestState) -> (messages: Vec<Message>)
    ensures
        console::contents(messages@) == state_lines(*state),
{
    let mut messages: Vec<Message> = Vec::new();
    assert(console::contents(messages@) =~= Seq::empty());
    say(&mut messages, Style::Plain, "Target: ".to_owned().concat(state.target.as_str()));
    say(&mut messages, Style::Plain, "Status: ".to_owned().concat(state.status.name()));
    let mut passes = "Passes: ".to_owned();
    text::push_decimal(&mut passes, state.completed_passes as u64);
    passes.append("/");
    text::push_decimal(&mut passes, state.total_passes as u64);
    say(&mut messages, Style::Plain, passes);
    let mut current = "Current pass: ".to_owned();
    text::push_decimal(&mut current, state.current_pass as u64);
    say(&mut messages, Style::Plain, current);
    say(
        &mut messages,
        Style::Plain,
        "Capacity: ".to_owned().concat(format_bytes(state.actual_total).as_str()).concat(
            " / ",
        ).concat(format_bytes(state.expected_total).as_str()),
    );
    if let Some(error) = &state.last_error {
        say(&mut messages, Style::Plain, "Last error: ".to_owned().concat(error.as_str()));
    }
    assert(console::contents(messages@) =~= state_lines(*state));
    messages
}

/// The answer to a request for the state of a volume.
pub fn status_report(state: &Option<TestState>, files: &[TestFile]) -> (messages: Vec<Message>)
    ensures
        console::contents(messages@) == status_lines(*state, files@),
{
    if let Some(state) = state {
        return state_report(state);
    }
    let mut messages: Vec<Message> = Vec::new();
    assert(console::contents(messages@) =~= Seq::empty());
    if files.len() > 0 {
        let mut count = "No state file, but ".to_owned();
        text::push_decimal(&mut count, files.len() as u64);
        count.append(" pending test file(s) found.");
        say(&mut messages, Style::Warn, count);
        let mut pass = "Detected pass: ".to_owned();
        text::push_decimal(&mut pass, files[0].pass as u64);
        pass.append(" / ");
        text::push_decimal(&mut pass, files[0].total_passes as u64);
        say(&mut messages, Style::Plain, pass);
    } else {
        say(&mut messages, Style::Warn, "No test state found for this volume.".to_owned());
    }
    assert(console::contents(messages@) =~= status_lines(*state, files@));
    messages
}

/// The exit code of a test that came to a report.
pub fn exit_code(success: bool) -> (code: i32)
    ensures
        code == if success {
            0i32
        } else {
            1i32
        },
{
    if success {
        0
    } else {
        1
    }
}

/// What is told of a volume: its state if there is one, else the test files on it,
/// and else that there is nothing.
pub proof fn statuses_are_told(state: Option<TestState>, files: Seq<TestFile>)
    ensures
        state matches Some(known) ==> status_lines(state, files)[0] == (
            Style::Plain,
            "Target: "@ + known.target@,
        ) && status_lines(state, files)[1] == (Style::Plain, "Status: "@ + known.status.text())
            && status_lines(state, files)[2].1 == "Passes: "@ + text::decimal(
            known.completed_passes as nat,
        ) + "/"@ + text::decimal(known.total_passes as nat) && status_lines(state, files)[3].1
            == "Current pass: "@ + text::decimal(known.current_pass as nat) && status_lines(
            state,
            files,
        )[4].1 == "Capacity: "@ + console::size_text(known.actual_total) + " / "@
            + console::size_text(known.expected_total) && status_lines(state, files).len() == if known.last_error
            is Some {
            6nat
        } else {
            5
        },
        state matches Some(known) ==> (known.last_error matches Some(error) ==> status_lines(
            state,
            files,
        )[5] == (Style::Plain, "Last error: "@ + error@)),
        state is None && files.len() > 0 ==> status_lines(state, files).len() == 2
            && status_lines(state, files)[0].0 == Style::Warn && status_lines(state, files)[1].1
            == "Detected pass: "@ + text::decimal(files[0].pass as nat) + " / "@ + text::decimal(
            files[0].total_passes as nat,
        ),
        state is None && files.len() == 0 ==> status_lines(state, files) == seq![
            (Style::Warn, "No test state found for this volume."@),
        ],
{
}

/// A state goes before test files, and test files before nothing: they are counted,
/// and the first one tells the pass.
pub proof fn summaries_follow_what_is_known(files: Seq<TestFile>)
    ensures
        summary_of(true, files) == StatusSummary::State,
        files.len() == 0 ==> summary_of(false, files) == StatusSummary::Nothing,
        0 < files.len() <= usize::MAX ==> (summary_of(false, files) matches StatusSummary::Pending {
            files: count,
            pass,
            total_passes,
        } && count == files.len() && pass == files[0].pass && total_passes
            == files[0].total_passes),
{
}

/// A test that succeeded exits with zero, and one that did not with one.
pub proof fn exit_codes_tell_success(success: bool, code: i32)
    requires
        call_ensures(exit_code, (success,), code),
    ensures
        code == 0 <==> success,
        code == 1 <==> !success,
{
}

/// A command line is refused exactly if it asks to delay verification and does not
/// say for how long.
pub proof fn only_a_missing_delay_is_refused(
    cli: Cli,
    windows: bool,
    result: Result<Task, CliError>,
)
    requires
        call_ensures(Cli::task, (&cli, windows), result),
    ensures
        result is Err <==> (cli.command matches Some(Commands::Run(args)) && args.verify
            == VerifyMode::Delay && args.delay is None),
{
}

/// A command line without a command begins a dialogue. Each command is carried out
/// on the target that it names, which is taken as it is but on Windows.
pub proof fn commands_become_tasks(cli: Cli, windows: bool, result: Result<Task, CliError>)
    requires
        call_ensures(Cli::task, (&cli, windows), result),
        result is Ok,
    ensures
        cli.command is None <==> result->Ok_0 is Interactive,
        (cli.command matches Some(command) && command is List) <==> result->Ok_0 is List,
        cli.command matches Some(Commands::Run(args)) ==> (result->Ok_0 matches Task::Run(target)
            && (!windows || args.target@.len() != 2 ==> target@ == args.target@)),
        cli.command matches Some(Commands::Verify(args)) ==> (
        result->Ok_0 matches Task::Verify(target) && (!windows || args.target@.len() != 2
            ==> target@ == args.target@)),
        cli.command matches Some(Commands::Status(args)) ==> (
        result->Ok_0 matches Task::Status(target) && (!windows || args.target@.len() != 2
            ==> target@ == args.target@)),
{
}

/// What is asked for on the command line is what the test is run with, but for a
/// number of passes below one.
pub proof fn arguments_become_options(
    args: RunArgs,
    target: String,
    volume: VolumeInfo,
    progress: bool,
    options: RunOptions,
)
    requires
        call_ensures(RunArgs::options, (&args, target, volume, progress), options),
    ensures
        options.target == target,
        options.volume == volume,
        args.passes >= 1 ==> options.passes == args.passes,
        args.passes == 0 ==> options.passes == 1,
        options.verify == args.verify,
        options.delay == args.delay,
        options.stop_on_fail == args.stop_on_fail,
        options.cleanup == args.cleanup,
        options.force == args.force,
        options.progress == progress,
{
}

/// What is asked for on the command line is what data is verified with.
pub proof fn arguments_become_verification(
    args: VerifyArgs,
    target: String,
    volume: VolumeInfo,
    progress: bool,
    options: VerifyOptions,
)
    requires
        call_ensures(VerifyArgs::options, (&args, target, volume, progress), options),
    ensures
        options.target == target,
        options.volume == volume,
        options.stop_on_fail == args.stop_on_fail,
        options.cleanup == args.cleanup,
        options.progress == progress,
{
}

/// Progress is shown only on a terminal, and never if it is switched off.
pub proof fn progress_needs_a_terminal(cli: Cli, console: Console, shown: bool, possible: bool)
    requires
        call_ensures(Cli::shows_progress, (&cli, &console), shown),
        call_ensures(Console::progress_enabled, (&console,), possible),
    ensures
        shown <==> possible && !cli.no_progress,
{
}

/// The volumes are listed with a line for each behind the heading, and a warning
/// stands where there are none.
pub proof fn volumes_are_listed(
    console: Console,
    volumes: &[VolumeInfo],
    messages: Vec<Message>,
)
    requires
        call_ensures(list_report, (&console, volumes), messages),
    ensures
        volumes@.len() == 0 ==> messages@.len() == 1 && messages@[0].style == Style::Warn,
        volumes@.len() > 0 ==> messages@.len() == volumes@.len() + 2,
{
    assert(console::contents(messages@).len() == messages@.len());
    if volumes@.len() == 0 {
        assert(console::contents(messages@)[0] == messages@[0]@);
    } else {
        console::every_volume_has_a_row(volumes@, 0);
    }
}

} // verus!
