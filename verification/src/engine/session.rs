//! A test of several passes, step by step: what is done next, and what becomes
//! of the state and the report.

use crate::console::{self, Message, Style};
use crate::engine::pass::{self, PassData, PassStage, WritePass, WritePassResult};
use crate::engine::preparation::{self, prepare_manifest, Prepared, Removal};
use crate::engine::recovery::{self, recover_state};
use crate::engine::verifying::{self, VerifyData, VerifyPass, VerifyPassResult};
use crate::engine::{
    cleanup_after_failure, cleanup_after_success, EngineError, FileRecord, RunOptions, TestReport,
    VerifyOptions,
};
use crate::manifest::{self, copy_records, same_files, StateStatus, TestFile, TestState};
use crate::text;
use crate::types::{CleanupMode, VerifyMode};
use vstd::prelude::*;

verus! {

/// Where a session stands.
#[derive(Debug, Clone, Copy, PartialEq, Eq, Structural)]
pub enum Stage {
    /// An earlier test is discarded.
    DiscardingOld,
    /// The files of the last pass are removed.
    RemovingOld,
    /// The state is saved at the start of a pass.
    SavingStart,
    /// The files of a pass are written.
    Writing,
    /// The state is saved with what was written.
    SavingWritten,
    /// Time passes before verification.
    Waiting,
    /// The state is saved at the start of a verification of its own.
    SavingVerifying,
    /// The files of a pass are verified.
    Verifying,
    /// The state is saved with what the verification gave.
    SavingVerdict,
    /// The test is discarded.
    Discarding,
    /// The files of the pass are removed.
    RemovingFiles,
    /// The session is over.
    Finished,
}

/// What is to be done next.
#[derive(Debug, Clone, Copy, PartialEq, Eq, Structural)]
pub enum SessionAction {
    /// Remove the test files and the state.
    Discard,
    /// Remove the test files.
    RemoveFiles,
    /// Save the state.
    Save,
    /// Write the files of a pass.
    Write(u32),
    /// Let so many seconds pass.
    Wait(u64),
    /// Verify the files of the pass.
    Verify,
    /// Nothing.
    Finish,
}

/// How an action ended.
#[derive(Debug)]
pub enum SessionEvent {
    Done,
    Written(WritePassResult),
    Verified(VerifyPassResult),
}

/// A test, or a verification of test data that was written earlier.
#[derive(Debug)]
pub struct SessionData {
    pub state: TestState,
    pub report: TestReport,
    pub stage: Stage,
    pub verify: VerifyMode,
    pub delay: u64,
    pub stop_on_fail: bool,
    pub cleanup: CleanupMode,
    /// Only what was written earlier is verified.
    pub lone: bool,
}

/// A pass begins.
pub open spec fn begins_pass(before: TestState, after: TestState) -> bool {
    &&& after.files@ == Seq::<FileRecord>::empty()
    &&& after == TestState {
        current_pass: (before.completed_passes + 1) as u32,
        status: StateStatus::Writing,
        last_error: None,
        files: after.files,
        ..before
    }
}

/// What a pass wrote is taken down.
pub open spec fn takes_writing(
    before: TestState,
    after: TestState,
    result: WritePassResult,
) -> bool {
    after == TestState {
        expected_total: result.expected_total,
        actual_total: result.actual_total,
        capacity_ok: result.capacity_ok,
        files: result.files,
        status: StateStatus::PendingVerify,
        ..before
    }
}

/// All the files are of a pass.
pub open spec fn all_of_pass(records: Seq<FileRecord>, pass: u32) -> bool {
    forall|i: int| 0 <= i < records.len() ==> (#[trigger] records[i]).file.pass == pass
}

fn are_of_pass(records: &Vec<FileRecord>, pass: u32) -> (result: bool)
    ensures
        result == all_of_pass(records@, pass),
{
    let mut i: usize = 0;
    while i < records.len()
        invariant
            i <= records@.len(),
            forall|k: int| 0 <= k < i ==> (#[trigger] records@[k]).file.pass == pass,
        decreases records@.len() - i,
    {
        if records[i].file.pass != pass {
            return false;
        }
        i += 1;
    }
    true
}

/// The verdict on a pass is taken down: the test has failed if the data is not
/// good or the capacity is not there, and else the pass is complete, and with
/// the last pass the test.
pub open spec fn takes_verdict(
    before: TestState,
    after: TestState,
    result: VerifyPassResult,
) -> bool {
    if !result.data_ok || !before.capacity_ok {
        &&& after == TestState {
            status: StateStatus::Failed,
            last_error: after.last_error,
            files: result.files,
            ..before
        }
        &&& after.last_error matches Some(error) && error@ == if before.capacity_ok {
            "verification failed"@
        } else {
            "capacity shortfall"@
        }
    } else {
        after == TestState {
            completed_passes: before.current_pass,
            status: if before.current_pass >= before.total_passes {
                StateStatus::Completed
            } else {
                StateStatus::PassComplete
            },
            files: result.files,
            ..before
        }
    }
}

impl SessionData {
    /// What is to be done next.
    pub open spec fn next_action(self) -> SessionAction {
        match self.stage {
            Stage::DiscardingOld | Stage::Discarding => SessionAction::Discard,
            Stage::RemovingOld | Stage::RemovingFiles => SessionAction::RemoveFiles,
            Stage::SavingStart | Stage::SavingWritten | Stage::SavingVerifying
            | Stage::SavingVerdict => SessionAction::Save,
            Stage::Writing => SessionAction::Write(self.state.current_pass),
            Stage::Waiting => SessionAction::Wait(self.delay),
            Stage::Verifying => SessionAction::Verify,
            Stage::Finished => SessionAction::Finish,
        }
    }

    /// The event is one that the action can end in: what was written are files of
    /// the current pass, with room in the counts of the report, and what was
    /// verified are the files of the pass, all of them where the data is good, and
    /// with a name for each that failed.
    pub open spec fn admits(self, event: SessionEvent) -> bool {
        match self.stage {
            Stage::Finished => false,
            Stage::Writing => {
                &&& event matches SessionEvent::Written(result)
                &&& self.report.files_total + result.files@.len() <= u32::MAX
                &&& all_of_pass(result.files@, self.state.current_pass)
            },
            Stage::Verifying => {
                &&& event matches SessionEvent::Verified(result)
                &&& manifest::facts_of(result.files@) == manifest::facts_of(self.state.files@)
                &&& result.failed_files@.len() == result.failed
                &&& result.passed + result.failed <= result.files@.len()
                &&& result.data_ok <==> result.failed == 0
                &&& result.data_ok ==> result.passed == result.files@.len()
            },
            _ => event is Done,
        }
    }

    /// The pass that is written or verified is the one behind the completed ones.
    pub open spec fn in_pass(self) -> bool {
        &&& !self.lone
        &&& self.state.completed_passes < self.state.total_passes
        &&& self.state.current_pass == self.state.completed_passes + 1
    }

    /// The verdict on the last pass is in the state.
    pub open spec fn settled(self) -> bool {
        match self.state.status {
            StateStatus::Failed => self.state.last_error is Some && (self.lone || self.in_pass()),
            StateStatus::Completed => self.state.completed_passes >= self.state.total_passes
                && self.state.capacity_ok,
            StateStatus::PassComplete => self.state.completed_passes < self.state.total_passes
                && self.state.capacity_ok,
            _ => false,
        }
    }

    /// The session ends with the state as it is.
    pub open spec fn is_success(self) -> bool {
        match self.state.status {
            StateStatus::Completed => true,
            StateStatus::PassComplete => self.lone,
            StateStatus::PendingVerify => self.stage == Stage::Finished && self.state.capacity_ok,
            _ => false,
        }
    }

    /// The status fits the stage, and the report fits the state.
    pub open spec fn valid(self) -> bool {
        let status = self.state.status;
        &&& match self.stage {
            Stage::DiscardingOld | Stage::RemovingOld | Stage::SavingStart | Stage::Writing =>
                self.in_pass() && status == StateStatus::Writing && self.state.last_error is None,
            Stage::SavingWritten => self.in_pass() && status == StateStatus::PendingVerify,
            Stage::Waiting => self.in_pass() && status == StateStatus::PendingVerify
                && self.verify == VerifyMode::Delay && self.delay > 0,
            Stage::SavingVerifying => self.lone && status == StateStatus::Verifying,
            Stage::Verifying => if self.lone {
                status == StateStatus::Verifying
            } else {
                self.in_pass() && status == StateStatus::PendingVerify && self.verify
                    != VerifyMode::Later
            },
            Stage::SavingVerdict => self.settled(),
            Stage::Discarding => self.settled() && match status {
                StateStatus::Failed => self.cleanup == CleanupMode::Always,
                StateStatus::Completed => self.cleanup != CleanupMode::Never,
                _ => false,
            },
            Stage::RemovingFiles => self.settled() && status == StateStatus::PassComplete,
            Stage::Finished => if status == StateStatus::PendingVerify {
                self.in_pass() && self.verify == VerifyMode::Later
            } else {
                self.settled() && (status == StateStatus::PassComplete ==> self.lone)
            },
        }
        &&& !self.lone ==> self.state.completed_passes <= self.state.total_passes
        &&& self.report.passes_total == self.state.total_passes
        &&& self.report.passes_completed == self.state.completed_passes
        &&& self.report.success == self.is_success()
        &&& self.report.pending_verify == (self.stage == Stage::Finished && status
            == StateStatus::PendingVerify)
        &&& status != StateStatus::Writing ==> {
            &&& self.report.expected_total == self.state.expected_total
            &&& self.report.actual_total == self.state.actual_total
            &&& self.report.capacity_ok == self.state.capacity_ok
        }
        &&& !self.lone && status == StateStatus::PendingVerify ==> all_of_pass(
            self.state.files@,
            self.state.current_pass,
        )
        &&& self.report.files_failed == self.report.failed_files@.len()
        &&& status != StateStatus::Failed ==> {
            &&& self.report.files_failed == 0
            &&& self.report.files_total == self.report.files_passed + self.unverified()
        }
    }

    /// The number of files that are written and not yet verified.
    pub open spec fn unverified(self) -> nat {
        match self.state.status {
            StateStatus::PendingVerify | StateStatus::Verifying => self.state.files@.len(),
            _ => 0,
        }
    }

    /// The parts of a session that never change.
    pub open spec fn same_terms(self, after: SessionData) -> bool {
        &&& after.verify == self.verify
        &&& after.delay == self.delay
        &&& after.stop_on_fail == self.stop_on_fail
        &&& after.cleanup == self.cleanup
        &&& after.lone == self.lone
    }

    /// The session goes on in a stage and is otherwise unchanged.
    pub open spec fn only_at(self, after: SessionData, stage: Stage) -> bool {
        after == SessionData { stage, ..self }
    }

    /// Where the session goes on when the verdict is saved.
    pub open spec fn after_verdict(self) -> Stage {
        match self.state.status {
            StateStatus::Failed => if self.cleanup == CleanupMode::Always {
                Stage::Discarding
            } else {
                Stage::Finished
            },
            StateStatus::PassComplete => Stage::RemovingFiles,
            _ => if self.cleanup == CleanupMode::Never {
                Stage::Finished
            } else {
                Stage::Discarding
            },
        }
    }

    /// The session goes on as `after` when its action has ended.
    pub open spec fn moves(self, after: SessionData, event: SessionEvent) -> bool {
        match self.stage {
            Stage::DiscardingOld | Stage::RemovingOld => self.only_at(after, Stage::SavingStart),
            Stage::SavingStart => self.only_at(after, Stage::Writing),
            Stage::Writing => {
                &&& event matches SessionEvent::Written(result)
                &&& self.same_terms(after)
                &&& after.stage == Stage::SavingWritten
                &&& takes_writing(self.state, after.state, result)
                &&& after.report == (TestReport {
                    files_total: (self.report.files_total + result.files@.len()) as u32,
                    expected_total: result.expected_total,
                    actual_total: result.actual_total,
                    capacity_ok: result.capacity_ok,
                    ..self.report
                })
            },
            Stage::SavingWritten => if self.verify == VerifyMode::Later {
                after == (SessionData {
                    stage: Stage::Finished,
                    report: TestReport {
                        pending_verify: true,
                        success: self.report.capacity_ok,
                        ..self.report
                    },
                    ..self
                })
            } else if self.verify == VerifyMode::Delay && self.delay > 0 {
                self.only_at(after, Stage::Waiting)
            } else {
                self.only_at(after, Stage::Verifying)
            },
            Stage::Waiting | Stage::SavingVerifying => self.only_at(after, Stage::Verifying),
            Stage::Verifying => {
                &&& event matches SessionEvent::Verified(result)
                &&& self.same_terms(after)
                &&& after.stage == Stage::SavingVerdict
                &&& takes_verdict(self.state, after.state, result)
                &&& after.report == (TestReport {
                    files_passed: (self.report.files_passed + result.passed) as u32,
                    files_failed: (self.report.files_failed + result.failed) as u32,
                    failed_files: after.report.failed_files,
                    passes_completed: after.state.completed_passes,
                    success: after.is_success(),
                    ..self.report
                })
                &&& after.report.failed_files@ == self.report.failed_files@ + result.failed_files@
            },
            Stage::SavingVerdict => self.only_at(after, self.after_verdict()),
            Stage::Discarding => self.only_at(after, Stage::Finished),
            Stage::RemovingFiles => if self.lone {
                self.only_at(after, Stage::Finished)
            } else {
                &&& self.same_terms(after)
                &&& after.stage == Stage::SavingStart
                &&& begins_pass(self.state, after.state)
                &&& after.report == self.report
            },
            Stage::Finished => false,
        }
    }

    /// What the user is told when an action has ended.
    pub open spec fn says(self) -> Seq<(Style, Seq<char>)> {
        if self.stage == Stage::SavingStart {
            let pass = "Pass "@ + text::decimal(self.state.current_pass as nat) + "/"@
                + text::decimal(self.state.total_passes as nat) + ": writing test data"@;
            if self.verify == VerifyMode::Later {
                seq![(Style::Info, pass + " (verification deferred)"@)]
            } else {
                seq![(Style::Info, pass)]
            }
        } else if self.stage == Stage::SavingWritten && self.verify == VerifyMode::Delay
            && self.delay > 0 {
            seq![
                (
                    Style::Info,
                    "Waiting "@ + text::decimal(self.delay as nat)
                        + " second(s) before verification..."@,
                ),
            ]
        } else {
            Seq::empty()
        }
    }

    /// A bound on the actions that are left.
    pub open spec fn work_left(self) -> int {
        let passes = if self.lone {
            0
        } else {
            self.state.total_passes - self.state.completed_passes
        };
        let again = !self.lone && self.state.status == StateStatus::PassComplete;
        passes * 20 + match self.stage {
            Stage::DiscardingOld | Stage::RemovingOld => 11int,
            Stage::SavingStart => 10,
            Stage::Writing => 9,
            Stage::SavingWritten => 8,
            Stage::Waiting | Stage::SavingVerifying => 7,
            Stage::Verifying => 6,
            Stage::SavingVerdict => if again {
                13
            } else {
                5
            },
            Stage::Discarding => 4,
            Stage::RemovingFiles => if again {
                12
            } else {
                4
            },
            Stage::Finished => 0,
        }
    }

    /// Takes down what a pass wrote.
    fn written(&mut self, result: WritePassResult)
        requires
            old(self).valid(),
            old(self).stage == Stage::Writing,
            old(self).admits(SessionEvent::Written(result)),
        ensures
            final(self).valid(),
            old(self).moves(*final(self), SessionEvent::Written(result)),
    {
        self.report.files_total = self.report.files_total + result.files.len() as u32;
        self.report.expected_total = result.expected_total;
        self.report.actual_total = result.actual_total;
        self.report.capacity_ok = result.capacity_ok;
        self.state.expected_total = result.expected_total;
        self.state.actual_total = result.actual_total;
        self.state.capacity_ok = result.capacity_ok;
        self.state.status = StateStatus::PendingVerify;
        self.state.files = result.files;
        self.stage = Stage::SavingWritten;
    }

    /// Takes down what a verification gave.
    fn verified(&mut self, result: VerifyPassResult)
        requires
            old(self).valid(),
            old(self).stage == Stage::Verifying,
            old(self).admits(SessionEvent::Verified(result)),
        ensures
            final(self).valid(),
            old(self).moves(*final(self), SessionEvent::Verified(result)),
    {
        proof {
            let facts = manifest::facts_of(result.files@);
            assert(facts.len() == result.files@.len());
            assert(manifest::facts_of(self.state.files@).len() == self.state.files@.len());
        }
        let mut failed_files = result.failed_files;
        let ghost added = failed_files@;
        self.report.files_passed = self.report.files_passed + result.passed;
        self.report.files_failed = self.report.files_failed + result.failed;
        self.report.failed_files.append(&mut failed_files);
        assert(self.report.failed_files@ =~= old(self).report.failed_files@ + added);
        if !result.data_ok || !self.state.capacity_ok {
            self.state.last_error = Some(
                if self.state.capacity_ok {
                    "verification failed".to_owned()
                } else {
                    "capacity shortfall".to_owned()
                },
            );
            self.state.status = StateStatus::Failed;
        } else {
            self.state.completed_passes = self.state.current_pass;
            self.report.passes_completed = self.state.current_pass;
            if self.state.current_pass >= self.state.total_passes {
                self.state.status = StateStatus::Completed;
                self.report.success = true;
            } else {
                self.state.status = StateStatus::PassComplete;
                self.report.success = self.lone;
            }
        }
        self.state.files = result.files;
        self.stage = Stage::SavingVerdict;
    }

    /// Begins the next pass.
    fn begin_pass(&mut self)
        requires
            old(self).state.completed_passes < old(self).state.total_passes,
        ensures
            begins_pass(old(self).state, final(self).state),
            *final(self) == (SessionData {
                state: final(self).state,
                stage: Stage::SavingStart,
                ..*old(self)
            }),
    {
        self.state.current_pass = self.state.completed_passes + 1;
        self.state.status = StateStatus::Writing;
        self.state.last_error = None;
        self.state.files = Vec::new();
        self.stage = Stage::SavingStart;
    }

    /// What is to be done next.
    fn action(&self) -> (action: SessionAction)
        ensures
            action == self.next_action(),
    {
        match self.stage {
            Stage::DiscardingOld | Stage::Discarding => SessionAction::Discard,
            Stage::RemovingOld | Stage::RemovingFiles => SessionAction::RemoveFiles,
            Stage::SavingStart | Stage::SavingWritten | Stage::SavingVerifying
            | Stage::SavingVerdict => SessionAction::Save,
            Stage::Writing => SessionAction::Write(self.state.current_pass),
            Stage::Waiting => SessionAction::Wait(self.delay),
            Stage::Verifying => SessionAction::Verify,
            Stage::Finished => SessionAction::Finish,
        }
    }

    /// Tells whether the action can end in an event, with room for it in the
    /// counts of the report.
    fn accepts(&self, event: &SessionEvent) -> (result: bool)
        ensures
            result == self.admits(*event),
    {
        match (self.stage, event) {
            (Stage::Finished, _) => false,
            (Stage::Writing, SessionEvent::Written(result)) => {
                let room: u32 = u32::MAX - self.report.files_total;
                result.files.len() <= room as usize && are_of_pass(
                    &result.files,
                    self.state.current_pass,
                )
            },
            (Stage::Verifying, SessionEvent::Verified(result)) => {
                let count: usize = result.files.len();
                let passed: u64 = result.passed as u64;
                let failed: u64 = result.failed as u64;
                same_files(&result.files, &self.state.files) && result.failed_files.len()
                    == result.failed as usize && passed + failed <= count as u64 && result.data_ok == (result.failed == 0) && (!result.data_ok || passed
                    == count as u64)
            },
            (Stage::Writing, _) | (Stage::Verifying, _) => false,
            (_, SessionEvent::Done) => true,
            _ => false,
        }
    }

    /// What the user is told when the action has ended.
    fn announcement(&self) -> (messages: Vec<Message>)
        ensures
            console::contents(messages@) == self.says(),
    {
        let mut messages: Vec<Message> = Vec::new();
        if self.stage == Stage::SavingStart {
            let mut line = "Pass ".to_owned();
            text::push_decimal(&mut line, self.state.current_pass as u64);
            line.append("/");
            text::push_decimal(&mut line, self.state.total_passes as u64);
            line.append(": writing test data");
            if self.verify == VerifyMode::Later {
                line.append(" (verification deferred)");
            }
            messages.push(Message::new(Style::Info, line));
            assert(console::contents(messages@) =~= self.says());
        } else if self.stage == Stage::SavingWritten && self.verify == VerifyMode::Delay
            && self.delay > 0 {
            let mut line = "Waiting ".to_owned();
            text::push_decimal(&mut line, self.delay);
            line.append(" second(s) before verification...");
            messages.push(Message::new(Style::Info, line));
            assert(console::contents(messages@) =~= self.says());
        } else {
            assert(console::contents(messages@) =~= self.says());
        }
        messages
    }

    /// Takes note of how the action ended.
    fn step(&mut self, event: SessionEvent) -> (messages: Vec<Message>)
        requires
            old(self).valid(),
            old(self).admits(event),
        ensures
            final(self).valid(),
            old(self).moves(*final(self), event),
            console::contents(messages@) == old(self).says(),
    {
        let messages = self.announcement();
        match event {
            SessionEvent::Written(result) => {
                self.written(result);
            },
            SessionEvent::Verified(result) => {
                self.verified(result);
            },
            SessionEvent::Done => {
                match self.stage {
                    Stage::DiscardingOld | Stage::RemovingOld => {
                        self.stage = Stage::SavingStart;
                    },
                    Stage::SavingStart => {
                        self.stage = Stage::Writing;
                    },
                    Stage::SavingWritten => {
                        if self.verify == VerifyMode::Later {
                            self.report.pending_verify = true;
                            self.report.success = self.report.capacity_ok;
                            self.stage = Stage::Finished;
                        } else if self.verify == VerifyMode::Delay && self.delay > 0 {
                            self.stage = Stage::Waiting;
                        } else {
                            self.stage = Stage::Verifying;
                        }
                    },
                    Stage::Waiting | Stage::SavingVerifying => {
                        self.stage = Stage::Verifying;
                    },
                    Stage::SavingVerdict => {
                        self.stage = match self.state.status {
                            StateStatus::Failed => if cleanup_after_failure(self.cleanup) {
                                Stage::Discarding
                            } else {
                                Stage::Finished
                            },
                            StateStatus::PassComplete => Stage::RemovingFiles,
                            _ => if cleanup_after_success(self.cleanup) {
                                Stage::Discarding
                            } else {
                                Stage::Finished
                            },
                        };
                    },
                    Stage::Discarding => {
                        self.stage = Stage::Finished;
                    },
                    Stage::RemovingFiles => {
                        if self.lone {
                            self.stage = Stage::Finished;
                        } else {
                            self.begin_pass();
                        }
                    },
                    Stage::Writing | Stage::Verifying | Stage::Finished => {},
                }
            },
        }
        messages
    }
}

/// A test, or a verification of test data that was written earlier, that is
/// performed step by step.
#[derive(Debug)]
pub struct Session {
    data: SessionData,
}

impl Session {
    /// Where the session stands.
    pub closed spec fn view(self) -> SessionData {
        self.data
    }

    /// Where the session stands.
    pub fn data(&self) -> (data: &SessionData)
        ensures
            *data == self@,
    {
        &self.data
    }

    /// What is to be done next.
    pub fn action(&self) -> (action: SessionAction)
        ensures
            action == self@.next_action(),
            action matches SessionAction::Wait(seconds) ==> seconds == self@.delay,
            action matches SessionAction::Write(pass) ==> pass == self@.state.current_pass,
    {
        self.data.action()
    }

    /// Tells whether the action can end in an event.
    pub fn accepts(&self, event: &SessionEvent) -> (result: bool)
        ensures
            result == self@.admits(*event),
    {
        self.data.accepts(event)
    }

    /// Takes note of how the action ended, and says what the user is told.
    pub fn step(&mut self, event: SessionEvent) -> (messages: Vec<Message>)
        requires
            old(self)@.valid(),
            old(self)@.admits(event),
        ensures
            final(self)@.valid(),
            old(self)@.moves(final(self)@, event),
            console::contents(messages@) == old(self)@.says(),
    {
        self.data.step(event)
    }

    /// Records that the state is saved at the time `now`.
    pub fn touch(&mut self, now: u64)
        ensures
            final(self)@ == (SessionData {
                state: TestState { updated_unix: now, ..old(self)@.state },
                ..old(self)@
            }),
            old(self)@.valid() ==> final(self)@.valid(),
    {
        self.data.state.touch(now);
    }

    /// Starts to write the files of the current pass, on a file system with so much
    /// free space.
    pub fn writing(&self, filesystem: &str, free: u64) -> (result: Result<WritePass, EngineError>)
        requires
            self@.stage == Stage::Writing,
        ensures
            pass::is_start(
                result,
                self@.report.target@,
                filesystem@,
                self@.state.current_pass,
                self@.state.total_passes,
                free,
            ),
    {
        WritePass::start(
            self.data.report.target.as_str(),
            filesystem,
            self.data.state.current_pass,
            self.data.state.total_passes,
            free,
        )
    }

    /// The verification of the files of the current pass.
    pub fn verification(&self) -> (pass: VerifyPass)
        requires
            self@.valid(),
            self@.stage == Stage::Verifying,
        ensures
            pass@.valid(),
            pass@.files@ == self@.state.files@,
            pass@.next == 0,
            pass@.stop_on_fail == self@.stop_on_fail,
    {
        VerifyPass::new(copy_records(&self.data.state.files), self.data.stop_on_fail)
    }

    /// The report of the session.
    pub fn into_report(self) -> (report: TestReport)
        ensures
            report == self@.report,
    {
        self.data.report
    }
}

/// The report of a session that has done nothing yet.
pub open spec fn opens_report(report: TestReport, target: Seq<char>, state: TestState) -> bool {
    &&& report.target@ == target
    &&& report.passes_total == state.total_passes
    &&& report.passes_completed == state.completed_passes
    &&& report.files_passed == 0
    &&& report.files_failed == 0
    &&& report.failed_files@ == Seq::<String>::empty()
    &&& !report.pending_verify
    &&& !report.success
}

/// The session of a test that begins or goes on with what was prepared: the
/// next pass has begun, and what is in its way is removed first.
pub open spec fn opens_test(session: SessionData, options: RunOptions, prepared: Prepared) -> bool {
    &&& session.valid()
    &&& begins_pass(prepared.state, session.state)
    &&& opens_report(session.report, options.target@, prepared.state)
    &&& session.report.files_total == 0
    &&& session.report.expected_total == 0
    &&& session.report.actual_total == 0
    &&& !session.report.capacity_ok
    &&& session.stage == match prepared.removal {
        Removal::Nothing => Stage::SavingStart,
        Removal::Files => Stage::RemovingOld,
        Removal::Everything => Stage::DiscardingOld,
    }
    &&& session.verify == options.verify
    &&& session.delay == match options.delay {
        Some(seconds) => seconds,
        None => 0,
    }
    &&& session.stop_on_fail == options.stop_on_fail
    &&& session.cleanup == options.cleanup
    &&& !session.lone
}

/// Begins a test of a volume, given the state that was found for it, whether
/// there are test files on it, and the time.
pub fn run_test(
    options: &RunOptions,
    loaded: Option<TestState>,
    files_present: bool,
    now: u64,
) -> (result: Result<Session, EngineError>)
    ensures
        match result {
            Ok(session) => exists|prepared: Prepared|
                preparation::is_prepared(Ok(prepared), *options, loaded, files_present, now)
                    && #[trigger] opens_test(session@, *options, prepared),
            Err(error) => preparation::is_prepared(Err(error), *options, loaded, files_present, now),
        },
        result matches Ok(session) ==> {
            &&& session@.valid()
            &&& session@.stop_on_fail == options.stop_on_fail
            &&& session@.cleanup == options.cleanup
            &&& session@.verify == options.verify
            &&& options.delay matches Some(seconds) ==> session@.delay == seconds
            &&& options.delay is None ==> session@.delay == 0
            &&& session@.report.target@ == options.target@
            &&& !session@.lone
        },
{
    let prepared = match prepare_manifest(options, loaded, files_present, now) {
        Ok(prepared) => prepared,
        Err(error) => {
            return Err(error);
        },
    };
    let ghost begun = prepared;
    let Prepared { removal, state } = prepared;
    let mut report = TestReport::new(options.target.as_str());
    report.passes_total = state.total_passes;
    report.passes_completed = state.completed_passes;
    let mut session = SessionData {
        state,
        report,
        stage: Stage::SavingStart,
        verify: options.verify,
        delay: match options.delay {
            Some(seconds) => seconds,
            None => 0,
        },
        stop_on_fail: options.stop_on_fail,
        cleanup: options.cleanup,
        lone: false,
    };
    session.begin_pass();
    session.stage = match removal {
        Removal::Nothing => Stage::SavingStart,
        Removal::Files => Stage::RemovingOld,
        Removal::Everything => Stage::DiscardingOld,
    };
    assert(opens_test(session, *options, begun));
    Ok(Session { data: session })
}

/// The session of a verification of the files that a state lists.
pub open spec fn opens_verification(
    session: SessionData,
    options: VerifyOptions,
    pending: TestState,
) -> bool {
    &&& session.valid()
    &&& session.state == (TestState {
        status: StateStatus::Verifying,
        last_error: None,
        ..pending
    })
    &&& opens_report(session.report, options.target@, pending)
    &&& session.report.files_total == pending.files@.len()
    &&& session.report.expected_total == pending.expected_total
    &&& session.report.actual_total == pending.actual_total
    &&& session.report.capacity_ok == pending.capacity_ok
    &&& session.stage == Stage::SavingVerifying
    &&& session.verify == VerifyMode::Immediate
    &&& session.delay == 0
    &&& session.stop_on_fail == options.stop_on_fail
    &&& session.cleanup == options.cleanup
    &&& session.lone
}

/// Begins to verify what was written earlier, given the state that was found for
/// the volume, the test files on it, and the time. The files that the state lists
/// are verified. Where there is no state, it is recovered from the files.
pub fn verify_test(
    options: &VerifyOptions,
    loaded: Option<TestState>,
    files: &[TestFile],
    now: u64,
) -> (result: Result<Session, EngineError>)
    requires
        loaded is None && files@.len() > 0 ==> recovery::fits(files@, files@[0].pass),
        loaded matches Some(state) ==> state.files@.len() <= u32::MAX,
    ensures
        match loaded {
            None => if files@.len() == 0 {
                result matches Err(EngineError::NoTestData(t)) && t == options.target
            } else {
                result matches Ok(session) && exists|pending: TestState|
                    recovery::is_recovered(pending, *options, files@, now)
                        && #[trigger] opens_verification(session@, *options, pending)
            },
            Some(state) => if state.status == StateStatus::PendingVerify {
                result matches Ok(session) && opens_verification(session@, *options, state)
            } else {
                result matches Err(EngineError::NotPending(t, status)) && t == options.target
                    && status == state.status
            },
        },
        result matches Ok(session) ==> {
            &&& session@.valid()
            &&& session@.stop_on_fail == options.stop_on_fail
            &&& session@.cleanup == options.cleanup
            &&& session@.report.target@ == options.target@
            &&& session@.next_action() == SessionAction::Save
            &&& session@.lone
        },
{
    let mut state = match loaded {
        Some(state) => state,
        None => {
            if files.len() == 0 {
                return Err(EngineError::NoTestData(options.target.clone()));
            }
            recover_state(options, files, now)
        },
    };
    if state.status != StateStatus::PendingVerify {
        return Err(EngineError::NotPending(options.target.clone(), state.status));
    }
    let ghost pending = state;
    state.status = StateStatus::Verifying;
    state.last_error = None;
    let mut report = TestReport::new(options.target.as_str());
    report.passes_total = state.total_passes;
    report.passes_completed = state.completed_passes;
    report.files_total = state.files.len() as u32;
    report.expected_total = state.expected_total;
    report.actual_total = state.actual_total;
    report.capacity_ok = state.capacity_ok;
    let data = SessionData {
        state,
        report,
        stage: Stage::SavingVerifying,
        verify: VerifyMode::Immediate,
        delay: 0,
        stop_on_fail: options.stop_on_fail,
        cleanup: options.cleanup,
        lone: true,
    };
    assert(opens_verification(data, *options, pending));
    Ok(Session { data })
}

/// A session comes to an end: each step leaves less to do.
pub proof fn sessions_end(before: SessionData, after: SessionData, event: SessionEvent)
    requires
        before.valid(),
        before.admits(event),
        before.moves(after, event),
        after.valid(),
    ensures
        0 <= after.work_left() < before.work_left(),
{
}

/// A test never loses a completed pass, never counts more than there are, and
/// completes them one by one.
pub proof fn passes_are_counted(before: SessionData, after: SessionData, event: SessionEvent)
    requires
        before.valid(),
        before.admits(event),
        before.moves(after, event),
        !before.lone,
    ensures
        after.state.total_passes == before.state.total_passes,
        after.state.completed_passes <= after.state.total_passes,
        after.state.completed_passes == before.state.completed_passes
            || after.state.completed_passes == before.state.completed_passes + 1,
{
}

/// A test succeeds exactly if it has completed every pass, or if its data is
/// written, still to be verified and meets the capacity. Where it succeeds there
/// is no failed file and none is named, and every file was verified that is not
/// still to be.
pub proof fn success_is_earned(session: SessionData)
    requires
        session.valid(),
        !session.lone,
        session.stage == Stage::Finished,
    ensures
        session.report.success <==> if session.report.pending_verify {
            session.report.capacity_ok
        } else {
            session.report.passes_completed == session.report.passes_total
        },
        session.report.success ==> {
            &&& session.report.files_failed == 0
            &&& session.report.failed_files@.len() == 0
            &&& session.report.capacity_ok
            &&& !session.report.pending_verify ==> session.report.files_passed
                == session.report.files_total
        },
        session.report.pending_verify <==> session.state.status == StateStatus::PendingVerify,
        session.report.pending_verify ==> session.verify == VerifyMode::Later,
{
}

/// A verification of its own succeeds exactly if its state has not failed, with
/// no failed file, none named, and every file verified.
pub proof fn lone_success_is_earned(session: SessionData)
    requires
        session.valid(),
        session.lone,
        session.stage == Stage::Finished,
    ensures
        session.report.success <==> session.state.status != StateStatus::Failed,
        session.report.success ==> {
            &&& session.report.files_failed == 0
            &&& session.report.failed_files@.len() == 0
            &&& session.report.capacity_ok
            &&& session.report.files_passed == session.report.files_total
        },
{
}

/// Each failed file is named, at every moment of a session.
pub proof fn failed_files_are_named(session: SessionData)
    requires
        session.valid(),
    ensures
        session.report.files_failed == session.report.failed_files@.len(),
{
}

/// A failed file or a missing capacity makes a session fail, and nothing else
/// does.
pub proof fn failures_are_reported(before: SessionData, after: SessionData, result: VerifyPassResult)
    requires
        before.valid(),
        before.stage == Stage::Verifying,
        before.admits(SessionEvent::Verified(result)),
        before.moves(after, SessionEvent::Verified(result)),
    ensures
        after.state.status == StateStatus::Failed <==> !(result.data_ok
            && before.state.capacity_ok),
        after.state.status == StateStatus::Failed ==> !after.report.success,
{
}

/// What is kept of a test that is over: it is discarded after success unless
/// test files are never removed, and after failure only if they always are.
pub proof fn cleanup_is_respected(before: SessionData, after: SessionData, event: SessionEvent)
    requires
        before.valid(),
        before.stage == Stage::SavingVerdict,
        before.admits(event),
        before.moves(after, event),
        before.state.status != StateStatus::PassComplete,
    ensures
        after.next_action() == SessionAction::Discard <==> {
            ||| before.cleanup == CleanupMode::Always
            ||| before.cleanup == CleanupMode::OnSuccess && before.state.status
                == StateStatus::Completed
        },
{
}

/// What a session leaves behind can be taken up again: data that is still to be
/// verified waits for a verification, and after a completed pass a run goes on
/// with the next one.
pub proof fn tests_can_be_continued(
    session: SessionData,
    result: Result<Prepared, EngineError>,
    options: RunOptions,
    files_present: bool,
    now: u64,
)
    requires
        session.valid(),
        session.stage == Stage::Finished,
        !options.force,
        preparation::is_prepared(result, options, Some(session.state), files_present, now),
    ensures
        session.report.pending_verify ==> session.state.status == StateStatus::PendingVerify,
        session.state.status == StateStatus::PassComplete ==> (result matches Ok(prepared)
            && prepared.state.completed_passes == session.state.completed_passes
            && prepared.state.total_passes == session.state.total_passes),
{
}

/// What a pass writes is what a session takes: the files of the pass that it has
/// started are those of its current pass.
pub proof fn written_pass_is_taken(session: SessionData, writing: PassData, result: WritePassResult)
    requires
        session.valid(),
        session.stage == Stage::Writing,
        writing.valid(),
        writing.pass == session.state.current_pass,
        writing.ends_with(result),
        session.report.files_total + writing.files@.len() <= u32::MAX,
    ensures
        session.admits(SessionEvent::Written(result)),
{
    assert forall|i: int| 0 <= i < result.files@.len() implies (
    #[trigger] result.files@[i]).file.pass == session.state.current_pass by {
        assert(writing.lists(i));
    }
}

/// What a verification of a session's files comes to is what the session takes.
pub proof fn verification_is_taken(
    session: SessionData,
    verifying: VerifyData,
    result: VerifyPassResult,
)
    requires
        session.valid(),
        session.stage == Stage::Verifying,
        verifying.valid(),
        verifying.finished(),
        manifest::files_in(verifying.files@) == manifest::files_in(session.state.files@),
        verifying.ends_with(result),
    ensures
        session.admits(SessionEvent::Verified(result)),
{
    let bad = verifying::with_verdict(verifying.files@.take(verifying.next as int), false);
    assert(text::string_texts(verifying.failed_files@).len() == verifying.failed_files@.len());
    assert(verifying::names_of(bad).len() == bad.len());
    assert(manifest::files_in(verifying.files@).len() == verifying.files@.len());
    assert(manifest::files_in(session.state.files@).len() == session.state.files@.len());
}

/// A pass that was written and saved is verified as it was written: the session
/// of a later verification has exactly the files of the pass, with their seeds
/// and sizes, whatever is found on the volume meanwhile.
pub proof fn saved_pass_is_verified(
    writing: PassData,
    result: WritePassResult,
    before: TestState,
    state: TestState,
    saved: u64,
    options: VerifyOptions,
    session: SessionData,
)
    requires
        writing.valid(),
        writing.stage == PassStage::Finished,
        writing.ends_with(result),
        takes_writing(before, state, result),
        opens_verification(session, options, TestState { updated_unix: saved, ..state }),
    ensures
        session.state.files@ == writing.files@,
        session.report.files_total == writing.files@.len(),
        session.state.actual_total == writing.actual_total,
        session.report.actual_total == writing.actual_total,
        session.report.capacity_ok == pass::capacity_met(
            writing.expected_total,
            writing.actual_total,
        ),
{
}

/// Two reports say the same.
pub open spec fn same_report(a: TestReport, b: TestReport) -> bool {
    &&& a.target@ == b.target@
    &&& a.passes_total == b.passes_total
    &&& a.passes_completed == b.passes_completed
    &&& a.files_total == b.files_total
    &&& a.files_passed == b.files_passed
    &&& a.files_failed == b.files_failed
    &&& text::string_texts(a.failed_files@) == text::string_texts(b.failed_files@)
    &&& a.expected_total == b.expected_total
    &&& a.actual_total == b.actual_total
    &&& a.capacity_ok == b.capacity_ok
    &&& a.pending_verify == b.pending_verify
    &&& a.success == b.success
}

/// The course of a run on a volume where nothing is in the way, up to where its
/// first pass is written and saved: `course` holds the session at its start and
/// after each step.
pub open spec fn writes_first_pass(
    course: Seq<SessionData>,
    options: RunOptions,
    prepared: Prepared,
    written: WritePassResult,
) -> bool {
    &&& course.len() == 4
    &&& prepared.removal == Removal::Nothing
    &&& opens_test(course[0], options, prepared)
    &&& course[0].moves(course[1], SessionEvent::Done)
    &&& course[1].admits(SessionEvent::Written(written))
    &&& course[1].moves(course[2], SessionEvent::Written(written))
    &&& course[2].moves(course[3], SessionEvent::Done)
}

/// A deferred verification verifies what an immediate one does, and reports the
/// same: the files of the pass, with their sizes, are kept in the state, also
/// those that could not be created. `later` is a run that defers verification
/// and `now` one that verifies at once, of a test whose last pass they write;
/// `check` is the verification of what the first one has left, whose state was
/// saved at some time. Nothing has changed in between: the same was written, and
/// both verifications find the same on the device.
pub proof fn deferred_verification_agrees(
    options: RunOptions,
    verify: VerifyOptions,
    deferred: Prepared,
    direct: Prepared,
    written: WritePassResult,
    later: Seq<SessionData>,
    now: Seq<SessionData>,
    saved: u64,
    check: Seq<SessionData>,
    concluded: SessionData,
    device: Map<Seq<char>, Seq<u8>>,
    verified_now: VerifyData,
    first: VerifyPassResult,
    verified_later: VerifyData,
    second: VerifyPassResult,
)
    requires
        options.verify == VerifyMode::Immediate,
        verify.target@ == options.target@,
        verify.stop_on_fail == options.stop_on_fail,
        verify.cleanup == options.cleanup,
        deferred.state.completed_passes == direct.state.completed_passes,
        deferred.state.total_passes == direct.state.total_passes,
        direct.state.completed_passes + 1 == direct.state.total_passes,
        writes_first_pass(
            later,
            RunOptions { verify: VerifyMode::Later, ..options },
            deferred,
            written,
        ),
        writes_first_pass(now, options, direct, written),
        check.len() == 3,
        opens_verification(
            check[0],
            verify,
            TestState { updated_unix: saved, ..later[3].state },
        ),
        check[0].moves(check[1], SessionEvent::Done),
        check[1].admits(SessionEvent::Verified(second)),
        check[1].moves(check[2], SessionEvent::Verified(second)),
        now[3].admits(SessionEvent::Verified(first)),
        now[3].moves(concluded, SessionEvent::Verified(first)),
        verified_now.has_verified(now[3].state.files@, now[3].stop_on_fail, device),
        verified_now.ends_with(first),
        verified_later.has_verified(check[1].state.files@, check[1].stop_on_fail, device),
        verified_later.ends_with(second),
    ensures
        later[3].stage == Stage::Finished && later[3].report.pending_verify,
        later[3].state.status == StateStatus::PendingVerify,
        now[3].stage == Stage::Verifying && check[1].stage == Stage::Verifying,
        check[1].state.files@ == written.files@,
        now[3].state.files@ == written.files@,
        check[1].stop_on_fail == now[3].stop_on_fail,
        same_report(check[2].report, concluded.report),
        check[2].state.status == concluded.state.status,
        check[2].state.completed_passes == concluded.state.completed_passes,
        check[2].after_verdict() == concluded.after_verdict(),
{
    verifying::verification_is_determined(verified_now, verified_later, device);
    let a = check[2].report.failed_files@;
    let b = concluded.report.failed_files@;
    assert(a =~= second.failed_files@);
    assert(b =~= first.failed_files@);
}

/// The session is the same but for the time when its state was saved.
pub open spec fn same_but_saved(a: SessionData, b: SessionData) -> bool {
    b == SessionData {
        state: TestState { updated_unix: b.state.updated_unix, ..a.state },
        ..a
    }
}

/// A session goes on with an event, its state perhaps saved.
pub open spec fn session_step(
    course: Seq<SessionData>,
    events: Seq<SessionEvent>,
    i: int,
) -> bool {
    &&& course[i].valid()
    &&& course[i].admits(events[i])
    &&& exists|after: SessionData| #[trigger]
        course[i].moves(after, events[i]) && same_but_saved(after, course[i + 1])
    &&& course[i + 1].valid()
}

/// What a session goes through with events.
pub open spec fn is_session_course(course: Seq<SessionData>, events: Seq<SessionEvent>) -> bool {
    &&& course.len() == events.len() + 1
    &&& course[0].valid()
    &&& forall|i: int| 0 <= i < events.len() ==> #[trigger] session_step(course, events, i)
}

/// What a session was asked to do stays the same to its end.
pub proof fn terms_are_kept(course: Seq<SessionData>, events: Seq<SessionEvent>, k: int)
    requires
        is_session_course(course, events),
        0 <= k < course.len(),
    ensures
        course[k].valid(),
        course[k].verify == course[0].verify,
        course[k].delay == course[0].delay,
        course[k].stop_on_fail == course[0].stop_on_fail,
        course[k].cleanup == course[0].cleanup,
        course[k].lone == course[0].lone,
        course[k].report.target == course[0].report.target,
        course[k].state.total_passes == course[0].state.total_passes,
    decreases k,
{
    if k > 0 {
        terms_are_kept(course, events, k - 1);
        assert(session_step(course, events, k - 1));
    }
}

/// A run does all along what its options say: it stops on a failure if they say
/// so and keeps or removes files as they say, it waits exactly as many seconds as
/// they give, and only if they ask for a delay.
pub proof fn runs_follow_their_options(
    options: RunOptions,
    prepared: Prepared,
    course: Seq<SessionData>,
    events: Seq<SessionEvent>,
    k: int,
)
    requires
        opens_test(course[0], options, prepared),
        is_session_course(course, events),
        0 <= k < course.len(),
    ensures
        course[k].stop_on_fail == options.stop_on_fail,
        course[k].cleanup == options.cleanup,
        course[k].verify == options.verify,
        course[k].report.target@ == options.target@,
        course[k].next_action() matches SessionAction::Wait(seconds) ==> {
            &&& options.verify == VerifyMode::Delay
            &&& options.delay == Some(seconds)
            &&& seconds > 0
        },
        course[k].next_action() is Verify ==> options.verify != VerifyMode::Later,
{
    terms_are_kept(course, events, k);
}

/// A verification of its own does all along what its options say, and it neither
/// writes nor waits.
pub proof fn verifications_follow_their_options(
    options: VerifyOptions,
    pending: TestState,
    course: Seq<SessionData>,
    events: Seq<SessionEvent>,
    k: int,
)
    requires
        opens_verification(course[0], options, pending),
        is_session_course(course, events),
        0 <= k < course.len(),
    ensures
        course[k].stop_on_fail == options.stop_on_fail,
        course[k].cleanup == options.cleanup,
        course[k].report.target@ == options.target@,
        course[k].next_action() !is Wait,
        course[k].next_action() !is Write,
{
    terms_are_kept(course, events, k);
}

/// What follows a pass that was written: its state is saved, and then the run
/// ends if verification is to come later, lets the given number of seconds pass
/// if it is to be delayed, and verifies the pass. Whatever the number of seconds
/// is, the wait is as long as that.
pub proof fn delays_are_kept(
    options: RunOptions,
    prepared: Prepared,
    course: Seq<SessionData>,
    events: Seq<SessionEvent>,
    k: int,
)
    requires
        opens_test(course[0], options, prepared),
        is_session_course(course, events),
        0 <= k,
        k + 3 < course.len(),
        course[k].next_action() is Write,
        options.verify != VerifyMode::Later,
    ensures
        course[k + 1].next_action() == SessionAction::Save,
        options.verify == VerifyMode::Immediate ==> course[k + 2].next_action()
            == SessionAction::Verify,
        options.verify == VerifyMode::Delay ==> match options.delay {
            Some(seconds) => if seconds > 0 {
                &&& course[k + 2].next_action() == SessionAction::Wait(seconds)
                &&& course[k + 3].next_action() == SessionAction::Verify
            } else {
                course[k + 2].next_action() == SessionAction::Verify
            },
            None => course[k + 2].next_action() == SessionAction::Verify,
        },
{
    terms_are_kept(course, events, k);
    assert(session_step(course, events, k));
    assert(session_step(course, events, k + 1));
    assert(session_step(course, events, k + 2));
}

/// A run that defers verification ends once the state of its pass is saved, with
/// the data still to be verified.
pub proof fn deferred_runs_end_unverified(
    options: RunOptions,
    prepared: Prepared,
    course: Seq<SessionData>,
    events: Seq<SessionEvent>,
    k: int,
)
    requires
        opens_test(course[0], options, prepared),
        is_session_course(course, events),
        0 <= k,
        k + 2 < course.len(),
        course[k].next_action() is Write,
        options.verify == VerifyMode::Later,
    ensures
        course[k + 1].next_action() == SessionAction::Save,
        course[k + 2].next_action() == SessionAction::Finish,
        course[k + 2].report.pending_verify,
        course[k + 2].state.status == StateStatus::PendingVerify,
        course[k + 2].report.success == course[k + 2].report.capacity_ok,
{
    terms_are_kept(course, events, k);
    assert(session_step(course, events, k));
    assert(session_step(course, events, k + 1));
}

/// A run clears the way first: it discards an earlier test or removes the files
/// of the last pass where that is called for. Then it saves its state and writes
/// the pass behind the completed ones.
pub proof fn runs_begin_with_the_next_pass(
    options: RunOptions,
    prepared: Prepared,
    course: Seq<SessionData>,
    events: Seq<SessionEvent>,
)
    requires
        opens_test(course[0], options, prepared),
        is_session_course(course, events),
        course.len() >= 3,
    ensures
        ({
            let pass = SessionAction::Write((prepared.state.completed_passes + 1) as u32);
            match prepared.removal {
                Removal::Nothing => {
                    &&& course[0].next_action() == SessionAction::Save
                    &&& course[1].next_action() == pass
                },
                Removal::Files => {
                    &&& course[0].next_action() == SessionAction::RemoveFiles
                    &&& course[1].next_action() == SessionAction::Save
                    &&& course.len() > 3 ==> course[2].next_action() == pass
                },
                Removal::Everything => {
                    &&& course[0].next_action() == SessionAction::Discard
                    &&& course[1].next_action() == SessionAction::Save
                    &&& course.len() > 3 ==> course[2].next_action() == pass
                },
            }
        }),
        course[0].state.completed_passes == prepared.state.completed_passes,
        course[0].state.total_passes == prepared.state.total_passes,
        course[0].report.passes_total == prepared.state.total_passes,
        course[0].report.passes_completed == prepared.state.completed_passes,
        course[0].report.files_total == 0,
        course[0].state.status == StateStatus::Writing,
{
    assert(session_step(course, events, 0));
    assert(session_step(course, events, 1));
}

/// A verification saves that it has begun and then verifies the files that wait
/// for it.
pub proof fn verifications_begin_with_the_files(
    options: VerifyOptions,
    pending: TestState,
    course: Seq<SessionData>,
    events: Seq<SessionEvent>,
)
    requires
        opens_verification(course[0], options, pending),
        is_session_course(course, events),
        course.len() >= 2,
    ensures
        course[0].next_action() == SessionAction::Save,
        course[1].next_action() == SessionAction::Verify,
        course[1].state.files@ == pending.files@,
        course[1].state.current_pass == pending.current_pass,
        course[1].state.completed_passes == pending.completed_passes,
        course[1].state.total_passes == pending.total_passes,
        course[1].state.capacity_ok == pending.capacity_ok,
        course[1].state.status == StateStatus::Verifying,
        course[1].state.last_error is None,
        course[1].report.files_total == pending.files@.len(),
        course[1].report.files_passed == 0,
        course[1].report.files_failed == 0,
        course[1].report.expected_total == pending.expected_total,
        course[1].report.actual_total == pending.actual_total,
        course[1].report.capacity_ok == pending.capacity_ok,
{
    assert(session_step(course, events, 0));
}

/// The pass that a test writes is the one behind the completed ones, and there is
/// always one left.
pub proof fn passes_are_written_in_order(session: SessionData)
    requires
        session.valid(),
        session.next_action() is Write,
    ensures
        session.next_action() == SessionAction::Write(session.state.current_pass),
        session.state.current_pass == session.state.completed_passes + 1,
        session.state.current_pass <= session.state.total_passes,
        session.state.last_error is None,
        !session.lone,
{
}

/// What a pass wrote is in the state and in the report: the files, the sizes and
/// whether the capacity is there.
pub proof fn writing_is_reported(before: SessionData, after: SessionData, result: WritePassResult)
    requires
        before.valid(),
        before.admits(SessionEvent::Written(result)),
        before.moves(after, SessionEvent::Written(result)),
    ensures
        after.state.files@ == result.files@,
        after.state.expected_total == result.expected_total,
        after.state.actual_total == result.actual_total,
        after.state.capacity_ok == result.capacity_ok,
        after.state.status == StateStatus::PendingVerify,
        after.state.current_pass == before.state.current_pass,
        after.state.completed_passes == before.state.completed_passes,
        after.state.volume_key == before.state.volume_key,
        after.report.expected_total == result.expected_total,
        after.report.actual_total == result.actual_total,
        after.report.capacity_ok == result.capacity_ok,
        after.report.files_total == before.report.files_total + result.files@.len(),
        after.report.files_passed == before.report.files_passed,
        after.report.passes_completed == before.report.passes_completed,
        after.next_action() == SessionAction::Save,
{
}

/// What a verification gave is in the state and in the report. A pass with good
/// data and its capacity is completed, and the test with the last pass. Any other
/// is a failure, put down to the capacity where that is missing.
pub proof fn verdicts_are_reported(
    before: SessionData,
    after: SessionData,
    result: VerifyPassResult,
)
    requires
        before.valid(),
        before.admits(SessionEvent::Verified(result)),
        before.moves(after, SessionEvent::Verified(result)),
    ensures
        after.next_action() == SessionAction::Save,
        after.state.files@ == result.files@,
        after.state.total_passes == before.state.total_passes,
        after.state.current_pass == before.state.current_pass,
        after.report.files_passed == before.report.files_passed + result.passed,
        after.report.files_failed == before.report.files_failed + result.failed,
        after.report.failed_files@ == before.report.failed_files@ + result.failed_files@,
        after.report.files_total == before.report.files_total,
        result.failed == 0 && before.report.capacity_ok ==> {
            &&& after.state.completed_passes == before.state.current_pass
            &&& after.report.passes_completed == before.state.current_pass
            &&& after.state.status == StateStatus::Completed <==> before.state.current_pass
                >= before.state.total_passes
            &&& after.state.status == StateStatus::PassComplete <==> before.state.current_pass
                < before.state.total_passes
            &&& after.report.success <==> before.lone || before.state.current_pass
                >= before.state.total_passes
        },
        result.failed > 0 || !before.report.capacity_ok ==> {
            &&& after.state.status == StateStatus::Failed
            &&& !after.report.success
            &&& after.state.completed_passes == before.state.completed_passes
            &&& after.report.passes_completed == before.report.passes_completed
            &&& after.state.last_error is Some
            &&& before.report.capacity_ok ==> after.state.last_error->0@ == "verification failed"@
            &&& !before.report.capacity_ok ==> after.state.last_error->0@ == "capacity shortfall"@
        },
{
    assert(manifest::facts_of(result.files@).len() == result.files@.len());
    assert(manifest::facts_of(before.state.files@).len() == before.state.files@.len());
}

/// What follows a verdict. A failure ends the test at once, a completed pass of a
/// run has its files removed and the next pass written, and a completed pass of a
/// verification of its own has its files removed.
pub proof fn verdicts_decide_what_follows(
    course: Seq<SessionData>,
    events: Seq<SessionEvent>,
    k: int,
)
    requires
        is_session_course(course, events),
        0 <= k,
        k + 2 < course.len(),
        course[k].next_action() is Verify,
    ensures
        course[k + 1].next_action() == SessionAction::Save,
        course[k + 1].state.status == StateStatus::Failed || course[k + 1].state.status
            == StateStatus::Completed ==> {
            let discarded = course[k].cleanup == CleanupMode::Always || (course[k].cleanup
                == CleanupMode::OnSuccess && course[k + 1].state.status == StateStatus::Completed);
            &&& discarded ==> course[k + 2].next_action() == SessionAction::Discard
            &&& !discarded ==> course[k + 2].next_action() == SessionAction::Finish
            &&& discarded && k + 3 < course.len() ==> course[k + 3].next_action()
                == SessionAction::Finish
        },
        course[k + 1].state.status == StateStatus::PassComplete ==> {
            &&& course[k + 2].next_action() == SessionAction::RemoveFiles
            &&& course[k].lone && k + 3 < course.len() ==> course[k + 3].next_action()
                == SessionAction::Finish
            &&& !course[k].lone && k + 3 < course.len() ==> {
                &&& course[k + 3].next_action() == SessionAction::Save
                &&& course[k + 3].state.files@.len() == 0
                &&& course[k + 3].state.completed_passes == course[k].state.current_pass
            }
            &&& !course[k].lone && k + 4 < course.len() ==> course[k + 4].next_action()
                == SessionAction::Write((course[k].state.current_pass + 1) as u32)
        },
        course[k + 1].state.status == StateStatus::Failed || course[k + 1].state.status
            == StateStatus::Completed || course[k + 1].state.status == StateStatus::PassComplete,
{
    assert(session_step(course, events, k));
    assert(session_step(course, events, k + 1));
    if k + 3 < course.len() {
        assert(session_step(course, events, k + 2));
    }
    if k + 4 < course.len() {
        assert(session_step(course, events, k + 3));
    }
}

/// The events of a session are verifications of its files that stop on a failure
/// where the session is to.
pub open spec fn verified_as_told(
    course: Seq<SessionData>,
    events: Seq<SessionEvent>,
    verified: Seq<VerifyData>,
) -> bool {
    forall|i: int|
        0 <= i < events.len() ==> (#[trigger] events[i] matches SessionEvent::Verified(result)
            ==> {
            &&& verified[i].valid()
            &&& verified[i].finished()
            &&& verified[i].stop_on_fail == course[i].stop_on_fail
            &&& verified[i].ends_with(result)
        })
}

/// A test that is to stop on a failure never counts more than one failed file,
/// and no file behind the failed one.
pub proof fn stopping_tests_fail_once(
    options: RunOptions,
    prepared: Prepared,
    course: Seq<SessionData>,
    events: Seq<SessionEvent>,
    verified: Seq<VerifyData>,
    k: int,
)
    requires
        opens_test(course[0], options, prepared),
        is_session_course(course, events),
        verified_as_told(course, events, verified),
        options.stop_on_fail,
        0 <= k < course.len(),
    ensures
        course[k].report.files_failed <= 1,
        course[k].report.failed_files@.len() <= 1,
    decreases k,
{
    if k > 0 {
        stopping_tests_fail_once(options, prepared, course, events, verified, k - 1);
        assert(session_step(course, events, k - 1));
        terms_are_kept(course, events, k - 1);
        assert(events[k - 1] == events[k - 1]);
        match events[k - 1] {
            SessionEvent::Verified(result) => {
                verifying::stopping_counts_one_failure(verified[k - 1]);
            },
            _ => {},
        }
    }
}

/// A verification of its own that is to stop on a failure never counts more than
/// one failed file.
pub proof fn stopping_verifications_fail_once(
    options: VerifyOptions,
    pending: TestState,
    course: Seq<SessionData>,
    events: Seq<SessionEvent>,
    verified: Seq<VerifyData>,
    k: int,
)
    requires
        opens_verification(course[0], options, pending),
        is_session_course(course, events),
        verified_as_told(course, events, verified),
        options.stop_on_fail,
        0 <= k < course.len(),
    ensures
        course[k].report.files_failed <= 1,
        course[k].report.failed_files@.len() <= 1,
    decreases k,
{
    if k > 0 {
        stopping_verifications_fail_once(options, pending, course, events, verified, k - 1);
        assert(session_step(course, events, k - 1));
        terms_are_kept(course, events, k - 1);
        assert(events[k - 1] == events[k - 1]);
        match events[k - 1] {
            SessionEvent::Verified(result) => {
                verifying::stopping_counts_one_failure(verified[k - 1]);
            },
            _ => {},
        }
    }
}

/// A session takes every end that its action can come to but for the two that
/// bring results: to write and to verify.
pub proof fn every_end_of_an_action_is_taken(session: SessionData)
    requires
        session.valid(),
    ensures
        session.admits(SessionEvent::Done) <==> {
            &&& session.next_action() !is Write
            &&& session.next_action() !is Verify
            &&& session.next_action() !is Finish
        },
{
}

/// What is verified are the files of the pass, from the first one on, and a failure
/// stops it exactly if the session is to stop on one.
pub proof fn session_files_are_verified(session: Session, pass: VerifyPass)
    requires
        session@.valid(),
        session@.stage == Stage::Verifying,
        call_ensures(Session::verification, (&session,), pass),
    ensures
        pass@.files@ == session@.state.files@,
        pass@.next == 0,
        pass@.stop_on_fail == session@.stop_on_fail,
        pass@.failed == 0,
        pass@.passed == 0,
        pass@.failed_files@.len() == 0,
{
    let done = pass@.files@.take(0);
    reveal(Seq::filter);
    assert(verifying::with_verdict(done, true).len() == 0);
    assert(verifying::with_verdict(done, false).len() == 0);
    assert(text::string_texts(pass@.failed_files@).len() == pass@.failed_files@.len());
    assert(verifying::names_of(verifying::with_verdict(done, false)).len() == 0);
}

/// A pass is written on the target of the session, as the pass that it is on.
pub proof fn session_passes_are_written(
    session: Session,
    filesystem: &str,
    free: u64,
    result: Result<WritePass, EngineError>,
)
    requires
        session@.valid(),
        session@.stage == Stage::Writing,
        call_ensures(Session::writing, (&session, filesystem, free), result),
    ensures
        result is Ok <==> free >= 1048576,
        result matches Ok(writing) ==> {
            &&& writing@.pass == session@.state.completed_passes + 1
            &&& writing@.total_passes == session@.state.total_passes
            &&& writing@.expected_total == free
            &&& writing@.files@.len() == 0
        },
        result matches Err(error) ==> (error matches EngineError::NotEnoughSpace(t, available)
            && t@ == session@.report.target@ && available == free),
{
}

/// The user is told which pass is written, and how long the wait is.
pub proof fn sessions_tell_what_they_do(session: SessionData)
    requires
        session.valid(),
    ensures
        session.stage == Stage::SavingStart ==> session.says().len() == 1 && session.says()[0].1.take(
            ("Pass "@ + text::decimal(session.state.current_pass as nat) + "/"@ + text::decimal(
                session.state.total_passes as nat,
            )).len() as int,
        ) == "Pass "@ + text::decimal(session.state.current_pass as nat) + "/"@ + text::decimal(
            session.state.total_passes as nat,
        ),
        session.stage == Stage::SavingWritten && session.verify == VerifyMode::Delay
            && session.delay > 0 ==> session.says() == seq![
            (
                Style::Info,
                "Waiting "@ + text::decimal(session.delay as nat)
                    + " second(s) before verification..."@,
            ),
        ],
{
    if session.stage == Stage::SavingStart {
        let head = "Pass "@ + text::decimal(session.state.current_pass as nat) + "/"@
            + text::decimal(session.state.total_passes as nat);
        assert(session.says()[0].1.take(head.len() as int) =~= head);
    }
}

/// No step changes what a state tells of its volume, of its test as it was set up,
/// and of when it began and was saved.
pub proof fn states_keep_their_volume(before: SessionData, after: SessionData, event: SessionEvent)
    requires
        before.valid(),
        before.admits(event),
        before.moves(after, event),
    ensures
        after.state.version == before.state.version,
        after.state.target == before.state.target,
        after.state.volume_key == before.state.volume_key,
        after.state.volume_fs == before.state.volume_fs,
        after.state.volume_label == before.state.volume_label,
        after.state.volume_device == before.state.volume_device,
        after.state.volume_total_bytes == before.state.volume_total_bytes,
        after.state.created_unix == before.state.created_unix,
        after.state.updated_unix == before.state.updated_unix,
        after.state.total_passes == before.state.total_passes,
        after.state.stop_on_fail == before.state.stop_on_fail,
        after.state.cleanup == before.state.cleanup,
        after.report.target == before.report.target,
        after.report.passes_total == before.report.passes_total,
{
}

/// A step that brings no result changes nothing that is counted. Only the end of a
/// run that defers verification is told, and only the beginning of a pass changes
/// the state.
pub proof fn only_results_are_counted(before: SessionData, after: SessionData)
    requires
        before.valid(),
        before.admits(SessionEvent::Done),
        before.moves(after, SessionEvent::Done),
    ensures
        after.report.passes_completed == before.report.passes_completed,
        after.report.files_total == before.report.files_total,
        after.report.files_passed == before.report.files_passed,
        after.report.files_failed == before.report.files_failed,
        after.report.failed_files@ == before.report.failed_files@,
        after.report.expected_total == before.report.expected_total,
        after.report.actual_total == before.report.actual_total,
        after.report.capacity_ok == before.report.capacity_ok,
        after.report.pending_verify != before.report.pending_verify ==> before.verify
            == VerifyMode::Later && after.next_action() is Finish,
        after.report.success != before.report.success ==> before.verify == VerifyMode::Later
            && after.next_action() is Finish,
        after.state.completed_passes == before.state.completed_passes,
        after.state != before.state ==> {
            &&& before.next_action() is RemoveFiles
            &&& !before.lone
            &&& before.state.status == StateStatus::PassComplete
            &&& after.state.status == StateStatus::Writing
            &&& after.state.current_pass == before.state.completed_passes + 1
            &&& after.state.files@.len() == 0
            &&& after.state.last_error is None
            &&& after.state.expected_total == before.state.expected_total
            &&& after.state.actual_total == before.state.actual_total
            &&& after.state.capacity_ok == before.state.capacity_ok
        },
{
}

/// A result changes what it is about, and nothing else: what was written leaves the
/// verdicts as they are, and verdicts leave the sizes as they are.
pub proof fn results_change_what_they_are_about(
    before: SessionData,
    after: SessionData,
    event: SessionEvent,
)
    requires
        before.valid(),
        before.admits(event),
        before.moves(after, event),
    ensures
        event is Written ==> {
            &&& after.report.files_passed == before.report.files_passed
            &&& after.report.files_failed == before.report.files_failed
            &&& after.report.failed_files@ == before.report.failed_files@
            &&& after.report.success == before.report.success
            &&& after.report.pending_verify == before.report.pending_verify
            &&& after.state.last_error == before.state.last_error
            &&& after.state.current_pass == before.state.current_pass
        },
        event is Verified ==> {
            &&& after.report.files_total == before.report.files_total
            &&& after.report.expected_total == before.report.expected_total
            &&& after.report.actual_total == before.report.actual_total
            &&& after.report.capacity_ok == before.report.capacity_ok
            &&& after.report.pending_verify == before.report.pending_verify
            &&& after.state.expected_total == before.state.expected_total
            &&& after.state.actual_total == before.state.actual_total
            &&& after.state.capacity_ok == before.state.capacity_ok
            &&& after.state.current_pass == before.state.current_pass
            &&& after.state.status != StateStatus::Failed ==> after.state.last_error
                == before.state.last_error
        },
{
}

/// A run begins with the state that was prepared for it, a pass further: nothing
/// else of it is changed.
pub proof fn runs_keep_what_was_prepared(
    session: SessionData,
    options: RunOptions,
    prepared: Prepared,
)
    requires
        opens_test(session, options, prepared),
        prepared.state.completed_passes < prepared.state.total_passes,
    ensures
        session.state.current_pass == prepared.state.completed_passes + 1,
        session.state.status == StateStatus::Writing,
        session.state.last_error is None,
        session.state.files@.len() == 0,
        session.state.completed_passes == prepared.state.completed_passes,
        session.state.total_passes == prepared.state.total_passes,
        session.state.version == prepared.state.version,
        session.state.target == prepared.state.target,
        session.state.volume_key == prepared.state.volume_key,
        session.state.volume_fs == prepared.state.volume_fs,
        session.state.volume_label == prepared.state.volume_label,
        session.state.volume_device == prepared.state.volume_device,
        session.state.volume_total_bytes == prepared.state.volume_total_bytes,
        session.state.created_unix == prepared.state.created_unix,
        session.state.updated_unix == prepared.state.updated_unix,
        session.state.stop_on_fail == prepared.state.stop_on_fail,
        session.state.cleanup == prepared.state.cleanup,
        session.report.files_passed == 0 && session.report.files_failed == 0,
        session.report.failed_files@.len() == 0,
        !session.report.success && !session.report.pending_verify,
        !session.report.capacity_ok,
        session.report.expected_total == 0 && session.report.actual_total == 0,
{
}

/// A verification begins with the state that it found, but for its status and its
/// error.
pub proof fn verifications_keep_what_was_found(
    session: SessionData,
    options: VerifyOptions,
    pending: TestState,
)
    requires
        opens_verification(session, options, pending),
    ensures
        session.state.version == pending.version,
        session.state.target == pending.target,
        session.state.volume_key == pending.volume_key,
        session.state.volume_fs == pending.volume_fs,
        session.state.volume_label == pending.volume_label,
        session.state.volume_device == pending.volume_device,
        session.state.volume_total_bytes == pending.volume_total_bytes,
        session.state.created_unix == pending.created_unix,
        session.state.updated_unix == pending.updated_unix,
        session.state.stop_on_fail == pending.stop_on_fail,
        session.state.cleanup == pending.cleanup,
        session.state.expected_total == pending.expected_total,
        session.state.actual_total == pending.actual_total,
        session.report.passes_total == pending.total_passes,
        session.report.passes_completed == pending.completed_passes,
        session.report.failed_files@.len() == 0,
        !session.report.success && !session.report.pending_verify,
{
}

/// Only data that waits for verification is verified: what a state says, or what
/// files are there without a state. Everything else is refused, with the target and
/// the status that was found.
pub proof fn only_pending_data_is_verified(
    options: VerifyOptions,
    loaded: Option<TestState>,
    files: &[TestFile],
    now: u64,
    result: Result<Session, EngineError>,
)
    requires
        call_ensures(verify_test, (&options, loaded, files, now), result),
    ensures
        loaded matches Some(state) ==> (result is Ok <==> state.status
            == StateStatus::PendingVerify),
        loaded is None ==> (result is Ok <==> files@.len() > 0),
        loaded is Some && result is Err ==> result->Err_0 == EngineError::NotPending(
            options.target,
            loaded->0.status,
        ),
        loaded is None && result is Err ==> result->Err_0 == EngineError::NoTestData(
            options.target,
        ),
        result matches Ok(session) ==> session@.stop_on_fail == options.stop_on_fail
            && session@.cleanup == options.cleanup && session@.lone,
{
}

/// A test begins exactly if nothing is in its way, if it goes on with a test that
/// has passes left, or if it may discard what it finds; and then as its options say.
pub proof fn tests_begin_when_they_may(
    options: RunOptions,
    loaded: Option<TestState>,
    files_present: bool,
    now: u64,
    result: Result<Session, EngineError>,
)
    requires
        call_ensures(run_test, (&options, loaded, files_present, now), result),
    ensures
        result is Ok <==> {
            ||| options.force
            ||| loaded is None && !files_present
            ||| loaded is Some && loaded->0.status == StateStatus::PassComplete
                && loaded->0.completed_passes < loaded->0.total_passes
        },
        result matches Ok(session) ==> {
            &&& session@.stop_on_fail == options.stop_on_fail
            &&& session@.cleanup == options.cleanup
            &&& session@.verify == options.verify
            &&& options.delay matches Some(seconds) ==> session@.delay == seconds
            &&& !session@.lone
        },
{
}

} // verus!
