//! What a test of a volume begins with.

use crate::engine::{EngineError, RunOptions};
use crate::manifest::{self, StateStatus, TestState};
use vstd::prelude::*;

verus! {

/// What is removed before a test begins.
#[derive(Debug, Clone, Copy, PartialEq, Eq, Structural)]
pub enum Removal {
    Nothing,
    /// The test files on the target.
    Files,
    /// The test files on the target and the state.
    Everything,
}

/// The state that a test begins or goes on with.
#[derive(Debug)]
pub struct Prepared {
    pub removal: Removal,
    pub state: TestState,
}

/// The test begins anew.
pub open spec fn starts_over(
    prepared: Prepared,
    options: RunOptions,
    removal: Removal,
    now: u64,
) -> bool {
    &&& prepared.removal == removal
    &&& manifest::is_fresh(
        prepared.state,
        options.volume,
        options.passes,
        options.stop_on_fail,
        options.cleanup,
        now,
    )
}

/// What a test on a target begins with, given the state that was found for the
/// volume and whether there are test files on it.
pub open spec fn is_prepared(
    result: Result<Prepared, EngineError>,
    options: RunOptions,
    loaded: Option<TestState>,
    files_present: bool,
    now: u64,
) -> bool {
    match loaded {
        None => if files_present && !options.force {
            result matches Err(EngineError::TestFilesExist(t)) && t == options.target
        } else {
            result matches Ok(prepared) && starts_over(
                prepared,
                options,
                if files_present {
                    Removal::Everything
                } else {
                    Removal::Nothing
                },
                now,
            )
        },
        Some(state) => if options.force {
            result matches Ok(prepared) && starts_over(prepared, options, Removal::Everything, now)
        } else {
            match state.status {
                StateStatus::PassComplete => if state.completed_passes >= state.total_passes {
                    result matches Err(EngineError::AllPassesComplete)
                } else {
                    &&& result matches Ok(prepared)
                    &&& prepared.removal == Removal::Files
                    &&& prepared.state == (TestState {
                        stop_on_fail: options.stop_on_fail,
                        cleanup: options.cleanup,
                        ..state
                    })
                },
                StateStatus::PendingVerify => result matches Err(EngineError::PendingExists(t))
                    && t == options.target,
                StateStatus::Completed => result matches Err(EngineError::CompletedExists(t))
                    && t == options.target,
                StateStatus::Failed => result matches Err(EngineError::FailedExists(t)) && t
                    == options.target,
                StateStatus::Writing | StateStatus::Verifying =>
                    result matches Err(EngineError::InterruptedExists(t)) && t == options.target,
            }
        },
    }
}

/// Decides what a test on a target begins with: a new state, or the state of a
/// test whose last pass is complete. Whatever else is found there is kept,
/// unless it is to be discarded.
pub fn prepare_manifest(
    options: &RunOptions,
    loaded: Option<TestState>,
    files_present: bool,
    now: u64,
) -> (result: Result<Prepared, EngineError>)
    ensures
        is_prepared(result, *options, loaded, files_present, now),
        result matches Ok(prepared) ==> prepared.state.completed_passes
            < prepared.state.total_passes,
{
    let removal = match &loaded {
        None => if !files_present {
            Removal::Nothing
        } else if options.force {
            Removal::Everything
        } else {
            return Err(EngineError::TestFilesExist(options.target.clone()));
        },
        Some(state) => if options.force {
            Removal::Everything
        } else {
            match state.status {
                StateStatus::PassComplete => Removal::Files,
                StateStatus::PendingVerify => {
                    return Err(EngineError::PendingExists(options.target.clone()));
                },
                StateStatus::Completed => {
                    return Err(EngineError::CompletedExists(options.target.clone()));
                },
                StateStatus::Failed => {
                    return Err(EngineError::FailedExists(options.target.clone()));
                },
                StateStatus::Writing | StateStatus::Verifying => {
                    return Err(EngineError::InterruptedExists(options.target.clone()));
                },
            }
        },
    };
    match loaded {
        Some(mut state) if !options.force => {
            if state.completed_passes >= state.total_passes {
                return Err(EngineError::AllPassesComplete);
            }
            state.stop_on_fail = options.stop_on_fail;
            state.cleanup = options.cleanup;
            Ok(Prepared { removal, state })
        },
        _ => {
            let state = TestState::new(
                &options.volume,
                options.passes,
                options.stop_on_fail,
                options.cleanup,
                now,
            );
            Ok(Prepared { removal, state })
        },
    }
}

/// A run without `force` refuses whatever it finds but a completed pass with
/// another to come, and then nothing is removed.
pub proof fn nothing_is_discarded_unasked(
    result: Result<Prepared, EngineError>,
    options: RunOptions,
    loaded: Option<TestState>,
    files_present: bool,
    now: u64,
)
    requires
        is_prepared(result, options, loaded, files_present, now),
        !options.force,
    ensures
        result matches Ok(prepared) ==> {
            ||| prepared.removal == Removal::Nothing && loaded is None && !files_present
            ||| {
                &&& prepared.removal == Removal::Files
                &&& loaded matches Some(state)
                &&& state.status == StateStatus::PassComplete
                &&& state.completed_passes < state.total_passes
            }
        },
{
}

/// A run with `force` always starts over.
pub proof fn force_starts_over(
    result: Result<Prepared, EngineError>,
    options: RunOptions,
    loaded: Option<TestState>,
    files_present: bool,
    now: u64,
)
    requires
        is_prepared(result, options, loaded, files_present, now),
        options.force,
    ensures
        result matches Ok(prepared) && prepared.state.completed_passes == 0
            && prepared.state.current_pass == 1 && (loaded is Some || files_present
            ==> prepared.removal == Removal::Everything),
{
}

/// A run on a volume where nothing is found always begins, with a new state and
/// nothing to remove.
pub proof fn empty_volumes_are_tested(
    result: Result<Prepared, EngineError>,
    options: RunOptions,
    now: u64,
)
    requires
        is_prepared(result, options, None, false, now),
    ensures
        result matches Ok(prepared) && prepared.removal == Removal::Nothing
            && prepared.state.completed_passes == 0 && prepared.state.current_pass == 1
            && prepared.state.files@.len() == 0 && prepared.state.total_passes == if options.passes
            == 0 {
            1
        } else {
            options.passes
        },
{
}

/// A new state has the passes, the volume and the choices that the options give,
/// from when it is made.
pub proof fn new_states_follow_the_options(
    prepared: Prepared,
    options: RunOptions,
    loaded: Option<TestState>,
    files_present: bool,
    now: u64,
)
    requires
        is_prepared(Ok(prepared), options, loaded, files_present, now),
        options.force || loaded is None,
    ensures
        options.passes >= 1 ==> prepared.state.total_passes == options.passes,
        options.passes == 0 ==> prepared.state.total_passes == 1,
        prepared.state.completed_passes == 0,
        prepared.state.stop_on_fail == options.stop_on_fail,
        prepared.state.cleanup == options.cleanup,
        prepared.state.target@ == options.volume.mount_point@,
        prepared.state.volume_fs@ == options.volume.fs@,
        prepared.state.volume_label == options.volume.label,
        prepared.state.volume_device == options.volume.device,
        prepared.state.volume_total_bytes == options.volume.total_bytes,
        prepared.state.volume_key@ == manifest::key_text(options.volume),
        prepared.state.created_unix == now,
        prepared.state.updated_unix == now,
        prepared.state.version == 1,
        prepared.state.last_error is None,
        prepared.state.files@.len() == 0,
        prepared.removal == Removal::Nothing <==> loaded is None && !files_present,
        prepared.removal == Removal::Everything <==> loaded is Some || files_present,
{
}

/// What a run without `force` is told of a test that it may not touch, by the
/// state of that test, with the target that the run is on.
pub proof fn other_tests_are_respected(
    result: Result<Prepared, EngineError>,
    options: RunOptions,
    state: TestState,
    files_present: bool,
    now: u64,
)
    requires
        is_prepared(result, options, Some(state), files_present, now),
        !options.force,
    ensures
        result is Ok <==> state.status == StateStatus::PassComplete && state.completed_passes
            < state.total_passes,
        result matches Err(error) ==> match error {
            EngineError::AllPassesComplete => state.status == StateStatus::PassComplete,
            EngineError::PendingExists(t) => state.status == StateStatus::PendingVerify && t
                == options.target,
            EngineError::CompletedExists(t) => state.status == StateStatus::Completed && t
                == options.target,
            EngineError::FailedExists(t) => state.status == StateStatus::Failed && t
                == options.target,
            EngineError::InterruptedExists(t) => (state.status == StateStatus::Writing
                || state.status == StateStatus::Verifying) && t == options.target,
            _ => false,
        },
{
}

/// Test files without a state are refused without `force`, with the target that
/// the run is on.
pub proof fn stray_files_are_respected(
    result: Result<Prepared, EngineError>,
    options: RunOptions,
    now: u64,
)
    requires
        is_prepared(result, options, None, true, now),
    ensures
        options.force <==> result is Ok,
        !options.force ==> (result matches Err(EngineError::TestFilesExist(t)) && t
            == options.target),
{
}

/// A run that goes on with a test keeps what is known of it: its passes, its
/// volume and when it began. Only the choices of the new run count from then on.
pub proof fn continued_tests_are_kept(
    prepared: Prepared,
    options: RunOptions,
    state: TestState,
    files_present: bool,
    now: u64,
)
    requires
        is_prepared(Ok(prepared), options, Some(state), files_present, now),
        !options.force,
    ensures
        prepared.removal == Removal::Files,
        prepared.state.completed_passes == state.completed_passes,
        prepared.state.total_passes == state.total_passes,
        prepared.state.volume_key == state.volume_key,
        prepared.state.target == state.target,
        prepared.state.created_unix == state.created_unix,
        prepared.state.updated_unix == state.updated_unix,
        prepared.state.version == state.version,
        prepared.state.volume_fs == state.volume_fs,
        prepared.state.volume_label == state.volume_label,
        prepared.state.volume_device == state.volume_device,
        prepared.state.volume_total_bytes == state.volume_total_bytes,
        prepared.state.current_pass == state.current_pass,
        prepared.state.status == state.status,
        prepared.state.expected_total == state.expected_total,
        prepared.state.actual_total == state.actual_total,
        prepared.state.capacity_ok == state.capacity_ok,
        prepared.state.last_error == state.last_error,
        prepared.state.files == state.files,
        prepared.state.stop_on_fail == options.stop_on_fail,
        prepared.state.cleanup == options.cleanup,
{
}

} // verus!
