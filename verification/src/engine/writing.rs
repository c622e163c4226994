//! Writing one file of test data.

use crate::engine::{self, is_disk_full, is_file_too_large};
use crate::pattern::{self, BlockSource, IO_BLOCK_SIZE};
use crate::text;
use vstd::prelude::*;

verus! {

/// Why the writing of a file stopped.
#[derive(Debug, Clone, Copy, PartialEq, Eq, Structural)]
pub enum WriteStopReason {
    Complete,
    DiskFull,
    FileTooLarge,
}

/// How far a file was written, and why no further.
#[derive(Debug, Clone, Copy, PartialEq, Eq, Structural)]
pub struct WriteOutcome {
    pub actual_size: u64,
    pub stop_reason: WriteStopReason,
}

/// The operation that failed for good.
#[derive(Debug, Clone, Copy, PartialEq, Eq, Structural)]
pub enum WriteFailure {
    Create,
    Write,
    /// A write that accepted nothing.
    Zero,
    Flush,
    Sync,
}

impl WriteFailure {
    /// What the message of a failure says.
    pub open spec fn text(self, path: Seq<char>) -> Seq<char> {
        match self {
            WriteFailure::Create => "failed to create "@ + path,
            WriteFailure::Write => "failed to write "@ + path,
            WriteFailure::Zero => "write returned zero"@,
            WriteFailure::Flush => "failed to flush "@ + path,
            WriteFailure::Sync => "failed to sync "@ + path,
        }
    }

    /// The message of a failure on a file.
    pub fn message(self, path: &str) -> (message: String)
        ensures
            message@ == self.text(path@),
    {
        match self {
            WriteFailure::Create => "failed to create ".to_owned().concat(path),
            WriteFailure::Write => "failed to write ".to_owned().concat(path),
            WriteFailure::Zero => "write returned zero".to_owned(),
            WriteFailure::Flush => "failed to flush ".to_owned().concat(path),
            WriteFailure::Sync => "failed to sync ".to_owned().concat(path),
        }
    }
}

/// What is to be done next with a file that is being written.
#[derive(Debug, Clone, Copy, PartialEq, Eq, Structural)]
pub enum WriteAction {
    /// Create the file; it must not be there yet.
    Create,
    /// Write from the pending bytes.
    Write,
    /// Flush the file, however that ends.
    FlushAnyway(WriteOutcome),
    /// Flush the file.
    Flush,
    /// Sync the file to the device.
    Sync,
    /// Nothing: the file is written, as far as it goes.
    Finish(WriteOutcome),
    /// Nothing: the file could not be written.
    Fail(WriteFailure),
}

/// How an operation on the file ended.
#[derive(Debug, Clone, Copy, PartialEq, Eq, Structural)]
pub enum WriteEvent {
    /// The file was created, flushed or synced.
    Done,
    /// A write accepted so many bytes.
    Accepted(usize),
    /// The operation failed with an error of the operating system, whose code
    /// is known or not.
    Failed(Option<i32>),
}

/// How far the writing of a file has come.
#[derive(Debug, Clone, Copy, PartialEq, Eq, Structural)]
pub struct WriteProgress {
    pub action: WriteAction,
    pub position: u64,
    pub max_size: u64,
}

impl WriteProgress {
    /// Nothing has been done for a file of at most a size.
    pub open spec fn start(max_size: u64) -> WriteProgress {
        WriteProgress { action: WriteAction::Create, position: 0, max_size }
    }

    /// Where the pending bytes end: at the end of their block.
    pub open spec fn pending_end(self) -> int {
        pattern::block_end(
            self.position - self.position % IO_BLOCK_SIZE as u64,
            self.max_size as int,
        )
    }

    /// The event is one that the action can end in.
    pub open spec fn admits(self, event: WriteEvent) -> bool {
        match self.action {
            WriteAction::Write => match event {
                WriteEvent::Done => false,
                WriteEvent::Accepted(count) => self.position + count <= self.pending_end(),
                WriteEvent::Failed(_) => true,
            },
            WriteAction::Finish(_) | WriteAction::Fail(_) => false,
            _ => event !is Accepted,
        }
    }

    /// What follows an error: the file stays as it is if the disk is full or the
    /// file too large, and any other error is a failure.
    pub open spec fn after_error(self, code: Option<i32>, failure: WriteFailure) -> WriteAction {
        if engine::means_disk_full(code) {
            WriteAction::Finish(
                WriteOutcome {
                    actual_size: self.position,
                    stop_reason: WriteStopReason::DiskFull,
                },
            )
        } else if engine::means_file_too_large(code) {
            WriteAction::Finish(
                WriteOutcome {
                    actual_size: self.position,
                    stop_reason: WriteStopReason::FileTooLarge,
                },
            )
        } else {
            WriteAction::Fail(failure)
        }
    }

    /// What is done when the file is open: bytes are written while there are any.
    pub open spec fn writing(self) -> WriteProgress {
        if self.position < self.max_size {
            WriteProgress { action: WriteAction::Write, ..self }
        } else {
            WriteProgress { action: WriteAction::Flush, ..self }
        }
    }

    /// How far the writing has come after an event.
    pub open spec fn next(self, event: WriteEvent) -> WriteProgress {
        let action = match (self.action, event) {
            (WriteAction::Create, WriteEvent::Failed(code)) => self.after_error(
                code,
                WriteFailure::Create,
            ),
            (WriteAction::Write, WriteEvent::Accepted(count)) => if count == 0 {
                WriteAction::Fail(WriteFailure::Zero)
            } else {
                WriteAction::Write
            },
            (WriteAction::Write, WriteEvent::Failed(code)) => match self.after_error(
                code,
                WriteFailure::Write,
            ) {
                WriteAction::Finish(outcome) => WriteAction::FlushAnyway(outcome),
                failure => failure,
            },
            (WriteAction::FlushAnyway(outcome), _) => WriteAction::Finish(outcome),
            (WriteAction::Flush, WriteEvent::Done) => WriteAction::Sync,
            (WriteAction::Flush, WriteEvent::Failed(code)) => self.after_error(
                code,
                WriteFailure::Flush,
            ),
            (WriteAction::Sync, WriteEvent::Done) => WriteAction::Finish(
                WriteOutcome {
                    actual_size: self.position,
                    stop_reason: WriteStopReason::Complete,
                },
            ),
            (WriteAction::Sync, WriteEvent::Failed(code)) => self.after_error(
                code,
                WriteFailure::Sync,
            ),
            (action, _) => action,
        };
        match (self.action, event) {
            (WriteAction::Create, WriteEvent::Done) => self.writing(),
            (WriteAction::Write, WriteEvent::Accepted(count)) if count > 0 => WriteProgress {
                position: (self.position + count) as u64,
                ..self
            }.writing(),
            _ => WriteProgress { action, ..self },
        }
    }

    /// How far the writing has come after a sequence of events.
    pub open spec fn after(self, events: Seq<WriteEvent>) -> WriteProgress
        decreases events.len(),
    {
        if events.len() == 0 {
            self
        } else {
            self.after(events.drop_last()).next(events.last())
        }
    }

    /// The events are ones that the actions can end in, one after another.
    pub open spec fn admits_all(self, events: Seq<WriteEvent>) -> bool
        decreases events.len(),
    {
        events.len() == 0 || (self.admits_all(events.drop_last()) && self.after(
            events.drop_last(),
        ).admits(events.last()))
    }

    /// What the file holds after a sequence of events: the bytes that each write
    /// accepted, one behind the other.
    pub open spec fn held(self, seed: u64, events: Seq<WriteEvent>) -> Seq<u8>
        decreases events.len(),
    {
        if events.len() == 0 {
            Seq::empty()
        } else {
            let earlier = self.held(seed, events.drop_last());
            let at = self.after(events.drop_last());
            match (at.action, events.last()) {
                (WriteAction::Write, WriteEvent::Accepted(count)) => earlier
                    + pattern::pattern_range(seed, at.position as int, at.position + count),
                _ => earlier,
            }
        }
    }

    /// The action fits the position.
    pub open spec fn consistent(self) -> bool {
        &&& self.position <= self.max_size
        &&& match self.action {
            WriteAction::Create => self.position == 0,
            WriteAction::Write => self.position < self.max_size,
            WriteAction::FlushAnyway(outcome) => outcome.actual_size == self.position
                && outcome.stop_reason != WriteStopReason::Complete,
            WriteAction::Flush | WriteAction::Sync => self.position == self.max_size,
            WriteAction::Finish(outcome) => outcome.actual_size == self.position && (
            outcome.stop_reason == WriteStopReason::Complete ==> self.position == self.max_size),
            WriteAction::Fail(_) => true,
        }
    }

    /// A bound on the operations that are left.
    pub open spec fn work_left(self) -> int {
        self.max_size - self.position + match self.action {
            WriteAction::Create => 4int,
            WriteAction::Write => 3,
            WriteAction::FlushAnyway(_) | WriteAction::Flush => 2,
            WriteAction::Sync => 1,
            WriteAction::Finish(_) | WriteAction::Fail(_) => 0,
        }
    }
}

/// A step keeps the action in line with the position.
pub proof fn steps_stay_consistent(at: WriteProgress, event: WriteEvent)
    requires
        at.consistent(),
        at.admits(event),
    ensures
        at.next(event).consistent(),
        at.next(event).max_size == at.max_size,
        at.position <= at.next(event).position,
{
}

/// The writing of a file comes to an end: each step leaves less to do.
pub proof fn writing_ends(at: WriteProgress, event: WriteEvent)
    requires
        at.consistent(),
        at.admits(event),
    ensures
        0 <= at.next(event).work_left() < at.work_left(),
{
}

/// A file holds the beginning of its seed's data whatever happens while it is
/// written, and its outcome gives its size.
pub proof fn file_holds_its_pattern(max_size: u64, seed: u64, events: Seq<WriteEvent>)
    requires
        WriteProgress::start(max_size).admits_all(events),
    ensures
        ({
            let end = WriteProgress::start(max_size).after(events);
            let held = WriteProgress::start(max_size).held(seed, events);
            &&& end.consistent()
            &&& end.max_size == max_size
            &&& held == pattern::pattern(seed, end.position as nat)
            &&& end.action matches WriteAction::Finish(outcome) ==> {
                &&& held == pattern::pattern(seed, outcome.actual_size as nat)
                &&& outcome.stop_reason == WriteStopReason::Complete ==> outcome.actual_size
                    == max_size
            }
        }),
    decreases events.len(),
{
    let start = WriteProgress::start(max_size);
    if events.len() == 0 {
        assert(start.held(seed, events) =~= pattern::pattern(seed, 0));
    } else {
        file_holds_its_pattern(max_size, seed, events.drop_last());
        let at = start.after(events.drop_last());
        steps_stay_consistent(at, events.last());
        if let (WriteAction::Write, WriteEvent::Accepted(count)) = (at.action, events.last()) {
            pattern::pattern_extends(seed, at.position as int, at.position + count);
        }
    }
}

/// A file on a device where nothing fails is written to its full size.
pub proof fn undisturbed_write_completes(max_size: u64, events: Seq<WriteEvent>)
    requires
        WriteProgress::start(max_size).admits_all(events),
        forall|i: int|
            0 <= i < events.len() ==> (#[trigger] events[i]) !is Failed && events[i]
                != WriteEvent::Accepted(0),
    ensures
        ({
            let end = WriteProgress::start(max_size).after(events);
            &&& end.action !is Fail
            &&& end.action matches WriteAction::Finish(outcome) ==> outcome == (WriteOutcome {
                actual_size: max_size,
                stop_reason: WriteStopReason::Complete,
            })
        }),
    decreases events.len(),
{
    let start = WriteProgress::start(max_size);
    file_holds_its_pattern(max_size, 0, events);
    if events.len() > 0 {
        let earlier = events.drop_last();
        assert forall|i: int| 0 <= i < earlier.len() implies (#[trigger] earlier[i]) !is Failed
            && earlier[i] != WriteEvent::Accepted(0) by {
            assert(earlier[i] == events[i]);
        }
        undisturbed_write_completes(max_size, earlier);
        file_holds_its_pattern(max_size, 0, earlier);
        assert(events.last() == events[events.len() - 1]);
        undisturbed_never_stops(max_size, earlier);
    }
}

proof fn undisturbed_never_stops(max_size: u64, events: Seq<WriteEvent>)
    requires
        WriteProgress::start(max_size).admits_all(events),
        forall|i: int| 0 <= i < events.len() ==> (#[trigger] events[i]) !is Failed,
    ensures
        WriteProgress::start(max_size).after(events).action !is FlushAnyway,
    decreases events.len(),
{
    if events.len() > 0 {
        let earlier = events.drop_last();
        assert forall|i: int| 0 <= i < earlier.len() implies (#[trigger] earlier[i]) !is Failed by {
            assert(earlier[i] == events[i]);
        }
        undisturbed_never_stops(max_size, earlier);
        assert(events.last() == events[events.len() - 1]);
    }
}

/// The writing of one file, step by step.
pub struct FileWriter {
    source: BlockSource,
    block: Vec<u8>,
    offset: usize,
    progress: WriteProgress,
}

impl FileWriter {
    /// The seed of the file's data.
    pub closed spec fn seed(self) -> u64 {
        self.source.seed()
    }

    /// How far the writing has come.
    pub closed spec fn progress(self) -> WriteProgress {
        self.progress
    }

    /// The current block holds the position, and its bytes are those of the
    /// file's data.
    pub closed spec fn valid(self) -> bool {
        let start = self.source.offset() - self.block@.len();
        let at = self.progress;
        &&& self.source.valid()
        &&& self.source.size() == at.max_size
        &&& self.offset <= self.block@.len()
        &&& 0 <= start
        &&& start + self.offset == at.position
        &&& at.position <= at.max_size
        &&& self.source.offset() <= at.max_size
        &&& self.block@ == pattern::pattern_range(
            self.source.seed(),
            start,
            self.source.offset() as int,
        )
        &&& at.action is Create ==> self.source.offset() == 0
        &&& at.action is Write ==> {
            &&& self.offset < self.block@.len()
            &&& start % IO_BLOCK_SIZE as int == 0
            &&& self.source.offset() == pattern::block_end(start, at.max_size as int)
        }
    }

    /// A file of at most `max_size` bytes with the data for a seed.
    pub fn new(max_size: u64, seed: u64) -> (writer: FileWriter)
        ensures
            writer.valid(),
            writer.seed() == seed,
            writer.progress() == WriteProgress::start(max_size),
    {
        let writer = FileWriter {
            source: BlockSource::new(seed, max_size),
            block: Vec::new(),
            offset: 0,
            progress: WriteProgress { action: WriteAction::Create, position: 0, max_size },
        };
        assert(writer.block@ =~= pattern::pattern_range(seed, 0, 0));
        writer
    }

    /// What is to be done next.
    pub fn action(&self) -> (action: WriteAction)
        ensures
            action == self.progress().action,
    {
        self.progress.action
    }

    /// The number of bytes that were written.
    pub fn written(&self) -> (count: u64)
        ensures
            count == self.progress().position,
    {
        self.progress.position
    }

    /// The bytes to write from.
    pub fn pending(&self) -> (bytes: &[u8])
        requires
            self.valid(),
            self.progress().action is Write,
        ensures
            bytes@ == pattern::pattern_range(
                self.seed(),
                self.progress().position as int,
                self.progress().pending_end(),
            ),
            0 < bytes@.len() <= IO_BLOCK_SIZE,
    {
        proof {
            self.lemma_block();
        }
        let bytes = vstd::slice::slice_subrange(
            self.block.as_slice(),
            self.offset,
            self.block.len(),
        );
        assert(bytes@ =~= pattern::pattern_range(
            self.seed(),
            self.progress().position as int,
            self.progress().pending_end(),
        ));
        bytes
    }

    /// The pending bytes end where the current block does.
    proof fn lemma_block(self)
        requires
            self.valid(),
            self.progress.action is Write,
        ensures
            self.source.offset() == self.progress.pending_end(),
            self.source.offset() - self.block@.len() == self.progress.position
                - self.progress.position % IO_BLOCK_SIZE as u64,
            self.block@.len() <= IO_BLOCK_SIZE,
    {
        let start: int = self.source.offset() - self.block@.len();
        let block: int = IO_BLOCK_SIZE as int;
        assert(block == 0x10_0000);
        assert((start + self.offset) % 0x10_0000 == self.offset as int);
    }

    /// Takes the next block if there is one and the current one is written.
    fn advance(&mut self)
        requires
            ({
                let w = *old(self);
                &&& (FileWriter {
                    progress: WriteProgress { action: WriteAction::Flush, ..w.progress },
                    ..w
                }).valid()
                &&& w.offset < w.block@.len() ==> (w.source.offset() - w.block@.len())
                    % IO_BLOCK_SIZE as int == 0 && w.source.offset() == pattern::block_end(
                    w.source.offset() - w.block@.len(),
                    w.progress.max_size as int,
                )
                &&& w.offset == w.block@.len() && w.source.offset() < w.progress.max_size
                    ==> w.source.offset() % IO_BLOCK_SIZE as u64 == 0
            }),
        ensures
            final(self).valid(),
            final(self).seed() == old(self).seed(),
            final(self).progress() == old(self).progress().writing(),
    {
        if self.progress.position < self.progress.max_size {
            if self.offset == self.block.len() {
                self.block = self.source.next_block();
                self.offset = 0;
            }
            self.progress.action = WriteAction::Write;
        } else {
            self.progress.action = WriteAction::Flush;
        }
    }

    fn after_error(&self, code: Option<i32>, failure: WriteFailure) -> (action: WriteAction)
        ensures
            action == self.progress().after_error(code, failure),
    {
        let actual_size: u64 = self.progress.position;
        if is_disk_full(code) {
            WriteAction::Finish(
                WriteOutcome { actual_size, stop_reason: WriteStopReason::DiskFull },
            )
        } else if is_file_too_large(code) {
            WriteAction::Finish(
                WriteOutcome { actual_size, stop_reason: WriteStopReason::FileTooLarge },
            )
        } else {
            WriteAction::Fail(failure)
        }
    }

    /// Takes note of how the action ended.
    pub fn step(&mut self, event: WriteEvent)
        requires
            old(self).valid(),
            old(self).progress().admits(event),
        ensures
            final(self).valid(),
            final(self).seed() == old(self).seed(),
            final(self).progress() == old(self).progress().next(event),
    {
        match (self.progress.action, event) {
            (WriteAction::Create, WriteEvent::Done) => {
                self.advance();
            },
            (WriteAction::Create, WriteEvent::Failed(code)) => {
                self.progress.action = self.after_error(code, WriteFailure::Create);
            },
            (WriteAction::Write, WriteEvent::Accepted(count)) => {
                if count == 0 {
                    self.progress.action = WriteAction::Fail(WriteFailure::Zero);
                } else {
                    proof {
                        self.lemma_block();
                    }
                    self.offset = self.offset + count;
                    self.progress.position = self.progress.position + count as u64;
                    self.advance();
                }
            },
            (WriteAction::Write, WriteEvent::Failed(code)) => {
                self.progress.action = match self.after_error(code, WriteFailure::Write) {
                    WriteAction::Finish(outcome) => WriteAction::FlushAnyway(outcome),
                    failure => failure,
                };
            },
            (WriteAction::FlushAnyway(outcome), _) => {
                self.progress.action = WriteAction::Finish(outcome);
            },
            (WriteAction::Flush, WriteEvent::Done) => {
                self.progress.action = WriteAction::Sync;
            },
            (WriteAction::Flush, WriteEvent::Failed(code)) => {
                self.progress.action = self.after_error(code, WriteFailure::Flush);
            },
            (WriteAction::Sync, WriteEvent::Done) => {
                self.progress.action = WriteAction::Finish(
                    WriteOutcome {
                        actual_size: self.progress.position,
                        stop_reason: WriteStopReason::Complete,
                    },
                );
            },
            (WriteAction::Sync, WriteEvent::Failed(code)) => {
                self.progress.action = self.after_error(code, WriteFailure::Sync);
            },
            _ => {},
        }
    }
}

/// The bytes to write next lie in one block of one MiB and end where the block
/// does, or where the file does.
pub proof fn pending_bytes_end_with_their_block(at: WriteProgress)
    requires
        at.consistent(),
        at.action is Write,
    ensures
        at.position < at.pending_end() <= at.max_size,
        at.pending_end() - at.position <= 1048576,
        at.pending_end() == at.max_size || at.pending_end() % 1048576 == 0,
{
    let start: int = at.position - at.position % 1048576;
    assert(start % 1048576 == 0);
    assert((start + 1048576) % 1048576 == 0);
}

/// What an operation that succeeds leads to: a file that was created is written
/// until its size is reached, then flushed, synced and complete.
pub proof fn files_are_written_flushed_and_synced(at: WriteProgress, count: usize)
    requires
        at.consistent(),
    ensures
        at.action is Create && at.max_size > 0 ==> at.next(WriteEvent::Done)
            == (WriteProgress { action: WriteAction::Write, ..at }),
        at.action is Create && at.max_size == 0 ==> at.next(WriteEvent::Done)
            == (WriteProgress { action: WriteAction::Flush, ..at }),
        at.action is Write && 0 < count <= at.max_size - at.position ==> {
            let after = at.next(WriteEvent::Accepted(count));
            &&& after.position == at.position + count
            &&& after.max_size == at.max_size
            &&& after.action is Write <==> at.position + count < at.max_size
            &&& after.action is Flush <==> at.position + count == at.max_size
        },
        at.action is Flush ==> at.next(WriteEvent::Done) == (WriteProgress {
            action: WriteAction::Sync,
            ..at
        }),
        at.action is Sync ==> at.next(WriteEvent::Done).action == WriteAction::Finish(
            WriteOutcome { actual_size: at.max_size, stop_reason: WriteStopReason::Complete },
        ),
        at.action is Write ==> at.next(WriteEvent::Accepted(0)).action == WriteAction::Fail(
            WriteFailure::Zero,
        ),
{
}

/// What an operation that fails leads to. A full disk or a file that is too large
/// ends the file with what it holds, after a flush where bytes were being written;
/// any other error is a failure of the operation.
pub proof fn errors_end_a_file(at: WriteProgress, code: Option<i32>)
    requires
        at.consistent(),
        at.action is Create || at.action is Write || at.action is Flush || at.action is Sync,
    ensures
        ({
            let after = at.next(WriteEvent::Failed(code));
            let full = code == Some(28i32) || code == Some(39i32) || code == Some(112i32);
            let large = code == Some(27i32) || code == Some(223i32) || code == Some(665i32);
            let reason = if full {
                WriteStopReason::DiskFull
            } else {
                WriteStopReason::FileTooLarge
            };
            let outcome = WriteOutcome { actual_size: at.position, stop_reason: reason };
            &&& after.position == at.position
            &&& full || large ==> {
                &&& at.action is Write ==> after.action == WriteAction::FlushAnyway(outcome)
                &&& at.action !is Write ==> after.action == WriteAction::Finish(outcome)
            }
            &&& !full && !large ==> {
                &&& at.action is Create ==> after.action == WriteAction::Fail(WriteFailure::Create)
                &&& at.action is Write ==> after.action == WriteAction::Fail(WriteFailure::Write)
                &&& at.action is Flush ==> after.action == WriteAction::Fail(WriteFailure::Flush)
                &&& at.action is Sync ==> after.action == WriteAction::Fail(WriteFailure::Sync)
            }
        }),
{
}

/// A flush that does not matter ends the file as it was to end, however it goes.
pub proof fn flushes_anyway_change_nothing(
    at: WriteProgress,
    outcome: WriteOutcome,
    event: WriteEvent,
)
    requires
        at.action == WriteAction::FlushAnyway(outcome),
        event !is Accepted,
    ensures
        at.admits(event),
        at.next(event) == (WriteProgress { action: WriteAction::Finish(outcome), ..at }),
{
}

/// A message of a failure on a file names the file, but for a write that accepted
/// nothing.
pub proof fn write_failures_name_the_file(failure: WriteFailure, path: Seq<char>)
    requires
        failure != WriteFailure::Zero,
    ensures
        text::has_suffix(failure.text(path), path),
{
    let whole = failure.text(path);
    assert(whole.skip(whole.len() - path.len()) =~= path);
}

/// Whatever an operation can come to is taken: success or any error, and for a
/// write any number of bytes up to the end of their block.
pub proof fn every_end_of_an_operation_is_taken(at: WriteProgress, code: Option<i32>, count: usize)
    requires
        at.consistent(),
        at.action !is Finish,
        at.action !is Fail,
    ensures
        at.admits(WriteEvent::Failed(code)),
        at.action !is Write ==> at.admits(WriteEvent::Done) && !at.admits(
            WriteEvent::Accepted(count),
        ),
        at.action is Write ==> {
            &&& at.admits(WriteEvent::Accepted(count)) <==> at.position + count <= at.pending_end()
            &&& !at.admits(WriteEvent::Done)
        },
{
}

/// A file that has to be created is refused where there is one already: nothing is
/// written before it is created, and it holds nothing then.
pub proof fn files_are_created_first(max_size: u64)
    ensures
        WriteProgress::start(max_size).action == WriteAction::Create,
        WriteProgress::start(max_size).position == 0,
        WriteProgress::start(max_size).max_size == max_size,
{
}

/// What is written next is the data for the file's seed, from where the file ends
/// so far to the end of the block.
pub proof fn pending_bytes_are_the_data(writer: FileWriter, bytes: &[u8], i: int)
    requires
        writer.valid(),
        writer.progress().action is Write,
        call_ensures(FileWriter::pending, (&writer,), bytes),
        0 <= i < bytes@.len(),
    ensures
        bytes@.len() == writer.progress().pending_end() - writer.progress().position,
        bytes@[i] == pattern::keystream(writer.seed())[writer.progress().position + i],
{
}

} // verus!
