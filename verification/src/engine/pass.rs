//! Writing the files of one pass, until the free space is used up.

use crate::console::{self, format_bytes, Message, Style};
use crate::engine::writing::{WriteOutcome, WriteStopReason};
use crate::engine::{
    self, choose_chunk_size, seed_for, EngineError, FileRecord, FALLBACK_CHUNK_SIZE, FAT_CHUNK_SIZE,
    MINIMUM_SPACE,
};
use crate::manifest::{self, make_test_file_name, TestFile};
use vstd::prelude::*;

verus! {

/// What a pass wrote.
#[derive(Debug)]
pub struct WritePassResult {
    pub files: Vec<FileRecord>,
    pub expected_total: u64,
    pub actual_total: u64,
    pub capacity_ok: bool,
}

/// Where a pass stands.
#[derive(Debug, Clone, Copy, PartialEq, Eq, Structural)]
pub enum PassStage {
    /// Another file is to be written.
    Writing,
    /// All files are written.
    Finished,
    /// The file system rejected even a small file.
    Rejected,
}

/// The file that a pass writes next.
#[derive(Debug)]
pub struct FilePlan {
    pub name: String,
    pub index: u32,
    pub seed: u64,
    pub size: u64,
}

impl FilePlan {
    /// The announcement of the file.
    pub fn message(&self) -> (message: Message)
        ensures
            message@ == (
                Style::Info,
                "  writing "@ + self.name@ + " (up to "@ + console::size_text(self.size) + ")"@,
            ),
    {
        Message::new(
            Style::Info,
            "  writing ".to_owned().concat(self.name.as_str()).concat(" (up to ").concat(
                format_bytes(self.size).as_str(),
            ).concat(")"),
        )
    }
}

/// The size of a file that takes what remains, up to a chunk, and at least one
/// byte.
pub open spec fn size_planned(remaining: int, chunk_size: u64) -> int {
    let size = if remaining <= chunk_size {
        remaining
    } else {
        chunk_size as int
    };
    if size < 1 {
        1
    } else {
        size
    }
}

/// The sum, or the largest number if it is above that.
pub open spec fn saturated(n: int, max: int) -> int {
    if n <= max {
        n
    } else {
        max
    }
}

/// The sizes of all files together.
pub open spec fn size_of_all(files: Seq<FileRecord>) -> int
    decreases files.len(),
{
    if files.len() == 0 {
        0
    } else {
        size_of_all(files.drop_last()) + files.last().file.actual_size
    }
}

/// The shortfall that is put down to the file system's own needs: 64 MiB, or a
/// hundredth of what was expected if that is more.
pub open spec fn tolerance(expected: u64) -> int {
    if expected / 100 <= 64 * 1024 * 1024 {
        64 * 1024 * 1024 as int
    } else {
        (expected / 100) as int
    }
}

/// So much was written as was expected, but for the tolerance.
pub open spec fn capacity_met(expected: u64, actual: u64) -> bool {
    expected - actual <= tolerance(expected)
}

/// How far the writing of the files of a pass has come.
#[derive(Debug)]
pub struct PassData {
    pub pass: u32,
    pub total_passes: u32,
    pub expected_total: u64,
    pub chunk_size: u64,
    pub files: Vec<FileRecord>,
    pub actual_total: u64,
    pub file_index: u32,
    pub stage: PassStage,
}

impl PassData {
    /// The record is of the file that the pass has planned, written with an
    /// outcome.
    pub open spec fn is_record(self, record: FileRecord, outcome: WriteOutcome) -> bool {
        let seed = engine::seed_of(self.pass, self.file_index);
        &&& record.file.name@ == manifest::test_file_name(
            self.pass as nat,
            self.total_passes as nat,
            self.file_index as nat,
            seed as nat,
        )
        &&& record.file.pass == self.pass
        &&& record.file.total_passes == self.total_passes
        &&& record.file.index == self.file_index
        &&& record.file.seed == seed
        &&& record.file.actual_size == outcome.actual_size
        &&& record.expected_size == size_planned(
            self.expected_total - self.actual_total,
            self.chunk_size,
        )
        &&& !record.verified
        &&& record.passed is None
    }

    /// The pass goes on as `after` when its planned file was written with an
    /// outcome.
    pub open spec fn continues(self, after: PassData, outcome: WriteOutcome) -> bool {
        let falls_back = outcome.stop_reason == WriteStopReason::FileTooLarge && self.chunk_size
            > FALLBACK_CHUNK_SIZE;
        let more = outcome.stop_reason == WriteStopReason::Complete || falls_back;
        &&& after.pass == self.pass
        &&& after.total_passes == self.total_passes
        &&& after.expected_total == self.expected_total
        &&& after.chunk_size == if falls_back {
            FALLBACK_CHUNK_SIZE
        } else {
            self.chunk_size
        }
        &&& after.files@.len() == self.files@.len() + 1
        &&& after.files@.drop_last() == self.files@
        &&& self.is_record(after.files@.last(), outcome)
        &&& after.actual_total == saturated(
            self.actual_total + outcome.actual_size,
            u64::MAX as int,
        )
        &&& after.file_index == if more {
            saturated(self.file_index + 1, u32::MAX as int)
        } else {
            self.file_index as int
        }
        &&& after.stage == if more {
            if after.actual_total < self.expected_total {
                PassStage::Writing
            } else {
                PassStage::Finished
            }
        } else if outcome.stop_reason == WriteStopReason::DiskFull {
            PassStage::Finished
        } else {
            PassStage::Rejected
        }
    }

    /// The plan is of the file that the pass writes next.
    pub open spec fn is_planned(self, plan: FilePlan) -> bool {
        &&& plan.index == self.file_index
        &&& plan.seed == engine::seed_of(self.pass, self.file_index)
        &&& plan.name@ == manifest::test_file_name(
            self.pass as nat,
            self.total_passes as nat,
            plan.index as nat,
            plan.seed as nat,
        )
        &&& plan.size == size_planned(self.expected_total - self.actual_total, self.chunk_size)
    }

    /// What the user is told when the planned file was written with an outcome.
    pub open spec fn warns(self, outcome: WriteOutcome) -> Seq<(Style, Seq<char>)> {
        if outcome.stop_reason == WriteStopReason::FileTooLarge && self.chunk_size
            > FALLBACK_CHUNK_SIZE {
            seq![
                (
                    Style::Warn,
                    "  filesystem rejected a "@ + console::size_text(self.chunk_size)
                        + " file; falling back to "@ + console::size_text(FALLBACK_CHUNK_SIZE)
                        + " chunks"@,
                ),
            ]
        } else {
            Seq::empty()
        }
    }

    /// What the pass came to.
    pub open spec fn ends_with(self, result: WritePassResult) -> bool {
        &&& result.files == self.files
        &&& result.expected_total == self.expected_total
        &&& result.actual_total == self.actual_total
        &&& result.capacity_ok == capacity_met(self.expected_total, self.actual_total)
    }

    /// What the user is told of a capacity that is not there.
    pub open spec fn complains(self) -> Seq<(Style, Seq<char>)> {
        if capacity_met(self.expected_total, self.actual_total) {
            Seq::empty()
        } else {
            seq![
                (
                    Style::Fail,
                    "  capacity shortfall: wrote "@ + console::size_text(self.actual_total)
                        + " of "@ + console::size_text(self.expected_total),
                ),
            ]
        }
    }

    /// The record at an index is one of this pass.
    pub open spec fn lists(self, i: int) -> bool {
        let file = self.files@[i].file;
        &&& file.pass == self.pass
        &&& file.total_passes == self.total_passes
        &&& file.index == saturated(i, u32::MAX as int)
        &&& file.seed == engine::seed_of(file.pass, file.index)
        &&& file.name@ == manifest::test_file_name(
            file.pass as nat,
            file.total_passes as nat,
            file.index as nat,
            file.seed as nat,
        )
    }

    /// The files are numbered from zero on, their sizes add up to the total, and
    /// a file is to be written only while space is left.
    pub open spec fn valid(self) -> bool {
        &&& self.chunk_size >= 1
        &&& forall|i: int| 0 <= i < self.files@.len() ==> #[trigger] self.lists(i)
        &&& self.actual_total == saturated(size_of_all(self.files@), u64::MAX as int)
        &&& self.stage == PassStage::Writing ==> {
            &&& self.actual_total < self.expected_total
            &&& self.file_index == saturated(self.files@.len() as int, u32::MAX as int)
        }
    }

    /// No file is planned beyond a size.
    pub open spec fn bounded_by(self, limit: u64) -> bool {
        &&& self.chunk_size <= limit
        &&& forall|i: int|
            0 <= i < self.files@.len() ==> (#[trigger] self.files@[i]).expected_size <= limit
    }

    /// The file to write next.
    fn plan(&self) -> (plan: FilePlan)
        requires
            self.valid(),
            self.stage == PassStage::Writing,
        ensures
            self.is_planned(plan),
            1 <= plan.size <= self.chunk_size,
            plan.size <= self.expected_total - self.actual_total,
    {
        let remaining: u64 = self.expected_total - self.actual_total;
        let size: u64 = if remaining <= self.chunk_size {
            remaining
        } else {
            self.chunk_size
        };
        let seed: u64 = seed_for(self.pass, self.file_index);
        let name = make_test_file_name(self.pass, self.total_passes, self.file_index, seed);
        FilePlan { name, index: self.file_index, seed, size }
    }

    /// Takes note of how the planned file was written.
    fn record(&mut self, outcome: WriteOutcome) -> (messages: Vec<Message>)
        requires
            old(self).valid(),
            old(self).stage == PassStage::Writing,
        ensures
            final(self).valid(),
            old(self).continues(*final(self), outcome),
            console::contents(messages@) == old(self).warns(outcome),
    {
        let plan = self.plan();
        let mut messages: Vec<Message> = Vec::new();
        let file = TestFile {
            name: plan.name,
            pass: self.pass,
            total_passes: self.total_passes,
            index: plan.index,
            seed: plan.seed,
            actual_size: outcome.actual_size,
        };
        let record = FileRecord {
            file,
            expected_size: plan.size,
            verified: false,
            passed: None,
        };
        self.files.push(record);
        assert(self.files@.drop_last() =~= old(self).files@);
        self.actual_total = self.actual_total.saturating_add(outcome.actual_size);
        let more: bool = match outcome.stop_reason {
            WriteStopReason::Complete => true,
            WriteStopReason::DiskFull => {
                self.stage = PassStage::Finished;
                false
            },
            WriteStopReason::FileTooLarge => if self.chunk_size > FALLBACK_CHUNK_SIZE {
                messages.push(
                    Message::new(
                        Style::Warn,
                        "  filesystem rejected a ".to_owned().concat(
                            format_bytes(self.chunk_size).as_str(),
                        ).concat(" file; falling back to ").concat(
                            format_bytes(FALLBACK_CHUNK_SIZE).as_str(),
                        ).concat(" chunks"),
                    ),
                );
                self.chunk_size = FALLBACK_CHUNK_SIZE;
                true
            } else {
                self.stage = PassStage::Rejected;
                false
            },
        };
        if more {
            self.file_index = self.file_index.saturating_add(1);
            if self.actual_total >= self.expected_total {
                self.stage = PassStage::Finished;
            }
        }
        proof {
            assert forall|i: int| 0 <= i < self.files@.len() implies #[trigger] self.lists(i) by {
                if i < old(self).files@.len() {
                    assert(old(self).lists(i));
                    assert(self.files@[i] == old(self).files@[i]);
                }
            }
            lemma_size_nonnegative(old(self).files@);
            assert(console::contents(messages@) =~= if outcome.stop_reason
                == WriteStopReason::FileTooLarge && old(self).chunk_size > FALLBACK_CHUNK_SIZE {
                seq![messages@[0]@]
            } else {
                Seq::empty()
            });
        }
        messages
    }

    /// Ends a pass that has written all its files.
    fn finish(self) -> (end: (WritePassResult, Vec<Message>))
        requires
            self.valid(),
            self.stage == PassStage::Finished,
        ensures
            self.ends_with(end.0),
            console::contents((end.1)@) == self.complains(),
    {
        let shortfall: u64 = self.expected_total.saturating_sub(self.actual_total);
        let hundredth: u64 = self.expected_total / 100;
        let tolerance: u64 = if hundredth <= 64 * 1024 * 1024 {
            64 * 1024 * 1024
        } else {
            hundredth
        };
        let capacity_ok: bool = shortfall <= tolerance;
        let mut messages: Vec<Message> = Vec::new();
        if !capacity_ok {
            messages.push(
                Message::new(
                    Style::Fail,
                    "  capacity shortfall: wrote ".to_owned().concat(
                        format_bytes(self.actual_total).as_str(),
                    ).concat(" of ").concat(format_bytes(self.expected_total).as_str()),
                ),
            );
        }
        assert(console::contents(messages@) =~= if capacity_ok {
            Seq::empty()
        } else {
            seq![messages@[0]@]
        });
        let PassData { files, expected_total, actual_total, .. } = self;
        (WritePassResult { files, expected_total, actual_total, capacity_ok }, messages)
    }
}

/// Writing the files of one pass.
#[derive(Debug)]
pub struct WritePass {
    data: PassData,
}

impl WritePass {
    /// How far the writing has come.
    pub closed spec fn view(self) -> PassData {
        self.data
    }

    /// How far the writing has come.
    pub fn data(&self) -> (data: &PassData)
        ensures
            *data == self@,
    {
        &self.data
    }

    /// A pass on a target with so much free space.
    pub fn start(
        target: &str,
        filesystem: &str,
        pass: u32,
        total_passes: u32,
        expected_total: u64,
    ) -> (result: Result<WritePass, EngineError>)
        ensures
            is_start(result, target@, filesystem@, pass, total_passes, expected_total),
    {
        if expected_total < MINIMUM_SPACE {
            return Err(EngineError::NotEnoughSpace(target.to_owned(), expected_total));
        }
        let data = PassData {
            pass,
            total_passes,
            expected_total,
            chunk_size: choose_chunk_size(filesystem, expected_total),
            files: Vec::new(),
            actual_total: 0,
            file_index: 0,
            stage: PassStage::Writing,
        };
        Ok(WritePass { data })
    }

    /// The file to write next.
    pub fn plan(&self) -> (plan: FilePlan)
        requires
            self@.valid(),
            self@.stage == PassStage::Writing,
        ensures
            self@.is_planned(plan),
            1 <= plan.size <= self@.chunk_size,
            plan.size <= self@.expected_total - self@.actual_total,
    {
        self.data.plan()
    }

    /// Takes note of how the planned file was written, and says what the user is
    /// told.
    pub fn record(&mut self, outcome: WriteOutcome) -> (messages: Vec<Message>)
        requires
            old(self)@.valid(),
            old(self)@.stage == PassStage::Writing,
        ensures
            final(self)@.valid(),
            old(self)@.continues(final(self)@, outcome),
            console::contents(messages@) == old(self)@.warns(outcome),
    {
        self.data.record(outcome)
    }

    /// Ends a pass that has written all its files, and says what the user is told.
    pub fn finish(self) -> (end: (WritePassResult, Vec<Message>))
        requires
            self@.valid(),
            self@.stage == PassStage::Finished,
        ensures
            self@.ends_with(end.0),
            console::contents((end.1)@) == self@.complains(),
            (end.0).capacity_ok <==> {
                ||| self@.expected_total - self@.actual_total <= 0x400_0000
                ||| 100 * (self@.expected_total - self@.actual_total) <= self@.expected_total
            },
            (end.1)@.len() == if (end.0).capacity_ok {
                0int
            } else {
                1
            },
    {
        proof {
            shortfalls_are_judged(
                self@,
                WritePassResult {
                    files: self@.files,
                    expected_total: self@.expected_total,
                    actual_total: self@.actual_total,
                    capacity_ok: capacity_met(self@.expected_total, self@.actual_total),
                },
            );
        }
        let end = self.data.finish();
        assert(console::contents((end.1)@).len() == (end.1)@.len());
        end
    }
}

/// How a pass on a target with so much free space starts: it needs some.
pub open spec fn is_start(
    result: Result<WritePass, EngineError>,
    target: Seq<char>,
    filesystem: Seq<char>,
    pass: u32,
    total_passes: u32,
    expected_total: u64,
) -> bool {
    match result {
        Ok(writing) => {
            &&& expected_total >= MINIMUM_SPACE
            &&& writing@.pass == pass
            &&& writing@.total_passes == total_passes
            &&& writing@.expected_total == expected_total
            &&& writing@.chunk_size == engine::chunk_size_for(filesystem, expected_total)
            &&& writing@.files@ == Seq::<FileRecord>::empty()
            &&& writing@.actual_total == 0
            &&& writing@.file_index == 0
            &&& writing@.stage == PassStage::Writing
            &&& writing@.valid()
            &&& writing@.bounded_by(engine::chunk_size_for(filesystem, expected_total))
        },
        Err(error) => {
            &&& expected_total < MINIMUM_SPACE
            &&& error matches EngineError::NotEnoughSpace(t, available)
            &&& t@ == target
            &&& available == expected_total
        },
    }
}

/// Sizes do not add up to less than nothing.
pub proof fn lemma_size_nonnegative(files: Seq<FileRecord>)
    ensures
        0 <= size_of_all(files),
    decreases files.len(),
{
    if files.len() > 0 {
        lemma_size_nonnegative(files.drop_last());
    }
}

/// A limit on the size of planned files is kept.
pub proof fn chunks_stay_bounded(
    before: PassData,
    after: PassData,
    outcome: WriteOutcome,
    limit: u64,
)
    requires
        before.valid(),
        before.stage == PassStage::Writing,
        before.bounded_by(limit),
        before.continues(after, outcome),
    ensures
        after.bounded_by(limit),
{
    assert forall|i: int| 0 <= i < after.files@.len() implies (
    #[trigger] after.files@[i]).expected_size <= limit by {
        if i < before.files@.len() {
            assert(after.files@[i] == after.files@.drop_last()[i]);
            assert(before.files@[i].expected_size <= limit);
        }
    }
}

/// A pass writes no more than the free space while no file exceeds its plan.
pub proof fn pass_stays_in_free_space(before: PassData, after: PassData, outcome: WriteOutcome)
    requires
        before.valid(),
        before.stage == PassStage::Writing,
        before.continues(after, outcome),
        outcome.actual_size <= size_planned(
            before.expected_total - before.actual_total,
            before.chunk_size,
        ),
    ensures
        after.actual_total <= after.expected_total,
        after.actual_total == before.actual_total + outcome.actual_size,
{
}

/// A pass comes to an end: after each file there is less to write, or the
/// chunks are as small as they get. Complete files have the planned size.
pub proof fn pass_advances(before: PassData, after: PassData, outcome: WriteOutcome)
    requires
        before.valid(),
        before.stage == PassStage::Writing,
        before.continues(after, outcome),
        outcome.stop_reason == WriteStopReason::Complete ==> outcome.actual_size == size_planned(
            before.expected_total - before.actual_total,
            before.chunk_size,
        ),
    ensures
        after.stage == PassStage::Writing ==> {
            ||| after.actual_total > before.actual_total
            ||| after.actual_total == before.actual_total && before.chunk_size
                > FALLBACK_CHUNK_SIZE && after.chunk_size == FALLBACK_CHUNK_SIZE
        },
{
}

/// A pass goes from one state to the next with an outcome.
pub open spec fn pass_step(states: Seq<PassData>, outcomes: Seq<WriteOutcome>, i: int) -> bool {
    &&& states[i].valid()
    &&& states[i].stage == PassStage::Writing
    &&& states[i].continues(states[i + 1], outcomes[i])
}

/// The states that a pass goes through while its files are written with the
/// outcomes.
pub open spec fn is_course(states: Seq<PassData>, outcomes: Seq<WriteOutcome>) -> bool {
    &&& states.len() == outcomes.len() + 1
    &&& states[0].files@.len() == 0
    &&& states[0].actual_total == 0
    &&& forall|i: int| 0 <= i < outcomes.len() ==> #[trigger] pass_step(states, outcomes, i)
}

/// On a FAT file system no file of a pass is planned larger than two GiB.
pub proof fn fat_files_stay_small(
    filesystem: Seq<char>,
    states: Seq<PassData>,
    outcomes: Seq<WriteOutcome>,
)
    requires
        engine::is_fat(filesystem),
        is_course(states, outcomes),
        states[0].chunk_size == engine::chunk_size_for(filesystem, states[0].expected_total),
    ensures
        states.last().bounded_by(FAT_CHUNK_SIZE),
    decreases outcomes.len(),
{
    if outcomes.len() > 0 {
        let n = outcomes.len() - 1;
        let earlier = states.drop_last();
        assert forall|i: int| 0 <= i < n implies #[trigger] pass_step(
            earlier,
            outcomes.drop_last(),
            i,
        ) by {
            assert(pass_step(states, outcomes, i));
        }
        fat_files_stay_small(filesystem, earlier, outcomes.drop_last());
        assert(pass_step(states, outcomes, n));
        chunks_stay_bounded(states[n], states[n + 1], outcomes[n], FAT_CHUNK_SIZE);
    }
}

/// A pass on a device that takes every file whole fills the free space exactly,
/// and so meets the expected capacity.
pub proof fn sound_device_meets_capacity(states: Seq<PassData>, outcomes: Seq<WriteOutcome>)
    requires
        is_course(states, outcomes),
        states.last().stage == PassStage::Finished,
        outcomes.len() > 0,
        forall|i: int|
            0 <= i < outcomes.len() ==> (#[trigger] outcomes[i]) == (WriteOutcome {
                actual_size: size_planned(
                    states[i].expected_total - states[i].actual_total,
                    states[i].chunk_size,
                ) as u64,
                stop_reason: WriteStopReason::Complete,
            }),
    ensures
        states.last().actual_total == states.last().expected_total,
        capacity_met(states.last().expected_total, states.last().actual_total),
{
    let n = outcomes.len() - 1;
    assert(pass_step(states, outcomes, n));
    assert(outcomes[n].stop_reason == WriteStopReason::Complete);
    pass_stays_in_free_space(states[n], states[n + 1], outcomes[n]);
}

/// The files of a pass have different names, as long as there are not more of
/// them than file numbers.
pub proof fn files_of_a_pass_differ(writing: PassData, i: int, j: int)
    requires
        writing.valid(),
        0 <= i < j < writing.files@.len(),
        j <= u32::MAX,
    ensures
        writing.files@[i].file.name@ != writing.files@[j].file.name@,
{
    assert(writing.lists(i) && writing.lists(j));
    let a = writing.files@[i].file;
    let b = writing.files@[j].file;
    manifest::test_file_names_round_trip(a.pass, a.total_passes, a.index, a.seed);
    manifest::test_file_names_round_trip(b.pass, b.total_passes, b.index, b.seed);
    if a.name@ == b.name@ {
        manifest::names_is_functional(
            a.name@,
            a.pass,
            a.total_passes,
            a.index,
            a.seed,
            b.pass,
            b.total_passes,
            b.index,
            b.seed,
        );
    }
}

/// The files of a pass are recognized by their names: what was written is found
/// again with its pass, its number and its seed.
pub proof fn files_of_a_pass_are_recognized(writing: PassData, i: int)
    requires
        writing.valid(),
        0 <= i < writing.files@.len(),
    ensures
        ({
            let file = writing.files@[i].file;
            manifest::names(file.name@, file.pass, file.total_passes, file.index, file.seed)
        }),
{
    assert(writing.lists(i));
    let file = writing.files@[i].file;
    manifest::test_file_names_round_trip(file.pass, file.total_passes, file.index, file.seed);
}

/// A pass meets the capacity exactly if no more than 64 MiB of what was expected
/// is missing, or no more than a hundredth of it. The user is told of every other
/// pass that it falls short, and of no pass that meets the capacity.
pub proof fn shortfalls_are_judged(writing: PassData, result: WritePassResult)
    requires
        writing.ends_with(result),
    ensures
        result.capacity_ok <==> {
            ||| writing.expected_total - writing.actual_total <= 67108864
            ||| 100 * (writing.expected_total - writing.actual_total) <= writing.expected_total
        },
        result.capacity_ok <==> writing.complains().len() == 0,
        !result.capacity_ok ==> writing.complains().len() == 1 && writing.complains()[0].0
            == Style::Fail,
        result.expected_total == writing.expected_total,
        result.actual_total == writing.actual_total,
        result.files@ == writing.files@,
{
    let missing = writing.expected_total - writing.actual_total;
    let expected = writing.expected_total as int;
    assert(missing <= expected / 100 <==> 100 * missing <= expected) by (nonlinear_arith)
        requires
            0 <= expected,
    ;
}

/// A pass that misses more than 64 MiB and more than a hundredth of what was
/// expected fails, however large the device is.
pub proof fn large_shortfalls_fail(writing: PassData, result: WritePassResult)
    requires
        writing.ends_with(result),
        writing.actual_total + 67108864 < writing.expected_total,
        100 * (writing.expected_total - writing.actual_total) > writing.expected_total,
    ensures
        !result.capacity_ok,
{
    shortfalls_are_judged(writing, result);
}

/// To write more never makes a capacity fail that was met with less.
pub proof fn more_data_never_hurts(
    a: PassData,
    b: PassData,
    first: WritePassResult,
    second: WritePassResult,
)
    requires
        a.ends_with(first),
        b.ends_with(second),
        a.expected_total == b.expected_total,
        a.actual_total <= b.actual_total,
        first.capacity_ok,
    ensures
        second.capacity_ok,
{
    shortfalls_are_judged(a, first);
    shortfalls_are_judged(b, second);
}

/// A pass starts exactly if there is one MiB of free space: it then has all of
/// the free space to fill and nothing written, and its chunks are of two GiB on
/// FAT, or of all the free space.
pub proof fn passes_start_with_a_megabyte(
    result: Result<WritePass, EngineError>,
    target: Seq<char>,
    filesystem: Seq<char>,
    pass: u32,
    total_passes: u32,
    free: u64,
)
    requires
        is_start(result, target, filesystem, pass, total_passes, free),
    ensures
        result is Ok <==> free >= 1048576,
        result matches Err(error) ==> (error matches EngineError::NotEnoughSpace(t, available)
            && t@ == target && available == free),
        result matches Ok(writing) ==> {
            &&& writing@.pass == pass
            &&& writing@.total_passes == total_passes
            &&& writing@.expected_total == free
            &&& writing@.actual_total == 0
            &&& writing@.files@.len() == 0
            &&& writing@.file_index == 0
            &&& writing@.stage == PassStage::Writing
            &&& writing@.chunk_size == 2147483648 || writing@.chunk_size == free
            &&& engine::is_fat(filesystem) ==> writing@.chunk_size == 2147483648
            &&& !engine::is_fat(filesystem) ==> writing@.chunk_size == free
        },
{
}

/// A plan takes what remains of the free space or a whole chunk, whichever is
/// less.
pub proof fn plans_take_what_remains(writing: PassData, plan: FilePlan)
    requires
        writing.valid(),
        writing.stage == PassStage::Writing,
        writing.is_planned(plan),
    ensures
        plan.size <= writing.chunk_size,
        writing.actual_total + plan.size <= writing.expected_total,
        plan.size == writing.chunk_size || writing.actual_total + plan.size
            == writing.expected_total,
        plan.index == writing.files@.len() || writing.files@.len() > u32::MAX,
        manifest::names(
            plan.name@,
            writing.pass,
            writing.total_passes,
            plan.index,
            plan.seed,
        ),
{
    manifest::test_file_names_round_trip(
        writing.pass,
        writing.total_passes,
        plan.index,
        plan.seed,
    );
}

/// What is recorded of a file is what was planned and what was written of it,
/// without a verdict; what was recorded before stays.
pub proof fn planned_file_is_recorded(
    before: PassData,
    plan: FilePlan,
    after: PassData,
    outcome: WriteOutcome,
)
    requires
        before.valid(),
        before.stage == PassStage::Writing,
        before.is_planned(plan),
        before.continues(after, outcome),
    ensures
        after.files@.len() == before.files@.len() + 1,
        forall|i: int|
            0 <= i < before.files@.len() ==> #[trigger] after.files@[i] == before.files@[i],
        ({
            let record = after.files@[before.files@.len() as int];
            &&& record.file.name@ == plan.name@
            &&& record.file.pass == before.pass
            &&& record.file.total_passes == before.total_passes
            &&& record.file.index == plan.index
            &&& record.file.seed == plan.seed
            &&& record.file.actual_size == outcome.actual_size
            &&& record.expected_size == plan.size
            &&& !record.verified
            &&& record.passed is None
        }),
        before.actual_total + outcome.actual_size <= u64::MAX ==> after.actual_total
            == before.actual_total + outcome.actual_size,
        after.expected_total == before.expected_total,
        after.pass == before.pass,
        after.total_passes == before.total_passes,
{
    assert forall|i: int| 0 <= i < before.files@.len() implies #[trigger] after.files@[i]
        == before.files@[i] by {
        assert(after.files@[i] == after.files@.drop_last()[i]);
    }
}

/// How the last file was written decides how a pass goes on. A full disk ends it.
/// A file that is too large makes the chunks one GiB, or ends the pass with an
/// error where they are no larger. Otherwise the chunks stay as they are. While
/// something remains the next file is numbered one higher.
pub proof fn outcomes_decide_what_follows(before: PassData, after: PassData, outcome: WriteOutcome)
    requires
        before.valid(),
        before.stage == PassStage::Writing,
        before.continues(after, outcome),
    ensures
        outcome.stop_reason == WriteStopReason::DiskFull ==> after.stage == PassStage::Finished,
        after.stage == PassStage::Rejected <==> outcome.stop_reason
            == WriteStopReason::FileTooLarge && before.chunk_size <= 1073741824,
        outcome.stop_reason == WriteStopReason::Complete ==> (after.stage == PassStage::Writing
            <==> after.actual_total < after.expected_total),
        outcome.stop_reason == WriteStopReason::FileTooLarge && before.chunk_size > 1073741824
            ==> (after.stage == PassStage::Writing <==> after.actual_total < after.expected_total),
        outcome.stop_reason == WriteStopReason::FileTooLarge && before.chunk_size > 1073741824
            ==> after.chunk_size == 1073741824,
        !(outcome.stop_reason == WriteStopReason::FileTooLarge && before.chunk_size > 1073741824)
            ==> after.chunk_size == before.chunk_size,
        after.stage == PassStage::Writing && before.file_index < u32::MAX ==> after.file_index
            == before.file_index + 1,
        before.warns(outcome).len() == 0 <==> after.chunk_size == before.chunk_size,
{
}

/// What the user is told of a pass: how much was written of what was expected if
/// it falls short, and the sizes of the chunks if they are made smaller.
pub proof fn passes_tell_their_sizes(writing: PassData, outcome: WriteOutcome)
    ensures
        writing.complains().len() > 0 ==> writing.complains()[0].1
            == "  capacity shortfall: wrote "@ + console::size_text(writing.actual_total) + " of "@
            + console::size_text(writing.expected_total),
        writing.warns(outcome).len() > 0 ==> writing.warns(outcome)[0].1
            == "  filesystem rejected a "@ + console::size_text(writing.chunk_size)
            + " file; falling back to "@ + console::size_text(1073741824) + " chunks"@,
{
}

/// Sizes add up file by file.
pub proof fn sizes_add_up(files: Seq<FileRecord>, record: FileRecord)
    ensures
        size_of_all(Seq::<FileRecord>::empty()) == 0,
        size_of_all(files.push(record)) == size_of_all(files) + record.file.actual_size,
{
    assert(files.push(record).drop_last() =~= files);
}

/// Neither the size of a pass nor the number of its files goes beyond the largest
/// number: they stay there.
pub proof fn counts_stay_at_their_limit(before: PassData, after: PassData, outcome: WriteOutcome)
    requires
        before.valid(),
        before.stage == PassStage::Writing,
        before.continues(after, outcome),
    ensures
        before.actual_total + outcome.actual_size > 18446744073709551615 ==> after.actual_total
            == 18446744073709551615,
        before.file_index == 4294967295 ==> after.file_index == 4294967295,
        after.file_index <= before.file_index + 1,
{
}

} // verus!
