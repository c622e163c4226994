//! Recovering the state of a test from its files, when the state is lost.

use crate::engine::pass::{self, PassData};
use crate::engine::{self, seed_for, VerifyOptions};
use crate::manifest::{self, make_test_file_name, FileRecord, StateStatus, TestFile, TestState};
use vstd::prelude::*;

verus! {

/// The record of a file that was found on a volume.
pub open spec fn found_record(file: TestFile) -> FileRecord {
    FileRecord { file, expected_size: file.actual_size, verified: false, passed: None }
}

/// The files of a pass among those that were found.
pub open spec fn of_pass(files: Seq<TestFile>, pass: u32) -> Seq<TestFile> {
    files.filter(|f: TestFile| f.pass == pass)
}

/// The files of a pass are numbered without a gap, so a file with a number above
/// zero is missing the one before it where none of them has that number.
pub open spec fn lacks_predecessor(file: TestFile, all: Seq<TestFile>) -> bool {
    file.index > 0 && forall|i: int| 0 <= i < all.len() ==> (#[trigger] all[i]).index != file.index
        - 1
}

/// The record of the file before one that lacks it: its name is known, and
/// nothing of it is there.
pub open spec fn is_missing_record(record: FileRecord, file: TestFile) -> bool {
    let index = (file.index - 1) as u32;
    let seed = engine::seed_of(file.pass, index);
    &&& record.file.name@ == manifest::test_file_name(
        file.pass as nat,
        file.total_passes as nat,
        index as nat,
        seed as nat,
    )
    &&& record.file.pass == file.pass
    &&& record.file.total_passes == file.total_passes
    &&& record.file.index == index
    &&& record.file.seed == seed
    &&& record.file.actual_size == 0
    &&& record.expected_size == 0
    &&& !record.verified
    &&& record.passed is None
}

/// The records are of the files in order, each behind the one that is missing
/// before it. Of several files in a row that are missing, the last has a record.
pub open spec fn are_recovered(
    records: Seq<FileRecord>,
    files: Seq<TestFile>,
    all: Seq<TestFile>,
) -> bool
    decreases files.len(),
{
    let n = records.len();
    if files.len() == 0 {
        n == 0
    } else if lacks_predecessor(files.last(), all) {
        &&& n >= 2
        &&& records[n - 1] == found_record(files.last())
        &&& is_missing_record(records[n - 2], files.last())
        &&& are_recovered(records.take(n - 2), files.drop_last(), all)
    } else {
        &&& n >= 1
        &&& records[n - 1] == found_record(files.last())
        &&& are_recovered(records.take(n - 1), files.drop_last(), all)
    }
}

/// The number of records for files: one more for each that lacks the one before.
pub open spec fn record_count(files: Seq<TestFile>, all: Seq<TestFile>) -> nat
    decreases files.len(),
{
    if files.len() == 0 {
        0
    } else if lacks_predecessor(files.last(), all) {
        record_count(files.drop_last(), all) + 2
    } else {
        record_count(files.drop_last(), all) + 1
    }
}

/// The records for the files of a pass can be counted in a report.
pub open spec fn fits(files: Seq<TestFile>, pass: u32) -> bool {
    record_count(of_pass(files, pass), of_pass(files, pass)) <= u32::MAX
}

/// The state is what files tell of the test that they belong to: their pass is
/// to be verified, and what was written is what is there.
pub open spec fn is_recovered(
    state: TestState,
    options: VerifyOptions,
    files: Seq<TestFile>,
    now: u64,
) -> bool {
    let pass = files[0].pass;
    let total = pass::saturated(pass::size_of_all(state.files@), u64::MAX as int);
    &&& manifest::is_set_up(
        state,
        options.volume,
        files[0].total_passes,
        options.stop_on_fail,
        options.cleanup,
        now,
    )
    &&& state.completed_passes == if pass == 0 {
        0
    } else {
        pass - 1
    }
    &&& state.current_pass == pass
    &&& state.status == StateStatus::PendingVerify
    &&& state.expected_total == total
    &&& state.actual_total == total
    &&& are_recovered(state.files@, of_pass(files, pass), of_pass(files, pass))
}

fn select_pass(files: &[TestFile], pass: u32) -> (selected: Vec<TestFile>)
    ensures
        selected@ == of_pass(files@, pass),
        selected@.len() <= files@.len(),
{
    let mut selected: Vec<TestFile> = Vec::new();
    let mut i: usize = 0;
    proof {
        reveal(Seq::filter);
        assert(selected@ =~= of_pass(files@.take(0), pass));
    }
    while i < files.len()
        invariant
            i <= files@.len(),
            selected@ == of_pass(files@.take(i as int), pass),
            selected@.len() <= i,
        decreases files@.len() - i,
    {
        proof {
            reveal(Seq::filter);
            assert(files@.take(i + 1).drop_last() =~= files@.take(i as int));
        }
        if files[i].pass == pass {
            selected.push(files[i].clone());
        }
        assert(selected@ =~= of_pass(files@.take(i + 1), pass));
        i += 1;
    }
    assert(files@.take(i as int) =~= files@);
    selected
}

fn misses_one(file: &TestFile, all: &Vec<TestFile>) -> (result: bool)
    ensures
        result == lacks_predecessor(*file, all@),
{
    if file.index == 0 {
        return false;
    }
    let wanted: u32 = file.index - 1;
    let mut i: usize = 0;
    while i < all.len()
        invariant
            i <= all@.len(),
            wanted == file.index - 1,
            forall|k: int| 0 <= k < i ==> (#[trigger] all@[k]).index != wanted,
        decreases all@.len() - i,
    {
        if all[i].index == wanted {
            return false;
        }
        i += 1;
    }
    true
}

fn missing_record(file: &TestFile) -> (record: FileRecord)
    requires
        file.index > 0,
    ensures
        is_missing_record(record, *file),
{
    let index: u32 = file.index - 1;
    let seed: u64 = seed_for(file.pass, index);
    FileRecord {
        file: TestFile {
            name: make_test_file_name(file.pass, file.total_passes, index, seed),
            pass: file.pass,
            total_passes: file.total_passes,
            index,
            seed,
            actual_size: 0,
        },
        expected_size: 0,
        verified: false,
        passed: None,
    }
}

proof fn lemma_count_grows(files: Seq<TestFile>, all: Seq<TestFile>, i: int)
    requires
        0 <= i <= files.len(),
    ensures
        record_count(files.take(i), all) <= record_count(files, all),
    decreases files.len(),
{
    if i < files.len() {
        lemma_count_grows(files.drop_last(), all, i);
        assert(files.drop_last().take(i) =~= files.take(i));
    } else {
        assert(files.take(i) =~= files);
    }
}

/// Tells whether the records for the files of a pass can be counted in a report.
pub fn records_fit(files: &[TestFile], pass: u32) -> (result: bool)
    ensures
        result == fits(files@, pass),
{
    let all = select_pass(files, pass);
    let mut count: u64 = 0;
    let mut i: usize = 0;
    assert(all@.take(0).len() == 0);
    while i < all.len()
        invariant
            i <= all@.len(),
            all@ == of_pass(files@, pass),
            count == record_count(all@.take(i as int), all@),
            count <= u32::MAX,
        decreases all@.len() - i,
    {
        assert(all@.take(i + 1).drop_last() =~= all@.take(i as int));
        count = if misses_one(&all[i], &all) {
            count + 2
        } else {
            count + 1
        };
        i += 1;
        if count > u32::MAX as u64 {
            proof {
                lemma_count_grows(all@, all@, i as int);
            }
            return false;
        }
    }
    assert(all@.take(i as int) =~= all@);
    true
}

/// The records of the files of a pass, and their size together.
fn recover_files(all: &Vec<TestFile>) -> (found: (Vec<FileRecord>, u64))
    ensures
        are_recovered(found.0@, all@, all@),
        found.1 == pass::saturated(pass::size_of_all(found.0@), u64::MAX as int),
        found.0@.len() == record_count(all@, all@),
{
    let mut records: Vec<FileRecord> = Vec::new();
    let mut total: u64 = 0;
    let mut i: usize = 0;
    assert(all@.take(0).len() == 0);
    while i < all.len()
        invariant
            i <= all@.len(),
            are_recovered(records@, all@.take(i as int), all@),
            records@.len() == record_count(all@.take(i as int), all@),
            total == pass::saturated(pass::size_of_all(records@), u64::MAX as int),
        decreases all@.len() - i,
    {
        let ghost before = records@;
        let ghost next = all@.take(i + 1);
        proof {
            assert(next.drop_last() =~= all@.take(i as int));
            pass::lemma_size_nonnegative(before);
        }
        if misses_one(&all[i], all) {
            records.push(missing_record(&all[i]));
            assert(records@.drop_last() =~= before);
        }
        let ghost middle = records@;
        assert(pass::size_of_all(middle) == pass::size_of_all(before));
        let file = all[i].clone();
        total = total.saturating_add(file.actual_size);
        records.push(
            FileRecord {
                expected_size: file.actual_size,
                file,
                verified: false,
                passed: None,
            },
        );
        proof {
            assert(records@.drop_last() =~= middle);
            assert(pass::size_of_all(records@) == pass::size_of_all(before)
                + records@.last().file.actual_size);
            assert(records@.take(records@.len() - 1) =~= middle);
            if lacks_predecessor(next.last(), all@) {
                assert(records@.take(records@.len() - 2) =~= before);
            }
        }
        i += 1;
    }
    assert(all@.take(i as int) =~= all@);
    (records, total)
}

/// Recovers the state of a test from its files.
pub fn recover_state(options: &VerifyOptions, files: &[TestFile], now: u64) -> (state: TestState)
    requires
        0 < files@.len(),
        fits(files@, files@[0].pass),
    ensures
        is_recovered(state, *options, files@, now),
        state.files@.len() <= u32::MAX,
{
    let pass: u32 = files[0].pass;
    let selected = select_pass(files, pass);
    let (records, total) = recover_files(&selected);
    let mut state = TestState::new(
        &options.volume,
        files[0].total_passes,
        options.stop_on_fail,
        options.cleanup,
        now,
    );
    state.completed_passes = if pass == 0 {
        0
    } else {
        pass - 1
    };
    state.current_pass = pass;
    state.status = StateStatus::PendingVerify;
    state.expected_total = total;
    state.actual_total = total;
    state.files = records;
    state
}

/// Gives a state that was stored without its files those of its pass that are
/// found on the volume. A state that lists its files stays as it is.
pub fn with_files(state: TestState, files: &[TestFile]) -> (complete: TestState)
    requires
        fits(files@, state.current_pass),
    ensures
        if state.files@.len() > 0 {
            complete == state
        } else {
            let found = of_pass(files@, state.current_pass);
            &&& are_recovered(complete.files@, found, found)
            &&& complete.files@.len() <= u32::MAX
            &&& complete == (TestState { files: complete.files, ..state })
        },
{
    if state.files.len() > 0 {
        return state;
    }
    let mut complete = state;
    let selected = select_pass(files, complete.current_pass);
    let (records, _) = recover_files(&selected);
    complete.files = records;
    complete
}

/// A missing file is noticed where a later one is there: it has a record, by its
/// name, and so fails verification.
pub proof fn gaps_are_noticed(
    records: Seq<FileRecord>,
    files: Seq<TestFile>,
    all: Seq<TestFile>,
    i: int,
)
    requires
        are_recovered(records, files, all),
        0 <= i < files.len(),
        lacks_predecessor(files[i], all),
    ensures
        exists|k: int| 0 <= k < records.len() && is_missing_record(#[trigger] records[k], files[i]),
    decreases files.len(),
{
    let n = records.len();
    if i == files.len() - 1 {
        assert(is_missing_record(records[n - 2], files[i]));
    } else {
        let m = if lacks_predecessor(files.last(), all) {
            n - 2
        } else {
            n - 1
        };
        let earlier = records.take(m);
        gaps_are_noticed(earlier, files.drop_last(), all, i);
        let k = choose|k: int|
            0 <= k < earlier.len() && is_missing_record(#[trigger] earlier[k], files[i]);
        assert(records[k] == earlier[k]);
    }
}

proof fn lemma_all_of_pass(files: Seq<TestFile>, pass: u32)
    requires
        forall|i: int| 0 <= i < files.len() ==> (#[trigger] files[i]).pass == pass,
    ensures
        of_pass(files, pass) == files,
    decreases files.len(),
{
    reveal(Seq::filter);
    if files.len() > 0 {
        let earlier = files.drop_last();
        assert forall|i: int| 0 <= i < earlier.len() implies (#[trigger] earlier[i]).pass
            == pass by {
            assert(earlier[i] == files[i]);
        }
        lemma_all_of_pass(earlier, pass);
        assert(files.last() == files[files.len() - 1]);
        assert(earlier.push(files.last()) =~= files);
    }
}

proof fn lemma_no_gaps(records: Seq<FileRecord>, files: Seq<TestFile>, all: Seq<TestFile>)
    requires
        are_recovered(records, files, all),
        forall|i: int| 0 <= i < files.len() ==> !lacks_predecessor(#[trigger] files[i], all),
    ensures
        manifest::files_in(records) == files,
    decreases files.len(),
{
    if files.len() > 0 {
        let earlier = files.drop_last();
        assert(files.last() == files[files.len() - 1]);
        assert forall|i: int| 0 <= i < earlier.len() implies !lacks_predecessor(
            #[trigger] earlier[i],
            all,
        ) by {
            assert(earlier[i] == files[i]);
        }
        let front = records.take(records.len() - 1);
        lemma_no_gaps(front, earlier, all);
        assert(manifest::files_in(front).push(files.last()) =~= manifest::files_in(records));
        assert(earlier.push(files.last()) =~= files);
    } else {
        assert(manifest::files_in(records) =~= files);
    }
}

proof fn lemma_sizes_agree(records: Seq<FileRecord>, others: Seq<FileRecord>)
    requires
        manifest::files_in(records) == manifest::files_in(others),
    ensures
        pass::size_of_all(records) == pass::size_of_all(others),
    decreases records.len(),
{
    assert(manifest::files_in(records).len() == records.len());
    assert(manifest::files_in(others).len() == others.len());
    if records.len() > 0 {
        let a = records.drop_last();
        let b = others.drop_last();
        assert(manifest::files_in(a) =~= manifest::files_in(records).drop_last());
        assert(manifest::files_in(b) =~= manifest::files_in(others).drop_last());
        lemma_sizes_agree(a, b);
        assert(manifest::files_in(records).last() == records.last().file);
        assert(manifest::files_in(others).last() == others.last().file);
    }
}

/// A lost state is recovered from the files of a pass: the recovered state is on
/// that pass and expects what the pass has written, and exactly the files of the
/// pass are verified, with their seeds and sizes. A file that could not be
/// created is not among the files of a volume, and so not meant here.
pub proof fn lost_state_is_recovered(
    writing: PassData,
    state: TestState,
    options: VerifyOptions,
    now: u64,
)
    requires
        writing.valid(),
        writing.files@.len() > 0,
        is_recovered(state, options, manifest::files_in(writing.files@), now),
    ensures
        state.current_pass == writing.pass,
        state.total_passes == manifest::at_least_one(writing.total_passes),
        state.actual_total == writing.actual_total,
        manifest::files_in(state.files@) == manifest::files_in(writing.files@),
{
    let files = manifest::files_in(writing.files@);
    assert forall|i: int| 0 <= i < files.len() implies (#[trigger] files[i]).pass
        == writing.pass by {
        assert(writing.lists(i));
    }
    assert(writing.lists(0));
    assert(files[0].pass == writing.pass);
    lemma_all_of_pass(files, writing.pass);
    assert forall|i: int| 0 <= i < files.len() implies !lacks_predecessor(
        #[trigger] files[i],
        files,
    ) by {
        assert(writing.lists(i));
        let before: int = files[i].index - 1;
        if before >= 0 {
            assert(writing.lists(before));
            assert(files[before].index == before);
        }
    }
    lemma_no_gaps(state.files@, files, files);
    lemma_sizes_agree(state.files@, writing.files@);
}

/// A recovered state is on the pass of the first file, with the passes before it
/// completed, and waits for verification of what is there, with nothing found
/// wrong yet.
pub proof fn recovered_states_wait_for_verification(
    state: TestState,
    options: VerifyOptions,
    files: Seq<TestFile>,
    now: u64,
)
    requires
        is_recovered(state, options, files, now),
    ensures
        state.current_pass == files[0].pass,
        files[0].pass > 0 ==> state.completed_passes == files[0].pass - 1,
        files[0].pass == 0 ==> state.completed_passes == 0,
        files[0].total_passes >= 1 ==> state.total_passes == files[0].total_passes,
        files[0].total_passes == 0 ==> state.total_passes == 1,
        state.status == StateStatus::PendingVerify,
        state.capacity_ok,
        state.last_error is None,
        state.expected_total == state.actual_total,
        pass::size_of_all(state.files@) <= u64::MAX ==> state.actual_total == pass::size_of_all(
            state.files@,
        ),
        state.stop_on_fail == options.stop_on_fail,
        state.cleanup == options.cleanup,
        state.target@ == options.volume.mount_point@,
        state.volume_key@ == manifest::key_text(options.volume),
        state.volume_total_bytes == options.volume.total_bytes,
        state.volume_fs@ == options.volume.fs@,
        state.volume_label == options.volume.label,
        state.volume_device == options.volume.device,
        state.created_unix == now,
        state.updated_unix == now,
        state.version == 1,
{
}

proof fn lemma_found_recorded(
    records: Seq<FileRecord>,
    files: Seq<TestFile>,
    all: Seq<TestFile>,
    i: int,
)
    requires
        are_recovered(records, files, all),
        0 <= i < files.len(),
    ensures
        exists|k: int| 0 <= k < records.len() && #[trigger] records[k] == found_record(files[i]),
    decreases files.len(),
{
    let n = records.len();
    if i == files.len() - 1 {
        assert(records[n - 1] == found_record(files[i]));
    } else {
        let m = if lacks_predecessor(files.last(), all) {
            n - 2
        } else {
            n - 1
        };
        let earlier = records.take(m);
        lemma_found_recorded(earlier, files.drop_last(), all, i);
        let k = choose|k: int|
            0 <= k < earlier.len() && #[trigger] earlier[k] == found_record(files[i]);
        assert(records[k] == earlier[k]);
    }
}

/// Every file of the pass is verified with the name, the seed and the size that it
/// was found with, and files of other passes are not.
pub proof fn files_of_the_pass_are_recovered(
    records: Seq<FileRecord>,
    files: Seq<TestFile>,
    pass: u32,
    i: int,
)
    requires
        are_recovered(records, of_pass(files, pass), of_pass(files, pass)),
        0 <= i < files.len(),
        files[i].pass == pass,
    ensures
        exists|k: int|
            0 <= k < records.len() && (#[trigger] records[k]).file == files[i]
                && records[k].expected_size == files[i].actual_size && !records[k].verified
                && records[k].passed is None,
{
    let pred = |f: TestFile| f.pass == pass;
    let chosen = of_pass(files, pass);
    assert(chosen == files.filter(pred));
    files.lemma_filter_contains(pred, i);
    let m = choose|m: int| 0 <= m < chosen.len() && chosen[m] == files[i];
    lemma_found_recorded(records, chosen, chosen, m);
    let k = choose|k: int|
        0 <= k < records.len() && #[trigger] records[k] == found_record(chosen[m]);
    assert(records[k].file == files[i]);
}

proof fn lemma_records_of_pass(
    records: Seq<FileRecord>,
    files: Seq<TestFile>,
    all: Seq<TestFile>,
    pass: u32,
    k: int,
)
    requires
        are_recovered(records, files, all),
        forall|i: int| 0 <= i < files.len() ==> (#[trigger] files[i]).pass == pass,
        0 <= k < records.len(),
    ensures
        records[k].file.pass == pass,
        files.contains(records[k].file) || (records[k].file.actual_size == 0 && exists|i: int|
            0 <= i < files.len() && (#[trigger] files[i]).index == records[k].file.index + 1
                && lacks_predecessor(files[i], all)),
    decreases files.len(),
{
    let n = records.len();
    let earlier = files.drop_last();
    let last: int = files.len() - 1;
    assert forall|i: int| 0 <= i < earlier.len() implies (#[trigger] earlier[i]).pass == pass by {
        assert(earlier[i] == files[i]);
    }
    assert(files[last].pass == pass);
    let m = if lacks_predecessor(files.last(), all) {
        n - 2
    } else {
        n - 1
    };
    if k < m {
        let front = records.take(m);
        lemma_records_of_pass(front, earlier, all, pass, k);
        assert(front[k] == records[k]);
        if earlier.contains(records[k].file) {
            let i = choose|i: int| 0 <= i < earlier.len() && earlier[i] == records[k].file;
            assert(files[i] == records[k].file);
        } else {
            let i = choose|i: int|
                0 <= i < earlier.len() && (#[trigger] earlier[i]).index == records[k].file.index + 1
                    && lacks_predecessor(earlier[i], all);
            assert(files[i] == earlier[i]);
        }
    } else if k == n - 1 {
        assert(files[last] == records[k].file);
    } else {
        assert(files[last].index == records[k].file.index + 1);
    }
}

/// Only files of the pass are verified: those that were found, and an empty one in
/// front of each whose predecessor is missing.
pub proof fn only_files_of_the_pass_are_recovered(
    records: Seq<FileRecord>,
    files: Seq<TestFile>,
    pass: u32,
    k: int,
)
    requires
        are_recovered(records, of_pass(files, pass), of_pass(files, pass)),
        0 <= k < records.len(),
    ensures
        records[k].file.pass == pass,
        files.contains(records[k].file) || (records[k].file.actual_size == 0 && forall|i: int|
            0 <= i < files.len() && (#[trigger] files[i]).pass == pass ==> files[i].index
                != records[k].file.index),
{
    let pred = |f: TestFile| f.pass == pass;
    let chosen = of_pass(files, pass);
    assert(chosen == files.filter(pred));
    assert forall|i: int| 0 <= i < chosen.len() implies (#[trigger] chosen[i]).pass == pass by {
        files.lemma_filter_pred(pred, i);
    }
    lemma_records_of_pass(records, chosen, chosen, pass, k);
    if chosen.contains(records[k].file) {
        files.lemma_filter_contains_rev(pred, records[k].file);
    } else {
        let m = choose|m: int|
            0 <= m < chosen.len() && (#[trigger] chosen[m]).index == records[k].file.index + 1
                && lacks_predecessor(chosen[m], chosen);
        assert forall|i: int|
            0 <= i < files.len() && (#[trigger] files[i]).pass == pass implies files[i].index
            != records[k].file.index by {
            files.lemma_filter_contains(pred, i);
            let j = choose|j: int| 0 <= j < chosen.len() && chosen[j] == files[i];
            assert(chosen[j].index != chosen[m].index - 1);
        }
    }
}

/// There is a record for each file, and one more at most: the files of a pass can
/// be counted whenever there are no more than half as many as numbers.
pub proof fn records_are_counted(files: Seq<TestFile>, pass: u32)
    ensures
        of_pass(files, pass).len() <= files.len(),
        2 * files.len() <= 4294967295 ==> fits(files, pass),
        fits(files, pass) ==> of_pass(files, pass).len() <= 4294967295,
{
    let pred = |f: TestFile| f.pass == pass;
    let chosen = of_pass(files, pass);
    assert(chosen == files.filter(pred));
    files.lemma_filter_len(pred);
    lemma_count_bounds(chosen, chosen);
}

proof fn lemma_count_bounds(files: Seq<TestFile>, all: Seq<TestFile>)
    ensures
        files.len() <= record_count(files, all) <= 2 * files.len(),
    decreases files.len(),
{
    if files.len() > 0 {
        lemma_count_bounds(files.drop_last(), all);
    }
}

/// A state that lists its files keeps them, and one that does not gets those of its
/// pass; nothing else of it changes.
pub proof fn listed_files_are_kept(state: TestState, files: &[TestFile], complete: TestState)
    requires
        fits(files@, state.current_pass),
        call_ensures(with_files, (state, files), complete),
    ensures
        state.files@.len() > 0 ==> complete.files@ == state.files@,
        state.files@.len() == 0 ==> are_recovered(
            complete.files@,
            of_pass(files@, state.current_pass),
            of_pass(files@, state.current_pass),
        ),
        complete.status == state.status,
        complete.current_pass == state.current_pass,
        complete.completed_passes == state.completed_passes,
        complete.total_passes == state.total_passes,
        complete.expected_total == state.expected_total,
        complete.actual_total == state.actual_total,
        complete.capacity_ok == state.capacity_ok,
        complete.volume_key == state.volume_key,
        complete.target == state.target,
        complete.volume_fs == state.volume_fs,
        complete.volume_label == state.volume_label,
        complete.volume_device == state.volume_device,
        complete.volume_total_bytes == state.volume_total_bytes,
        complete.created_unix == state.created_unix,
        complete.updated_unix == state.updated_unix,
        complete.version == state.version,
        complete.stop_on_fail == state.stop_on_fail,
        complete.cleanup == state.cleanup,
        complete.last_error == state.last_error,
{
}

/// Where a file of the pass is there and none has the number before its own, the
/// missing one is to be verified too: under its name, of no size, and so in vain.
pub proof fn missing_files_are_verified(
    records: Seq<FileRecord>,
    files: Seq<TestFile>,
    pass: u32,
    i: int,
)
    requires
        are_recovered(records, of_pass(files, pass), of_pass(files, pass)),
        0 <= i < files.len(),
        files[i].pass == pass,
        files[i].index > 0,
        forall|j: int|
            0 <= j < files.len() && (#[trigger] files[j]).pass == pass ==> files[j].index + 1
                != files[i].index,
    ensures
        exists|k: int|
            0 <= k < records.len() && (#[trigger] records[k]).file.index + 1 == files[i].index
                && records[k].file.actual_size == 0 && records[k].file.pass == pass
                && records[k].file.seed == engine::seed_of(pass, records[k].file.index)
                && manifest::names(
                records[k].file.name@,
                pass,
                files[i].total_passes,
                records[k].file.index,
                records[k].file.seed,
            ),
{
    let pred = |f: TestFile| f.pass == pass;
    let chosen = of_pass(files, pass);
    assert(chosen == files.filter(pred));
    files.lemma_filter_contains(pred, i);
    let m = choose|m: int| 0 <= m < chosen.len() && chosen[m] == files[i];
    assert forall|n: int| 0 <= n < chosen.len() implies (#[trigger] chosen[n]).index
        != files[i].index - 1 by {
        assert(chosen.contains(chosen[n]));
        files.lemma_filter_pred(pred, n);
        files.lemma_filter_contains_rev(pred, chosen[n]);
        let j = choose|j: int| 0 <= j < files.len() && files[j] == chosen[n];
        assert(files[j].index + 1 != files[i].index);
    }
    assert(lacks_predecessor(chosen[m], chosen));
    gaps_are_noticed(records, chosen, chosen, m);
    let k = choose|k: int|
        0 <= k < records.len() && is_missing_record(#[trigger] records[k], chosen[m]);
    let file = records[k].file;
    manifest::test_file_names_round_trip(file.pass, file.total_passes, file.index, file.seed);
    assert(file.index + 1 == files[i].index);
}

} // verus!
