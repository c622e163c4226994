//! Verifying test data: one file, and the files of a pass.

use crate::console::{self, format_bytes, Message, Style};
use crate::engine::writing::{self, WriteAction, WriteEvent, WriteProgress};
use crate::engine::FileRecord;
use crate::manifest::{self, TestFile};
use crate::ordering;
use crate::pattern::{self, BlockSource, IO_BLOCK_SIZE};
use crate::text;
use crate::volume::same_bytes;
use vstd::prelude::*;

verus! {

/// Why a file does not pass verification.
#[derive(Debug)]
pub enum VerifyFailure {
    /// The file is not there, or its size cannot be read.
    CannotStat(String),
    /// The file has another size.
    SizeChanged { expected: u64, found: u64 },
    /// The file cannot be opened.
    CannotOpen(String),
    /// The block at an offset cannot be read.
    ReadError { offset: u64, error: String },
    /// The block at an offset holds other data.
    Mismatch { offset: u64 },
}

impl VerifyFailure {
    /// What the reason says.
    pub open spec fn text(self) -> Seq<char> {
        match self {
            VerifyFailure::CannotStat(error) => "cannot stat file: "@ + error@,
            VerifyFailure::SizeChanged { expected, found } => "file size changed: expected "@
                + console::size_text(expected) + ", found "@ + console::size_text(found),
            VerifyFailure::CannotOpen(error) => "cannot open file: "@ + error@,
            VerifyFailure::ReadError { offset, error } => "read error at "@ + console::size_text(
                offset,
            ) + ": "@ + error@,
            VerifyFailure::Mismatch { offset } => "data mismatch at "@ + console::size_text(offset),
        }
    }

    /// The reason in words.
    pub fn message(&self) -> (message: String)
        ensures
            message@ == self.text(),
    {
        match self {
            VerifyFailure::CannotStat(error) => "cannot stat file: ".to_owned().concat(
                error.as_str(),
            ),
            VerifyFailure::SizeChanged { expected, found } =>
                "file size changed: expected ".to_owned().concat(
                    format_bytes(*expected).as_str(),
                ).concat(", found ").concat(format_bytes(*found).as_str()),
            VerifyFailure::CannotOpen(error) => "cannot open file: ".to_owned().concat(
                error.as_str(),
            ),
            VerifyFailure::ReadError { offset, error } => "read error at ".to_owned().concat(
                format_bytes(*offset).as_str(),
            ).concat(": ").concat(error.as_str()),
            VerifyFailure::Mismatch { offset } => "data mismatch at ".to_owned().concat(
                format_bytes(*offset).as_str(),
            ),
        }
    }
}

/// Where the first block of a file begins that does not hold the data for the
/// seed, from an offset on: what verification block by block finds.
pub open spec fn first_mismatch(seed: u64, held: Seq<u8>, offset: int) -> Option<int>
    decreases held.len() - offset,
{
    if offset < 0 || offset >= held.len() {
        None
    } else {
        let end = pattern::block_end(offset, held.len() as int);
        if held.subrange(offset, end) != pattern::pattern_range(seed, offset, end) {
            Some(offset)
        } else {
            first_mismatch(seed, held, end)
        }
    }
}

/// A file passes verification.
pub open spec fn passes(seed: u64, size: u64, held: Seq<u8>) -> bool {
    held.len() == size && first_mismatch(seed, held, 0) is None
}

/// What was read of a file, and the first of its blocks that is not as it should
/// be.
pub struct FileVerifier {
    source: BlockSource,
    mismatch: Option<u64>,
    read: Ghost<Seq<u8>>,
}

impl FileVerifier {
    /// The seed of the file's data.
    pub closed spec fn seed(self) -> u64 {
        self.source.seed()
    }

    /// The size of the file.
    pub closed spec fn size(self) -> u64 {
        self.source.size()
    }

    /// The bytes that were read so far.
    pub closed spec fn read(self) -> Seq<u8> {
        self.read@
    }

    /// Where the first block begins that does not hold the data for the seed.
    pub closed spec fn mismatch(self) -> Option<u64> {
        self.mismatch
    }

    /// The expected data is at hand behind what was read, which consists of whole
    /// blocks, and the mismatch is the first in it.
    pub closed spec fn valid(self) -> bool {
        &&& self.source.valid()
        &&& self.source.offset() == self.read@.len()
        &&& self.read@.len() <= self.source.size()
        &&& self.read@.len() < self.source.size() ==> self.read@.len() as int
            % IO_BLOCK_SIZE as int == 0
        &&& first_mismatch(self.source.seed(), self.read@, 0) == match self.mismatch {
            Some(offset) => Some(offset as int),
            None => None,
        }
    }

    /// The whole file was read, or a block that settles the matter.
    pub open spec fn is_done(self) -> bool {
        self.mismatch() is Some || self.read().len() == self.size()
    }

    /// The end of the block to read next.
    pub open spec fn next_end(self) -> int {
        pattern::block_end(self.read().len() as int, self.size() as int)
    }

    /// Begins to verify a file that was found with a size.
    pub fn new(file: &TestFile, found: u64) -> (result: Result<FileVerifier, VerifyFailure>)
        ensures
            match result {
                Ok(verifier) => {
                    &&& found == file.actual_size
                    &&& verifier.valid()
                    &&& verifier.seed() == file.seed
                    &&& verifier.size() == file.actual_size
                    &&& verifier.read() == Seq::<u8>::empty()
                    &&& verifier.mismatch() is None
                },
                Err(failure) => {
                    &&& found != file.actual_size
                    &&& failure == VerifyFailure::SizeChanged { expected: file.actual_size, found }
                },
            },
    {
        if found != file.actual_size {
            return Err(VerifyFailure::SizeChanged { expected: file.actual_size, found });
        }
        Ok(
            FileVerifier {
                source: BlockSource::new(file.seed, file.actual_size),
                mismatch: None,
                read: Ghost(Seq::empty()),
            },
        )
    }

    /// The number of bytes to read next: none when the verdict is in.
    pub fn next_len(&self) -> (len: usize)
        requires
            self.valid(),
        ensures
            len == if self.mismatch() is Some {
                0
            } else {
                self.next_end() - self.read().len()
            },
            len <= IO_BLOCK_SIZE,
            len == 0 <==> self.is_done(),
    {
        if self.mismatch.is_some() {
            0
        } else {
            self.source.next_len()
        }
    }

    /// Compares the next block with the bytes that were read.
    pub fn check_block(&mut self, actual: &[u8])
        requires
            old(self).valid(),
            !old(self).is_done(),
            actual@.len() == old(self).next_end() - old(self).read().len(),
        ensures
            final(self).valid(),
            final(self).seed() == old(self).seed(),
            final(self).size() == old(self).size(),
            final(self).read() == old(self).read() + actual@,
            final(self).mismatch() == if actual@ == pattern::pattern_range(
                old(self).seed(),
                old(self).read().len() as int,
                old(self).next_end(),
            ) {
                None
            } else {
                Some(old(self).read().len() as u64)
            },
    {
        let offset: u64 = self.source.position();
        let expected = self.source.next_block();
        if !same_bytes(actual, expected.as_slice()) {
            self.mismatch = Some(offset);
        }
        proof {
            let seed = old(self).seed();
            let before = old(self).read@;
            let after = before + actual@;
            self.read@ = after;
            let end = after.len() as int;
            lemma_mismatch_in_front(seed, before, actual@, 0);
            assert(pattern::block_end(before.len() as int, end) == end);
            assert(after.subrange(before.len() as int, end) =~= actual@);
            assert(first_mismatch(seed, after, end) is None);
            assert(expected@ == pattern::pattern_range(seed, before.len() as int, end));
            assert(first_mismatch(seed, after, before.len() as int) == if actual@ == expected@ {
                None
            } else {
                Some(before.len() as int)
            });
            if end < self.source.size() {
                let block: int = IO_BLOCK_SIZE as int;
                assert(block == 0x10_0000);
                assert(before.len() as int % block == 0);
                assert(end == before.len() + block);
                assert((before.len() + block) % block == 0) by (nonlinear_arith)
                    requires
                        before.len() as int % block == 0,
                        block == 0x10_0000,
                ;
            }
        }
    }

    /// The verdict on the file: it is good exactly if the bytes that were read are
    /// the whole file and pass, and else it fails at the first mismatch, whatever
    /// stands behind what was read.
    pub fn verdict(&self) -> (verdict: Result<(), VerifyFailure>)
        requires
            self.valid(),
            self.is_done(),
        ensures
            match verdict {
                Ok(_) => passes(self.seed(), self.size(), self.read()),
                Err(failure) => {
                    &&& failure matches VerifyFailure::Mismatch { offset }
                    &&& self.mismatch() == Some(offset)
                    &&& first_mismatch(self.seed(), self.read(), 0) == Some(offset as int)
                    &&& forall|held: Seq<u8>|
                        held.len() == self.size() && #[trigger] self.read().is_prefix_of(held)
                            ==> !passes(self.seed(), self.size(), held)
                },
            },
    {
        match self.mismatch {
            None => Ok(()),
            Some(offset) => {
                proof {
                    assert forall|held: Seq<u8>|
                        held.len() == self.size() && #[trigger] self.read().is_prefix_of(
                            held,
                        ) implies !passes(self.seed(), self.size(), held) by {
                        let rest = held.skip(self.read@.len() as int);
                        assert(held =~= self.read@ + rest);
                        if self.read@.len() == self.size() {
                            assert(held =~= self.read@);
                        } else {
                            lemma_mismatch_in_front(self.seed(), self.read@, rest, 0);
                        }
                    }
                }
                Err(VerifyFailure::Mismatch { offset })
            },
        }
    }

    /// The failure to read the next block.
    pub fn read_failed(&self, error: &str) -> (failure: VerifyFailure)
        requires
            self.valid(),
        ensures
            failure matches VerifyFailure::ReadError { offset, error: e } && offset
                == self.read().len() && e@ == error@,
    {
        VerifyFailure::ReadError { offset: self.source.position(), error: error.to_owned() }
    }
}

/// A mismatch in front stays the first whatever follows, and behind whole blocks
/// without one the search goes on.
proof fn lemma_mismatch_in_front(seed: u64, front: Seq<u8>, rest: Seq<u8>, offset: int)
    requires
        0 <= offset <= front.len(),
        offset % IO_BLOCK_SIZE as int == 0,
        front.len() as int % IO_BLOCK_SIZE as int == 0,
    ensures
        first_mismatch(seed, front + rest, offset) == match first_mismatch(seed, front, offset) {
            Some(at) => Some(at),
            None => first_mismatch(seed, front + rest, front.len() as int),
        },
    decreases front.len() - offset,
{
    if offset < front.len() {
        let end = offset + IO_BLOCK_SIZE;
        assert(end <= front.len()) by (nonlinear_arith)
            requires
                offset < front.len(),
                end == offset + 0x10_0000,
                offset % 0x10_0000 == 0,
                front.len() as int % 0x10_0000 == 0,
        ;
        assert((front + rest).subrange(offset, end) =~= front.subrange(offset, end));
        lemma_mismatch_in_front(seed, front, rest, end);
    }
}

proof fn lemma_mismatch(seed: u64, held: Seq<u8>, offset: int)
    requires
        0 <= offset <= held.len(),
    ensures
        first_mismatch(seed, held, offset) is None <==> held.subrange(offset, held.len() as int)
            == pattern::pattern_range(seed, offset, held.len() as int),
    decreases held.len() - offset,
{
    let len = held.len() as int;
    if offset == len {
        assert(held.subrange(offset, len) =~= pattern::pattern_range(seed, offset, len));
    } else {
        let end = pattern::block_end(offset, len);
        lemma_mismatch(seed, held, end);
        let all = held.subrange(offset, len);
        let data = pattern::pattern_range(seed, offset, len);
        assert(all =~= held.subrange(offset, end) + held.subrange(end, len));
        assert(data =~= pattern::pattern_range(seed, offset, end) + pattern::pattern_range(
            seed,
            end,
            len,
        ));
        if all == data {
            assert(all.subrange(0, end - offset) =~= held.subrange(offset, end));
            assert(data.subrange(0, end - offset) =~= pattern::pattern_range(seed, offset, end));
            assert(all.subrange(end - offset, len - offset) =~= held.subrange(end, len));
            assert(data.subrange(end - offset, len - offset) =~= pattern::pattern_range(
                seed,
                end,
                len,
            ));
        }
    }
}

/// A file passes verification exactly if it holds the data for its seed: any
/// change of a byte or of the size is detected.
pub proof fn verification_is_exact(seed: u64, size: u64, held: Seq<u8>)
    ensures
        passes(seed, size, held) <==> held == pattern::pattern(seed, size as nat),
{
    lemma_mismatch(seed, held, 0);
    assert(held.subrange(0, held.len() as int) =~= held);
    assert(pattern::pattern_range(seed, 0, held.len() as int) =~= pattern::pattern(
        seed,
        held.len(),
    ));
    assert(pattern::pattern(seed, size as nat).len() == size);
}

/// What was written passes verification: whatever happens once a file has been
/// created, also if the disk is full before its planned size, what the file then
/// holds passes with the size that the outcome gives. A file that could not be
/// created is not there, and verification fails on it.
pub proof fn written_file_passes(max_size: u64, seed: u64, events: Seq<WriteEvent>)
    requires
        WriteProgress::start(max_size).admits_all(events),
        events.len() > 0,
        events[0] == WriteEvent::Done,
    ensures
        WriteProgress::start(max_size).after(events).action matches WriteAction::Finish(outcome)
            ==> passes(
            seed,
            outcome.actual_size,
            WriteProgress::start(max_size).held(seed, events),
        ),
{
    writing::file_holds_its_pattern(max_size, seed, events);
    let end = WriteProgress::start(max_size).after(events);
    verification_is_exact(
        seed,
        end.position,
        WriteProgress::start(max_size).held(seed, events),
    );
}

/// What was written and then changed in any byte does not pass verification.
pub proof fn changed_file_fails(seed: u64, size: u64, held: Seq<u8>, at: int, byte: u8)
    requires
        passes(seed, size, held),
        0 <= at < held.len(),
        byte != held[at],
    ensures
        !passes(seed, size, held.update(at, byte)),
{
    verification_is_exact(seed, size, held);
    verification_is_exact(seed, size, held.update(at, byte));
    assert(held.update(at, byte)[at] == byte);
}

/// What the verification of a pass came to.
#[derive(Debug)]
pub struct VerifyPassResult {
    pub files: Vec<FileRecord>,
    pub data_ok: bool,
    pub passed: u32,
    pub failed: u32,
    pub failed_files: Vec<String>,
}

/// The files that were found good, or those that were found bad.
pub open spec fn with_verdict(files: Seq<FileRecord>, ok: bool) -> Seq<FileRecord> {
    files.filter(|r: FileRecord| r.passed == Some(ok))
}

/// The names of files.
pub open spec fn names_of(files: Seq<FileRecord>) -> Seq<Seq<char>> {
    files.map_values(|r: FileRecord| r.file.name@)
}

/// How far the verification of the files of a pass has come.
#[derive(Debug)]
pub struct VerifyData {
    pub files: Vec<FileRecord>,
    pub next: usize,
    pub stop_on_fail: bool,
    pub all_ok: bool,
    pub passed: u32,
    pub failed: u32,
    pub failed_files: Vec<String>,
}

impl VerifyData {
    /// The counts and names are those of the files up to the next one, and the
    /// first failure is the last file if verification is to stop on it.
    pub open spec fn valid(self) -> bool {
        let done = self.files@.take(self.next as int);
        &&& self.next <= self.files@.len() <= u32::MAX
        &&& forall|i: int|
            0 <= i < self.next ==> (#[trigger] self.files@[i]).verified && self.files@[i].passed
                is Some
        &&& self.passed == with_verdict(done, true).len()
        &&& self.failed == with_verdict(done, false).len()
        &&& text::string_texts(self.failed_files@) == names_of(with_verdict(done, false))
        &&& self.passed + self.failed == self.next
        &&& self.all_ok <==> self.failed == 0
        &&& self.all_ok <==> forall|i: int|
            0 <= i < self.next ==> (#[trigger] self.files@[i]).passed == Some(true)
        &&& self.stop_on_fail && !self.all_ok ==> self.failed == 1 && self.next > 0
            && self.files@[self.next - 1].passed == Some(false)
    }

    /// No more files are verified: there is none left, or one has failed and
    /// that is to be the last.
    pub open spec fn finished(self) -> bool {
        self.next >= self.files@.len() || (self.stop_on_fail && !self.all_ok)
    }

    /// The verification goes on as `after` when there is a verdict on its next
    /// file.
    pub open spec fn continues(self, after: VerifyData, verdict: Result<(), VerifyFailure>) -> bool {
        let record = self.files@[self.next as int];
        &&& after.next == self.next + 1
        &&& after.stop_on_fail == self.stop_on_fail
        &&& after.files@ == self.files@.update(
            self.next as int,
            FileRecord { verified: true, passed: Some(verdict is Ok), ..record },
        )
        &&& manifest::files_in(after.files@) == manifest::files_in(self.files@)
        &&& after.all_ok == (self.all_ok && verdict is Ok)
        &&& if verdict is Ok {
            &&& after.passed == self.passed + 1
            &&& after.failed == self.failed
            &&& after.failed_files == self.failed_files
        } else {
            &&& after.passed == self.passed
            &&& after.failed == self.failed + 1
            &&& text::string_texts(after.failed_files@) == text::string_texts(
                self.failed_files@,
            ).push(record.file.name@)
        }
    }

    /// What the verification came to.
    pub open spec fn ends_with(self, result: VerifyPassResult) -> bool {
        &&& result.files == self.files
        &&& result.data_ok == self.all_ok
        &&& result.passed == self.passed
        &&& result.failed == self.failed
        &&& result.failed_files == self.failed_files
    }

    /// The verification of files has come to its end with the verdicts on what a
    /// device holds.
    pub open spec fn has_verified(
        self,
        files: Seq<FileRecord>,
        stop_on_fail: bool,
        device: Map<Seq<char>, Seq<u8>>,
    ) -> bool {
        &&& self.valid()
        &&& self.finished()
        &&& self.stop_on_fail == stop_on_fail
        &&& manifest::files_in(self.files@) == manifest::files_in(files)
        &&& verdicts_are_true(self, device)
    }

    /// What the user is told of the verdict on the next file.
    pub open spec fn says(self, verdict: Result<(), VerifyFailure>) -> Seq<(Style, Seq<char>)> {
        let name = self.files@[self.next as int].file.name@;
        match verdict {
            Ok(_) => seq![(Style::Good, "OK   "@ + name)],
            Err(failure) => seq![
                (Style::Fail, "FAIL "@ + name),
                (Style::Fail, "     "@ + failure.text()),
            ],
        }
    }

    /// Begins to verify files.
    fn new(files: Vec<FileRecord>, stop_on_fail: bool) -> (pass: VerifyData)
        requires
            files@.len() <= u32::MAX,
        ensures
            pass.valid(),
            pass.files == files,
            pass.next == 0,
            pass.stop_on_fail == stop_on_fail,
    {
        let pass = VerifyData {
            files,
            next: 0,
            stop_on_fail,
            all_ok: true,
            passed: 0,
            failed: 0,
            failed_files: Vec::new(),
        };
        proof {
            reveal(Seq::filter);
            assert(text::string_texts(pass.failed_files@) =~= names_of(
                with_verdict(pass.files@.take(0), false),
            ));
        }
        pass
    }

    /// The index of the file to verify next.
    fn current(&self) -> (index: Option<usize>)
        ensures
            index == if self.finished() {
                None
            } else {
                Some(self.next)
            },
    {
        if self.next >= self.files.len() || (self.stop_on_fail && !self.all_ok) {
            None
        } else {
            Some(self.next)
        }
    }

    /// Takes note of the verdict on the next file.
    fn record(&mut self, verdict: Result<(), VerifyFailure>) -> (messages: Vec<Message>)
        requires
            old(self).valid(),
            !old(self).finished(),
        ensures
            final(self).valid(),
            old(self).continues(*final(self), verdict),
            console::contents(messages@) == old(self).says(verdict),
    {
        let index: usize = self.next;
        let mut messages: Vec<Message> = Vec::new();
        let ok: bool = verdict.is_ok();
        let name = self.files[index].file.name.clone();
        let record = FileRecord {
            file: self.files[index].file.clone(),
            expected_size: self.files[index].expected_size,
            verified: true,
            passed: Some(ok),
        };
        let ghost added = record;
        self.files.set(index, record);
        self.next = index + 1;
        proof {
            reveal(Seq::filter);
            let done = self.files@.take(index + 1);
            assert(done.drop_last() =~= old(self).files@.take(index as int));
            assert(done.last() == added);
            assert(with_verdict(done, ok) == with_verdict(done.drop_last(), ok).push(added));
            assert(with_verdict(done, !ok) == with_verdict(done.drop_last(), !ok));
            assert(names_of(with_verdict(done.drop_last(), ok).push(added)) =~= names_of(
                with_verdict(done.drop_last(), ok),
            ).push(name@));
        }
        match verdict {
            Ok(_) => {
                self.passed = self.passed + 1;
                messages.push(
                    Message::new(Style::Good, "OK   ".to_owned().concat(name.as_str())),
                );
                assert(console::contents(messages@) =~= seq![(Style::Good, "OK   "@ + name@)]);
            },
            Err(failure) => {
                self.failed = self.failed + 1;
                self.all_ok = false;
                messages.push(
                    Message::new(Style::Fail, "FAIL ".to_owned().concat(name.as_str())),
                );
                messages.push(
                    Message::new(
                        Style::Fail,
                        "     ".to_owned().concat(failure.message().as_str()),
                    ),
                );
                assert(console::contents(messages@) =~= seq![
                    (Style::Fail, "FAIL "@ + name@),
                    (Style::Fail, "     "@ + failure.text()),
                ]);
                self.failed_files.push(name);
                assert(text::string_texts(self.failed_files@) =~= text::string_texts(
                    old(self).failed_files@,
                ).push(name@));
            },
        }
        proof {
            assert(manifest::files_in(self.files@) =~= manifest::files_in(old(self).files@));
            assert(self.files@[index as int].passed == Some(ok));
            assert forall|i: int| 0 <= i < index implies #[trigger] self.files@[i] == old(
                self,
            ).files@[i] by {}
            if !self.all_ok && ok {
                let bad = choose|i: int|
                    0 <= i < index && (#[trigger] old(self).files@[i]).passed != Some(true);
                assert(self.files@[bad].passed != Some(true));
            }
        }
        messages
    }

    /// Ends a verification: the data is good exactly if every file was found good.
    fn finish(self) -> (result: VerifyPassResult)
        requires
            self.valid(),
            self.finished(),
        ensures
            self.ends_with(result),
            result.data_ok <==> result.failed == 0,
            result.data_ok ==> result.passed == self.files@.len() && forall|i: int|
                0 <= i < self.files@.len() ==> (#[trigger] self.files@[i]).passed == Some(true),
            !result.data_ok ==> exists|i: int|
                0 <= i < self.files@.len() && (#[trigger] self.files@[i]).passed == Some(false),
            result.passed + result.failed <= self.files@.len(),
            result.failed_files@.len() == result.failed,
            !self.stop_on_fail ==> result.passed + result.failed == self.files@.len(),
    {
        proof {
            let bad = with_verdict(self.files@.take(self.next as int), false);
            assert(text::string_texts(self.failed_files@).len() == self.failed_files@.len());
            assert(names_of(bad).len() == bad.len());
        }
        let VerifyData { files, all_ok, passed, failed, failed_files, .. } = self;
        VerifyPassResult { files, data_ok: all_ok, passed, failed, failed_files }
    }
}

/// The verification of the files of a pass, one after another.
#[derive(Debug)]
pub struct VerifyPass {
    data: VerifyData,
}

impl VerifyPass {
    /// How far the verification has come.
    pub closed spec fn view(self) -> VerifyData {
        self.data
    }

    /// How far the verification has come.
    pub fn data(&self) -> (data: &VerifyData)
        ensures
            *data == self@,
    {
        &self.data
    }

    /// Begins to verify files.
    pub fn new(files: Vec<FileRecord>, stop_on_fail: bool) -> (pass: VerifyPass)
        requires
            files@.len() <= u32::MAX,
        ensures
            pass@.valid(),
            pass@.files == files,
            pass@.next == 0,
            pass@.stop_on_fail == stop_on_fail,
    {
        VerifyPass { data: VerifyData::new(files, stop_on_fail) }
    }

    /// The index of the file to verify next.
    pub fn current(&self) -> (index: Option<usize>)
        ensures
            index == if self@.finished() {
                None
            } else {
                Some(self@.next)
            },
    {
        self.data.current()
    }

    /// Takes note of the verdict on the next file, and says what the user is told.
    pub fn record(&mut self, verdict: Result<(), VerifyFailure>) -> (messages: Vec<Message>)
        requires
            old(self)@.valid(),
            !old(self)@.finished(),
        ensures
            final(self)@.valid(),
            old(self)@.continues(final(self)@, verdict),
            console::contents(messages@) == old(self)@.says(verdict),
    {
        self.data.record(verdict)
    }

    /// Ends a verification: the data is good exactly if every file was found good.
    pub fn finish(self) -> (result: VerifyPassResult)
        requires
            self@.valid(),
            self@.finished(),
        ensures
            self@.ends_with(result),
            result.data_ok <==> result.failed == 0,
            result.data_ok ==> result.passed == self@.files@.len() && forall|i: int|
                0 <= i < self@.files@.len() ==> (#[trigger] self@.files@[i]).passed == Some(true),
            !result.data_ok ==> exists|i: int|
                0 <= i < self@.files@.len() && (#[trigger] self@.files@[i]).passed == Some(false),
            result.passed + result.failed <= self@.files@.len(),
            result.failed_files@.len() == result.failed,
            !self@.stop_on_fail ==> result.passed + result.failed == self@.files@.len(),
    {
        self.data.finish()
    }
}

/// The file is there and holds the data for its seed.
pub open spec fn is_intact(file: TestFile, device: Map<Seq<char>, Seq<u8>>) -> bool {
    device.contains_key(file.name@) && device[file.name@] == pattern::pattern(
        file.seed,
        file.actual_size as nat,
    )
}

/// The verdicts are those on what the device holds under the files' names; a file
/// that is not there fails.
pub open spec fn verdicts_are_true(pass: VerifyData, device: Map<Seq<char>, Seq<u8>>) -> bool {
    forall|i: int|
        0 <= i < pass.next ==> {
            let record = #[trigger] pass.files@[i];
            record.passed == Some(
                device.contains_key(record.file.name@) && passes(
                    record.file.seed,
                    record.file.actual_size,
                    device[record.file.name@],
                ),
            )
        }
}

/// A verification is good exactly if the device holds the data of every file.
pub proof fn good_verification_means_good_data(
    pass: VerifyData,
    device: Map<Seq<char>, Seq<u8>>,
)
    requires
        pass.valid(),
        pass.finished(),
        verdicts_are_true(pass, device),
    ensures
        pass.all_ok <==> forall|i: int|
            0 <= i < pass.files@.len() ==> is_intact((#[trigger] pass.files@[i]).file, device),
{
    assert forall|i: int| 0 <= i < pass.next implies ((#[trigger] pass.files@[i]).passed == Some(
        true,
    ) <==> is_intact(pass.files@[i].file, device)) by {
        let file = pass.files@[i].file;
        verification_is_exact(file.seed, file.actual_size, device[file.name@]);
    }
}

proof fn lemma_same_verdicts(a: Seq<FileRecord>, b: Seq<FileRecord>, ok: bool)
    requires
        a.len() == b.len(),
        forall|i: int|
            0 <= i < a.len() ==> (#[trigger] a[i]).file == b[i].file && a[i].passed == b[i].passed,
    ensures
        names_of(with_verdict(a, ok)) == names_of(with_verdict(b, ok)),
    decreases a.len(),
{
    reveal(Seq::filter);
    if a.len() > 0 {
        let x = a.drop_last();
        let y = b.drop_last();
        assert forall|i: int| 0 <= i < x.len() implies (#[trigger] x[i]).file == y[i].file
            && x[i].passed == y[i].passed by {
            assert(x[i] == a[i]);
        }
        lemma_same_verdicts(x, y, ok);
        assert(a.last() == a[a.len() - 1]);
        assert(a.last().passed == b.last().passed && a.last().file == b.last().file);
        if a.last().passed == Some(ok) {
            assert(names_of(with_verdict(x, ok).push(a.last())) =~= names_of(
                with_verdict(x, ok),
            ).push(a.last().file.name@));
            assert(names_of(with_verdict(y, ok).push(b.last())) =~= names_of(
                with_verdict(y, ok),
            ).push(b.last().file.name@));
        }
    } else {
        assert(names_of(with_verdict(a, ok)) =~= names_of(with_verdict(b, ok)));
    }
}

/// The first failure is the only one where verification stops on it, so two
/// verifications of the same device do not stop at different files.
proof fn lemma_stops_alike(a: VerifyData, b: VerifyData, device: Map<Seq<char>, Seq<u8>>)
    requires
        a.valid() && a.finished() && verdicts_are_true(a, device),
        b.valid() && b.finished() && verdicts_are_true(b, device),
        a.stop_on_fail == b.stop_on_fail,
        manifest::files_in(a.files@) == manifest::files_in(b.files@),
    ensures
        a.next >= b.next,
{
    assert(manifest::files_in(a.files@).len() == a.files@.len());
    assert(manifest::files_in(b.files@).len() == b.files@.len());
    if a.next < b.next {
        let i = a.next - 1;
        assert(manifest::files_in(a.files@)[i] == a.files@[i].file);
        assert(manifest::files_in(b.files@)[i] == b.files@[i].file);
        assert(a.files@[i].passed == b.files@[i].passed);
        assert(b.files@[i].passed != Some(true));
        let done = b.files@.take(b.next as int);
        let pred = |r: FileRecord| r.passed == Some(false);
        assert(done[i].passed == Some(false) && done[b.next - 1].passed == Some(false));
        let at = ordering::lemma_filter_keeps_pairs(done, pred, i, b.next - 1);
        assert(with_verdict(done, false) == done.filter(pred));
    }
}

/// The outcome of a verification is determined by what the device holds: two
/// verifications of the same files, with nothing changed between them, come to
/// the same counts and the same failed files.
pub proof fn verification_is_determined(
    a: VerifyData,
    b: VerifyData,
    device: Map<Seq<char>, Seq<u8>>,
)
    requires
        a.valid() && a.finished() && verdicts_are_true(a, device),
        b.valid() && b.finished() && verdicts_are_true(b, device),
        a.stop_on_fail == b.stop_on_fail,
        manifest::files_in(a.files@) == manifest::files_in(b.files@),
    ensures
        a.all_ok == b.all_ok,
        a.passed == b.passed,
        a.failed == b.failed,
        text::string_texts(a.failed_files@) == text::string_texts(b.failed_files@),
{
    lemma_stops_alike(a, b, device);
    lemma_stops_alike(b, a, device);
    assert(manifest::files_in(a.files@).len() == a.files@.len());
    assert(manifest::files_in(b.files@).len() == b.files@.len());
    let x = a.files@.take(a.next as int);
    let y = b.files@.take(b.next as int);
    assert forall|i: int| 0 <= i < x.len() implies (#[trigger] x[i]).file == y[i].file
        && x[i].passed == y[i].passed by {
        assert(manifest::files_in(a.files@)[i] == a.files@[i].file);
        assert(manifest::files_in(b.files@)[i] == b.files@[i].file);
        assert(a.files@[i].passed == b.files@[i].passed);
    }
    lemma_same_verdicts(x, y, true);
    lemma_same_verdicts(x, y, false);
    assert(names_of(with_verdict(x, true)).len() == with_verdict(x, true).len());
    assert(names_of(with_verdict(y, true)).len() == with_verdict(y, true).len());
    assert(names_of(with_verdict(x, false)).len() == with_verdict(x, false).len());
    assert(names_of(with_verdict(y, false)).len() == with_verdict(y, false).len());
}

/// A verification that is to stop on a failure counts at most one, and no file
/// behind it.
pub proof fn stopping_counts_one_failure(pass: VerifyData)
    requires
        pass.valid(),
        pass.stop_on_fail,
    ensures
        pass.failed <= 1,
        pass.failed == 1 ==> pass.finished() && pass.next > 0 && pass.files@[pass.next
            - 1].passed == Some(false),
        pass.failed_files@.len() <= 1,
{
    let done = pass.files@.take(pass.next as int);
    assert(text::string_texts(pass.failed_files@).len() == pass.failed_files@.len());
    assert(names_of(with_verdict(done, false)).len() == with_verdict(done, false).len());
}

/// A verification goes from one state to the next with a verdict.
pub open spec fn verdict_step(
    states: Seq<VerifyData>,
    verdicts: Seq<Result<(), VerifyFailure>>,
    i: int,
) -> bool {
    &&& states[i].valid()
    &&& !states[i].finished()
    &&& states[i].continues(states[i + 1], verdicts[i])
    &&& states[i + 1].valid()
}

/// The states that a verification goes through with verdicts.
pub open spec fn is_verification(
    states: Seq<VerifyData>,
    verdicts: Seq<Result<(), VerifyFailure>>,
) -> bool {
    &&& states.len() == verdicts.len() + 1
    &&& states[0].valid()
    &&& states[0].next == 0
    &&& forall|i: int| 0 <= i < verdicts.len() ==> #[trigger] verdict_step(states, verdicts, i)
}

proof fn lemma_verdicts_recorded(
    states: Seq<VerifyData>,
    verdicts: Seq<Result<(), VerifyFailure>>,
    n: int,
)
    requires
        is_verification(states, verdicts),
        0 <= n < states.len(),
    ensures
        states[n].valid(),
        states[n].next == n,
        states[n].stop_on_fail == states[0].stop_on_fail,
        states[n].files@.len() == states[0].files@.len(),
        forall|i: int|
            0 <= i < n ==> (#[trigger] states[n].files@[i]).file == states[0].files@[i].file
                && states[n].files@[i].verified && states[n].files@[i].passed == Some(
                verdicts[i] is Ok,
            ),
        forall|i: int|
            n <= i < states[0].files@.len() ==> #[trigger] states[n].files@[i]
                == states[0].files@[i],
        states[n].failed == 0 <==> forall|i: int| 0 <= i < n ==> #[trigger] verdicts[i] is Ok,
        states[n].passed + states[n].failed == n,
    decreases n,
{
    if n > 0 {
        lemma_verdicts_recorded(states, verdicts, n - 1);
        assert(verdict_step(states, verdicts, n - 1));
        let before = states[n - 1];
        let after = states[n];
        assert forall|i: int| 0 <= i < n implies (#[trigger] after.files@[i]).file
            == states[0].files@[i].file && after.files@[i].verified && after.files@[i].passed
            == Some(verdicts[i] is Ok) by {
            if i < n - 1 {
                assert(after.files@[i] == before.files@[i]);
            } else {
                assert(before.files@[i] == states[0].files@[i]);
            }
        }
        assert forall|i: int| n <= i < states[0].files@.len() implies #[trigger] after.files@[i]
            == states[0].files@[i] by {
            assert(after.files@[i] == before.files@[i]);
        }
        if after.failed == 0 {
            assert forall|i: int| 0 <= i < n implies #[trigger] verdicts[i] is Ok by {
                if i < n - 1 {
                    assert(before.failed == 0);
                }
            }
        }
    }
}

/// A verification takes the files one by one and puts each verdict down for the
/// file that it is on. It ends with the last file, or with the first bad file if it
/// is to stop there: the files behind that one are left as they were. The data is
/// good exactly if no file was bad.
pub proof fn verdicts_are_recorded(
    states: Seq<VerifyData>,
    verdicts: Seq<Result<(), VerifyFailure>>,
    result: VerifyPassResult,
)
    requires
        is_verification(states, verdicts),
        states.last().finished(),
        states.last().ends_with(result),
    ensures
        verdicts.len() <= states[0].files@.len(),
        result.files@.len() == states[0].files@.len(),
        result.passed + result.failed == verdicts.len(),
        result.data_ok <==> forall|i: int|
            0 <= i < verdicts.len() ==> #[trigger] verdicts[i] is Ok,
        forall|i: int|
            0 <= i < verdicts.len() ==> (#[trigger] result.files@[i]).file
                == states[0].files@[i].file && result.files@[i].verified && result.files@[i].passed
                == Some(verdicts[i] is Ok),
        forall|i: int|
            verdicts.len() <= i < result.files@.len() ==> #[trigger] result.files@[i]
                == states[0].files@[i],
        !states[0].stop_on_fail ==> verdicts.len() == states[0].files@.len(),
        states[0].stop_on_fail && verdicts.len() < states[0].files@.len() ==> verdicts.len() > 0
            && verdicts.last() is Err,
        states[0].stop_on_fail ==> result.failed <= 1 && forall|i: int|
            0 <= i < verdicts.len() - 1 ==> #[trigger] verdicts[i] is Ok,
        result.failed_files@.len() == result.failed,
        forall|n: int|
            #![trigger result.failed_files@[n]]
            0 <= n < result.failed_files@.len() ==> exists|i: int|
                0 <= i < verdicts.len() && (#[trigger] result.files@[i]).file.name@
                    == result.failed_files@[n]@ && verdicts[i] is Err,
        forall|i: int|
            0 <= i < verdicts.len() && #[trigger] verdicts[i] is Err ==> exists|n: int|
                0 <= n < result.failed_files@.len() && (#[trigger] result.failed_files@[n])@
                    == result.files@[i].file.name@,
{
    let n = verdicts.len() as int;
    lemma_verdicts_recorded(states, verdicts, n);
    let end = states[n];
    if states[0].stop_on_fail && n > 0 {
        stopping_counts_one_failure(end);
        lemma_verdicts_recorded(states, verdicts, n - 1);
        assert(verdict_step(states, verdicts, n - 1));
    }
    let done = end.files@.take(n);
    let bad = with_verdict(done, false);
    assert(text::string_texts(end.failed_files@).len() == end.failed_files@.len());
    assert(names_of(bad).len() == bad.len());
    assert forall|m: int|
        #![trigger result.failed_files@[m]]
        0 <= m < result.failed_files@.len() implies exists|i: int|
        0 <= i < verdicts.len() && (#[trigger] result.files@[i]).file.name@
            == result.failed_files@[m]@ && verdicts[i] is Err by {
        assert(text::string_texts(end.failed_files@)[m] == end.failed_files@[m]@);
        assert(names_of(bad)[m] == bad[m].file.name@);
        let pred = |r: FileRecord| r.passed == Some(false);
        broadcast use vstd::seq_lib::group_filter_ensures;

        assert(bad == done.filter(pred));
        assert(pred(bad[m]));
        assert(bad.contains(bad[m]));
        done.lemma_filter_contains_rev(pred, bad[m]);
        let i = choose|i: int| 0 <= i < done.len() && done[i] == bad[m];
        assert(done[i] == end.files@[i]);
    }
    assert forall|i: int| 0 <= i < verdicts.len() && #[trigger] verdicts[i] is Err implies exists|
        m: int,
    |
        0 <= m < result.failed_files@.len() && (#[trigger] result.failed_files@[m])@
            == result.files@[i].file.name@ by {
        let pred = |r: FileRecord| r.passed == Some(false);
        assert(done[i] == end.files@[i]);
        assert(pred(done[i]));
        done.lemma_filter_contains(pred, i);
        assert(bad == done.filter(pred));
        let m = choose|m: int| 0 <= m < bad.len() && bad[m] == done[i];
        assert(names_of(bad)[m] == bad[m].file.name@);
        assert(text::string_texts(end.failed_files@)[m] == end.failed_files@[m]@);
        assert(result.failed_files@[m]@ == result.files@[i].file.name@);
    }
}

/// A file is verified exactly if it has the size that was written.
pub proof fn changed_sizes_are_noticed(
    file: TestFile,
    found: u64,
    result: Result<FileVerifier, VerifyFailure>,
)
    requires
        call_ensures(FileVerifier::new, (&file, found), result),
    ensures
        result is Ok <==> found == file.actual_size,
        result matches Err(failure) ==> failure == (VerifyFailure::SizeChanged {
            expected: file.actual_size,
            found,
        }),
        result matches Ok(verifier) ==> verifier.seed() == file.seed && verifier.size()
            == file.actual_size && verifier.read().len() == 0,
{
}

/// The verdict on a file is good only if all that was read is the data of its seed
/// in its full size. Otherwise the file fails at a block, whose data is not that of
/// the seed.
pub proof fn verdicts_are_exact(verifier: FileVerifier, verdict: Result<(), VerifyFailure>)
    requires
        verifier.valid(),
        verifier.is_done(),
        call_ensures(FileVerifier::verdict, (&verifier,), verdict),
    ensures
        verdict is Ok ==> verifier.read() == pattern::pattern(
            verifier.seed(),
            verifier.size() as nat,
        ),
        verdict is Err ==> !verifier.read().is_prefix_of(
            pattern::pattern(verifier.seed(), verifier.size() as nat),
        ),
        verdict matches Err(failure) ==> failure is Mismatch,
{
    let data = pattern::pattern(verifier.seed(), verifier.size() as nat);
    verification_is_exact(verifier.seed(), verifier.size(), verifier.read());
    verification_is_exact(verifier.seed(), verifier.size(), data);
}

/// What is told of a file: its name in any case, as good exactly if the verdict is,
/// and else with the reason.
pub proof fn verdicts_are_told(pass: VerifyData, verdict: Result<(), VerifyFailure>)
    ensures
        ({
            let name = pass.files@[pass.next as int].file.name@;
            let lines = pass.says(verdict);
            &&& verdict is Ok ==> lines == seq![(Style::Good, "OK   "@ + name)]
            &&& verdict matches Err(failure) ==> lines == seq![
                (Style::Fail, "FAIL "@ + name),
                (Style::Fail, "     "@ + failure.text()),
            ]
        }),
{
}

/// The reason of a failure tells what was expected and found, or where, or the
/// error.
pub proof fn reasons_are_told(expected: u64, found: u64, offset: u64, error: String)
    ensures
        (VerifyFailure::SizeChanged { expected, found }).text() == "file size changed: expected "@
            + console::size_text(expected) + ", found "@ + console::size_text(found),
        (VerifyFailure::Mismatch { offset }).text() == "data mismatch at "@ + console::size_text(
            offset,
        ),
        (VerifyFailure::ReadError { offset, error }).text() == "read error at "@
            + console::size_text(offset) + ": "@ + error@,
        VerifyFailure::CannotStat(error).text() == "cannot stat file: "@ + error@,
        VerifyFailure::CannotOpen(error).text() == "cannot open file: "@ + error@,
{
}

/// The file that is verified next is the one that the next verdict is put down
/// for. There is none exactly if every file has a verdict, or one is bad and
/// verification is to stop on it.
pub proof fn verdicts_are_on_the_current_file(
    pass: VerifyPass,
    index: Option<usize>,
    after: VerifyData,
    verdict: Result<(), VerifyFailure>,
)
    requires
        pass@.valid(),
        call_ensures(VerifyPass::current, (&pass,), index),
    ensures
        index is None <==> pass@.next == pass@.files@.len() || (pass@.stop_on_fail && pass@.failed
            > 0),
        index is Some && pass@.continues(after, verdict) ==> {
            let i = index->0 as int;
            &&& 0 <= i < pass@.files@.len()
            &&& after.files@[i].verified
            &&& after.files@[i].passed == Some(verdict is Ok)
            &&& after.files@[i].file == pass@.files@[i].file
            &&& forall|j: int|
                0 <= j < pass@.files@.len() && j != i ==> #[trigger] after.files@[j]
                    == pass@.files@[j]
            &&& i > 0 ==> pass@.files@[i - 1].verified
        },
{
}

} // verus!
