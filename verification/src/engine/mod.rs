//! The test itself: what is written, how it is verified, and how a test of
//! several passes goes on.

pub mod pass;
pub mod preparation;
pub mod recovery;
pub mod session;
pub mod verifying;
pub mod writing;

pub use crate::engine::session::{run_test, verify_test};
pub use crate::manifest::FileRecord;

use crate::console::{self, format_bytes};
use crate::manifest::{self, fnv1a_hash, StateStatus};
use crate::text;
use crate::types::{CleanupMode, VerifyMode};
use crate::volume::VolumeInfo;
use vstd::prelude::*;

verus! {

/// Chunk size used when the filesystem has a small per-file limit (FAT32).
pub const FAT_CHUNK_SIZE: u64 = 2 * 1024 * 1024 * 1024;

/// Fallback chunk size used if a filesystem rejects a larger file.
pub const FALLBACK_CHUNK_SIZE: u64 = 1024 * 1024 * 1024;

/// The least free space that a test can start with.
pub const MINIMUM_SPACE: u64 = 1024 * 1024;

/// How a test is to be run.
#[derive(Debug)]
pub struct RunOptions {
    pub target: String,
    pub volume: VolumeInfo,
    pub passes: u32,
    pub verify: VerifyMode,
    pub delay: Option<u64>,
    pub stop_on_fail: bool,
    pub cleanup: CleanupMode,
    pub force: bool,
    pub progress: bool,
}

impl Clone for RunOptions {
    fn clone(&self) -> (copy: Self)
        ensures
            copy == *self,
    {
        RunOptions {
            target: self.target.clone(),
            volume: self.volume.clone(),
            passes: self.passes,
            verify: self.verify,
            delay: self.delay,
            stop_on_fail: self.stop_on_fail,
            cleanup: self.cleanup,
            force: self.force,
            progress: self.progress,
        }
    }
}

/// How pending test data is to be verified.
#[derive(Debug)]
pub struct VerifyOptions {
    pub target: String,
    pub volume: VolumeInfo,
    pub stop_on_fail: bool,
    pub cleanup: CleanupMode,
    pub progress: bool,
}

impl Clone for VerifyOptions {
    fn clone(&self) -> (copy: Self)
        ensures
            copy == *self,
    {
        VerifyOptions {
            target: self.target.clone(),
            volume: self.volume.clone(),
            stop_on_fail: self.stop_on_fail,
            cleanup: self.cleanup,
            progress: self.progress,
        }
    }
}

/// What a test came to.
#[derive(Debug)]
pub struct TestReport {
    pub target: String,
    pub passes_total: u32,
    pub passes_completed: u32,
    pub files_total: u32,
    pub files_passed: u32,
    pub files_failed: u32,
    pub failed_files: Vec<String>,
    pub expected_total: u64,
    pub actual_total: u64,
    pub capacity_ok: bool,
    pub pending_verify: bool,
    pub success: bool,
}

impl TestReport {
    /// The report on a target where nothing has been done.
    pub open spec fn is_blank(self, target: Seq<char>) -> bool {
        &&& self.target@ == target
        &&& self.passes_total == 0
        &&& self.passes_completed == 0
        &&& self.files_total == 0
        &&& self.files_passed == 0
        &&& self.files_failed == 0
        &&& self.failed_files@ == Seq::<String>::empty()
        &&& self.expected_total == 0
        &&& self.actual_total == 0
        &&& !self.capacity_ok
        &&& !self.pending_verify
        &&& !self.success
    }

    /// A report on a target where nothing has been done.
    pub fn new(target: &str) -> (report: Self)
        ensures
            report.is_blank(target@),
    {
        TestReport {
            target: target.to_owned(),
            passes_total: 0,
            passes_completed: 0,
            files_total: 0,
            files_passed: 0,
            files_failed: 0,
            failed_files: Vec::new(),
            expected_total: 0,
            actual_total: 0,
            capacity_ok: false,
            pending_verify: false,
            success: false,
        }
    }
}

impl Default for TestReport {
    fn default() -> (report: Self)
        ensures
            report.is_blank(Seq::empty()),
    {
        let report = TestReport::new("");
        proof {
            reveal_strlit("");
            assert(""@ =~= Seq::<char>::empty());
        }
        report
    }
}

/// Why a test cannot go on.
#[derive(Debug)]
pub enum EngineError {
    /// Every pass has been done.
    AllPassesComplete,
    /// There are test files without a state on the target.
    TestFilesExist(String),
    /// There is data to verify on the target.
    PendingExists(String),
    /// There is a completed test on the target.
    CompletedExists(String),
    /// There is a failed test on the target.
    FailedExists(String),
    /// There is an interrupted test on the target.
    InterruptedExists(String),
    /// There is no test data on the target.
    NoTestData(String),
    /// The test data on the target does not wait for verification.
    NotPending(String, StateStatus),
    /// The target has too little free space.
    NotEnoughSpace(String, u64),
    /// The file system rejects even small files.
    FileRejected,
}

impl EngineError {
    /// What the message of an error says.
    pub open spec fn text(self) -> Seq<char> {
        match self {
            EngineError::AllPassesComplete => "all passes on this volume are already complete"@,
            EngineError::TestFilesExist(target) => "test files already exist on "@ + target@
                + "; use --force to discard them"@,
            EngineError::PendingExists(target) => "pending verification data exists on "@ + target@
                + "; run `urwtest-rs verify --target "@ + target@ + "` first, or use --force"@,
            EngineError::CompletedExists(target) => "a completed test already exists on "@ + target@
                + "; use --force to start over"@,
            EngineError::FailedExists(target) => "a failed test state exists on "@ + target@
                + "; use --force to start over"@,
            EngineError::InterruptedExists(target) => "an interrupted test state exists on "@
                + target@ + "; use --force to start over"@,
            EngineError::NoTestData(target) => "no test data found on "@ + target@,
            EngineError::NotPending(target, status) => "no pending verification data on "@ + target@
                + " (status: "@ + status.text() + ")"@,
            EngineError::NotEnoughSpace(target, available) => "not enough free space on "@ + target@
                + " to start a test ("@ + console::size_text(available) + " available)"@,
            EngineError::FileRejected => "filesystem rejected a "@ + console::size_text(
                FALLBACK_CHUNK_SIZE,
            ) + " file as too large"@,
        }
    }

    /// The message of an error.
    pub fn message(&self) -> (message: String)
        ensures
            message@ == self.text(),
    {
        match self {
            EngineError::AllPassesComplete =>
                "all passes on this volume are already complete".to_owned(),
            EngineError::TestFilesExist(target) => "test files already exist on ".to_owned().concat(
                target.as_str(),
            ).concat("; use --force to discard them"),
            EngineError::PendingExists(target) =>
                "pending verification data exists on ".to_owned().concat(target.as_str()).concat(
                    "; run `urwtest-rs verify --target ",
                ).concat(target.as_str()).concat("` first, or use --force"),
            EngineError::CompletedExists(target) => "a completed test already exists on ".to_owned().concat(
                target.as_str(),
            ).concat("; use --force to start over"),
            EngineError::FailedExists(target) => "a failed test state exists on ".to_owned().concat(
                target.as_str(),
            ).concat("; use --force to start over"),
            EngineError::InterruptedExists(target) =>
                "an interrupted test state exists on ".to_owned().concat(target.as_str()).concat(
                    "; use --force to start over",
                ),
            EngineError::NoTestData(target) => "no test data found on ".to_owned().concat(
                target.as_str(),
            ),
            EngineError::NotPending(target, status) =>
                "no pending verification data on ".to_owned().concat(target.as_str()).concat(
                    " (status: ",
                ).concat(status.name()).concat(")"),
            EngineError::NotEnoughSpace(target, available) => "not enough free space on ".to_owned().concat(
                target.as_str(),
            ).concat(" to start a test (").concat(format_bytes(*available).as_str()).concat(
                " available)",
            ),
            EngineError::FileRejected => "filesystem rejected a ".to_owned().concat(
                format_bytes(FALLBACK_CHUNK_SIZE).as_str(),
            ).concat(" file as too large"),
        }
    }
}

/// The file system has a small limit on the size of a file.
pub open spec fn is_fat(filesystem: Seq<char>) -> bool {
    let fs = text::lower(filesystem);
    ||| text::occurs_in(fs, "fat32"@)
    ||| text::occurs_in(fs, "fat16"@)
    ||| fs == "vfat"@
    ||| fs == "fat"@
    ||| fs == "msdos"@
}

/// The size up to which a file is filled at first: two GiB on FAT, and all of
/// the free space elsewhere.
pub open spec fn chunk_size_for(filesystem: Seq<char>, expected_total: u64) -> u64 {
    if is_fat(filesystem) {
        FAT_CHUNK_SIZE
    } else if expected_total < 1 {
        1
    } else {
        expected_total
    }
}

/// The size up to which a file is filled at first.
pub fn choose_chunk_size(filesystem: &str, expected_total: u64) -> (size: u64)
    ensures
        size == chunk_size_for(filesystem@, expected_total),
{
    let chars = text::chars_of(filesystem);
    let fs = text::lowered(chars.as_slice());
    let fs = fs.as_slice();
    if text::contains_text(fs, "fat32") || text::contains_text(fs, "fat16") || text::is_text(
        fs,
        "vfat",
    ) || text::is_text(fs, "fat") || text::is_text(fs, "msdos") {
        FAT_CHUNK_SIZE
    } else if expected_total < 1 {
        1
    } else {
        expected_total
    }
}

/// The bytes of a number, the least significant first.
pub open spec fn le_bytes(n: u32) -> Seq<u8> {
    seq![
        (n % 256) as u8,
        (n / 256 % 256) as u8,
        (n / 65536 % 256) as u8,
        (n / 16777216) as u8,
    ]
}

/// The seed of a file's data: a hash of its pass and its index.
pub open spec fn seed_of(pass: u32, index: u32) -> u64 {
    manifest::fnv1a(le_bytes(pass) + le_bytes(index))
}

fn push_le_bytes(bytes: &mut Vec<u8>, n: u32)
    ensures
        final(bytes)@ == old(bytes)@ + le_bytes(n),
{
    bytes.push((n % 256) as u8);
    bytes.push((n / 256 % 256) as u8);
    bytes.push((n / 65536 % 256) as u8);
    bytes.push((n / 16777216) as u8);
    assert(bytes@ =~= old(bytes)@ + le_bytes(n));
}

/// The seed of a file's data. It only needs to be the same whenever the file is
/// written and verified.
pub fn seed_for(pass: u32, file_index: u32) -> (seed: u64)
    ensures
        seed == seed_of(pass, file_index),
{
    let mut bytes: Vec<u8> = Vec::new();
    push_le_bytes(&mut bytes, pass);
    push_le_bytes(&mut bytes, file_index);
    assert(bytes@ =~= le_bytes(pass) + le_bytes(file_index));
    fnv1a_hash(bytes.as_slice())
}

/// The operating system's error says that the disk is full: ENOSPC on Unix,
/// ERROR_HANDLE_DISK_FULL or ERROR_DISK_FULL on Windows.
pub open spec fn means_disk_full(code: Option<i32>) -> bool {
    code == Some(28i32) || code == Some(39i32) || code == Some(112i32)
}

/// The operating system's error says that the file is too large: EFBIG on Unix,
/// ERROR_FILE_TOO_LARGE or ERROR_FILE_SYSTEM_LIMITATION on Windows.
pub open spec fn means_file_too_large(code: Option<i32>) -> bool {
    code == Some(27i32) || code == Some(223i32) || code == Some(665i32)
}

/// Tells whether an operating system's error says that the disk is full.
pub fn is_disk_full(code: Option<i32>) -> (result: bool)
    ensures
        result == means_disk_full(code),
{
    match code {
        Some(n) => n == 28 || n == 39 || n == 112,
        None => false,
    }
}

/// Tells whether an operating system's error says that the file is too large.
pub fn is_file_too_large(code: Option<i32>) -> (result: bool)
    ensures
        result == means_file_too_large(code),
{
    match code {
        Some(n) => n == 27 || n == 223 || n == 665,
        None => false,
    }
}

/// Tells whether a test that succeeded is discarded.
pub fn cleanup_after_success(cleanup: CleanupMode) -> (discard: bool)
    ensures
        discard == (cleanup != CleanupMode::Never),
{
    match cleanup {
        CleanupMode::Always | CleanupMode::OnSuccess => true,
        CleanupMode::Never => false,
    }
}

/// Tells whether a test that failed is discarded.
pub fn cleanup_after_failure(cleanup: CleanupMode) -> (discard: bool)
    ensures
        discard == (cleanup == CleanupMode::Always),
{
    match cleanup {
        CleanupMode::Always => true,
        CleanupMode::OnSuccess | CleanupMode::Never => false,
    }
}

/// A file system has a small limit exactly if its name, in upper or lower case, is
/// `vfat`, `fat` or `msdos`, or has `fat32` or `fat16` in it.
pub proof fn fat_is_recognized(filesystem: Seq<char>, front: Seq<char>, rest: Seq<char>)
    ensures
        text::lower(filesystem) == "vfat"@ ==> is_fat(filesystem),
        text::lower(filesystem) == "fat"@ ==> is_fat(filesystem),
        text::lower(filesystem) == "msdos"@ ==> is_fat(filesystem),
        text::lower(filesystem) == front + "fat32"@ + rest ==> is_fat(filesystem),
        text::lower(filesystem) == front + "fat16"@ + rest ==> is_fat(filesystem),
        is_fat(filesystem) ==> {
            let name = text::lower(filesystem);
            ||| name == "vfat"@ || name == "fat"@ || name == "msdos"@
            ||| exists|i: int|
                0 <= i && i + 5 <= name.len() && (#[trigger] name.subrange(i, i + 5) == "fat32"@
                    || name.subrange(i, i + 5) == "fat16"@)
        },
        is_fat(text::lower(filesystem)) == is_fat(filesystem),
{
    let name = text::lower(filesystem);
    reveal_strlit("fat32");
    reveal_strlit("fat16");
    text::parts_of_texts(name, "fat32"@, front, rest);
    text::parts_of_texts(name, "fat16"@, front, rest);
    assert(text::lower(name) =~= name);
}

/// The chunks are of two GiB where files have a small limit. Elsewhere one file
/// takes all the free space.
pub proof fn chunks_are_sized(filesystem: Seq<char>, free: u64)
    ensures
        is_fat(filesystem) ==> chunk_size_for(filesystem, free) == 2147483648,
        !is_fat(filesystem) && free > 0 ==> chunk_size_for(filesystem, free) == free,
        chunk_size_for(filesystem, free) >= 1,
{
}

/// A full disk and a file that is too large are told by these codes and no others,
/// and never by the same one.
pub proof fn errors_are_told_by_their_codes(code: i32)
    ensures
        means_disk_full(Some(code)) <==> code == 28 || code == 39 || code == 112,
        means_file_too_large(Some(code)) <==> code == 27 || code == 223 || code == 665,
        !(means_disk_full(Some(code)) && means_file_too_large(Some(code))),
        !means_disk_full(None),
        !means_file_too_large(None),
{
}

/// The seed of a file is the FNV-1a hash of eight bytes: the pass and then the
/// file's number, four bytes each with the least significant first.
pub proof fn seeds_are_hashes(pass: u32, index: u32, bytes: Seq<u8>)
    requires
        bytes.len() == 8,
        bytes[0] + 256 * bytes[1] + 65536 * bytes[2] + 16777216 * bytes[3] == pass,
        bytes[4] + 256 * bytes[5] + 65536 * bytes[6] + 16777216 * bytes[7] == index,
    ensures
        seed_of(pass, index) == manifest::fnv1a(bytes),
{
    lemma_le_bytes(pass, bytes[0], bytes[1], bytes[2], bytes[3]);
    lemma_le_bytes(index, bytes[4], bytes[5], bytes[6], bytes[7]);
    assert(le_bytes(pass) + le_bytes(index) =~= bytes);
}

proof fn lemma_le_bytes(n: u32, a: u8, b: u8, c: u8, d: u8)
    requires
        a + 256 * b + 65536 * c + 16777216 * d == n,
    ensures
        le_bytes(n) == seq![a, b, c, d],
{
    let upper = b + 256 * c + 65536 * d;
    let top = c + 256 * d;
    assert(n == a + 256 * upper);
    assert(n / 256 == upper && n % 256 == a);
    assert(upper == b + 256 * top);
    assert(n / 65536 == top && n / 256 % 256 == b);
    assert(n / 16777216 == d && n / 65536 % 256 == c);
    assert(le_bytes(n) =~= seq![a, b, c, d]);
}

/// The message of an error on a target names the target.
pub proof fn errors_name_their_target(error: EngineError, target: String)
    requires
        error == EngineError::TestFilesExist(target) || error == EngineError::PendingExists(target)
            || error == EngineError::CompletedExists(target) || error
            == EngineError::FailedExists(target) || error == EngineError::InterruptedExists(target)
            || error == EngineError::NoTestData(target) || (error matches EngineError::NotPending(
            t,
            _,
        ) && t == target) || (error matches EngineError::NotEnoughSpace(t, _) && t == target),
    ensures
        text::occurs_in(error.text(), target@),
{
    let whole = error.text();
    let front = match error {
        EngineError::TestFilesExist(_) => "test files already exist on "@,
        EngineError::PendingExists(_) => "pending verification data exists on "@,
        EngineError::CompletedExists(_) => "a completed test already exists on "@,
        EngineError::FailedExists(_) => "a failed test state exists on "@,
        EngineError::InterruptedExists(_) => "an interrupted test state exists on "@,
        EngineError::NoTestData(_) => "no test data found on "@,
        EngineError::NotPending(_, _) => "no pending verification data on "@,
        _ => "not enough free space on "@,
    };
    assert(whole.subrange(front.len() as int, (front.len() + target@.len()) as int) =~= target@);
    lemma_occurs(whole, front, target@);
}

proof fn lemma_occurs(whole: Seq<char>, front: Seq<char>, part: Seq<char>)
    requires
        front.len() + part.len() <= whole.len(),
        whole.subrange(front.len() as int, (front.len() + part.len()) as int) == part,
    ensures
        text::occurs_in(whole, part),
{
    let i = front.len() as int;
    assert(whole.skip(i).take(part.len() as int) =~= whole.subrange(i, i + part.len()));
    assert(text::has_prefix(whole.skip(i), part));
}

/// Whatever is discarded after a failure is discarded after success. Files that
/// are never to be removed are not, and those that always are, are.
pub proof fn cleanup_modes_differ(cleanup: CleanupMode, success: bool, failure: bool)
    requires
        call_ensures(cleanup_after_success, (cleanup,), success),
        call_ensures(cleanup_after_failure, (cleanup,), failure),
    ensures
        failure ==> success,
        cleanup == CleanupMode::Always <==> failure,
        cleanup == CleanupMode::Never <==> !success,
        cleanup == CleanupMode::OnSuccess <==> success && !failure,
{
}

/// A new report tells of nothing that was done, and of no success.
pub proof fn new_reports_tell_of_nothing(target: &str, report: TestReport)
    requires
        call_ensures(TestReport::new, (target,), report),
    ensures
        report.target@ == target@,
        report.passes_total == 0 && report.passes_completed == 0,
        report.files_total == 0 && report.files_passed == 0 && report.files_failed == 0,
        report.failed_files@.len() == 0,
        report.expected_total == 0 && report.actual_total == 0,
        !report.capacity_ok && !report.pending_verify && !report.success,
{
}

/// The message of an error on data that does not wait for verification tells its
/// state, and that of one on too little space how much there is.
pub proof fn errors_tell_what_was_found(target: String, status: StateStatus, available: u64)
    ensures
        EngineError::NotPending(target, status).text() == "no pending verification data on "@
            + target@ + " (status: "@ + status.text() + ")"@,
        EngineError::NotEnoughSpace(target, available).text() == "not enough free space on "@
            + target@ + " to start a test ("@ + console::size_text(available) + " available)"@,
        EngineError::FileRejected.text() == "filesystem rejected a "@ + console::size_text(
            1073741824,
        ) + " file as too large"@,
{
}

} // verus!
