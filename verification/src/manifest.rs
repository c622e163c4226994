//! The persisted state of a test, and the names of test files.
//!
//! A test file's name carries what its verification needs, so that it can be
//! recovered from the target volume when the state is lost.

use crate::ordering::{self, Keyed};
use crate::text;
use crate::types::CleanupMode;
use crate::volume::{copy_text, VolumeInfo};
use vstd::prelude::*;
use vstd::utf8;

verus! {

pub const TEST_FILE_PREFIX: &'static str = "urwtest_rs_";

pub const TEST_FILE_SUFFIX: &'static str = ".bin";

pub const STATE_VERSION: u32 = 1;

/// A file of test data on a volume.
#[derive(Debug)]
pub struct TestFile {
    pub name: String,
    pub pass: u32,
    pub total_passes: u32,
    pub index: u32,
    pub seed: u64,
    pub actual_size: u64,
}

impl Clone for TestFile {
    fn clone(&self) -> (copy: Self)
        ensures
            copy == *self,
    {
        TestFile {
            name: self.name.clone(),
            pass: self.pass,
            total_passes: self.total_passes,
            index: self.index,
            seed: self.seed,
            actual_size: self.actual_size,
        }
    }
}

/// A test file, with what was planned for it and what its verification gave.
#[derive(Debug)]
pub struct FileRecord {
    pub file: TestFile,
    pub expected_size: u64,
    pub verified: bool,
    pub passed: Option<bool>,
}

impl Clone for FileRecord {
    fn clone(&self) -> (copy: Self)
        ensures
            copy == *self,
    {
        FileRecord {
            file: self.file.clone(),
            expected_size: self.expected_size,
            verified: self.verified,
            passed: self.passed,
        }
    }
}

/// The files that records are of.
pub open spec fn files_in(records: Seq<FileRecord>) -> Seq<TestFile> {
    records.map_values(|r: FileRecord| r.file)
}

/// What is known of files: the name of each, its pass, the passes of the test, its
/// number, its seed and its size.
pub open spec fn facts_of(records: Seq<FileRecord>) -> Seq<(Seq<char>, u32, u32, u32, u64, u64)> {
    files_in(records).map_values(
        |f: TestFile| (f.name@, f.pass, f.total_passes, f.index, f.seed, f.actual_size),
    )
}

/// Tells whether records are of the same files.
pub fn same_files(a: &Vec<FileRecord>, b: &Vec<FileRecord>) -> (result: bool)
    ensures
        result == (facts_of(a@) == facts_of(b@)),
{
    assert(facts_of(a@).len() == a@.len());
    assert(facts_of(b@).len() == b@.len());
    if a.len() != b.len() {
        return false;
    }
    let mut i: usize = 0;
    while i < a.len()
        invariant
            i <= a@.len(),
            a@.len() == b@.len(),
            facts_of(a@).len() == a@.len(),
            facts_of(b@).len() == b@.len(),
            forall|k: int| 0 <= k < i ==> #[trigger] facts_of(a@)[k] == facts_of(b@)[k],
        decreases a@.len() - i,
    {
        let x = &a[i].file;
        let y = &b[i].file;
        let same: bool = text::same_text(x.name.as_str(), y.name.as_str()) && x.pass == y.pass
            && x.total_passes == y.total_passes && x.index == y.index && x.seed == y.seed
            && x.actual_size == y.actual_size;
        assert(facts_of(a@)[i as int] == (
            x.name@,
            x.pass,
            x.total_passes,
            x.index,
            x.seed,
            x.actual_size,
        ));
        assert(facts_of(b@)[i as int] == (
            y.name@,
            y.pass,
            y.total_passes,
            y.index,
            y.seed,
            y.actual_size,
        ));
        if !same {
            return false;
        }
        i += 1;
    }
    assert(facts_of(a@) =~= facts_of(b@));
    true
}

/// A copy of records.
pub fn copy_records(records: &Vec<FileRecord>) -> (copy: Vec<FileRecord>)
    ensures
        copy@ == records@,
{
    let mut copy: Vec<FileRecord> = Vec::new();
    let mut i: usize = 0;
    while i < records.len()
        invariant
            i <= records@.len(),
            copy@ == records@.take(i as int),
        decreases records@.len() - i,
    {
        copy.push(records[i].clone());
        i += 1;
        assert(copy@ =~= records@.take(i as int));
    }
    assert(copy@ =~= records@);
    copy
}

/// A test file's name, from the texts of its numbers.
pub open spec fn assembled(
    pass: Seq<char>,
    total: Seq<char>,
    index: Seq<char>,
    seed: Seq<char>,
) -> Seq<char> {
    TEST_FILE_PREFIX@ + "p"@ + pass + "of"@ + total + "_f"@ + index + "_s"@ + seed
        + TEST_FILE_SUFFIX@
}

/// The name of the test file with the given numbers.
pub open spec fn test_file_name(pass: nat, total: nat, index: nat, seed: nat) -> Seq<char> {
    assembled(
        text::padded_decimal(pass, 3),
        text::padded_decimal(total, 3),
        text::padded_decimal(index, 5),
        text::decimal(seed),
    )
}

/// A text that denotes a 32-bit number.
pub open spec fn denotes(s: Seq<char>, n: u32) -> bool {
    text::number(s, u32::MAX as nat) == Some(n as nat)
}

/// The name is that of a test file with the given numbers, whatever leading
/// zeros or plus signs the numbers are written with.
pub open spec fn names(name: Seq<char>, pass: u32, total: u32, index: u32, seed: u64) -> bool {
    exists|a: Seq<char>, b: Seq<char>, c: Seq<char>, d: Seq<char>| #[trigger]
        assembled(a, b, c, d) == name && denotes(a, pass) && denotes(b, total) && denotes(c, index)
            && text::number(d, u64::MAX as nat) == Some(seed as nat)
}

/// The name is that of a test file.
pub open spec fn is_test_file_name(name: Seq<char>) -> bool {
    exists|pass: u32, total: u32, index: u32, seed: u64|
        #[trigger] names(name, pass, total, index, seed)
}

/// The name of a test file.
pub fn make_test_file_name(pass: u32, total_passes: u32, index: u32, seed: u64) -> (name: String)
    ensures
        name@ == test_file_name(pass as nat, total_passes as nat, index as nat, seed as nat),
{
    let mut name = TEST_FILE_PREFIX.to_owned();
    name.append("p");
    text::push_padded_decimal(&mut name, pass as u64, 3);
    name.append("of");
    text::push_padded_decimal(&mut name, total_passes as u64, 3);
    name.append("_f");
    text::push_padded_decimal(&mut name, index as u64, 5);
    name.append("_s");
    text::push_decimal(&mut name, seed);
    name.append(TEST_FILE_SUFFIX);
    name
}

/// A text of digits, behind a plus sign or not, holds neither an underscore
/// nor an `o`.
proof fn lemma_number_chars(s: Seq<char>, max: nat)
    requires
        text::number(s, max) is Some,
    ensures
        forall|i: int| 0 <= i < s.len() ==> #[trigger] s[i] != '_' && s[i] != 'o',
{
    let digits = text::unsigned_digits(s);
    assert forall|i: int| 0 <= i < s.len() implies #[trigger] s[i] != '_' && s[i] != 'o' by {
        if s[0] == '+' {
            if i > 0 {
                assert(s[i] == digits[i - 1]);
            }
        } else {
            assert(s[i] == digits[i]);
        }
    }
}

/// Where the parts of an assembled name stand.
proof fn lemma_layout(name: Seq<char>, a: Seq<char>, b: Seq<char>, c: Seq<char>, d: Seq<char>)
    requires
        name == assembled(a, b, c, d),
        forall|i: int| 0 <= i < a.len() ==> #[trigger] a[i] != '_' && a[i] != 'o',
        forall|i: int| 0 <= i < b.len() ==> #[trigger] b[i] != '_' && b[i] != 'o',
        forall|i: int| 0 <= i < c.len() ==> #[trigger] c[i] != '_' && c[i] != 'o',
    ensures
        name.len() == 22 + a.len() + b.len() + c.len() + d.len(),
        text::has_prefix(name, TEST_FILE_PREFIX@),
        text::has_suffix(name, TEST_FILE_SUFFIX@),
        ({
            let stem = name.subrange(11, name.len() - 4);
            let k = text::find(stem, '_');
            let rest = stem.skip(k + 1);
            let m = text::find(rest, '_');
            let first = stem.take(k);
            let o = text::find(first.skip(1), 'o');
            &&& k == 3 + a.len() + b.len()
            &&& m == 1 + c.len()
            &&& o == a.len()
            &&& stem.len() == 7 + a.len() + b.len() + c.len() + d.len()
            &&& stem[0] == 'p'
            &&& stem[o + 2] == 'f'
            &&& rest[0] == 'f'
            &&& rest[m + 1] == 's'
            &&& stem.subrange(1, 1 + o) == a
            &&& stem.subrange(o + 3, k) == b
            &&& rest.subrange(1, m) == c
            &&& rest.subrange(m + 2, rest.len() as int) == d
        }),
{
    reveal_strlit("urwtest_rs_");
    reveal_strlit("p");
    reveal_strlit("of");
    reveal_strlit("_f");
    reveal_strlit("_s");
    reveal_strlit(".bin");
    assert(name.take(11) =~= TEST_FILE_PREFIX@);
    assert(name.skip(name.len() - 4) =~= TEST_FILE_SUFFIX@);
    let stem = name.subrange(11, name.len() - 4);
    assert(stem =~= "p"@ + a + "of"@ + b + "_f"@ + c + "_s"@ + d);
    let k = 3 + a.len() + b.len() as int;
    assert(stem[k] == '_');
    assert forall|i: int| 0 <= i < k implies #[trigger] stem[i] != '_' by {
        if i == 0 {
        } else if i < 1 + a.len() {
            assert(stem[i] == a[i - 1]);
        } else if i < 3 + a.len() {
        } else {
            assert(stem[i] == b[i - 3 - a.len()]);
        }
    }
    text::lemma_find_is(stem, '_', k);
    let rest = stem.skip(k + 1);
    assert(rest =~= "f"@ + c + "_s"@ + d) by {
        reveal_strlit("f");
    }
    let m = 1 + c.len() as int;
    assert(rest[m] == '_');
    assert forall|i: int| 0 <= i < m implies #[trigger] rest[i] != '_' by {
        if i > 0 {
            assert(rest[i] == c[i - 1]);
        } else {
            assert(rest[0] == stem[k + 1]);
        }
    }
    text::lemma_find_is(rest, '_', m);
    let first = stem.take(k);
    let tail = first.skip(1);
    let o = a.len() as int;
    assert(tail[o] == stem[o + 1]);
    assert forall|i: int| 0 <= i < o implies #[trigger] tail[i] != 'o' by {
        assert(tail[i] == stem[i + 1]);
        assert(stem[i + 1] == a[i]);
    }
    text::lemma_find_is(tail, 'o', o);
    assert(stem.subrange(1, 1 + o) =~= a);
    assert(stem.subrange(o + 3, k) =~= b);
    assert(rest.subrange(1, m) =~= c);
    assert(rest.subrange(m + 2, rest.len() as int) =~= d);
}

/// The texts of the four numbers in a name, if it has the shape of a test
/// file's name.
spec fn number_texts(name: Seq<char>) -> Option<(Seq<char>, Seq<char>, Seq<char>, Seq<char>)> {
    let stem = name.subrange(11, name.len() - 4);
    let k = text::find(stem, '_');
    let rest = stem.skip(k + 1);
    let m = text::find(rest, '_');
    let o = text::find(stem.take(k).skip(1), 'o');
    if name.len() >= 22 && text::has_prefix(name, TEST_FILE_PREFIX@) && text::has_suffix(
        name,
        TEST_FILE_SUFFIX@,
    ) && 1 <= k < stem.len() && stem[0] == 'p' && 1 <= m < rest.len() && rest[0] == 'f'
        && rest.len() - m >= 2 && rest[m + 1] == 's' && k - 1 - o >= 2 && stem[o + 2] == 'f' {
        Some(
            (
                stem.subrange(1, 1 + o),
                stem.subrange(o + 3, k),
                rest.subrange(1, m),
                rest.subrange(m + 2, rest.len() as int),
            ),
        )
    } else {
        None
    }
}

proof fn lemma_number_texts(name: Seq<char>)
    requires
        number_texts(name) is Some,
    ensures
        ({
            let t = number_texts(name)->0;
            assembled(t.0, t.1, t.2, t.3) == name
        }),
{
    reveal_strlit("urwtest_rs_");
    reveal_strlit("p");
    reveal_strlit("of");
    reveal_strlit("_f");
    reveal_strlit("_s");
    reveal_strlit("f");
    reveal_strlit(".bin");
    let stem = name.subrange(11, name.len() - 4);
    let k = text::find(stem, '_');
    let rest = stem.skip(k + 1);
    let m = text::find(rest, '_');
    let tail = stem.take(k).skip(1);
    let o = text::find(tail, 'o');
    let (a, b, c, d) = number_texts(name)->0;
    text::lemma_find(stem, '_');
    text::lemma_find(rest, '_');
    text::lemma_find(tail, 'o');
    assert(tail[o] == stem[o + 1]);
    assert(rest =~= "f"@ + c + "_s"@ + d);
    assert(stem.take(k) =~= "p"@ + a + "of"@ + b);
    assert(stem =~= stem.take(k) + "_"@ + rest) by {
        reveal_strlit("_");
    }
    assert(name =~= TEST_FILE_PREFIX@ + stem + TEST_FILE_SUFFIX@) by {
        assert(name.take(11) =~= TEST_FILE_PREFIX@);
        assert(name.skip(name.len() - 4) =~= TEST_FILE_SUFFIX@);
    }
    assert("_"@ + "f"@ =~= "_f"@) by {
        reveal_strlit("_");
    }
    assert(stem =~= "p"@ + a + "of"@ + b + "_f"@ + c + "_s"@ + d);
    assert(assembled(a, b, c, d) =~= name);
}

/// The name of a test file has its shape, and the texts in it denote its
/// numbers.
proof fn lemma_names_shape(name: Seq<char>, pass: u32, total: u32, index: u32, seed: u64)
    requires
        names(name, pass, total, index, seed),
    ensures
        number_texts(name) is Some,
        ({
            let t = number_texts(name)->0;
            denotes(t.0, pass) && denotes(t.1, total) && denotes(t.2, index) && text::number(
                t.3,
                u64::MAX as nat,
            ) == Some(seed as nat)
        }),
{
    let (a, b, c, d) = choose|a: Seq<char>, b: Seq<char>, c: Seq<char>, d: Seq<char>| #[trigger]
        assembled(a, b, c, d) == name && denotes(a, pass) && denotes(b, total) && denotes(c, index)
            && text::number(d, u64::MAX as nat) == Some(seed as nat);
    lemma_number_chars(a, u32::MAX as nat);
    lemma_number_chars(b, u32::MAX as nat);
    lemma_number_chars(c, u32::MAX as nat);
    lemma_layout(name, a, b, c, d);
}

/// Cuts a test file's name into the texts of its four numbers.
fn cut_name(chars: &[char]) -> (parts: Option<(Vec<char>, Vec<char>, Vec<char>, Vec<char>)>)
    ensures
        parts is Some <==> number_texts(chars@) is Some,
        parts is Some ==> ({
            let p = parts->0;
            number_texts(chars@)->0 == (p.0@, p.1@, p.2@, p.3@)
        }),
{
    if chars.len() < 22 || !text::starts_with(chars, TEST_FILE_PREFIX) || !text::ends_with(
        chars,
        TEST_FILE_SUFFIX,
    ) {
        return None;
    }
    let stem = &chars[11..chars.len() - 4];
    let k: usize = text::find_char(stem, '_');
    if k == 0 || k == stem.len() || stem[0] != 'p' {
        return None;
    }
    let rest = &stem[k + 1..stem.len()];
    assert(rest@ =~= stem@.skip(k + 1));
    let m: usize = text::find_char(rest, '_');
    if m == 0 || m == rest.len() || rest[0] != 'f' {
        return None;
    }
    if rest.len() - m < 2 || rest[m + 1] != 's' {
        return None;
    }
    let tail = &stem[1..k];
    assert(tail@ =~= stem@.take(k as int).skip(1));
    let o: usize = text::find_char(tail, 'o');
    if tail.len() - o < 2 || stem[o + 2] != 'f' {
        return None;
    }
    Some(
        (
            text::part(stem, 1, 1 + o),
            text::part(stem, o + 3, k),
            text::part(rest, 1, m),
            text::part(rest, m + 2, rest.len()),
        ),
    )
}

/// Reads the numbers out of a test file's name; other names are ignored.
pub fn parse_test_file_name(name: &str) -> (file: Option<TestFile>)
    ensures
        match file {
            Some(file) => {
                &&& names(name@, file.pass, file.total_passes, file.index, file.seed)
                &&& file.name@ == name@
                &&& file.actual_size == 0
            },
            None => !is_test_file_name(name@),
        },
{
    let chars = text::chars_of(name);
    let parts = cut_name(chars.as_slice());
    proof {
        assert forall|pass: u32, total: u32, index: u32, seed: u64| #[trigger]
            names(name@, pass, total, index, seed) implies {
            &&& number_texts(name@) is Some
            &&& denotes((number_texts(name@)->0).0, pass)
            &&& denotes((number_texts(name@)->0).1, total)
            &&& denotes((number_texts(name@)->0).2, index)
            &&& text::number((number_texts(name@)->0).3, u64::MAX as nat) is Some
        } by {
            lemma_names_shape(name@, pass, total, index, seed);
        }
    }
    let (a, b, c, d) = match parts {
        Some(parts) => parts,
        None => {
            return None;
        },
    };
    let pass = text::parse_number(a.as_slice(), u32::MAX as u64);
    let total = text::parse_number(b.as_slice(), u32::MAX as u64);
    let index = text::parse_number(c.as_slice(), u32::MAX as u64);
    let seed = text::parse_number(d.as_slice(), u64::MAX);
    match (pass, total, index, seed) {
        (Some(pass), Some(total), Some(index), Some(seed)) => {
            proof {
                lemma_number_texts(name@);
                assert(assembled(a@, b@, c@, d@) == name@);
                assert(names(name@, pass as u32, total as u32, index as u32, seed));
            }
            Some(
                TestFile {
                    name: name.to_owned(),
                    pass: pass as u32,
                    total_passes: total as u32,
                    index: index as u32,
                    seed,
                    actual_size: 0,
                },
            )
        },
        _ => None,
    }
}

/// A name is that of at most one test file: the numbers in it are determined.
pub proof fn names_is_functional(
    name: Seq<char>,
    pass: u32,
    total: u32,
    index: u32,
    seed: u64,
    pass2: u32,
    total2: u32,
    index2: u32,
    seed2: u64,
)
    requires
        names(name, pass, total, index, seed),
        names(name, pass2, total2, index2, seed2),
    ensures
        pass == pass2 && total == total2 && index == index2 && seed == seed2,
{
    lemma_names_shape(name, pass, total, index, seed);
    lemma_names_shape(name, pass2, total2, index2, seed2);
}

/// What a test file's name was made of can be read out of it again.
pub proof fn test_file_names_round_trip(pass: u32, total: u32, index: u32, seed: u64)
    ensures
        names(
            test_file_name(pass as nat, total as nat, index as nat, seed as nat),
            pass,
            total,
            index,
            seed,
        ),
{
    text::padded_decimal_reads_back(pass as nat, 3, u32::MAX as nat);
    text::padded_decimal_reads_back(total as nat, 3, u32::MAX as nat);
    text::padded_decimal_reads_back(index as nat, 5, u32::MAX as nat);
    text::padded_decimal_reads_back(seed as nat, 0, u64::MAX as nat);
    assert(text::padded_decimal(seed as nat, 0) =~= text::decimal(seed as nat));
    assert(assembled(
        text::padded_decimal(pass as nat, 3),
        text::padded_decimal(total as nat, 3),
        text::padded_decimal(index as nat, 5),
        text::decimal(seed as nat),
    ) == test_file_name(pass as nat, total as nat, index as nat, seed as nat));
}

impl Keyed for TestFile {
    open spec fn key(&self) -> Seq<u32> {
        seq![self.pass, self.index]
    }

    fn sort_key(&self) -> Vec<u32> {
        let mut key: Vec<u32> = Vec::new();
        key.push(self.pass);
        key.push(self.index);
        assert(key@ =~= self.key());
        key
    }
}

/// An entry of the target directory. `name` is missing if it is not valid
/// Unicode.
#[derive(Debug)]
pub struct DirectoryEntry {
    pub name: Option<String>,
    pub is_file: bool,
    pub size: u64,
}

impl DirectoryEntry {
    /// The entry is a file with the name of a test file.
    pub open spec fn is_test_file(self) -> bool {
        self.is_file && self.name is Some && is_test_file_name(self.name->0@)
    }

    /// The test file that the entry is.
    pub fn test_file(&self) -> (file: Option<TestFile>)
        ensures
            match file {
                Some(file) => self.is_test_file() && describes(file, *self),
                None => !self.is_test_file(),
            },
    {
        if !self.is_file {
            return None;
        }
        match &self.name {
            Some(name) => match parse_test_file_name(name.as_str()) {
                Some(mut file) => {
                    file.actual_size = self.size;
                    Some(file)
                },
                None => None,
            },
            None => None,
        }
    }
}

/// The test file has the numbers in an entry's name, and its size.
pub open spec fn describes(file: TestFile, entry: DirectoryEntry) -> bool {
    &&& entry.name is Some
    &&& file.name@ == entry.name->0@
    &&& names(file.name@, file.pass, file.total_passes, file.index, file.seed)
    &&& file.actual_size == entry.size
}

/// The test files among directory entries, in order.
pub open spec fn test_entries(entries: Seq<DirectoryEntry>) -> Seq<DirectoryEntry> {
    entries.filter(|entry: DirectoryEntry| entry.is_test_file())
}

/// Each file is described by the entry at its place.
pub open spec fn all_describe(files: Seq<TestFile>, entries: Seq<DirectoryEntry>) -> bool {
    &&& files.len() == entries.len()
    &&& forall|i: int| 0 <= i < files.len() ==> describes(#[trigger] files[i], entries[i])
}

proof fn lemma_test_entries_step(entries: Seq<DirectoryEntry>, i: int)
    requires
        0 <= i < entries.len(),
    ensures
        test_entries(entries.take(i + 1)) == if entries[i].is_test_file() {
            test_entries(entries.take(i)).push(entries[i])
        } else {
            test_entries(entries.take(i))
        },
{
    reveal(Seq::filter);
    assert(entries.take(i + 1).drop_last() =~= entries.take(i));
}

/// The test files in the target directory, by pass and index.
pub fn scan_test_files(entries: &[DirectoryEntry]) -> (files: Vec<TestFile>)
    ensures
        exists|found: Seq<TestFile>| #[trigger]
            all_describe(found, test_entries(entries@)) && ordering::stably_sorted(found, files@),
{
    let mut found: Vec<TestFile> = Vec::new();
    let mut i: usize = 0;
    proof {
        reveal(Seq::filter);
        assert(entries@.take(0) =~= Seq::<DirectoryEntry>::empty());
    }
    while i < entries.len()
        invariant
            i <= entries@.len(),
            all_describe(found@, test_entries(entries@.take(i as int))),
        decreases entries@.len() - i,
    {
        let ghost before = found@;
        proof {
            lemma_test_entries_step(entries@, i as int);
        }
        let file = entries[i].test_file();
        if let Some(file) = file {
            found.push(file);
            let ghost after = test_entries(entries@.take(i + 1));
            assert forall|k: int| 0 <= k < found@.len() implies describes(
                #[trigger] found@[k],
                after[k],
            ) by {
                if k < before.len() {
                    assert(found@[k] == before[k]);
                }
            }
        }
        i += 1;
    }
    assert(entries@.take(i as int) =~= entries@);
    let ghost all = found@;
    let files = ordering::stable_sort(found);
    assert(all_describe(all, test_entries(entries@)));
    files
}

/// The names of directory entries.
pub open spec fn entry_names(entries: Seq<DirectoryEntry>) -> Seq<Seq<char>> {
    entries.map_values(|entry: DirectoryEntry| entry.name->0@)
}

/// The names of the files to remove from the target directory: those of the
/// test files and no others.
pub fn remove_test_files(entries: &[DirectoryEntry]) -> (doomed: Vec<String>)
    ensures
        text::string_texts(doomed@) == entry_names(test_entries(entries@)),
{
    let mut doomed: Vec<String> = Vec::new();
    let mut i: usize = 0;
    proof {
        reveal(Seq::filter);
        assert(entries@.take(0) =~= Seq::<DirectoryEntry>::empty());
        assert(text::string_texts(doomed@) =~= entry_names(test_entries(entries@.take(0))));
    }
    while i < entries.len()
        invariant
            i <= entries@.len(),
            text::string_texts(doomed@) == entry_names(test_entries(entries@.take(i as int))),
        decreases entries@.len() - i,
    {
        proof {
            lemma_test_entries_step(entries@, i as int);
        }
        let ghost before = doomed@;
        let file = entries[i].test_file();
        if let Some(file) = file {
            doomed.push(file.name);
            assert(text::string_texts(doomed@) =~= text::string_texts(before).push(entries@[i as int].name->0@));
            assert(entry_names(test_entries(entries@.take(i + 1))) =~= entry_names(
                test_entries(entries@.take(i as int)),
            ).push(entries@[i as int].name->0@));
        }
        i += 1;
    }
    assert(entries@.take(i as int) =~= entries@);
    doomed
}

/// Only test files are removed: what is not a regular file, or has another name,
/// stays.
pub proof fn only_test_files_are_removed(
    entries: Seq<DirectoryEntry>,
    doomed: Seq<String>,
    i: int,
)
    requires
        text::string_texts(doomed) == entry_names(test_entries(entries)),
        0 <= i < doomed.len(),
    ensures
        exists|j: int|
            0 <= j < entries.len() && (#[trigger] entries[j]).is_test_file()
                && entries[j].name->0@ == doomed[i]@,
{
    let pred = |entry: DirectoryEntry| entry.is_test_file();
    let kept = test_entries(entries);
    assert(kept == entries.filter(pred));
    assert(text::string_texts(doomed).len() == doomed.len());
    assert(entry_names(kept).len() == kept.len());
    assert(text::string_texts(doomed)[i] == doomed[i]@);
    assert(entry_names(kept)[i] == kept[i].name->0@);
    assert(kept.contains(kept[i]));
    entries.lemma_filter_pred(pred, i);
    entries.lemma_filter_contains_rev(pred, kept[i]);
}

/// All test files are removed.
pub proof fn all_test_files_are_removed(entries: Seq<DirectoryEntry>, doomed: Seq<String>, j: int)
    requires
        text::string_texts(doomed) == entry_names(test_entries(entries)),
        0 <= j < entries.len(),
        entries[j].is_test_file(),
    ensures
        exists|i: int| 0 <= i < doomed.len() && (#[trigger] doomed[i])@ == entries[j].name->0@,
{
    let pred = |entry: DirectoryEntry| entry.is_test_file();
    let kept = test_entries(entries);
    assert(kept == entries.filter(pred));
    assert(text::string_texts(doomed).len() == doomed.len());
    assert(entry_names(kept).len() == kept.len());
    entries.lemma_filter_contains(pred, j);
    let i = kept.index_of(entries[j]);
    assert(text::string_texts(doomed)[i] == doomed[i]@);
    assert(entry_names(kept)[i] == kept[i].name->0@);
}

/// A test file on a volume is found again as it was written: a scan gives it
/// its pass, its number and its seed back, with the size that it has.
pub proof fn written_files_are_found_again(
    written: TestFile,
    entry: DirectoryEntry,
    found: TestFile,
)
    requires
        names(
            written.name@,
            written.pass,
            written.total_passes,
            written.index,
            written.seed,
        ),
        entry.name is Some,
        entry.name->0@ == written.name@,
        entry.is_file,
        describes(found, entry),
    ensures
        entry.is_test_file(),
        found.name@ == written.name@,
        found.pass == written.pass,
        found.total_passes == written.total_passes,
        found.index == written.index,
        found.seed == written.seed,
        found.actual_size == entry.size,
{
    names_is_functional(
        written.name@,
        written.pass,
        written.total_passes,
        written.index,
        written.seed,
        found.pass,
        found.total_passes,
        found.index,
        found.seed,
    );
}

/// How far a test has come.
#[derive(Debug, Clone, Copy, PartialEq, Eq, Structural)]
pub enum StateStatus {
    Writing,
    PendingVerify,
    Verifying,
    PassComplete,
    Completed,
    Failed,
}

impl StateStatus {
    /// The name of the status.
    pub open spec fn text(self) -> Seq<char> {
        match self {
            StateStatus::Writing => "Writing"@,
            StateStatus::PendingVerify => "PendingVerify"@,
            StateStatus::Verifying => "Verifying"@,
            StateStatus::PassComplete => "PassComplete"@,
            StateStatus::Completed => "Completed"@,
            StateStatus::Failed => "Failed"@,
        }
    }

    /// The name of the status, for display.
    pub fn name(self) -> (name: &'static str)
        ensures
            name@ == self.text(),
    {
        match self {
            StateStatus::Writing => "Writing",
            StateStatus::PendingVerify => "PendingVerify",
            StateStatus::Verifying => "Verifying",
            StateStatus::PassComplete => "PassComplete",
            StateStatus::Completed => "Completed",
            StateStatus::Failed => "Failed",
        }
    }
}

/// The persisted state of a test of a volume.
#[derive(Debug)]
pub struct TestState {
    pub version: u32,
    pub target: String,
    pub volume_key: String,
    pub volume_fs: String,
    pub volume_label: Option<String>,
    pub volume_device: Option<String>,
    pub volume_total_bytes: u64,
    pub created_unix: u64,
    pub updated_unix: u64,
    pub total_passes: u32,
    pub completed_passes: u32,
    pub current_pass: u32,
    pub status: StateStatus,
    pub stop_on_fail: bool,
    pub cleanup: CleanupMode,
    pub expected_total: u64,
    pub actual_total: u64,
    pub capacity_ok: bool,
    pub last_error: Option<String>,
    /// The files of the current pass, once they are written.
    pub files: Vec<FileRecord>,
}

impl Clone for TestState {
    fn clone(&self) -> (copy: Self)
        ensures
            copy.files@ == self.files@,
            copy == (TestState { files: copy.files, ..*self }),
    {
        TestState {
            version: self.version,
            target: self.target.clone(),
            volume_key: self.volume_key.clone(),
            volume_fs: self.volume_fs.clone(),
            volume_label: copy_text(&self.volume_label),
            volume_device: copy_text(&self.volume_device),
            volume_total_bytes: self.volume_total_bytes,
            created_unix: self.created_unix,
            updated_unix: self.updated_unix,
            total_passes: self.total_passes,
            completed_passes: self.completed_passes,
            current_pass: self.current_pass,
            status: self.status,
            stop_on_fail: self.stop_on_fail,
            cleanup: self.cleanup,
            expected_total: self.expected_total,
            actual_total: self.actual_total,
            capacity_ok: self.capacity_ok,
            last_error: copy_text(&self.last_error),
            files: copy_records(&self.files),
        }
    }
}

/// The larger of a number of passes and one.
pub open spec fn at_least_one(passes: u32) -> u32 {
    if passes < 1 {
        1
    } else {
        passes
    }
}

/// The state is that of a test of the volume that was set up at a time and has
/// met no error.
pub open spec fn is_set_up(
    state: TestState,
    volume: VolumeInfo,
    total_passes: u32,
    stop_on_fail: bool,
    cleanup: CleanupMode,
    now: u64,
) -> bool {
    &&& state.version == STATE_VERSION
    &&& state.target@ == volume.mount_point@
    &&& state.volume_key@ == key_text(volume)
    &&& state.volume_fs == volume.fs
    &&& state.volume_label == volume.label
    &&& state.volume_device == volume.device
    &&& state.volume_total_bytes == volume.total_bytes
    &&& state.created_unix == now
    &&& state.updated_unix == now
    &&& state.total_passes == at_least_one(total_passes)
    &&& state.stop_on_fail == stop_on_fail
    &&& state.cleanup == cleanup
    &&& state.capacity_ok
    &&& state.last_error is None
}

/// The state is that of a test of the volume on which nothing has been done.
pub open spec fn is_fresh(
    state: TestState,
    volume: VolumeInfo,
    total_passes: u32,
    stop_on_fail: bool,
    cleanup: CleanupMode,
    now: u64,
) -> bool {
    &&& is_set_up(state, volume, total_passes, stop_on_fail, cleanup, now)
    &&& state.completed_passes == 0
    &&& state.current_pass == 1
    &&& state.status == StateStatus::Writing
    &&& state.expected_total == 0
    &&& state.actual_total == 0
    &&& state.files@ == Seq::<FileRecord>::empty()
}

impl TestState {
    /// The state of a test on which nothing has been done, at the time `now` in
    /// seconds since the Unix epoch.
    pub fn new(
        volume: &VolumeInfo,
        total_passes: u32,
        stop_on_fail: bool,
        cleanup: CleanupMode,
        now: u64,
    ) -> (state: Self)
        ensures
            is_fresh(state, *volume, total_passes, stop_on_fail, cleanup, now),
    {
        TestState {
            version: STATE_VERSION,
            target: volume.mount_point.clone(),
            volume_key: volume_key(volume),
            volume_fs: volume.fs.clone(),
            volume_label: copy_text(&volume.label),
            volume_device: copy_text(&volume.device),
            volume_total_bytes: volume.total_bytes,
            created_unix: now,
            updated_unix: now,
            total_passes: if total_passes < 1 {
                1
            } else {
                total_passes
            },
            completed_passes: 0,
            current_pass: 1,
            status: StateStatus::Writing,
            stop_on_fail,
            cleanup,
            expected_total: 0,
            actual_total: 0,
            capacity_ok: true,
            last_error: None,
            files: Vec::new(),
        }
    }

    /// Records that the state changed at the time `now`.
    pub fn touch(&mut self, now: u64)
        ensures
            *final(self) == (TestState { updated_unix: now, ..*old(self) }),
    {
        self.updated_unix = now;
    }
}

/// The FNV-1a hash of bytes.
pub open spec fn fnv1a(bytes: Seq<u8>) -> u64
    decreases bytes.len(),
{
    if bytes.len() == 0 {
        0xcbf29ce484222325
    } else {
        (((fnv1a(bytes.drop_last()) ^ (bytes.last() as u64)) * 0x100000001b3) % 0x1_0000_0000_0000_0000)
            as u64
    }
}

/// Computes the FNV-1a hash of bytes.
pub fn fnv1a_hash(bytes: &[u8]) -> (hash: u64)
    ensures
        hash == fnv1a(bytes@),
{
    let mut hash: u64 = 0xcbf29ce484222325;
    let mut i: usize = 0;
    while i < bytes.len()
        invariant
            i <= bytes@.len(),
            hash == fnv1a(bytes@.take(i as int)),
        decreases bytes@.len() - i,
    {
        assert(bytes@.take(i + 1).drop_last() =~= bytes@.take(i as int));
        hash = (hash ^ (bytes[i] as u64)).wrapping_mul(0x100000001b3);
        i += 1;
    }
    assert(bytes@.take(i as int) =~= bytes@);
    hash
}

/// The FNV-1a hash of bytes as sixteen hexadecimal digits.
pub fn fnv1a_hex(bytes: &[u8]) -> (digits: String)
    ensures
        digits@ == text::hex(fnv1a(bytes@) as nat, 16),
{
    text::hex_string(fnv1a_hash(bytes))
}

/// What a volume is recognized by: its file system and size, and its label, or
/// else its device, or else its mount point.
pub open spec fn key_material(volume: VolumeInfo) -> Seq<char> {
    volume.fs@ + "|"@ + text::decimal(volume.total_bytes as nat) + "|"@ + if volume.label is Some
        && volume.label->0@.len() > 0 {
        "label:"@ + volume.label->0@
    } else if volume.device is Some {
        "device:"@ + volume.device->0@
    } else {
        "mount:"@ + volume.mount_point@
    }
}

/// The key that a volume's state is kept under.
pub open spec fn key_text(volume: VolumeInfo) -> Seq<char> {
    text::hex(fnv1a(utf8::encode_utf8(key_material(volume))) as nat, 16)
}

/// The key that a volume's state is kept under.
pub fn volume_key(volume: &VolumeInfo) -> (key: String)
    ensures
        key@ == key_text(*volume),
{
    let mut material = volume.fs.clone();
    material.append("|");
    text::push_decimal(&mut material, volume.total_bytes);
    material.append("|");
    let ghost base = material@;
    let labelled: bool = match &volume.label {
        Some(label) => !label.as_str().is_empty(),
        None => false,
    };
    if labelled {
        material.append("label:");
        if let Some(label) = &volume.label {
            material.append(label.as_str());
        }
    } else if let Some(device) = &volume.device {
        material.append("device:");
        material.append(device.as_str());
    } else {
        material.append("mount:");
        material.append(volume.mount_point.as_str());
    }
    assert(material@ =~= key_material(*volume));
    fnv1a_hex(material.as_str().as_bytes())
}

/// The state may be that of the volume: file system and size agree, and so do
/// the labels and the devices as far as both are known.
pub open spec fn belongs_to(state: TestState, volume: VolumeInfo) -> bool {
    &&& state.volume_fs@ == volume.fs@
    &&& state.volume_total_bytes == volume.total_bytes
    &&& state.volume_label is Some && volume.label is Some ==> state.volume_label->0@
        == volume.label->0@
    &&& state.volume_device is Some && volume.device is Some ==> state.volume_device->0@
        == volume.device->0@
}

fn agree(left: &Option<String>, right: &Option<String>) -> (result: bool)
    ensures
        result == (*left is Some && *right is Some ==> left->0@ == right->0@),
{
    match (left, right) {
        (Some(left), Some(right)) => text::same_text(left.as_str(), right.as_str()),
        _ => true,
    }
}

/// Tells whether a state may be that of a volume.
pub fn same_volume(state: &TestState, volume: &VolumeInfo) -> (result: bool)
    ensures
        result == belongs_to(*state, *volume),
{
    if !text::same_text(state.volume_fs.as_str(), volume.fs.as_str()) || state.volume_total_bytes
        != volume.total_bytes {
        return false;
    }
    agree(&state.volume_label, &volume.label) && agree(&state.volume_device, &volume.device)
}

/// `i` is the first state that may be the volume's.
pub open spec fn first_match(states: Seq<TestState>, volume: VolumeInfo, i: int) -> bool {
    &&& 0 <= i < states.len()
    &&& belongs_to(states[i], volume)
    &&& forall|j: int| 0 <= j < i ==> !belongs_to(#[trigger] states[j], volume)
}

/// The first of the stored states that may be the volume's.
pub fn find_matching_state(states: Vec<TestState>, volume: &VolumeInfo) -> (found: Option<
    TestState,
>)
    ensures
        match found {
            Some(state) => exists|i: int| #[trigger]
                first_match(states@, *volume, i) && state == states@[i],
            None => forall|j: int|
                0 <= j < states@.len() ==> !belongs_to(#[trigger] states@[j], *volume),
        },
{
    let mut i: usize = 0;
    while i < states.len()
        invariant
            i <= states@.len(),
            forall|j: int| 0 <= j < i ==> !belongs_to(#[trigger] states@[j], *volume),
        decreases states@.len() - i,
    {
        if same_volume(&states[i], volume) {
            assert(first_match(states@, *volume, i as int));
            let mut states = states;
            return Some(states.remove(i));
        }
        i += 1;
    }
    None
}

/// The state of a volume's test: the one stored under the volume's key, or else
/// the first other stored one that may be the volume's.
pub fn load_state(volume: &VolumeInfo, own: Option<TestState>, others: Vec<TestState>) -> (state:
    Option<TestState>)
    ensures
        match (own, state) {
            (Some(own), _) => state == Some(own),
            (None, Some(state)) => exists|i: int| #[trigger]
                first_match(others@, *volume, i) && state == others@[i],
            (None, None) => forall|j: int|
                0 <= j < others@.len() ==> !belongs_to(#[trigger] others@[j], *volume),
        },
{
    match own {
        Some(own) => Some(own),
        None => find_matching_state(others, volume),
    }
}

/// What the directory for states is found under.
#[derive(Debug, Clone, Copy, PartialEq, Eq, Structural)]
pub enum StateBase {
    /// The variable `APPDATA`.
    AppData,
    /// The variable `LOCALAPPDATA`.
    LocalAppData,
    /// The variable `XDG_STATE_HOME`.
    XdgStateHome,
    /// The variable `HOME`.
    Home,
    /// The directory for temporary files.
    Temporary,
}

/// Which environment variables are set.
#[derive(Debug, Clone, Copy)]
pub struct StateVariables {
    pub app_data: bool,
    pub local_app_data: bool,
    pub xdg_state_home: bool,
    pub home: bool,
}

/// Where states are kept: a directory below a base.
#[derive(Debug, Clone, Copy)]
pub struct StateDir {
    pub base: StateBase,
    pub directory: &'static str,
}

/// The base and the directory for states.
pub open spec fn state_location(windows: bool, set: StateVariables) -> (StateBase, Seq<char>) {
    if windows && set.app_data {
        (StateBase::AppData, "urwtest-rs"@)
    } else if windows && set.local_app_data {
        (StateBase::LocalAppData, "urwtest-rs"@)
    } else if !windows && set.xdg_state_home {
        (StateBase::XdgStateHome, "urwtest-rs"@)
    } else if !windows && set.home {
        (StateBase::Home, ".local/state/urwtest-rs"@)
    } else {
        (StateBase::Temporary, "urwtest-rs-state"@)
    }
}

/// Where states are kept: under the user's directories, never on a tested
/// volume.
pub fn state_dir(windows: bool, set: StateVariables) -> (dir: StateDir)
    ensures
        (dir.base, dir.directory@) == state_location(windows, set),
{
    if windows {
        if set.app_data {
            return StateDir { base: StateBase::AppData, directory: "urwtest-rs" };
        }
        if set.local_app_data {
            return StateDir { base: StateBase::LocalAppData, directory: "urwtest-rs" };
        }
    } else {
        if set.xdg_state_home {
            return StateDir { base: StateBase::XdgStateHome, directory: "urwtest-rs" };
        }
        if set.home {
            return StateDir { base: StateBase::Home, directory: ".local/state/urwtest-rs" };
        }
    }
    StateDir { base: StateBase::Temporary, directory: "urwtest-rs-state" }
}

/// The file that a volume's state is stored in.
#[derive(Debug)]
pub struct StatePath {
    pub base: StateBase,
    pub directory: &'static str,
    pub file: String,
}

/// The file that a volume's state is stored in, within the directory for
/// states.
pub fn state_path(dir: StateDir, volume: &VolumeInfo) -> (path: StatePath)
    ensures
        path.base == dir.base,
        path.directory@ == dir.directory@,
        path.file@ == key_text(*volume) + ".json"@,
{
    StatePath {
        base: dir.base,
        directory: dir.directory,
        file: volume_key(volume).concat(".json"),
    }
}

/// A file name with the extension of state files.
pub open spec fn names_state(name: Seq<char>) -> bool {
    text::has_suffix(name, ".json"@) && name.len() > ".json"@.len()
}

/// Tells whether a file in the directory for states is one by its name.
pub fn is_state_file(name: &str) -> (result: bool)
    ensures
        result == names_state(name@),
{
    proof {
        reveal_strlit(".json");
    }
    let chars = text::chars_of(name);
    text::ends_with(chars.as_slice(), ".json") && chars.len() > 5
}

/// States are stored under names that are found again.
pub proof fn stored_states_are_found(volume: VolumeInfo)
    ensures
        names_state(key_text(volume) + ".json"@),
{
    reveal_strlit(".json");
    let name = key_text(volume) + ".json"@;
    assert(key_text(volume).len() > 0);
    assert(name.skip(name.len() - 5) =~= ".json"@);
}

/// A volume with a label, or on a known device, keeps its state wherever it is
/// mounted and however full it is.
pub proof fn state_follows_the_volume(volume: VolumeInfo, moved: VolumeInfo)
    requires
        moved.fs@ == volume.fs@,
        moved.total_bytes == volume.total_bytes,
        moved.label == volume.label,
        moved.device == volume.device,
        volume.label is Some && volume.label->0@.len() > 0 || volume.device is Some,
    ensures
        key_text(moved) == key_text(volume),
{
}

/// The state of a new test is that of its volume.
pub proof fn fresh_state_belongs(
    state: TestState,
    volume: VolumeInfo,
    total_passes: u32,
    stop_on_fail: bool,
    cleanup: CleanupMode,
    now: u64,
)
    requires
        is_fresh(state, volume, total_passes, stop_on_fail, cleanup, now),
    ensures
        belongs_to(state, volume),
{
}

/// How a test file is named: its pass and the number of passes with three digits
/// at least, its number with five, and its seed, each behind its mark.
pub proof fn test_files_are_named_by_their_numbers(pass: nat, total: nat, index: nat, seed: nat)
    ensures
        test_file_name(pass, total, index, seed) == "urwtest_rs_p"@ + text::padded_decimal(pass, 3)
            + "of"@ + text::padded_decimal(total, 3) + "_f"@ + text::padded_decimal(index, 5)
            + "_s"@ + text::decimal(seed) + ".bin"@,
{
    reveal_strlit("urwtest_rs_");
    reveal_strlit("p");
    reveal_strlit("urwtest_rs_p");
    assert("urwtest_rs_"@ + "p"@ =~= "urwtest_rs_p"@);
}

/// A name is that of a test file with these numbers if it has the marks of one,
/// with texts between them that denote the numbers, however they are written.
pub proof fn names_with_the_marks_are_read(
    name: Seq<char>,
    a: Seq<char>,
    b: Seq<char>,
    c: Seq<char>,
    d: Seq<char>,
    pass: u32,
    total: u32,
    index: u32,
    seed: u64,
)
    requires
        name == "urwtest_rs_p"@ + a + "of"@ + b + "_f"@ + c + "_s"@ + d + ".bin"@,
        text::number(a, 4294967295) == Some(pass as nat),
        text::number(b, 4294967295) == Some(total as nat),
        text::number(c, 4294967295) == Some(index as nat),
        text::number(d, 18446744073709551615) == Some(seed as nat),
    ensures
        names(name, pass, total, index, seed),
        is_test_file_name(name),
{
    reveal_strlit("urwtest_rs_");
    reveal_strlit("p");
    reveal_strlit("urwtest_rs_p");
    assert("urwtest_rs_"@ + "p"@ =~= "urwtest_rs_p"@);
    assert(assembled(a, b, c, d) =~= name);
    assert(names(name, pass, total, index, seed));
}

/// The name of a test file has the marks of one, and between them texts that
/// denote its numbers.
pub proof fn test_file_names_have_the_marks(
    name: Seq<char>,
    pass: u32,
    total: u32,
    index: u32,
    seed: u64,
) -> (texts: (Seq<char>, Seq<char>, Seq<char>, Seq<char>))
    requires
        names(name, pass, total, index, seed),
    ensures
        name == "urwtest_rs_p"@ + texts.0 + "of"@ + texts.1 + "_f"@ + texts.2 + "_s"@ + texts.3
            + ".bin"@,
        text::number(texts.0, 4294967295) == Some(pass as nat),
        text::number(texts.1, 4294967295) == Some(total as nat),
        text::number(texts.2, 4294967295) == Some(index as nat),
        text::number(texts.3, 18446744073709551615) == Some(seed as nat),
{
    reveal_strlit("urwtest_rs_");
    reveal_strlit("p");
    reveal_strlit("urwtest_rs_p");
    assert("urwtest_rs_"@ + "p"@ =~= "urwtest_rs_p"@);
    choose|a: Seq<char>, b: Seq<char>, c: Seq<char>, d: Seq<char>| #[trigger]
        assembled(a, b, c, d) == name && denotes(a, pass) && denotes(b, total) && denotes(c, index)
            && text::number(d, u64::MAX as nat) == Some(seed as nat)
}

/// What is removed is a regular file whose name begins and ends like a test
/// file's.
pub proof fn removed_files_have_the_marks(entries: Seq<DirectoryEntry>, doomed: Seq<String>, i: int)
    requires
        text::string_texts(doomed) == entry_names(test_entries(entries)),
        0 <= i < doomed.len(),
    ensures
        text::has_prefix(doomed[i]@, "urwtest_rs_p"@),
        text::has_suffix(doomed[i]@, ".bin"@),
        exists|j: int|
            0 <= j < entries.len() && (#[trigger] entries[j]).is_file && entries[j].name is Some
                && entries[j].name->0@ == doomed[i]@,
{
    only_test_files_are_removed(entries, doomed, i);
    let j = choose|j: int|
        0 <= j < entries.len() && (#[trigger] entries[j]).is_test_file() && entries[j].name->0@
            == doomed[i]@;
    let name = doomed[i]@;
    let (pass, total, index, seed) = choose|pass: u32, total: u32, index: u32, seed: u64|
        #[trigger] names(name, pass, total, index, seed);
    let t = test_file_names_have_the_marks(name, pass, total, index, seed);
    let middle = t.0 + "of"@ + t.1 + "_f"@ + t.2 + "_s"@ + t.3;
    text::parts_of_texts(name, "urwtest_rs_p"@, seq![], middle + ".bin"@);
    text::parts_of_texts(name, ".bin"@, "urwtest_rs_p"@ + middle, seq![]);
    assert(name =~= "urwtest_rs_p"@ + (middle + ".bin"@));
    assert(name =~= "urwtest_rs_p"@ + middle + ".bin"@);
}

/// Every regular file that has the name of a test file, whatever its numbers are,
/// is removed.
pub proof fn every_written_file_is_removed(
    entries: Seq<DirectoryEntry>,
    doomed: Seq<String>,
    j: int,
    pass: u32,
    total: u32,
    index: u32,
    seed: u64,
)
    requires
        text::string_texts(doomed) == entry_names(test_entries(entries)),
        0 <= j < entries.len(),
        entries[j].is_file,
        entries[j].name is Some,
        entries[j].name->0@ == test_file_name(
            pass as nat,
            total as nat,
            index as nat,
            seed as nat,
        ),
    ensures
        exists|i: int| 0 <= i < doomed.len() && (#[trigger] doomed[i])@ == entries[j].name->0@,
{
    test_file_names_round_trip(pass, total, index, seed);
    assert(entries[j].is_test_file());
    all_test_files_are_removed(entries, doomed, j);
}

/// The files that are found come by pass, and those of a pass by number.
pub proof fn found_files_are_in_order(
    found: Seq<TestFile>,
    files: Seq<TestFile>,
    i: int,
    j: int,
)
    requires
        ordering::stably_sorted(found, files),
        0 <= i < j < files.len(),
    ensures
        files[i].pass < files[j].pass || (files[i].pass == files[j].pass && files[i].index
            <= files[j].index),
{
    let a = files[i].key();
    let b = files[j].key();
    assert(!ordering::precedes(b, a));
    reveal_with_fuel(ordering::precedes, 3);
    assert(a.skip(1) =~= seq![files[i].index]);
    assert(b.skip(1) =~= seq![files[j].index]);
}

/// Every regular file with the name of a test file is found, with its size.
pub proof fn every_test_file_is_found(
    entries: Seq<DirectoryEntry>,
    found: Seq<TestFile>,
    files: Seq<TestFile>,
    j: int,
    pass: u32,
    total: u32,
    index: u32,
    seed: u64,
)
    requires
        all_describe(found, test_entries(entries)),
        ordering::stably_sorted(found, files),
        0 <= j < entries.len(),
        entries[j].is_file,
        entries[j].name is Some,
        names(entries[j].name->0@, pass, total, index, seed),
    ensures
        exists|k: int|
            0 <= k < files.len() && (#[trigger] files[k]).name@ == entries[j].name->0@
                && files[k].pass == pass && files[k].total_passes == total && files[k].index
                == index && files[k].seed == seed && files[k].actual_size == entries[j].size,
{
    let pred = |entry: DirectoryEntry| entry.is_test_file();
    let kept = test_entries(entries);
    assert(kept == entries.filter(pred));
    assert(entries[j].is_test_file());
    entries.lemma_filter_contains(pred, j);
    let m = choose|m: int| 0 <= m < kept.len() && kept[m] == entries[j];
    let file = found[m];
    assert(describes(file, kept[m]));
    names_is_functional(
        file.name@,
        file.pass,
        file.total_passes,
        file.index,
        file.seed,
        pass,
        total,
        index,
        seed,
    );
    assert(found.contains(file));
    ordering::sorting_keeps_items(found, files, file);
    let k = choose|k: int| 0 <= k < files.len() && files[k] == file;
    assert(files[k].name@ == entries[j].name->0@);
}

/// A hash begins with the offset basis, and each byte is mixed in before the hash
/// is multiplied by the prime.
pub proof fn hashes_take_byte_by_byte(bytes: Seq<u8>, byte: u8)
    ensures
        fnv1a(Seq::<u8>::empty()) == 14695981039346656037,
        fnv1a(bytes.push(byte)) == ((fnv1a(bytes) ^ (byte as u64)) * 1099511628211)
            % 18446744073709551616,
{
    assert(bytes.push(byte).drop_last() =~= bytes);
}

/// The key of a volume is a hash, in sixteen hexadecimal digits, of its file
/// system and size with its label, or else its device, or else its mount point.
pub proof fn volumes_have_keys(volume: VolumeInfo)
    ensures
        key_text(volume).len() == 16,
        volume.label matches Some(label) ==> (label@.len() > 0 ==> key_text(volume) == text::hex(
            fnv1a(
                utf8::encode_utf8(
                    volume.fs@ + "|"@ + text::decimal(volume.total_bytes as nat) + "|label:"@
                        + label@,
                ),
            ) as nat,
            16,
        )),
        (volume.label is None || volume.label->0@.len() == 0) && volume.device is Some ==> key_text(
            volume,
        ) == text::hex(
            fnv1a(
                utf8::encode_utf8(
                    volume.fs@ + "|"@ + text::decimal(volume.total_bytes as nat) + "|device:"@
                        + volume.device->0@,
                ),
            ) as nat,
            16,
        ),
        (volume.label is None || volume.label->0@.len() == 0) && volume.device is None ==> key_text(
            volume,
        ) == text::hex(
            fnv1a(
                utf8::encode_utf8(
                    volume.fs@ + "|"@ + text::decimal(volume.total_bytes as nat) + "|mount:"@
                        + volume.mount_point@,
                ),
            ) as nat,
            16,
        ),
{
    reveal_strlit("|");
    reveal_strlit("label:");
    reveal_strlit("|label:");
    reveal_strlit("device:");
    reveal_strlit("|device:");
    reveal_strlit("mount:");
    reveal_strlit("|mount:");
    assert("|"@ + "label:"@ =~= "|label:"@);
    assert("|"@ + "device:"@ =~= "|device:"@);
    assert("|"@ + "mount:"@ =~= "|mount:"@);
    let base = volume.fs@ + "|"@ + text::decimal(volume.total_bytes as nat);
    let hash = fnv1a(utf8::encode_utf8(key_material(volume)));
    text::hexadecimal_digits_are_in_place(hash as nat, 16);
    if volume.label is Some && volume.label->0@.len() > 0 {
        assert(key_material(volume) =~= base + "|label:"@ + volume.label->0@);
    } else if volume.device is Some {
        assert(key_material(volume) =~= base + "|device:"@ + volume.device->0@);
    } else {
        assert(key_material(volume) =~= base + "|mount:"@ + volume.mount_point@);
    }
}

/// A labelled volume has its key whatever device it is on and wherever it is
/// mounted, and a volume on a known device wherever it is mounted.
pub proof fn keys_do_not_depend_on_the_place(a: VolumeInfo, b: VolumeInfo)
    requires
        a.fs@ == b.fs@,
        a.total_bytes == b.total_bytes,
        (a.label is Some && b.label is Some && a.label->0@.len() > 0 && a.label->0@ == b.label->0@)
            || (a.label is None && b.label is None && a.device is Some && b.device is Some
            && a.device->0@ == b.device->0@),
    ensures
        key_text(a) == key_text(b),
{
}

/// A state is not that of a volume with another file system or size, nor of one
/// whose label or device is known to be another; in every other case it may be.
pub proof fn states_are_matched(state: TestState, volume: VolumeInfo)
    ensures
        !belongs_to(state, volume) <==> {
            ||| state.volume_fs@ != volume.fs@
            ||| state.volume_total_bytes != volume.total_bytes
            ||| state.volume_label is Some && volume.label is Some && state.volume_label->0@
                != volume.label->0@
            ||| state.volume_device is Some && volume.device is Some && state.volume_device->0@
                != volume.device->0@
        },
{
}

/// A new state is of version one, on its first pass, with nothing written and
/// nothing found wrong, for at least one pass.
pub proof fn new_states_have_done_nothing(
    state: TestState,
    volume: VolumeInfo,
    total_passes: u32,
    stop_on_fail: bool,
    cleanup: CleanupMode,
    now: u64,
)
    requires
        is_fresh(state, volume, total_passes, stop_on_fail, cleanup, now),
    ensures
        state.version == 1,
        state.status == StateStatus::Writing,
        total_passes >= 1 ==> state.total_passes == total_passes,
        total_passes == 0 ==> state.total_passes == 1,
        state.completed_passes == 0,
        state.current_pass == 1,
        state.expected_total == 0,
        state.actual_total == 0,
        state.capacity_ok,
        state.last_error is None,
        state.files@.len() == 0,
        state.stop_on_fail == stop_on_fail,
        state.cleanup == cleanup,
        state.created_unix == now,
        state.updated_unix == now,
        state.target@ == volume.mount_point@,
        state.volume_fs@ == volume.fs@,
        state.volume_label == volume.label,
        state.volume_device == volume.device,
        state.volume_total_bytes == volume.total_bytes,
{
}

/// Where states are kept, by platform and by what is set: on Windows under the
/// application data, elsewhere under the state home or the home directory, and
/// under the directory for temporary files if none of these is known.
pub proof fn states_have_a_place(set: StateVariables)
    ensures
        set.app_data ==> state_location(true, set) == (StateBase::AppData, "urwtest-rs"@),
        !set.app_data && set.local_app_data ==> state_location(true, set) == (
            StateBase::LocalAppData,
            "urwtest-rs"@,
        ),
        !set.app_data && !set.local_app_data ==> state_location(true, set) == (
            StateBase::Temporary,
            "urwtest-rs-state"@,
        ),
        set.xdg_state_home ==> state_location(false, set) == (
            StateBase::XdgStateHome,
            "urwtest-rs"@,
        ),
        !set.xdg_state_home && set.home ==> state_location(false, set) == (
            StateBase::Home,
            ".local/state/urwtest-rs"@,
        ),
        !set.xdg_state_home && !set.home ==> state_location(false, set) == (
            StateBase::Temporary,
            "urwtest-rs-state"@,
        ),
{
}

/// A file is taken for a state exactly if something stands before `.json` in its
/// name.
pub proof fn state_files_end_in_json(name: Seq<char>, stem: Seq<char>)
    ensures
        stem.len() > 0 && name == stem + ".json"@ ==> names_state(name),
        names_state(name) ==> name.len() > 5 && name == name.take(name.len() - 5) + ".json"@,
{
    reveal_strlit(".json");
    text::parts_of_texts(name, ".json"@, stem, seq![]);
}

/// No two states of a test have the same name.
pub proof fn statuses_have_their_names(a: StateStatus, b: StateStatus)
    ensures
        a.text() == b.text() ==> a == b,
{
    reveal_strlit("Writing");
    reveal_strlit("PendingVerify");
    reveal_strlit("Verifying");
    reveal_strlit("PassComplete");
    reveal_strlit("Completed");
    reveal_strlit("Failed");
    assert("Writing"@.len() == 7 && "PendingVerify"@.len() == 13 && "Verifying"@.len() == 9);
    assert("PassComplete"@.len() == 12 && "Completed"@.len() == 9 && "Failed"@.len() == 6);
    assert("Verifying"@[0] == 'V' && "Completed"@[0] == 'C');
}

/// Records of which the same is known are of the same files: each with its name,
/// its numbers, its seed and its size.
pub proof fn same_facts_mean_same_files(a: Seq<FileRecord>, b: Seq<FileRecord>, i: int)
    requires
        facts_of(a) == facts_of(b),
        0 <= i < a.len(),
    ensures
        a.len() == b.len(),
        a[i].file.name@ == b[i].file.name@,
        a[i].file.pass == b[i].file.pass,
        a[i].file.total_passes == b[i].file.total_passes,
        a[i].file.index == b[i].file.index,
        a[i].file.seed == b[i].file.seed,
        a[i].file.actual_size == b[i].file.actual_size,
{
    assert(facts_of(a).len() == a.len());
    assert(facts_of(b).len() == b.len());
    let x = a[i].file;
    let y = b[i].file;
    assert(facts_of(a)[i] == (x.name@, x.pass, x.total_passes, x.index, x.seed, x.actual_size));
    assert(facts_of(b)[i] == (y.name@, y.pass, y.total_passes, y.index, y.seed, y.actual_size));
}

/// A state that is stored under the volume's own key is taken before any other.
/// Else it is the first one that may be the volume's, and there is one whenever one
/// may be.
pub proof fn own_states_go_first(
    volume: VolumeInfo,
    own: Option<TestState>,
    others: Vec<TestState>,
    state: Option<TestState>,
    i: int,
)
    requires
        call_ensures(load_state, (&volume, own, others), state),
        0 <= i < others@.len(),
    ensures
        own is Some ==> state == own,
        own is None && belongs_to(others@[i], volume) ==> state is Some,
        own is None && belongs_to(others@[i], volume) && (forall|j: int|
            0 <= j < i ==> !belongs_to(#[trigger] others@[j], volume)) ==> state == Some(
            others@[i],
        ),
        own is None && state is Some ==> belongs_to(state->0, volume),
{
    if own is None && state is Some {
        let k = choose|k: int| #[trigger]
            first_match(others@, volume, k) && state->0 == others@[k];
        if belongs_to(others@[i], volume) {
            assert(k <= i);
        }
    }
}

/// The state of a volume is stored under its key, in the directory for states.
pub proof fn states_are_stored_by_key(dir: StateDir, volume: VolumeInfo, path: StatePath)
    requires
        call_ensures(state_path, (dir, &volume), path),
    ensures
        path.base == dir.base,
        path.directory@ == dir.directory@,
        path.file@ == key_text(volume) + ".json"@,
        path.file@.len() == 21,
{
    volumes_have_keys(volume);
    reveal_strlit(".json");
}

/// The name that a test file is given is read as that of the file, with all its
/// numbers.
pub proof fn written_names_are_read(
    name: &str,
    pass: u32,
    total: u32,
    index: u32,
    seed: u64,
    file: Option<TestFile>,
)
    requires
        name@ == test_file_name(pass as nat, total as nat, index as nat, seed as nat),
        call_ensures(parse_test_file_name, (name,), file),
    ensures
        file is Some,
        file->0.name@ == name@,
        file->0.pass == pass,
        file->0.total_passes == total,
        file->0.index == index,
        file->0.seed == seed,
{
    test_file_names_round_trip(pass, total, index, seed);
    if let Some(found) = file {
        names_is_functional(
            name@,
            pass,
            total,
            index,
            seed,
            found.pass,
            found.total_passes,
            found.index,
            found.seed,
        );
    }
}

/// Two different names are not made for the same numbers, nor one name for
/// different numbers.
pub proof fn test_files_differ_by_name(a: TestFile, b: TestFile)
    requires
        a.name@ == test_file_name(
            a.pass as nat,
            a.total_passes as nat,
            a.index as nat,
            a.seed as nat,
        ),
        b.name@ == test_file_name(
            b.pass as nat,
            b.total_passes as nat,
            b.index as nat,
            b.seed as nat,
        ),
    ensures
        a.name@ == b.name@ <==> a.pass == b.pass && a.total_passes == b.total_passes && a.index
            == b.index && a.seed == b.seed,
{
    test_file_names_round_trip(a.pass, a.total_passes, a.index, a.seed);
    test_file_names_round_trip(b.pass, b.total_passes, b.index, b.seed);
    if a.name@ == b.name@ {
        names_is_functional(
            a.name@,
            a.pass,
            a.total_passes,
            a.index,
            a.seed,
            b.pass,
            b.total_passes,
            b.index,
            b.seed,
        );
    }
}

} // verus!
