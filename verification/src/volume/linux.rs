//! Linux volumes: from the mount table to the volumes that can be tested.

use super::{VolumeError, VolumeInfo, VolumeKind};
use crate::ordering::{self, Keyed};
use crate::text;
use vstd::prelude::*;
use vstd::utf8;

verus! {

/// What `String::from_utf8_lossy` makes of bytes.
pub uninterp spec fn utf8_lossy(bytes: Seq<u8>) -> Seq<char>;

/// `String::from_utf8_lossy` decodes UTF-8, with the replacement character in
/// place of what is not valid; the text is a function of the bytes alone, and
/// valid UTF-8 comes out as the text that it encodes.
#[verifier::external_body]
fn decode_lossily(bytes: &[u8]) -> (text: String)
    ensures
        text@ == utf8_lossy(bytes@),
        utf8::valid_utf8(bytes@) ==> text@ == utf8::decode_utf8(bytes@),
{
    String::from_utf8_lossy(bytes).into_owned()
}

/// An octal digit.
pub open spec fn is_octal(b: u8) -> bool {
    48 <= b <= 55
}

/// The byte that three characters name in octal: three octal digits up to 377,
/// or a plus sign and two.
pub open spec fn octal_byte(a: u8, b: u8, c: u8) -> Option<u8> {
    if !is_octal(b) || !is_octal(c) {
        None
    } else if a == 43 {
        Some(((b - 48) * 8 + (c - 48)) as u8)
    } else if 48 <= a <= 51 {
        Some(((a - 48) * 64 + (b - 48) * 8 + (c - 48)) as u8)
    } else {
        None
    }
}

/// The byte that an escape at the start of the bytes stands for: a backslash
/// and three characters that name a byte in octal.
pub open spec fn escaped_byte(bytes: Seq<u8>) -> Option<u8> {
    if bytes.len() >= 4 && bytes[0] == 92 {
        octal_byte(bytes[1], bytes[2], bytes[3])
    } else {
        None
    }
}

/// The bytes with each escape replaced by the byte that it stands for.
pub open spec fn unescaped(bytes: Seq<u8>) -> Seq<u8>
    decreases bytes.len(),
{
    if bytes.len() == 0 {
        seq![]
    } else {
        match escaped_byte(bytes) {
            Some(value) => seq![value] + unescaped(bytes.skip(4)),
            None => seq![bytes[0]] + unescaped(bytes.skip(1)),
        }
    }
}

fn read_octal(a: u8, b: u8, c: u8) -> (value: Option<u8>)
    ensures
        value == octal_byte(a, b, c),
{
    if b < 48 || b > 55 || c < 48 || c > 55 {
        None
    } else if a == 43 {
        Some((b - 48) * 8 + (c - 48))
    } else if 48 <= a && a <= 51 {
        Some((a - 48) * 64 + (b - 48) * 8 + (c - 48))
    } else {
        None
    }
}

proof fn lemma_backslash_bytes(scalar: u32)
    requires
        scalar != 92,
        utf8::is_scalar(scalar),
    ensures
        forall|i: int|
            0 <= i < utf8::encode_scalar(scalar).len() ==> #[trigger] utf8::encode_scalar(scalar)[i]
                != 92,
{
    assert(scalar <= 0x7f && scalar != 92 ==> (scalar & 0x7f) as u8 != 92) by (bit_vector);
    assert((0xC0 | ((scalar >> 6) & 0x1F) as u8) >= 0x80u8) by (bit_vector);
    assert((0xE0 | ((scalar >> 12) & 0x0F) as u8) >= 0x80u8) by (bit_vector);
    assert((0xF0 | ((scalar >> 18) & 0x7) as u8) >= 0x80u8) by (bit_vector);
    assert((0x80 | (scalar & 0x3F) as u8) >= 0x80u8) by (bit_vector);
    assert((0x80 | ((scalar >> 6) & 0x3F) as u8) >= 0x80u8) by (bit_vector);
    assert((0x80 | ((scalar >> 12) & 0x3F) as u8) >= 0x80u8) by (bit_vector);
}

proof fn lemma_no_backslash(s: Seq<char>)
    requires
        !s.contains('\\'),
    ensures
        forall|i: int|
            0 <= i < utf8::encode_utf8(s).len() ==> #[trigger] utf8::encode_utf8(s)[i] != 92,
    decreases s.len(),
{
    if s.len() > 0 {
        let c = s[0];
        let rest = s.drop_first();
        assert(s.contains(s[0]));
        utf8::char_is_scalar(c);
        utf8::char_u32_cast(c, c as u32);
        lemma_backslash_bytes(c as u32);
        assert(!rest.contains('\\')) by {
            if rest.contains('\\') {
                let i = choose|i: int| 0 <= i < rest.len() && rest[i] == '\\';
                assert(s[i + 1] == '\\');
            }
        }
        lemma_no_backslash(rest);
        let first = utf8::encode_scalar(c as u32);
        assert forall|i: int| 0 <= i < utf8::encode_utf8(s).len() implies #[trigger] utf8::encode_utf8(
            s,
        )[i] != 92 by {
            if i < first.len() {
                assert(utf8::encode_utf8(s)[i] == first[i]);
            } else {
                assert(utf8::encode_utf8(s)[i] == utf8::encode_utf8(rest)[i - first.len()]);
            }
        }
    }
}

proof fn lemma_unescaped_plain(bytes: Seq<u8>)
    requires
        forall|i: int| 0 <= i < bytes.len() ==> #[trigger] bytes[i] != 92,
    ensures
        unescaped(bytes) == bytes,
    decreases bytes.len(),
{
    if bytes.len() > 0 {
        let rest = bytes.skip(1);
        assert forall|i: int| 0 <= i < rest.len() implies #[trigger] rest[i] != 92 by {
            assert(rest[i] == bytes[i + 1]);
        }
        lemma_unescaped_plain(rest);
        assert(bytes[0] != 92);
        assert(unescaped(bytes) =~= bytes);
    }
}

/// The text that bytes encode, if they are valid UTF-8, and what is made of them
/// otherwise.
pub open spec fn decoded(bytes: Seq<u8>) -> Seq<char> {
    if utf8::valid_utf8(bytes) {
        utf8::decode_utf8(bytes)
    } else {
        utf8_lossy(bytes)
    }
}

/// The path that a mount table entry stands for.
pub open spec fn unescaped_path(value: Seq<char>) -> Seq<char> {
    decoded(unescaped(utf8::encode_utf8(value)))
}

/// A path without a backslash stands for itself.
pub proof fn plain_paths_stay(value: Seq<char>)
    requires
        !value.contains('\\'),
    ensures
        unescaped_path(value) == value,
{
    let bytes = utf8::encode_utf8(value);
    utf8::encode_utf8_valid_utf8(value);
    utf8::encode_utf8_decode_utf8(value);
    lemma_no_backslash(value);
    lemma_unescaped_plain(bytes);
}

/// Undoes the escapes of a path in the mount table.
pub fn unescape_mount_path(value: &str) -> (path: String)
    ensures
        path@ == unescaped_path(value@),
{
    let bytes = value.as_bytes();
    let mut output: Vec<u8> = Vec::new();
    let mut index: usize = 0;
    assert(bytes@.skip(0) =~= bytes@);
    assert(output@ + unescaped(bytes@) =~= unescaped(bytes@));
    while index < bytes.len()
        invariant
            index <= bytes@.len(),
            output@ + unescaped(bytes@.skip(index as int)) == unescaped(bytes@),
        decreases bytes@.len() - index,
    {
        let ghost rest = bytes@.skip(index as int);
        let ghost before = output@;
        let escape = if bytes[index] == 92 && bytes.len() - index >= 4 {
            read_octal(bytes[index + 1], bytes[index + 2], bytes[index + 3])
        } else {
            None
        };
        assert(escape == escaped_byte(rest));
        if let Some(value) = escape {
            output.push(value);
            index += 4;
            assert(rest.skip(4) =~= bytes@.skip(index as int));
        } else {
            output.push(bytes[index]);
            index += 1;
            assert(rest.skip(1) =~= bytes@.skip(index as int));
        }
        assert(output@ + unescaped(bytes@.skip(index as int)) =~= before + unescaped(rest));
    }
    assert(output@ =~= unescaped(bytes@));
    decode_lossily(output.as_slice())
}

/// File systems that are not backed by a storage device.
pub open spec fn is_pseudo(fs: Seq<char>) -> bool {
    ||| fs == "proc"@
    ||| fs == "sysfs"@
    ||| fs == "tmpfs"@
    ||| fs == "devtmpfs"@
    ||| fs == "devpts"@
    ||| fs == "cgroup"@
    ||| fs == "cgroup2"@
    ||| fs == "overlay"@
    ||| fs == "squashfs"@
    ||| fs == "securityfs"@
    ||| fs == "debugfs"@
    ||| fs == "tracefs"@
    ||| fs == "configfs"@
    ||| fs == "fusectl"@
    ||| fs == "mqueue"@
    ||| fs == "hugetlbfs"@
    ||| fs == "pstore"@
    ||| fs == "bpf"@
    ||| fs == "autofs"@
    ||| fs == "rpc_pipefs"@
    ||| fs == "nsfs"@
    ||| fs == "binfmt_misc"@
    ||| fs == "efivarfs"@
    ||| fs == "ramfs"@
    ||| fs == "fuse.gvfsd-fuse"@
    ||| fs == "fuse.portal"@
    ||| fs == "fuse.snapfuse"@
}

/// Tells the file systems that are not backed by a storage device.
pub fn is_pseudo_filesystem(fs_type: &str) -> (result: bool)
    ensures
        result == is_pseudo(fs_type@),
{
    let fs = text::chars_of(fs_type);
    let fs = fs.as_slice();
    text::is_text(fs, "proc") || text::is_text(fs, "sysfs") || text::is_text(fs, "tmpfs")
        || text::is_text(fs, "devtmpfs") || text::is_text(fs, "devpts") || text::is_text(
        fs,
        "cgroup",
    ) || text::is_text(fs, "cgroup2") || text::is_text(fs, "overlay") || text::is_text(
        fs,
        "squashfs",
    ) || text::is_text(fs, "securityfs") || text::is_text(fs, "debugfs") || text::is_text(
        fs,
        "tracefs",
    ) || text::is_text(fs, "configfs") || text::is_text(fs, "fusectl") || text::is_text(
        fs,
        "mqueue",
    ) || text::is_text(fs, "hugetlbfs") || text::is_text(fs, "pstore") || text::is_text(fs, "bpf")
        || text::is_text(fs, "autofs") || text::is_text(fs, "rpc_pipefs") || text::is_text(
        fs,
        "nsfs",
    ) || text::is_text(fs, "binfmt_misc") || text::is_text(fs, "efivarfs") || text::is_text(
        fs,
        "ramfs",
    ) || text::is_text(fs, "fuse.gvfsd-fuse") || text::is_text(fs, "fuse.portal") || text::is_text(
        fs,
        "fuse.snapfuse",
    )
}

/// A device mounted at a directory.
#[derive(Debug)]
pub struct MountEntry {
    pub device: String,
    pub mount_point: String,
    pub fs: String,
}

impl MountEntry {
    /// The device, the mount point and the file system.
    pub open spec fn parts(self) -> (Seq<char>, Seq<char>, Seq<char>) {
        (self.device@, self.mount_point@, self.fs@)
    }
}

/// What a mount table's line offers for testing: a writable file system on a
/// device that is not a loop device. A line names the device, the mount point,
/// the file system and the comma-separated options.
pub open spec fn candidate(line: Seq<char>) -> Option<(Seq<char>, Seq<char>, Seq<char>)> {
    let w = text::words(line);
    if w.len() >= 4 && text::has_prefix(w[0], "/dev/"@) && !text::has_prefix(w[0], "/dev/loop"@)
        && !is_pseudo(w[2]) && !text::split(w[3], ',').contains("ro"@) {
        Some((w[0], unescaped_path(w[1]), w[2]))
    } else {
        None
    }
}

/// What the lines of a mount table offer for testing, in order.
pub open spec fn candidates(lines: Seq<Seq<char>>) -> Seq<(Seq<char>, Seq<char>, Seq<char>)>
    decreases lines.len(),
{
    if lines.len() == 0 {
        seq![]
    } else {
        match candidate(lines.last()) {
            Some(entry) => candidates(lines.drop_last()).push(entry),
            None => candidates(lines.drop_last()),
        }
    }
}

fn has_option(options: &[char], option: &str) -> (result: bool)
    ensures
        result == text::split(options@, ',').contains(option@),
{
    let parts = text::split_at(options, ',');
    let ghost all = text::split(options@, ',');
    let mut i: usize = 0;
    while i < parts.len()
        invariant
            i <= parts@.len(),
            text::texts(parts@) == all,
            all == text::split(options@, ','),
            forall|k: int| 0 <= k < i ==> #[trigger] all[k] != option@,
        decreases parts@.len() - i,
    {
        assert(all[i as int] == parts@[i as int]@);
        if text::is_text(parts[i].as_slice(), option) {
            return true;
        }
        i += 1;
    }
    assert(all.len() == parts@.len());
    false
}

fn read_line(line: &[char]) -> (entry: Option<MountEntry>)
    ensures
        entry is Some <==> candidate(line@) is Some,
        entry is Some ==> entry->0.parts() == candidate(line@)->0,
{
    let words = text::words_of(line);
    let ghost w = text::words(line@);
    assert(w.len() == words@.len());
    if words.len() < 4 {
        return None;
    }
    assert(w[0] == words@[0]@ && w[1] == words@[1]@ && w[2] == words@[2]@ && w[3] == words@[3]@);
    let device = words[0].as_slice();
    let fs = text::string_of(words[2].as_slice());
    if !text::starts_with(device, "/dev/") || text::starts_with(device, "/dev/loop") {
        return None;
    }
    if is_pseudo_filesystem(fs.as_str()) || has_option(words[3].as_slice(), "ro") {
        return None;
    }
    let mount_point = text::string_of(words[1].as_slice());
    Some(
        MountEntry {
            device: text::string_of(device),
            mount_point: unescape_mount_path(mount_point.as_str()),
            fs,
        },
    )
}

/// The parts of each entry.
pub open spec fn entry_parts(entries: Seq<MountEntry>) -> Seq<(Seq<char>, Seq<char>, Seq<char>)> {
    entries.map_values(|e: MountEntry| e.parts())
}

/// Reads out of the mount table what can be tested.
pub fn mount_entries(mounts: &str) -> (entries: Vec<MountEntry>)
    ensures
        entry_parts(entries@) == candidates(text::split(mounts@, '\n')),
{
    let chars = text::chars_of(mounts);
    let lines = text::split_at(chars.as_slice(), '\n');
    let ghost all = text::split(mounts@, '\n');
    let mut entries: Vec<MountEntry> = Vec::new();
    let mut i: usize = 0;
    assert(all.take(0) =~= seq![]);
    assert(entry_parts(entries@) =~= candidates(all.take(0)));
    while i < lines.len()
        invariant
            i <= lines@.len(),
            text::texts(lines@) == all,
            entry_parts(entries@) == candidates(all.take(i as int)),
        decreases lines@.len() - i,
    {
        assert(all[i as int] == lines@[i as int]@);
        let ghost before = entries@;
        let entry = read_line(lines[i].as_slice());
        assert(all.take(i + 1).drop_last() =~= all.take(i as int));
        if let Some(entry) = entry {
            entries.push(entry);
            assert(entry_parts(entries@) =~= entry_parts(before).push(entry.parts()));
        }
        i += 1;
    }
    assert(all.take(i as int) =~= all);
    entries
}

/// The sizes that a file system reports.
#[derive(Debug, Clone, Copy)]
pub struct FsStat {
    /// Bytes in a fragment.
    pub fragment_size: u64,
    /// Fragments in the file system.
    pub blocks: u64,
    /// Fragments free for unprivileged users.
    pub available: u64,
}

impl FsStat {
    /// The sizes in bytes fit their type.
    pub open spec fn fits(self) -> bool {
        self.blocks * self.fragment_size <= u64::MAX && self.available * self.fragment_size
            <= u64::MAX
    }

    /// Tells whether the sizes in bytes fit their type.
    pub fn fits_in_bytes(&self) -> (result: bool)
        ensures
            result == self.fits(),
    {
        self.blocks.checked_mul(self.fragment_size).is_some() && self.available.checked_mul(
            self.fragment_size,
        ).is_some()
    }

    /// The total and the free bytes.
    pub fn bytes(&self) -> (bytes: (u64, u64))
        requires
            self.fits(),
        ensures
            bytes.0 == self.blocks * self.fragment_size,
            bytes.1 == self.available * self.fragment_size,
    {
        (self.blocks * self.fragment_size, self.available * self.fragment_size)
    }
}

/// The free space at a path, from what its file system reports.
pub fn available_space(path: &str, stat: Option<FsStat>) -> (result: Result<u64, VolumeError>)
    requires
        stat is Some ==> stat->0.fits(),
    ensures
        match stat {
            Some(stat) => result is Ok && result->Ok_0 == stat.available * stat.fragment_size,
            None => result matches Err(VolumeError::Unreadable(p)) && p@ == path@,
        },
{
    match stat {
        Some(stat) => {
            let (_, free) = stat.bytes();
            Ok(free)
        },
        None => Err(VolumeError::Unreadable(path.to_owned())),
    }
}

/// The last component of a path, given the pieces between its slashes: none if
/// it is the parent directory, or if there is none.
pub open spec fn last_name(pieces: Seq<Seq<char>>) -> Option<Seq<char>>
    decreases pieces.len(),
{
    if pieces.len() == 0 {
        None
    } else if pieces.last().len() == 0 || pieces.last() == "."@ {
        last_name(pieces.drop_last())
    } else if pieces.last() == ".."@ {
        None
    } else {
        Some(pieces.last())
    }
}

/// The name of a block device: the last component of its path.
pub fn block_name(device: &str) -> (name: Option<String>)
    ensures
        name is Some <==> last_name(text::split(device@, '/')) is Some,
        name is Some ==> name->0@ == last_name(text::split(device@, '/'))->0,
{
    let chars = text::chars_of(device);
    let pieces = text::split_at(chars.as_slice(), '/');
    let ghost all = text::split(device@, '/');
    let mut n: usize = pieces.len();
    assert(all.take(n as int) =~= all);
    while n > 0
        invariant
            n <= pieces@.len(),
            text::texts(pieces@) == all,
            all == text::split(device@, '/'),
            last_name(all) == last_name(all.take(n as int)),
        decreases n,
    {
        let ghost front = all.take(n as int);
        let piece = pieces[n - 1].as_slice();
        assert(front.last() == piece@);
        assert(front.drop_last() =~= all.take(n - 1));
        if piece.len() > 0 && !text::is_text(piece, ".") {
            if text::is_text(piece, "..") {
                return None;
            }
            return Some(text::string_of(piece));
        }
        n -= 1;
    }
    None
}

/// The directory that describes a block device.
pub fn sys_block_path(name: &str) -> (path: String)
    ensures
        path@ == "/sys/class/block/"@ + name@,
{
    "/sys/class/block/".to_owned().concat(name)
}

/// Tells whether a device is removable, from the contents of its own
/// `removable` attribute, or else of its parent's: a partition has none of its
/// own.
pub fn is_removable(own: Option<&str>, parent: Option<&str>) -> (result: bool)
    ensures
        result == match (own, parent) {
            (Some(flag), _) => text::trim(flag@) == "1"@,
            (None, Some(flag)) => text::trim(flag@) == "1"@,
            (None, None) => false,
        },
{
    let flag = match own {
        Some(flag) => flag,
        None => match parent {
            Some(flag) => flag,
            None => {
                return false;
            },
        },
    };
    let chars = text::chars_of(flag);
    let flag = text::trimmed(chars.as_slice());
    text::is_text(flag.as_slice(), "1")
}

/// What was found out about a mounted directory.
#[derive(Debug, Clone, Copy)]
pub struct MountProbe {
    pub is_dir: bool,
    pub stat: Option<FsStat>,
    pub removable: bool,
}

/// The component that a piece of a path between two slashes makes, in the form
/// it is ordered by: what sort of component it is, its characters, and an end
/// mark that comes before every character. An empty piece makes none, nor does
/// a dot, unless it is the first piece.
pub open spec fn piece_key(piece: Seq<char>, first: bool) -> Seq<u32> {
    if piece.len() == 0 {
        seq![]
    } else if piece == "."@ {
        if first {
            seq![2u32, 0u32]
        } else {
            seq![]
        }
    } else if piece == ".."@ {
        seq![3u32, 0u32]
    } else {
        seq![4u32] + piece.map_values(|c: char| (c as u32 + 1) as u32) + seq![0u32]
    }
}

/// The components that the pieces of a path make.
pub open spec fn pieces_key(pieces: Seq<Seq<char>>) -> Seq<u32>
    decreases pieces.len(),
{
    if pieces.len() == 0 {
        seq![]
    } else {
        pieces_key(pieces.drop_last()) + piece_key(pieces.last(), pieces.len() == 1)
    }
}

/// What paths are ordered by: component by component, the root before the
/// current directory before the parent directory before names.
pub open spec fn path_key(path: Seq<char>) -> Seq<u32> {
    if path.len() > 0 && path[0] == '/' {
        seq![1u32, 0u32] + pieces_key(text::split(path, '/'))
    } else {
        pieces_key(text::split(path, '/'))
    }
}

fn push_piece(key: &mut Vec<u32>, piece: &[char], first: bool)
    ensures
        final(key)@ == old(key)@ + piece_key(piece@, first),
{
    let ghost start = key@;
    if piece.len() == 0 {
        assert(key@ =~= start + piece_key(piece@, first));
    } else if text::is_text(piece, ".") {
        if first {
            key.push(2);
            key.push(0);
        }
        assert(key@ =~= start + piece_key(piece@, first));
    } else if text::is_text(piece, "..") {
        key.push(3);
        key.push(0);
        assert(key@ =~= start + piece_key(piece@, first));
    } else {
        key.push(4);
        let mut i: usize = 0;
        while i < piece.len()
            invariant
                i <= piece@.len(),
                key@ == start + seq![4u32] + piece@.take(i as int).map_values(
                    |c: char| (c as u32 + 1) as u32,
                ),
            decreases piece@.len() - i,
        {
            let c: char = piece[i];
            key.push(text::code_of(c) + 1);
            i += 1;
            assert(key@ =~= start + seq![4u32] + piece@.take(i as int).map_values(
                |c: char| (c as u32 + 1) as u32,
            ));
        }
        key.push(0);
        assert(piece@.take(i as int) =~= piece@);
        assert(key@ =~= start + piece_key(piece@, first));
    }
}

fn key_of_path(path: &str) -> (key: Vec<u32>)
    ensures
        key@ == path_key(path@),
{
    let chars = text::chars_of(path);
    let pieces = text::split_at(chars.as_slice(), '/');
    let ghost all = text::split(path@, '/');
    let mut key: Vec<u32> = Vec::new();
    if chars.len() > 0 && chars[0] == '/' {
        key.push(1);
        key.push(0);
    }
    let ghost start = key@;
    let mut i: usize = 0;
    assert(all.take(0) =~= seq![]);
    assert(key@ =~= start + pieces_key(all.take(0)));
    while i < pieces.len()
        invariant
            i <= pieces@.len(),
            text::texts(pieces@) == all,
            key@ == start + pieces_key(all.take(i as int)),
        decreases pieces@.len() - i,
    {
        push_piece(&mut key, pieces[i].as_slice(), i == 0);
        assert(all.take(i + 1).drop_last() =~= all.take(i as int));
        assert(all.take(i + 1).last() == pieces@[i as int]@);
        i += 1;
        assert(key@ =~= start + pieces_key(all.take(i as int)));
    }
    assert(all.take(i as int) =~= all);
    assert(key@ =~= path_key(path@));
    key
}

impl Keyed for VolumeInfo {
    open spec fn key(&self) -> Seq<u32> {
        path_key(self.mount_point@)
    }

    fn sort_key(&self) -> Vec<u32> {
        key_of_path(self.mount_point.as_str())
    }
}

/// Which of the first `n` entries are volumes: those mounted at a directory
/// where no earlier one of them is mounted.
pub open spec fn kept(entries: Seq<MountEntry>, probes: Seq<MountProbe>, n: nat) -> Seq<int>
    decreases n,
{
    if n == 0 {
        seq![]
    } else {
        let earlier = kept(entries, probes, (n - 1) as nat);
        if probes[n - 1].is_dir && !mounted_at(entries, earlier, entries[n - 1].mount_point@) {
            earlier.push(n - 1)
        } else {
            earlier
        }
    }
}

/// One of the chosen entries is mounted at the path.
pub open spec fn mounted_at(entries: Seq<MountEntry>, chosen: Seq<int>, path: Seq<char>) -> bool {
    exists|k: int| 0 <= k < chosen.len() && entries[#[trigger] chosen[k]].mount_point@ == path
}

/// The volume is the one that an entry and what was found out about it describe.
pub open spec fn is_volume_of(volume: VolumeInfo, entry: MountEntry, probe: MountProbe) -> bool {
    &&& volume.mount_point@ == entry.mount_point@
    &&& volume.device is Some
    &&& volume.device->0@ == entry.device@
    &&& volume.fs@ == entry.fs@
    &&& match probe.stat {
        Some(stat) => {
            &&& volume.total_bytes == stat.blocks * stat.fragment_size
            &&& volume.free_bytes == stat.available * stat.fragment_size
        },
        None => volume.total_bytes == 0 && volume.free_bytes == 0,
    }
    &&& volume.kind == if probe.removable {
        VolumeKind::Removable
    } else {
        VolumeKind::Fixed
    }
    &&& volume.label is None
}

/// The volumes are those of the entries that are kept, in the order of the
/// entries.
pub open spec fn are_kept_volumes(
    volumes: Seq<VolumeInfo>,
    entries: Seq<MountEntry>,
    probes: Seq<MountProbe>,
    n: nat,
) -> bool {
    let chosen = kept(entries, probes, n);
    &&& volumes.len() == chosen.len()
    &&& forall|k: int|
        0 <= k < volumes.len() ==> is_volume_of(
            #[trigger] volumes[k],
            entries[chosen[k]],
            probes[chosen[k]],
        )
}

proof fn lemma_kept_in_range(entries: Seq<MountEntry>, probes: Seq<MountProbe>, n: nat)
    ensures
        forall|k: int|
            0 <= k < kept(entries, probes, n).len() ==> 0 <= #[trigger] kept(entries, probes, n)[k]
                < n,
    decreases n,
{
    if n > 0 {
        lemma_kept_in_range(entries, probes, (n - 1) as nat);
        let earlier = kept(entries, probes, (n - 1) as nat);
        let all = kept(entries, probes, n);
        assert forall|k: int| 0 <= k < all.len() implies 0 <= #[trigger] all[k] < n by {
            if k < earlier.len() {
                assert(all[k] == earlier[k]);
            }
        }
    }
}

/// The volumes that can be tested, ordered by mount point.
///
/// `probes` holds what was found out about each entry. Where two entries have
/// the same mount point, the earlier one counts.
pub fn list_volumes(entries: &[MountEntry], probes: &[MountProbe]) -> (volumes: Vec<VolumeInfo>)
    requires
        entries@.len() == probes@.len(),
        forall|i: int|
            0 <= i < probes@.len() ==> ((#[trigger] probes@[i]).stat is Some
                ==> probes@[i].stat->0.fits()),
    ensures
        exists|found: Seq<VolumeInfo>| #[trigger]
            are_kept_volumes(found, entries@, probes@, entries@.len())
                && ordering::stably_sorted(found, volumes@),
{
    let mut found: Vec<VolumeInfo> = Vec::new();
    let mut i: usize = 0;
    while i < entries.len()
        invariant
            i <= entries@.len(),
            entries@.len() == probes@.len(),
            forall|i: int|
                0 <= i < probes@.len() ==> ((#[trigger] probes@[i]).stat is Some
                    ==> probes@[i].stat->0.fits()),
            are_kept_volumes(found@, entries@, probes@, i as nat),
        decreases entries@.len() - i,
    {
        let entry = &entries[i];
        let probe = probes[i];
        let ghost chosen = kept(entries@, probes@, i as nat);
        proof {
            lemma_kept_in_range(entries@, probes@, i as nat);
        }
        let mut seen: bool = false;
        let mut k: usize = 0;
        while k < found.len()
            invariant
                k <= found@.len(),
                *entry == entries@[i as int],
                chosen == kept(entries@, probes@, i as nat),
                are_kept_volumes(found@, entries@, probes@, i as nat),
                seen <==> exists|m: int|
                    0 <= m < k && entries@[#[trigger] chosen[m]].mount_point@
                        == entry.mount_point@,
            decreases found@.len() - k,
        {
            assert(is_volume_of(found@[k as int], entries@[chosen[k as int]], probes@[chosen[k as int]]));
            if text::same_text(found[k].mount_point.as_str(), entry.mount_point.as_str()) {
                assert(entries@[chosen[k as int]].mount_point@ == entry.mount_point@);
                seen = true;
            }
            k += 1;
        }
        assert(seen == mounted_at(entries@, chosen, entry.mount_point@));
        let ghost before = found@;
        if probe.is_dir && !seen {
            let (total_bytes, free_bytes) = match probe.stat {
                Some(stat) => stat.bytes(),
                None => (0, 0),
            };
            let volume = VolumeInfo {
                mount_point: entry.mount_point.clone(),
                device: Some(entry.device.clone()),
                fs: entry.fs.clone(),
                total_bytes,
                free_bytes,
                kind: if probe.removable {
                    VolumeKind::Removable
                } else {
                    VolumeKind::Fixed
                },
                label: None,
            };
            found.push(volume);
        }
        i += 1;
        proof {
            let after = kept(entries@, probes@, i as nat);
            assert forall|m: int| 0 <= m < found@.len() implies is_volume_of(
                #[trigger] found@[m],
                entries@[after[m]],
                probes@[after[m]],
            ) by {
                if m < before.len() {
                    assert(found@[m] == before[m]);
                    assert(after[m] == chosen[m]);
                }
            }
        }
    }
    let ghost all = found@;
    let volumes = ordering::stable_sort(found);
    assert(are_kept_volumes(all, entries@, probes@, entries@.len()));
    volumes
}

proof fn lemma_kept_distinct(
    entries: Seq<MountEntry>,
    probes: Seq<MountProbe>,
    n: nat,
    i: int,
    j: int,
)
    requires
        0 <= i < j < kept(entries, probes, n).len(),
    ensures
        entries[kept(entries, probes, n)[i]].mount_point@ != entries[kept(
            entries,
            probes,
            n,
        )[j]].mount_point@,
    decreases n,
{
    let earlier = kept(entries, probes, (n - 1) as nat);
    let all = kept(entries, probes, n);
    if j < earlier.len() {
        lemma_kept_distinct(entries, probes, (n - 1) as nat, i, j);
    } else {
        assert(all[i] == earlier[i]);
        assert(!mounted_at(entries, earlier, entries[n - 1].mount_point@));
    }
}

/// No mount point is listed twice, and the list is in ascending order.
pub proof fn mount_points_are_listed_once(
    entries: Seq<MountEntry>,
    probes: Seq<MountProbe>,
    found: Seq<VolumeInfo>,
    volumes: Seq<VolumeInfo>,
    i: int,
    j: int,
)
    requires
        are_kept_volumes(found, entries, probes, entries.len()),
        ordering::stably_sorted(found, volumes),
        0 <= i < j < volumes.len(),
    ensures
        volumes[i].mount_point@ != volumes[j].mount_point@,
        !ordering::precedes(path_key(volumes[j].mount_point@), path_key(volumes[i].mount_point@)),
{
    if volumes[i].mount_point@ == volumes[j].mount_point@ {
        let from = ordering::sorting_keeps_order(found, volumes, i, j);
        let chosen = kept(entries, probes, entries.len());
        assert(is_volume_of(found[from.0], entries[chosen[from.0]], probes[chosen[from.0]]));
        assert(is_volume_of(found[from.1], entries[chosen[from.1]], probes[chosen[from.1]]));
        lemma_kept_distinct(entries, probes, entries.len(), from.0, from.1);
    }
}

proof fn lemma_origins(lines: Seq<Seq<char>>) -> (from: Seq<int>)
    ensures
        from.len() == candidates(lines).len(),
        forall|k: int|
            0 <= k < from.len() ==> 0 <= #[trigger] from[k] < lines.len() && candidate(
                lines[from[k]],
            ) == Some(candidates(lines)[k]),
        forall|k: int, m: int|
            #![trigger from[k], from[m]]
            0 <= k < m < from.len() ==> from[k] < from[m],
        forall|i: int|
            0 <= i < lines.len() && candidate(#[trigger] lines[i]) is Some ==> from.contains(i),
    decreases lines.len(),
{
    if lines.len() == 0 {
        seq![]
    } else {
        let front = lines.drop_last();
        let n = lines.len() - 1;
        let earlier = lemma_origins(front);
        assert forall|k: int| 0 <= k < earlier.len() implies 0 <= #[trigger] earlier[k] < n
            && candidate(lines[earlier[k]]) == Some(candidates(front)[k]) by {
            assert(front[earlier[k]] == lines[earlier[k]]);
        }
        let from = if candidate(lines.last()) is Some {
            earlier.push(n)
        } else {
            earlier
        };
        assert forall|k: int| 0 <= k < from.len() implies 0 <= #[trigger] from[k] < lines.len()
            && candidate(lines[from[k]]) == Some(candidates(lines)[k]) by {
            if k < earlier.len() {
                assert(from[k] == earlier[k]);
                assert(candidates(lines)[k] == candidates(front)[k]);
            }
        }
        assert forall|i: int|
            0 <= i < lines.len() && candidate(#[trigger] lines[i]) is Some implies from.contains(
            i,
        ) by {
            if i < n {
                assert(front[i] == lines[i]);
                let k = choose|k: int| 0 <= k < earlier.len() && earlier[k] == i;
                assert(from[k] == i);
            } else {
                assert(from[earlier.len() as int] == i);
            }
        }
        from
    }
}

/// A path begins with `/dev/` and goes on with another name than one of a loop
/// device.
proof fn lemma_device_prefixes(device: Seq<char>)
    ensures
        text::has_prefix(device, "/dev/"@) <==> exists|name: Seq<char>|
            device == #[trigger] ("/dev/"@ + name),
        text::has_prefix(device, "/dev/loop"@) <==> exists|name: Seq<char>|
            device == #[trigger] ("/dev/loop"@ + name),
{
    text::parts_of_texts(device, "/dev/"@, seq![], seq![]);
    text::parts_of_texts(device, "/dev/loop"@, seq![], seq![]);
    if exists|name: Seq<char>| device == #[trigger] ("/dev/"@ + name) {
        let name = choose|name: Seq<char>| device == #[trigger] ("/dev/"@ + name);
        text::parts_of_texts(device, "/dev/"@, seq![], name);
    }
    if exists|name: Seq<char>| device == #[trigger] ("/dev/loop"@ + name) {
        let name = choose|name: Seq<char>| device == #[trigger] ("/dev/loop"@ + name);
        text::parts_of_texts(device, "/dev/loop"@, seq![], name);
    }
}

/// Every line of the mount table that names a device under `/dev/` other than a
/// loop device, a mount point, a file system that a storage device backs, and
/// options that do not hold `ro`, gives an entry: with the line's device, its
/// mount point without escapes, and its file system.
pub proof fn writable_devices_are_found(
    lines: Seq<Seq<char>>,
    entries: Seq<MountEntry>,
    i: int,
    name: Seq<char>,
    point: Seq<char>,
    fs: Seq<char>,
    options: Seq<char>,
)
    requires
        entry_parts(entries) == candidates(lines),
        0 <= i < lines.len(),
        text::words(lines[i]).len() >= 4,
        text::words(lines[i])[0] == "/dev/"@ + name,
        text::words(lines[i])[1] == point,
        text::words(lines[i])[2] == fs,
        text::words(lines[i])[3] == options,
        forall|rest: Seq<char>| "/dev/"@ + name != #[trigger] ("/dev/loop"@ + rest),
        fs != "proc"@,
        fs != "sysfs"@,
        fs != "tmpfs"@,
        fs != "devtmpfs"@,
        fs != "devpts"@,
        fs != "cgroup"@,
        fs != "cgroup2"@,
        fs != "overlay"@,
        fs != "squashfs"@,
        fs != "securityfs"@,
        fs != "debugfs"@,
        fs != "tracefs"@,
        fs != "configfs"@,
        fs != "fusectl"@,
        fs != "mqueue"@,
        fs != "hugetlbfs"@,
        fs != "pstore"@,
        fs != "bpf"@,
        fs != "autofs"@,
        fs != "rpc_pipefs"@,
        fs != "nsfs"@,
        fs != "binfmt_misc"@,
        fs != "efivarfs"@,
        fs != "ramfs"@,
        fs != "fuse.gvfsd-fuse"@,
        fs != "fuse.portal"@,
        fs != "fuse.snapfuse"@,
        !text::split(options, ',').contains("ro"@),
    ensures
        exists|k: int|
            0 <= k < entries.len() && (#[trigger] entries[k]).device@ == "/dev/"@ + name
                && entries[k].mount_point@ == unescaped_path(point) && entries[k].fs@ == fs,
{
    let device = "/dev/"@ + name;
    lemma_device_prefixes(device);
    let from = lemma_origins(lines);
    assert(candidate(lines[i]) is Some);
    let k = choose|k: int| 0 <= k < from.len() && from[k] == i;
    assert(entry_parts(entries)[k] == entries[k].parts());
    assert(candidate(lines[from[k]]) == Some(candidates(lines)[k]));
    assert(entries[k].device@ == device);
}

/// Every entry comes from a line of the mount table that names a device under
/// `/dev/` other than a loop device, and on it a file system that a storage device
/// backs and that is not read-only. The entries are in the order of their lines,
/// and no line gives two.
pub proof fn entries_are_writable_devices(
    lines: Seq<Seq<char>>,
    entries: Seq<MountEntry>,
) -> (from: Seq<int>)
    requires
        entry_parts(entries) == candidates(lines),
    ensures
        from.len() == entries.len(),
        forall|k: int, m: int|
            #![trigger from[k], from[m]]
            0 <= k < m < from.len() ==> from[k] < from[m],
        forall|k: int|
            0 <= k < from.len() ==> {
                let line = text::words(lines[#[trigger] from[k]]);
                &&& 0 <= from[k] < lines.len()
                &&& line.len() >= 4
                &&& entries[k].device@ == line[0]
                &&& entries[k].mount_point@ == unescaped_path(line[1])
                &&& entries[k].fs@ == line[2]
                &&& exists|name: Seq<char>| line[0] == #[trigger] ("/dev/"@ + name)
                &&& forall|rest: Seq<char>| line[0] != #[trigger] ("/dev/loop"@ + rest)
                &&& !text::split(line[3], ',').contains("ro"@)
                &&& !seq![
                "proc"@,
                "sysfs"@,
                "tmpfs"@,
                "devtmpfs"@,
                "devpts"@,
                "cgroup"@,
                "cgroup2"@,
                "overlay"@,
                "squashfs"@,
                "securityfs"@,
                "debugfs"@,
                "tracefs"@,
                "configfs"@,
                "fusectl"@,
                "mqueue"@,
                "hugetlbfs"@,
                "pstore"@,
                "bpf"@,
                "autofs"@,
                "rpc_pipefs"@,
                "nsfs"@,
                "binfmt_misc"@,
                "efivarfs"@,
                "ramfs"@,
                "fuse.gvfsd-fuse"@,
                "fuse.portal"@,
                "fuse.snapfuse"@,
                ].contains(line[2])
            },
{
    let from = lemma_origins(lines);
    assert forall|k: int| 0 <= k < from.len() implies {
        let line = text::words(lines[#[trigger] from[k]]);
        &&& 0 <= from[k] < lines.len()
        &&& line.len() >= 4
        &&& entries[k].device@ == line[0]
        &&& entries[k].mount_point@ == unescaped_path(line[1])
        &&& entries[k].fs@ == line[2]
        &&& exists|name: Seq<char>| line[0] == #[trigger] ("/dev/"@ + name)
        &&& forall|rest: Seq<char>| line[0] != #[trigger] ("/dev/loop"@ + rest)
        &&& !text::split(line[3], ',').contains("ro"@)
        &&& !seq![
                "proc"@,
                "sysfs"@,
                "tmpfs"@,
                "devtmpfs"@,
                "devpts"@,
                "cgroup"@,
                "cgroup2"@,
                "overlay"@,
                "squashfs"@,
                "securityfs"@,
                "debugfs"@,
                "tracefs"@,
                "configfs"@,
                "fusectl"@,
                "mqueue"@,
                "hugetlbfs"@,
                "pstore"@,
                "bpf"@,
                "autofs"@,
                "rpc_pipefs"@,
                "nsfs"@,
                "binfmt_misc"@,
                "efivarfs"@,
                "ramfs"@,
                "fuse.gvfsd-fuse"@,
                "fuse.portal"@,
                "fuse.snapfuse"@,
        ].contains(line[2])
    } by {
        let line = text::words(lines[from[k]]);
        lemma_device_prefixes(line[0]);
        assert(entry_parts(entries)[k] == entries[k].parts());
        assert(candidate(lines[from[k]]) == Some(candidates(lines)[k]));
    }
    assert(entry_parts(entries).len() == entries.len());
    from
}

/// The file systems that are left out because no storage device backs them are
/// these, and no others.
pub proof fn pseudo_filesystems_are_named(fs: Seq<char>)
    ensures
        is_pseudo(fs) <==> {
            ||| fs == "proc"@
            ||| fs == "sysfs"@
            ||| fs == "tmpfs"@
            ||| fs == "devtmpfs"@
            ||| fs == "devpts"@
            ||| fs == "cgroup"@
            ||| fs == "cgroup2"@
            ||| fs == "overlay"@
            ||| fs == "squashfs"@
            ||| fs == "securityfs"@
            ||| fs == "debugfs"@
            ||| fs == "tracefs"@
            ||| fs == "configfs"@
            ||| fs == "fusectl"@
            ||| fs == "mqueue"@
            ||| fs == "hugetlbfs"@
            ||| fs == "pstore"@
            ||| fs == "bpf"@
            ||| fs == "autofs"@
            ||| fs == "rpc_pipefs"@
            ||| fs == "nsfs"@
            ||| fs == "binfmt_misc"@
            ||| fs == "efivarfs"@
            ||| fs == "ramfs"@
            ||| fs == "fuse.gvfsd-fuse"@
            ||| fs == "fuse.portal"@
            ||| fs == "fuse.snapfuse"@
        },
{
}

/// How the mount table writes a byte that it escapes: a backslash and three octal
/// digits.
pub open spec fn escape_of(b: u8) -> Seq<u8> {
    seq![92u8, (48 + b / 64) as u8, (48 + b / 8 % 8) as u8, (48 + b % 8) as u8]
}

/// The bytes with some of them escaped.
pub open spec fn escaped(bytes: Seq<u8>, marks: Seq<bool>) -> Seq<u8>
    decreases bytes.len(),
{
    if bytes.len() == 0 {
        seq![]
    } else {
        (if marks[0] {
            escape_of(bytes[0])
        } else {
            seq![bytes[0]]
        }) + escaped(bytes.skip(1), marks.skip(1))
    }
}

/// Escapes are undone: whichever bytes of a path are escaped, all backslashes
/// among them, the bytes come out as they were.
pub proof fn escapes_are_undone(bytes: Seq<u8>, marks: Seq<bool>)
    requires
        marks.len() == bytes.len(),
        forall|i: int| 0 <= i < bytes.len() && bytes[i] == 92 ==> #[trigger] marks[i],
    ensures
        unescaped(escaped(bytes, marks)) == bytes,
    decreases bytes.len(),
{
    if bytes.len() > 0 {
        let b = bytes[0];
        let rest = bytes.skip(1);
        let further = marks.skip(1);
        assert forall|i: int| 0 <= i < rest.len() && rest[i] == 92 implies #[trigger] further[i] by {
            assert(rest[i] == bytes[i + 1]);
            assert(further[i] == marks[i + 1]);
        }
        escapes_are_undone(rest, further);
        let all = escaped(bytes, marks);
        let tail = escaped(rest, further);
        if marks[0] {
            assert(b / 64 <= 3);
            assert((b / 64) * 64 + (b / 8 % 8) * 8 + b % 8 == b);
            assert(all.skip(4) =~= tail);
            assert(escaped_byte(all) == Some(b));
            assert(unescaped(all) == seq![b] + unescaped(all.skip(4)));
        } else {
            assert(b != 92);
            assert(all.skip(1) =~= tail);
            assert(unescaped(all) == seq![b] + unescaped(all.skip(1)));
        }
        assert(unescaped(all) =~= bytes);
    } else {
        assert(unescaped(escaped(bytes, marks)) =~= bytes);
    }
}

/// A path that the mount table holds with some of its bytes escaped, all
/// backslashes among them, is read as that path.
pub proof fn escaped_paths_are_read(path: Seq<char>, value: Seq<char>, marks: Seq<bool>)
    requires
        marks.len() == utf8::encode_utf8(path).len(),
        forall|i: int|
            0 <= i < marks.len() && utf8::encode_utf8(path)[i] == 92 ==> #[trigger] marks[i],
        utf8::encode_utf8(value) == escaped(utf8::encode_utf8(path), marks),
    ensures
        unescaped_path(value) == path,
{
    escapes_are_undone(utf8::encode_utf8(path), marks);
    utf8::encode_utf8_valid_utf8(path);
    utf8::encode_utf8_decode_utf8(path);
}

/// A backslash stays if what follows it is not three characters that name a byte
/// in octal.
pub proof fn other_backslashes_stay(bytes: Seq<u8>)
    requires
        bytes.len() > 0,
        bytes[0] == 92,
        bytes.len() < 4 || !(48 <= bytes[2] <= 55) || !(48 <= bytes[3] <= 55) || !(bytes[1] == 43
            || 48 <= bytes[1] <= 51),
    ensures
        unescaped(bytes) == seq![92u8] + unescaped(bytes.skip(1)),
{
}

proof fn lemma_kept_complete(entries: Seq<MountEntry>, probes: Seq<MountProbe>, n: nat, i: int)
    requires
        0 <= i < n,
        probes[i].is_dir,
        forall|j: int|
            0 <= j < i && (#[trigger] probes[j]).is_dir ==> entries[j].mount_point@
                != entries[i].mount_point@,
    ensures
        kept(entries, probes, n).contains(i),
    decreases n,
{
    let earlier = kept(entries, probes, (n - 1) as nat);
    if i < n - 1 {
        lemma_kept_complete(entries, probes, (n - 1) as nat, i);
        let k = choose|k: int| 0 <= k < earlier.len() && earlier[k] == i;
        assert(kept(entries, probes, n)[k] == i);
    } else {
        lemma_kept_sound(entries, probes, (n - 1) as nat);
        assert(!mounted_at(entries, earlier, entries[i].mount_point@)) by {
            if mounted_at(entries, earlier, entries[i].mount_point@) {
                let k = choose|k: int|
                    0 <= k < earlier.len() && entries[#[trigger] earlier[k]].mount_point@
                        == entries[i].mount_point@;
                assert(probes[earlier[k]].is_dir);
            }
        }
        assert(kept(entries, probes, n)[earlier.len() as int] == i);
    }
}

proof fn lemma_kept_sound(entries: Seq<MountEntry>, probes: Seq<MountProbe>, n: nat)
    ensures
        forall|k: int|
            0 <= k < kept(entries, probes, n).len() ==> 0 <= #[trigger] kept(entries, probes, n)[k]
                < n && probes[kept(entries, probes, n)[k]].is_dir,
    decreases n,
{
    if n > 0 {
        lemma_kept_sound(entries, probes, (n - 1) as nat);
        let earlier = kept(entries, probes, (n - 1) as nat);
        let all = kept(entries, probes, n);
        assert forall|k: int| 0 <= k < all.len() implies 0 <= #[trigger] all[k] < n
            && probes[all[k]].is_dir by {
            if k < earlier.len() {
                assert(all[k] == earlier[k]);
            }
        }
    }
}

/// Every entry that is mounted at a directory, and is the first to be mounted
/// there, is listed: with its mount point, device and file system, the sizes that
/// the file system reports in bytes, and as removable exactly if the device is.
pub proof fn mounted_directories_are_listed(
    entries: Seq<MountEntry>,
    probes: Seq<MountProbe>,
    found: Seq<VolumeInfo>,
    volumes: Seq<VolumeInfo>,
    i: int,
)
    requires
        are_kept_volumes(found, entries, probes, entries.len()),
        ordering::stably_sorted(found, volumes),
        entries.len() == probes.len(),
        0 <= i < entries.len(),
        probes[i].is_dir,
        forall|j: int|
            0 <= j < i && (#[trigger] probes[j]).is_dir ==> entries[j].mount_point@
                != entries[i].mount_point@,
    ensures
        exists|v: int|
            0 <= v < volumes.len() && {
                let volume = #[trigger] volumes[v];
                &&& volume.mount_point@ == entries[i].mount_point@
                &&& volume.device is Some && volume.device->0@ == entries[i].device@
                &&& volume.fs@ == entries[i].fs@
                &&& volume.label is None
                &&& probes[i].stat matches Some(stat) ==> volume.total_bytes == stat.blocks
                    * stat.fragment_size && volume.free_bytes == stat.available
                    * stat.fragment_size
                &&& probes[i].stat is None ==> volume.total_bytes == 0 && volume.free_bytes == 0
                &&& probes[i].removable ==> volume.kind == VolumeKind::Removable
                &&& !probes[i].removable ==> volume.kind == VolumeKind::Fixed
            },
{
    let chosen = kept(entries, probes, entries.len());
    lemma_kept_complete(entries, probes, entries.len(), i);
    let k = choose|k: int| 0 <= k < chosen.len() && chosen[k] == i;
    assert(is_volume_of(found[k], entries[chosen[k]], probes[chosen[k]]));
    assert(found.contains(found[k]));
    ordering::sorting_keeps_items(found, volumes, found[k]);
    let v = choose|v: int| 0 <= v < volumes.len() && volumes[v] == found[k];
    assert(volumes[v].mount_point@ == entries[i].mount_point@);
}

/// Every volume that is listed is mounted at a directory, as an entry says.
pub proof fn listed_volumes_are_mounted(
    entries: Seq<MountEntry>,
    probes: Seq<MountProbe>,
    found: Seq<VolumeInfo>,
    volumes: Seq<VolumeInfo>,
    v: int,
) -> (i: int)
    requires
        are_kept_volumes(found, entries, probes, entries.len()),
        ordering::stably_sorted(found, volumes),
        0 <= v < volumes.len(),
    ensures
        0 <= i < entries.len(),
        probes[i].is_dir,
        volumes[v].mount_point@ == entries[i].mount_point@,
        volumes[v].device is Some,
        volumes[v].device->0@ == entries[i].device@,
        volumes[v].fs@ == entries[i].fs@,
{
    let chosen = kept(entries, probes, entries.len());
    assert(volumes.contains(volumes[v]));
    ordering::sorting_keeps_items(found, volumes, volumes[v]);
    let k = choose|k: int| 0 <= k < found.len() && found[k] == volumes[v];
    lemma_kept_sound(entries, probes, entries.len());
    assert(is_volume_of(found[k], entries[chosen[k]], probes[chosen[k]]));
    chosen[k]
}

/// The sizes of a file system are its fragments times their size, and its free
/// space is that of the fragments for unprivileged users.
pub proof fn sizes_are_in_bytes(
    stat: FsStat,
    bytes: (u64, u64),
    path: &str,
    result: Result<u64, VolumeError>,
)
    requires
        stat.blocks * stat.fragment_size <= u64::MAX,
        stat.available * stat.fragment_size <= u64::MAX,
        call_ensures(FsStat::bytes, (&stat,), bytes),
        call_ensures(available_space, (path, Some(stat)), result),
    ensures
        bytes.0 == stat.blocks * stat.fragment_size,
        bytes.1 == stat.available * stat.fragment_size,
        result is Ok && result->Ok_0 == bytes.1,
{
}

/// A device is removable exactly if its own attribute says so, or its parent's if
/// it has none.
pub proof fn own_attribute_goes_first(own: Option<&str>, parent: Option<&str>, result: bool)
    requires
        call_ensures(is_removable, (own, parent), result),
    ensures
        own is Some ==> (result <==> text::trim(own->0@) == seq!['1']),
        own is None && parent is Some ==> (result <==> text::trim(parent->0@) == seq!['1']),
        own is None && parent is None ==> !result,
{
    reveal_strlit("1");
    assert("1"@ =~= seq!['1']);
}

/// The name of a block device is what stands behind the last slash of its path.
pub proof fn block_names_are_last(directory: Seq<char>, name: Seq<char>)
    requires
        name.len() > 0,
        !name.contains('/'),
        name != "."@,
        name != ".."@,
    ensures
        last_name(text::split(directory + seq!['/'] + name, '/')) == Some(name),
        last_name(text::split(directory + seq!['/'] + name + seq!['/'], '/')) == Some(name),
{
    let path = directory + seq!['/'] + name;
    text::splitting_goes_on(directory, '/', name);
    text::joined_pieces_split_again(seq![name], '/');
    assert(text::joined(seq![name], '/') == name);
    let pieces = text::split(directory, '/') + seq![name];
    assert(pieces.drop_last() =~= text::split(directory, '/'));
    let none = Seq::<char>::empty();
    text::splitting_goes_on(path, '/', none);
    text::joined_pieces_split_again(seq![none], '/');
    assert(text::joined(seq![none], '/') == none);
    assert(path + seq!['/'] + none =~= path + seq!['/']);
    let more = pieces + seq![none];
    assert(more.drop_last() =~= pieces);
    reveal_with_fuel(last_name, 3);
}

proof fn lemma_path_key(directory: Seq<char>, name: Seq<char>)
    requires
        directory.len() > 0,
        !name.contains('/'),
    ensures
        path_key(directory + seq!['/'] + name) == path_key(directory) + piece_key(name, false),
{
    let path = directory + seq!['/'] + name;
    text::splitting_goes_on(directory, '/', name);
    text::joined_pieces_split_again(seq![name], '/');
    assert(text::joined(seq![name], '/') == name);
    text::pieces_join_again(directory, '/');
    let pieces = text::split(directory, '/') + seq![name];
    assert(pieces.drop_last() =~= text::split(directory, '/'));
    assert(path[0] == directory[0]);
    assert(path_key(path) =~= path_key(directory) + piece_key(name, false));
}

proof fn lemma_codes(a: char, b: char)
    requires
        a < b,
    ensures
        ((a as u32 + 1) as u32) < ((b as u32 + 1) as u32),
{
}

/// A directory comes before what is in it, and of two names in the same directory
/// the one with the smaller character comes first where they begin to differ.
pub proof fn paths_are_ordered_by_component(
    directory: Seq<char>,
    front: Seq<char>,
    a: Seq<char>,
    b: Seq<char>,
)
    requires
        directory.len() > 0,
        !(front + a).contains('/'),
        !(front + b).contains('/'),
        a.len() > 0,
        b.len() > 0,
        a[0] < b[0],
        front + a != "."@ && front + a != ".."@,
        front + b != "."@ && front + b != ".."@,
    ensures
        ordering::precedes(
            path_key(directory + seq!['/'] + (front + a)),
            path_key(directory + seq!['/'] + (front + b)),
        ),
        ordering::precedes(path_key(directory), path_key(directory + seq!['/'] + (front + a))),
{
    lemma_path_key(directory, front + a);
    lemma_path_key(directory, front + b);
    let code = |c: char| (c as u32 + 1) as u32;
    let base = path_key(directory);
    let same = base + seq![4u32] + front.map_values(code);
    let x = a.map_values(code) + seq![0u32];
    let y = b.map_values(code) + seq![0u32];
    assert(base + piece_key(front + a, false) =~= same + x);
    assert(base + piece_key(front + b, false) =~= same + y);
    assert(x[0] == code(a[0]) && y[0] == code(b[0]));
    lemma_codes(a[0], b[0]);
    ordering::first_difference_decides(same, x, y);
    ordering::first_difference_decides(base, seq![], piece_key(front + a, false));
}

/// A plus sign in place of the first digit of an escape is taken for a zero.
pub proof fn signed_escapes_are_read(b: u8, c: u8, rest: Seq<u8>)
    requires
        48 <= b <= 55,
        48 <= c <= 55,
    ensures
        unescaped(seq![92u8, 43u8, b, c] + rest) == seq![((b - 48) * 8 + (c - 48)) as u8]
            + unescaped(rest),
{
    let all = seq![92u8, 43u8, b, c] + rest;
    assert(all.skip(4) =~= rest);
    assert(escaped_byte(all) == Some(((b - 48) * 8 + (c - 48)) as u8));
    assert(unescaped(all) == seq![((b - 48) * 8 + (c - 48)) as u8] + unescaped(all.skip(4)));
}

/// A path whose bytes are not valid UTF-8 without their escapes is what is made of
/// these bytes, and nothing of the escapes is left in it.
pub proof fn other_paths_are_decoded(value: Seq<char>)
    requires
        !utf8::valid_utf8(unescaped(utf8::encode_utf8(value))),
    ensures
        unescaped_path(value) == utf8_lossy(unescaped(utf8::encode_utf8(value))),
{
}

/// Sizes fit exactly if both are below 2^64 bytes.
pub proof fn sizes_fit_below_their_limit(stat: FsStat)
    ensures
        stat.fits() <==> stat.blocks * stat.fragment_size < 18446744073709551616
            && stat.available * stat.fragment_size < 18446744073709551616,
{
}

} // verus!
