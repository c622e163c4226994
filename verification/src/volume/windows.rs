//! Windows drives: from drive letters, drive types and volume names to volumes.

use super::{VolumeError, VolumeInfo, VolumeKind};
use crate::text;
use vstd::prelude::*;

verus! {

/// The first half of a pair of UTF-16 code units.
pub open spec fn is_high(unit: u16) -> bool {
    0xd800 <= unit < 0xdc00
}

/// The second half of a pair of UTF-16 code units.
pub open spec fn is_low(unit: u16) -> bool {
    0xdc00 <= unit < 0xe000
}

/// The text that UTF-16 code units stand for: a unit that is no half of a pair is
/// its own character, two halves make one, and a half without the other is
/// replaced.
pub open spec fn decoded(units: Seq<u16>) -> Seq<char>
    decreases units.len(),
{
    if units.len() == 0 {
        seq![]
    } else if !is_high(units[0]) && !is_low(units[0]) {
        seq![units[0] as char] + decoded(units.skip(1))
    } else if is_high(units[0]) && units.len() > 1 && is_low(units[1]) {
        let code = 0x10000 + (units[0] - 0xd800) * 0x400 + (units[1] - 0xdc00);
        seq![code as char] + decoded(units.skip(2))
    } else {
        seq!['\u{fffd}'] + decoded(units.skip(1))
    }
}

/// `String::from_utf16_lossy` decodes UTF-16, with the replacement character in
/// place of each code unit that is not valid.
#[verifier::external_body]
fn decode_utf16(units: &[u16]) -> (text: String)
    ensures
        text@ == decoded(units@),
{
    String::from_utf16_lossy(units)
}

/// The root of the drive with the given number: A is drive 0.
pub open spec fn drive_root(index: nat) -> Seq<char> {
    seq![(65 + index) as char] + ":\\"@
}

/// The roots of the drives from `index` on, up to Z, whose bits are set; the
/// lowest bit of the mask stands for drive `index`.
pub open spec fn roots_from(mask: nat, index: nat) -> Seq<Seq<char>>
    decreases 26 - index,
{
    if index >= 26 {
        seq![]
    } else if mask % 2 == 1 {
        seq![drive_root(index)] + roots_from(mask / 2, index + 1)
    } else {
        roots_from(mask / 2, index + 1)
    }
}

/// The roots of the drives that a drive mask names, in alphabetical order.
pub fn drive_roots(mask: u32) -> (roots: Vec<String>)
    ensures
        text::string_texts(roots@) == roots_from(mask as nat, 0),
{
    let mut roots: Vec<String> = Vec::new();
    let mut rest: u32 = mask;
    let mut index: u8 = 0;
    assert(text::string_texts(roots@) + roots_from(rest as nat, 0) =~= roots_from(mask as nat, 0));
    while index < 26
        invariant
            index <= 26,
            text::string_texts(roots@) + roots_from(rest as nat, index as nat) == roots_from(
                mask as nat,
                0,
            ),
        decreases 26 - index,
    {
        let ghost before = text::string_texts(roots@);
        let ghost expected = before + roots_from(rest as nat, index as nat);
        if rest % 2 == 1 {
            let mut root = String::new();
            root.push((65 + index) as char);
            root.append(":\\");
            assert(root@ =~= drive_root(index as nat));
            roots.push(root);
            assert(text::string_texts(roots@) =~= before + seq![drive_root(index as nat)]);
        }
        rest = rest / 2;
        index += 1;
        assert(text::string_texts(roots@) + roots_from(rest as nat, index as nat) =~= expected);
    }
    assert(text::string_texts(roots@) =~= roots_from(mask as nat, 0));
    roots
}

/// The kind of volume that a Windows drive type stands for. CD-ROM drives and
/// RAM disks are not tested.
pub open spec fn kind_of_drive(drive_type: u32) -> Option<VolumeKind> {
    if drive_type == 2 {
        Some(VolumeKind::Removable)
    } else if drive_type == 3 {
        Some(VolumeKind::Fixed)
    } else if drive_type == 4 {
        Some(VolumeKind::Network)
    } else if drive_type == 5 || drive_type == 6 {
        None
    } else {
        Some(VolumeKind::Other)
    }
}

/// The kind of volume on a drive, if the drive is to be tested.
pub fn drive_kind(drive_type: u32) -> (kind: Option<VolumeKind>)
    ensures
        kind == kind_of_drive(drive_type),
{
    match drive_type {
        2 => Some(VolumeKind::Removable),
        3 => Some(VolumeKind::Fixed),
        4 => Some(VolumeKind::Network),
        5 | 6 => None,
        _ => Some(VolumeKind::Other),
    }
}

/// A text without the NUL characters at its end.
pub open spec fn without_nuls(s: Seq<char>) -> Seq<char>
    decreases s.len(),
{
    if s.len() > 0 && s.last() == '\0' {
        without_nuls(s.drop_last())
    } else {
        s
    }
}

/// Removes the NUL characters at the end of a text.
pub fn strip_nuls(chars: &[char]) -> (result: Vec<char>)
    ensures
        result@ == without_nuls(chars@),
{
    let mut to: usize = chars.len();
    assert(chars@.subrange(0, to as int) =~= chars@);
    while to > 0 && chars[to - 1] == '\0'
        invariant
            to <= chars@.len(),
            without_nuls(chars@) == without_nuls(chars@.subrange(0, to as int)),
        decreases to,
    {
        assert(chars@.subrange(0, to as int).drop_last() =~= chars@.subrange(0, to - 1));
        to -= 1;
    }
    text::part(chars, 0, to)
}

/// The label in a volume's decoded name buffer: none if nothing but NULs and
/// white space is in it.
pub open spec fn label_in(decoded: Seq<char>) -> Option<Seq<char>> {
    let label = text::trim(without_nuls(decoded));
    if label.len() > 0 {
        Some(label)
    } else {
        None
    }
}

/// Reads the label out of a volume's decoded name buffer.
pub fn label_of(decoded: &str) -> (label: Option<String>)
    ensures
        label is Some <==> label_in(decoded@) is Some,
        label is Some ==> label->0@ == label_in(decoded@)->0,
{
    let chars = text::chars_of(decoded);
    let stripped = strip_nuls(chars.as_slice());
    let label = text::trimmed(stripped.as_slice());
    if label.len() > 0 {
        Some(text::string_of(label.as_slice()))
    } else {
        None
    }
}

/// The buffers that a volume's names were read into.
pub struct NameBuffers {
    pub label: Vec<u16>,
    pub fs: Vec<u16>,
}

/// What was found out about a drive.
pub struct DriveProbe {
    pub root: String,
    pub drive_type: u32,
    /// The total and the free bytes, if they could be read.
    pub space: Option<(u64, u64)>,
    /// The names, if they could be read.
    pub names: Option<NameBuffers>,
}

impl DriveProbe {
    /// The drive is to be tested, and its size could be read.
    pub open spec fn is_tested(self) -> bool {
        kind_of_drive(self.drive_type) is Some && self.space is Some
    }
}

/// The volume is the one that was found on a drive.
pub open spec fn is_drive_volume(v: VolumeInfo, probe: DriveProbe) -> bool {
    &&& v.mount_point@ == probe.root@
    &&& v.device is None
    &&& v.total_bytes == (probe.space->0).0
    &&& v.free_bytes == (probe.space->0).1
    &&& v.kind == kind_of_drive(probe.drive_type)->0
    &&& match probe.names {
        Some(names) => {
            &&& v.fs@ == without_nuls(decoded(names.fs@))
            &&& v.label is Some <==> label_in(decoded(names.label@)) is Some
            &&& v.label is Some ==> v.label->0@ == label_in(decoded(names.label@))->0
        },
        None => v.fs@ == Seq::<char>::empty() && v.label is None,
    }
}

/// The volume on a drive: none if the drive is not to be tested, or if its size
/// could not be read.
pub fn drive_volume(probe: &DriveProbe) -> (volume: Option<VolumeInfo>)
    ensures
        volume is Some <==> probe.is_tested(),
        volume is Some ==> is_drive_volume(volume->0, *probe),
{
    let kind = match drive_kind(probe.drive_type) {
        Some(kind) => kind,
        None => {
            return None;
        },
    };
    let (total_bytes, free_bytes) = match probe.space {
        Some((total, free)) => (total, free),
        None => {
            return None;
        },
    };
    let (label, fs) = match &probe.names {
        Some(names) => {
            let label = label_of(decode_utf16(names.label.as_slice()).as_str());
            let decoded = text::chars_of(decode_utf16(names.fs.as_slice()).as_str());
            let stripped = strip_nuls(decoded.as_slice());
            (label, text::string_of(stripped.as_slice()))
        },
        None => (None, String::new()),
    };
    Some(
        VolumeInfo {
            mount_point: probe.root.clone(),
            device: None,
            fs,
            total_bytes,
            free_bytes,
            kind,
            label,
        },
    )
}

/// The drives that are to be tested, in order.
pub open spec fn tested(drives: Seq<DriveProbe>) -> Seq<DriveProbe> {
    drives.filter(|d: DriveProbe| d.is_tested())
}

/// The volumes are those on the drives, in order.
pub open spec fn are_drive_volumes(volumes: Seq<VolumeInfo>, drives: Seq<DriveProbe>) -> bool {
    &&& volumes.len() == drives.len()
    &&& forall|i: int|
        0 <= i < volumes.len() ==> is_drive_volume(#[trigger] volumes[i], drives[i])
}

/// The volumes that can be tested, given what was found out about each drive.
pub fn list_volumes(drives: &[DriveProbe]) -> (volumes: Vec<VolumeInfo>)
    ensures
        are_drive_volumes(volumes@, tested(drives@)),
{
    let mut volumes: Vec<VolumeInfo> = Vec::new();
    let mut i: usize = 0;
    proof {
        reveal(Seq::filter);
    }
    while i < drives.len()
        invariant
            i <= drives@.len(),
            are_drive_volumes(volumes@, tested(drives@.take(i as int))),
        decreases drives@.len() - i,
    {
        proof {
            reveal(Seq::filter);
            assert(drives@.take(i + 1).drop_last() =~= drives@.take(i as int));
        }
        if let Some(volume) = drive_volume(&drives[i]) {
            volumes.push(volume);
        }
        i += 1;
    }
    assert(drives@.take(i as int) =~= drives@);
    volumes
}

/// The free space at a path, if it could be read.
pub fn available_space(path: &str, free: Option<u64>) -> (result: Result<u64, VolumeError>)
    ensures
        match free {
            Some(bytes) => result == Ok::<u64, VolumeError>(bytes),
            None => result matches Err(VolumeError::CallFailed(p)) && p@ == path@,
        },
{
    match free {
        Some(bytes) => Ok(bytes),
        None => Err(VolumeError::CallFailed(path.to_owned())),
    }
}

/// A bit of a number is set; bit 0 is the lowest.
pub open spec fn is_set(mask: nat, bit: nat) -> bool
    decreases bit,
{
    if bit == 0 {
        mask % 2 == 1
    } else {
        is_set(mask / 2, (bit - 1) as nat)
    }
}

proof fn lemma_roots_from(mask: nat, index: nat, i: nat)
    requires
        index <= i < 26,
    ensures
        roots_from(mask, index).contains(drive_root(i)) <==> is_set(mask, (i - index) as nat),
    decreases 26 - index,
{
    let rest = roots_from(mask / 2, index + 1);
    let all = roots_from(mask, index);
    lemma_roots_above(mask / 2, index + 1);
    assert(drive_root(i)[0] == (65 + i) as char);
    assert(drive_root(index)[0] == (65 + index) as char);
    if i > index {
        lemma_roots_from(mask / 2, index + 1, i);
        if all.contains(drive_root(i)) {
            let k = choose|k: int| 0 <= k < all.len() && all[k] == drive_root(i);
            if mask % 2 == 1 {
                assert(k > 0);
                assert(rest[k - 1] == drive_root(i));
            }
        }
        if rest.contains(drive_root(i)) {
            let k = choose|k: int| 0 <= k < rest.len() && rest[k] == drive_root(i);
            if mask % 2 == 1 {
                assert(all[k + 1] == drive_root(i));
            }
        }
    } else {
        if mask % 2 == 1 {
            assert(all[0] == drive_root(i));
        } else if all.contains(drive_root(i)) {
            let k = choose|k: int| 0 <= k < rest.len() && rest[k] == drive_root(i);
            assert(rest[k][0] as int > 65 + index);
        }
    }
}

proof fn lemma_roots_above(mask: nat, index: nat)
    requires
        index <= 26,
    ensures
        forall|k: int|
            0 <= k < roots_from(mask, index).len() ==> {
                let root = #[trigger] roots_from(mask, index)[k];
                root.len() == 3 && 65 + index <= root[0] as int <= 90 && root[1] == ':' && root[2]
                    == '\\'
            },
        forall|k: int, m: int|
            #![trigger roots_from(mask, index)[k], roots_from(mask, index)[m]]
            0 <= k < m < roots_from(mask, index).len() ==> roots_from(mask, index)[k][0]
                < roots_from(mask, index)[m][0],
    decreases 26 - index,
{
    reveal_strlit(":\\");
    if index < 26 {
        let rest = roots_from(mask / 2, index + 1);
        let all = roots_from(mask, index);
        lemma_roots_above(mask / 2, index + 1);
        if mask % 2 == 1 {
            assert forall|k: int| 0 <= k < all.len() implies {
                let root = #[trigger] all[k];
                root.len() == 3 && 65 + index <= root[0] as int <= 90 && root[1] == ':' && root[2]
                    == '\\'
            } by {
                if k > 0 {
                    assert(all[k] == rest[k - 1]);
                }
            }
            assert forall|k: int, m: int|
                #![trigger all[k], all[m]]
                0 <= k < m < all.len() implies all[k][0] < all[m][0] by {
                assert(all[m] == rest[m - 1]);
                if k > 0 {
                    assert(all[k] == rest[k - 1]);
                }
            }
        }
    }
}

/// A drive is listed exactly if its bit is set: `A` has the lowest bit, and `Z` the
/// twenty-sixth. The drives come in alphabetical order, each as a letter with a
/// colon and a backslash.
pub proof fn drives_are_listed_by_their_bits(mask: nat, i: nat)
    requires
        i < 26,
    ensures
        roots_from(mask, 0).contains(seq![(65 + i) as char, ':', '\\']) <==> is_set(mask, i),
        forall|k: int|
            0 <= k < roots_from(mask, 0).len() ==> {
                let root = #[trigger] roots_from(mask, 0)[k];
                root.len() == 3 && 'A' <= root[0] <= 'Z' && root[1] == ':' && root[2] == '\\'
            },
        forall|k: int, m: int|
            #![trigger roots_from(mask, 0)[k], roots_from(mask, 0)[m]]
            0 <= k < m < roots_from(mask, 0).len() ==> roots_from(mask, 0)[k][0] < roots_from(
                mask,
                0,
            )[m][0],
{
    reveal_strlit(":\\");
    lemma_roots_from(mask, 0, i);
    lemma_roots_above(mask, 0);
    assert(drive_root(i) =~= seq![(65 + i) as char, ':', '\\']);
}

/// What a Windows drive type stands for: 2 is removable, 3 fixed and 4 a network
/// drive, and 5 and 6, CD-ROM drives and RAM disks, are not tested. Every other
/// type is some other drive.
pub proof fn drive_types_have_their_kinds(drive_type: u32)
    ensures
        kind_of_drive(2) == Some(VolumeKind::Removable),
        kind_of_drive(3) == Some(VolumeKind::Fixed),
        kind_of_drive(4) == Some(VolumeKind::Network),
        kind_of_drive(drive_type) is None <==> drive_type == 5 || drive_type == 6,
        drive_type < 2 || drive_type > 6 ==> kind_of_drive(drive_type) == Some(VolumeKind::Other),
{
}

/// What is taken from the end of a text are NUL characters, and all of them.
pub proof fn only_nuls_are_stripped(s: Seq<char>)
    ensures
        without_nuls(s).len() <= s.len(),
        s.take(without_nuls(s).len() as int) == without_nuls(s),
        forall|i: int| without_nuls(s).len() <= i < s.len() ==> #[trigger] s[i] == '\0',
        without_nuls(s).len() > 0 ==> without_nuls(s).last() != '\0',
    decreases s.len(),
{
    if s.len() > 0 && s.last() == '\0' {
        let front = s.drop_last();
        only_nuls_are_stripped(front);
        let n = without_nuls(s).len() as int;
        assert(s.take(n) =~= front.take(n));
        assert forall|i: int| n <= i < s.len() implies #[trigger] s[i] == '\0' by {
            if i < s.len() - 1 {
                assert(s[i] == front[i]);
            }
        }
    } else {
        assert(s.take(s.len() as int) =~= s);
    }
}

/// A label is what the name buffer holds without NULs and white space at its ends,
/// if that is anything.
pub proof fn labels_are_trimmed(buffer: Seq<char>)
    ensures
        label_in(buffer) is None <==> text::trim(without_nuls(buffer)).len() == 0,
        label_in(buffer) matches Some(label) ==> {
            &&& label == text::trim(without_nuls(buffer))
            &&& label.len() > 0
            &&& !text::is_space(label[0])
            &&& !text::is_space(label.last())
        },
{
    let ends = text::trimming_takes_spaces_only(without_nuls(buffer));
}

/// Every drive that is not a CD-ROM drive or a RAM disk, and whose size could be
/// read, is listed: with its root, its sizes and its kind.
pub proof fn readable_drives_are_listed(
    drives: Seq<DriveProbe>,
    volumes: Seq<VolumeInfo>,
    i: int,
)
    requires
        are_drive_volumes(volumes, tested(drives)),
        0 <= i < drives.len(),
        drives[i].drive_type != 5,
        drives[i].drive_type != 6,
        drives[i].space is Some,
    ensures
        exists|v: int|
            0 <= v < volumes.len() && {
                let volume = #[trigger] volumes[v];
                &&& volume.mount_point@ == drives[i].root@
                &&& volume.total_bytes == (drives[i].space->0).0
                &&& volume.free_bytes == (drives[i].space->0).1
                &&& volume.device is None
                &&& drives[i].drive_type == 2 ==> volume.kind == VolumeKind::Removable
                &&& drives[i].drive_type == 3 ==> volume.kind == VolumeKind::Fixed
                &&& drives[i].drive_type == 4 ==> volume.kind == VolumeKind::Network
                &&& drives[i].drive_type < 2 || drives[i].drive_type > 6 ==> volume.kind
                    == VolumeKind::Other
                &&& drives[i].names is None ==> volume.label is None && volume.fs@.len() == 0
                &&& drives[i].names matches Some(names) ==> volume.fs@ == without_nuls(
                    decoded(names.fs@),
                )
            },
{
    let pred = |d: DriveProbe| d.is_tested();
    let chosen = tested(drives);
    assert(chosen == drives.filter(pred));
    assert(pred(drives[i]));
    drives.lemma_filter_contains(pred, i);
    let v = choose|v: int| 0 <= v < chosen.len() && chosen[v] == drives[i];
    assert(is_drive_volume(volumes[v], chosen[v]));
}

/// No other drive is listed.
pub proof fn listed_drives_are_readable(
    drives: Seq<DriveProbe>,
    volumes: Seq<VolumeInfo>,
    v: int,
)
    requires
        are_drive_volumes(volumes, tested(drives)),
        0 <= v < volumes.len(),
    ensures
        volumes.len() <= drives.len(),
        exists|i: int|
            0 <= i < drives.len() && (#[trigger] drives[i]).root@ == volumes[v].mount_point@
                && drives[i].drive_type != 5 && drives[i].drive_type != 6 && drives[i].space
                is Some,
{
    let pred = |d: DriveProbe| d.is_tested();
    let chosen = tested(drives);
    assert(chosen == drives.filter(pred));
    drives.lemma_filter_len(pred);
    drives.lemma_filter_pred(pred, v);
    assert(chosen.contains(chosen[v]));
    drives.lemma_filter_contains_rev(pred, chosen[v]);
    let i = choose|i: int| 0 <= i < drives.len() && drives[i] == chosen[v];
    assert(is_drive_volume(volumes[v], chosen[v]));
    assert(drives[i].root@ == volumes[v].mount_point@);
}

/// A drive's label is the one in its name buffer, if there is one.
pub proof fn labels_are_those_of_the_drives(volume: VolumeInfo, probe: DriveProbe)
    requires
        is_drive_volume(volume, probe),
    ensures
        probe.names is None ==> volume.label is None,
        probe.names matches Some(names) ==> {
            let label = text::trim(without_nuls(decoded(names.label@)));
            &&& label.len() == 0 ==> volume.label is None
            &&& label.len() > 0 ==> volume.label is Some && volume.label->0@ == label
        },
{
}

/// How UTF-16 is read: a unit that is no half of a pair is the character with its
/// code, two halves are the character with the code that they make up, and a half
/// alone becomes the replacement character.
pub proof fn code_units_are_decoded(unit: u16, high: u16, low: u16, rest: Seq<u16>)
    requires
        !(0xd800 <= unit <= 0xdfff),
        0xd800 <= high <= 0xdbff,
        0xdc00 <= low <= 0xdfff,
    ensures
        decoded(Seq::<u16>::empty()).len() == 0,
        decoded(seq![unit] + rest) == seq![unit as char] + decoded(rest),
        decoded(seq![high, low] + rest) == seq![
            ((high - 0xd800) * 1024 + (low - 0xdc00) + 65536) as char,
        ] + decoded(rest),
        decoded(seq![low] + rest) == seq!['\u{fffd}'] + decoded(rest),
        decoded(seq![high, unit] + rest) == seq!['\u{fffd}', unit as char] + decoded(rest),
        decoded(seq![high]) == seq!['\u{fffd}'],
{
    let none = Seq::<u16>::empty();
    assert((seq![unit] + rest).skip(1) =~= rest);
    assert((seq![high, low] + rest).skip(2) =~= rest);
    assert((seq![low] + rest).skip(1) =~= rest);
    let broken = seq![high, unit] + rest;
    assert(broken.skip(1) =~= seq![unit] + rest);
    assert(decoded(broken) =~= seq!['\u{fffd}'] + decoded(broken.skip(1)));
    assert(decoded(broken) =~= seq!['\u{fffd}', unit as char] + decoded(rest));
    assert(seq![high].skip(1) =~= none);
    assert(decoded(none) =~= seq![]);
    assert(decoded(seq![high]) =~= seq!['\u{fffd}']);
}

} // verus!
