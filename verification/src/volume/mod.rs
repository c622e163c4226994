//! Mounted volumes: what is known of one, and how a target is matched to one.

pub mod linux;
pub mod unsupported;
pub mod windows;

use crate::text;
use vstd::prelude::*;

verus! {

/// What sort of drive a volume is on.
#[derive(Debug, Clone, Copy, PartialEq, Eq, Structural)]
pub enum VolumeKind {
    Removable,
    Fixed,
    Network,
    Other,
}

impl VolumeKind {
    /// The name of the kind.
    pub open spec fn name(self) -> Seq<char> {
        match self {
            VolumeKind::Removable => "Removable"@,
            VolumeKind::Fixed => "Fixed"@,
            VolumeKind::Network => "Network"@,
            VolumeKind::Other => "Other"@,
        }
    }

    /// The name of the kind, for display.
    pub fn label(self) -> (label: &'static str)
        ensures
            label@ == self.name(),
    {
        match self {
            VolumeKind::Removable => "Removable",
            VolumeKind::Fixed => "Fixed",
            VolumeKind::Network => "Network",
            VolumeKind::Other => "Other",
        }
    }
}

/// A mounted volume.
#[derive(Debug)]
pub struct VolumeInfo {
    pub mount_point: String,
    pub device: Option<String>,
    pub fs: String,
    pub total_bytes: u64,
    pub free_bytes: u64,
    pub kind: VolumeKind,
    pub label: Option<String>,
}

/// A copy of an optional string.
pub fn copy_text(text: &Option<String>) -> (copy: Option<String>)
    ensures
        copy == *text,
{
    match text {
        Some(t) => Some(t.clone()),
        None => None,
    }
}

impl Clone for VolumeInfo {
    fn clone(&self) -> (copy: Self)
        ensures
            copy == *self,
    {
        VolumeInfo {
            mount_point: self.mount_point.clone(),
            device: copy_text(&self.device),
            fs: self.fs.clone(),
            total_bytes: self.total_bytes,
            free_bytes: self.free_bytes,
            kind: self.kind,
            label: copy_text(&self.label),
        }
    }
}

impl VolumeInfo {
    /// The mount point, followed by the label in brackets if there is one.
    pub open spec fn title(self) -> Seq<char> {
        match self.label {
            Some(label) if label@.len() > 0 => self.mount_point@ + " ("@ + label@ + ")"@,
            _ => self.mount_point@,
        }
    }

    /// The name that a volume is shown under.
    pub fn display_name(&self) -> (name: String)
        ensures
            name@ == self.title(),
    {
        let mut name = self.mount_point.clone();
        if let Some(label) = &self.label {
            if !label.as_str().is_empty() {
                name.append(" (");
                name.append(label.as_str());
                name.append(")");
            }
        }
        name
    }
}

/// Why a volume cannot be used.
#[derive(Debug)]
pub enum VolumeError {
    /// The target path does not exist.
    Missing(String),
    /// The free space at a path could not be read.
    Unreadable(String),
    /// Windows did not report the free space at a path.
    CallFailed(String),
    /// The target is not the root of a mounted volume.
    NotMounted(String),
    /// The platform is not implemented.
    Unsupported,
}

impl VolumeError {
    /// What the message of an error says.
    pub open spec fn text(self) -> Seq<char> {
        match self {
            VolumeError::Missing(target) => "target does not exist: "@ + target@,
            VolumeError::Unreadable(path) => "failed to read free space for "@ + path@,
            VolumeError::CallFailed(path) => "GetDiskFreeSpaceExW failed for "@ + path@,
            VolumeError::NotMounted(path) => "target is not a mounted volume root: "@ + path@,
            VolumeError::Unsupported =>
                "this platform is not implemented yet; Windows and Linux are supported"@,
        }
    }

    /// The message of an error.
    pub fn message(&self) -> (message: String)
        ensures
            message@ == self.text(),
    {
        match self {
            VolumeError::Missing(target) => "target does not exist: ".to_owned().concat(
                target.as_str(),
            ),
            VolumeError::Unreadable(path) => "failed to read free space for ".to_owned().concat(
                path.as_str(),
            ),
            VolumeError::CallFailed(path) => "GetDiskFreeSpaceExW failed for ".to_owned().concat(
                path.as_str(),
            ),
            VolumeError::NotMounted(path) => "target is not a mounted volume root: ".to_owned().concat(
                path.as_str(),
            ),
            VolumeError::Unsupported =>
                "this platform is not implemented yet; Windows and Linux are supported".to_owned(),
        }
    }
}

/// A bare drive: one ASCII character and a colon.
pub open spec fn is_bare_drive(target: Seq<char>) -> bool {
    target.len() == 2 && target[0] < '\u{80}' && target[1] == ':'
}

/// A user-supplied target in the form the platform wants it.
pub open spec fn normalized_target(target: Seq<char>, windows: bool) -> Seq<char> {
    if windows && is_bare_drive(target) {
        target + "\\"@
    } else {
        target
    }
}

/// Normalizes a user-supplied volume path.
///
/// Windows accepts `E:` and turns it into `E:\`; other paths are left as they
/// are.
pub fn normalize_target_path(target: &str, windows: bool) -> (path: String)
    ensures
        path@ == normalized_target(target@, windows),
{
    let chars = text::chars_of(target);
    let mut path = target.to_owned();
    if windows && chars.len() == 2 && chars[0] < '\u{80}' && chars[1] == ':' {
        path.append("\\");
    }
    path
}

/// Tells whether two byte strings are equal.
pub fn same_bytes(a: &[u8], b: &[u8]) -> (result: bool)
    ensures
        result == (a@ == b@),
{
    if a.len() != b.len() {
        return false;
    }
    let mut i: usize = 0;
    while i < a.len()
        invariant
            i <= a@.len(),
            a@.len() == b@.len(),
            forall|k: int| 0 <= k < i ==> #[trigger] a@[k] == b@[k],
        decreases a@.len() - i,
    {
        if a[i] != b[i] {
            return false;
        }
        i += 1;
    }
    assert(a@ =~= b@);
    true
}

/// `i` is the first volume whose root is the target.
pub open spec fn first_root(roots: Seq<Vec<u8>>, target: Seq<u8>, i: int) -> bool {
    &&& 0 <= i < roots.len()
    &&& roots[i]@ == target
    &&& forall|j: int| 0 <= j < i ==> (#[trigger] roots[j])@ != target
}

/// Finds the mounted volume whose root is exactly `target`.
///
/// `roots` holds the canonical path of each volume's mount point, and `target`
/// the canonical path that is looked for. This deliberately does not walk up
/// from subdirectories: a test only writes into a mounted volume root, never
/// into arbitrary directories or raw devices.
pub fn find_volume(volumes: &[VolumeInfo], roots: &[Vec<u8>], target: &[u8]) -> (found: Option<
    VolumeInfo,
>)
    requires
        volumes@.len() == roots@.len(),
    ensures
        match found {
            Some(volume) => exists|i: int| #[trigger]
                first_root(roots@, target@, i) && volume == volumes@[i],
            None => forall|j: int| 0 <= j < roots@.len() ==> (#[trigger] roots@[j])@ != target@,
        },
{
    let mut i: usize = 0;
    while i < roots.len()
        invariant
            i <= roots@.len(),
            volumes@.len() == roots@.len(),
            forall|j: int| 0 <= j < i ==> (#[trigger] roots@[j])@ != target@,
        decreases roots@.len() - i,
    {
        if same_bytes(roots[i].as_slice(), target) {
            assert(first_root(roots@, target@, i as int));
            return Some(volumes[i].clone());
        }
        i += 1;
    }
    None
}

/// The volume at a target, or the error that there is none.
pub fn resolve_target(path: &str, found: Option<VolumeInfo>) -> (result: Result<
    VolumeInfo,
    VolumeError,
>)
    ensures
        match found {
            Some(volume) => result == Ok::<VolumeInfo, VolumeError>(volume),
            None => result matches Err(VolumeError::NotMounted(p)) && p@ == path@,
        },
{
    match found {
        Some(volume) => Ok(volume),
        None => Err(VolumeError::NotMounted(path.to_owned())),
    }
}

/// The free space for the mounted volume that contains `target`: what was read
/// there, provided that the target exists.
pub fn free_space(target: &str, present: bool, available: Result<u64, VolumeError>) -> (result:
    Result<u64, VolumeError>)
    ensures
        if present {
            result == available
        } else {
            result matches Err(VolumeError::Missing(t)) && t@ == target@
        },
{
    if !present {
        return Err(VolumeError::Missing(target.to_owned()));
    }
    available
}

/// A target is changed only on Windows, and there only a drive letter with a colon,
/// which gets its backslash.
pub proof fn only_bare_drives_are_completed(target: Seq<char>, letter: char)
    ensures
        normalized_target(target, false) == target,
        letter < '\u{80}' ==> normalized_target(seq![letter, ':'], true) == seq![letter, ':', '\\'],
        target.len() != 2 ==> normalized_target(target, true) == target,
        target.len() == 2 && target[1] != ':' ==> normalized_target(target, true) == target,
        target.len() == 2 && target[0] >= '\u{80}' ==> normalized_target(target, true) == target,
        normalized_target(normalized_target(target, true), true) == normalized_target(target, true),
{
    reveal_strlit("\\");
    let bare = seq![letter, ':'];
    assert(bare + "\\"@ =~= seq![letter, ':', '\\']);
}

/// A volume is shown under its mount point, with its label behind it in brackets
/// if it has one.
pub proof fn titles_show_the_label(volume: VolumeInfo)
    ensures
        volume.label is None || volume.label->0@.len() == 0 ==> volume.title()
            == volume.mount_point@,
        volume.label is Some && volume.label->0@.len() > 0 ==> volume.title()
            == volume.mount_point@ + " ("@ + volume.label->0@ + ")"@,
{
}

/// Of volumes with the same root the first counts: there is one at most.
pub proof fn first_roots_are_unique(roots: Seq<Vec<u8>>, target: Seq<u8>, i: int, j: int)
    requires
        first_root(roots, target, i),
        0 <= j < roots.len(),
        roots[j]@ == target,
    ensures
        i <= j,
        roots[i]@ == target,
{
}

/// No two kinds of drives have the same name.
pub proof fn kinds_have_their_names(a: VolumeKind, b: VolumeKind)
    ensures
        a.name() == b.name() ==> a == b,
{
    reveal_strlit("Removable");
    reveal_strlit("Fixed");
    reveal_strlit("Network");
    reveal_strlit("Other");
    assert("Removable"@[0] == 'R' && "Fixed"@[0] == 'F' && "Network"@[0] == 'N' && "Other"@[0]
        == 'O');
}

/// Free space is only told of a target that is there.
pub proof fn missing_targets_have_no_space(
    target: &str,
    present: bool,
    available: Result<u64, VolumeError>,
    result: Result<u64, VolumeError>,
)
    requires
        call_ensures(free_space, (target, present, available), result),
    ensures
        present ==> result == available,
        !present ==> (result matches Err(VolumeError::Missing(t)) && t@ == target@),
{
}

/// A target is refused exactly if no volume was found at it.
pub proof fn targets_without_a_volume_are_refused(
    path: &str,
    found: Option<VolumeInfo>,
    result: Result<VolumeInfo, VolumeError>,
)
    requires
        call_ensures(resolve_target, (path, found), result),
    ensures
        result is Ok <==> found is Some,
        found matches Some(volume) ==> result->Ok_0 == volume,
        found is None ==> (result matches Err(VolumeError::NotMounted(p)) && p@ == path@),
{
}

/// The message of an error ends with the path that it is about.
pub proof fn volume_errors_name_the_path(error: VolumeError, path: String)
    requires
        error == VolumeError::Missing(path) || error == VolumeError::Unreadable(path) || error
            == VolumeError::CallFailed(path) || error == VolumeError::NotMounted(path),
    ensures
        text::has_suffix(error.text(), path@),
{
    let whole = error.text();
    assert(whole.skip(whole.len() - path@.len()) =~= path@);
}

} // verus!
