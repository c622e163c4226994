//! Platforms without volume support.

use super::{VolumeError, VolumeInfo};
use vstd::prelude::*;

verus! {

/// No volume is known.
pub fn list_volumes() -> (volumes: Vec<VolumeInfo>)
    ensures
        volumes@ == Seq::<VolumeInfo>::empty(),
{
    Vec::new()
}

/// The free space cannot be read.
pub fn available_space(_path: &str) -> (result: Result<u64, VolumeError>)
    ensures
        result == Err::<u64, VolumeError>(VolumeError::Unsupported),
{
    Err(VolumeError::Unsupported)
}

} // verus!
