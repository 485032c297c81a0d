//! The search for the device file of a block device, by its device
//! number.

use vstd::prelude::*;

verus! {

/// What is known of a file without following a link.
#[derive(Clone, Copy, Debug, PartialEq, Eq, Structural)]
pub struct FileStat {
    pub is_block_device: bool,
    pub is_dir: bool,
    /// The number of the device that the file lies on.
    pub dev: u64,
    /// The number of the device that the file stands for.
    pub rdev: u64,
}

/// The number of the block device behind a path: that of the device
/// itself for a device file, and that of the device on which the file
/// lies for any other.
pub fn find_block_device(stat: &FileStat) -> (r: u64)
    ensures
        r == if stat.is_block_device {
            stat.rdev
        } else {
            stat.dev
        },
{
    if stat.is_block_device {
        stat.rdev
    } else {
        stat.dev
    }
}

/// What the search does with an entry of a directory.
#[derive(Clone, Copy, Debug, PartialEq, Eq, Structural)]
pub enum SearchStep {
    /// The entry is the device file.
    Found,
    /// The entry is a directory: search it, and go on with the next
    /// entry if the device file is not in it.
    Descend,
    /// Go on with the next entry.
    Skip,
}

/// Decides what the search for the device `device` does with an entry
/// of a directory. `stat` is what is known of the entry, nothing where
/// it could not be examined. The directory itself and its parent are
/// not searched.
pub fn find_block_device_in_dir(name: &str, stat: Option<FileStat>, device: u64) -> (r: SearchStep)
    ensures
        r == match stat {
            None => SearchStep::Skip,
            Some(s) => if s.is_block_device && s.rdev == device {
                SearchStep::Found
            } else if s.is_dir && !(name@ == seq!['.'] || name@ == seq!['.', '.']) {
                SearchStep::Descend
            } else {
                SearchStep::Skip
            },
        },
{
    match stat {
        None => SearchStep::Skip,
        Some(s) => if s.is_block_device && s.rdev == device {
            SearchStep::Found
        } else if s.is_dir && !crate::system::is_dot_entry(name) {
            SearchStep::Descend
        } else {
            SearchStep::Skip
        },
    }
}

} // verus!
