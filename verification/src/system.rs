//! Block devices and kernel parameters: where an executable is sought,
//! where a kernel parameter lives, how block devices are named, and how
//! far the root partition can grow.

use vstd::prelude::*;
use crate::fs::join_below;
use crate::text::{
    append_chars, from_chars, is_ascii_digit, is_prefix, parse_i64, parse_i64_spec, rows,
    split_chars, split_on, starts_with, to_chars, trim, trim_end, trim_end_spec, trim_spec, views,
};

verus! {

/// Why a block device could not be handled.
#[derive(Clone, Copy, Debug, PartialEq, Eq, Structural)]
pub enum SystemError {
    /// A file that should hold a number holds something else.
    NotANumber,
    /// The probe for a filesystem ended with this unexpected exit code.
    ProbeFailed(i32),
    /// The probe for a filesystem was ended by a signal.
    ProbeKilled,
    /// The disk has sectors of a size other than 512 or 4096 bytes.
    UnsupportedSectorSize(i64),
    /// The figures of the disk and of its partition table do not fit
    /// together.
    InvalidGeometry,
    /// The partition table has no partition named `root`.
    RootPartitionNotFound,
    /// The link for a device could not be made.
    LinkFailed(i32),
}

/// A block device: its kernel name and, for a partition, its number.
#[derive(Debug, Eq, Ord, PartialEq, PartialOrd)]
pub struct DeviceInfo {
    pub name: String,
    pub part_num: Option<String>,
}

/// The path that pushing the component `part` onto `base` gives: a
/// component that starts at the root replaces the base, any other is
/// joined below it.
pub open spec fn path_push(base: Seq<char>, part: Seq<char>) -> Seq<char> {
    if part.len() > 0 && part[0] == '/' {
        part
    } else {
        join_below(base, part)
    }
}

/// Pushes the component `part` onto the path `base`.
pub fn push_component(base: &mut Vec<char>, part: &[char])
    ensures
        final(base)@ == path_push(old(base)@, part@),
{
    if part.len() > 0 && part[0] == '/' {
        base.clear();
        append_chars(base, part);
        assert(Seq::<char>::empty() + part@ == part@);
    } else {
        if base.len() > 0 && base[base.len() - 1] != '/' {
            base.push('/');
        }
        append_chars(base, part);
    }
}

/// The path under which `executable` is sought in the directory `dir`
/// of the search path: the directory below the root, and the executable
/// below the directory.
pub open spec fn candidate_path(dir: Seq<char>, executable: Seq<char>) -> Seq<char> {
    path_push(path_push(seq!['/'], dir), executable)
}

/// The paths under which `executable` is sought, one for each directory
/// of the colon-separated search path, in its order.
pub open spec fn candidates_spec(executable: Seq<char>, path_var: Seq<char>) -> Seq<Seq<char>> {
    let dirs = split_on(path_var, ':');
    Seq::new(dirs.len(), |i: int| candidate_path(dirs[i], executable))
}

/// Lists the paths under which `executable` is sought along the search
/// path `path_var`.
pub fn executable_candidates(executable: &str, path_var: &str) -> (r: Vec<String>)
    ensures
        views(r@) == candidates_spec(executable@, path_var@),
{
    let exe = to_chars(executable);
    let var = to_chars(path_var);
    let dirs = split_chars(var.as_slice(), ':');
    let mut out: Vec<String> = Vec::new();
    let mut i: usize = 0;
    while i < dirs.len()
        invariant
            i <= dirs.len(),
            exe@ == executable@,
            rows(dirs@) == split_on(path_var@, ':'),
            views(out@) == Seq::new(
                i as nat,
                |j: int| candidate_path(rows(dirs@)[j], executable@),
            ),
        decreases dirs.len() - i,
    {
        let mut path: Vec<char> = Vec::new();
        path.push('/');
        assert(path@ == seq!['/']);
        push_component(&mut path, dirs[i].as_slice());
        push_component(&mut path, exe.as_slice());
        assert(rows(dirs@)[i as int] == dirs@[i as int]@);
        let text = from_chars(path.as_slice());
        let ghost before = out@;
        out.push(text);
        assert(views(out@) == views(before).push(text@));
        i += 1;
    }
    out
}

/// Whether a file of this mode may be executed by someone.
pub open spec fn mode_is_executable(mode: u32) -> bool {
    mode & 0o111 != 0
}

/// The index of the first candidate that exists and may be executed,
/// or the number of candidates. `modes[i]` is the mode of the `i`-th
/// candidate, `None` where it does not exist.
pub open spec fn first_executable(modes: Seq<Option<u32>>) -> int
    decreases modes.len(),
{
    if modes.len() == 0 {
        0
    } else if modes[0] is Some && mode_is_executable(modes[0]->0) {
        0
    } else {
        1 + first_executable(modes.skip(1))
    }
}

/// Seeks `executable` along the search path `path_var`. `modes` holds,
/// for each candidate path in order, the mode of the file there, or
/// `None` where there is none. The result is the first candidate that
/// exists and may be executed.
#[verifier::loop_isolation(false)]
pub fn find_executable_in_path(executable: &str, path_var: &str, modes: &Vec<Option<u32>>) -> (r:
    Option<String>)
    ensures
        ({
            let candidates = candidates_spec(executable@, path_var@);
            let known = if modes@.len() <= candidates.len() {
                modes@
            } else {
                modes@.take(candidates.len() as int)
            };
            let k = first_executable(known);
            match r {
                Some(path) => k < known.len() && path@ == candidates[k],
                None => k == known.len(),
            }
        }),
{
    let candidates = executable_candidates(executable, path_var);
    let n = if modes.len() <= candidates.len() {
        modes.len()
    } else {
        candidates.len()
    };
    let ghost known = if modes@.len() <= candidates@.len() {
        modes@
    } else {
        modes@.take(candidates@.len() as int)
    };
    assert(known.len() == n);
    let mut i: usize = 0;
    assert(known.skip(0) == known);
    while i < n
        invariant
            i <= n,
            n == known.len(),
            n <= candidates.len(),
            n <= modes.len(),
            forall|j: int| 0 <= j < n ==> known[j] == modes@[j],
            first_executable(known) == i + first_executable(known.skip(i as int)),
        decreases n - i,
    {
        assert(known.skip(i as int)[0] == modes@[i as int]);
        let hit = match modes[i] {
            Some(mode) => mode & 0o111 != 0,
            None => false,
        };
        if hit {
            assert(views(candidates@)[i as int] == candidates@[i as int]@);
            return Some(candidates[i].clone());
        }
        assert(known.skip(i as int).skip(1) == known.skip(i + 1));
        i += 1;
    }
    None
}

/// The file of the kernel parameter `key`: below `/proc/sys`, one
/// component for each of the fields of `key` between dots.
pub open spec fn proc_path_upto(fields: Seq<Seq<char>>, n: nat) -> Seq<char>
    decreases n,
{
    if n == 0 {
        seq!['/', 'p', 'r', 'o', 'c', '/', 's', 'y', 's']
    } else {
        path_push(proc_path_upto(fields, (n - 1) as nat), fields[n - 1])
    }
}

/// The file of the kernel parameter `key`.
pub open spec fn proc_path_spec(key: Seq<char>) -> Seq<char> {
    proc_path_upto(split_on(key, '.'), split_on(key, '.').len())
}

/// Turns the dotted name of a kernel parameter into the path of its
/// file: `net.ipv4.tcp_syncookies` lives in
/// `/proc/sys/net/ipv4/tcp_syncookies`.
pub fn proc_path_from_dotted(key: &str) -> (r: String)
    ensures
        r@ == proc_path_spec(key@),
{
    let chars = to_chars(key);
    let fields = split_chars(chars.as_slice(), '.');
    let mut path: Vec<char> = to_chars("/proc/sys");
    proof {
        reveal_strlit("/proc/sys");
    }
    assert(path@ == seq!['/', 'p', 'r', 'o', 'c', '/', 's', 'y', 's']);
    let mut i: usize = 0;
    while i < fields.len()
        invariant
            i <= fields.len(),
            path@ == proc_path_upto(rows(fields@), i as nat),
        decreases fields.len() - i,
    {
        assert(rows(fields@)[i as int] == fields@[i as int]@);
        push_component(&mut path, fields[i].as_slice());
        i += 1;
    }
    from_chars(path.as_slice())
}

/// The file to write for the kernel parameter `key` when the system
/// lives below `base_dir`: the file of the parameter pushed onto the
/// base.
pub fn sysctl(base_dir: &str, key: &str) -> (r: String)
    ensures
        r@ == path_push(base_dir@, proc_path_spec(key@)),
{
    let mut path = to_chars(base_dir);
    let file = proc_path_from_dotted(key);
    push_component(&mut path, to_chars(file.as_str()).as_slice());
    from_chars(path.as_slice())
}

/// What the exit of the filesystem probe says about a device. `code`
/// is the exit code of the probe, or `None` when a signal ended it.
pub fn device_has_fs(code: Option<i32>) -> (r: Result<bool, SystemError>)
    ensures
        r == match code {
            Some(c) => if c == 0 {
                Ok::<bool, SystemError>(true)
            } else if c == 2 {
                Ok(false)
            } else {
                Err(SystemError::ProbeFailed(c))
            },
            None => Err(SystemError::ProbeKilled),
        },
{
    match code {
        Some(0) => Ok(true),
        Some(2) => Ok(false),
        Some(c) => Err(SystemError::ProbeFailed(c)),
        None => Err(SystemError::ProbeKilled),
    }
}

/// Whether the last character of `s` is a digit.
pub open spec fn digit_suffix(s: Seq<char>) -> bool {
    s.len() > 0 && is_ascii_digit(s.last())
}

/// Whether `string` ends in a digit.
pub fn has_digit_suffix(string: &str) -> (r: bool)
    ensures
        r == digit_suffix(string@),
{
    let chars = to_chars(string);
    let n = chars.len();
    n > 0 && chars[n - 1] >= '0' && chars[n - 1] <= '9'
}

/// The name of the link for a device whose cloud name is `cloud_name`:
/// the cloud name itself for a disk, and for a partition the cloud name
/// followed by the partition number, with a `p` between them where the
/// name ends in a digit.
pub open spec fn link_name_spec(cloud_name: Seq<char>, part_num: Option<Seq<char>>) -> Seq<char> {
    match part_num {
        None => cloud_name,
        Some(n) => if digit_suffix(cloud_name) {
            cloud_name + seq!['p'] + n
        } else {
            cloud_name + n
        },
    }
}

/// Names the link that stands for `device` under its cloud name.
pub fn link_device_name(device: &DeviceInfo, cloud_name: &str) -> (r: String)
    ensures
        r@ == link_name_spec(cloud_name@, crate::text::opt_view(device.part_num)),
{
    let mut out = to_chars(cloud_name);
    match &device.part_num {
        Some(n) => {
            if has_digit_suffix(cloud_name) {
                out.push('p');
            }
            append_chars(&mut out, to_chars(n.as_str()).as_slice());
        },
        None => {},
    }
    from_chars(out.as_slice())
}

/// How an attempt to make a link ended.
#[derive(Clone, Copy, Debug, PartialEq, Eq, Structural)]
pub enum LinkOutcome {
    Linked,
    AlreadyExists,
    Failed(i32),
}

/// Judges the outcome of linking a device. A link that exists already
/// is as good as a new one, so that a scan of the devices and the
/// listener for new ones may both try.
pub fn link_nvme_device(outcome: LinkOutcome) -> (r: Result<(), SystemError>)
    ensures
        r == match outcome {
            LinkOutcome::Linked => Ok::<(), SystemError>(()),
            LinkOutcome::AlreadyExists => Ok(()),
            LinkOutcome::Failed(e) => Err(SystemError::LinkFailed(e)),
        },
{
    match outcome {
        LinkOutcome::Linked => Ok(()),
        LinkOutcome::AlreadyExists => Ok(()),
        LinkOutcome::Failed(e) => Err(SystemError::LinkFailed(e)),
    }
}

/// Whether a directory entry is the directory itself or its parent.
pub fn is_dot_entry(name: &str) -> (r: bool)
    ensures
        r == (name@ == seq!['.'] || name@ == seq!['.', '.']),
{
    let chars = to_chars(name);
    if chars.len() == 1 {
        assert(chars@ == seq![chars@[0]]);
        chars[0] == '.'
    } else if chars.len() == 2 {
        assert(chars@ == seq![chars@[0], chars@[1]]);
        chars[0] == '.' && chars[1] == '.'
    } else {
        false
    }
}

/// Whether an entry below the directory of the disk `device` in the
/// block device tree may be one of its partitions: a directory whose
/// name starts with the name of the disk.
pub fn is_partition_entry(device: &str, entry_name: &str, is_dir: bool) -> (r: bool)
    ensures
        r == (is_dir && is_prefix(device@, entry_name@)),
{
    let d = to_chars(device);
    let e = to_chars(entry_name);
    is_dir && starts_with(e.as_slice(), d.as_slice())
}

/// The partition that an entry of the block device tree stands for:
/// its number is the text of its `partition` file without the white
/// space at the end.
pub fn partition_of(entry_name: String, contents: &str) -> (r: DeviceInfo)
    ensures
        r.name == entry_name,
        r.part_num is Some,
        r.part_num->0@ == trim_end_spec(contents@),
{
    let chars = to_chars(contents);
    let number = trim_end(chars.as_slice());
    DeviceInfo { name: entry_name, part_num: Some(from_chars(number.as_slice())) }
}

/// The number that a file of the block device tree holds: its text,
/// white space at both ends aside, read as a signed decimal number.
pub open spec fn int_from_text(contents: Seq<char>) -> Option<i64> {
    parse_i64_spec(trim_spec(contents))
}

/// Reads the number that a file of the block device tree holds.
pub fn int_from_file(contents: &str) -> (r: Result<i64, SystemError>)
    ensures
        match r {
            Ok(n) => int_from_text(contents@) == Some(n),
            Err(e) => int_from_text(contents@) is None && e == SystemError::NotANumber,
        },
{
    let chars = to_chars(contents);
    let body = trim(chars.as_slice());
    match parse_i64(body.as_slice()) {
        Some(n) => Ok(n),
        None => Err(SystemError::NotANumber),
    }
}

/// Reads the size in bytes of a logical block from the text of the
/// `queue/logical_block_size` file of a disk.
pub fn logical_block_size(contents: &str) -> (r: Result<i64, SystemError>)
    ensures
        match r {
            Ok(n) => int_from_text(contents@) == Some(n),
            Err(e) => int_from_text(contents@) is None && e == SystemError::NotANumber,
        },
{
    int_from_file(contents)
}

/// Reads the number of sectors from the text of the `size` file of a
/// disk.
pub fn disk_sectors(contents: &str) -> (r: Result<i64, SystemError>)
    ensures
        match r {
            Ok(n) => int_from_text(contents@) == Some(n),
            Err(e) => int_from_text(contents@) is None && e == SystemError::NotANumber,
        },
{
    int_from_file(contents)
}

/// The last sector that a partition may use on a disk of
/// `disk_sectors` sectors whose first usable sector is
/// `first_usable_sector`. The partition table at the end of the disk is
/// as long as the one at its start, which ends just before the first
/// usable sector and follows the protective boot record; the sector
/// before that copy, rounded down to the alignment, is the last one.
pub open spec fn last_usable_spec(disk_sectors: int, first_usable_sector: int, align: int) -> int {
    ((disk_sectors - (first_usable_sector - 2) - 1) / align) * align
}

/// Computes the last sector that a partition may use.
pub fn last_usable_sector(disk_sectors: i64, first_usable_sector: i64, align: i64) -> (r: u64)
    requires
        align > 0,
        first_usable_sector >= 2,
        disk_sectors >= first_usable_sector - 1,
    ensures
        r == last_usable_spec(disk_sectors as int, first_usable_sector as int, align as int),
        r <= disk_sectors,
{
    let gpt_len = first_usable_sector - 2;
    let free = disk_sectors - gpt_len - 1;
    let blocks = free / align;
    assert(blocks * align <= free && blocks * align >= 0) by (nonlinear_arith)
        requires
            blocks == free / align,
            align > 0,
            free >= 0,
    ;
    (blocks * align) as u64
}

/// The sizes of sector that the partition table may be written with.
#[derive(Clone, Copy, Debug, PartialEq, Eq, Structural)]
pub enum BlockSize {
    Lb512,
    Lb4096,
}

/// The kind of sector of a disk whose logical blocks have `size` bytes:
/// only 512 and 4096 are supported.
pub fn block_size_of(size: i64) -> (r: Result<BlockSize, SystemError>)
    ensures
        r == if size == 512 {
            Ok::<BlockSize, SystemError>(BlockSize::Lb512)
        } else if size == 4096 {
            Ok(BlockSize::Lb4096)
        } else {
            Err(SystemError::UnsupportedSectorSize(size))
        },
{
    if size == 512 {
        Ok(BlockSize::Lb512)
    } else if size == 4096 {
        Ok(BlockSize::Lb4096)
    } else {
        Err(SystemError::UnsupportedSectorSize(size))
    }
}

/// A partition as the partition table lists it.
#[derive(Debug)]
pub struct Partition {
    pub number: u32,
    pub name: String,
    pub first_lba: u64,
    pub last_lba: u64,
}

/// A partition to grow: its number, where it starts, and the sector at
/// which it ends from now on.
#[derive(Clone, Copy, Debug, PartialEq, Eq, Structural)]
pub struct Resize {
    pub part_num: u32,
    pub first_lba: u64,
    pub last_lba: u64,
    pub block_size: BlockSize,
}

/// The growth, in bytes, up to which a partition is left as it is: one
/// mebibyte.
pub const RESIZE_FUDGE: u64 = 1048576;

/// The name of the partition that holds the root filesystem.
pub open spec fn root_name() -> Seq<char> {
    seq!['r', 'o', 'o', 't']
}

/// The index of the first partition named `root`, or the number of
/// partitions.
pub open spec fn root_index(partitions: Seq<Partition>) -> int
    decreases partitions.len(),
{
    if partitions.len() == 0 {
        0
    } else if partitions[0].name@ == root_name() {
        0
    } else {
        1 + root_index(partitions.skip(1))
    }
}

/// Whether the figures of a disk fit together: a positive alignment, a
/// first usable sector behind the boot record and the table header,
/// and a disk that reaches it.
pub open spec fn geometry_ok(disk_sectors: i64, first_usable: u64, align: u64) -> bool {
    &&& 0 < align <= i64::MAX
    &&& 2 <= first_usable <= i64::MAX
    &&& disk_sectors >= first_usable - 1
}

/// What growing the root partition comes to. An unsupported sector
/// size, figures that do not fit and a missing root partition are
/// errors. Otherwise the root partition grows to the last usable sector
/// if that gains it more than `RESIZE_FUDGE` bytes, and is left alone if
/// not.
pub open spec fn resize_spec(
    logical_block_size: i64,
    disk_sectors: i64,
    first_usable: u64,
    align: u64,
    partitions: Seq<Partition>,
) -> Result<Option<Resize>, SystemError> {
    if logical_block_size != 512 && logical_block_size != 4096 {
        Err(SystemError::UnsupportedSectorSize(logical_block_size))
    } else if !geometry_ok(disk_sectors, first_usable, align) {
        Err(SystemError::InvalidGeometry)
    } else if root_index(partitions) >= partitions.len() {
        Err(SystemError::RootPartitionNotFound)
    } else {
        let root = partitions[root_index(partitions)];
        let last = last_usable_spec(disk_sectors as int, first_usable as int, align as int);
        if (last - root.last_lba) * logical_block_size > RESIZE_FUDGE {
            Ok(
                Some(
                    Resize {
                        part_num: root.number,
                        first_lba: root.first_lba,
                        last_lba: last as u64,
                        block_size: if logical_block_size == 512 {
                            BlockSize::Lb512
                        } else {
                            BlockSize::Lb4096
                        },
                    },
                ),
            )
        } else {
            Ok(None)
        }
    }
}

/// Plans how to grow the root partition of a disk to the end of the
/// disk. The disk has `disk_sectors` sectors of `logical_block_size`
/// bytes; its partition table puts the first usable sector at
/// `first_usable`, aligns its partitions to `align` sectors and lists
/// `partitions`.
#[verifier::loop_isolation(false)]
pub fn resize_root_volume(
    logical_block_size: i64,
    disk_sectors: i64,
    first_usable: u64,
    align: u64,
    partitions: &Vec<Partition>,
) -> (r: Result<Option<Resize>, SystemError>)
    ensures
        r == resize_spec(logical_block_size, disk_sectors, first_usable, align, partitions@),
{
    let block_size = match block_size_of(logical_block_size) {
        Ok(b) => b,
        Err(e) => {
            return Err(e);
        },
    };
    if !(0 < align && align <= i64::MAX as u64 && 2 <= first_usable && first_usable
        <= i64::MAX as u64 && disk_sectors >= first_usable as i64 - 1) {
        return Err(SystemError::InvalidGeometry);
    }
    let last = last_usable_sector(disk_sectors, first_usable as i64, align as i64);
    let wanted = to_chars("root");
    proof {
        reveal_strlit("root");
    }
    assert(wanted@ == root_name());
    let mut i: usize = 0;
    assert(partitions@.skip(0) == partitions@);
    while i < partitions.len()
        invariant
            i <= partitions.len(),
            wanted@ == root_name(),
            root_index(partitions@) == i + root_index(partitions@.skip(i as int)),
        decreases partitions.len() - i,
    {
        let name = to_chars(partitions[i].name.as_str());
        assert(partitions@.skip(i as int)[0] == partitions@[i as int]);
        if crate::text::same_chars(name.as_slice(), wanted.as_slice()) {
            let part = &partitions[i];
            let spared: u64 = match block_size {
                BlockSize::Lb512 => RESIZE_FUDGE / 512,
                BlockSize::Lb4096 => RESIZE_FUDGE / 4096,
            };
            proof {
                let gain = last as int - part.last_lba as int;
                if logical_block_size == 512 {
                    assert(gain * logical_block_size == gain * 512) by (nonlinear_arith)
                        requires
                            logical_block_size == 512,
                    ;
                } else {
                    assert(gain * logical_block_size == gain * 4096) by (nonlinear_arith)
                        requires
                            logical_block_size == 4096,
                    ;
                }
            }
            if last > part.last_lba && last - part.last_lba > spared {
                return Ok(
                    Some(
                        Resize {
                            part_num: part.number,
                            first_lba: part.first_lba,
                            last_lba: last,
                            block_size,
                        },
                    ),
                );
            }
            return Ok(None);
        }
        assert(partitions@.skip(i as int).skip(1) == partitions@.skip(i + 1));
        i += 1;
    }
    Err(SystemError::RootPartitionNotFound)
}

/// Last-usable-sector formula: the last usable sector is a multiple of
/// the alignment, and no aligned sector between it and the copy of the
/// partition table at the end of the disk is lost.
pub proof fn lemma_last_usable_sector(disk_sectors: int, first_usable_sector: int, align: int)
    requires
        align > 0,
        first_usable_sector >= 2,
        disk_sectors >= first_usable_sector - 1,
    ensures
        last_usable_spec(disk_sectors, first_usable_sector, align) % align == 0,
        0 <= last_usable_spec(disk_sectors, first_usable_sector, align) <= disk_sectors - (
        first_usable_sector - 2) - 1,
        disk_sectors - (first_usable_sector - 2) - 1 - last_usable_spec(
            disk_sectors,
            first_usable_sector,
            align,
        ) < align,
{
    let free = disk_sectors - (first_usable_sector - 2) - 1;
    assert((free / align) * align % align == 0 && 0 <= (free / align) * align <= free && free - (
    free / align) * align < align) by (nonlinear_arith)
        requires
            align > 0,
            free >= 0,
    ;
}

} // verus!
