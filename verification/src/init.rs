//! The boot sequence: its steps and their order, the filesystems and
//! links that it sets up first, and what it does with the volumes of
//! the plan and with the end of the workload.

use base64::prelude::{Engine, BASE64_STANDARD};
use vstd::prelude::*;
use crate::backoff::Wait;
use crate::expand::{expand_value, expandable, k8s_expanded};
use crate::fs::{Link, Mount, MountFlags};
use crate::system::{path_push, push_component};
use crate::text::{
    append_chars, from_chars, lines, lines_spec, parse_u32, parse_u32_spec, rows, same_chars,
    split_whitespace, to_chars, views, words_spec,
};
use crate::vmspec::{
    env_strings, nv_find, nv_map, nv_pairs, EbsVolumeSource, EnvFromSource, NameValue, NameValues,
    NameValuesExt, S3VolumeSource, SecretsManagerVolumeSource, SsmVolumeSource, VmSpec, Volume,
};
use crate::writable::{item_path, parent_spec, write_plan, Writable, WritePlan};

verus! {

/// Why the boot sequence stopped.
#[derive(Clone, Copy, Debug, PartialEq, Eq, Structural)]
pub enum InitError {
    /// A mode is not an octal number.
    InvalidMode,
    /// A line of the table of mounts has a device and nothing else.
    InvalidMtabLine,
    /// A block volume names no device.
    EbsNoDevice,
    /// The mount of a block volume names no destination.
    EbsNoDestination,
    /// The mount of a block volume names no filesystem.
    EbsNoFilesystem,
    /// The mount of a block volume has no mode.
    EbsNoMode,
    /// No program makes the filesystem that a block volume asks for.
    UnsupportedFilesystem,
    /// The program that makes a filesystem could not be examined: the
    /// error number of the attempt.
    MkfsUnavailable(i32),
    /// There is no command to run in place of the boot sequence.
    EmptyCommand,
    /// A word of the command or a variable holds a zero byte.
    NulInArgument,
    /// The workload has no user or no group to run as.
    NoRunAs,
    /// Nothing could be unmounted.
    UnmountFailed,
    /// A variable of the plan holds text that cannot be expanded.
    NotExpandable,
    /// What was fetched for a variable is not text.
    NotUtf8,
    /// An item of a volume has no directory to be written into.
    NoParentDirectory,
}

/// The links into the file descriptors of the process itself.
pub open spec fn base_links_spec() -> Seq<Link<'static>> {
    seq![
        Link { target: "/proc/self/fd", path: "/dev/fd" },
        Link { target: "/proc/self/fd/0", path: "/dev/stdin" },
        Link { target: "/proc/self/fd/1", path: "/dev/stdout" },
        Link { target: "/proc/self/fd/2", path: "/dev/stderr" },
    ]
}

/// The links to create once the base filesystems are mounted.
pub fn base_links() -> (r: Vec<Link<'static>>)
    ensures
        r@ == base_links_spec(),
{
    let mut ls: Vec<Link<'static>> = Vec::new();
    ls.push(Link { target: "/proc/self/fd", path: "/dev/fd" });
    ls.push(Link { target: "/proc/self/fd/0", path: "/dev/stdin" });
    ls.push(Link { target: "/proc/self/fd/1", path: "/dev/stdout" });
    ls.push(Link { target: "/proc/self/fd/2", path: "/dev/stderr" });
    ls
}

/// The mount options of a filesystem that holds neither devices nor
/// programs nor set-id files.
pub open spec fn plain_flags() -> MountFlags {
    MountFlags { nodev: true, noexec: true, nosuid: true, ..MountFlags::spec_empty() }
}

/// The filesystems that the machine needs before anything else, in the
/// order in which they are mounted: each below one that is mounted
/// before it.
pub open spec fn base_mounts_spec() -> Seq<Mount<'static>> {
    seq![
        Mount {
            source: "devtmpfs",
            flags: MountFlags { nosuid: true, ..MountFlags::spec_empty() },
            fs_type: "devtmpfs",
            mode: 0o755,
            options: None,
            target: "/dev",
        },
        Mount {
            source: "devpts",
            flags: MountFlags {
                noatime: true,
                noexec: true,
                nosuid: true,
                ..MountFlags::spec_empty()
            },
            fs_type: "devpts",
            mode: 0o755,
            options: Some("mode=0620,gid=5,ptmxmode=666"),
            target: "/dev/pts",
        },
        Mount {
            source: "mqueue",
            flags: plain_flags(),
            fs_type: "mqueue",
            mode: 0o755,
            options: None,
            target: "/dev/mqueue",
        },
        Mount {
            source: "tmpfs",
            flags: MountFlags { nodev: true, nosuid: true, ..MountFlags::spec_empty() },
            fs_type: "tmpfs",
            mode: 0o1777,
            options: None,
            target: "/dev/shm",
        },
        Mount {
            source: "hugetlbfs",
            flags: MountFlags { relatime: true, ..MountFlags::spec_empty() },
            fs_type: "hugetlbfs",
            mode: 0o755,
            options: None,
            target: "/dev/hugepages",
        },
        Mount {
            source: "proc",
            flags: MountFlags { relatime: true, ..plain_flags() },
            fs_type: "proc",
            mode: 0o555,
            options: None,
            target: "/proc",
        },
        Mount {
            source: "sys",
            flags: plain_flags(),
            fs_type: "sysfs",
            mode: 0o555,
            options: None,
            target: "/sys",
        },
        Mount {
            source: "tmpfs",
            flags: MountFlags { nodev: true, nosuid: true, ..MountFlags::spec_empty() },
            fs_type: "tmpfs",
            mode: 0o755,
            options: Some("mode=0755"),
            target: "/.easyto/run",
        },
        Mount {
            source: "cgroup2",
            flags: MountFlags { relatime: true, ..plain_flags() },
            fs_type: "cgroup2",
            mode: 0o555,
            options: Some("nsdelegate"),
            target: "/sys/fs/cgroup",
        },
        Mount {
            source: "debugfs",
            flags: MountFlags { relatime: true, ..plain_flags() },
            fs_type: "debugfs",
            mode: 0o500,
            options: None,
            target: "/sys/kernel/debug",
        },
    ]
}

/// The filesystems to mount first, in the order in which to mount them.
pub fn base_mounts() -> (r: Vec<Mount<'static>>)
    ensures
        r@ == base_mounts_spec(),
{
    let none = MountFlags::empty();
    let plain = MountFlags { nodev: true, noexec: true, nosuid: true, ..none };
    let mut ms: Vec<Mount<'static>> = Vec::new();
    ms.push(
        Mount {
            source: "devtmpfs",
            flags: MountFlags { nosuid: true, ..none },
            fs_type: "devtmpfs",
            mode: 0o755,
            options: None,
            target: "/dev",
        },
    );
    ms.push(
        Mount {
            source: "devpts",
            flags: MountFlags { noatime: true, noexec: true, nosuid: true, ..none },
            fs_type: "devpts",
            mode: 0o755,
            options: Some("mode=0620,gid=5,ptmxmode=666"),
            target: "/dev/pts",
        },
    );
    ms.push(
        Mount {
            source: "mqueue",
            flags: plain,
            fs_type: "mqueue",
            mode: 0o755,
            options: None,
            target: "/dev/mqueue",
        },
    );
    ms.push(
        Mount {
            source: "tmpfs",
            flags: MountFlags { nodev: true, nosuid: true, ..none },
            fs_type: "tmpfs",
            mode: 0o1777,
            options: None,
            target: "/dev/shm",
        },
    );
    ms.push(
        Mount {
            source: "hugetlbfs",
            flags: MountFlags { relatime: true, ..none },
            fs_type: "hugetlbfs",
            mode: 0o755,
            options: None,
            target: "/dev/hugepages",
        },
    );
    ms.push(
        Mount {
            source: "proc",
            flags: MountFlags { relatime: true, ..plain },
            fs_type: "proc",
            mode: 0o555,
            options: None,
            target: "/proc",
        },
    );
    ms.push(
        Mount {
            source: "sys",
            flags: plain,
            fs_type: "sysfs",
            mode: 0o555,
            options: None,
            target: "/sys",
        },
    );
    ms.push(
        Mount {
            source: "tmpfs",
            flags: MountFlags { nodev: true, nosuid: true, ..none },
            fs_type: "tmpfs",
            mode: 0o755,
            options: Some("mode=0755"),
            target: "/.easyto/run",
        },
    );
    ms.push(
        Mount {
            source: "cgroup2",
            flags: MountFlags { relatime: true, ..plain },
            fs_type: "cgroup2",
            mode: 0o555,
            options: Some("nsdelegate"),
            target: "/sys/fs/cgroup",
        },
    );
    ms.push(
        Mount {
            source: "debugfs",
            flags: MountFlags { relatime: true, ..plain },
            fs_type: "debugfs",
            mode: 0o500,
            options: None,
            target: "/sys/kernel/debug",
        },
    );
    ms
}

/// Reads a mode written as an octal number, such as `0755`.
pub fn parse_mode(mode: &str) -> (r: Result<u32, InitError>)
    ensures
        match r {
            Ok(bits) => parse_u32_spec(mode@, 8) == Some(bits),
            Err(e) => parse_u32_spec(mode@, 8) is None && e == InitError::InvalidMode,
        },
{
    let chars = to_chars(mode);
    match parse_u32(chars.as_slice(), 8) {
        Some(bits) => Ok(bits),
        None => Err(InitError::InvalidMode),
    }
}

/// Whether the lines of a table of mounts show something mounted at
/// `mount_point`. A line counts by its second word; a line without
/// words says nothing, and one with a single word is an error. Lines
/// behind the one that shows the mount are not looked at.
pub open spec fn mounted_spec(table: Seq<Seq<char>>, mount_point: Seq<char>) -> Result<bool, ()>
    decreases table.len(),
{
    if table.len() == 0 {
        Ok(false)
    } else {
        let words = words_spec(table[0]);
        if words.len() == 0 {
            mounted_spec(table.skip(1), mount_point)
        } else if words.len() == 1 {
            Err(())
        } else if words[1] == mount_point {
            Ok(true)
        } else {
            mounted_spec(table.skip(1), mount_point)
        }
    }
}

/// Whether the second word of some line of the table is `mount_point`.
pub open spec fn names_mount_point(table: Seq<Seq<char>>, mount_point: Seq<char>) -> bool {
    exists|i: int|
        0 <= i < table.len() && words_spec(#[trigger] table[i]).len() >= 2 && words_spec(
            table[i],
        )[1] == mount_point
}

/// Mount detection: in a table without a line of a single word,
/// something is mounted at a mount point if and only if some line has
/// the mount point as its second word.
pub proof fn lemma_mounted_iff(table: Seq<Seq<char>>, mount_point: Seq<char>)
    requires
        forall|i: int| 0 <= i < table.len() ==> words_spec(#[trigger] table[i]).len() != 1,
    ensures
        mounted_spec(table, mount_point) == Ok::<bool, ()>(names_mount_point(table, mount_point)),
    decreases table.len(),
{
    if table.len() > 0 {
        let rest = table.skip(1);
        assert forall|i: int| 0 <= i < rest.len() implies words_spec(#[trigger] rest[i]).len()
            != 1 by {
            assert(rest[i] == table[i + 1]);
        }
        lemma_mounted_iff(rest, mount_point);
        let words = words_spec(table[0]);
        if words.len() >= 2 && words[1] == mount_point {
            assert(names_mount_point(table, mount_point));
        } else {
            if names_mount_point(rest, mount_point) {
                let i = choose|i: int|
                    0 <= i < rest.len() && words_spec(#[trigger] rest[i]).len() >= 2 && words_spec(
                        rest[i],
                    )[1] == mount_point;
                assert(table[i + 1] == rest[i]);
            }
            if names_mount_point(table, mount_point) {
                let i = choose|i: int|
                    0 <= i < table.len() && words_spec(#[trigger] table[i]).len() >= 2
                        && words_spec(table[i])[1] == mount_point;
                assert(i > 0);
                assert(rest[i - 1] == table[i]);
            }
        }
    }
}

/// A line of a single word in front of every line that names the
/// mount point makes the table unreadable.
pub proof fn lemma_mounted_error(table: Seq<Seq<char>>, mount_point: Seq<char>, k: int)
    requires
        0 <= k < table.len(),
        words_spec(table[k]).len() == 1,
        forall|i: int|
            0 <= i < k ==> !(words_spec(#[trigger] table[i]).len() >= 2 && words_spec(table[i])[1]
                == mount_point) && words_spec(table[i]).len() != 1,
    ensures
        mounted_spec(table, mount_point) is Err,
    decreases table.len(),
{
    if k > 0 {
        let rest = table.skip(1);
        assert(rest[k - 1] == table[k]);
        assert forall|i: int| 0 <= i < k - 1 implies !(words_spec(#[trigger] rest[i]).len() >= 2
            && words_spec(rest[i])[1] == mount_point) && words_spec(rest[i]).len() != 1 by {
            assert(rest[i] == table[i + 1]);
        }
        lemma_mounted_error(rest, mount_point, k - 1);
    }
}

/// Tells from the text of the table of mounts whether something is
/// mounted at `mount_point`.
pub fn is_mounted(mount_point: &str, mtab: &str) -> (r: Result<bool, InitError>)
    ensures
        match r {
            Ok(mounted) => mounted_spec(lines_spec(mtab@), mount_point@) == Ok::<bool, ()>(mounted),
            Err(e) => mounted_spec(lines_spec(mtab@), mount_point@) is Err && e
                == InitError::InvalidMtabLine,
        },
{
    let wanted = to_chars(mount_point);
    let chars = to_chars(mtab);
    let table = lines(chars.as_slice());
    let mut i: usize = 0;
    assert(lines_spec(mtab@).skip(0) == lines_spec(mtab@));
    while i < table.len()
        invariant
            i <= table.len(),
            wanted@ == mount_point@,
            rows(table@) == lines_spec(mtab@),
            mounted_spec(lines_spec(mtab@), mount_point@) == mounted_spec(
                lines_spec(mtab@).skip(i as int),
                mount_point@,
            ),
        decreases table.len() - i,
    {
        let ghost rest = lines_spec(mtab@).skip(i as int);
        assert(rest[0] == table@[i as int]@) by {
            assert(rows(table@)[i as int] == table@[i as int]@);
        }
        let fields = split_whitespace(table[i].as_slice());
        if fields.len() == 1 {
            return Err(InitError::InvalidMtabLine);
        }
        if fields.len() >= 2 {
            assert(rows(fields@)[1] == fields@[1]@);
            if same_chars(fields[1].as_slice(), wanted.as_slice()) {
                return Ok(true);
            }
        }
        assert(rest.skip(1) == lines_spec(mtab@).skip(i + 1));
        i += 1;
    }
    Ok(false)
}

/// The steps of the boot sequence, in their order.
#[derive(Clone, Copy, Debug, PartialEq, Eq, Structural)]
pub enum BootStep {
    FetchUserData,
    BaseMounts,
    BaseLinks,
    StartUeventListener,
    LinkNvmeDevices,
    ReadImageConfig,
    SetSysctls,
    ResizeRootVolume,
    HandleVolumes,
    ResolveEnv,
    RunInitScripts,
    /// Run the workload in place of the boot sequence.
    ReplaceInit,
    /// Run the workload and the services under supervision.
    Supervise,
    /// The boot sequence is over.
    Finished,
    /// A step failed: the machine powers off.
    Aborted,
}

/// The place of a step in the boot sequence. The two ways to run the
/// workload share a place.
pub open spec fn step_rank(step: BootStep) -> int {
    match step {
        BootStep::FetchUserData => 1,
        BootStep::BaseMounts => 2,
        BootStep::BaseLinks => 3,
        BootStep::StartUeventListener => 4,
        BootStep::LinkNvmeDevices => 5,
        BootStep::ReadImageConfig => 6,
        BootStep::SetSysctls => 7,
        BootStep::ResizeRootVolume => 8,
        BootStep::HandleVolumes => 9,
        BootStep::ResolveEnv => 10,
        BootStep::RunInitScripts => 11,
        BootStep::ReplaceInit => 12,
        BootStep::Supervise => 12,
        BootStep::Finished => 13,
        BootStep::Aborted => 14,
    }
}

/// The step that follows `step`. A step that failed ends the sequence.
/// After the init scripts the workload takes the place of the boot
/// sequence if the plan asks for that and there is a command, and runs
/// under supervision if not.
pub open spec fn next_step(step: BootStep, ok: bool, replace_init: bool, has_command: bool) -> BootStep {
    if step is Finished || step is Aborted {
        step
    } else if !ok {
        BootStep::Aborted
    } else {
        match step {
            BootStep::FetchUserData => BootStep::BaseMounts,
            BootStep::BaseMounts => BootStep::BaseLinks,
            BootStep::BaseLinks => BootStep::StartUeventListener,
            BootStep::StartUeventListener => BootStep::LinkNvmeDevices,
            BootStep::LinkNvmeDevices => BootStep::ReadImageConfig,
            BootStep::ReadImageConfig => BootStep::SetSysctls,
            BootStep::SetSysctls => BootStep::ResizeRootVolume,
            BootStep::ResizeRootVolume => BootStep::HandleVolumes,
            BootStep::HandleVolumes => BootStep::ResolveEnv,
            BootStep::ResolveEnv => BootStep::RunInitScripts,
            BootStep::RunInitScripts => if replace_init && has_command {
                BootStep::ReplaceInit
            } else {
                BootStep::Supervise
            },
            _ => BootStep::Finished,
        }
    }
}

/// Decides the step of the boot sequence that follows `step`, which
/// ended well or not as `ok` says.
pub fn initialize(step: BootStep, ok: bool, replace_init: bool, has_command: bool) -> (r: BootStep)
    ensures
        r == next_step(step, ok, replace_init, has_command),
{
    match step {
        BootStep::Finished => BootStep::Finished,
        BootStep::Aborted => BootStep::Aborted,
        _ => if !ok {
            BootStep::Aborted
        } else {
            match step {
                BootStep::FetchUserData => BootStep::BaseMounts,
                BootStep::BaseMounts => BootStep::BaseLinks,
                BootStep::BaseLinks => BootStep::StartUeventListener,
                BootStep::StartUeventListener => BootStep::LinkNvmeDevices,
                BootStep::LinkNvmeDevices => BootStep::ReadImageConfig,
                BootStep::ReadImageConfig => BootStep::SetSysctls,
                BootStep::SetSysctls => BootStep::ResizeRootVolume,
                BootStep::ResizeRootVolume => BootStep::HandleVolumes,
                BootStep::HandleVolumes => BootStep::ResolveEnv,
                BootStep::ResolveEnv => BootStep::RunInitScripts,
                BootStep::RunInitScripts => if replace_init && has_command {
                    BootStep::ReplaceInit
                } else {
                    BootStep::Supervise
                },
                _ => BootStep::Finished,
            }
        },
    }
}

/// The boot sequence is strictly sequential: a step that succeeds is
/// followed by the step of the next place and by no other, and a step
/// that fails by none at all.
pub proof fn lemma_boot_order(step: BootStep, ok: bool, replace_init: bool, has_command: bool)
    requires
        step_rank(step) <= 12,
    ensures
        ok ==> step_rank(next_step(step, ok, replace_init, has_command)) == step_rank(step) + 1,
        !ok ==> next_step(step, ok, replace_init, has_command) == BootStep::Aborted,
{
}

/// How much the log tells.
#[derive(Clone, Copy, Debug, PartialEq, Eq, Structural)]
pub enum Verbosity {
    Info,
    Trace,
}

/// The verbosity that the plan of the user asks for: everything when
/// it sets `debug`, the usual otherwise.
pub fn verbosity_for(debug: Option<bool>) -> (r: Verbosity)
    ensures
        r == if debug == Some(true) {
            Verbosity::Trace
        } else {
            Verbosity::Info
        },
{
    match debug {
        Some(true) => Verbosity::Trace,
        _ => Verbosity::Info,
    }
}

/// Decides what follows one look for the device of a block volume:
/// done when it is there, else given up once more than `timeout_ms` has
/// passed since the first look.
pub fn wait_for_device(present: bool, elapsed_ms: u64, timeout_ms: u64) -> (r: Wait)
    ensures
        r == if present {
            Wait::Done
        } else if elapsed_ms > timeout_ms {
            Wait::TimedOut
        } else {
            Wait::Retry
        },
{
    if present {
        Wait::Done
    } else if elapsed_ms > timeout_ms {
        Wait::TimedOut
    } else {
        Wait::Retry
    }
}

/// The milliseconds within which the mounts have to be gone at shutdown.
pub const UNMOUNT_TIMEOUT_MS: u64 = 10000;

/// The milliseconds between two looks at the table of mounts.
pub const UNMOUNT_POLL_MS: u64 = 1000;

/// Judges the unmounting at shutdown. `remount_failed` says whether the
/// root could not be made read-only, `failures` how many of the
/// `mount_points` mount points could not be unmounted. Only when
/// nothing at all worked is that an error: the mounts that did come off
/// are still waited for.
pub fn unmount_all(remount_failed: bool, failures: usize, mount_points: usize) -> (r: Result<
    (),
    InitError,
>)
    ensures
        r == if remount_failed && failures >= mount_points {
            Err::<(), InitError>(InitError::UnmountFailed)
        } else {
            Ok(())
        },
{
    if remount_failed && failures >= mount_points {
        Err(InitError::UnmountFailed)
    } else {
        Ok(())
    }
}

/// Decides what follows one look at a mount point that is being
/// unmounted. The watch is done when the mount is gone, and also when
/// the table of mounts cannot be read. While it is still mounted the
/// watch goes on, and is given up once `timeout_ms` has passed since
/// the unmounting.
pub fn wait_for_unmounts(mounted: Result<bool, InitError>, elapsed_ms: u64, timeout_ms: u64) -> (r:
    Wait)
    ensures
        r == match mounted {
            Ok(true) => if elapsed_ms >= timeout_ms {
                Wait::TimedOut
            } else {
                Wait::Retry
            },
            _ => Wait::Done,
        },
{
    match mounted {
        Ok(true) => if elapsed_ms >= timeout_ms {
            Wait::TimedOut
        } else {
            Wait::Retry
        },
        _ => Wait::Done,
    }
}


/// What a block volume asks for before it is mounted.
#[derive(Clone, Copy, Debug, PartialEq, Eq, Structural)]
pub struct EbsPlan {
    /// The volume has to be attached first: the seconds to wait for
    /// its device to appear afterwards.
    pub attach_timeout_secs: Option<u64>,
    /// The volume is to be mounted.
    pub mount: bool,
}

/// How a block volume is mounted.
#[derive(Debug, PartialEq, Eq)]
pub struct EbsMount {
    pub device: String,
    pub destination: String,
    pub mode: u32,
    pub owner: Option<u32>,
    pub group: Option<u32>,
    pub fs_type: String,
}

/// What is wrong with a block volume, if anything: it must name a
/// device, and a mount must name a destination and a filesystem.
pub open spec fn ebs_fault(volume: EbsVolumeSource) -> Option<InitError> {
    if volume.device@.len() == 0 {
        Some(InitError::EbsNoDevice)
    } else {
        match volume.mount {
            Some(m) => if m.destination@.len() == 0 {
                Some(InitError::EbsNoDestination)
            } else if m.fs_type is None || m.fs_type->0@.len() == 0 {
                Some(InitError::EbsNoFilesystem)
            } else {
                None
            },
            None => None,
        }
    }
}

/// Checks a block volume and tells what it asks for: an attachment
/// where it names one, with the timeout that it names or 300 seconds,
/// and a mount where it names one.
pub fn handle_volume_ebs(volume: &EbsVolumeSource) -> (r: Result<EbsPlan, InitError>)
    ensures
        match r {
            Ok(plan) => ebs_fault(*volume) is None && plan.mount == (volume.mount is Some)
                && plan.attach_timeout_secs == match volume.attachment {
                Some(a) => Some(
                    match a.timeout {
                        Some(t) => t,
                        None => 300u64,
                    },
                ),
                None => None,
            },
            Err(e) => ebs_fault(*volume) == Some(e),
        },
{
    if volume.device.as_str().unicode_len() == 0 {
        return Err(InitError::EbsNoDevice);
    }
    match &volume.mount {
        Some(mnt) => {
            if mnt.destination.as_str().unicode_len() == 0 {
                return Err(InitError::EbsNoDestination);
            }
            match &mnt.fs_type {
                Some(fs_type) => {
                    if fs_type.as_str().unicode_len() == 0 {
                        return Err(InitError::EbsNoFilesystem);
                    }
                },
                None => {
                    return Err(InitError::EbsNoFilesystem);
                },
            }
        },
        None => {},
    }
    let attach_timeout_secs = match &volume.attachment {
        Some(attachment) => Some(
            match attachment.timeout {
                Some(t) => t,
                None => 300,
            },
        ),
        None => None,
    };
    Ok(EbsPlan { attach_timeout_secs, mount: volume.mount.is_some() })
}

/// How the mount of a block volume is made: the mount point is created
/// with the mode of the mount, given to its owner and group, and the
/// device mounted on it with the filesystem that the mount names. A
/// volume without a mount gives nothing; a mount without a mode that
/// can be read, or without a filesystem, is an error.
pub fn ebs_mount(volume: &EbsVolumeSource) -> (r: Result<Option<EbsMount>, InitError>)
    ensures
        match volume.mount {
            None => r == Ok::<Option<EbsMount>, InitError>(None),
            Some(mnt) => match mnt.mode {
                None => r == Err::<Option<EbsMount>, InitError>(InitError::EbsNoMode),
                Some(mode) => match (parse_u32_spec(mode@, 8), mnt.fs_type) {
                    (None, _) => r == Err::<Option<EbsMount>, InitError>(InitError::InvalidMode),
                    (Some(_), None) => r == Err::<Option<EbsMount>, InitError>(
                        InitError::EbsNoFilesystem,
                    ),
                    (Some(bits), Some(fs_type)) => r == Ok::<Option<EbsMount>, InitError>(
                        Some(
                            EbsMount {
                                device: volume.device,
                                destination: mnt.destination,
                                mode: bits,
                                owner: mnt.user_id,
                                group: mnt.group_id,
                                fs_type,
                            },
                        ),
                    ),
                },
            },
        },
{
    match &volume.mount {
        Some(mnt) => {
            let mode = match &mnt.mode {
                Some(mode) => match parse_mode(mode.as_str()) {
                    Ok(bits) => bits,
                    Err(e) => {
                        return Err(e);
                    },
                },
                None => {
                    return Err(InitError::EbsNoMode);
                },
            };
            let fs_type = match &mnt.fs_type {
                Some(fs_type) => fs_type.clone(),
                None => {
                    return Err(InitError::EbsNoFilesystem);
                },
            };
            Ok(
                Some(
                    EbsMount {
                        device: volume.device.clone(),
                        destination: mnt.destination.clone(),
                        mode,
                        owner: mnt.user_id,
                        group: mnt.group_id,
                        fs_type,
                    },
                ),
            )
        },
        None => Ok(None),
    }
}

/// The program that makes a filesystem of the kind `fs_type`.
pub fn mkfs_path(fs_type: &str) -> (r: String)
    ensures
        r@ == "/.easyto/sbin/mkfs."@ + fs_type@,
{
    let mut out = to_chars("/.easyto/sbin/mkfs.");
    append_chars(&mut out, to_chars(fs_type).as_slice());
    from_chars(out.as_slice())
}

/// How the look at a file ended.
#[derive(Clone, Copy, Debug, PartialEq, Eq, Structural)]
pub enum StatOutcome {
    Found,
    NotFound,
    Failed(i32),
}

/// Decides whether a filesystem can be made on a device that has none,
/// from the look at the program that would make it: a kind of
/// filesystem without such a program is not supported.
pub fn try_mkfs(program: StatOutcome) -> (r: Result<(), InitError>)
    ensures
        r == match program {
            StatOutcome::Found => Ok::<(), InitError>(()),
            StatOutcome::NotFound => Err(InitError::UnsupportedFilesystem),
            StatOutcome::Failed(e) => Err(InitError::MkfsUnavailable(e)),
        },
{
    match program {
        StatOutcome::Found => Ok(()),
        StatOutcome::NotFound => Err(InitError::UnsupportedFilesystem),
        StatOutcome::Failed(e) => Err(InitError::MkfsUnavailable(e)),
    }
}

/// What the failure of a source comes to: nothing where the source is
/// optional, the error where it is not.
pub fn optional_source<T, E>(fetched: Result<T, E>, optional: Option<bool>) -> (r: Result<
    Option<T>,
    E,
>)
    ensures
        r == match fetched {
            Ok(v) => Ok::<Option<T>, E>(Some(v)),
            Err(e) => if optional == Some(true) {
                Ok(None)
            } else {
                Err(e)
            },
        },
{
    match fetched {
        Ok(v) => Ok(Some(v)),
        Err(e) => match optional {
            Some(true) => Ok(None),
            _ => Err(e),
        },
    }
}

/// Whether `plan` writes an item named `name` below `dest` for the
/// owner and the group given.
pub open spec fn writes_item(
    plan: WritePlan,
    name: Seq<char>,
    secret: bool,
    dest: Seq<char>,
    user_id: u32,
    group_id: u32,
) -> bool {
    &&& plan.path@ == item_path(dest, name)
    &&& parent_spec(plan.path@) == Some(plan.dir@)
    &&& plan.dir_mode == if secret {
        0o700u32
    } else {
        0o755u32
    }
    &&& plan.file_mode == if secret {
        0o600u32
    } else {
        0o644u32
    }
    &&& plan.user_id == user_id
    &&& plan.group_id == group_id
}

/// The names of the items of a list, each with the mark of a secret.
pub open spec fn item_views<W: Writable>(items: Seq<W>) -> Seq<(Seq<char>, bool)> {
    Seq::new(items.len(), |i: int| (items[i].name_view(), items[i].secret()))
}

/// Whether `r` is the plan for the writing of `items` below the
/// destination of `mount`, taken below `base_dir`: one plan for each
/// item, in their order, for the owner and the group of the mount. A
/// mount without an owner or a group, and an item without a directory
/// to be written into, make an error of it.
pub open spec fn planned(
    r: Result<Vec<WritePlan>, InitError>,
    base_dir: Seq<char>,
    mount: crate::vmspec::Mount,
    items: Seq<(Seq<char>, bool)>,
) -> bool {
    let dest = path_push(base_dir, mount.destination@);
    match r {
        Ok(plans) => mount.user_id is Some && mount.group_id is Some && plans@.len() == items.len()
            && forall|i: int|
            0 <= i < items.len() ==> writes_item(
                #[trigger] plans@[i],
                items[i].0,
                items[i].1,
                dest,
                mount.user_id->0,
                mount.group_id->0,
            ),
        Err(e) => if mount.user_id is None || mount.group_id is None {
            e == InitError::NoRunAs
        } else {
            e == InitError::NoParentDirectory && exists|i: int|
                0 <= i < items.len() && parent_spec(item_path(dest, (#[trigger] items[i]).0))
                    is None
        },
    }
}

/// Plans the writing of the items of a volume below the destination of
/// its mount, taken below `base_dir`, for the owner and the group of
/// the mount: one plan for each item, in their order.
#[verifier::loop_isolation(false)]
pub fn plan_items<W: Writable>(base_dir: &str, mount: &crate::vmspec::Mount, items: &Vec<W>) -> (r:
    Result<Vec<WritePlan>, InitError>)
    ensures
        planned(r, base_dir@, *mount, item_views(items@)),
{
    let (user_id, group_id) = match (mount.user_id, mount.group_id) {
        (Some(u), Some(g)) => (u, g),
        _ => {
            return Err(InitError::NoRunAs);
        },
    };
    let mut path = to_chars(base_dir);
    push_component(&mut path, to_chars(mount.destination.as_str()).as_slice());
    let dest = from_chars(path.as_slice());
    let mut plans: Vec<WritePlan> = Vec::new();
    let mut i: usize = 0;
    while i < items.len()
        invariant
            i <= items.len(),
            plans@.len() == i,
            forall|j: int|
                0 <= j < i ==> writes_item(
                    #[trigger] plans@[j],
                    item_views(items@)[j].0,
                    item_views(items@)[j].1,
                    dest@,
                    user_id,
                    group_id,
                ),
        decreases items.len() - i,
    {
        match write_plan(&items[i], dest.as_str(), user_id, group_id) {
            Ok(plan) => {
                plans.push(plan);
            },
            Err(_) => {
                assert(parent_spec(item_path(dest@, item_views(items@)[i as int].0)) is None);
                return Err(InitError::NoParentDirectory);
            },
        }
        i += 1;
    }
    Ok(plans)
}

/// Plans the writing of the objects of an object store volume: each
/// below the destination by what follows the prefix in its key, for
/// everyone to read.
pub fn handle_volume_s3(
    base_dir: &str,
    volume: &S3VolumeSource,
    objects: &Vec<crate::aws::S3Object>,
) -> (r: Result<Vec<WritePlan>, InitError>)
    ensures
        planned(r, base_dir@, volume.mount, item_views(objects@)),
{
    plan_items(base_dir, &volume.mount, objects)
}

/// Plans the writing of the stored parameters of a parameter volume:
/// each below the destination by its name, for its owner alone.
pub fn handle_volume_ssm(
    base_dir: &str,
    volume: &SsmVolumeSource,
    parameters: &Vec<crate::aws::SsmParameterValue>,
) -> (r: Result<Vec<WritePlan>, InitError>)
    ensures
        planned(r, base_dir@, volume.mount, item_views(parameters@)),
{
    plan_items(base_dir, &volume.mount, parameters)
}

/// Plans the writing of the value of a secret volume: to the
/// destination itself, for its owner alone.
pub fn handle_volume_secretsmanager(
    base_dir: &str,
    volume: &SecretsManagerVolumeSource,
    secrets: &Vec<crate::aws::AsmSecretValue>,
) -> (r: Result<Vec<WritePlan>, InitError>)
    ensures
        planned(r, base_dir@, volume.mount, item_views(secrets@)),
{
    plan_items(base_dir, &volume.mount, secrets)
}

/// The mount points of the block volumes of a plan, in their order.
pub open spec fn mount_points_upto(volumes: Seq<Volume>, n: nat) -> Seq<Seq<char>>
    decreases n,
{
    if n == 0 {
        Seq::empty()
    } else {
        let before = mount_points_upto(volumes, (n - 1) as nat);
        match volumes[n - 1] {
            Volume::Ebs(ebs) => match ebs.mount {
                Some(m) => before.push(m.destination@),
                None => before,
            },
            _ => before,
        }
    }
}

/// Collects the mount points of the block volumes of a plan: they are
/// unmounted when the workload has ended.
#[verifier::loop_isolation(false)]
pub fn ebs_mount_points(volumes: &Vec<Volume>) -> (r: Vec<String>)
    ensures
        views(r@) == mount_points_upto(volumes@, volumes@.len()),
{
    let mut out: Vec<String> = Vec::new();
    let mut i: usize = 0;
    while i < volumes.len()
        invariant
            i <= volumes.len(),
            views(out@) == mount_points_upto(volumes@, i as nat),
        decreases volumes.len() - i,
    {
        match &volumes[i] {
            Volume::Ebs(ebs) => match &ebs.mount {
                Some(m) => {
                    let ghost before = out@;
                    out.push(m.destination.clone());
                    assert(views(out@) == views(before).push(m.destination@));
                },
                None => {},
            },
            _ => {},
        }
        i += 1;
    }
    out
}

/// What is fetched for a source of the environment.
#[derive(Clone, Copy, Debug, PartialEq, Eq, Structural)]
pub enum FetchKind {
    /// The bytes of one value.
    Bytes,
    /// A map from names to values.
    Pairs,
}

/// What a source of the environment asks of its fetcher.
#[derive(Debug, PartialEq, Eq)]
pub struct EnvRequest {
    pub kind: FetchKind,
    /// The name of the variable; empty where a map is fetched.
    pub name: String,
    /// Whether the bytes are to be written in base 64.
    pub base64_encode: bool,
    /// Whether a failure of the source is passed over.
    pub optional: bool,
}

/// The name that a source gives its variable, empty where it gives
/// none.
pub open spec fn source_name(source: EnvFromSource) -> Seq<char> {
    match source {
        EnvFromSource::Imds(s) => s.name@,
        EnvFromSource::S3(s) => match s.name {
            Some(n) => n@,
            None => Seq::empty(),
        },
        EnvFromSource::SecretsManager(s) => match s.name {
            Some(n) => n@,
            None => Seq::empty(),
        },
        EnvFromSource::Ssm(s) => match s.name {
            Some(n) => n@,
            None => Seq::empty(),
        },
    }
}

/// What a source asks for: the instance metadata always gives one
/// value; every other source gives one value where it names a
/// variable, and a map of variables where it names none.
pub open spec fn request_spec(source: EnvFromSource, request: EnvRequest) -> bool {
    &&& request.name@ == source_name(source)
    &&& request.kind == if source is Imds || source_name(source).len() > 0 {
        FetchKind::Bytes
    } else {
        FetchKind::Pairs
    }
    &&& request.base64_encode == match source {
        EnvFromSource::Imds(s) => false,
        EnvFromSource::S3(s) => s.base64_encode == Some(true),
        EnvFromSource::SecretsManager(s) => s.base64_encode == Some(true),
        EnvFromSource::Ssm(s) => s.base64_encode == Some(true),
    }
    &&& request.optional == match source {
        EnvFromSource::Imds(s) => s.optional == Some(true),
        EnvFromSource::S3(s) => s.optional == Some(true),
        EnvFromSource::SecretsManager(s) => s.optional == Some(true),
        EnvFromSource::Ssm(s) => s.optional == Some(true),
    }
}

fn flag(value: Option<bool>) -> (r: bool)
    ensures
        r == (value == Some(true)),
{
    match value {
        Some(true) => true,
        _ => false,
    }
}

fn name_or_empty(name: &Option<String>) -> (r: String)
    ensures
        r@ == match *name {
            Some(n) => n@,
            None => Seq::empty(),
        },
{
    match name {
        Some(n) => n.clone(),
        None => String::new(),
    }
}

/// Tells what to fetch for a source of the environment.
pub fn env_request(source: &EnvFromSource) -> (r: EnvRequest)
    ensures
        request_spec(*source, r),
{
    let (name, base64_encode, optional, always_bytes) = match source {
        EnvFromSource::Imds(s) => (s.name.clone(), false, flag(s.optional), true),
        EnvFromSource::S3(s) => (name_or_empty(&s.name), flag(s.base64_encode), flag(s.optional), false),
        EnvFromSource::SecretsManager(s) => (
            name_or_empty(&s.name),
            flag(s.base64_encode),
            flag(s.optional),
            false,
        ),
        EnvFromSource::Ssm(s) => (
            name_or_empty(&s.name),
            flag(s.base64_encode),
            flag(s.optional),
            false,
        ),
    };
    let kind = if always_bytes || name.as_str().unicode_len() > 0 {
        FetchKind::Bytes
    } else {
        FetchKind::Pairs
    };
    EnvRequest { kind, name, base64_encode, optional }
}

/// What a fetcher brought.
#[derive(Debug)]
pub enum Fetched {
    Bytes(Vec<u8>),
    Pairs(Vec<NameValue>),
}

/// The text that the standard base 64 alphabet with padding makes of
/// bytes, as `base64::engine::Engine::encode` of
/// `base64::prelude::BASE64_STANDARD` gives it.
pub uninterp spec fn base64_standard(bytes: Seq<u8>) -> Seq<char>;

/// Calls `Engine::encode` of `BASE64_STANDARD` on the bytes.
#[verifier::external_body]
fn base64_encode(buf: &Vec<u8>) -> (r: String)
    ensures
        r@ == base64_standard(buf@),
{
    BASE64_STANDARD.encode(buf)
}

/// Calls `String::from_utf8`: bytes that are UTF-8 give the text that
/// they encode, any others give nothing.
#[verifier::external_body]
fn text_of_utf8(buf: Vec<u8>) -> (r: Option<String>)
    ensures
        match r {
            Some(text) => vstd::utf8::valid_utf8(buf@) && text@ == vstd::utf8::decode_utf8(buf@),
            None => !vstd::utf8::valid_utf8(buf@),
        },
{
    String::from_utf8(buf).ok()
}

/// Makes variables of what was fetched for a source. Bytes give one
/// variable named `name`: its value is the bytes in base 64 where
/// `b64_encode` is set, and the text that the bytes encode otherwise.
/// A map gives its entries.
pub fn resolve_env_from(name: &str, b64_encode: bool, fetched: Fetched) -> (r: Result<
    NameValues,
    InitError,
>)
    ensures
        match fetched {
            Fetched::Bytes(buf) => if b64_encode {
                r is Ok && nv_pairs(r->Ok_0@) == seq![(name@, base64_standard(buf@))]
            } else if vstd::utf8::valid_utf8(buf@) {
                r is Ok && nv_pairs(r->Ok_0@) == seq![(name@, vstd::utf8::decode_utf8(buf@))]
            } else {
                r == Err::<NameValues, InitError>(InitError::NotUtf8)
            },
            Fetched::Pairs(map) => r == Ok::<NameValues, InitError>(map),
        },
{
    match fetched {
        Fetched::Bytes(buf) => {
            let value = if b64_encode {
                base64_encode(&buf)
            } else {
                match text_of_utf8(buf) {
                    Some(text) => text,
                    None => {
                        return Err(InitError::NotUtf8);
                    },
                }
            };
            let mut nvs: Vec<NameValue> = Vec::new();
            nvs.push(NameValue { name: from_chars(to_chars(name).as_slice()), value });
            assert(nv_pairs(nvs@) == seq![(nvs@[0].name@, nvs@[0].value@)]);
            Ok(nvs)
        },
        Fetched::Pairs(map) => Ok(map),
    }
}

/// Takes what a source gave into the variables resolved so far. A
/// source that failed is passed over where it is optional, and ends
/// the resolution where it is not.
pub fn absorb_source<E>(
    resolved: &mut NameValues,
    outcome: Result<NameValues, E>,
    optional: bool,
) -> (r: Result<(), E>)
    ensures
        match outcome {
            Ok(nvs) => r is Ok && final(resolved)@ == old(resolved)@ + nvs@,
            Err(e) => final(resolved)@ == old(resolved)@ && if optional {
                r is Ok
            } else {
                r == Err::<(), E>(e)
            },
        },
{
    match outcome {
        Ok(mut nvs) => {
            resolved.append(&mut nvs);
            Ok(())
        },
        Err(e) => if optional {
            Ok(())
        } else {
            Err(e)
        },
    }
}

/// Whether `after` holds the variables of `env`, each with its value
/// expanded against `env` and then `resolved`.
pub open spec fn expands(after: Seq<NameValue>, env: Seq<NameValue>, resolved: Seq<NameValue>) -> bool {
    after.len() == env.len() && forall|i: int|
        0 <= i < env.len() ==> (#[trigger] after[i]).name == env[i].name && expandable(
            env[i].value@,
        ) && after[i].value@ == k8s_expanded(
            env[i].value@,
            nv_pairs(nv_map(env)),
            nv_pairs(nv_map(resolved)),
        )
}

/// Expands the references in the values of `env`: a name is looked up
/// among the variables of `env` first, then among `resolved`.
#[verifier::loop_isolation(false)]
pub fn expand_env(env: &NameValues, resolved: &NameValues) -> (r: Result<NameValues, InitError>)
    ensures
        match r {
            Ok(after) => expands(after@, env@, resolved@),
            Err(e) => e == InitError::NotExpandable && exists|i: int|
                0 <= i < env@.len() && !expandable((#[trigger] env@[i]).value@),
        },
{
    let mut out: Vec<NameValue> = Vec::new();
    let mut i: usize = 0;
    while i < env.len()
        invariant
            i <= env.len(),
            out@.len() == i,
            forall|j: int|
                0 <= j < i ==> (#[trigger] out@[j]).name == env@[j].name && expandable(
                    env@[j].value@,
                ) && out@[j].value@ == k8s_expanded(
                    env@[j].value@,
                    nv_pairs(nv_map(env@)),
                    nv_pairs(nv_map(resolved@)),
                ),
        decreases env.len() - i,
    {
        match expand_value(env[i].value.as_str(), env, resolved) {
            Some(value) => {
                out.push(NameValue { name: env[i].name.clone(), value });
            },
            None => {
                assert(!expandable(env@[i as int].value@));
                return Err(InitError::NotExpandable);
            },
        }
        i += 1;
    }
    Ok(out)
}

/// The search path of a workload that names none.
pub open spec fn default_path() -> Seq<char> {
    "/usr/local/bin:/usr/local/sbin:/usr/bin:/usr/sbin:/bin:/sbin"@
}

/// The name of the search path.
pub open spec fn path_name() -> Seq<char> {
    seq!['P', 'A', 'T', 'H']
}

/// Whether `all` is the environment of the workload: the variables of
/// the plan, expanded, then the resolved ones, then the default search
/// path if none of them names one.
pub open spec fn is_environment(all: Seq<NameValue>, env: Seq<NameValue>, resolved: Seq<NameValue>) -> bool {
    let n = env.len() + resolved.len();
    &&& expands(all.take(env.len() as int), env, resolved)
    &&& all.len() >= n
    &&& all.subrange(env.len() as int, n as int) == resolved
    &&& if nv_find(all.take(n as int), path_name()) is Some {
        all.len() == n
    } else {
        all.len() == n + 1 && all[n as int].name@ == path_name() && all[n as int].value@
            == default_path()
    }
}

/// Puts the environment of the workload together from the variables of
/// the plan and those resolved from its sources.
pub fn resolve_all_envs(env: &NameValues, resolved: NameValues) -> (r: Result<
    NameValues,
    InitError,
>)
    ensures
        match r {
            Ok(all) => is_environment(all@, env@, resolved@) && nv_find(all@, path_name()) is Some,
            Err(e) => e == InitError::NotExpandable && exists|i: int|
                0 <= i < env@.len() && !expandable((#[trigger] env@[i]).value@),
        },
{
    let mut all_env = match expand_env(env, &resolved) {
        Ok(expanded) => expanded,
        Err(e) => {
            return Err(e);
        },
    };
    let ghost expanded = all_env@;
    let mut rest = resolved;
    all_env.append(&mut rest);
    assert(all_env@.take(env@.len() as int) == expanded);
    assert(all_env@.subrange(env@.len() as int, (env@.len() + resolved@.len()) as int)
        == resolved@);
    assert(all_env@.take((env@.len() + resolved@.len()) as int) == all_env@);
    proof {
        reveal_strlit("PATH");
    }
    assert("PATH"@ == path_name());
    if all_env.find("PATH").is_none() {
        let ghost before = all_env@;
        all_env.push(
            NameValue {
                name: from_chars(to_chars("PATH").as_slice()),
                value: from_chars(
                    to_chars(
                        "/usr/local/bin:/usr/local/sbin:/usr/bin:/usr/sbin:/bin:/sbin",
                    ).as_slice(),
                ),
            },
        );
        assert(all_env@.take(env@.len() as int) == expanded);
        assert(all_env@.subrange(env@.len() as int, (env@.len() + resolved@.len()) as int)
            == resolved@);
        assert(all_env@.take((env@.len() + resolved@.len()) as int) == before);
        proof {
            crate::vmspec::lemma_nv_find_concat(before, seq![all_env@.last()], path_name());
            assert(all_env@ == before + seq![all_env@.last()]);
            assert(seq![all_env@.last()].skip(1) == Seq::<NameValue>::empty());
        }
    }
    Ok(all_env)
}

/// How the workload takes the place of the boot sequence.
#[derive(Debug, PartialEq, Eq)]
pub struct ExecPlan {
    /// Make the root filesystem read-only first.
    pub remount_readonly: bool,
    pub working_dir: String,
    pub gid: u32,
    pub uid: u32,
    pub argv: Vec<String>,
    pub envp: Vec<String>,
}

/// Whether none of the texts holds a zero character.
pub open spec fn no_nul(texts: Seq<Seq<char>>) -> bool {
    forall|i: int| 0 <= i < texts.len() ==> !(#[trigger] texts[i]).contains('\0')
}

/// Whether none of the strings holds a zero character.
#[verifier::loop_isolation(false)]
fn free_of_nul(texts: &Vec<String>) -> (r: bool)
    ensures
        r == no_nul(views(texts@)),
{
    let mut i: usize = 0;
    while i < texts.len()
        invariant
            i <= texts.len(),
            forall|j: int| 0 <= j < i ==> !(#[trigger] views(texts@)[j]).contains('\0'),
        decreases texts.len() - i,
    {
        let chars = to_chars(texts[i].as_str());
        let k = crate::text::find_char(chars.as_slice(), '\0');
        proof {
            crate::text::lemma_first_index_of(chars@, '\0');
        }
        assert(views(texts@)[i as int] == chars@);
        if k < chars.len() {
            assert(chars@.contains(chars@[k as int]));
            return false;
        }
        i += 1;
    }
    true
}

/// Plans the step in which the workload takes the place of the boot
/// sequence: the root is made read-only where the plan asks for it,
/// the working directory is entered, the group and then the user of
/// the workload are taken on, and the command is run with the
/// environment. There has to be a command, and neither it nor the
/// environment may hold a zero character.
pub fn replace_init(vmspec: &VmSpec, command: Vec<String>, env: &NameValues) -> (r: Result<
    ExecPlan,
    InitError,
>)
    ensures
        match r {
            Ok(plan) => {
                &&& command@.len() > 0
                &&& plan.argv == command
                &&& views(plan.envp@) == env_strings(env@)
                &&& no_nul(views(command@))
                &&& no_nul(env_strings(env@))
                &&& plan.remount_readonly == (vmspec.security.readonly_root_fs == Some(true))
                &&& plan.working_dir == vmspec.working_dir
                &&& vmspec.security.run_as_user_id == Some(plan.uid)
                &&& vmspec.security.run_as_group_id == Some(plan.gid)
            },
            Err(e) => e == if command@.len() == 0 {
                InitError::EmptyCommand
            } else if vmspec.security.run_as_user_id is None || vmspec.security.run_as_group_id
                is None {
                InitError::NoRunAs
            } else {
                InitError::NulInArgument
            } && (command@.len() == 0 || vmspec.security.run_as_user_id is None
                || vmspec.security.run_as_group_id is None || !no_nul(views(command@)) || !no_nul(
                env_strings(env@),
            )),
        },
{
    if command.len() == 0 {
        return Err(InitError::EmptyCommand);
    }
    let (uid, gid) = match (vmspec.security.run_as_user_id, vmspec.security.run_as_group_id) {
        (Some(u), Some(g)) => (u, g),
        _ => {
            return Err(InitError::NoRunAs);
        },
    };
    let envp = env.to_env_strings();
    if !free_of_nul(&command) || !free_of_nul(&envp) {
        return Err(InitError::NulInArgument);
    }
    Ok(
        ExecPlan {
            remount_readonly: flag(vmspec.security.readonly_root_fs),
            working_dir: vmspec.working_dir.clone(),
            gid,
            uid,
            argv: command,
            envp,
        },
    )
}

} // verus!
