//! Filesystem primitives: the directories that a recursive create walks,
//! joining a path below a base, and what to do with the outcome of a
//! create, a mount or an atomic write.

use vstd::prelude::*;
use crate::text::{append_chars, from_chars, slice_chars, to_chars, views};

verus! {

/// A symbolic link to create at `path`, pointing at `target`.
#[derive(Debug)]
pub struct Link<'a> {
    pub path: &'a str,
    pub target: &'a str,
}

/// The mount options that the boot sequence uses.
#[derive(Clone, Copy, Debug, PartialEq, Eq, Structural)]
pub struct MountFlags {
    pub nosuid: bool,
    pub nodev: bool,
    pub noexec: bool,
    pub noatime: bool,
    pub relatime: bool,
    pub rdonly: bool,
}

impl MountFlags {
    /// No option set.
    pub open spec fn spec_empty() -> MountFlags {
        MountFlags {
            nosuid: false,
            nodev: false,
            noexec: false,
            noatime: false,
            relatime: false,
            rdonly: false,
        }
    }

    /// No option set.
    #[verifier::when_used_as_spec(spec_empty)]
    pub fn empty() -> (r: MountFlags)
        ensures
            r == Self::spec_empty(),
    {
        MountFlags {
            nosuid: false,
            nodev: false,
            noexec: false,
            noatime: false,
            relatime: false,
            rdonly: false,
        }
    }
}

/// A filesystem to mount: the mount point is created with `mode` first.
#[derive(Debug)]
pub struct Mount<'a> {
    pub source: &'a str,
    pub flags: MountFlags,
    pub fs_type: &'a str,
    pub mode: u32,
    pub options: Option<&'a str>,
    pub target: &'a str,
}

/// How an attempt to mount ended.
#[derive(Clone, Copy, Debug, PartialEq, Eq, Structural)]
pub enum MountOutcome {
    /// The kernel mounted the filesystem.
    Mounted,
    /// The kernel reported the mount point busy: something is mounted
    /// there already.
    Busy,
    /// The kernel refused for another reason, given by its error number.
    Failed(i32),
}

impl<'a> Mount<'a> {
    /// Judges the outcome of mounting: `Ok` when the filesystem is
    /// mounted now or was already, else the kernel's error number.
    pub fn settle(&self, outcome: MountOutcome) -> (r: Result<(), i32>)
        ensures
            outcome is Mounted || outcome is Busy ==> r is Ok,
            outcome matches MountOutcome::Failed(e) ==> r == Err::<(), i32>(e),
    {
        match outcome {
            MountOutcome::Mounted => Ok(()),
            MountOutcome::Busy => Ok(()),
            MountOutcome::Failed(e) => Err(e),
        }
    }
}

/// How an attempt to create one directory ended.
#[derive(Clone, Copy, Debug, PartialEq, Eq, Structural)]
pub enum CreateOutcome {
    Created,
    AlreadyExists,
    Failed,
}

/// What a recursive create does after one directory.
#[derive(Clone, Copy, Debug, PartialEq, Eq, Structural)]
pub enum CreateStep {
    /// The directory is new: give it the mode and the owner, then go on.
    ApplyModeAndOwner,
    /// The directory was there: leave it as it is and go on.
    Continue,
    /// Stop with an error.
    Abort,
}

/// Decides the step that follows the creation of one directory.
pub fn after_create(outcome: CreateOutcome) -> (r: CreateStep)
    ensures
        outcome is Created ==> r is ApplyModeAndOwner,
        outcome is AlreadyExists ==> r is Continue,
        outcome is Failed ==> r is Abort,
{
    match outcome {
        CreateOutcome::Created => CreateStep::ApplyModeAndOwner,
        CreateOutcome::AlreadyExists => CreateStep::Continue,
        CreateOutcome::Failed => CreateStep::Abort,
    }
}

/// Whether a prefix of `p` of length `k` ends where a directory name
/// ends: at the end of `p`, or just before a separator.
pub open spec fn is_cut(p: Seq<char>, k: int) -> bool {
    0 < k <= p.len() && (k == p.len() || p[k] == '/')
}

/// The nonempty prefixes of `p` that end at a cut no longer than `k`,
/// shortest first.
pub open spec fn prefixes_upto(p: Seq<char>, k: nat) -> Seq<Seq<char>>
    decreases k,
{
    if k == 0 {
        Seq::empty()
    } else {
        let shorter = prefixes_upto(p, (k - 1) as nat);
        if is_cut(p, k as int) {
            shorter.push(p.take(k as int))
        } else {
            shorter
        }
    }
}

/// The directories that a recursive create of `p` visits: `p` and each
/// of its ancestors, the one nearest the root first. The root itself,
/// whose name before the separator is empty, is not among them.
pub open spec fn dir_prefixes(p: Seq<char>) -> Seq<Seq<char>> {
    prefixes_upto(p, p.len())
}

/// The directories visited by a recursive create are exactly the
/// nonempty prefixes of the path that end at a separator or at the end
/// of the path, each once, in increasing length.
pub proof fn lemma_descending_dirs(p: Seq<char>, k: nat)
    requires
        k <= p.len(),
    ensures
        forall|i: int|
            0 <= i < prefixes_upto(p, k).len() ==> {
                let d = #[trigger] prefixes_upto(p, k)[i];
                &&& is_cut(p, d.len() as int)
                &&& d.len() <= k
                &&& d == p.take(d.len() as int)
            },
        forall|i: int, j: int|
            0 <= i < j < prefixes_upto(p, k).len() ==> (#[trigger] prefixes_upto(p, k)[i]).len() < (
            #[trigger] prefixes_upto(p, k)[j]).len(),
        forall|c: int|
            0 < c <= k && is_cut(p, c) ==> exists|i: int|
                0 <= i < prefixes_upto(p, k).len() && #[trigger] prefixes_upto(p, k)[i] == p.take(
                    c,
                ),
    decreases k,
{
    if k > 0 {
        let shorter = prefixes_upto(p, (k - 1) as nat);
        lemma_descending_dirs(p, (k - 1) as nat);
        let now = prefixes_upto(p, k);
        assert forall|c: int| 0 < c <= k && is_cut(p, c) implies exists|i: int|
            0 <= i < now.len() && #[trigger] now[i] == p.take(c) by {
            if c == k {
                assert(now[now.len() - 1] == p.take(c));
            } else {
                let i = choose|i: int| 0 <= i < shorter.len() && #[trigger] shorter[i] == p.take(c);
                assert(now[i] == p.take(c));
            }
        }
    }
}

/// Lists `path` and its ancestors, the one nearest the root first, as a
/// recursive create visits them.
pub fn descending_dirs(path: &str) -> (r: Vec<String>)
    ensures
        views(r@) == dir_prefixes(path@),
{
    let p = to_chars(path);
    let n = p.len();
    let mut dirs: Vec<String> = Vec::new();
    let mut k: usize = 0;
    while k < n
        invariant
            n == p.len(),
            k <= n,
            views(dirs@) == prefixes_upto(p@, k as nat),
        decreases n - k,
    {
        k += 1;
        if k == n || p[k] == '/' {
            let prefix = slice_chars(p.as_slice(), 0, k);
            let dir = from_chars(prefix.as_slice());
            let ghost before = dirs@;
            dirs.push(dir);
            assert(views(dirs@) == views(before).push(p@.take(k as int)));
        }
    }
    dirs
}

/// `path` without its leading separators.
pub open spec fn strip_root(path: Seq<char>) -> Seq<char>
    decreases path.len(),
{
    if path.len() > 0 && path[0] == '/' {
        strip_root(path.skip(1))
    } else {
        path
    }
}

/// `rest` placed below `base`: a separator stands between them unless
/// `base` is empty or ends with one.
pub open spec fn join_below(base: Seq<char>, rest: Seq<char>) -> Seq<char> {
    if base.len() == 0 || base.last() == '/' {
        base + rest
    } else {
        base.push('/') + rest
    }
}

/// A path joined below a base even when the path is absolute.
pub open spec fn join_relative_spec(base: Seq<char>, path: Seq<char>) -> Seq<char> {
    join_below(base, strip_root(path))
}

/// Joins a path below `self`. An absolute path does not replace the
/// base: it loses its leading separator and is joined like a relative
/// one.
pub trait JoinRelative {
    fn join_relative(&self, path: &str) -> (r: String)
        ensures
            r@ == join_relative_spec(self.base_view(), path@),
    ;

    /// The text of the base path.
    spec fn base_view(&self) -> Seq<char>;
}

impl JoinRelative for str {
    open spec fn base_view(&self) -> Seq<char> {
        self@
    }

    fn join_relative(&self, path: &str) -> (r: String) {
        let base = to_chars(self);
        let p = to_chars(path);
        let mut start: usize = 0;
        assert(p@.skip(0) == p@);
        while start < p.len() && p[start] == '/'
            invariant
                start <= p.len(),
                strip_root(p@) == strip_root(p@.skip(start as int)),
            decreases p.len() - start,
        {
            assert(p@.skip(start as int).skip(1) == p@.skip(start + 1));
            start += 1;
        }
        let rest = slice_chars(p.as_slice(), start, p.len());
        assert(rest@ == p@.skip(start as int));
        let mut out: Vec<char> = Vec::new();
        append_chars(&mut out, base.as_slice());
        if base.len() > 0 && base[base.len() - 1] != '/' {
            out.push('/');
        }
        append_chars(&mut out, rest.as_slice());
        assert(out@ == join_below(base@, rest@));
        from_chars(out.as_slice())
    }
}

/// A relative path joined below a base is the standard join; an
/// absolute one is joined as if its leading separator were not there.
pub proof fn lemma_join_relative(base: Seq<char>, path: Seq<char>)
    ensures
        path.len() == 0 || path[0] != '/' ==> join_relative_spec(base, path) == join_below(
            base,
            path,
        ),
        join_relative_spec(base, seq!['/'] + path) == join_relative_spec(base, path),
{
    assert((seq!['/'] + path).skip(1) == path);
}

/// The name of the temporary file that an atomic write of `name` in some
/// directory goes through: a dot, the name, and `.tmp`.
pub open spec fn tmp_name_spec(name: Seq<char>) -> Seq<char> {
    seq!['.'] + name + seq!['.', 't', 'm', 'p']
}

/// Names the temporary file for an atomic write of the file `name`.
pub fn tmp_name(name: &str) -> (r: String)
    ensures
        r@ == tmp_name_spec(name@),
{
    let n = to_chars(name);
    let mut out: Vec<char> = Vec::new();
    out.push('.');
    append_chars(&mut out, n.as_slice());
    out.push('.');
    out.push('t');
    out.push('m');
    out.push('p');
    assert(out@ == tmp_name_spec(name@));
    from_chars(out.as_slice())
}

/// The steps of an atomic write, in the order in which they run.
#[derive(Clone, Copy, Debug, PartialEq, Eq, Structural)]
pub enum WriteStage {
    CreateTmp,
    WriteContents,
    SyncFile,
    Rename,
    SyncDir,
    Done,
}

/// What an atomic write leaves behind when it stops.
#[derive(Clone, Copy, Debug, PartialEq, Eq, Structural)]
pub enum WriteResidue {
    /// The target is as it was; no temporary file exists.
    OldTarget,
    /// The target is as it was; the temporary file may exist.
    OldTargetAndTmp,
    /// The target holds the new contents in full.
    NewTarget,
}

/// The stage that follows `stage` when it succeeded.
pub fn next_write_stage(stage: WriteStage) -> (r: WriteStage)
    ensures
        r == match stage {
            WriteStage::CreateTmp => WriteStage::WriteContents,
            WriteStage::WriteContents => WriteStage::SyncFile,
            WriteStage::SyncFile => WriteStage::Rename,
            WriteStage::Rename => WriteStage::SyncDir,
            WriteStage::SyncDir => WriteStage::Done,
            WriteStage::Done => WriteStage::Done,
        },
{
    match stage {
        WriteStage::CreateTmp => WriteStage::WriteContents,
        WriteStage::WriteContents => WriteStage::SyncFile,
        WriteStage::SyncFile => WriteStage::Rename,
        WriteStage::Rename => WriteStage::SyncDir,
        WriteStage::SyncDir => WriteStage::Done,
        WriteStage::Done => WriteStage::Done,
    }
}

/// What is on disk when an atomic write fails at `stage`: the target is
/// never left truncated.
pub fn residue_on_failure(stage: WriteStage) -> (r: WriteResidue)
    ensures
        r == match stage {
            WriteStage::CreateTmp => WriteResidue::OldTarget,
            WriteStage::WriteContents => WriteResidue::OldTargetAndTmp,
            WriteStage::SyncFile => WriteResidue::OldTargetAndTmp,
            WriteStage::Rename => WriteResidue::OldTargetAndTmp,
            WriteStage::SyncDir => WriteResidue::NewTarget,
            WriteStage::Done => WriteResidue::NewTarget,
        },
{
    match stage {
        WriteStage::CreateTmp => WriteResidue::OldTarget,
        WriteStage::WriteContents => WriteResidue::OldTargetAndTmp,
        WriteStage::SyncFile => WriteResidue::OldTargetAndTmp,
        WriteStage::Rename => WriteResidue::OldTargetAndTmp,
        WriteStage::SyncDir => WriteResidue::NewTarget,
        WriteStage::Done => WriteResidue::NewTarget,
    }
}

} // verus!
