//! Items fetched from a source and written to disk: where each goes,
//! and with which modes.

use vstd::prelude::*;
use crate::fs::{join_relative_spec, JoinRelative};
use crate::text::{from_chars, slice_chars, to_chars};

verus! {

/// Why an item cannot be written.
#[derive(Clone, Copy, Debug, PartialEq, Eq, Structural)]
pub enum WriteError {
    /// The place of the item has no directory above it.
    NoParentDirectory,
}

/// Something that can be written to a file below a destination.
pub trait Writable {
    /// The name of the item as text.
    spec fn name_view(&self) -> Seq<char>;

    /// Whether the item is a secret.
    spec fn secret(&self) -> bool;

    /// The path of the item below the destination; empty for an item
    /// that is written to the destination itself.
    fn name(&self) -> (r: String)
        ensures
            r@ == self.name_view(),
    ;

    /// Whether the item must be readable by its owner only.
    fn is_secret(&self) -> (r: bool)
        ensures
            r == self.secret(),
    ;
}

/// How an item is written: to which file, below which directory, and
/// with which modes and owner.
#[derive(Debug, PartialEq, Eq)]
pub struct WritePlan {
    /// The file to create or truncate.
    pub path: String,
    /// The directory to create first, with its ancestors.
    pub dir: String,
    /// The mode of the directories that have to be created.
    pub dir_mode: u32,
    /// The mode of the file.
    pub file_mode: u32,
    pub user_id: u32,
    pub group_id: u32,
}

/// The length of `path` without the separators at its end.
pub open spec fn trimmed_len(path: Seq<char>) -> int
    decreases path.len(),
{
    if path.len() > 0 && path.last() == '/' {
        trimmed_len(path.drop_last())
    } else {
        path.len() as int
    }
}

/// The index just behind the last separator among the first `n`
/// characters of `path`, or 0 when there is none.
pub open spec fn name_start(path: Seq<char>, n: int) -> int
    decreases n,
{
    if n <= 0 {
        0
    } else if path[n - 1] == '/' {
        n
    } else {
        name_start(path, n - 1)
    }
}

/// The directory above `path`: the path without its last name and
/// without the separators around it. The directory above a name
/// directly below the root is the root; a single name has the empty
/// path above it; the root and the empty path have nothing above them.
pub open spec fn parent_spec(path: Seq<char>) -> Option<Seq<char>> {
    let n = trimmed_len(path);
    if n == 0 {
        None
    } else {
        let k = name_start(path, n);
        let m = trimmed_len(path.take(k));
        if k > 0 && m == 0 {
            Some(seq!['/'])
        } else {
            Some(path.take(m))
        }
    }
}

/// The length of the first `n` characters of `path` without the
/// separators at their end.
fn trim_separators(path: &[char], n: usize) -> (m: usize)
    requires
        n <= path.len(),
    ensures
        m == trimmed_len(path@.take(n as int)),
        m <= n,
{
    let mut m = n;
    while m > 0 && path[m - 1] == '/'
        invariant
            m <= n <= path.len(),
            trimmed_len(path@.take(n as int)) == trimmed_len(path@.take(m as int)),
        decreases m,
    {
        assert(path@.take(m as int).drop_last() == path@.take(m - 1));
        m -= 1;
    }
    m
}

/// Finds the directory above `path`.
pub fn parent(path: &[char]) -> (r: Option<Vec<char>>)
    ensures
        match r {
            Some(dir) => parent_spec(path@) == Some(dir@),
            None => parent_spec(path@) is None,
        },
{
    assert(path@.take(path.len() as int) == path@);
    let n = trim_separators(path, path.len());
    if n == 0 {
        return None;
    }
    let mut k = n;
    while k > 0 && path[k - 1] != '/'
        invariant
            k <= n <= path.len(),
            name_start(path@, n as int) == name_start(path@, k as int),
        decreases k,
    {
        k -= 1;
    }
    let m = trim_separators(path, k);
    if k > 0 && m == 0 {
        let mut root: Vec<char> = Vec::new();
        root.push('/');
        Some(root)
    } else {
        let dir = slice_chars(path, 0, m);
        assert(path@.subrange(0, m as int) == path@.take(m as int));
        Some(dir)
    }
}

/// Where an item named `name` goes below `dest`: to `dest` itself when
/// the name is empty, else to the name joined below `dest`.
pub open spec fn item_path(dest: Seq<char>, name: Seq<char>) -> Seq<char> {
    if name.len() == 0 {
        dest
    } else {
        join_relative_spec(dest, name)
    }
}

/// Plans the writing of `item` below `dest` for the owner `user_id` and
/// the group `group_id`. The directories above the file are created
/// with mode `0700` for a secret and `0755` otherwise, the file with
/// mode `0600` for a secret and `0644` otherwise.
pub fn write_plan<W: Writable>(item: &W, dest: &str, user_id: u32, group_id: u32) -> (r: Result<
    WritePlan,
    WriteError,
>)
    ensures
        match r {
            Ok(plan) => {
                &&& plan.path@ == item_path(dest@, item.name_view())
                &&& parent_spec(plan.path@) == Some(plan.dir@)
                &&& plan.dir_mode == if item.secret() {
                    0o700u32
                } else {
                    0o755u32
                }
                &&& plan.file_mode == if item.secret() {
                    0o600u32
                } else {
                    0o644u32
                }
                &&& plan.user_id == user_id
                &&& plan.group_id == group_id
            },
            Err(e) => e == WriteError::NoParentDirectory && parent_spec(
                item_path(dest@, item.name_view()),
            ) is None,
        },
{
    let secret = item.is_secret();
    let name = item.name();
    let path: String = if name.as_str().unicode_len() == 0 {
        let chars = to_chars(dest);
        from_chars(chars.as_slice())
    } else {
        dest.join_relative(name.as_str())
    };
    let chars = to_chars(path.as_str());
    let dir = match parent(chars.as_slice()) {
        Some(dir) => from_chars(dir.as_slice()),
        None => {
            return Err(WriteError::NoParentDirectory);
        },
    };
    Ok(
        WritePlan {
            path,
            dir,
            dir_mode: if secret {
                0o700
            } else {
                0o755
            },
            file_mode: if secret {
                0o600
            } else {
                0o644
            },
            user_id,
            group_id,
        },
    )
}

} // verus!
