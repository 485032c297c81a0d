//! The login databases: colon-separated text, one entry per line, with
//! the numeric id of a user or a group in the third column.

use vstd::prelude::*;
use vstd::string::StringExecFns;
use crate::text::{
    all_digits, decimal, from_chars, lines, lines_spec, parse_u32, parse_u32_spec, rows,
    same_chars, split_chars, split_on, to_chars,
};

verus! {

/// Why a login database could not be used.
#[derive(Debug)]
pub enum Error {
    /// A system call failed with this error number.
    Errno(i32),
    /// The text does not have the expected form.
    ParseError(String),
}

/// The decimal numeral of a number that may be negative.
pub open spec fn signed_decimal(n: int) -> Seq<char> {
    if n < 0 {
        seq!['-'] + crate::text::decimal((-n) as nat)
    } else {
        crate::text::decimal(n as nat)
    }
}

impl Error {
    /// The error as a line of text.
    pub fn to_string(&self) -> (r: String)
        ensures
            r@ == match *self {
                Error::Errno(e) => "Errno: "@ + signed_decimal(e as int),
                Error::ParseError(details) => "Invalid format: "@ + details@,
            },
    {
        match self {
            Error::Errno(e) => {
                let mut out: Vec<char> = to_chars("Errno: ");
                let wide: i64 = *e as i64;
                if wide < 0 {
                    out.push('-');
                    crate::text::push_decimal(&mut out, (0 - wide) as u64);
                    assert(out@ == "Errno: "@ + (seq!['-'] + crate::text::decimal((-wide) as nat)));
                } else {
                    crate::text::push_decimal(&mut out, wide as u64);
                }
                from_chars(out.as_slice())
            },
            Error::ParseError(details) => {
                let mut out = String::from_str("Invalid format: ");
                out.append(details.as_str());
                out
            },
        }
    }
}

/// One entry of the user database.
#[derive(Debug, PartialEq)]
pub struct PasswdEntry {
    pub user_name: String,
    pub password: String,
    pub uid: u32,
    pub gid: u32,
    pub comment: String,
    pub home_dir: String,
    pub shell: String,
}

/// What an entry of the user database says.
pub struct PasswdEntryView {
    pub user_name: Seq<char>,
    pub password: Seq<char>,
    pub uid: u32,
    pub gid: u32,
    pub comment: Seq<char>,
    pub home_dir: Seq<char>,
    pub shell: Seq<char>,
}

impl View for PasswdEntry {
    type V = PasswdEntryView;

    open spec fn view(&self) -> PasswdEntryView {
        PasswdEntryView {
            user_name: self.user_name@,
            password: self.password@,
            uid: self.uid,
            gid: self.gid,
            comment: self.comment@,
            home_dir: self.home_dir@,
            shell: self.shell@,
        }
    }
}

impl Clone for PasswdEntry {
    fn clone(&self) -> (r: Self)
        ensures
            r == *self,
    {
        PasswdEntry {
            user_name: self.user_name.clone(),
            password: self.password.clone(),
            uid: self.uid,
            gid: self.gid,
            comment: self.comment.clone(),
            home_dir: self.home_dir.clone(),
            shell: self.shell.clone(),
        }
    }
}

impl PasswdEntry {
    /// The entry as a line of the user database.
    pub fn to_string(&self) -> (r: String)
        ensures
            r@ == self.user_name@ + seq![':'] + self.password@ + seq![':'] + crate::text::decimal(
                self.uid as nat,
            ) + seq![':'] + crate::text::decimal(self.gid as nat) + seq![':'] + self.comment@
                + seq![':'] + self.home_dir@ + seq![':'] + self.shell@,
    {
        let mut out: Vec<char> = to_chars(self.user_name.as_str());
        out.push(':');
        crate::text::append_chars(&mut out, to_chars(self.password.as_str()).as_slice());
        out.push(':');
        crate::text::push_decimal(&mut out, self.uid as u64);
        out.push(':');
        crate::text::push_decimal(&mut out, self.gid as u64);
        out.push(':');
        crate::text::append_chars(&mut out, to_chars(self.comment.as_str()).as_slice());
        out.push(':');
        crate::text::append_chars(&mut out, to_chars(self.home_dir.as_str()).as_slice());
        out.push(':');
        crate::text::append_chars(&mut out, to_chars(self.shell.as_str()).as_slice());
        assert(out@ == self.user_name@ + seq![':'] + self.password@ + seq![':']
            + crate::text::decimal(self.uid as nat) + seq![':'] + crate::text::decimal(
            self.gid as nat,
        ) + seq![':'] + self.comment@ + seq![':'] + self.home_dir@ + seq![':'] + self.shell@);
        from_chars(out.as_slice())
    }
}

/// The views of a sequence of entries.
pub open spec fn entry_views(entries: Seq<PasswdEntry>) -> Seq<PasswdEntryView> {
    Seq::new(entries.len(), |i: int| entries[i]@)
}

/// The index of the first entry of `entries` for the user `name`, or
/// the number of entries when there is none.
pub open spec fn first_entry_of(entries: Seq<PasswdEntry>, name: Seq<char>) -> int
    decreases entries.len(),
{
    if entries.len() == 0 {
        0
    } else if entries[0].user_name@ == name {
        0
    } else {
        1 + first_entry_of(entries.skip(1), name)
    }
}

/// A lookup by name.
pub trait Find<T> {
    /// What a lookup of `name` finds.
    spec fn found(&self, name: Seq<char>) -> Option<T>;

    /// The first item that goes by `name`, if there is one.
    fn find(&self, name: &str) -> (r: Option<T>)
        ensures
            r == self.found(name@),
    ;
}

impl Find<PasswdEntry> for Vec<PasswdEntry> {
    open spec fn found(&self, name: Seq<char>) -> Option<PasswdEntry> {
        let k = first_entry_of(self@, name);
        if k < self@.len() {
            Some(self@[k])
        } else {
            None
        }
    }

    fn find(&self, name: &str) -> (r: Option<PasswdEntry>) {
        let wanted = to_chars(name);
        let mut i: usize = 0;
        assert(self@.skip(0) == self@);
        while i < self.len()
            invariant
                i <= self.len(),
                wanted@ == name@,
                first_entry_of(self@, name@) == i + first_entry_of(self@.skip(i as int), name@),
            decreases self.len() - i,
        {
            let have = to_chars(self[i].user_name.as_str());
            assert(self@.skip(i as int)[0] == self@[i as int]);
            if same_chars(have.as_slice(), wanted.as_slice()) {
                return Some(self[i].clone());
            }
            assert(self@.skip(i as int).skip(1) == self@.skip(i + 1));
            i += 1;
        }
        None
    }
}

/// What a line of the user database says: seven fields between colons,
/// the third and the fourth of them numbers.
pub open spec fn passwd_line_spec(line: Seq<char>) -> Option<PasswdEntryView> {
    let fields = split_on(line, ':');
    if fields.len() != 7 {
        None
    } else {
        match (parse_u32_spec(fields[2], 10), parse_u32_spec(fields[3], 10)) {
            (Some(uid), Some(gid)) => Some(
                PasswdEntryView {
                    user_name: fields[0],
                    password: fields[1],
                    uid,
                    gid,
                    comment: fields[4],
                    home_dir: fields[5],
                    shell: fields[6],
                },
            ),
            _ => None,
        }
    }
}

/// Why a malformed line of the user database is refused: the first
/// check that it fails, followed by the number of the line.
pub open spec fn passwd_line_fault(line: Seq<char>, line_number: nat) -> Seq<char> {
    let fields = split_on(line, ':');
    if fields.len() != 7 {
        "expected 7 fields on passwd line "@ + decimal(line_number)
    } else if parse_u32_spec(fields[2], 10) is None {
        "expected an integer in UID field on passwd line "@ + decimal(line_number)
    } else {
        "expected an integer in GID field on passwd line "@ + decimal(line_number)
    }
}

/// A message that names a line of the database: `text`, then the number
/// of the line in decimal.
fn line_message(text: &str, line_number: usize) -> (r: String)
    ensures
        r@ == text@ + decimal(line_number as nat),
{
    let mut out: Vec<char> = to_chars(text);
    crate::text::push_decimal(&mut out, line_number as u64);
    from_chars(out.as_slice())
}

/// Reads one line of the user database. `line_number` only serves the
/// error message, which names the first check that the line fails.
pub fn parse_passwd_line(line: &str, line_number: usize) -> (r: Result<PasswdEntry, Error>)
    ensures
        match r {
            Ok(entry) => passwd_line_spec(line@) == Some(entry@),
            Err(Error::ParseError(details)) => passwd_line_spec(line@) is None && details@
                == passwd_line_fault(line@, line_number as nat),
            Err(Error::Errno(_)) => false,
        },
{
    let chars = to_chars(line);
    let fields = split_chars(chars.as_slice(), ':');
    assert(rows(fields@) == split_on(line@, ':'));
    if fields.len() != 7 {
        return Err(Error::ParseError(line_message("expected 7 fields on passwd line ", line_number)));
    }
    assert(forall|i: int| 0 <= i < 7 ==> #[trigger] rows(fields@)[i] == fields@[i]@);
    let uid = match parse_u32(fields[2].as_slice(), 10) {
        Some(uid) => uid,
        None => {
            return Err(
                Error::ParseError(
                    line_message("expected an integer in UID field on passwd line ", line_number),
                ),
            );
        },
    };
    let gid = match parse_u32(fields[3].as_slice(), 10) {
        Some(gid) => gid,
        None => {
            return Err(
                Error::ParseError(
                    line_message("expected an integer in GID field on passwd line ", line_number),
                ),
            );
        },
    };
    Ok(
        PasswdEntry {
            user_name: from_chars(fields[0].as_slice()),
            password: from_chars(fields[1].as_slice()),
            uid,
            gid,
            comment: from_chars(fields[4].as_slice()),
            home_dir: from_chars(fields[5].as_slice()),
            shell: from_chars(fields[6].as_slice()),
        },
    )
}

/// The entries that the first `n` lines say, if each of them is well
/// formed.
pub open spec fn passwd_entries_upto(text_lines: Seq<Seq<char>>, n: nat) -> Option<
    Seq<PasswdEntryView>,
>
    decreases n,
{
    if n == 0 {
        Some(Seq::empty())
    } else {
        match (
            passwd_entries_upto(text_lines, (n - 1) as nat),
            passwd_line_spec(text_lines[n - 1]),
        ) {
            (Some(before), Some(entry)) => Some(before.push(entry)),
            _ => None,
        }
    }
}

/// What the text of a user database says: one entry per line, in the
/// order of the lines, or nothing when any line is malformed.
pub open spec fn passwd_spec(contents: Seq<char>) -> Option<Seq<PasswdEntryView>> {
    passwd_entries_upto(lines_spec(contents), lines_spec(contents).len())
}

/// Once the first `n` lines hold a malformed one, so do all the lines.
pub proof fn lemma_passwd_bad_line(text_lines: Seq<Seq<char>>, n: nat, m: nat)
    requires
        n <= m,
        passwd_entries_upto(text_lines, n) is None,
    ensures
        passwd_entries_upto(text_lines, m) is None,
    decreases m,
{
    if n < m {
        lemma_passwd_bad_line(text_lines, n, (m - 1) as nat);
    }
}

/// Whether line `i` is the first malformed line among `text_lines`.
pub open spec fn first_malformed(text_lines: Seq<Seq<char>>, i: int) -> bool {
    &&& 0 <= i < text_lines.len()
    &&& passwd_entries_upto(text_lines, i as nat) is Some
    &&& passwd_line_spec(text_lines[i]) is None
}

/// Reads a user database. Any malformed line makes the whole database
/// unusable; the error then names the first such line, counted from one.
pub fn parse_passwd_lines(contents: &str) -> (r: Result<Vec<PasswdEntry>, Error>)
    ensures
        match r {
            Ok(entries) => passwd_spec(contents@) == Some(entry_views(entries@)),
            Err(Error::ParseError(details)) => passwd_spec(contents@) is None && exists|i: int|
                #[trigger] first_malformed(lines_spec(contents@), i) && details@
                    == passwd_line_fault(lines_spec(contents@)[i], (i + 1) as nat),
            Err(Error::Errno(_)) => false,
        },
{
    let chars = to_chars(contents);
    let text_lines = lines(chars.as_slice());
    let mut entries: Vec<PasswdEntry> = Vec::new();
    let mut i: usize = 0;
    while i < text_lines.len()
        invariant
            i <= text_lines.len(),
            rows(text_lines@) == lines_spec(contents@),
            passwd_entries_upto(lines_spec(contents@), i as nat) == Some(entry_views(entries@)),
        decreases text_lines.len() - i,
    {
        let line = from_chars(text_lines[i].as_slice());
        assert(line@ == rows(text_lines@)[i as int]);
        match parse_passwd_line(line.as_str(), i + 1) {
            Ok(entry) => {
                let ghost before = entries@;
                entries.push(entry);
                assert(entry_views(entries@) == entry_views(before).push(entry@));
            },
            Err(e) => {
                proof {
                    lemma_passwd_bad_line(
                        lines_spec(contents@),
                        (i + 1) as nat,
                        lines_spec(contents@).len(),
                    );
                    assert(first_malformed(lines_spec(contents@), i as int));
                }
                return Err(e);
            },
        }
        i += 1;
    }
    Ok(entries)
}

/// The id that the first `n` lines of a database give for `name`: that
/// of the first line whose first field is `name`. `Some(None)` says that
/// this line is malformed, `None` that there is no such line.
pub open spec fn id_in_lines(text_lines: Seq<Seq<char>>, name: Seq<char>) -> Option<Option<u32>>
    decreases text_lines.len(),
{
    if text_lines.len() == 0 {
        None
    } else {
        let fields = split_on(text_lines[0], ':');
        if fields[0] == name {
            if fields.len() >= 3 {
                Some(parse_u32_spec(fields[2], 10))
            } else {
                Some(None)
            }
        } else {
            id_in_lines(text_lines.skip(1), name)
        }
    }
}

/// The id of the user or group `name` according to the text of a
/// database: the number itself when `name` is made of digits only, else
/// the third field of the first line that starts with `name`.
pub open spec fn user_group_id_spec(contents: Seq<char>, name: Seq<char>) -> Option<u32> {
    if all_digits(name, 10) {
        parse_u32_spec(name, 10)
    } else {
        match id_in_lines(lines_spec(contents), name) {
            Some(id) => id,
            None => None,
        }
    }
}

/// Why the lines of a database give no id for `name`: the first line
/// that starts with `name` has no third field or no number in it, or
/// there is no such line.
pub open spec fn id_fault_in_lines(text_lines: Seq<Seq<char>>, name: Seq<char>) -> Seq<char>
    decreases text_lines.len(),
{
    if text_lines.len() == 0 {
        "id of user or group not found"@
    } else {
        let fields = split_on(text_lines[0], ':');
        if fields[0] == name {
            if fields.len() >= 3 {
                "unable to parse ID of user or group into an integer"@
            } else {
                "unable to find an ID in the entry"@
            }
        } else {
            id_fault_in_lines(text_lines.skip(1), name)
        }
    }
}

/// Why a name cannot be resolved to an id: a name made of digits is
/// no `u32`, or the lines of the database give none for it.
pub open spec fn user_group_id_fault(contents: Seq<char>, name: Seq<char>) -> Seq<char> {
    if all_digits(name, 10) {
        "unable to parse ID of user or group into an integer"@
    } else {
        id_fault_in_lines(lines_spec(contents), name)
    }
}

/// Whether every character of `s` is a decimal digit.
fn is_numeric(s: &[char]) -> (r: bool)
    ensures
        r == all_digits(s@, 10),
{
    let mut i: usize = 0;
    while i < s.len()
        invariant
            i <= s.len(),
            forall|j: int| 0 <= j < i ==> crate::text::is_digit(#[trigger] s@[j], 10),
        decreases s.len() - i,
    {
        if s[i] < '0' || s[i] > '9' {
            assert('9' as int == '0' as int + 9);
            assert(!crate::text::is_digit(s@[i as int], 10));
            return false;
        }
        assert('9' as int == '0' as int + 9);
        i += 1;
    }
    true
}

/// Resolves the name of a user or a group to its numeric id. A name made
/// of digits is the id itself; any other name is looked up in
/// `contents`, the text of the user or the group database. The error
/// says why there is no id.
pub fn user_group_id(contents: &str, name: &str) -> (r: Result<u32, Error>)
    ensures
        match r {
            Ok(id) => user_group_id_spec(contents@, name@) == Some(id),
            Err(Error::ParseError(details)) => user_group_id_spec(contents@, name@) is None
                && details@ == user_group_id_fault(contents@, name@),
            Err(Error::Errno(_)) => false,
        },
{
    let wanted = to_chars(name);
    if is_numeric(wanted.as_slice()) {
        return match parse_u32(wanted.as_slice(), 10) {
            Some(id) => Ok(id),
            None => Err(
                Error::ParseError(
                    String::from_str("unable to parse ID of user or group into an integer"),
                ),
            ),
        };
    }
    let chars = to_chars(contents);
    let text_lines = lines(chars.as_slice());
    let mut i: usize = 0;
    assert(lines_spec(contents@).skip(0) == lines_spec(contents@));
    while i < text_lines.len()
        invariant
            i <= text_lines.len(),
            wanted@ == name@,
            !all_digits(name@, 10),
            rows(text_lines@) == lines_spec(contents@),
            id_in_lines(lines_spec(contents@), name@) == id_in_lines(
                lines_spec(contents@).skip(i as int),
                name@,
            ),
            id_fault_in_lines(lines_spec(contents@), name@) == id_fault_in_lines(
                lines_spec(contents@).skip(i as int),
                name@,
            ),
        decreases text_lines.len() - i,
    {
        let ghost rest = lines_spec(contents@).skip(i as int);
        assert(rest[0] == text_lines@[i as int]@) by {
            assert(rows(text_lines@)[i as int] == text_lines@[i as int]@);
        }
        let fields = split_chars(text_lines[i].as_slice(), ':');
        assert(rows(fields@)[0] == fields@[0]@);
        if same_chars(fields[0].as_slice(), wanted.as_slice()) {
            if fields.len() < 3 {
                return Err(
                    Error::ParseError(String::from_str("unable to find an ID in the entry")),
                );
            }
            assert(rows(fields@)[2] == fields@[2]@);
            return match parse_u32(fields[2].as_slice(), 10) {
                Some(id) => Ok(id),
                None => Err(
                    Error::ParseError(
                        String::from_str("unable to parse ID of user or group into an integer"),
                    ),
                ),
            };
        }
        assert(rest.skip(1) == lines_spec(contents@).skip(i + 1));
        i += 1;
    }
    Err(Error::ParseError(String::from_str("id of user or group not found")))
}


/// A step in the making of a home directory.
#[derive(Debug, PartialEq, Eq)]
pub enum HomeStep {
    /// Make the directory with this mode, whatever the mask of the
    /// process.
    Mkdir(String, u32),
    /// Give the directory to the user and the group.
    Chown(String, u32, u32),
}

/// What a step says, as text.
pub open spec fn step_view(step: HomeStep) -> (Seq<char>, Option<u32>, Option<(u32, u32)>) {
    match step {
        HomeStep::Mkdir(path, mode) => (path@, Some(mode), None),
        HomeStep::Chown(path, uid, gid) => (path@, None, Some((uid, gid))),
    }
}

/// The steps that make the home directory `home_dir` for the user
/// `uid` of the group `gid`: the directory above it is made for
/// everyone to enter, the home and the `.ssh` directory in it for the
/// user alone, and both are given to the user. A path without a
/// directory above it is an error that names the path.
pub fn create_home_dir(home_dir: &str, uid: u32, gid: u32) -> (r: Result<Vec<HomeStep>, Error>)
    ensures
        match r {
            Ok(steps) => {
                let ssh = crate::system::path_push(home_dir@, ".ssh"@);
                &&& crate::writable::parent_spec(home_dir@) is Some
                &&& steps@.len() == 5
                &&& step_view(steps@[0]) == (
                    crate::writable::parent_spec(home_dir@)->0,
                    Some(0o755u32),
                    None::<(u32, u32)>,
                )
                &&& step_view(steps@[1]) == (home_dir@, Some(0o700u32), None::<(u32, u32)>)
                &&& step_view(steps@[2]) == (ssh, Some(0o700u32), None::<(u32, u32)>)
                &&& step_view(steps@[3]) == (home_dir@, None::<u32>, Some((uid, gid)))
                &&& step_view(steps@[4]) == (ssh, None::<u32>, Some((uid, gid)))
            },
            Err(Error::ParseError(details)) => crate::writable::parent_spec(home_dir@) is None
                && details@ == "unable to determine parent directory of "@ + home_dir@,
            Err(Error::Errno(_)) => false,
        },
{
    let home = to_chars(home_dir);
    let above = match crate::writable::parent(home.as_slice()) {
        Some(dir) => dir,
        None => {
            let mut details = String::from_str("unable to determine parent directory of ");
            details.append(home_dir);
            return Err(Error::ParseError(details));
        },
    };
    let mut ssh = to_chars(home_dir);
    crate::system::push_component(&mut ssh, to_chars(".ssh").as_slice());
    let mut steps: Vec<HomeStep> = Vec::new();
    steps.push(HomeStep::Mkdir(from_chars(above.as_slice()), 0o755));
    steps.push(HomeStep::Mkdir(from_chars(home.as_slice()), 0o700));
    steps.push(HomeStep::Mkdir(from_chars(ssh.as_slice()), 0o700));
    steps.push(HomeStep::Chown(from_chars(home.as_slice()), uid, gid));
    steps.push(HomeStep::Chown(from_chars(ssh.as_slice()), uid, gid));
    Ok(steps)
}

} // verus!
