//! The boot plan of the machine: what to run, as whom, with which
//! environment and volumes; and how the plan that the image gives is
//! merged with the one that the user supplies.

use vstd::prelude::*;
use vstd::string::StringExecFns;
use crate::container::{Config, ConfigFile};
use crate::login::{user_group_id, user_group_id_spec};
use crate::text::{
    append_chars, find_char, first_index_of, from_chars, lemma_first_index_of, rows, same_chars,
    slice_chars, split_chars, split_on, to_chars, views,
};

verus! {

/// A name with its value: a variable of the environment, or a kernel
/// parameter.
#[derive(Debug, PartialEq, Eq)]
pub struct NameValue {
    pub name: String,
    pub value: String,
}

impl Clone for NameValue {
    fn clone(&self) -> (r: Self)
        ensures
            r == *self,
    {
        NameValue { name: self.name.clone(), value: self.value.clone() }
    }
}

impl Default for NameValue {
    fn default() -> (r: Self)
        ensures
            r.name@.len() == 0,
            r.value@.len() == 0,
    {
        NameValue { name: String::new(), value: String::new() }
    }
}

/// An ordered list of names with their values.
pub type NameValues = Vec<NameValue>;

/// The first entry of `s` named `key`.
pub open spec fn nv_find(s: Seq<NameValue>, key: Seq<char>) -> Option<NameValue>
    decreases s.len(),
{
    if s.len() == 0 {
        None
    } else if s[0].name@ == key {
        Some(s[0])
    } else {
        nv_find(s.skip(1), key)
    }
}

/// The entries of `a` whose name does not occur in `b`, in their order.
pub open spec fn nv_without(a: Seq<NameValue>, b: Seq<NameValue>) -> Seq<NameValue>
    decreases a.len(),
{
    if a.len() == 0 {
        Seq::empty()
    } else {
        let before = nv_without(a.drop_last(), b);
        if nv_find(b, a.last().name@) is None {
            before.push(a.last())
        } else {
            before
        }
    }
}

/// `a` overridden by `b`: the entries of `a` that `b` does not name,
/// then all of `b`.
pub open spec fn nv_merge(a: Seq<NameValue>, b: Seq<NameValue>) -> Seq<NameValue> {
    nv_without(a, b) + b
}

/// An entry as the environment holds it: the name, `=`, the value.
pub open spec fn env_string(nv: NameValue) -> Seq<char> {
    nv.name@ + seq!['='] + nv.value@
}

/// The environment strings of the entries of `s`.
pub open spec fn env_strings(s: Seq<NameValue>) -> Seq<Seq<char>> {
    Seq::new(s.len(), |i: int| env_string(s[i]))
}

/// `s` with the value of the first entry named like `nv` replaced by that
/// of `nv`, or with `nv` added at the end when no entry has its name.
pub open spec fn nv_put(s: Seq<NameValue>, nv: NameValue) -> Seq<NameValue>
    decreases s.len(),
{
    if s.len() == 0 {
        seq![nv]
    } else if s[0].name@ == nv.name@ {
        seq![nv] + s.skip(1)
    } else {
        seq![s[0]] + nv_put(s.skip(1), nv)
    }
}

/// The entries of `s` as a map from names: every name once, at the
/// place where it first occurs, with the value of its last occurrence.
pub open spec fn nv_map(s: Seq<NameValue>) -> Seq<NameValue>
    decreases s.len(),
{
    if s.len() == 0 {
        Seq::empty()
    } else {
        nv_put(nv_map(s.drop_last()), s.last())
    }
}

/// Whether no name occurs twice in `s`.
pub open spec fn nv_distinct(s: Seq<NameValue>) -> bool {
    forall|i: int, j: int| 0 <= i < j < s.len() ==> (#[trigger] s[i]).name@ != (#[trigger] s[j]).name@
}

/// The names and values of `s` as plain text.
pub open spec fn nv_pairs(s: Seq<NameValue>) -> Seq<(Seq<char>, Seq<char>)> {
    Seq::new(s.len(), |i: int| (s[i].name@, s[i].value@))
}

/// A lookup in two lists, one after the other, finds what the first
/// list has, else what the second has.
pub proof fn lemma_nv_find_concat(a: Seq<NameValue>, b: Seq<NameValue>, key: Seq<char>)
    ensures
        nv_find(a + b, key) == match nv_find(a, key) {
            Some(nv) => Some(nv),
            None => nv_find(b, key),
        },
    decreases a.len(),
{
    if a.len() == 0 {
        assert(a + b == b);
    } else {
        assert((a + b)[0] == a[0]);
        assert((a + b).skip(1) == a.skip(1) + b);
        if a[0].name@ != key {
            lemma_nv_find_concat(a.skip(1), b, key);
        }
    }
}

/// Among the entries of `a` that `b` does not name, a lookup finds
/// nothing under a name of `b`, and under any other name what it finds
/// in `a`.
pub proof fn lemma_nv_find_without(a: Seq<NameValue>, b: Seq<NameValue>, key: Seq<char>)
    ensures
        nv_find(nv_without(a, b), key) == if nv_find(b, key) is Some {
            None
        } else {
            nv_find(a, key)
        },
    decreases a.len(),
{
    if a.len() > 0 {
        let front = a.drop_last();
        let x = a.last();
        lemma_nv_find_without(front, b, key);
        assert(a == front + seq![x]);
        lemma_nv_find_concat(front, seq![x], key);
        assert(seq![x].skip(1) == Seq::<NameValue>::empty());
        assert(nv_find(Seq::<NameValue>::empty(), key) is None);
        assert(nv_find(seq![x], key) == if x.name@ == key {
            Some(x)
        } else {
            None
        });
        if nv_find(b, x.name@) is None {
            assert(nv_without(a, b) == nv_without(front, b) + seq![x]);
            lemma_nv_find_concat(nv_without(front, b), seq![x], key);
        }
    }
}

/// Merge composition: a lookup in `a` merged with `b` finds what `b`
/// holds under the name, else what `a` holds; and the merged list is
/// made of the entries of `a` that `b` does not name, followed by `b`.
pub proof fn lemma_merge_composition(a: Seq<NameValue>, b: Seq<NameValue>, key: Seq<char>)
    ensures
        nv_find(nv_merge(a, b), key) == match nv_find(b, key) {
            Some(nv) => Some(nv),
            None => nv_find(a, key),
        },
        nv_merge(a, b) == nv_without(a, b) + b,
{
    lemma_nv_find_without(a, b, key);
    lemma_nv_find_concat(nv_without(a, b), b, key);
}

/// What a list of names and values offers.
pub trait NameValuesExt<T> {
    /// The entries of the list.
    spec fn entries(&self) -> Seq<NameValue>;

    /// The entries of a list of the other type.
    spec fn entries_of(other: &T) -> Seq<NameValue>;

    /// The first entry named `key`.
    fn find(&self, key: &str) -> (r: Option<NameValue>)
        ensures
            r == nv_find(self.entries(), key@),
    ;

    /// This list overridden by `other`: entries of this list whose name
    /// `other` holds too are dropped, and the entries of `other` follow
    /// those that stay.
    fn merge(&self, other: &T) -> (r: T)
        ensures
            Self::entries_of(&r) == nv_merge(self.entries(), Self::entries_of(other)),
    ;

    /// Each entry as `NAME=VALUE`.
    fn to_env_strings(&self) -> (r: Vec<String>)
        ensures
            views(r@) == env_strings(self.entries()),
    ;

    /// The list as a map from names: each name once, with the value of
    /// its last entry.
    fn to_map(&self) -> (r: Vec<NameValue>)
        ensures
            nv_pairs(r@) == nv_pairs(nv_map(self.entries())),
    ;
}

impl NameValuesExt<Vec<NameValue>> for Vec<NameValue> {
    open spec fn entries(&self) -> Seq<NameValue> {
        self@
    }

    open spec fn entries_of(other: &Vec<NameValue>) -> Seq<NameValue> {
        other@
    }

    fn find(&self, key: &str) -> (r: Option<NameValue>) {
        let wanted = to_chars(key);
        let mut i: usize = 0;
        assert(self@.skip(0) == self@);
        while i < self.len()
            invariant
                i <= self.len(),
                wanted@ == key@,
                nv_find(self@, key@) == nv_find(self@.skip(i as int), key@),
            decreases self.len() - i,
        {
            let have = to_chars(self[i].name.as_str());
            assert(self@.skip(i as int)[0] == self@[i as int]);
            if same_chars(have.as_slice(), wanted.as_slice()) {
                return Some(self[i].clone());
            }
            assert(self@.skip(i as int).skip(1) == self@.skip(i + 1));
            i += 1;
        }
        None
    }

    fn merge(&self, other: &Vec<NameValue>) -> (r: Vec<NameValue>) {
        let mut nvs: Vec<NameValue> = Vec::new();
        let mut i: usize = 0;
        while i < self.len()
            invariant
                i <= self.len(),
                nvs@ == nv_without(self@.take(i as int), other@),
            decreases self.len() - i,
        {
            assert(self@.take(i + 1).drop_last() == self@.take(i as int));
            assert(self@.take(i + 1).last() == self@[i as int]);
            if other.find(self[i].name.as_str()).is_none() {
                nvs.push(self[i].clone());
            }
            i += 1;
        }
        assert(self@.take(self.len() as int) == self@);
        let mut j: usize = 0;
        while j < other.len()
            invariant
                j <= other.len(),
                nvs@ == nv_without(self@, other@) + other@.take(j as int),
            decreases other.len() - j,
        {
            nvs.push(other[j].clone());
            assert(other@.take(j + 1) == other@.take(j as int).push(other@[j as int]));
            j += 1;
        }
        assert(other@.take(other.len() as int) == other@);
        nvs
    }

    fn to_env_strings(&self) -> (r: Vec<String>) {
        let mut out: Vec<String> = Vec::new();
        let mut i: usize = 0;
        while i < self.len()
            invariant
                i <= self.len(),
                views(out@) == env_strings(self@.take(i as int)),
            decreases self.len() - i,
        {
            let mut line: Vec<char> = to_chars(self[i].name.as_str());
            line.push('=');
            append_chars(&mut line, to_chars(self[i].value.as_str()).as_slice());
            let text = from_chars(line.as_slice());
            assert(text@ == env_string(self@[i as int]));
            let ghost before = out@;
            out.push(text);
            assert(views(out@) == views(before).push(text@));
            assert(env_strings(self@.take(i + 1)) == env_strings(self@.take(i as int)).push(
                env_string(self@[i as int]),
            ));
            i += 1;
        }
        assert(self@.take(self.len() as int) == self@);
        out
    }

    fn to_map(&self) -> (r: Vec<NameValue>) {
        let mut map: Vec<NameValue> = Vec::new();
        let mut i: usize = 0;
        while i < self.len()
            invariant
                i <= self.len(),
                nv_pairs(map@) == nv_pairs(nv_map(self@.take(i as int))),
            decreases self.len() - i,
        {
            assert(self@.take(i + 1).drop_last() == self@.take(i as int));
            assert(self@.take(i + 1).last() == self@[i as int]);
            proof {
                lemma_nv_put_pairs(map@, nv_map(self@.take(i as int)), self@[i as int]);
            }
            put(&mut map, self[i].clone());
            i += 1;
        }
        assert(self@.take(self.len() as int) == self@);
        map
    }
}

/// Putting an entry into two lists that read the same gives two lists
/// that read the same.
pub proof fn lemma_nv_put_pairs(a: Seq<NameValue>, b: Seq<NameValue>, nv: NameValue)
    requires
        nv_pairs(a) == nv_pairs(b),
    ensures
        nv_pairs(nv_put(a, nv)) == nv_pairs(nv_put(b, nv)),
    decreases a.len(),
{
    assert(a.len() == nv_pairs(a).len());
    assert(b.len() == nv_pairs(b).len());
    if a.len() > 0 {
        assert(nv_pairs(a)[0] == (a[0].name@, a[0].value@));
        assert(nv_pairs(b)[0] == (b[0].name@, b[0].value@));
        assert(nv_pairs(a.skip(1)) == nv_pairs(a).skip(1));
        assert(nv_pairs(b.skip(1)) == nv_pairs(b).skip(1));
        if a[0].name@ == nv.name@ {
            assert(nv_pairs(seq![nv] + a.skip(1)) == seq![(nv.name@, nv.value@)] + nv_pairs(
                a.skip(1),
            ));
            assert(nv_pairs(seq![nv] + b.skip(1)) == seq![(nv.name@, nv.value@)] + nv_pairs(
                b.skip(1),
            ));
        } else {
            lemma_nv_put_pairs(a.skip(1), b.skip(1), nv);
            assert(nv_pairs(seq![a[0]] + nv_put(a.skip(1), nv)) == seq![(a[0].name@, a[0].value@)]
                + nv_pairs(nv_put(a.skip(1), nv)));
            assert(nv_pairs(seq![b[0]] + nv_put(b.skip(1), nv)) == seq![(b[0].name@, b[0].value@)]
                + nv_pairs(nv_put(b.skip(1), nv)));
        }
    } else {
        assert(nv_pairs(seq![nv]) == seq![(nv.name@, nv.value@)]);
    }
}

/// Sets the value that `map` holds under the name of `nv`.
fn put(map: &mut Vec<NameValue>, nv: NameValue)
    ensures
        final(map)@ == nv_put(old(map)@, nv),
{
    let wanted = to_chars(nv.name.as_str());
    let mut i: usize = 0;
    assert(map@.skip(0) == map@);
    assert(map@.take(0) + nv_put(map@, nv) == nv_put(map@, nv));
    while i < map.len()
        invariant
            i <= map.len(),
            map@ == old(map)@,
            wanted@ == nv.name@,
            nv_put(map@, nv) == map@.take(i as int) + nv_put(map@.skip(i as int), nv),
        decreases map.len() - i,
    {
        let have = to_chars(map[i].name.as_str());
        assert(map@.skip(i as int)[0] == map@[i as int]);
        if same_chars(have.as_slice(), wanted.as_slice()) {
            let ghost before = map@;
            map.set(i, nv);
            assert(map@ == before.take(i as int) + (seq![nv] + before.skip(i as int).skip(1)));
            return ;
        }
        assert(map@.skip(i as int).skip(1) == map@.skip(i + 1));
        assert(map@.take(i as int) + (seq![map@[i as int]] + nv_put(map@.skip(i + 1), nv))
            == map@.take(i + 1) + nv_put(map@.skip(i + 1), nv));
        i += 1;
    }
    assert(map@.take(map.len() as int) == map@);
    map.push(nv);
}

/// The name and the value that an environment string gives: what stands
/// before the first `=`, and what stands after it. A string without `=`
/// is a name with the empty value.
pub open spec fn name_value_of(s: Seq<char>) -> (Seq<char>, Seq<char>) {
    let k = first_index_of(s, '=');
    if k < s.len() {
        (s.take(k), s.skip(k + 1))
    } else {
        (s, Seq::empty())
    }
}

/// The names and values that environment strings give.
pub open spec fn name_values_of(strings: Seq<Seq<char>>) -> Seq<(Seq<char>, Seq<char>)> {
    Seq::new(strings.len(), |i: int| name_value_of(strings[i]))
}

/// Environment strings read as names and values.
pub trait StringSliceExt {
    /// The strings as text.
    spec fn strings(&self) -> Seq<Seq<char>>;

    /// Reads each `NAME=VALUE`; a bare `NAME` has the empty value.
    fn to_name_values(&self) -> (r: Vec<NameValue>)
        ensures
            nv_pairs(r@) == name_values_of(self.strings()),
    ;
}

impl StringSliceExt for Vec<String> {
    open spec fn strings(&self) -> Seq<Seq<char>> {
        views(self@)
    }

    fn to_name_values(&self) -> (r: Vec<NameValue>) {
        let mut out: Vec<NameValue> = Vec::new();
        let mut i: usize = 0;
        while i < self.len()
            invariant
                i <= self.len(),
                nv_pairs(out@) == name_values_of(views(self@).take(i as int)),
            decreases self.len() - i,
        {
            let s = to_chars(self[i].as_str());
            let k = find_char(s.as_slice(), '=');
            proof {
                lemma_first_index_of(s@, '=');
            }
            let nv = if k < s.len() {
                let name = slice_chars(s.as_slice(), 0, k);
                let value = slice_chars(s.as_slice(), k + 1, s.len());
                NameValue {
                    name: from_chars(name.as_slice()),
                    value: from_chars(value.as_slice()),
                }
            } else {
                assert(s@.subrange(0, s.len() as int) == s@);
                NameValue { name: from_chars(s.as_slice()), value: String::new() }
            };
            assert((nv.name@, nv.value@) == name_value_of(self@[i as int]@));
            let ghost before = out@;
            out.push(nv);
            assert(nv_pairs(out@) == nv_pairs(before).push((nv.name@, nv.value@)));
            assert(name_values_of(views(self@).take(i + 1)) == name_values_of(
                views(self@).take(i as int),
            ).push(name_value_of(self@[i as int]@)));
            i += 1;
        }
        assert(views(self@).take(self.len() as int) == views(self@));
        out
    }
}

/// Environment round trip: a string that holds `=` is read into a name
/// and a value that, written back as `NAME=VALUE`, give the string
/// again.
pub proof fn lemma_env_round_trip(s: Seq<char>)
    requires
        s.contains('='),
    ensures
        name_value_of(s).0 + seq!['='] + name_value_of(s).1 == s,
        !name_value_of(s).0.contains('='),
{
    lemma_first_index_of(s, '=');
    let k = first_index_of(s, '=');
    let i = choose|i: int| 0 <= i < s.len() && s[i] == '=';
    assert(k < s.len());
    assert(s.take(k) + seq!['='] + s.skip(k + 1) == s);
}

/// A bare name, without `=`, is read as the name with the empty value.
pub proof fn lemma_env_bare_name(s: Seq<char>)
    requires
        !s.contains('='),
    ensures
        name_value_of(s) == (s, Seq::<char>::empty()),
{
    lemma_first_index_of(s, '=');
    let k = first_index_of(s, '=');
    if k < s.len() {
        assert(s.contains(s[k]));
    }
}

/// Environment round trip for a whole list: where every string holds
/// `=`, reading the strings and writing the entries back gives the
/// strings again.
pub proof fn lemma_env_strings_round_trip(strings: Seq<Seq<char>>, entries: Seq<NameValue>)
    requires
        forall|i: int| 0 <= i < strings.len() ==> (#[trigger] strings[i]).contains('='),
        nv_pairs(entries) == name_values_of(strings),
    ensures
        env_strings(entries) == strings,
{
    assert(entries.len() == nv_pairs(entries).len());
    assert forall|i: int| 0 <= i < strings.len() implies env_strings(entries)[i]
        == strings[i] by {
        lemma_env_round_trip(strings[i]);
        assert(nv_pairs(entries)[i] == name_value_of(strings[i]));
    }
}


/// Where a variable of the environment comes from.
#[derive(Debug)]
pub enum EnvFromSource {
    Imds(ImdsEnvSource),
    S3(S3EnvSource),
    SecretsManager(SecretsManagerEnvSource),
    Ssm(SsmEnvSource),
}

/// The sources of the environment, in the order in which they are resolved.
pub type EnvFromSources = Vec<EnvFromSource>;

/// A variable read from the instance metadata.
#[derive(Debug)]
pub struct ImdsEnvSource {
    pub name: String,
    pub optional: Option<bool>,
    pub path: String,
}

/// A variable, or a map of variables, read from an object of the object
/// store.
#[derive(Debug)]
pub struct S3EnvSource {
    pub base64_encode: Option<bool>,
    pub bucket: String,
    pub key: String,
    pub name: Option<String>,
    pub optional: Option<bool>,
}

/// A variable, or a map of variables, read from a secret.
#[derive(Debug)]
pub struct SecretsManagerEnvSource {
    pub base64_encode: Option<bool>,
    pub name: Option<String>,
    pub optional: Option<bool>,
    pub secret_id: String,
}

/// A variable, or a map of variables, read from a stored parameter.
#[derive(Debug)]
pub struct SsmEnvSource {
    pub base64_encode: Option<bool>,
    pub name: Option<String>,
    pub path: String,
    pub optional: Option<bool>,
}

/// How the workload is confined.
#[derive(Clone, Copy, Debug, PartialEq, Eq, Structural)]
pub struct Security {
    pub readonly_root_fs: Option<bool>,
    pub run_as_group_id: Option<u32>,
    pub run_as_user_id: Option<u32>,
}

impl Default for Security {
    fn default() -> (r: Self)
        ensures
            r == (Security {
                readonly_root_fs: Some(false),
                run_as_group_id: Some(0u32),
                run_as_user_id: Some(0u32),
            }),
    {
        Security { readonly_root_fs: Some(false), run_as_group_id: Some(0), run_as_user_id: Some(0) }
    }
}

impl Security {
    /// Whether every field is filled.
    pub open spec fn filled(&self) -> bool {
        self.readonly_root_fs is Some && self.run_as_group_id is Some && self.run_as_user_id is Some
    }

    /// `self` overridden by the fields that `other` sets.
    pub open spec fn merged(self, other: Security) -> Security {
        Security {
            readonly_root_fs: if other.readonly_root_fs is Some {
                other.readonly_root_fs
            } else {
                self.readonly_root_fs
            },
            run_as_group_id: if other.run_as_group_id is Some {
                other.run_as_group_id
            } else {
                self.run_as_group_id
            },
            run_as_user_id: if other.run_as_user_id is Some {
                other.run_as_user_id
            } else {
                self.run_as_user_id
            },
        }
    }

    /// Takes over each field that `other` sets and keeps the others.
    pub fn merge(&mut self, other: Self)
        ensures
            *final(self) == old(self).merged(other),
    {
        if other.readonly_root_fs.is_some() {
            self.readonly_root_fs = other.readonly_root_fs;
        }
        if other.run_as_group_id.is_some() {
            self.run_as_group_id = other.run_as_group_id;
        }
        if other.run_as_user_id.is_some() {
            self.run_as_user_id = other.run_as_user_id;
        }
    }
}

/// A volume to provide before the workload starts.
#[derive(Debug)]
pub enum Volume {
    Ebs(EbsVolumeSource),
    S3(S3VolumeSource),
    SecretsManager(SecretsManagerVolumeSource),
    Ssm(SsmVolumeSource),
}

/// The volumes of a plan, in the order in which they are provided.
pub type Volumes = Vec<Volume>;

/// A block device, attached if need be and mounted if asked.
#[derive(Debug)]
pub struct EbsVolumeSource {
    pub attachment: Option<EbsVolumeAttachment>,
    pub device: String,
    pub mount: Option<Mount>,
}

/// How to find the block volume to attach.
#[derive(Debug)]
pub struct EbsVolumeAttachment {
    pub tags: Vec<AwsTag>,
    pub timeout: Option<u64>,
}

/// A tag of a cloud resource: a key, and a value where one is asked for.
#[derive(Debug)]
pub struct AwsTag {
    pub key: String,
    pub value: Option<String>,
}

/// Objects of the object store, written below a directory.
#[derive(Debug)]
pub struct S3VolumeSource {
    pub bucket: String,
    pub key_prefix: String,
    pub optional: Option<bool>,
    pub mount: Mount,
}

/// A secret, written to a file.
#[derive(Debug)]
pub struct SecretsManagerVolumeSource {
    pub secret_id: String,
    pub mount: Mount,
    pub optional: Option<bool>,
}

/// Stored parameters, written below a directory.
#[derive(Debug)]
pub struct SsmVolumeSource {
    pub path: String,
    pub mount: Mount,
    pub optional: Option<bool>,
}

/// Where a volume appears in the filesystem, and with which owner and
/// mode.
#[derive(Debug)]
pub struct Mount {
    pub destination: String,
    pub fs_type: Option<String>,
    pub group_id: Option<u32>,
    pub mode: Option<String>,
    pub options: Option<Vec<String>>,
    pub user_id: Option<u32>,
}

/// The mode of a mount point that none was given for.
pub open spec fn default_mode() -> Seq<char> {
    seq!['0', '7', '5', '5']
}

impl Mount {
    /// Whether the owner, the group and the mode are set.
    pub open spec fn filled(&self) -> bool {
        self.group_id is Some && self.user_id is Some && self.mode is Some
    }

    /// Whether `self` is `before` with each of owner, group and mode
    /// that was missing taken from `security` and from the default
    /// mode, and everything else as it was.
    pub open spec fn fills(&self, before: Mount, security: Security) -> bool {
        &&& self.destination == before.destination
        &&& self.fs_type == before.fs_type
        &&& self.options == before.options
        &&& self.group_id == if before.group_id is None {
            security.run_as_group_id
        } else {
            before.group_id
        }
        &&& self.user_id == if before.user_id is None {
            security.run_as_user_id
        } else {
            before.user_id
        }
        &&& match before.mode {
            Some(m) => self.mode == Some(m),
            None => self.mode is Some && self.mode->0@ == default_mode(),
        }
    }

    /// Fills in the owner, the group and the mode where they are
    /// missing.
    pub fn fill_defaults(&mut self, security: &Security)
        ensures
            final(self).fills(*old(self), *security),
    {
        if self.group_id.is_none() {
            self.group_id = security.run_as_group_id;
        }
        if self.user_id.is_none() {
            self.user_id = security.run_as_user_id;
        }
        if self.mode.is_none() {
            let mut m: Vec<char> = Vec::new();
            m.push('0');
            m.push('7');
            m.push('5');
            m.push('5');
            assert(m@ == default_mode());
            self.mode = Some(from_chars(m.as_slice()));
        }
    }
}

impl Volume {
    /// Whether `self` is `before` with the defaults of its mount, if it
    /// has one, filled in.
    pub open spec fn fills(&self, before: Volume, security: Security) -> bool {
        match before {
            Volume::Ebs(b) => self matches Volume::Ebs(a) && a.attachment == b.attachment
                && a.device == b.device && match b.mount {
                Some(bm) => a.mount is Some && a.mount->0.fills(bm, security),
                None => a.mount is None,
            },
            Volume::S3(b) => self matches Volume::S3(a) && a.bucket == b.bucket && a.key_prefix
                == b.key_prefix && a.optional == b.optional && a.mount.fills(b.mount, security),
            Volume::SecretsManager(b) => self matches Volume::SecretsManager(a) && a.secret_id
                == b.secret_id && a.optional == b.optional && a.mount.fills(b.mount, security),
            Volume::Ssm(b) => self matches Volume::Ssm(a) && a.path == b.path && a.optional
                == b.optional && a.mount.fills(b.mount, security),
        }
    }

    /// Fills in the defaults of the volume's mount, if it has one.
    pub fn fill_defaults(self, security: &Security) -> (r: Volume)
        ensures
            r.fills(self, *security),
    {
        match self {
            Volume::Ebs(ebs) => {
                let EbsVolumeSource { attachment, device, mount } = ebs;
                let mount = match mount {
                    Some(mut m) => {
                        m.fill_defaults(security);
                        Some(m)
                    },
                    None => None,
                };
                Volume::Ebs(EbsVolumeSource { attachment, device, mount })
            },
            Volume::S3(s3) => {
                let S3VolumeSource { bucket, key_prefix, optional, mut mount } = s3;
                mount.fill_defaults(security);
                Volume::S3(S3VolumeSource { bucket, key_prefix, optional, mount })
            },
            Volume::SecretsManager(secret) => {
                let SecretsManagerVolumeSource { secret_id, mut mount, optional } = secret;
                mount.fill_defaults(security);
                Volume::SecretsManager(SecretsManagerVolumeSource { secret_id, mount, optional })
            },
            Volume::Ssm(ssm) => {
                let SsmVolumeSource { path, mut mount, optional } = ssm;
                mount.fill_defaults(security);
                Volume::Ssm(SsmVolumeSource { path, mount, optional })
            },
        }
    }

    /// The mount of the volume, if it has one.
    pub open spec fn mount_of(&self) -> Option<Mount> {
        match *self {
            Volume::Ebs(v) => v.mount,
            Volume::S3(v) => Some(v.mount),
            Volume::SecretsManager(v) => Some(v.mount),
            Volume::Ssm(v) => Some(v.mount),
        }
    }
}

/// Whether `after` holds the volumes of `before`, each with the defaults
/// of its mount filled in.
pub open spec fn volumes_fill(after: Seq<Volume>, before: Seq<Volume>, security: Security) -> bool {
    after.len() == before.len() && forall|i: int|
        0 <= i < before.len() ==> (#[trigger] after[i]).fills(before[i], security)
}

/// Fills in the defaults of every mount.
pub fn fill_volume_defaults(volumes: Vec<Volume>, security: &Security) -> (r: Vec<Volume>)
    ensures
        volumes_fill(r@, volumes@, *security),
{
    let mut rest = volumes;
    let mut back: Vec<Volume> = Vec::new();
    let n = rest.len();
    // Take the volumes from the end, then put them back in order.
    while rest.len() > 0
        invariant
            n == volumes.len(),
            rest.len() + back.len() == n,
            rest@ == volumes@.take(rest.len() as int),
            forall|j: int|
                0 <= j < back.len() ==> (#[trigger] back@[j]).fills(volumes@[n - 1 - j], *security),
        decreases rest.len(),
    {
        let v = rest.pop().unwrap();
        let filled = v.fill_defaults(security);
        back.push(filled);
    }
    let mut out: Vec<Volume> = Vec::new();
    while back.len() > 0
        invariant
            n == volumes.len(),
            out.len() + back.len() == n,
            forall|j: int|
                0 <= j < back.len() ==> (#[trigger] back@[j]).fills(volumes@[n - 1 - j], *security),
            forall|j: int| 0 <= j < out.len() ==> (#[trigger] out@[j]).fills(volumes@[j], *security),
        decreases back.len(),
    {
        let v = back.pop().unwrap();
        out.push(v);
    }
    out
}


/// Why a boot plan could not be made.
#[derive(Debug)]
pub enum VmSpecError {
    /// The user string of the image is empty.
    EmptyUserGroup,
    /// The user string of the image has more than a user and a group.
    TooManyFields,
    /// The user of the image has no id.
    UnknownUser(crate::login::Error),
    /// The group of the image has no id.
    UnknownGroup(crate::login::Error),
    /// The command is not a path and was not found on the search path.
    ExecutableNotFound,
    /// An argument holds a reference operator and text that the
    /// expansion cannot take.
    NotExpandable,
}

/// The user, and the group if there is one, that an image names.
#[derive(Debug, PartialEq)]
pub struct UserGroupNames {
    pub user: String,
    pub group: Option<String>,
}

/// What a user string names: the text before the first colon as the
/// user, and the text after it, if there is a colon, as the group. An
/// empty string and one with a second colon name nothing.
pub open spec fn user_group_spec(text: Seq<char>) -> Option<(Seq<char>, Option<Seq<char>>)> {
    let fields = split_on(text, ':');
    if text.len() == 0 || fields.len() > 2 {
        None
    } else if fields.len() == 2 {
        Some((fields[0], Some(fields[1])))
    } else {
        Some((fields[0], None))
    }
}

impl UserGroupNames {
    /// The names as text.
    pub open spec fn names(&self) -> (Seq<char>, Option<Seq<char>>) {
        (
            self.user@,
            match self.group {
                Some(g) => Some(g@),
                None => None,
            },
        )
    }

    /// Reads a user string of the form `user` or `user:group`.
    pub fn try_from(user_data_str: String) -> (r: Result<UserGroupNames, VmSpecError>)
        ensures
            match r {
                Ok(names) => user_group_spec(user_data_str@) == Some(names.names()),
                Err(VmSpecError::EmptyUserGroup) => user_data_str@.len() == 0,
                Err(VmSpecError::TooManyFields) => user_data_str@.len() > 0 && split_on(
                    user_data_str@,
                    ':',
                ).len() > 2,
                Err(_) => false,
            },
    {
        let chars = to_chars(user_data_str.as_str());
        if chars.len() == 0 {
            return Err(VmSpecError::EmptyUserGroup);
        }
        let fields = split_chars(chars.as_slice(), ':');
        assert(rows(fields@) == split_on(user_data_str@, ':'));
        if fields.len() > 2 {
            return Err(VmSpecError::TooManyFields);
        }
        assert(rows(fields@)[0] == fields@[0]@);
        let user = from_chars(fields[0].as_slice());
        let group = if fields.len() == 2 {
            assert(rows(fields@)[1] == fields@[1]@);
            Some(from_chars(fields[1].as_slice()))
        } else {
            None
        };
        Ok(UserGroupNames { user, group })
    }
}

/// The boot plan that the user supplies: each field that is set
/// overrides the plan of the image.
#[derive(Debug)]
pub struct UserData {
    pub args: Option<Vec<String>>,
    pub command: Option<Vec<String>>,
    pub debug: Option<bool>,
    pub disable_services: Option<Vec<String>>,
    pub env: Option<NameValues>,
    pub env_from: Option<EnvFromSources>,
    pub init_scripts: Option<Vec<String>>,
    pub replace_init: Option<bool>,
    pub security: Option<Security>,
    pub shutdown_grace_period: Option<u64>,
    pub sysctls: Option<NameValues>,
    pub volumes: Option<Volumes>,
    pub working_dir: Option<String>,
}

/// The resolved boot plan.
#[derive(Debug)]
pub struct VmSpec {
    pub args: Vec<String>,
    pub command: Vec<String>,
    pub debug: bool,
    pub disable_services: Vec<String>,
    pub env: NameValues,
    pub env_from: EnvFromSources,
    pub init_scripts: Vec<String>,
    pub replace_init: bool,
    pub security: Security,
    pub shutdown_grace_period: u64,
    pub sysctls: NameValues,
    pub volumes: Volumes,
    pub working_dir: String,
}

/// The shell that runs when the plan names no command.
pub open spec fn default_shell() -> Seq<char> {
    seq!['/', '.', 'e', 'a', 's', 'y', 't', 'o', '/', 'b', 'i', 'n', '/', 's', 'h']
}

impl Default for VmSpec {
    fn default() -> (r: Self)
        ensures
            r.is_default(),
    {
        let mut root: Vec<char> = Vec::new();
        root.push('/');
        VmSpec {
            args: Vec::new(),
            command: Vec::new(),
            debug: false,
            disable_services: Vec::new(),
            env: Vec::new(),
            env_from: Vec::new(),
            init_scripts: Vec::new(),
            replace_init: false,
            security: Security::default(),
            shutdown_grace_period: 10,
            sysctls: Vec::new(),
            volumes: Vec::new(),
            working_dir: from_chars(root.as_slice()),
        }
    }
}

/// A copy of a list of strings.
pub fn clone_strings(v: &Vec<String>) -> (r: Vec<String>)
    ensures
        r@ == v@,
{
    let mut out: Vec<String> = Vec::new();
    let mut i: usize = 0;
    while i < v.len()
        invariant
            i <= v.len(),
            out@ == v@.take(i as int),
        decreases v.len() - i,
    {
        out.push(v[i].clone());
        i += 1;
    }
    assert(v@.take(v.len() as int) == v@);
    out
}

impl VmSpec {
    /// Whether the plan is the one that holds before the image and the
    /// user have spoken: nothing to run, the root as working directory,
    /// the workload as user and group 0 on a writable root, and ten
    /// seconds of grace at shutdown.
    pub open spec fn is_default(&self) -> bool {
        &&& self.args@.len() == 0
        &&& self.command@.len() == 0
        &&& !self.debug
        &&& self.disable_services@.len() == 0
        &&& self.env@.len() == 0
        &&& self.env_from@.len() == 0
        &&& self.init_scripts@.len() == 0
        &&& !self.replace_init
        &&& self.security == (Security {
            readonly_root_fs: Some(false),
            run_as_group_id: Some(0u32),
            run_as_user_id: Some(0u32),
        })
        &&& self.shutdown_grace_period == 10
        &&& self.sysctls@.len() == 0
        &&& self.volumes@.len() == 0
        &&& self.working_dir@ == seq!['/']
    }

    /// The invariant of a plan: the user and the group of the workload
    /// are always filled, and every mount has its owner, its group and
    /// its mode.
    pub open spec fn wf(&self) -> bool {
        &&& self.security.run_as_user_id is Some
        &&& self.security.run_as_group_id is Some
        &&& forall|i: int|
            0 <= i < self.volumes@.len() ==> match (#[trigger] self.volumes@[i]).mount_of() {
                Some(m) => m.filled(),
                None => true,
            }
    }

    /// The command line before expansion: the command, then the
    /// arguments.
    pub open spec fn argv(&self) -> Seq<Seq<char>> {
        views(self.command@) + views(self.args@)
    }

    /// Whether the first word of the command line has to be looked up
    /// on the search path: it does unless it starts at the root.
    pub open spec fn needs_lookup(&self) -> bool {
        self.argv().len() > 0 && !(self.argv()[0].len() > 0 && self.argv()[0][0] == '/')
    }

    /// The command line with its first word resolved: `found` takes its
    /// place where it had to be looked up.
    pub open spec fn resolved_argv(&self, found: Option<Seq<char>>) -> Option<Seq<Seq<char>>> {
        if !self.needs_lookup() {
            Some(self.argv())
        } else {
            match found {
                Some(path) => Some(self.argv().update(0, path)),
                None => None,
            }
        }
    }

    /// The name to look up on the search path, if the command is not a
    /// path already.
    pub fn lookup_name(&self) -> (r: Option<String>)
        ensures
            match r {
                Some(name) => self.needs_lookup() && name@ == self.argv()[0],
                None => !self.needs_lookup(),
            },
    {
        let first: &String = if self.command.len() > 0 {
            &self.command[0]
        } else if self.args.len() > 0 {
            &self.args[0]
        } else {
            return None;
        };
        assert(first@ == self.argv()[0]);
        let chars = to_chars(first.as_str());
        if chars.len() > 0 && chars[0] == '/' {
            None
        } else {
            Some(first.clone())
        }
    }

    /// The command line to run. With no command and no arguments it is
    /// the default shell. Otherwise it is the command followed by the
    /// arguments, the first word replaced by `found`, the path under
    /// which it was found, where it had to be looked up, and every word
    /// expanded against the variables of `env`.
    pub fn full_command(&self, env: &NameValues, found: Option<String>) -> (r: Result<
        Vec<String>,
        VmSpecError,
    >)
        ensures
            self.argv().len() == 0 ==> r is Ok && views(r->Ok_0@) == seq![default_shell()],
            self.argv().len() > 0 ==> match r {
                Ok(words) => {
                    let exe = self.resolved_argv(crate::text::opt_view(found));
                    &&& exe is Some
                    &&& words@.len() == exe->0.len()
                    &&& forall|i: int|
                        0 <= i < exe->0.len() ==> crate::expand::expandable(#[trigger] exe->0[i])
                            && words@[i]@ == crate::expand::k8s_expanded(
                            exe->0[i],
                            nv_pairs(nv_map(env@)),
                            Seq::empty(),
                        )
                },
                Err(VmSpecError::ExecutableNotFound) => self.needs_lookup() && found is None,
                Err(VmSpecError::NotExpandable) => {
                    let exe = self.resolved_argv(crate::text::opt_view(found));
                    exe is Some && exists|i: int|
                        0 <= i < exe->0.len() && !crate::expand::expandable(#[trigger] exe->0[i])
                },
                Err(_) => false,
            },
    {
        if self.command.len() == 0 && self.args.len() == 0 {
            let mut sh: Vec<char> = to_chars("/.easyto/bin/sh");
            proof {
                reveal_strlit("/.easyto/bin/sh");
            }
            assert(sh@ == default_shell());
            let mut out: Vec<String> = Vec::new();
            out.push(from_chars(sh.as_slice()));
            assert(views(out@) == seq![default_shell()]);
            return Ok(out);
        }
        let mut exe: Vec<String> = clone_strings(&self.command);
        let mut j: usize = 0;
        while j < self.args.len()
            invariant
                j <= self.args.len(),
                exe@ == self.command@ + self.args@.take(j as int),
            decreases self.args.len() - j,
        {
            exe.push(self.args[j].clone());
            assert(self.args@.take(j + 1) == self.args@.take(j as int).push(self.args@[j as int]));
            j += 1;
        }
        assert(self.args@.take(self.args.len() as int) == self.args@);
        assert(views(exe@) == self.argv());
        let first = to_chars(exe[0].as_str());
        if !(first.len() > 0 && first[0] == '/') {
            match found {
                Some(path) => {
                    exe.set(0, path);
                },
                None => {
                    return Err(VmSpecError::ExecutableNotFound);
                },
            }
        }
        assert(Some(views(exe@)) == self.resolved_argv(crate::text::opt_view(found)));
        let nothing: Vec<NameValue> = Vec::new();
        assert(nv_map(nothing@) == Seq::<NameValue>::empty());
        assert(nv_pairs(Seq::<NameValue>::empty()) == Seq::<(Seq<char>, Seq<char>)>::empty());
        let mut words: Vec<String> = Vec::new();
        let mut i: usize = 0;
        while i < exe.len()
            invariant
                i <= exe.len(),
                words@.len() == i,
                nothing@.len() == 0,
                self.argv().len() > 0,
                Some(views(exe@)) == self.resolved_argv(crate::text::opt_view(found)),
                nv_pairs(nv_map(nothing@)) == Seq::<(Seq<char>, Seq<char>)>::empty(),
                forall|k: int|
                    0 <= k < i ==> crate::expand::expandable(#[trigger] views(exe@)[k])
                        && words@[k]@ == crate::expand::k8s_expanded(
                        views(exe@)[k],
                        nv_pairs(nv_map(env@)),
                        Seq::empty(),
                    ),
            decreases exe.len() - i,
        {
            assert(views(exe@)[i as int] == exe@[i as int]@);
            match crate::expand::expand_value(exe[i].as_str(), env, &nothing) {
                Some(word) => {
                    let ghost before = words@;
                    words.push(word);
                    assert(words@[i as int] == word);
                    assert forall|k: int| 0 <= k < i + 1 implies crate::expand::expandable(
                        #[trigger] views(exe@)[k],
                    ) && words@[k]@ == crate::expand::k8s_expanded(
                        views(exe@)[k],
                        nv_pairs(nv_map(env@)),
                        Seq::empty(),
                    ) by {
                        if k < i {
                            assert(words@[k] == before[k]);
                        }
                    }
                },
                None => {
                    let ghost resolved = self.resolved_argv(crate::text::opt_view(found));
                    assert(resolved->0 == views(exe@));
                    assert(!crate::expand::expandable(resolved->0[i as int]));
                    return Err(VmSpecError::NotExpandable);
                },
            }
            i += 1;
        }
        let ghost resolved = self.resolved_argv(crate::text::opt_view(found));
        assert(resolved->0 == views(exe@));
        Ok(words)
    }
}


/// Overwrites `slot` where a value is given.
fn set_if_some<T>(slot: &mut T, value: Option<T>)
    ensures
        *final(slot) == match value {
            Some(v) => v,
            None => *old(slot),
        },
{
    match value {
        Some(v) => {
            *slot = v;
        },
        None => {},
    }
}

/// Overwrites the arguments where new ones are given, and clears them
/// where only a new command is.
fn set_args(slot: &mut Vec<String>, args: Option<Vec<String>>, command_given: bool)
    ensures
        final(slot)@ == match args {
            Some(a) => a@,
            None => if command_given {
                Seq::empty()
            } else {
                old(slot)@
            },
        },
{
    match args {
        Some(a) => {
            *slot = a;
        },
        None => {
            if command_given {
                *slot = Vec::new();
            }
        },
    }
}

/// Overwrites `slot` where a list is given that is not empty.
fn set_unless_empty(slot: &mut Vec<String>, value: Option<Vec<String>>)
    ensures
        final(slot)@ == match value {
            Some(list) => if list@.len() > 0 {
                list@
            } else {
                old(slot)@
            },
            None => old(slot)@,
        },
{
    match value {
        Some(list) => {
            if list.len() > 0 {
                *slot = list;
            }
        },
        None => {},
    }
}

/// Merges the given entries, if any, into `slot` by name.
fn merge_into(slot: &mut Vec<NameValue>, value: Option<Vec<NameValue>>)
    ensures
        final(slot)@ == match value {
            Some(list) => nv_merge(old(slot)@, list@),
            None => old(slot)@,
        },
{
    match value {
        Some(list) => {
            let merged = slot.merge(&list);
            *slot = merged;
        },
        None => {},
    }
}

/// Merges the given settings, if any, into `slot` field by field.
fn merge_security(slot: &mut Security, value: Option<Security>)
    ensures
        *final(slot) == match value {
            Some(security) => old(slot).merged(security),
            None => *old(slot),
        },
{
    match value {
        Some(security) => {
            slot.merge(security);
        },
        None => {},
    }
}

/// The strings of a list that may be absent.
pub open spec fn strings_or_none(v: Option<Vec<String>>) -> Seq<Seq<char>> {
    match v {
        Some(list) => views(list@),
        None => Seq::empty(),
    }
}

/// The user and the group that the workload runs as when the image
/// names `user`: both 0 unless named, a named user or group resolved
/// through the user and the group database. `Err` tells which of the
/// steps failed.
pub open spec fn image_security(user: Option<Seq<char>>, passwd: Seq<char>, group: Seq<char>) -> Result<
    Security,
    int,
> {
    match user {
        None => Ok(
            Security {
                readonly_root_fs: Some(false),
                run_as_group_id: Some(0u32),
                run_as_user_id: Some(0u32),
            },
        ),
        Some(text) => match user_group_spec(text) {
            None => if text.len() == 0 {
                Err(0int)
            } else {
                Err(1int)
            },
            Some((user_name, group_name)) => match user_group_id_spec(passwd, user_name) {
                None => Err(2int),
                Some(uid) => match group_name {
                    None => Ok(
                        Security {
                            readonly_root_fs: Some(false),
                            run_as_group_id: Some(0u32),
                            run_as_user_id: Some(uid),
                        },
                    ),
                    Some(g) => match user_group_id_spec(group, g) {
                        None => Err(3int),
                        Some(gid) => Ok(
                            Security {
                                readonly_root_fs: Some(false),
                                run_as_group_id: Some(gid),
                                run_as_user_id: Some(uid),
                            },
                        ),
                    },
                },
            },
        },
    }
}

/// The number under which `image_security` reports an error.
pub open spec fn error_step(e: VmSpecError) -> int {
    match e {
        VmSpecError::EmptyUserGroup => 0,
        VmSpecError::TooManyFields => 1,
        VmSpecError::UnknownUser(_) => 2,
        VmSpecError::UnknownGroup(_) => 3,
        VmSpecError::ExecutableNotFound => 4,
        VmSpecError::NotExpandable => 5,
    }
}

impl VmSpec {
    /// Whether `self` is the plan that the image configuration `config`
    /// gives with the security settings `security`: the entry point as
    /// command, the image's command as arguments, its environment and
    /// its working directory, and the defaults for the rest.
    pub open spec fn from_image(&self, config: Option<Config>, security: Security) -> bool {
        &&& views(self.args@) == match config {
            Some(c) => strings_or_none(c.cmd),
            None => Seq::empty(),
        }
        &&& views(self.command@) == match config {
            Some(c) => strings_or_none(c.entrypoint),
            None => Seq::empty(),
        }
        &&& nv_pairs(self.env@) == name_values_of(
            match config {
                Some(c) => strings_or_none(c.env),
                None => Seq::empty(),
            },
        )
        &&& self.working_dir@ == match config {
            Some(c) => match c.working_dir {
                Some(dir) => dir@,
                None => seq!['/'],
            },
            None => seq!['/'],
        }
        &&& self.security == security
        &&& !self.debug
        &&& self.disable_services@.len() == 0
        &&& self.env_from@.len() == 0
        &&& self.init_scripts@.len() == 0
        &&& !self.replace_init
        &&& self.shutdown_grace_period == 10
        &&& self.sysctls@.len() == 0
        &&& self.volumes@.len() == 0
    }

    /// Makes the plan that the configuration of the image gives.
    /// `passwd` and `group` are the texts of the user and the group
    /// database, read only where the image names a user that is not a
    /// number.
    pub fn from_config_file(config_file: &ConfigFile, passwd: &str, group: &str) -> (r: Result<
        VmSpec,
        VmSpecError,
    >)
        ensures
            match r {
                Ok(spec) => spec.wf() && spec.from_image(
                    config_file.config,
                    image_security(
                        match config_file.config {
                            Some(c) => crate::text::opt_view(c.user),
                            None => None,
                        },
                        passwd@,
                        group@,
                    )->Ok_0,
                ) && image_security(
                    match config_file.config {
                        Some(c) => crate::text::opt_view(c.user),
                        None => None,
                    },
                    passwd@,
                    group@,
                ) is Ok,
                Err(e) => image_security(
                    match config_file.config {
                        Some(c) => crate::text::opt_view(c.user),
                        None => None,
                    },
                    passwd@,
                    group@,
                ) == Err::<Security, int>(error_step(e)),
            },
    {
        let mut vmspec = VmSpec::default();
        let config = match &config_file.config {
            Some(c) => c,
            None => {
                assert(name_values_of(Seq::empty()) == Seq::<(Seq<char>, Seq<char>)>::empty());
                assert(nv_pairs(vmspec.env@) == Seq::<(Seq<char>, Seq<char>)>::empty());
                assert(views(vmspec.args@) == Seq::<Seq<char>>::empty());
                assert(views(vmspec.command@) == Seq::<Seq<char>>::empty());
                return Ok(vmspec);
            },
        };
        match &config.env {
            Some(env) => {
                vmspec.env = env.to_name_values();
            },
            None => {
                assert(name_values_of(Seq::empty()) == Seq::<(Seq<char>, Seq<char>)>::empty());
                assert(nv_pairs(vmspec.env@) == Seq::<(Seq<char>, Seq<char>)>::empty());
            },
        }
        match &config.cmd {
            Some(cmd) => {
                vmspec.args = clone_strings(cmd);
            },
            None => {
                assert(views(vmspec.args@) == Seq::<Seq<char>>::empty());
            },
        }
        match &config.entrypoint {
            Some(entrypoint) => {
                vmspec.command = clone_strings(entrypoint);
            },
            None => {
                assert(views(vmspec.command@) == Seq::<Seq<char>>::empty());
            },
        }
        match &config.working_dir {
            Some(working_dir) => {
                vmspec.working_dir = working_dir.clone();
            },
            None => {},
        }
        match &config.user {
            Some(user) => {
                let names = match UserGroupNames::try_from(user.clone()) {
                    Ok(names) => names,
                    Err(e) => {
                        return Err(e);
                    },
                };
                let uid = match user_group_id(passwd, names.user.as_str()) {
                    Ok(uid) => uid,
                    Err(e) => {
                        return Err(VmSpecError::UnknownUser(e));
                    },
                };
                vmspec.security.run_as_user_id = Some(uid);
                match &names.group {
                    Some(group_name) => {
                        let gid = match user_group_id(group, group_name.as_str()) {
                            Ok(gid) => gid,
                            Err(e) => {
                                return Err(VmSpecError::UnknownGroup(e));
                            },
                        };
                        vmspec.security.run_as_group_id = Some(gid);
                    },
                    None => {},
                }
            },
            None => {},
        }
        Ok(vmspec)
    }

    /// Overrides the plan with what the user supplies. A new command
    /// clears the arguments unless the user gives arguments too; the
    /// environment and the kernel parameters are merged by name, the
    /// user's entries winning; the sources of the environment, the init
    /// scripts and the volumes are replaced as a whole; the security
    /// settings are merged field by field; a list of disabled services
    /// is taken over unless it is empty; and every other field that the
    /// user sets overwrites the plan's. Last, every mount gets the
    /// owner, the group and the mode that it does not name.
    pub fn merge_user_data(&mut self, other: UserData)
        ensures
            final(self).args@ == match (other.args, other.command) {
                (Some(args), _) => args@,
                (None, Some(_)) => Seq::empty(),
                (None, None) => old(self).args@,
            },
            final(self).command@ == match other.command {
                Some(command) => command@,
                None => old(self).command@,
            },
            final(self).debug == match other.debug {
                Some(debug) => debug,
                None => old(self).debug,
            },
            final(self).disable_services@ == match other.disable_services {
                Some(list) => if list@.len() > 0 {
                    list@
                } else {
                    old(self).disable_services@
                },
                None => old(self).disable_services@,
            },
            final(self).env@ == match other.env {
                Some(env) => nv_merge(old(self).env@, env@),
                None => old(self).env@,
            },
            final(self).env_from@ == match other.env_from {
                Some(env_from) => env_from@,
                None => old(self).env_from@,
            },
            final(self).init_scripts@ == match other.init_scripts {
                Some(scripts) => scripts@,
                None => old(self).init_scripts@,
            },
            final(self).replace_init == match other.replace_init {
                Some(replace_init) => replace_init,
                None => old(self).replace_init,
            },
            final(self).security == match other.security {
                Some(security) => old(self).security.merged(security),
                None => old(self).security,
            },
            final(self).shutdown_grace_period == match other.shutdown_grace_period {
                Some(seconds) => seconds,
                None => old(self).shutdown_grace_period,
            },
            final(self).sysctls@ == match other.sysctls {
                Some(sysctls) => nv_merge(old(self).sysctls@, sysctls@),
                None => old(self).sysctls@,
            },
            volumes_fill(
                final(self).volumes@,
                match other.volumes {
                    Some(volumes) => volumes@,
                    None => old(self).volumes@,
                },
                final(self).security,
            ),
            final(self).working_dir == match other.working_dir {
                Some(dir) => dir,
                None => old(self).working_dir,
            },
            old(self).security.run_as_user_id is Some && old(self).security.run_as_group_id is Some
                ==> final(self).wf(),
    {
        let UserData {
            args,
            command,
            debug,
            disable_services,
            env,
            env_from,
            init_scripts,
            replace_init,
            security,
            shutdown_grace_period,
            sysctls,
            volumes,
            working_dir,
        } = other;
        // A new command does away with the arguments of the old one.
        set_args(&mut self.args, args, command.is_some());
        set_if_some(&mut self.command, command);
        set_if_some(&mut self.debug, debug);
        set_unless_empty(&mut self.disable_services, disable_services);
        merge_into(&mut self.env, env);
        set_if_some(&mut self.env_from, env_from);
        set_if_some(&mut self.init_scripts, init_scripts);
        set_if_some(&mut self.replace_init, replace_init);
        merge_security(&mut self.security, security);
        set_if_some(&mut self.shutdown_grace_period, shutdown_grace_period);
        merge_into(&mut self.sysctls, sysctls);
        set_if_some(&mut self.volumes, volumes);
        set_if_some(&mut self.working_dir, working_dir);
        self.update_defaults();
    }

    /// Gives every mount the owner, the group and the mode that it does
    /// not name: the user and the group of the workload, and `0755`.
    pub fn update_defaults(&mut self)
        ensures
            volumes_fill(final(self).volumes@, old(self).volumes@, old(self).security),
            final(self).args == old(self).args,
            final(self).command == old(self).command,
            final(self).debug == old(self).debug,
            final(self).disable_services == old(self).disable_services,
            final(self).env == old(self).env,
            final(self).env_from == old(self).env_from,
            final(self).init_scripts == old(self).init_scripts,
            final(self).replace_init == old(self).replace_init,
            final(self).security == old(self).security,
            final(self).shutdown_grace_period == old(self).shutdown_grace_period,
            final(self).sysctls == old(self).sysctls,
            final(self).working_dir == old(self).working_dir,
            old(self).security.run_as_user_id is Some && old(self).security.run_as_group_id is Some
                ==> final(self).wf(),
    {
        let mut volumes: Vec<Volume> = Vec::new();
        std::mem::swap(&mut volumes, &mut self.volumes);
        let security = self.security;
        let filled = fill_volume_defaults(volumes, &security);
        self.volumes = filled;
    }
}


/// A file to write and run before the workload starts.
#[derive(Debug, PartialEq, Eq)]
pub struct InitScript {
    /// The temporary file of the script in the run directory.
    pub path: String,
    /// The mode of the file.
    pub mode: u32,
    pub contents: String,
}

/// A kernel parameter to set.
#[derive(Debug, PartialEq, Eq)]
pub struct SysctlWrite {
    /// The file of the parameter.
    pub path: String,
    pub value: String,
}

/// The temporary file of the init script with the number `i`.
pub open spec fn init_script_path(i: nat) -> Seq<char> {
    "/.easyto/run/init-"@ + crate::text::decimal(i)
}

impl VmSpec {
    /// The init scripts to run, in the order in which the plan names
    /// them: each is written to a file of its own in the run directory,
    /// made executable, run with the environment of the workload, and
    /// removed.
    pub fn run_init_scripts(&self) -> (r: Vec<InitScript>)
        ensures
            r@.len() == self.init_scripts@.len(),
            forall|i: int|
                0 <= i < r@.len() ==> (#[trigger] r@[i]).path@ == init_script_path(i as nat)
                    && r@[i].mode == 0o755 && r@[i].contents == self.init_scripts@[i],
    {
        let mut out: Vec<InitScript> = Vec::new();
        let mut i: usize = 0;
        while i < self.init_scripts.len()
            invariant
                i <= self.init_scripts.len(),
                out@.len() == i,
                forall|k: int|
                    0 <= k < i ==> (#[trigger] out@[k]).path@ == init_script_path(k as nat)
                        && out@[k].mode == 0o755 && out@[k].contents == self.init_scripts@[k],
            decreases self.init_scripts.len() - i,
        {
            let mut path = to_chars("/.easyto/run/init-");
            crate::text::push_decimal(&mut path, i as u64);
            out.push(
                InitScript {
                    path: from_chars(path.as_slice()),
                    mode: 0o755,
                    contents: self.init_scripts[i].clone(),
                },
            );
            i += 1;
        }
        out
    }

    /// The kernel parameters to set, in the order in which the plan
    /// names them, each with the file that holds it.
    pub fn set_sysctls(&self, base_dir: &str) -> (r: Vec<SysctlWrite>)
        ensures
            r@.len() == self.sysctls@.len(),
            forall|i: int|
                0 <= i < r@.len() ==> (#[trigger] r@[i]).path@ == crate::system::path_push(
                    base_dir@,
                    crate::system::proc_path_spec(self.sysctls@[i].name@),
                ) && r@[i].value == self.sysctls@[i].value,
    {
        let mut out: Vec<SysctlWrite> = Vec::new();
        let mut i: usize = 0;
        while i < self.sysctls.len()
            invariant
                i <= self.sysctls.len(),
                out@.len() == i,
                forall|k: int|
                    0 <= k < i ==> (#[trigger] out@[k]).path@ == crate::system::path_push(
                        base_dir@,
                        crate::system::proc_path_spec(self.sysctls@[k].name@),
                    ) && out@[k].value == self.sysctls@[k].value,
            decreases self.sysctls.len() - i,
        {
            out.push(
                SysctlWrite {
                    path: crate::system::sysctl(base_dir, self.sysctls[i].name.as_str()),
                    value: self.sysctls[i].value.clone(),
                },
            );
            i += 1;
        }
        out
    }
}

} // verus!
