//! What the boot sequence asks of the cloud, and what it makes of the
//! answers: the items of a volume, the filters that find a block
//! volume, and the paths of the instance metadata.

use vstd::prelude::*;
use vstd::string::StrSliceExecFns;
use crate::backoff::Wait;
use crate::text::{
    append_chars, from_chars, is_prefix, slice_chars, starts_with, to_chars, views,
};
use crate::vmspec::{AwsTag, EbsVolumeAttachment};
use crate::writable::Writable;

verus! {

/// Why a source gave nothing.
#[derive(Clone, Copy, Debug, PartialEq, Eq, Structural)]
pub enum SourceError {
    /// The secret has neither a text nor a binary value.
    SecretHasNoValue,
    /// A stored parameter came without its name or without its value.
    IncompleteParameter,
    /// A stored parameter has a name that does not lie below the path
    /// that was asked for.
    NameOutsidePath,
}

/// The value of a secret: a text or bytes.
#[derive(Debug)]
pub struct AsmSecretValue {
    pub binary: Option<Vec<u8>>,
    pub string: Option<String>,
}

impl Default for AsmSecretValue {
    fn default() -> (r: Self)
        ensures
            r.binary is None,
            r.string is None,
    {
        AsmSecretValue { binary: None, string: None }
    }
}

impl AsmSecretValue {
    /// The bytes of the value: the binary value where there is one,
    /// else the text as UTF-8, else nothing.
    pub open spec fn bytes_spec(&self) -> Seq<u8> {
        match (self.binary, self.string) {
            (Some(b), _) => b@,
            (None, Some(s)) => vstd::utf8::encode_utf8(s@),
            (None, None) => Seq::empty(),
        }
    }

    /// The bytes to write for this value.
    pub fn bytes(&self) -> (r: Vec<u8>)
        ensures
            r@ == self.bytes_spec(),
    {
        match &self.binary {
            Some(b) => {
                let mut out: Vec<u8> = Vec::new();
                let mut i: usize = 0;
                while i < b.len()
                    invariant
                        i <= b.len(),
                        out@ == b@.take(i as int),
                    decreases b.len() - i,
                {
                    out.push(b[i]);
                    i += 1;
                }
                assert(b@.take(b.len() as int) == b@);
                out
            },
            None => match &self.string {
                Some(s) => s.as_str().as_bytes_vec(),
                None => Vec::new(),
            },
        }
    }
}

impl Writable for AsmSecretValue {
    open spec fn name_view(&self) -> Seq<char> {
        Seq::empty()
    }

    open spec fn secret(&self) -> bool {
        true
    }

    fn name(&self) -> (r: String) {
        String::new()
    }

    fn is_secret(&self) -> (r: bool) {
        true
    }
}

/// The items that a secret gives: its text where it has one, else its
/// binary value; a secret with neither gives an error.
pub fn get_secret_list(secret_string: Option<String>, secret_binary: Option<Vec<u8>>) -> (r: Result<
    Vec<AsmSecretValue>,
    SourceError,
>)
    ensures
        match r {
            Ok(list) => list@.len() == 1 && match secret_string {
                Some(s) => list@[0].string == Some(s) && list@[0].binary is None,
                None => secret_binary is Some && list@[0].binary == secret_binary
                    && list@[0].string is None,
            },
            Err(e) => secret_string is None && secret_binary is None && e
                == SourceError::SecretHasNoValue,
        },
{
    let value = match secret_string {
        Some(s) => AsmSecretValue { binary: None, string: Some(s) },
        None => match secret_binary {
            Some(b) => AsmSecretValue { binary: Some(b), string: None },
            None => {
                return Err(SourceError::SecretHasNoValue);
            },
        },
    };
    let mut list: Vec<AsmSecretValue> = Vec::new();
    list.push(value);
    Ok(list)
}

/// The bytes that a secret gives: its text as UTF-8 where it has one,
/// else its binary value; a secret with neither gives an error.
pub fn get_secret_value(secret_string: Option<String>, secret_binary: Option<Vec<u8>>) -> (r:
    Result<Vec<u8>, SourceError>)
    ensures
        match r {
            Ok(bytes) => match secret_string {
                Some(s) => bytes@ == vstd::utf8::encode_utf8(s@),
                None => secret_binary == Some(bytes),
            },
            Err(e) => secret_string is None && secret_binary is None && e
                == SourceError::SecretHasNoValue,
        },
{
    match secret_string {
        Some(s) => Ok(s.as_str().as_bytes_vec()),
        None => match secret_binary {
            Some(b) => Ok(b),
            None => Err(SourceError::SecretHasNoValue),
        },
    }
}

/// A stored parameter as the parameter store hands it out.
#[derive(Debug)]
pub struct Parameter {
    pub name: Option<String>,
    pub value: Option<String>,
}

/// A stored parameter, named by its path below the path that was asked
/// for.
#[derive(Debug)]
pub struct SsmParameterValue {
    pub name: String,
    pub value: String,
}

impl Default for SsmParameterValue {
    fn default() -> (r: Self)
        ensures
            r.name@.len() == 0,
            r.value@.len() == 0,
    {
        SsmParameterValue { name: String::new(), value: String::new() }
    }
}

impl Writable for SsmParameterValue {
    open spec fn name_view(&self) -> Seq<char> {
        self.name@
    }

    open spec fn secret(&self) -> bool {
        true
    }

    fn name(&self) -> (r: String) {
        self.name.clone()
    }

    fn is_secret(&self) -> (r: bool) {
        true
    }
}

/// Whether the parameters below the path `ssm_path` are asked for as a
/// whole: only a path that starts at the root can have any.
pub fn lists_by_path(ssm_path: &str) -> (r: bool)
    ensures
        r == (ssm_path@.len() > 0 && ssm_path@[0] == '/'),
{
    let chars = to_chars(ssm_path);
    chars.len() > 0 && chars[0] == '/'
}

/// What a stored parameter gives for the path `ssm_path`: its name
/// without the path in front, and its value. `None` stands for a
/// parameter that lacks its name or its value, or whose name is shorter
/// than the path.
pub open spec fn parameter_item(ssm_path: Seq<char>, p: Parameter) -> Option<
    (Seq<char>, Seq<char>),
> {
    match (p.name, p.value) {
        (Some(name), Some(value)) => if ssm_path.len() <= name@.len() {
            Some((name@.skip(ssm_path.len() as int), value@))
        } else {
            None
        },
        _ => None,
    }
}

/// The names and values of a list of stored parameters.
pub open spec fn parameter_views(list: Seq<SsmParameterValue>) -> Seq<(Seq<char>, Seq<char>)> {
    Seq::new(list.len(), |i: int| (list[i].name@, list[i].value@))
}

/// What is wrong with a stored parameter for the path `ssm_path`, if
/// anything: it has to come with its name and its value, and its name
/// must not be shorter than the path.
pub open spec fn parameter_fault(ssm_path: Seq<char>, p: Parameter) -> Option<SourceError> {
    match (p.name, p.value) {
        (Some(name), Some(_)) => if ssm_path.len() <= name@.len() {
            None
        } else {
            Some(SourceError::NameOutsidePath)
        },
        _ => Some(SourceError::IncompleteParameter),
    }
}

/// The items that the first `n` parameters give, or what is wrong with
/// the first parameter that gives none.
pub open spec fn parameter_items(ssm_path: Seq<char>, parameters: Seq<Parameter>, n: nat) -> Result<
    Seq<(Seq<char>, Seq<char>)>,
    SourceError,
>
    decreases n,
{
    if n == 0 {
        Ok(Seq::empty())
    } else {
        match parameter_items(ssm_path, parameters, (n - 1) as nat) {
            Err(e) => Err(e),
            Ok(before) => match parameter_item(ssm_path, parameters[n - 1]) {
                Some(item) => Ok(before.push(item)),
                None => Err(parameter_fault(ssm_path, parameters[n - 1])->0),
            },
        }
    }
}

/// Once a parameter was found wanting, the list as a whole is.
proof fn lemma_parameter_items_failed(
    ssm_path: Seq<char>,
    parameters: Seq<Parameter>,
    n: nat,
    m: nat,
)
    requires
        n <= m,
        parameter_items(ssm_path, parameters, n) is Err,
    ensures
        parameter_items(ssm_path, parameters, m) == parameter_items(ssm_path, parameters, n),
    decreases m,
{
    if n < m {
        lemma_parameter_items_failed(ssm_path, parameters, n, (m - 1) as nat);
    }
}

/// The items that the stored parameters found for `ssm_path` give, in
/// their order.
#[verifier::loop_isolation(false)]
pub fn get_parameter_list(ssm_path: &str, parameters: &Vec<Parameter>) -> (r: Result<
    Vec<SsmParameterValue>,
    SourceError,
>)
    ensures
        match r {
            Ok(list) => parameter_items(ssm_path@, parameters@, parameters@.len()) == Ok::<
                Seq<(Seq<char>, Seq<char>)>,
                SourceError,
            >(parameter_views(list@)),
            Err(e) => parameter_items(ssm_path@, parameters@, parameters@.len()) == Err::<
                Seq<(Seq<char>, Seq<char>)>,
                SourceError,
            >(e),
        },
{
    let skip = ssm_path.unicode_len();
    let mut list: Vec<SsmParameterValue> = Vec::new();
    let mut i: usize = 0;
    assert(parameter_views(list@) == Seq::<(Seq<char>, Seq<char>)>::empty());
    while i < parameters.len()
        invariant
            i <= parameters.len(),
            parameter_items(ssm_path@, parameters@, i as nat) == Ok::<
                Seq<(Seq<char>, Seq<char>)>,
                SourceError,
            >(parameter_views(list@)),
        decreases parameters.len() - i,
    {
        let p = &parameters[i];
        let (name, value) = match (&p.name, &p.value) {
            (Some(name), Some(value)) => (name, value),
            _ => {
                proof {
                    lemma_parameter_items_failed(
                        ssm_path@,
                        parameters@,
                        (i + 1) as nat,
                        parameters@.len(),
                    );
                }
                return Err(SourceError::IncompleteParameter);
            },
        };
        let chars = to_chars(name.as_str());
        if skip > chars.len() {
            proof {
                lemma_parameter_items_failed(
                    ssm_path@,
                    parameters@,
                    (i + 1) as nat,
                    parameters@.len(),
                );
            }
            return Err(SourceError::NameOutsidePath);
        }
        let suffix = slice_chars(chars.as_slice(), skip, chars.len());
        assert(suffix@ == name@.skip(skip as int));
        let ghost before = list@;
        list.push(SsmParameterValue { name: from_chars(suffix.as_slice()), value: value.clone() });
        assert(parameter_views(list@) == parameter_views(before).push(
            (name@.skip(skip as int), value@),
        ));
        i += 1;
    }
    Ok(list)
}

/// An object of the object store that belongs to a volume.
#[derive(Debug)]
pub struct S3Object {
    pub bucket: String,
    pub key: String,
    /// The key without the prefix of the volume.
    pub path_suffix: String,
}

impl Writable for S3Object {
    open spec fn name_view(&self) -> Seq<char> {
        self.path_suffix@
    }

    open spec fn secret(&self) -> bool {
        false
    }

    fn name(&self) -> (r: String) {
        self.path_suffix.clone()
    }

    fn is_secret(&self) -> (r: bool) {
        false
    }
}

/// Whether a key names an object of the volume with the prefix
/// `key_prefix`: it starts with the prefix and does not end with a
/// separator, as the key of a folder does.
pub open spec fn is_volume_key(key: Seq<char>, key_prefix: Seq<char>) -> bool {
    is_prefix(key_prefix, key) && !(key.len() > 0 && key.last() == '/')
}

/// The objects of a volume among the first `n` keys that were listed:
/// for each key of the volume, in order, the key and what follows the
/// prefix in it.
pub open spec fn volume_keys(keys: Seq<Option<Seq<char>>>, key_prefix: Seq<char>, n: nat) -> Seq<
    (Seq<char>, Seq<char>),
>
    decreases n,
{
    if n == 0 {
        Seq::empty()
    } else {
        let before = volume_keys(keys, key_prefix, (n - 1) as nat);
        match keys[n - 1] {
            Some(key) => if is_volume_key(key, key_prefix) {
                before.push((key, key.skip(key_prefix.len() as int)))
            } else {
                before
            },
            None => before,
        }
    }
}

/// The keys of a listing as text.
pub open spec fn key_views(keys: Seq<Option<String>>) -> Seq<Option<Seq<char>>> {
    Seq::new(keys.len(), |i: int| crate::text::opt_view(keys[i]))
}

/// The keys and suffixes of a list of objects.
pub open spec fn object_views(list: Seq<S3Object>) -> Seq<(Seq<char>, Seq<char>)> {
    Seq::new(list.len(), |i: int| (list[i].key@, list[i].path_suffix@))
}

/// The objects of a volume among the keys that a listing of `bucket`
/// gave. Folders and keys outside the prefix are left out; an object
/// whose key is the prefix itself has the empty suffix and is written
/// to the destination itself.
#[verifier::loop_isolation(false)]
pub fn to_list(keys: &Vec<Option<String>>, bucket: &str, key_prefix: &str) -> (r: Vec<S3Object>)
    ensures
        object_views(r@) == volume_keys(key_views(keys@), key_prefix@, keys@.len()),
        forall|i: int| 0 <= i < r@.len() ==> (#[trigger] r@[i]).bucket@ == bucket@,
{
    let prefix = to_chars(key_prefix);
    let mut list: Vec<S3Object> = Vec::new();
    let mut i: usize = 0;
    while i < keys.len()
        invariant
            i <= keys.len(),
            object_views(list@) == volume_keys(key_views(keys@), key_prefix@, i as nat),
            forall|j: int| 0 <= j < list@.len() ==> (#[trigger] list@[j]).bucket@ == bucket@,
        decreases keys.len() - i,
    {
        assert(key_views(keys@)[i as int] == crate::text::opt_view(keys@[i as int]));
        match &keys[i] {
            Some(key) => {
                let chars = to_chars(key.as_str());
                let n = chars.len();
                let folder = n > 0 && chars[n - 1] == '/';
                if !folder && starts_with(chars.as_slice(), prefix.as_slice()) {
                    let suffix = slice_chars(chars.as_slice(), prefix.len(), n);
                    assert(suffix@ == key@.skip(key_prefix@.len() as int));
                    let object = S3Object {
                        bucket: from_chars(to_chars(bucket).as_slice()),
                        key: key.clone(),
                        path_suffix: from_chars(suffix.as_slice()),
                    };
                    let ghost before = list@;
                    list.push(object);
                    assert(object_views(list@) == object_views(before).push(
                        (key@, key@.skip(key_prefix@.len() as int)),
                    ));
                }
            },
            None => {},
        }
        i += 1;
    }
    list
}

/// Whether a listing has to go on: it does unless the store says that
/// it was not truncated.
pub fn listing_goes_on(is_truncated: Option<bool>) -> (r: bool)
    ensures
        r == !(is_truncated == Some(false)),
{
    match is_truncated {
        Some(false) => false,
        _ => true,
    }
}

/// A condition on the block volumes to describe.
#[derive(Debug, PartialEq, Eq)]
pub struct Filter {
    pub name: String,
    pub value: String,
}

/// What a filter says, as text.
pub open spec fn filter_view(f: Filter) -> (Seq<char>, Seq<char>) {
    (f.name@, f.value@)
}

/// The views of a list of filters.
pub open spec fn filter_views(list: Seq<Filter>) -> Seq<(Seq<char>, Seq<char>)> {
    Seq::new(list.len(), |i: int| filter_view(list[i]))
}

/// The filter for a tag: a tag with a value is matched by key and
/// value, one without by its key alone.
pub open spec fn tag_filter_spec(tag: AwsTag) -> (Seq<char>, Seq<char>) {
    match tag.value {
        Some(value) => (seq!['t', 'a', 'g', ':'] + tag.key@, value@),
        None => (seq!['t', 'a', 'g', '-', 'k', 'e', 'y'], tag.key@),
    }
}

/// The filters for the tags of an attachment, in their order.
pub open spec fn tag_filters_spec(tags: Seq<AwsTag>) -> Seq<(Seq<char>, Seq<char>)> {
    Seq::new(tags.len(), |i: int| tag_filter_spec(tags[i]))
}

/// Makes the filter for one tag.
pub fn tag_filter(tag: &AwsTag) -> (r: Filter)
    ensures
        filter_view(r) == tag_filter_spec(*tag),
{
    match &tag.value {
        Some(value) => {
            let mut name: Vec<char> = to_chars("tag:");
            proof {
                reveal_strlit("tag:");
            }
            assert(name@ == seq!['t', 'a', 'g', ':']);
            append_chars(&mut name, to_chars(tag.key.as_str()).as_slice());
            Filter { name: from_chars(name.as_slice()), value: value.clone() }
        },
        None => {
            let name: Vec<char> = to_chars("tag-key");
            proof {
                reveal_strlit("tag-key");
            }
            assert(name@ == seq!['t', 'a', 'g', '-', 'k', 'e', 'y']);
            Filter { name: from_chars(name.as_slice()), value: tag.key.clone() }
        },
    }
}

/// A filter with a fixed name.
fn named_filter(name: &str, value: &str) -> (r: Filter)
    ensures
        filter_view(r) == (name@, value@),
{
    Filter {
        name: from_chars(to_chars(name).as_slice()),
        value: from_chars(to_chars(value).as_slice()),
    }
}

/// Appends the filters for the tags of `attachment` to `filters`.
#[verifier::loop_isolation(false)]
fn push_tag_filters(filters: &mut Vec<Filter>, attachment: &EbsVolumeAttachment)
    ensures
        filter_views(final(filters)@) == filter_views(old(filters)@) + tag_filters_spec(
            attachment.tags@,
        ),
{
    let mut i: usize = 0;
    while i < attachment.tags.len()
        invariant
            i <= attachment.tags.len(),
            filter_views(filters@) == filter_views(old(filters)@) + tag_filters_spec(
                attachment.tags@,
            ).take(i as int),
        decreases attachment.tags.len() - i,
    {
        let f = tag_filter(&attachment.tags[i]);
        let ghost before = filters@;
        filters.push(f);
        assert(filter_views(filters@) == filter_views(before).push(filter_view(f)));
        assert(tag_filters_spec(attachment.tags@).take(i + 1) == tag_filters_spec(
            attachment.tags@,
        ).take(i as int).push(tag_filter_spec(attachment.tags@[i as int])));
        i += 1;
    }
    assert(tag_filters_spec(attachment.tags@).take(attachment.tags@.len() as int)
        == tag_filters_spec(attachment.tags@));
}

/// The filters that find the volume of `attachment` when it is attached
/// to the instance `instance_id` as `device`.
pub fn attached_filters(attachment: &EbsVolumeAttachment, device: &str, instance_id: &str) -> (r:
    Vec<Filter>)
    ensures
        filter_views(r@) == seq![
            ("attachment.instance-id"@, instance_id@),
            ("attachment.device"@, device@),
        ] + tag_filters_spec(attachment.tags@),
{
    let mut filters: Vec<Filter> = Vec::new();
    filters.push(named_filter("attachment.instance-id", instance_id));
    filters.push(named_filter("attachment.device", device));
    assert(filter_views(filters@) == seq![
        ("attachment.instance-id"@, instance_id@),
        ("attachment.device"@, device@),
    ]);
    push_tag_filters(&mut filters, attachment);
    filters
}

/// The filters that find the volume of `attachment` while it is
/// available in the zone `availability_zone`.
pub fn available_filters(attachment: &EbsVolumeAttachment, availability_zone: &str) -> (r: Vec<
    Filter,
>)
    ensures
        filter_views(r@) == seq![
            ("status"@, "available"@),
            ("availability-zone"@, availability_zone@),
        ] + tag_filters_spec(attachment.tags@),
{
    let mut filters: Vec<Filter> = Vec::new();
    filters.push(named_filter("status", "available"));
    filters.push(named_filter("availability-zone", availability_zone));
    assert(filter_views(filters@) == seq![
        ("status"@, "available"@),
        ("availability-zone"@, availability_zone@),
    ]);
    push_tag_filters(&mut filters, attachment);
    filters
}

/// Whether a description of volumes shows the volume attached: it does
/// when it lists any volume. `volumes` is the number of volumes listed,
/// `None` where the answer has no list.
pub fn ebs_volume_attached(volumes: Option<usize>) -> (r: bool)
    ensures
        r == (volumes is Some && volumes->0 > 0),
{
    match volumes {
        Some(n) => n > 0,
        None => false,
    }
}

/// The number of seconds to wait for a volume where the attachment
/// names none.
pub const DEFAULT_ATTACH_TIMEOUT: u64 = 300;

/// What to do after one look for an available volume.
#[derive(Debug, PartialEq, Eq)]
pub enum VolumeWait {
    /// The volume with this id is available: attach it.
    Attach(String),
    /// Wait a little, then look again.
    Retry,
    /// Give up.
    TimedOut,
}

/// Decides what follows one look for the volume of `attachment`.
/// `volume_id` is the id of the first volume that the look found, if it
/// found one; `elapsed_secs` is the time since the first look. A volume
/// that was found is attached; otherwise the wait goes on until the
/// timeout of the attachment has passed.
pub fn wait_for_ebs_volume(
    attachment: &EbsVolumeAttachment,
    volume_id: Option<String>,
    elapsed_secs: u64,
) -> (r: VolumeWait)
    ensures
        r == match volume_id {
            Some(id) => VolumeWait::Attach(id),
            None => if elapsed_secs > match attachment.timeout {
                Some(t) => t,
                None => DEFAULT_ATTACH_TIMEOUT,
            } {
                VolumeWait::TimedOut
            } else {
                VolumeWait::Retry
            },
        },
{
    match volume_id {
        Some(id) => VolumeWait::Attach(id),
        None => {
            let timeout = match attachment.timeout {
                Some(t) => t,
                None => DEFAULT_ATTACH_TIMEOUT,
            };
            if elapsed_secs > timeout {
                VolumeWait::TimedOut
            } else {
                VolumeWait::Retry
            }
        },
    }
}

/// What making sure that a volume is attached comes to next.
#[derive(Clone, Copy, Debug, PartialEq, Eq, Structural)]
pub enum EnsureStep {
    /// The volume is attached: nothing is left to do.
    Done,
    /// Wait for the volume to be available, then attach it.
    WaitThenAttach,
}

/// Decides what follows the look whether the volume is attached.
pub fn ensure_ebs_volume_attached(attached: bool) -> (r: EnsureStep)
    ensures
        r == if attached {
            EnsureStep::Done
        } else {
            EnsureStep::WaitThenAttach
        },
{
    if attached {
        EnsureStep::Done
    } else {
        EnsureStep::WaitThenAttach
    }
}

/// The path of an item of the instance metadata.
pub fn metadata_path(path: &str) -> (r: String)
    ensures
        r@ == "/latest/meta-data/"@ + path@,
{
    let mut out = to_chars("/latest/meta-data/");
    append_chars(&mut out, to_chars(path).as_slice());
    from_chars(out.as_slice())
}

/// How a request to the instance metadata ended.
#[derive(Debug)]
pub enum MetadataReply {
    /// The service answered with this text.
    Found(String),
    /// The service answered with this status and nothing else.
    Status(u16),
    /// The service did not answer.
    Failed,
}

/// Why the instance metadata gave nothing.
#[derive(Clone, Copy, Debug, PartialEq, Eq, Structural)]
pub enum MetadataError {
    /// The service answered with this status.
    Status(u16),
    /// The service did not answer.
    Unreachable,
}

/// What a request for something that may be absent gave: the text, or
/// nothing where the service does not know it (status 404). Any other
/// outcome is an error.
pub fn optional_metadata(reply: MetadataReply) -> (r: Result<Option<String>, MetadataError>)
    ensures
        r == match reply {
            MetadataReply::Found(text) => Ok::<Option<String>, MetadataError>(Some(text)),
            MetadataReply::Status(code) => if code == 404 {
                Ok(None)
            } else {
                Err(MetadataError::Status(code))
            },
            MetadataReply::Failed => Err(MetadataError::Unreachable),
        },
{
    match reply {
        MetadataReply::Found(text) => Ok(Some(text)),
        MetadataReply::Status(code) => if code == 404 {
            Ok(None)
        } else {
            Err(MetadataError::Status(code))
        },
        MetadataReply::Failed => Err(MetadataError::Unreachable),
    }
}

/// Decides what follows one request to the instance metadata service
/// while waiting for it to answer: a failure is retried until `timeout`
/// has passed since the first request.
pub fn wait_for(answered: bool, elapsed_ms: u64, timeout_ms: u64) -> (r: Wait)
    ensures
        r == if answered {
            Wait::Done
        } else if elapsed_ms >= timeout_ms {
            Wait::TimedOut
        } else {
            Wait::Retry
        },
{
    if answered {
        Wait::Done
    } else if elapsed_ms >= timeout_ms {
        Wait::TimedOut
    } else {
        Wait::Retry
    }
}

} // verus!
