//! The watch for the notice that the cloud ends a spot instance.

use vstd::prelude::*;
use crate::aws::MetadataReply;
use crate::text::{from_chars, to_chars};

verus! {

/// The seconds between two looks for a notice.
pub const POLL_INTERVAL_SECS: u64 = 5;

/// The path of the notice in the instance metadata.
pub fn spot_instance_action_path() -> (r: &'static str)
    ensures
        r@ == "spot/instance-action"@,
{
    "spot/instance-action"
}

/// What the cloud is about to do to the instance, and when.
#[derive(Debug, PartialEq, Eq)]
pub struct SpotAction {
    pub action: String,
    pub time: String,
}

/// Why a look for a notice failed.
#[derive(Clone, Copy, Debug, PartialEq, Eq, Structural)]
pub enum SpotError {
    /// The notice is not a JSON document.
    InvalidNotice,
    /// The metadata service answered with this status.
    Status(u16),
    /// The metadata service did not answer.
    Unreachable,
}

/// What `serde_json` makes of the member `key` of the JSON document
/// `text`: `None` where the text is no JSON document, `Some(None)`
/// where the document has no string under the key, and otherwise the
/// string.
pub uninterp spec fn json_string_member(text: Seq<char>, key: Seq<char>) -> Option<Option<Seq<char>>>;

/// The text of a string that may be missing twice over.
pub open spec fn member_view(m: Option<Option<String>>) -> Option<Option<Seq<char>>> {
    match m {
        Some(Some(s)) => Some(Some(s@)),
        Some(None) => Some(None),
        None => None,
    }
}

/// Parses `text` with `serde_json::from_str` into a `serde_json::Value`
/// and reads the string under `key` with `Value::as_str`.
#[verifier::external_body]
fn json_member(text: &str, key: &str) -> (r: Option<Option<String>>)
    ensures
        member_view(r) == json_string_member(text@, key@),
{
    let parsed: Result<serde_json::Value, serde_json::Error> = serde_json::from_str(text);
    parsed.ok().map(|v| v[key].as_str().map(String::from))
}

/// The word that stands for a member that the notice lacks.
pub open spec fn unknown() -> Seq<char> {
    "unknown"@
}

/// What a notice says under a key, as read from the document.
pub open spec fn member_or_unknown(member: Option<Seq<char>>) -> Seq<char> {
    match member {
        Some(s) => s,
        None => unknown(),
    }
}

fn or_unknown(member: Option<String>) -> (r: String)
    ensures
        r@ == member_or_unknown(crate::text::opt_view(member)),
{
    match member {
        Some(s) => s,
        None => from_chars(to_chars("unknown").as_slice()),
    }
}

/// Makes the notice of what was read from its document: a member that
/// is missing reads `unknown`.
pub fn spot_action(action: Option<String>, time: Option<String>) -> (r: SpotAction)
    ensures
        r.action@ == member_or_unknown(crate::text::opt_view(action)),
        r.time@ == member_or_unknown(crate::text::opt_view(time)),
{
    SpotAction { action: or_unknown(action), time: or_unknown(time) }
}

/// Reads the answer of the metadata service to a look for a notice. An
/// answer with a document is a notice; the status 404 says that there
/// is none; anything else is an error.
pub fn check_spot_termination(reply: &MetadataReply) -> (r: Result<Option<SpotAction>, SpotError>)
    ensures
        match *reply {
            MetadataReply::Found(text) => match (
                json_string_member(text@, "action"@),
                json_string_member(text@, "time"@),
            ) {
                (Some(action), Some(time)) => r is Ok && r->Ok_0 is Some && r->Ok_0->0.action@
                    == member_or_unknown(action) && r->Ok_0->0.time@ == member_or_unknown(time),
                _ => r == Err::<Option<SpotAction>, SpotError>(SpotError::InvalidNotice),
            },
            MetadataReply::Status(code) => if code == 404 {
                r == Ok::<Option<SpotAction>, SpotError>(None)
            } else {
                r == Err::<Option<SpotAction>, SpotError>(SpotError::Status(code))
            },
            MetadataReply::Failed => r == Err::<Option<SpotAction>, SpotError>(
                SpotError::Unreachable,
            ),
        },
{
    match reply {
        MetadataReply::Found(text) => {
            let action = json_member(text.as_str(), "action");
            let time = json_member(text.as_str(), "time");
            match (action, time) {
                (Some(action), Some(time)) => Ok(Some(spot_action(action, time))),
                _ => Err(SpotError::InvalidNotice),
            }
        },
        MetadataReply::Status(code) => if *code == 404 {
            Ok(None)
        } else {
            Err(SpotError::Status(*code))
        },
        MetadataReply::Failed => Err(SpotError::Unreachable),
    }
}

/// What the watch does after one look.
#[derive(Clone, Copy, Debug, PartialEq, Eq, Structural)]
pub enum MonitorStep {
    /// A notice came: shut the machine down and end the watch.
    Shutdown,
    /// Look again after the poll interval.
    PollAgain,
}

/// Decides what follows one look for a notice: any notice starts the
/// shutdown at once; no notice and a failed look are both followed by
/// the next look.
pub fn monitor_loop(outcome: &Result<Option<SpotAction>, SpotError>) -> (r: MonitorStep)
    ensures
        r == match *outcome {
            Ok(Some(_)) => MonitorStep::Shutdown,
            _ => MonitorStep::PollAgain,
        },
{
    match outcome {
        Ok(Some(_)) => MonitorStep::Shutdown,
        _ => MonitorStep::PollAgain,
    }
}

} // verus!
