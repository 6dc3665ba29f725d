//! The event emitter: fills in the ancillary context of an activity event and
//! composes the record that goes to the persistence boundary.

use vstd::prelude::*;
use vstd::string::StringExecFns;
use crate::errors::ErrorKind;
use crate::event::Event;

verus! {

/// What the branch probe handed back: whether the command succeeded, and what
/// it printed.
#[derive(Clone, Debug, PartialEq, Eq)]
pub struct ProbeOutput {
    pub success: bool,
    pub stdout: String,
}

/// One fully populated record, as the persistence boundary takes it.
#[derive(Clone, Debug, PartialEq, Eq)]
pub struct EventRecord {
    pub file: String,
    pub activity: String,
    pub branch_name: String,
    pub language: String,
    pub project: String,
    pub editor: String,
    pub metadata: String,
    pub timestamp: String,
    pub duration: i64,
}

/// Whether `c` has the Unicode property White_Space.
pub open spec fn is_white_space(c: char) -> bool {
    let code = c as u32;
    ||| 0x09 <= code <= 0x0D
    ||| code == 0x20
    ||| code == 0x85
    ||| code == 0xA0
    ||| code == 0x1680
    ||| 0x2000 <= code <= 0x200A
    ||| code == 0x2028
    ||| code == 0x2029
    ||| code == 0x202F
    ||| code == 0x205F
    ||| code == 0x3000
}

/// `text` without its leading and trailing white space.
pub open spec fn trimmed(text: Seq<char>) -> Seq<char>
    decreases text.len(),
{
    if text.len() == 0 {
        text
    } else if is_white_space(text.first()) {
        trimmed(text.drop_first())
    } else if is_white_space(text.last()) {
        trimmed(text.drop_last())
    } else {
        text
    }
}

/// `str::trim` of std, which vstd leaves unspecified: the slice it returns is
/// the argument with leading and trailing characters of the Unicode property
/// White_Space removed, as its documentation says.
pub assume_specification[ str::trim ](text: &str) -> (inner: &str)
    ensures
        inner@ == trimmed(text@),
;

/// The RFC 3339 text of the UTC instant `secs` seconds and `nanos` nanoseconds
/// after the Unix epoch; `None` where the calendar cannot hold that instant.
pub uninterp spec fn rfc3339_text(secs: i64, nanos: u32) -> Option<Seq<char>>;

/// Calls `chrono::DateTime::<Utc>::from_timestamp` and, on the instant it
/// gives, `DateTime::to_rfc3339`. Believed, not proved: the text is a function
/// of the two numbers alone, and there is none exactly where `from_timestamp`
/// refuses them.
#[verifier::external_body]
fn format_rfc3339(secs: i64, nanos: u32) -> (text: Option<String>)
    ensures
        match text {
            Some(t) => rfc3339_text(secs, nanos) == Some(t@),
            None => rfc3339_text(secs, nanos) is None,
        },
{
    match chrono::DateTime::from_timestamp(secs, nanos) {
        Some(instant) => Some(instant.to_rfc3339()),
        None => None,
    }
}

/// The branch name that a probe outcome stands for.
pub open spec fn branch_of(probe: Option<&ProbeOutput>) -> Seq<char> {
    match probe {
        Some(output) => if output.success {
            trimmed(output.stdout@)
        } else {
            "Unknown"@
        },
        None => "Unknown"@,
    }
}

/// The metadata text of a record: the event's own, or `"None"`.
pub open spec fn metadata_of(metadata: Option<&str>) -> Seq<char> {
    match metadata {
        Some(text) => text@,
        None => "None"@,
    }
}

/// The duration of a record: the event's own, or zero.
pub open spec fn duration_of(duration: Option<i64>) -> i64 {
    match duration {
        Some(seconds) => seconds,
        None => 0,
    }
}

/// Whether `record` is the record of `event` with the given branch name and
/// timestamp text.
pub open spec fn is_record_of(
    record: EventRecord,
    event: Event,
    branch_name: Seq<char>,
    timestamp: Seq<char>,
) -> bool {
    &&& record.file@ == event.file@
    &&& record.activity@ == event.activity@
    &&& record.branch_name@ == branch_name
    &&& record.language@ == event.language@
    &&& record.project@ == event.project@
    &&& record.editor@ == event.editor@
    &&& record.metadata@ == metadata_of(event.metadata)
    &&& record.timestamp@ == timestamp
    &&& record.duration == duration_of(event.duration)
}

/// The current branch name from the outcome of the probe: what a successful
/// probe printed, trimmed; `"Unknown"` where the probe could not run (`None`)
/// or reported failure.
pub fn get_git_branch(probe: Option<&ProbeOutput>) -> (branch: String)
    ensures
        branch@ == branch_of(probe),
{
    match probe {
        Some(output) => {
            if output.success {
                String::from_str(output.stdout.as_str().trim())
            } else {
                String::from_str("Unknown")
            }
        },
        None => String::from_str("Unknown"),
    }
}

/// Composes the record of `event` from its resolved branch name and its
/// formatted timestamp. Absent metadata becomes `"None"`, an absent duration
/// zero.
pub fn compose_record(event: &Event, branch_name: String, timestamp: String) -> (record:
    EventRecord)
    ensures
        is_record_of(record, *event, branch_name@, timestamp@),
{
    let metadata = match event.metadata {
        Some(text) => String::from_str(text),
        None => String::from_str("None"),
    };
    let duration: i64 = match event.duration {
        Some(seconds) => seconds,
        None => 0,
    };
    EventRecord {
        file: String::from_str(event.file),
        activity: String::from_str(event.activity),
        branch_name,
        language: String::from_str(event.language),
        project: String::from_str(event.project),
        editor: String::from_str(event.editor),
        metadata,
        timestamp,
        duration,
    }
}

/// Builds the record to persist for `event`, observed at the UTC instant
/// `secs` seconds and `nanos` nanoseconds after the Unix epoch, with the
/// branch name taken from `probe`.
///
/// Fails with a validation failure exactly where the instant has no RFC 3339
/// text. Writing the record is the caller's part; a rejected write is a
/// persistence failure for the caller to report.
pub fn log_event(event: &Event, probe: Option<&ProbeOutput>, secs: i64, nanos: u32) -> (outcome:
    Result<EventRecord, ErrorKind>)
    ensures
        match outcome {
            Ok(record) => rfc3339_text(secs, nanos) matches Some(timestamp) && is_record_of(
                record,
                *event,
                branch_of(probe),
                timestamp,
            ),
            Err(kind) => kind == ErrorKind::ValidationFailure && rfc3339_text(secs, nanos) is None,
        },
{
    let branch_name = get_git_branch(probe);
    match format_rfc3339(secs, nanos) {
        Some(timestamp) => Ok(compose_record(event, branch_name, timestamp)),
        None => Err(ErrorKind::ValidationFailure),
    }
}

} // verus!
