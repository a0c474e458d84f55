//! Session records and the lines of the session log.

use crate::clock::{stamp_text, utc_text, DATE_FORMAT};
use crate::error::Error;
use crate::json::{decode, json_document, json_integer, json_member, json_text, member};
use crate::text::{is_white_space, trimmed, white_space_trims_to_nothing};
use vstd::prelude::*;
use vstd::string::*;

verus! {

/// One logged interaction.
#[derive(Debug, Clone, PartialEq, Eq)]
pub struct SessionRecord {
    /// Command or message content.
    pub display: String,
    /// Milliseconds since the Unix epoch.
    pub timestamp: i64,
    /// Path of the project the interaction belongs to.
    pub project: String,
    /// Identifier of the session.
    pub session_id: String,
}

/// What a record holds, as plain values.
pub struct SessionRecordView {
    pub display: Seq<char>,
    pub timestamp: i64,
    pub project: Seq<char>,
    pub session_id: Seq<char>,
}

impl View for SessionRecord {
    type V = SessionRecordView;

    open spec fn view(&self) -> SessionRecordView {
        SessionRecordView {
            display: self.display@,
            timestamp: self.timestamp,
            project: self.project@,
            session_id: self.session_id@,
        }
    }
}

impl SessionRecordView {
    /// A record is valid when its session identifier is not empty and its
    /// timestamp is positive.
    pub open spec fn is_valid(self) -> bool {
        self.session_id.len() > 0 && self.timestamp > 0
    }
}

/// The line that shows a record: the date, the project, the content and, in
/// brackets, the session identifier.
pub open spec fn record_line(date: Seq<char>, record: SessionRecordView) -> Seq<char> {
    date + " "@ + record.project + " > "@ + record.display + "  ["@ + record.session_id + "]"@
}

impl SessionRecord {
    /// Makes a record of the four values, unchecked.
    #[inline]
    pub fn new(display: String, timestamp: i64, project: String, session_id: String) -> (r: Self)
        ensures
            r.display == display,
            r.timestamp == timestamp,
            r.project == project,
            r.session_id == session_id,
    {
        Self { display, timestamp, project, session_id }
    }

    /// Checks the record: an empty session identifier is reported first,
    /// then a timestamp that is not positive.
    pub fn validate(&self) -> (r: Result<(), Error>)
        ensures
            self.session_id@.len() == 0 ==> (r matches Err(Error::InvalidSessionId(detail))
                && detail@ == "session_id cannot be empty"@),
            self.session_id@.len() > 0 && self.timestamp <= 0 ==> r == Err::<(), Error>(
                Error::InvalidTimestamp(self.timestamp),
            ),
            self@.is_valid() <==> r is Ok,
    {
        if self.session_id.as_str().is_empty() {
            return Err(Error::InvalidSessionId(String::from_str("session_id cannot be empty")));
        }
        if self.timestamp <= 0 {
            return Err(Error::InvalidTimestamp(self.timestamp));
        }
        Ok(())
    }

    /// The record as one line of text, dated by its timestamp in UTC. A
    /// timestamp that no calendar date stands for is shown as the current
    /// time.
    pub fn to_string(&self) -> (r: String)
        ensures
            match utc_text(self.timestamp, DATE_FORMAT@) {
                Some(date) => r@ == record_line(date, self@),
                None => exists|date: Seq<char>| r@ == record_line(date, self@),
            },
    {
        let mut line = stamp_text(self.timestamp);
        let ghost date = line@;
        line.append(" ");
        line.append(self.project.as_str());
        line.append(" > ");
        line.append(self.display.as_str());
        line.append("  [");
        line.append(self.session_id.as_str());
        line.append("]");
        assert(line@ == record_line(date, self@));
        line
    }
}

/// The four values of a record as they were read from a line, before any
/// check.
#[derive(Debug, Clone, PartialEq, Eq)]
pub struct RawSessionRecord {
    pub display: String,
    pub timestamp: i64,
    pub project: String,
    pub session_id: String,
}

impl View for RawSessionRecord {
    type V = SessionRecordView;

    open spec fn view(&self) -> SessionRecordView {
        SessionRecordView {
            display: self.display@,
            timestamp: self.timestamp,
            project: self.project@,
            session_id: self.session_id@,
        }
    }
}

/// The text of the member `key` of `doc`, where it is a string.
pub open spec fn text_member(doc: serde_json::Value, key: Seq<char>) -> Option<Seq<char>> {
    match json_member(doc, key) {
        Some(value) => json_text(value),
        None => None,
    }
}

/// The number of the member `key` of `doc`, where it is an integer.
pub open spec fn integer_member(doc: serde_json::Value, key: Seq<char>) -> Option<i64> {
    match json_member(doc, key) {
        Some(value) => json_integer(value),
        None => None,
    }
}

/// The session identifier of `doc`: the string under `session_id` or under
/// its older name `sessionId`, where exactly one of the two is present.
pub open spec fn session_id_member(doc: serde_json::Value) -> Option<Seq<char>> {
    match (json_member(doc, "session_id"@), json_member(doc, "sessionId"@)) {
        (Some(value), None) => json_text(value),
        (None, Some(value)) => json_text(value),
        _ => None,
    }
}

/// The name of the first field that cannot be read from `doc`, in the order
/// display, timestamp, project, session identifier.
pub open spec fn first_fault(doc: serde_json::Value) -> Option<Seq<char>> {
    if text_member(doc, "display"@) is None {
        Some("display"@)
    } else if integer_member(doc, "timestamp"@) is None {
        Some("timestamp"@)
    } else if text_member(doc, "project"@) is None {
        Some("project"@)
    } else if session_id_member(doc) is None {
        Some("session_id"@)
    } else {
        None
    }
}

/// The four fields of `doc`, where all of them can be read.
pub open spec fn raw_fields(doc: serde_json::Value) -> SessionRecordView {
    SessionRecordView {
        display: text_member(doc, "display"@).unwrap(),
        timestamp: integer_member(doc, "timestamp"@).unwrap(),
        project: text_member(doc, "project"@).unwrap(),
        session_id: session_id_member(doc).unwrap(),
    }
}

/// What one line of the log amounts to.
pub enum LineOutcome {
    /// Nothing but white space.
    Blank,
    /// Not JSON.
    Undecodable,
    /// JSON in which the named field is missing or of the wrong kind.
    Fault(Seq<char>),
    /// All fields read, the session identifier empty.
    EmptySessionId,
    /// All fields read, the timestamp not positive.
    BadTimestamp(i64),
    /// A valid record.
    Record(SessionRecordView),
}

/// The outcome of checking the four values of a line.
pub open spec fn checked(raw: SessionRecordView) -> LineOutcome {
    if raw.session_id.len() == 0 {
        LineOutcome::EmptySessionId
    } else if raw.timestamp <= 0 {
        LineOutcome::BadTimestamp(raw.timestamp)
    } else {
        LineOutcome::Record(raw)
    }
}

/// The outcome of reading `line`: it is trimmed, decoded as JSON, its four
/// fields are read and then checked.
pub open spec fn line_outcome(line: Seq<char>) -> LineOutcome {
    let text = trimmed(line);
    if text.len() == 0 {
        LineOutcome::Blank
    } else {
        match json_document(text) {
            None => LineOutcome::Undecodable,
            Some(doc) => match first_fault(doc) {
                Some(name) => LineOutcome::Fault(name),
                None => checked(raw_fields(doc)),
            },
        }
    }
}

/// Whether `r` is the answer that `outcome` calls for: no record for a
/// blank line, the record for a valid one, and otherwise the error of that
/// kind. The detail of a JSON error is serde_json's own message where the
/// text is not JSON at all.
pub open spec fn answers(r: Result<Option<SessionRecord>, Error>, outcome: LineOutcome) -> bool {
    match outcome {
        LineOutcome::Blank => r == Ok::<Option<SessionRecord>, Error>(None),
        LineOutcome::Undecodable => r matches Err(Error::JsonParse(_)),
        LineOutcome::Fault(name) => r matches Err(Error::JsonParse(detail)) && detail@
            == "missing or invalid field: "@ + name,
        LineOutcome::EmptySessionId => r matches Err(Error::InvalidSessionId(detail)) && detail@
            == "session_id cannot be empty"@,
        LineOutcome::BadTimestamp(millis) => r == Err::<Option<SessionRecord>, Error>(
            Error::InvalidTimestamp(millis),
        ),
        LineOutcome::Record(record) => r matches Ok(Some(found)) && found@ == record,
    }
}

fn field_fault(name: &str) -> (r: Error)
    ensures
        r matches Error::JsonParse(detail) && detail@ == "missing or invalid field: "@ + name@,
{
    Error::JsonParse(String::from_str("missing or invalid field: ").concat(name))
}

fn read_text(doc: &serde_json::Value, key: &str) -> (r: Option<String>)
    ensures
        match r {
            Some(text) => text_member(*doc, key@) == Some(text@),
            None => text_member(*doc, key@) is None,
        },
{
    match member(doc, key) {
        Some(value) => match value.as_str() {
            Some(text) => Some(String::from_str(text)),
            None => None,
        },
        None => None,
    }
}

fn read_integer(doc: &serde_json::Value, key: &str) -> (r: Option<i64>)
    ensures
        r == integer_member(*doc, key@),
{
    match member(doc, key) {
        Some(value) => value.as_i64(),
        None => None,
    }
}

fn read_session_id(doc: &serde_json::Value) -> (r: Option<String>)
    ensures
        match r {
            Some(text) => session_id_member(*doc) == Some(text@),
            None => session_id_member(*doc) is None,
        },
{
    let found = match (member(doc, "session_id"), member(doc, "sessionId")) {
        (Some(value), None) => value.as_str(),
        (None, Some(value)) => value.as_str(),
        _ => None,
    };
    match found {
        Some(text) => Some(String::from_str(text)),
        None => None,
    }
}

/// Reads the four fields of a record from a decoded line. The session
/// identifier is accepted under `session_id` or `sessionId`, not under both;
/// members under other names are ignored.
pub fn decode_record(doc: &serde_json::Value) -> (r: Result<RawSessionRecord, Error>)
    ensures
        match first_fault(*doc) {
            Some(name) => r matches Err(Error::JsonParse(detail)) && detail@
                == "missing or invalid field: "@ + name,
            None => r matches Ok(raw) && raw@ == raw_fields(*doc),
        },
{
    let display = match read_text(doc, "display") {
        Some(text) => text,
        None => { return Err(field_fault("display")); },
    };
    let timestamp = match read_integer(doc, "timestamp") {
        Some(millis) => millis,
        None => { return Err(field_fault("timestamp")); },
    };
    let project = match read_text(doc, "project") {
        Some(text) => text,
        None => { return Err(field_fault("project")); },
    };
    let session_id = match read_session_id(doc) {
        Some(text) => text,
        None => { return Err(field_fault("session_id")); },
    };
    Ok(RawSessionRecord { display, timestamp, project, session_id })
}

impl SessionRecord {
    /// Makes a record of four values read from a line, if they pass
    /// `validate`.
    pub fn from_raw(raw: RawSessionRecord) -> (r: Result<SessionRecord, Error>)
        ensures
            answers(
                match r {
                    Ok(record) => Ok(Some(record)),
                    Err(fault) => Err(fault),
                },
                checked(raw@),
            ),
    {
        let record = SessionRecord::new(raw.display, raw.timestamp, raw.project, raw.session_id);
        match record.validate() {
            Ok(()) => Ok(record),
            Err(fault) => Err(fault),
        }
    }
}

/// Reads one line of the log. A blank line gives no record and no error; a
/// line that is not JSON, lacks a field or fails validation gives the error.
pub fn parse_line(line: &str) -> (r: Result<Option<SessionRecord>, Error>)
    ensures
        answers(r, line_outcome(line@)),
{
    let text = line.trim();
    if text.is_empty() {
        return Ok(None);
    }
    let doc = match decode(text) {
        Ok(doc) => doc,
        Err(detail) => { return Err(Error::JsonParse(detail)); },
    };
    let raw = match decode_record(&doc) {
        Ok(raw) => raw,
        Err(fault) => { return Err(fault); },
    };
    match SessionRecord::from_raw(raw) {
        Ok(record) => Ok(Some(record)),
        Err(fault) => Err(fault),
    }
}

/// The record that `line` holds, if it holds a valid one.
pub open spec fn accepted(line: Seq<char>) -> Option<SessionRecordView> {
    match line_outcome(line) {
        LineOutcome::Record(record) => Some(record),
        _ => None,
    }
}

/// The records of a log: those of its lines that hold a valid record, in
/// the order of the lines.
pub open spec fn accepted_records(lines: Seq<Seq<char>>) -> Seq<SessionRecordView> {
    lines.filter_map(|line: Seq<char>| accepted(line))
}

/// The plain values of each record of a list.
pub open spec fn record_views(records: Seq<SessionRecord>) -> Seq<SessionRecordView> {
    records.map_values(|record: SessionRecord| record@)
}

/// The text of each line of a list.
pub open spec fn line_views(lines: Seq<String>) -> Seq<Seq<char>> {
    lines.map_values(|line: String| line@)
}

/// Reads the lines of a history file, oldest first. Blank lines and lines
/// that fail to decode or to validate are skipped; the rest come back in
/// the order of the file.
pub fn parse_history_file(lines: &Vec<String>) -> (r: Vec<SessionRecord>)
    ensures
        record_views(r@) == accepted_records(line_views(lines@)),
{
    let mut records: Vec<SessionRecord> = Vec::new();
    let mut i: usize = 0;
    while i < lines.len()
        invariant
            i <= lines.len(),
            record_views(records@) == accepted_records(line_views(lines@).take(i as int)),
        decreases lines.len() - i,
    {
        let ghost seen = line_views(lines@).take(i as int);
        let ghost before = records@;
        proof {
            assert(line_views(lines@).take(i + 1) == seen.push(lines[i as int]@));
            assert(seen.push(lines[i as int]@).drop_last() == seen);
        }
        match parse_line(lines[i].as_str()) {
            Ok(Some(record)) => {
                records.push(record);
                assert(record_views(records@) == record_views(before).push(record@));
            },
            Ok(None) => {},
            Err(_) => {},
        }
        i += 1;
    }
    assert(line_views(lines@).take(lines.len() as int) == line_views(lines@));
    records
}

/// The newest records first: `records` reversed and cut to `limit` where
/// one is given.
pub fn newest_first(records: Vec<SessionRecord>, limit: Option<usize>) -> (r: Vec<SessionRecord>)
    ensures
        r@ == records@.reverse().take(
            match limit {
                Some(n) if n < records.len() => n as int,
                _ => records.len() as int,
            },
        ),
{
    let mut rest = records;
    let mut newest: Vec<SessionRecord> = Vec::new();
    let wanted = match limit {
        Some(n) if n < rest.len() => n,
        _ => rest.len(),
    };
    while newest.len() < wanted
        invariant
            wanted <= records.len(),
            newest.len() <= wanted,
            rest.len() + newest.len() == records.len(),
            rest@ == records@.take(rest.len() as int),
            newest@ == records@.reverse().take(newest.len() as int),
        decreases wanted - newest.len(),
    {
        let ghost before = newest@;
        match rest.pop() {
            Some(record) => {
                newest.push(record);
                assert(newest@ == records@.reverse().take(newest.len() as int));
            },
            None => {},
        }
    }
    newest
}

/// A well-formed line gives back its four fields exactly: where the
/// trimmed line decodes to a document from which display, timestamp, project
/// and session identifier can be read, the identifier is not empty and the
/// timestamp is positive, the line holds the record of these four values,
/// and every answer that agrees with the line is that record.
pub proof fn well_formed_line_round_trips(
    line: Seq<char>,
    doc: serde_json::Value,
    display: Seq<char>,
    timestamp: i64,
    project: Seq<char>,
    session_id: Seq<char>,
)
    requires
        trimmed(line).len() > 0,
        json_document(trimmed(line)) == Some(doc),
        text_member(doc, "display"@) == Some(display),
        integer_member(doc, "timestamp"@) == Some(timestamp),
        text_member(doc, "project"@) == Some(project),
        session_id_member(doc) == Some(session_id),
        session_id.len() > 0,
        timestamp > 0,
    ensures
        line_outcome(line) == LineOutcome::Record(
            SessionRecordView { display, timestamp, project, session_id },
        ),
        forall|r: Result<Option<SessionRecord>, Error>| #[trigger]
            answers(r, line_outcome(line)) ==> (r matches Ok(Some(record)) && record.display@
                == display && record.timestamp == timestamp && record.project@ == project
                && record.session_id@ == session_id),
{
}

/// A line whose session identifier is empty or whose timestamp is not
/// positive is answered with an error, holds no record, and leaves the
/// records of a log as they are without it.
pub proof fn invalid_line_is_refused_and_skipped(
    lines: Seq<Seq<char>>,
    line: Seq<char>,
    doc: serde_json::Value,
)
    requires
        trimmed(line).len() > 0,
        json_document(trimmed(line)) == Some(doc),
        first_fault(doc) is None,
        raw_fields(doc).session_id.len() == 0 || raw_fields(doc).timestamp <= 0,
    ensures
        forall|r: Result<Option<SessionRecord>, Error>| #[trigger]
            answers(r, line_outcome(line)) ==> r is Err,
        accepted(line) is None,
        accepted_records(lines.push(line)) == accepted_records(lines),
{
    line_without_record_is_skipped(lines, line);
}

/// A line that holds no valid record leaves the records of a log as they
/// are without it; a line that holds one adds it at the end.
pub proof fn line_without_record_is_skipped(lines: Seq<Seq<char>>, line: Seq<char>)
    ensures
        accepted(line) is None ==> accepted_records(lines.push(line)) == accepted_records(lines),
        accepted(line) matches Some(record) ==> accepted_records(lines.push(line))
            == accepted_records(lines).push(record),
{
    assert(lines.push(line).drop_last() == lines);
}

/// A line of white space only is blank: it holds no record, and the one
/// answer that agrees with it is no record and no error. The empty line and
/// a line of spaces are such lines.
pub proof fn blank_line_holds_no_record(line: Seq<char>)
    requires
        forall|i: int| 0 <= i < line.len() ==> is_white_space(#[trigger] line[i]),
    ensures
        line_outcome(line) == LineOutcome::Blank,
        accepted(line) is None,
        forall|r: Result<Option<SessionRecord>, Error>| #[trigger]
            answers(r, line_outcome(line)) ==> r == Ok::<Option<SessionRecord>, Error>(None),
{
    white_space_trims_to_nothing(line);
}

} // verus!
