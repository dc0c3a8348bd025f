//! Decoding of one output line, or of one stored payload, into a record.
//!
//! A line is a JSON object whose `type` member names the kind of record; the
//! figures of each kind sit in a nested object named after it. Unknown members
//! are ignored.
use vstd::prelude::*;

use crate::json::{get_member, json_of_text, member, parse_json, Json, Real};
use crate::types::{
    BandwidthDetails, DownloadRecord, LatencyLoadedRecord, PingDetails, PingRecord, Record,
    RecordKind, ResultDetails, ResultRecord, ServerDetails, StartRecord, Timestamp, UploadRecord,
};

verus! {

/// The members that the decoder reads.
#[derive(Clone, Copy, Debug, PartialEq, Eq, Structural)]
pub enum Field {
    Kind,
    Timestamp,
    Server,
    Id,
    Host,
    Name,
    Location,
    Country,
    Ping,
    Download,
    Upload,
    Jitter,
    Latency,
    Progress,
    Low,
    High,
    Bandwidth,
    Bytes,
    Elapsed,
    Iqm,
    PacketLoss,
    Result,
    Url,
    Sequence,
}

pub open spec fn field_key(f: Field) -> Seq<char> {
    match f {
        Field::Kind => "type"@,
        Field::Timestamp => "timestamp"@,
        Field::Server => "server"@,
        Field::Id => "id"@,
        Field::Host => "host"@,
        Field::Name => "name"@,
        Field::Location => "location"@,
        Field::Country => "country"@,
        Field::Ping => "ping"@,
        Field::Download => "download"@,
        Field::Upload => "upload"@,
        Field::Jitter => "jitter"@,
        Field::Latency => "latency"@,
        Field::Progress => "progress"@,
        Field::Low => "low"@,
        Field::High => "high"@,
        Field::Bandwidth => "bandwidth"@,
        Field::Bytes => "bytes"@,
        Field::Elapsed => "elapsed"@,
        Field::Iqm => "iqm"@,
        Field::PacketLoss => "packetLoss"@,
        Field::Result => "result"@,
        Field::Url => "url"@,
        Field::Sequence => "sequence"@,
    }
}

/// Length, first and last letter of each member's name, which tell the names
/// apart.
spec fn key_signature(f: Field) -> (int, char, char) {
    match f {
        Field::Kind => (4, 't', 'e'),
        Field::Timestamp => (9, 't', 'p'),
        Field::Server => (6, 's', 'r'),
        Field::Id => (2, 'i', 'd'),
        Field::Host => (4, 'h', 't'),
        Field::Name => (4, 'n', 'e'),
        Field::Location => (8, 'l', 'n'),
        Field::Country => (7, 'c', 'y'),
        Field::Ping => (4, 'p', 'g'),
        Field::Download => (8, 'd', 'd'),
        Field::Upload => (6, 'u', 'd'),
        Field::Jitter => (6, 'j', 'r'),
        Field::Latency => (7, 'l', 'y'),
        Field::Progress => (8, 'p', 's'),
        Field::Low => (3, 'l', 'w'),
        Field::High => (4, 'h', 'h'),
        Field::Bandwidth => (9, 'b', 'h'),
        Field::Bytes => (5, 'b', 's'),
        Field::Elapsed => (7, 'e', 'd'),
        Field::Iqm => (3, 'i', 'm'),
        Field::PacketLoss => (10, 'p', 's'),
        Field::Result => (6, 'r', 't'),
        Field::Url => (3, 'u', 'l'),
        Field::Sequence => (8, 's', 'e'),
    }
}

proof fn lemma_key_signature(f: Field)
    ensures
        field_key(f).len() == key_signature(f).0,
        field_key(f)[0] == key_signature(f).1,
        field_key(f)[field_key(f).len() - 1] == key_signature(f).2,
{
    match f {
        Field::Kind => reveal_strlit("type"),
        Field::Timestamp => reveal_strlit("timestamp"),
        Field::Server => reveal_strlit("server"),
        Field::Id => reveal_strlit("id"),
        Field::Host => reveal_strlit("host"),
        Field::Name => reveal_strlit("name"),
        Field::Location => reveal_strlit("location"),
        Field::Country => reveal_strlit("country"),
        Field::Ping => reveal_strlit("ping"),
        Field::Download => reveal_strlit("download"),
        Field::Upload => reveal_strlit("upload"),
        Field::Jitter => reveal_strlit("jitter"),
        Field::Latency => reveal_strlit("latency"),
        Field::Progress => reveal_strlit("progress"),
        Field::Low => reveal_strlit("low"),
        Field::High => reveal_strlit("high"),
        Field::Bandwidth => reveal_strlit("bandwidth"),
        Field::Bytes => reveal_strlit("bytes"),
        Field::Elapsed => reveal_strlit("elapsed"),
        Field::Iqm => reveal_strlit("iqm"),
        Field::PacketLoss => reveal_strlit("packetLoss"),
        Field::Result => reveal_strlit("result"),
        Field::Url => reveal_strlit("url"),
        Field::Sequence => reveal_strlit("sequence"),
    }
}

/// Distinct members have distinct names.
pub proof fn lemma_field_keys_distinct(f: Field, g: Field)
    requires
        f != g,
    ensures
        field_key(f) != field_key(g),
{
    lemma_key_signature(f);
    lemma_key_signature(g);
    assert(key_signature(f) != key_signature(g));
}

impl Field {
    /// The member's name in JSON.
    pub fn key(&self) -> (r: &'static str)
        ensures
            r@ == field_key(*self),
    {
        match self {
            Field::Kind => "type",
            Field::Timestamp => "timestamp",
            Field::Server => "server",
            Field::Id => "id",
            Field::Host => "host",
            Field::Name => "name",
            Field::Location => "location",
            Field::Country => "country",
            Field::Ping => "ping",
            Field::Download => "download",
            Field::Upload => "upload",
            Field::Jitter => "jitter",
            Field::Latency => "latency",
            Field::Progress => "progress",
            Field::Low => "low",
            Field::High => "high",
            Field::Bandwidth => "bandwidth",
            Field::Bytes => "bytes",
            Field::Elapsed => "elapsed",
            Field::Iqm => "iqm",
            Field::PacketLoss => "packetLoss",
            Field::Result => "result",
            Field::Url => "url",
            Field::Sequence => "sequence",
        }
    }
}

#[derive(Clone, Copy, Debug, PartialEq, Eq, Structural)]
pub enum ParseError {
    /// The line is not well-formed JSON.
    Syntax,
    /// `type` is missing, not a string, or names no known record.
    UnknownKind,
    /// A required member is absent.
    MissingField(Field),
    /// A member is there but of the wrong type.
    InvalidValue(Field),
}

// ---------------------------------------------------------------------------
// What the decoder returns, member by member.

pub open spec fn real_at(o: Json, f: Field) -> Result<Real, ParseError> {
    match member(o, field_key(f)) {
        None => Err(ParseError::MissingField(f)),
        Some(Json::Number(n)) => match n.real {
            Some(r) => Ok(r),
            None => Err(ParseError::InvalidValue(f)),
        },
        Some(_) => Err(ParseError::InvalidValue(f)),
    }
}

pub open spec fn opt_real_at(o: Json, f: Field) -> Result<Option<Real>, ParseError> {
    match member(o, field_key(f)) {
        None => Ok(None),
        Some(Json::Number(n)) => match n.real {
            Some(r) => Ok(Some(r)),
            None => Err(ParseError::InvalidValue(f)),
        },
        Some(_) => Err(ParseError::InvalidValue(f)),
    }
}

pub open spec fn uint_at(o: Json, f: Field) -> Result<u64, ParseError> {
    match member(o, field_key(f)) {
        None => Err(ParseError::MissingField(f)),
        Some(Json::Number(n)) => match n.uint {
            Some(u) => Ok(u),
            None => Err(ParseError::InvalidValue(f)),
        },
        Some(_) => Err(ParseError::InvalidValue(f)),
    }
}

pub open spec fn opt_uint_at(o: Json, f: Field) -> Result<Option<u64>, ParseError> {
    match member(o, field_key(f)) {
        None => Ok(None),
        Some(Json::Number(n)) => match n.uint {
            Some(u) => Ok(Some(u)),
            None => Err(ParseError::InvalidValue(f)),
        },
        Some(_) => Err(ParseError::InvalidValue(f)),
    }
}

pub open spec fn text_at(o: Json, f: Field) -> Result<String, ParseError> {
    match member(o, field_key(f)) {
        None => Err(ParseError::MissingField(f)),
        Some(Json::Str(s)) => Ok(s),
        Some(_) => Err(ParseError::InvalidValue(f)),
    }
}

pub open spec fn object_at(o: Json, f: Field) -> Result<Json, ParseError> {
    match member(o, field_key(f)) {
        None => Err(ParseError::MissingField(f)),
        Some(v) => if v is Object {
            Ok(v)
        } else {
            Err(ParseError::InvalidValue(f))
        },
    }
}

/// The instant that chrono reads from a timestamp text, as seconds since the
/// Unix epoch and nanoseconds past them.
pub uninterp spec fn utc_instant(text: Seq<char>) -> Option<(i64, u32)>;

pub open spec fn timestamp_at(o: Json) -> Result<Timestamp, ParseError> {
    match text_at(o, Field::Timestamp) {
        Err(e) => Err(e),
        Ok(text) => match utc_instant(text@) {
            None => Err(ParseError::InvalidValue(Field::Timestamp)),
            Some(i) => Ok(Timestamp { text, seconds: i.0, nanos: i.1 }),
        },
    }
}

/// The record kind that the `type` member names.
pub open spec fn kind_named(j: Json) -> Option<RecordKind> {
    match member(j, field_key(Field::Kind)) {
        Some(Json::Str(s)) => if s@ == "testStart"@ {
            Some(RecordKind::Start)
        } else if s@ == "ping"@ {
            Some(RecordKind::Ping)
        } else if s@ == "download"@ {
            Some(RecordKind::Download)
        } else if s@ == "upload"@ {
            Some(RecordKind::Upload)
        } else if s@ == "result"@ {
            Some(RecordKind::Result)
        } else {
            None
        },
        _ => None,
    }
}

pub open spec fn server_of(o: Json) -> Result<ServerDetails, ParseError> {
    match (
        uint_at(o, Field::Id),
        text_at(o, Field::Host),
        text_at(o, Field::Name),
        text_at(o, Field::Location),
        text_at(o, Field::Country),
    ) {
        (Err(e), _, _, _, _) => Err(e),
        (Ok(_), Err(e), _, _, _) => Err(e),
        (Ok(_), Ok(_), Err(e), _, _) => Err(e),
        (Ok(_), Ok(_), Ok(_), Err(e), _) => Err(e),
        (Ok(_), Ok(_), Ok(_), Ok(_), Err(e)) => Err(e),
        (Ok(id), Ok(host), Ok(name), Ok(location), Ok(country)) => Ok(
            ServerDetails { id, host, name, location, country },
        ),
    }
}

/// `progress` of a streaming record: required on a live line, optional in a
/// stored payload (where it has been cleared).
pub open spec fn progress_at(o: Json, stored: bool) -> Result<Option<Real>, ParseError> {
    if stored {
        opt_real_at(o, Field::Progress)
    } else {
        match real_at(o, Field::Progress) {
            Err(e) => Err(e),
            Ok(p) => Ok(Some(p)),
        }
    }
}

/// `sequence` of a streaming record: read from a stored payload only.
pub open spec fn sequence_at(o: Json, stored: bool) -> Result<Option<u64>, ParseError> {
    if stored {
        opt_uint_at(o, Field::Sequence)
    } else {
        Ok(None)
    }
}

/// Ping figures of a streaming record.
pub open spec fn ping_details_of(o: Json, stored: bool) -> Result<PingDetails, ParseError> {
    match (real_at(o, Field::Jitter), real_at(o, Field::Latency), progress_at(o, stored)) {
        (Err(e), _, _) => Err(e),
        (Ok(_), Err(e), _) => Err(e),
        (Ok(_), Ok(_), Err(e)) => Err(e),
        (Ok(jitter), Ok(latency), Ok(progress)) => Ok(
            PingDetails { jitter, latency, progress, low: None, high: None },
        ),
    }
}

/// Ping figures of the summary.
pub open spec fn ping_summary_of(o: Json) -> Result<PingDetails, ParseError> {
    match (
        real_at(o, Field::Jitter),
        real_at(o, Field::Latency),
        real_at(o, Field::Low),
        real_at(o, Field::High),
    ) {
        (Err(e), _, _, _) => Err(e),
        (Ok(_), Err(e), _, _) => Err(e),
        (Ok(_), Ok(_), Err(e), _) => Err(e),
        (Ok(_), Ok(_), Ok(_), Err(e)) => Err(e),
        (Ok(jitter), Ok(latency), Ok(low), Ok(high)) => Ok(
            PingDetails { jitter, latency, progress: None, low: Some(low), high: Some(high) },
        ),
    }
}

/// The optional `latency.iqm` of a streaming transfer record.
pub open spec fn streaming_latency_of(o: Json) -> Result<Option<LatencyLoadedRecord>, ParseError> {
    match member(o, field_key(Field::Latency)) {
        None => Ok(None),
        Some(l) => if l is Object {
            match opt_real_at(l, Field::Iqm) {
                Err(e) => Err(e),
                Ok(None) => Ok(None),
                Ok(Some(iqm)) => Ok(
                    Some(LatencyLoadedRecord { iqm, low: None, high: None, jitter: None }),
                ),
            }
        } else {
            Err(ParseError::InvalidValue(Field::Latency))
        },
    }
}

/// The full `latency` object of the summary's transfer figures.
pub open spec fn summary_latency_of(l: Json) -> Result<LatencyLoadedRecord, ParseError> {
    match (
        real_at(l, Field::Iqm),
        real_at(l, Field::Low),
        real_at(l, Field::High),
        real_at(l, Field::Jitter),
    ) {
        (Err(e), _, _, _) => Err(e),
        (Ok(_), Err(e), _, _) => Err(e),
        (Ok(_), Ok(_), Err(e), _) => Err(e),
        (Ok(_), Ok(_), Ok(_), Err(e)) => Err(e),
        (Ok(iqm), Ok(low), Ok(high), Ok(jitter)) => Ok(
            LatencyLoadedRecord { iqm, low: Some(low), high: Some(high), jitter: Some(jitter) },
        ),
    }
}

/// Transfer figures; `summary` selects the summary's shape.
pub open spec fn bandwidth_of(o: Json, summary: bool, stored: bool) -> Result<
    BandwidthDetails,
    ParseError,
> {
    match (uint_at(o, Field::Bandwidth), uint_at(o, Field::Bytes), uint_at(o, Field::Elapsed)) {
        (Err(e), _, _) => Err(e),
        (Ok(_), Err(e), _) => Err(e),
        (Ok(_), Ok(_), Err(e)) => Err(e),
        (Ok(bandwidth), Ok(bytes), Ok(elapsed)) => if summary {
            match object_at(o, Field::Latency) {
                Err(e) => Err(e),
                Ok(l) => match summary_latency_of(l) {
                    Err(e) => Err(e),
                    Ok(latency) => Ok(
                        BandwidthDetails {
                            bandwidth,
                            bytes,
                            elapsed,
                            progress: None,
                            latency: Some(latency),
                        },
                    ),
                },
            }
        } else {
            match (progress_at(o, stored), streaming_latency_of(o)) {
                (Err(e), _) => Err(e),
                (Ok(_), Err(e)) => Err(e),
                (Ok(progress), Ok(latency)) => Ok(
                    BandwidthDetails { bandwidth, bytes, elapsed, progress, latency },
                ),
            }
        },
    }
}

pub open spec fn start_of(j: Json, timestamp: Timestamp) -> Result<Record, ParseError> {
    match object_at(j, Field::Server) {
        Err(e) => Err(e),
        Ok(o) => match server_of(o) {
            Err(e) => Err(e),
            Ok(server) => Ok(Record::Start(StartRecord { timestamp, server })),
        },
    }
}

pub open spec fn ping_of(j: Json, timestamp: Timestamp, stored: bool) -> Result<Record, ParseError> {
    match object_at(j, Field::Ping) {
        Err(e) => Err(e),
        Ok(o) => match (ping_details_of(o, stored), sequence_at(j, stored)) {
            (Err(e), _) => Err(e),
            (Ok(_), Err(e)) => Err(e),
            (Ok(ping), Ok(sequence)) => Ok(Record::Ping(PingRecord { timestamp, ping, sequence })),
        },
    }
}

pub open spec fn download_of(j: Json, timestamp: Timestamp, stored: bool) -> Result<
    Record,
    ParseError,
> {
    match object_at(j, Field::Download) {
        Err(e) => Err(e),
        Ok(o) => match (bandwidth_of(o, false, stored), sequence_at(j, stored)) {
            (Err(e), _) => Err(e),
            (Ok(_), Err(e)) => Err(e),
            (Ok(download), Ok(sequence)) => Ok(
                Record::Download(DownloadRecord { timestamp, download, sequence }),
            ),
        },
    }
}

pub open spec fn upload_of(j: Json, timestamp: Timestamp, stored: bool) -> Result<
    Record,
    ParseError,
> {
    match object_at(j, Field::Upload) {
        Err(e) => Err(e),
        Ok(o) => match (bandwidth_of(o, false, stored), sequence_at(j, stored)) {
            (Err(e), _) => Err(e),
            (Ok(_), Err(e)) => Err(e),
            (Ok(upload), Ok(sequence)) => Ok(
                Record::Upload(UploadRecord { timestamp, upload, sequence }),
            ),
        },
    }
}

pub open spec fn result_details_of(o: Json) -> Result<ResultDetails, ParseError> {
    match (text_at(o, Field::Id), text_at(o, Field::Url)) {
        (Err(e), _) => Err(e),
        (Ok(_), Err(e)) => Err(e),
        (Ok(id), Ok(url)) => Ok(ResultDetails { id, url }),
    }
}

pub open spec fn summary_of(j: Json, timestamp: Timestamp) -> Result<Record, ParseError> {
    let ping = match object_at(j, Field::Ping) {
        Err(e) => Err(e),
        Ok(o) => ping_summary_of(o),
    };
    let download = match object_at(j, Field::Download) {
        Err(e) => Err(e),
        Ok(o) => bandwidth_of(o, true, false),
    };
    let upload = match object_at(j, Field::Upload) {
        Err(e) => Err(e),
        Ok(o) => bandwidth_of(o, true, false),
    };
    let details = match object_at(j, Field::Result) {
        Err(e) => Err(e),
        Ok(o) => result_details_of(o),
    };
    match (ping, download, upload, real_at(j, Field::PacketLoss), details) {
        (Err(e), _, _, _, _) => Err(e),
        (Ok(_), Err(e), _, _, _) => Err(e),
        (Ok(_), Ok(_), Err(e), _, _) => Err(e),
        (Ok(_), Ok(_), Ok(_), Err(e), _) => Err(e),
        (Ok(_), Ok(_), Ok(_), Ok(_), Err(e)) => Err(e),
        (Ok(ping), Ok(download), Ok(upload), Ok(packet_loss), Ok(details)) => Ok(
            Record::Result(ResultRecord { timestamp, ping, download, upload, packet_loss, details }),
        ),
    }
}

/// The record of kind `k` that object `j` describes. `stored` reads a stored
/// payload: `progress` may be absent there and `sequence` is read.
pub open spec fn record_body_of(j: Json, k: RecordKind, stored: bool) -> Result<Record, ParseError> {
    match timestamp_at(j) {
        Err(e) => Err(e),
        Ok(t) => match k {
            RecordKind::Start => start_of(j, t),
            RecordKind::Ping => ping_of(j, t, stored),
            RecordKind::Download => download_of(j, t, stored),
            RecordKind::Upload => upload_of(j, t, stored),
            RecordKind::Result => summary_of(j, t),
        },
    }
}

/// What reading one output line gives: a syntax error when serde_json
/// refuses the text, else the record that the document describes.
pub open spec fn parse_result(line: Seq<char>) -> Result<Record, ParseError> {
    match json_of_text(line) {
        None => Err(ParseError::Syntax),
        Some(j) => record_of(j),
    }
}

/// The record that a decoded output line describes.
pub open spec fn record_of(j: Json) -> Result<Record, ParseError> {
    match kind_named(j) {
        None => Err(ParseError::UnknownKind),
        Some(k) => record_body_of(j, k, false),
    }
}

// ---------------------------------------------------------------------------
// The decoder.

/// Relies on chrono's `FromStr` for `DateTime<Utc>`, which reads RFC 3339
/// text; the instant is handed on as seconds and nanoseconds.
#[verifier::external_body]
fn parse_instant(text: &str) -> (r: Option<(i64, u32)>)
    ensures
        r == utc_instant(text@),
{
    text.parse::<chrono::DateTime<chrono::Utc>>().ok().map(|t| (t.timestamp(), t.timestamp_subsec_nanos()))
}

fn read_real(o: &Json, f: Field) -> (r: Result<Real, ParseError>)
    ensures
        r == real_at(*o, f),
{
    match get_member(o, f.key()) {
        None => Err(ParseError::MissingField(f)),
        Some(Json::Number(n)) => match n.real {
            Some(x) => Ok(x),
            None => Err(ParseError::InvalidValue(f)),
        },
        Some(_) => Err(ParseError::InvalidValue(f)),
    }
}

fn read_opt_real(o: &Json, f: Field) -> (r: Result<Option<Real>, ParseError>)
    ensures
        r == opt_real_at(*o, f),
{
    match get_member(o, f.key()) {
        None => Ok(None),
        Some(Json::Number(n)) => match n.real {
            Some(x) => Ok(Some(x)),
            None => Err(ParseError::InvalidValue(f)),
        },
        Some(_) => Err(ParseError::InvalidValue(f)),
    }
}

fn read_uint(o: &Json, f: Field) -> (r: Result<u64, ParseError>)
    ensures
        r == uint_at(*o, f),
{
    match get_member(o, f.key()) {
        None => Err(ParseError::MissingField(f)),
        Some(Json::Number(n)) => match n.uint {
            Some(u) => Ok(u),
            None => Err(ParseError::InvalidValue(f)),
        },
        Some(_) => Err(ParseError::InvalidValue(f)),
    }
}

fn read_opt_uint(o: &Json, f: Field) -> (r: Result<Option<u64>, ParseError>)
    ensures
        r == opt_uint_at(*o, f),
{
    match get_member(o, f.key()) {
        None => Ok(None),
        Some(Json::Number(n)) => match n.uint {
            Some(u) => Ok(Some(u)),
            None => Err(ParseError::InvalidValue(f)),
        },
        Some(_) => Err(ParseError::InvalidValue(f)),
    }
}

fn read_text(o: &Json, f: Field) -> (r: Result<String, ParseError>)
    ensures
        r == text_at(*o, f),
{
    match get_member(o, f.key()) {
        None => Err(ParseError::MissingField(f)),
        Some(Json::Str(s)) => Ok(s.clone()),
        Some(_) => Err(ParseError::InvalidValue(f)),
    }
}

fn read_object<'a>(o: &'a Json, f: Field) -> (r: Result<&'a Json, ParseError>)
    ensures
        match r {
            Ok(v) => object_at(*o, f) == Ok::<Json, ParseError>(*v),
            Err(e) => object_at(*o, f) == Err::<Json, ParseError>(e),
        },
{
    match get_member(o, f.key()) {
        None => Err(ParseError::MissingField(f)),
        Some(v) => match v {
            Json::Object(_) => Ok(v),
            _ => Err(ParseError::InvalidValue(f)),
        },
    }
}

fn read_timestamp(o: &Json) -> (r: Result<Timestamp, ParseError>)
    ensures
        r == timestamp_at(*o),
{
    let text = read_text(o, Field::Timestamp)?;
    match parse_instant(text.as_str()) {
        None => Err(ParseError::InvalidValue(Field::Timestamp)),
        Some(i) => Ok(Timestamp { text, seconds: i.0, nanos: i.1 }),
    }
}

fn read_kind(j: &Json) -> (r: Option<RecordKind>)
    ensures
        r == kind_named(*j),
{
    match get_member(j, Field::Kind.key()) {
        Some(Json::Str(s)) => {
            if *s == String::from_str("testStart") {
                Some(RecordKind::Start)
            } else if *s == String::from_str("ping") {
                Some(RecordKind::Ping)
            } else if *s == String::from_str("download") {
                Some(RecordKind::Download)
            } else if *s == String::from_str("upload") {
                Some(RecordKind::Upload)
            } else if *s == String::from_str("result") {
                Some(RecordKind::Result)
            } else {
                None
            }
        },
        _ => None,
    }
}

fn read_server(o: &Json) -> (r: Result<ServerDetails, ParseError>)
    ensures
        r == server_of(*o),
{
    let id = read_uint(o, Field::Id);
    let host = read_text(o, Field::Host);
    let name = read_text(o, Field::Name);
    let location = read_text(o, Field::Location);
    let country = read_text(o, Field::Country);
    Ok(ServerDetails { id: id?, host: host?, name: name?, location: location?, country: country? })
}

fn read_progress(o: &Json, stored: bool) -> (r: Result<Option<Real>, ParseError>)
    ensures
        r == progress_at(*o, stored),
{
    if stored {
        read_opt_real(o, Field::Progress)
    } else {
        Ok(Some(read_real(o, Field::Progress)?))
    }
}

fn read_sequence(o: &Json, stored: bool) -> (r: Result<Option<u64>, ParseError>)
    ensures
        r == sequence_at(*o, stored),
{
    if stored {
        read_opt_uint(o, Field::Sequence)
    } else {
        Ok(None)
    }
}

fn read_ping_details(o: &Json, stored: bool) -> (r: Result<PingDetails, ParseError>)
    ensures
        r == ping_details_of(*o, stored),
{
    let jitter = read_real(o, Field::Jitter);
    let latency = read_real(o, Field::Latency);
    let progress = read_progress(o, stored);
    Ok(PingDetails { jitter: jitter?, latency: latency?, progress: progress?, low: None, high: None })
}

fn read_ping_summary(o: &Json) -> (r: Result<PingDetails, ParseError>)
    ensures
        r == ping_summary_of(*o),
{
    let jitter = read_real(o, Field::Jitter);
    let latency = read_real(o, Field::Latency);
    let low = read_real(o, Field::Low);
    let high = read_real(o, Field::High);
    Ok(
        PingDetails {
            jitter: jitter?,
            latency: latency?,
            progress: None,
            low: Some(low?),
            high: Some(high?),
        },
    )
}

fn read_streaming_latency(o: &Json) -> (r: Result<Option<LatencyLoadedRecord>, ParseError>)
    ensures
        r == streaming_latency_of(*o),
{
    match get_member(o, Field::Latency.key()) {
        None => Ok(None),
        Some(l) => match l {
            Json::Object(_) => match read_opt_real(l, Field::Iqm)? {
                None => Ok(None),
                Some(iqm) => Ok(Some(LatencyLoadedRecord { iqm, low: None, high: None, jitter: None })),
            },
            _ => Err(ParseError::InvalidValue(Field::Latency)),
        },
    }
}

fn read_summary_latency(l: &Json) -> (r: Result<LatencyLoadedRecord, ParseError>)
    ensures
        r == summary_latency_of(*l),
{
    let iqm = read_real(l, Field::Iqm);
    let low = read_real(l, Field::Low);
    let high = read_real(l, Field::High);
    let jitter = read_real(l, Field::Jitter);
    Ok(LatencyLoadedRecord { iqm: iqm?, low: Some(low?), high: Some(high?), jitter: Some(jitter?) })
}

fn read_bandwidth(o: &Json, summary: bool, stored: bool) -> (r: Result<BandwidthDetails, ParseError>)
    ensures
        r == bandwidth_of(*o, summary, stored),
{
    let bandwidth = read_uint(o, Field::Bandwidth);
    let bytes = read_uint(o, Field::Bytes);
    let elapsed = read_uint(o, Field::Elapsed);
    let bandwidth = bandwidth?;
    let bytes = bytes?;
    let elapsed = elapsed?;
    if summary {
        let l = read_object(o, Field::Latency)?;
        let latency = read_summary_latency(l)?;
        Ok(BandwidthDetails { bandwidth, bytes, elapsed, progress: None, latency: Some(latency) })
    } else {
        let progress = read_progress(o, stored);
        let latency = read_streaming_latency(o);
        Ok(BandwidthDetails { bandwidth, bytes, elapsed, progress: progress?, latency: latency? })
    }
}

fn read_result_details(o: &Json) -> (r: Result<ResultDetails, ParseError>)
    ensures
        r == result_details_of(*o),
{
    let id = read_text(o, Field::Id);
    let url = read_text(o, Field::Url);
    Ok(ResultDetails { id: id?, url: url? })
}

fn read_summary(j: &Json, timestamp: Timestamp) -> (r: Result<Record, ParseError>)
    ensures
        r == summary_of(*j, timestamp),
{
    let ping = match read_object(j, Field::Ping) {
        Err(e) => Err(e),
        Ok(o) => read_ping_summary(o),
    };
    let download = match read_object(j, Field::Download) {
        Err(e) => Err(e),
        Ok(o) => read_bandwidth(o, true, false),
    };
    let upload = match read_object(j, Field::Upload) {
        Err(e) => Err(e),
        Ok(o) => read_bandwidth(o, true, false),
    };
    let details = match read_object(j, Field::Result) {
        Err(e) => Err(e),
        Ok(o) => read_result_details(o),
    };
    let packet_loss = read_real(j, Field::PacketLoss);
    Ok(
        Record::Result(
            ResultRecord {
                timestamp,
                ping: ping?,
                download: download?,
                upload: upload?,
                packet_loss: packet_loss?,
                details: details?,
            },
        ),
    )
}

fn read_body(j: &Json, k: RecordKind, stored: bool) -> (r: Result<Record, ParseError>)
    ensures
        r == record_body_of(*j, k, stored),
{
    let timestamp = read_timestamp(j)?;
    match k {
        RecordKind::Start => {
            let o = read_object(j, Field::Server)?;
            let server = read_server(o)?;
            Ok(Record::Start(StartRecord { timestamp, server }))
        },
        RecordKind::Ping => {
            let o = read_object(j, Field::Ping)?;
            let ping = read_ping_details(o, stored);
            let sequence = read_sequence(j, stored);
            Ok(Record::Ping(PingRecord { timestamp, ping: ping?, sequence: sequence? }))
        },
        RecordKind::Download => {
            let o = read_object(j, Field::Download)?;
            let download = read_bandwidth(o, false, stored);
            let sequence = read_sequence(j, stored);
            Ok(Record::Download(DownloadRecord { timestamp, download: download?, sequence: sequence? }))
        },
        RecordKind::Upload => {
            let o = read_object(j, Field::Upload)?;
            let upload = read_bandwidth(o, false, stored);
            let sequence = read_sequence(j, stored);
            Ok(Record::Upload(UploadRecord { timestamp, upload: upload?, sequence: sequence? }))
        },
        RecordKind::Result => read_summary(j, timestamp),
    }
}

impl Record {
    /// Decodes a JSON object read from one output line.
    pub fn decode(j: &Json) -> (r: Result<Record, ParseError>)
        ensures
            r == record_of(*j),
    {
        match read_kind(j) {
            None => Err(ParseError::UnknownKind),
            Some(k) => read_body(j, k, false),
        }
    }

    /// Decodes a stored payload of a record of kind `kind`.
    pub fn decode_payload(kind: RecordKind, j: &Json) -> (r: Result<Record, ParseError>)
        ensures
            r == record_body_of(*j, kind, true),
    {
        read_body(j, kind, true)
    }

    /// Reads one output line of the measurement tool. Text that is not JSON
    /// is a `Syntax` error; a JSON document decodes as `decode` says.
    pub fn parse(line: &str) -> (r: Result<Record, ParseError>)
        ensures
            r == parse_result(line@),
    {
        match parse_json(line) {
            None => Err(ParseError::Syntax),
            Some(j) => Record::decode(&j),
        }
    }
}

} // verus!
