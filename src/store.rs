//! The stored image of an assembled run: one measurement row, holding the
//! start time and the server's description, and one payload per record,
//! tagged with the record's kind.
//!
//! A payload is a JSON object with the members that decoding reads; optional
//! figures that are absent are left out.
use vstd::prelude::*;

use crate::aggregate::Streaming;
use crate::decode::{field_key, lemma_field_keys_distinct, record_body_of, utc_instant, Field};
use crate::json::{entry_get, lemma_entry_get_push, member, Json, Num, Real};
use crate::types::{
    kind_of,
    BandwidthDetails, DownloadRecord, LatencyLoadedRecord, PingDetails, PingRecord, Record,
    RecordKind, Records, ResultDetails, ResultRecord, ServerDetails, StartRecord, Timestamp,
    UploadRecord,
};

verus! {

pub open spec fn real_json(r: Real) -> Json {
    Json::Number(Num { uint: None, real: Some(r) })
}

pub open spec fn uint_json(n: u64) -> Json {
    Json::Number(Num { uint: Some(n), real: None })
}

/// Member `f` of `j` is `v`.
pub open spec fn has(j: Json, f: Field, v: Json) -> bool {
    member(j, field_key(f)) == Some(v)
}

/// `j` has no member `f`.
pub open spec fn lacks(j: Json, f: Field) -> bool {
    member(j, field_key(f)) is None
}

pub open spec fn has_opt_real(j: Json, f: Field, o: Option<Real>) -> bool {
    match o {
        Some(r) => has(j, f, real_json(r)),
        None => lacks(j, f),
    }
}

pub open spec fn has_opt_uint(j: Json, f: Field, o: Option<u64>) -> bool {
    match o {
        Some(n) => has(j, f, uint_json(n)),
        None => lacks(j, f),
    }
}

pub open spec fn count<T>(o: Option<T>) -> int {
    if o is Some {
        1
    } else {
        0
    }
}

/// Number of members of an object; -1 for any other value.
pub open spec fn size(j: Json) -> int {
    match j {
        Json::Object(entries) => entries@.len() as int,
        _ => -1,
    }
}

pub open spec fn server_payload(j: Json, s: ServerDetails) -> bool {
    &&& size(j) == 5
    &&& has(j, Field::Id, uint_json(s.id))
    &&& has(j, Field::Host, Json::Str(s.host))
    &&& has(j, Field::Name, Json::Str(s.name))
    &&& has(j, Field::Location, Json::Str(s.location))
    &&& has(j, Field::Country, Json::Str(s.country))
}

pub open spec fn ping_details_payload(j: Json, d: PingDetails) -> bool {
    &&& size(j) == 2 + count(d.progress) + count(d.low) + count(d.high)
    &&& has(j, Field::Jitter, real_json(d.jitter))
    &&& has(j, Field::Latency, real_json(d.latency))
    &&& has_opt_real(j, Field::Progress, d.progress)
    &&& has_opt_real(j, Field::Low, d.low)
    &&& has_opt_real(j, Field::High, d.high)
}

pub open spec fn latency_payload(j: Json, l: LatencyLoadedRecord) -> bool {
    &&& size(j) == 1 + count(l.low) + count(l.high) + count(l.jitter)
    &&& has(j, Field::Iqm, real_json(l.iqm))
    &&& has_opt_real(j, Field::Low, l.low)
    &&& has_opt_real(j, Field::High, l.high)
    &&& has_opt_real(j, Field::Jitter, l.jitter)
}

pub open spec fn bandwidth_payload(j: Json, b: BandwidthDetails) -> bool {
    &&& size(j) == 3 + count(b.progress) + count(b.latency)
    &&& has(j, Field::Bandwidth, uint_json(b.bandwidth))
    &&& has(j, Field::Bytes, uint_json(b.bytes))
    &&& has(j, Field::Elapsed, uint_json(b.elapsed))
    &&& has_opt_real(j, Field::Progress, b.progress)
    &&& match b.latency {
        None => lacks(j, Field::Latency),
        Some(l) => match member(j, field_key(Field::Latency)) {
            Some(lj) => latency_payload(lj, l),
            None => false,
        },
    }
}

/// Member `f` of `j` is an object that satisfies `p`.
pub open spec fn nested(j: Json, f: Field, p: spec_fn(Json) -> bool) -> bool {
    match member(j, field_key(f)) {
        Some(v) => p(v),
        None => false,
    }
}

pub open spec fn start_payload(j: Json, x: StartRecord) -> bool {
    &&& size(j) == 2
    &&& has(j, Field::Timestamp, Json::Str(x.timestamp.text))
    &&& nested(j, Field::Server, |v: Json| server_payload(v, x.server))
}

pub open spec fn ping_payload(j: Json, x: PingRecord) -> bool {
    &&& size(j) == 2 + count(x.sequence)
    &&& has(j, Field::Timestamp, Json::Str(x.timestamp.text))
    &&& nested(j, Field::Ping, |v: Json| ping_details_payload(v, x.ping))
    &&& has_opt_uint(j, Field::Sequence, x.sequence)
}

pub open spec fn download_payload(j: Json, x: DownloadRecord) -> bool {
    &&& size(j) == 2 + count(x.sequence)
    &&& has(j, Field::Timestamp, Json::Str(x.timestamp.text))
    &&& nested(j, Field::Download, |v: Json| bandwidth_payload(v, x.download))
    &&& has_opt_uint(j, Field::Sequence, x.sequence)
}

pub open spec fn upload_payload(j: Json, x: UploadRecord) -> bool {
    &&& size(j) == 2 + count(x.sequence)
    &&& has(j, Field::Timestamp, Json::Str(x.timestamp.text))
    &&& nested(j, Field::Upload, |v: Json| bandwidth_payload(v, x.upload))
    &&& has_opt_uint(j, Field::Sequence, x.sequence)
}

pub open spec fn result_details_payload(j: Json, d: ResultDetails) -> bool {
    &&& size(j) == 2
    &&& has(j, Field::Id, Json::Str(d.id))
    &&& has(j, Field::Url, Json::Str(d.url))
}

pub open spec fn result_payload(j: Json, x: ResultRecord) -> bool {
    &&& size(j) == 6
    &&& has(j, Field::Timestamp, Json::Str(x.timestamp.text))
    &&& nested(j, Field::Ping, |v: Json| ping_details_payload(v, x.ping))
    &&& nested(j, Field::Download, |v: Json| bandwidth_payload(v, x.download))
    &&& nested(j, Field::Upload, |v: Json| bandwidth_payload(v, x.upload))
    &&& has(j, Field::PacketLoss, real_json(x.packet_loss))
    &&& nested(j, Field::Result, |v: Json| result_details_payload(v, x.details))
}

/// `j` is the stored payload of `r`.
pub open spec fn record_payload(j: Json, r: Record) -> bool {
    match r {
        Record::Start(x) => start_payload(j, x),
        Record::Ping(x) => ping_payload(j, x),
        Record::Download(x) => download_payload(j, x),
        Record::Upload(x) => upload_payload(j, x),
        Record::Result(x) => result_payload(j, x),
    }
}

// ---------------------------------------------------------------------------
// Building payloads.

/// Adds member `f: v` to an object's members, which lack `f` so far.
fn put(entries: &mut Vec<(String, Json)>, f: Field, v: Json)
    requires
        entry_get(old(entries)@, field_key(f)) is None,
    ensures
        final(entries)@.len() == old(entries)@.len() + 1,
        entry_get(final(entries)@, field_key(f)) == Some(v),
        forall|g: Field|
            g != f ==> entry_get(final(entries)@, #[trigger] field_key(g)) == entry_get(
                old(entries)@,
                field_key(g),
            ),
{
    let ghost before = entries@;
    entries.push((String::from_str(f.key()), v));
    proof {
        lemma_entry_get_push(before, entries@.last(), field_key(f));
        assert(entries@ == before.push(entries@.last()));
        assert forall|g: Field| g != f implies entry_get(entries@, #[trigger] field_key(g))
            == entry_get(before, field_key(g)) by {
            lemma_field_keys_distinct(f, g);
            lemma_entry_get_push(before, entries@.last(), field_key(g));
        }
    }
}

fn no_members() -> (r: Vec<(String, Json)>)
    ensures
        r@.len() == 0,
        forall|f: Field| entry_get(r@, #[trigger] field_key(f)) is None,
{
    Vec::new()
}

fn real_value(r: Real) -> (j: Json)
    ensures
        j == real_json(r),
{
    Json::Number(Num { uint: None, real: Some(r) })
}

fn uint_value(n: u64) -> (j: Json)
    ensures
        j == uint_json(n),
{
    Json::Number(Num { uint: Some(n), real: None })
}

fn put_opt_real(entries: &mut Vec<(String, Json)>, f: Field, o: Option<Real>)
    requires
        entry_get(old(entries)@, field_key(f)) is None,
    ensures
        final(entries)@.len() == old(entries)@.len() + count(o),
        match o {
            Some(r) => entry_get(final(entries)@, field_key(f)) == Some(real_json(r)),
            None => entry_get(final(entries)@, field_key(f)) is None,
        },
        forall|g: Field|
            g != f ==> entry_get(final(entries)@, #[trigger] field_key(g)) == entry_get(
                old(entries)@,
                field_key(g),
            ),
{
    if let Some(r) = o {
        put(entries, f, real_value(r));
    }
}

fn put_opt_uint(entries: &mut Vec<(String, Json)>, f: Field, o: Option<u64>)
    requires
        entry_get(old(entries)@, field_key(f)) is None,
    ensures
        final(entries)@.len() == old(entries)@.len() + count(o),
        match o {
            Some(n) => entry_get(final(entries)@, field_key(f)) == Some(uint_json(n)),
            None => entry_get(final(entries)@, field_key(f)) is None,
        },
        forall|g: Field|
            g != f ==> entry_get(final(entries)@, #[trigger] field_key(g)) == entry_get(
                old(entries)@,
                field_key(g),
            ),
{
    if let Some(n) = o {
        put(entries, f, uint_value(n));
    }
}

pub fn encode_server(s: &ServerDetails) -> (r: Json)
    ensures
        server_payload(r, *s),
{
    let mut e = no_members();
    put(&mut e, Field::Id, uint_value(s.id));
    put(&mut e, Field::Host, Json::Str(s.host.clone()));
    put(&mut e, Field::Name, Json::Str(s.name.clone()));
    put(&mut e, Field::Location, Json::Str(s.location.clone()));
    put(&mut e, Field::Country, Json::Str(s.country.clone()));
    Json::Object(e)
}

fn encode_ping_details(d: &PingDetails) -> (r: Json)
    ensures
        ping_details_payload(r, *d),
{
    let mut e = no_members();
    put(&mut e, Field::Jitter, real_value(d.jitter));
    put(&mut e, Field::Latency, real_value(d.latency));
    put_opt_real(&mut e, Field::Progress, d.progress);
    put_opt_real(&mut e, Field::Low, d.low);
    put_opt_real(&mut e, Field::High, d.high);
    Json::Object(e)
}

fn encode_latency(l: &LatencyLoadedRecord) -> (r: Json)
    ensures
        latency_payload(r, *l),
{
    let mut e = no_members();
    put(&mut e, Field::Iqm, real_value(l.iqm));
    put_opt_real(&mut e, Field::Low, l.low);
    put_opt_real(&mut e, Field::High, l.high);
    put_opt_real(&mut e, Field::Jitter, l.jitter);
    Json::Object(e)
}

fn encode_bandwidth(b: &BandwidthDetails) -> (r: Json)
    ensures
        bandwidth_payload(r, *b),
{
    let mut e = no_members();
    put(&mut e, Field::Bandwidth, uint_value(b.bandwidth));
    put(&mut e, Field::Bytes, uint_value(b.bytes));
    put(&mut e, Field::Elapsed, uint_value(b.elapsed));
    put_opt_real(&mut e, Field::Progress, b.progress);
    match &b.latency {
        Some(l) => put(&mut e, Field::Latency, encode_latency(l)),
        None => {},
    }
    Json::Object(e)
}

fn encode_timestamp(t: &Timestamp) -> (r: Json)
    ensures
        r == Json::Str(t.text),
{
    Json::Str(t.text.clone())
}

fn encode_start(x: &StartRecord) -> (r: Json)
    ensures
        start_payload(r, *x),
{
    let mut e = no_members();
    put(&mut e, Field::Timestamp, encode_timestamp(&x.timestamp));
    put(&mut e, Field::Server, encode_server(&x.server));
    Json::Object(e)
}

fn encode_ping(x: &PingRecord) -> (r: Json)
    ensures
        ping_payload(r, *x),
{
    let mut e = no_members();
    put(&mut e, Field::Timestamp, encode_timestamp(&x.timestamp));
    put(&mut e, Field::Ping, encode_ping_details(&x.ping));
    put_opt_uint(&mut e, Field::Sequence, x.sequence);
    Json::Object(e)
}

fn encode_download(x: &DownloadRecord) -> (r: Json)
    ensures
        download_payload(r, *x),
{
    let mut e = no_members();
    put(&mut e, Field::Timestamp, encode_timestamp(&x.timestamp));
    put(&mut e, Field::Download, encode_bandwidth(&x.download));
    put_opt_uint(&mut e, Field::Sequence, x.sequence);
    Json::Object(e)
}

fn encode_upload(x: &UploadRecord) -> (r: Json)
    ensures
        upload_payload(r, *x),
{
    let mut e = no_members();
    put(&mut e, Field::Timestamp, encode_timestamp(&x.timestamp));
    put(&mut e, Field::Upload, encode_bandwidth(&x.upload));
    put_opt_uint(&mut e, Field::Sequence, x.sequence);
    Json::Object(e)
}

fn encode_result(x: &ResultRecord) -> (r: Json)
    ensures
        result_payload(r, *x),
{
    let mut d = no_members();
    put(&mut d, Field::Id, Json::Str(x.details.id.clone()));
    put(&mut d, Field::Url, Json::Str(x.details.url.clone()));
    let mut e = no_members();
    put(&mut e, Field::Timestamp, encode_timestamp(&x.timestamp));
    put(&mut e, Field::Ping, encode_ping_details(&x.ping));
    put(&mut e, Field::Download, encode_bandwidth(&x.download));
    put(&mut e, Field::Upload, encode_bandwidth(&x.upload));
    put(&mut e, Field::PacketLoss, real_value(x.packet_loss));
    put(&mut e, Field::Result, Json::Object(d));
    Json::Object(e)
}

impl Record {
    /// The payload under which this record is stored.
    pub fn payload(&self) -> (r: Json)
        ensures
            record_payload(r, *self),
    {
        match self {
            Record::Start(x) => encode_start(x),
            Record::Ping(x) => encode_ping(x),
            Record::Download(x) => encode_download(x),
            Record::Upload(x) => encode_upload(x),
            Record::Result(x) => encode_result(x),
        }
    }
}

// ---------------------------------------------------------------------------
// What a payload decodes back to.

/// The timestamp's instant is the one its text names.
pub open spec fn timestamp_consistent(t: Timestamp) -> bool {
    utc_instant(t.text@) == Some((t.seconds, t.nanos))
}

/// Figures of a streaming record: no low / high latency, and at most the
/// interquartile mean under load.
pub open spec fn streaming_shape(d: BandwidthDetails) -> bool {
    match d.latency {
        Some(l) => l.low is None && l.high is None && l.jitter is None,
        None => true,
    }
}

/// Transfer figures of a summary: no progress, full latency figures.
pub open spec fn summary_shape(d: BandwidthDetails) -> bool {
    &&& d.progress is None
    &&& d.latency matches Some(l) && l.low is Some && l.high is Some && l.jitter is Some
}

/// The shape that decoding gives a record: the one in which each figure is
/// present exactly where the tool reports it.
pub open spec fn well_formed(r: Record) -> bool {
    match r {
        Record::Start(x) => timestamp_consistent(x.timestamp),
        Record::Ping(x) => timestamp_consistent(x.timestamp) && x.ping.low is None
            && x.ping.high is None,
        Record::Download(x) => timestamp_consistent(x.timestamp) && streaming_shape(x.download),
        Record::Upload(x) => timestamp_consistent(x.timestamp) && streaming_shape(x.upload),
        Record::Result(x) => {
            &&& timestamp_consistent(x.timestamp)
            &&& x.ping.progress is None && x.ping.low is Some && x.ping.high is Some
            &&& summary_shape(x.download) && summary_shape(x.upload)
        },
    }
}

/// A record's stored payload decodes, by the decoder of its kind, to the
/// record itself, its position and cleared progress included.
pub proof fn lemma_payload_round_trip(r: Record, j: Json)
    requires
        well_formed(r),
        record_payload(j, r),
    ensures
        record_body_of(j, kind_of(r), true) == Ok::<Record, crate::decode::ParseError>(r),
{
}

// ---------------------------------------------------------------------------
// The stored image of a run.

/// One measurement row and its record rows, in the order they are written:
/// the start, the ping, download and upload records, then the summary.
#[derive(Debug)]
pub struct StoredMeasurement {
    pub timestamp: Timestamp,
    pub server: Json,
    pub records: Vec<(RecordKind, Json)>,
}

/// `rows` holds the record rows of `rs`, in order.
pub open spec fn rows_of(rows: Seq<(RecordKind, Json)>, rs: Records) -> bool {
    let np = rs.ping@.len() as int;
    let nd = rs.download@.len() as int;
    let nu = rs.upload@.len() as int;
    &&& rows.len() == 2 + np + nd + nu
    &&& rows[0].0 == RecordKind::Start && start_payload(rows[0].1, rs.start)
    &&& forall|i: int|
        0 <= i < np ==> (#[trigger] rows[1 + i]).0 == RecordKind::Ping && ping_payload(
            rows[1 + i].1,
            rs.ping@[i],
        )
    &&& forall|i: int|
        0 <= i < nd ==> (#[trigger] rows[1 + np + i]).0 == RecordKind::Download
            && download_payload(rows[1 + np + i].1, rs.download@[i])
    &&& forall|i: int|
        0 <= i < nu ==> (#[trigger] rows[1 + np + nd + i]).0 == RecordKind::Upload
            && upload_payload(rows[1 + np + nd + i].1, rs.upload@[i])
    &&& rows[1 + np + nd + nu].0 == RecordKind::Result && result_payload(
        rows[1 + np + nd + nu].1,
        rs.result,
    )
}

impl Records {
    /// The rows under which this run is stored.
    pub fn stored(&self) -> (r: StoredMeasurement)
        ensures
            r.timestamp == self.start.timestamp,
            server_payload(r.server, self.start.server),
            rows_of(r.records@, *self),
    {
        let mut rows: Vec<(RecordKind, Json)> = Vec::new();
        rows.push((RecordKind::Start, encode_start(&self.start)));
        let mut i: usize = 0;
        while i < self.ping.len()
            invariant
                0 <= i <= self.ping.len(),
                rows@.len() == 1 + i,
                rows@[0].0 == RecordKind::Start && start_payload(rows@[0].1, self.start),
                forall|k: int|
                    0 <= k < i ==> (#[trigger] rows@[1 + k]).0 == RecordKind::Ping && ping_payload(
                        rows@[1 + k].1,
                        self.ping@[k],
                    ),
            decreases self.ping.len() - i,
        {
            rows.push((RecordKind::Ping, encode_ping(&self.ping[i])));
            i = i + 1;
        }
        let np = self.ping.len();
        let mut i: usize = 0;
        while i < self.download.len()
            invariant
                0 <= i <= self.download.len(),
                np == self.ping@.len(),
                rows@.len() == 1 + np + i,
                rows@[0].0 == RecordKind::Start && start_payload(rows@[0].1, self.start),
                forall|k: int|
                    0 <= k < np ==> (#[trigger] rows@[1 + k]).0 == RecordKind::Ping && ping_payload(
                        rows@[1 + k].1,
                        self.ping@[k],
                    ),
                forall|k: int|
                    0 <= k < i ==> (#[trigger] rows@[1 + np + k]).0 == RecordKind::Download
                        && download_payload(rows@[1 + np + k].1, self.download@[k]),
            decreases self.download.len() - i,
        {
            rows.push((RecordKind::Download, encode_download(&self.download[i])));
            i = i + 1;
        }
        let nd = self.download.len();
        let mut i: usize = 0;
        while i < self.upload.len()
            invariant
                0 <= i <= self.upload.len(),
                np == self.ping@.len(),
                nd == self.download@.len(),
                rows@.len() == 1 + np + nd + i,
                rows@[0].0 == RecordKind::Start && start_payload(rows@[0].1, self.start),
                forall|k: int|
                    0 <= k < np ==> (#[trigger] rows@[1 + k]).0 == RecordKind::Ping && ping_payload(
                        rows@[1 + k].1,
                        self.ping@[k],
                    ),
                forall|k: int|
                    0 <= k < nd ==> (#[trigger] rows@[1 + np + k]).0 == RecordKind::Download
                        && download_payload(rows@[1 + np + k].1, self.download@[k]),
                forall|k: int|
                    0 <= k < i ==> (#[trigger] rows@[1 + np + nd + k]).0 == RecordKind::Upload
                        && upload_payload(rows@[1 + np + nd + k].1, self.upload@[k]),
            decreases self.upload.len() - i,
        {
            rows.push((RecordKind::Upload, encode_upload(&self.upload[i])));
            i = i + 1;
        }
        rows.push((RecordKind::Result, encode_result(&self.result)));
        StoredMeasurement {
            timestamp: Timestamp {
                text: self.start.timestamp.text.clone(),
                seconds: self.start.timestamp.seconds,
                nanos: self.start.timestamp.nanos,
            },
            server: encode_server(&self.start.server),
            records: rows,
        }
    }
}

// ---------------------------------------------------------------------------
// Which records are well formed.

/// Every record that decoding yields, from a line or from a payload, is well
/// formed.
pub proof fn lemma_decoded_well_formed(j: Json, k: RecordKind, stored: bool)
    requires
        record_body_of(j, k, stored) is Ok,
    ensures
        well_formed(record_body_of(j, k, stored)->Ok_0),
{
}

/// Numbering a streaming record and clearing its progress keeps it well
/// formed.
pub proof fn lemma_finalized_well_formed(r: Record, sequence: u64)
    requires
        well_formed(r),
    ensures
        r matches Record::Ping(x) ==> well_formed(Record::Ping(x.finalized(sequence))),
        r matches Record::Download(x) ==> well_formed(Record::Download(x.finalized(sequence))),
        r matches Record::Upload(x) ==> well_formed(Record::Upload(x.finalized(sequence))),
{
}

/// A stored run has one row for its start, one per ping, download and upload
/// record, and one for its summary, the start first and the summary last.
pub proof fn lemma_child_row_count(rows: Seq<(RecordKind, Json)>, rs: Records)
    requires
        rows_of(rows, rs),
    ensures
        rows.len() == 1 + rs.ping@.len() + rs.download@.len() + rs.upload@.len() + 1,
        rows[0].0 == RecordKind::Start,
        rows.last().0 == RecordKind::Result,
{
}

} // verus!
