//! The records that the measurement tool emits, one per output line, and the
//! assembled result of one run.
use vstd::prelude::*;

use crate::json::Real;

verus! {

/// An instant as the tool wrote it, with the instant it names: whole seconds
/// since the Unix epoch (UTC) and nanoseconds past them.
#[derive(Clone, Debug)]
pub struct Timestamp {
    pub text: String,
    pub seconds: i64,
    pub nanos: u32,
}

#[derive(Clone, Debug)]
pub struct ServerDetails {
    pub id: u64,
    pub host: String,
    pub name: String,
    pub location: String,
    pub country: String,
}

#[derive(Clone, Debug)]
pub struct StartRecord {
    pub timestamp: Timestamp,
    pub server: ServerDetails,
}

/// Latency figures. While streaming, `progress` is set and `low` / `high`
/// are absent; in the final summary it is the other way round.
#[derive(Clone, Debug)]
pub struct PingDetails {
    pub jitter: Real,
    pub latency: Real,
    pub progress: Option<Real>,
    pub low: Option<Real>,
    pub high: Option<Real>,
}

/// `sequence` is the record's position among the ping records of its run,
/// set once the run is assembled.
#[derive(Clone, Debug)]
pub struct PingRecord {
    pub timestamp: Timestamp,
    pub ping: PingDetails,
    pub sequence: Option<u64>,
}

/// Latency under load. While streaming only `iqm` is reported.
#[derive(Clone, Debug)]
pub struct LatencyLoadedRecord {
    pub iqm: Real,
    pub low: Option<Real>,
    pub high: Option<Real>,
    pub jitter: Option<Real>,
}

#[derive(Clone, Debug)]
pub struct BandwidthDetails {
    pub bandwidth: u64,
    pub bytes: u64,
    pub elapsed: u64,
    pub progress: Option<Real>,
    pub latency: Option<LatencyLoadedRecord>,
}

#[derive(Clone, Debug)]
pub struct DownloadRecord {
    pub timestamp: Timestamp,
    pub download: BandwidthDetails,
    pub sequence: Option<u64>,
}

#[derive(Clone, Debug)]
pub struct UploadRecord {
    pub timestamp: Timestamp,
    pub upload: BandwidthDetails,
    pub sequence: Option<u64>,
}

#[derive(Clone, Debug)]
pub struct ResultDetails {
    pub id: String,
    pub url: String,
}

#[derive(Clone, Debug)]
pub struct ResultRecord {
    pub timestamp: Timestamp,
    pub ping: PingDetails,
    pub download: BandwidthDetails,
    pub upload: BandwidthDetails,
    pub packet_loss: Real,
    pub details: ResultDetails,
}

#[derive(Clone, Copy, Debug, PartialEq, Eq, Structural)]
pub enum RecordKind {
    Start,
    Ping,
    Download,
    Upload,
    Result,
}

#[derive(Clone, Debug)]
pub enum Record {
    Start(StartRecord),
    Ping(PingRecord),
    Download(DownloadRecord),
    Upload(UploadRecord),
    Result(ResultRecord),
}

pub open spec fn kind_of(r: Record) -> RecordKind {
    match r {
        Record::Start(_) => RecordKind::Start,
        Record::Ping(_) => RecordKind::Ping,
        Record::Download(_) => RecordKind::Download,
        Record::Upload(_) => RecordKind::Upload,
        Record::Result(_) => RecordKind::Result,
    }
}

/// The tag under which a record of this kind is stored.
pub open spec fn kind_tag(k: RecordKind) -> Seq<char> {
    match k {
        RecordKind::Start => "start"@,
        RecordKind::Ping => "ping"@,
        RecordKind::Download => "download"@,
        RecordKind::Upload => "upload"@,
        RecordKind::Result => "result"@,
    }
}

impl RecordKind {
    pub fn tag(&self) -> (r: &'static str)
        ensures
            r@ == kind_tag(*self),
    {
        match self {
            RecordKind::Start => "start",
            RecordKind::Ping => "ping",
            RecordKind::Download => "download",
            RecordKind::Upload => "upload",
            RecordKind::Result => "result",
        }
    }
}

impl Record {
    pub fn kind(&self) -> (r: RecordKind)
        ensures
            r == kind_of(*self),
    {
        match self {
            Record::Start(_) => RecordKind::Start,
            Record::Ping(_) => RecordKind::Ping,
            Record::Download(_) => RecordKind::Download,
            Record::Upload(_) => RecordKind::Upload,
            Record::Result(_) => RecordKind::Result,
        }
    }

    /// The tag under which this record is stored.
    pub fn get_type(&self) -> (r: &'static str)
        ensures
            r@ == kind_tag(kind_of(*self)),
    {
        let k = self.kind();
        k.tag()
    }
}

/// The assembled output of one run: its start, the streaming records of each
/// phase in order, and its summary.
#[derive(Clone, Debug)]
pub struct Records {
    pub start: StartRecord,
    pub ping: Vec<PingRecord>,
    pub download: Vec<DownloadRecord>,
    pub upload: Vec<UploadRecord>,
    pub result: ResultRecord,
}

} // verus!
