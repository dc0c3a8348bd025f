//! Assembly of the records of one run: bucketing by kind, completeness, and
//! the ordering and numbering of each streaming phase.
use vstd::prelude::*;

use crate::json::{real_rank, Real};
use crate::types::{
    DownloadRecord, PingRecord, Record, RecordKind, Records, ResultRecord, StartRecord,
    UploadRecord,
};

verus! {

/// Rank of a progress value; an absent one comes before every present one.
pub open spec fn progress_rank(p: Option<Real>) -> int {
    match p {
        None => -0x8000_0000_0000_0000 - 1,
        Some(r) => real_rank(r),
    }
}

fn progress_rank_exec(p: Option<Real>) -> (r: i128)
    ensures
        r == progress_rank(p),
{
    match p {
        None => -0x8000_0000_0000_0000i128 - 1,
        Some(x) => if x.bits >= 0x8000_0000_0000_0000 {
            -((x.bits - 0x8000_0000_0000_0000) as i128)
        } else {
            x.bits as i128
        },
    }
}

/// A record of a streaming phase (ping, download, upload).
pub trait Streaming: Sized {
    spec fn progress_of(&self) -> Option<Real>;

    spec fn sequence_of(&self) -> Option<u64>;

    /// The record with its position set to `sequence` and its progress cleared.
    spec fn finalized(self, sequence: u64) -> Self;

    proof fn lemma_finalized(self, sequence: u64)
        ensures
            self.finalized(sequence).progress_of() is None,
            self.finalized(sequence).sequence_of() == Some(sequence),
    ;

    fn progress(&self) -> (r: Option<Real>)
        ensures
            r == self.progress_of(),
    ;

    fn finalize(&mut self, sequence: u64)
        ensures
            *final(self) == old(self).finalized(sequence),
    ;
}

impl Streaming for PingRecord {
    open spec fn progress_of(&self) -> Option<Real> {
        self.ping.progress
    }

    open spec fn sequence_of(&self) -> Option<u64> {
        self.sequence
    }

    open spec fn finalized(self, sequence: u64) -> Self {
        PingRecord {
            sequence: Some(sequence),
            ping: crate::types::PingDetails { progress: None, ..self.ping },
            ..self
        }
    }

    proof fn lemma_finalized(self, sequence: u64) {
    }

    fn progress(&self) -> (r: Option<Real>) {
        self.ping.progress
    }

    fn finalize(&mut self, sequence: u64) {
        self.sequence = Some(sequence);
        self.ping.progress = None;
    }
}

impl Streaming for DownloadRecord {
    open spec fn progress_of(&self) -> Option<Real> {
        self.download.progress
    }

    open spec fn sequence_of(&self) -> Option<u64> {
        self.sequence
    }

    open spec fn finalized(self, sequence: u64) -> Self {
        DownloadRecord {
            sequence: Some(sequence),
            download: crate::types::BandwidthDetails { progress: None, ..self.download },
            ..self
        }
    }

    proof fn lemma_finalized(self, sequence: u64) {
    }

    fn progress(&self) -> (r: Option<Real>) {
        self.download.progress
    }

    fn finalize(&mut self, sequence: u64) {
        self.sequence = Some(sequence);
        self.download.progress = None;
    }
}

impl Streaming for UploadRecord {
    open spec fn progress_of(&self) -> Option<Real> {
        self.upload.progress
    }

    open spec fn sequence_of(&self) -> Option<u64> {
        self.sequence
    }

    open spec fn finalized(self, sequence: u64) -> Self {
        UploadRecord {
            sequence: Some(sequence),
            upload: crate::types::BandwidthDetails { progress: None, ..self.upload },
            ..self
        }
    }

    proof fn lemma_finalized(self, sequence: u64) {
    }

    fn progress(&self) -> (r: Option<Real>) {
        self.upload.progress
    }

    fn finalize(&mut self, sequence: u64) {
        self.sequence = Some(sequence);
        self.upload.progress = None;
    }
}

/// Record `a` of `s` goes before record `b`: lower progress first, and on
/// equal progress the one that arrived first.
pub open spec fn precedes<T: Streaming>(s: Seq<T>, a: int, b: int) -> bool {
    progress_rank(s[a].progress_of()) < progress_rank(s[b].progress_of()) || (
    progress_rank(s[a].progress_of()) == progress_rank(s[b].progress_of()) && a < b)
}

/// `perm` lists the positions of `s` in the order that `precedes` gives.
/// Being strictly increasing under `precedes`, it repeats no position, so it
/// is a permutation of `0..s.len()`.
pub open spec fn stable_order<T: Streaming>(s: Seq<T>, perm: Seq<int>) -> bool {
    &&& perm.len() == s.len()
    &&& forall|i: int| 0 <= i < perm.len() ==> 0 <= #[trigger] perm[i] < s.len()
    &&& forall|i: int, j: int|
        0 <= i < j < perm.len() ==> precedes(s, #[trigger] perm[i], #[trigger] perm[j])
}

/// `out` is `s` ordered by progress (stably), each record numbered by its
/// position and its progress cleared.
pub open spec fn ordered_and_numbered<T: Streaming>(s: Seq<T>, out: Seq<T>) -> bool {
    exists|perm: Seq<int>|
        stable_order(s, perm) && out.len() == s.len() && forall|k: int|
            0 <= k < out.len() ==> #[trigger] out[k] == s[perm[k]].finalized(k as u64)
}

/// Orders the records of one streaming phase by progress, keeping arrival
/// order among equal progress, then numbers them from 0 and clears their
/// progress.
pub fn order_stream<T: Streaming>(v: Vec<T>) -> (r: Vec<T>)
    ensures
        ordered_and_numbered(v@, r@),
{
    let ghost s = v@;
    let mut rest = v;
    let mut sorted: Vec<T> = Vec::new();
    let ghost mut perm: Seq<int> = Seq::empty();
    while rest.len() > 0
        invariant
            sorted.len() + rest.len() == s.len(),
            rest@ == s.subrange(sorted.len() as int, s.len() as int),
            perm.len() == sorted.len(),
            forall|i: int| 0 <= i < perm.len() ==> 0 <= #[trigger] perm[i] < sorted.len(),
            forall|i: int| 0 <= i < perm.len() ==> #[trigger] sorted@[i] == s[perm[i]],
            forall|i: int, j: int|
                0 <= i < j < perm.len() ==> precedes(s, #[trigger] perm[i], #[trigger] perm[j]),
        decreases rest.len(),
    {
        let ghost n = sorted.len() as int;
        let x = rest.remove(0);
        assert(x == s[n]);
        let key = progress_rank_exec(x.progress());
        let mut p: usize = 0;
        while p < sorted.len() && progress_rank_exec(sorted[p].progress()) <= key
            invariant
                0 <= p <= sorted.len(),
                key == progress_rank(x.progress_of()),
                forall|k: int| 0 <= k < p ==> progress_rank(#[trigger] sorted@[k].progress_of()) <= key,
            decreases sorted.len() - p,
        {
            p = p + 1;
        }
        proof {
            if p < sorted.len() {
                assert forall|k: int| p <= k < sorted.len() implies progress_rank(
                    #[trigger] sorted@[k].progress_of(),
                ) > key by {
                    if k > p {
                        assert(precedes(s, perm[p as int], perm[k]));
                    }
                }
            }
        }
        let ghost old_sorted = sorted@;
        let ghost old_perm = perm;
        sorted.insert(p, x);
        proof {
            perm = old_perm.insert(p as int, n);
            assert forall|i: int| 0 <= i < perm.len() implies #[trigger] sorted@[i] == s[perm[i]] by {
                if i < p {
                    assert(sorted@[i] == old_sorted[i]);
                } else if i > p {
                    assert(sorted@[i] == old_sorted[i - 1]);
                }
            }
            assert forall|i: int, j: int| 0 <= i < j < perm.len() implies precedes(
                s,
                #[trigger] perm[i],
                #[trigger] perm[j],
            ) by {
                if j < p {
                    assert(precedes(s, old_perm[i], old_perm[j]));
                } else if j == p {
                    assert(progress_rank(old_sorted[i].progress_of()) <= key);
                } else if i < p {
                    assert(precedes(s, old_perm[i], old_perm[j - 1]));
                } else if i == p {
                    assert(progress_rank(old_sorted[j - 1].progress_of()) > key);
                } else {
                    assert(precedes(s, old_perm[i - 1], old_perm[j - 1]));
                }
            }
            assert(rest@ =~= s.subrange(sorted.len() as int, s.len() as int));
        }
    }
    let mut out: Vec<T> = Vec::new();
    let ghost sorted0 = sorted@;
    while sorted.len() > 0
        invariant
            out.len() + sorted.len() == s.len(),
            sorted@ == sorted0.subrange(out.len() as int, s.len() as int),
            sorted0.len() == s.len(),
            forall|k: int| 0 <= k < out.len() ==> #[trigger] out@[k] == sorted0[k].finalized(k as u64),
        decreases sorted.len(),
    {
        let mut x = sorted.remove(0);
        let k = out.len();
        assert(x == sorted0[k as int]);
        x.finalize(k as u64);
        out.push(x);
        assert(sorted@ =~= sorted0.subrange(out.len() as int, s.len() as int));
    }
    assert(stable_order(s, perm));
    out
}

// ---------------------------------------------------------------------------
// Bucketing by kind.

pub open spec fn starts_of(s: Seq<Record>) -> Seq<StartRecord>
    decreases s.len(),
{
    if s.len() == 0 {
        Seq::empty()
    } else {
        let init = starts_of(s.drop_last());
        match s.last() {
            Record::Start(x) => init.push(x),
            _ => init,
        }
    }
}

pub open spec fn pings_of(s: Seq<Record>) -> Seq<PingRecord>
    decreases s.len(),
{
    if s.len() == 0 {
        Seq::empty()
    } else {
        let init = pings_of(s.drop_last());
        match s.last() {
            Record::Ping(x) => init.push(x),
            _ => init,
        }
    }
}

pub open spec fn downloads_of(s: Seq<Record>) -> Seq<DownloadRecord>
    decreases s.len(),
{
    if s.len() == 0 {
        Seq::empty()
    } else {
        let init = downloads_of(s.drop_last());
        match s.last() {
            Record::Download(x) => init.push(x),
            _ => init,
        }
    }
}

pub open spec fn uploads_of(s: Seq<Record>) -> Seq<UploadRecord>
    decreases s.len(),
{
    if s.len() == 0 {
        Seq::empty()
    } else {
        let init = uploads_of(s.drop_last());
        match s.last() {
            Record::Upload(x) => init.push(x),
            _ => init,
        }
    }
}

pub open spec fn results_of(s: Seq<Record>) -> Seq<ResultRecord>
    decreases s.len(),
{
    if s.len() == 0 {
        Seq::empty()
    } else {
        let init = results_of(s.drop_last());
        match s.last() {
            Record::Result(x) => init.push(x),
            _ => init,
        }
    }
}

#[derive(Clone, Copy, Debug, PartialEq, Eq, Structural)]
pub enum AggregateError {
    /// The run produced no record of this kind, which it must have.
    Incomplete(RecordKind),
    /// The run produced more than one record of this kind, which it must
    /// have exactly once.
    Duplicate(RecordKind),
}

/// Why the records `s` do not make up a run, if they do not: a run has
/// exactly one start and exactly one summary. A missing record is reported
/// before a repeated one, and the start before the summary.
pub open spec fn aggregate_error(s: Seq<Record>) -> Option<AggregateError> {
    if starts_of(s).len() == 0 {
        Some(AggregateError::Incomplete(RecordKind::Start))
    } else if results_of(s).len() == 0 {
        Some(AggregateError::Incomplete(RecordKind::Result))
    } else if starts_of(s).len() > 1 {
        Some(AggregateError::Duplicate(RecordKind::Start))
    } else if results_of(s).len() > 1 {
        Some(AggregateError::Duplicate(RecordKind::Result))
    } else {
        None
    }
}

/// What a successful assembly of `s` is: its one start and one summary, and
/// each streaming phase ordered and numbered.
pub open spec fn aggregates_to(s: Seq<Record>, rs: Records) -> bool {
    &&& starts_of(s) == seq![rs.start]
    &&& results_of(s) == seq![rs.result]
    &&& ordered_and_numbered(pings_of(s), rs.ping@)
    &&& ordered_and_numbered(downloads_of(s), rs.download@)
    &&& ordered_and_numbered(uploads_of(s), rs.upload@)
}

impl Records {
    /// Assembles the records of one run, in the order the tool emitted them.
    /// It succeeds exactly when the run holds one start and one summary.
    pub fn aggregate(records: Vec<Record>) -> (r: Result<Records, AggregateError>)
        ensures
            match aggregate_error(records@) {
                Some(e) => r == Err::<Records, AggregateError>(e),
                None => r matches Ok(rs) && aggregates_to(records@, rs),
            },
    {
        let ghost s = records@;
        let mut rest = records;
        let mut start: Option<StartRecord> = None;
        let mut ping: Vec<PingRecord> = Vec::new();
        let mut download: Vec<DownloadRecord> = Vec::new();
        let mut upload: Vec<UploadRecord> = Vec::new();
        let mut result: Option<ResultRecord> = None;
        let mut start_repeated = false;
        let mut result_repeated = false;
        let ghost mut i: int = 0;
        while rest.len() > 0
            invariant
                0 <= i <= s.len(),
                rest@ == s.subrange(i, s.len() as int),
                start == (if starts_of(s.subrange(0, i)).len() == 0 {
                    None
                } else {
                    Some(starts_of(s.subrange(0, i)).last())
                }),
                result == (if results_of(s.subrange(0, i)).len() == 0 {
                    None
                } else {
                    Some(results_of(s.subrange(0, i)).last())
                }),
                start_repeated == (starts_of(s.subrange(0, i)).len() > 1),
                result_repeated == (results_of(s.subrange(0, i)).len() > 1),
                ping@ == pings_of(s.subrange(0, i)),
                download@ == downloads_of(s.subrange(0, i)),
                upload@ == uploads_of(s.subrange(0, i)),
            decreases rest.len(),
        {
            let record = rest.remove(0);
            proof {
                assert(s.subrange(0, i + 1).drop_last() =~= s.subrange(0, i));
                assert(s.subrange(0, i + 1).last() == record);
                i = i + 1;
                assert(rest@ =~= s.subrange(i, s.len() as int));
            }
            match record {
                Record::Start(x) => {
                    start_repeated = start_repeated || start.is_some();
                    start = Some(x);
                },
                Record::Ping(x) => ping.push(x),
                Record::Download(x) => download.push(x),
                Record::Upload(x) => upload.push(x),
                Record::Result(x) => {
                    result_repeated = result_repeated || result.is_some();
                    result = Some(x);
                },
            }
        }
        assert(s.subrange(0, s.len() as int) =~= s);
        let start = match start {
            None => return Err(AggregateError::Incomplete(RecordKind::Start)),
            Some(x) => x,
        };
        let result = match result {
            None => return Err(AggregateError::Incomplete(RecordKind::Result)),
            Some(x) => x,
        };
        if start_repeated {
            return Err(AggregateError::Duplicate(RecordKind::Start));
        }
        if result_repeated {
            return Err(AggregateError::Duplicate(RecordKind::Result));
        }
        assert(starts_of(s) =~= seq![start]);
        assert(results_of(s) =~= seq![result]);
        let ping = order_stream(ping);
        let download = order_stream(download);
        let upload = order_stream(upload);
        Ok(Records { start, ping, download, upload, result })
    }
}

// ---------------------------------------------------------------------------
// Laws of assembly.

/// A run that lacks its start or its summary, or both, fails as incomplete,
/// whatever else is wrong with it; the start is reported first.
pub proof fn lemma_missing_is_incomplete(s: Seq<Record>)
    requires
        starts_of(s).len() == 0 || results_of(s).len() == 0,
    ensures
        starts_of(s).len() == 0 ==> aggregate_error(s) == Some(
            AggregateError::Incomplete(RecordKind::Start),
        ),
        starts_of(s).len() > 0 ==> aggregate_error(s) == Some(
            AggregateError::Incomplete(RecordKind::Result),
        ),
{
}

/// When a run holds exactly one start and one summary, assembly succeeds and
/// keeps both as they were decoded.
pub proof fn lemma_single_start_and_result(
    s: Seq<Record>,
    start: StartRecord,
    result: ResultRecord,
)
    requires
        starts_of(s) == seq![start],
        results_of(s) == seq![result],
    ensures
        aggregate_error(s) is None,
        forall|rs: Records| #[trigger] aggregates_to(s, rs) ==> rs.start == start && rs.result == result,
{
    assert forall|rs: Records| #[trigger] aggregates_to(s, rs) implies rs.start == start
        && rs.result == result by {
        assert(seq![rs.start][0] == seq![start][0]);
        assert(seq![rs.result][0] == seq![result][0]);
    }
}

/// A phase ordered and numbered: positions run from 0 up, and no record keeps
/// its progress.
pub proof fn lemma_numbered<T: Streaming>(input: Seq<T>, out: Seq<T>)
    requires
        ordered_and_numbered(input, out),
    ensures
        out.len() == input.len(),
        forall|k: int|
            0 <= k < out.len() ==> (#[trigger] out[k]).sequence_of() == Some(k as u64)
                && out[k].progress_of() is None,
{
    let perm = choose|perm: Seq<int>|
        stable_order(input, perm) && out.len() == input.len() && forall|k: int|
            0 <= k < out.len() ==> #[trigger] out[k] == input[perm[k]].finalized(k as u64);
    assert forall|k: int| 0 <= k < out.len() implies (#[trigger] out[k]).sequence_of() == Some(
        k as u64,
    ) && out[k].progress_of() is None by {
        input[perm[k]].lemma_finalized(k as u64);
    }
}

/// After assembly, the records of each phase are numbered 0, 1, ... in the
/// order of their progress before assembly, and none keeps its progress.
pub proof fn lemma_sequence_numbers(s: Seq<Record>, rs: Records)
    requires
        aggregates_to(s, rs),
    ensures
        rs.ping@.len() == pings_of(s).len(),
        rs.download@.len() == downloads_of(s).len(),
        rs.upload@.len() == uploads_of(s).len(),
        forall|k: int|
            0 <= k < rs.ping@.len() ==> (#[trigger] rs.ping@[k]).sequence == Some(k as u64)
                && rs.ping@[k].ping.progress is None,
        forall|k: int|
            0 <= k < rs.download@.len() ==> (#[trigger] rs.download@[k]).sequence == Some(k as u64)
                && rs.download@[k].download.progress is None,
        forall|k: int|
            0 <= k < rs.upload@.len() ==> (#[trigger] rs.upload@[k]).sequence == Some(k as u64)
                && rs.upload@[k].upload.progress is None,
{
    lemma_numbered(pings_of(s), rs.ping@);
    lemma_numbered(downloads_of(s), rs.download@);
    lemma_numbered(uploads_of(s), rs.upload@);
}

} // verus!
