//! What a run of the measurement tool yields, from the lines it printed and
//! whether its output stream ended cleanly. Spawning the tool and reading its
//! output are left to the caller.
use vstd::prelude::*;

use crate::aggregate::{aggregate_error, aggregates_to, AggregateError};
use crate::decode::{parse_result, ParseError};
use crate::types::{Record, RecordKind, Records};

verus! {

#[derive(Clone, Copy, Debug, PartialEq, Eq, Structural)]
pub enum Error {
    /// The tool could not be started.
    SpawnFailed,
    /// The output stream failed, or the tool exited abnormally, before any
    /// usable line.
    StreamReadFailed,
    /// The records read do not make up a run.
    Aggregation(AggregateError),
}

/// A measurement against one test server.
pub struct Speedtest {
    pub server_id: u32,
}

impl Speedtest {
    pub fn new(server_id: u32) -> (r: Self)
        ensures
            r.server_id == server_id,
    {
        Speedtest { server_id }
    }
}

/// The records among `results`, in order; failed lines are dropped.
pub open spec fn parsed_only(results: Seq<Result<Record, ParseError>>) -> Seq<Record>
    decreases results.len(),
{
    if results.len() == 0 {
        Seq::empty()
    } else {
        let init = parsed_only(results.drop_last());
        match results.last() {
            Ok(r) => init.push(r),
            Err(_) => init,
        }
    }
}

/// Keeps the lines that decoded, in order, and skips the others.
pub fn keep_parsed(results: Vec<Result<Record, ParseError>>) -> (r: Vec<Record>)
    ensures
        r@ == parsed_only(results@),
{
    let ghost s = results@;
    let mut rest = results;
    let mut out: Vec<Record> = Vec::new();
    let ghost mut i: int = 0;
    while rest.len() > 0
        invariant
            0 <= i <= s.len(),
            rest@ == s.subrange(i, s.len() as int),
            out@ == parsed_only(s.subrange(0, i)),
        decreases rest.len(),
    {
        let x = rest.remove(0);
        proof {
            assert(s.subrange(0, i + 1).drop_last() =~= s.subrange(0, i));
            assert(s.subrange(0, i + 1).last() == x);
            i = i + 1;
            assert(rest@ =~= s.subrange(i, s.len() as int));
        }
        match x {
            Ok(record) => out.push(record),
            Err(_) => {},
        }
    }
    assert(s.subrange(0, s.len() as int) =~= s);
    out
}

/// The records that `lines` yield: each line read as `Record::parse` reads
/// it, those that fail dropped.
pub open spec fn usable_records(lines: Seq<String>) -> Seq<Record> {
    parsed_only(lines.map_values(|l: String| parse_result(l@)))
}

/// Decodes each output line and keeps those that decode.
pub fn parse_lines(lines: &Vec<String>) -> (r: Vec<Record>)
    ensures
        r@ == usable_records(lines@),
{
    let mut results: Vec<Result<Record, ParseError>> = Vec::new();
    let mut i: usize = 0;
    while i < lines.len()
        invariant
            0 <= i <= lines.len(),
            results@.len() == i,
            forall|k: int| 0 <= k < i ==> #[trigger] results@[k] == parse_result(lines@[k]@),
        decreases lines.len() - i,
    {
        results.push(Record::parse(lines[i].as_str()));
        i = i + 1;
    }
    assert(results@ =~= lines@.map_values(|l: String| parse_result(l@)));
    keep_parsed(results)
}

/// The outcome of a run whose usable output is `records`: a stream failure
/// if it produced none and did not end cleanly, else what assembly gives.
pub open spec fn assembled(records: Seq<Record>, stream_ok: bool, r: Result<Records, Error>) -> bool {
    if !stream_ok && records.len() == 0 {
        r == Err::<Records, Error>(Error::StreamReadFailed)
    } else {
        match aggregate_error(records) {
            Some(e) => r == Err::<Records, Error>(Error::Aggregation(e)),
            None => r matches Ok(rs) && aggregates_to(records, rs),
        }
    }
}

/// The outcome of a run whose usable output is `records`; `stream_ok` tells
/// whether the output stream ended cleanly and the tool exited with success.
pub fn assemble(records: Vec<Record>, stream_ok: bool) -> (r: Result<Records, Error>)
    ensures
        assembled(records@, stream_ok, r),
{
    if !stream_ok && records.len() == 0 {
        return Err(Error::StreamReadFailed);
    }
    match Records::aggregate(records) {
        Ok(rs) => Ok(rs),
        Err(e) => Err(Error::Aggregation(e)),
    }
}

/// The outcome of a run that printed `lines`.
pub fn run_outcome(lines: &Vec<String>, stream_ok: bool) -> (r: Result<Records, Error>)
    ensures
        assembled(usable_records(lines@), stream_ok, r),
{
    let records = parse_lines(lines);
    assemble(records, stream_ok)
}

proof fn lemma_parsed_only_append(
    a: Seq<Result<Record, ParseError>>,
    b: Seq<Result<Record, ParseError>>,
)
    ensures
        parsed_only(a + b) == parsed_only(a) + parsed_only(b),
    decreases b.len(),
{
    if b.len() == 0 {
        assert(a + b =~= a);
        assert(parsed_only(a) + parsed_only(b) =~= parsed_only(a));
    } else {
        lemma_parsed_only_append(a, b.drop_last());
        assert((a + b).drop_last() =~= a + b.drop_last());
        assert((a + b).last() == b.last());
        match b.last() {
            Ok(r) => {
                assert(parsed_only(a) + parsed_only(b.drop_last()).push(r) =~= (parsed_only(a)
                    + parsed_only(b.drop_last())).push(r));
            },
            Err(_) => {},
        }
    }
}

/// A line that does not decode, wherever it stands among the others, changes
/// neither the records a run yields nor, therefore, its outcome.
pub proof fn lemma_failed_line_skipped(lines: Seq<String>, k: int, line: String, stream_ok: bool)
    requires
        0 <= k <= lines.len(),
        parse_result(line@) is Err,
    ensures
        usable_records(lines.insert(k, line)) == usable_records(lines),
        forall|r: Result<Records, Error>|
            #[trigger] assembled(usable_records(lines.insert(k, line)), stream_ok, r)
                == assembled(usable_records(lines), stream_ok, r),
{
    let f = |l: String| parse_result(l@);
    let pre = lines.subrange(0, k).map_values(f);
    let post = lines.subrange(k, lines.len() as int).map_values(f);
    assert(lines.map_values(f) =~= pre + post);
    assert(lines.insert(k, line).map_values(f) =~= pre + seq![parse_result(line@)] + post);
    lemma_parsed_only_append(pre + seq![parse_result(line@)], post);
    lemma_parsed_only_append(pre, seq![parse_result(line@)]);
    lemma_parsed_only_append(pre, post);
    let one = seq![parse_result(line@)];
    assert(one.drop_last() =~= Seq::<Result<Record, ParseError>>::empty());
    assert(one.last() == parse_result(line@));
    assert(parsed_only(one.drop_last()) =~= Seq::<Record>::empty());
    assert(parsed_only(one) =~= Seq::<Record>::empty());
    assert(parsed_only(pre) + parsed_only(one) =~= parsed_only(pre));
}

} // verus!
