use net_tracker::aggregate::AggregateError;
use net_tracker::decode::{Field, ParseError};
use net_tracker::json::{parse_json, Json, Real};
use net_tracker::runner::{assemble, keep_parsed, parse_lines, run_outcome, Error, Speedtest};
use net_tracker::types::{Record, RecordKind, Records};

const START: &str = r#"{"type":"testStart","timestamp":"2024-01-01T00:00:00Z","server":{"id":4302,"host":"speedtest.example.net","name":"Example","location":"Milan","country":"Italy","ip":"192.0.2.1"}}"#;

const RESULT: &str = r#"{"type":"result","timestamp":"2024-01-01T00:00:30Z","ping":{"jitter":0.5,"latency":10.25,"low":9.75,"high":11.0},"download":{"bandwidth":12500000,"bytes":150000000,"elapsed":10000,"latency":{"iqm":20.5,"low":15.0,"high":40.25,"jitter":2.5}},"upload":{"bandwidth":2500000,"bytes":30000000,"elapsed":9000,"latency":{"iqm":30.5,"low":25.0,"high":50.25,"jitter":3.5}},"packetLoss":0,"result":{"id":"abc-123","url":"https://www.speedtest.net/result/c/abc-123"}}"#;

fn ping_line(jitter: f64, progress: f64) -> String {
    format!(
        r#"{{"type":"ping","timestamp":"2024-01-01T00:00:01Z","ping":{{"jitter":{},"latency":12.5,"progress":{}}}}}"#,
        jitter, progress
    )
}

fn download_line(bytes: u64, progress: f64) -> String {
    format!(
        r#"{{"type":"download","timestamp":"2024-01-01T00:00:05Z","download":{{"bandwidth":1000,"bytes":{},"elapsed":250,"progress":{},"latency":{{"iqm":18.5}}}}}}"#,
        bytes, progress
    )
}

fn double(x: f64) -> Real {
    Real { bits: x.to_bits() }
}

fn parse(line: &str) -> Result<Record, ParseError> {
    Record::parse(line)
}

fn lines(v: &[&str]) -> Vec<String> {
    v.iter().map(|s| s.to_string()).collect()
}

fn records_of(v: &[&str]) -> Vec<Record> {
    v.iter().map(|s| parse(s).unwrap()).collect()
}

fn debug<T: std::fmt::Debug>(x: &T) -> String {
    format!("{:?}", x)
}

#[test]
fn parses_start_line() {
    match parse(START).unwrap() {
        Record::Start(s) => {
            assert_eq!(s.server.id, 4302);
            assert_eq!(s.server.host, "speedtest.example.net");
            assert_eq!(s.server.name, "Example");
            assert_eq!(s.server.location, "Milan");
            assert_eq!(s.server.country, "Italy");
            assert_eq!(s.timestamp.text, "2024-01-01T00:00:00Z");
            assert_eq!(s.timestamp.seconds, 1704067200);
            assert_eq!(s.timestamp.nanos, 0);
        }
        other => panic!("unexpected {:?}", other),
    }
}

#[test]
fn parses_timestamp_with_fraction_and_offset() {
    let line = r#"{"type":"ping","timestamp":"2024-01-01T01:00:00.5+01:00","ping":{"jitter":1,"latency":2,"progress":0.25}}"#;
    match parse(line).unwrap() {
        Record::Ping(p) => {
            assert_eq!(p.timestamp.seconds, 1704067200);
            assert_eq!(p.timestamp.nanos, 500_000_000);
            assert_eq!(p.ping.jitter, double(1.0));
            assert_eq!(p.ping.latency, double(2.0));
            assert_eq!(p.ping.progress, Some(double(0.25)));
            assert_eq!(p.sequence, None);
        }
        other => panic!("unexpected {:?}", other),
    }
}

#[test]
fn parses_ping_download_and_result_lines() {
    match parse(&ping_line(0.75, 0.5)).unwrap() {
        Record::Ping(p) => {
            assert_eq!(p.ping.jitter, double(0.75));
            assert_eq!(p.ping.latency, double(12.5));
            assert_eq!(p.ping.progress, Some(double(0.5)));
            assert_eq!(p.ping.low, None);
        }
        other => panic!("unexpected {:?}", other),
    }
    match parse(&download_line(4096, 0.3)).unwrap() {
        Record::Download(d) => {
            assert_eq!(d.download.bandwidth, 1000);
            assert_eq!(d.download.bytes, 4096);
            assert_eq!(d.download.elapsed, 250);
            assert_eq!(d.download.progress, Some(double(0.3)));
            assert_eq!(d.download.latency.unwrap().iqm, double(18.5));
        }
        other => panic!("unexpected {:?}", other),
    }
    match parse(RESULT).unwrap() {
        Record::Result(r) => {
            assert_eq!(r.ping.low, Some(double(9.75)));
            assert_eq!(r.ping.high, Some(double(11.0)));
            assert_eq!(r.download.bandwidth, 12500000);
            let ul = r.upload.latency.unwrap();
            assert_eq!(ul.iqm, double(30.5));
            assert_eq!(ul.jitter, Some(double(3.5)));
            assert_eq!(r.packet_loss, double(0.0));
            assert_eq!(r.details.id, "abc-123");
            assert_eq!(r.details.url, "https://www.speedtest.net/result/c/abc-123");
        }
        other => panic!("unexpected {:?}", other),
    }
}

#[test]
fn upload_line_without_latency() {
    let line = r#"{"type":"upload","timestamp":"2024-01-01T00:00:20Z","upload":{"bandwidth":7,"bytes":8,"elapsed":9,"progress":1}}"#;
    match parse(line).unwrap() {
        Record::Upload(u) => {
            assert_eq!(u.upload.bytes, 8);
            assert_eq!(u.upload.progress, Some(double(1.0)));
            assert!(u.upload.latency.is_none());
        }
        other => panic!("unexpected {:?}", other),
    }
}

#[test]
fn parse_errors() {
    assert_eq!(parse("{not json").unwrap_err(), ParseError::Syntax);
    assert_eq!(parse("").unwrap_err(), ParseError::Syntax);
    assert_eq!(parse(r#"{"type":"bogus","timestamp":"2024-01-01T00:00:00Z"}"#).unwrap_err(), ParseError::UnknownKind);
    assert_eq!(parse(r#"{"timestamp":"2024-01-01T00:00:00Z"}"#).unwrap_err(), ParseError::UnknownKind);
    assert_eq!(parse(r#"{"type":5}"#).unwrap_err(), ParseError::UnknownKind);
    assert_eq!(parse("[1,2]").unwrap_err(), ParseError::UnknownKind);
    assert_eq!(
        parse(r#"{"type":"ping","ping":{"jitter":1,"latency":2,"progress":0.1}}"#).unwrap_err(),
        ParseError::MissingField(Field::Timestamp)
    );
    assert_eq!(
        parse(r#"{"type":"ping","timestamp":"yesterday","ping":{"jitter":1,"latency":2,"progress":0.1}}"#).unwrap_err(),
        ParseError::InvalidValue(Field::Timestamp)
    );
    assert_eq!(
        parse(r#"{"type":"ping","timestamp":"2024-01-01T00:00:00Z"}"#).unwrap_err(),
        ParseError::MissingField(Field::Ping)
    );
    assert_eq!(
        parse(r#"{"type":"ping","timestamp":"2024-01-01T00:00:00Z","ping":3}"#).unwrap_err(),
        ParseError::InvalidValue(Field::Ping)
    );
    assert_eq!(
        parse(r#"{"type":"ping","timestamp":"2024-01-01T00:00:00Z","ping":{"latency":2,"progress":0.1}}"#).unwrap_err(),
        ParseError::MissingField(Field::Jitter)
    );
    assert_eq!(
        parse(r#"{"type":"ping","timestamp":"2024-01-01T00:00:00Z","ping":{"jitter":1,"latency":"fast","progress":0.1}}"#).unwrap_err(),
        ParseError::InvalidValue(Field::Latency)
    );
    assert_eq!(
        parse(r#"{"type":"ping","timestamp":"2024-01-01T00:00:00Z","ping":{"jitter":1,"latency":2}}"#).unwrap_err(),
        ParseError::MissingField(Field::Progress)
    );
    assert_eq!(
        parse(r#"{"type":"download","timestamp":"2024-01-01T00:00:00Z","download":{"bandwidth":-1,"bytes":1,"elapsed":1,"progress":0.1}}"#).unwrap_err(),
        ParseError::InvalidValue(Field::Bandwidth)
    );
    assert_eq!(
        parse(r#"{"type":"download","timestamp":"2024-01-01T00:00:00Z","download":{"bandwidth":1.5,"bytes":1,"elapsed":1,"progress":0.1}}"#).unwrap_err(),
        ParseError::InvalidValue(Field::Bandwidth)
    );
    assert_eq!(
        parse(r#"{"type":"testStart","timestamp":"2024-01-01T00:00:00Z","server":{"id":1,"host":"h","name":"n","location":"l"}}"#).unwrap_err(),
        ParseError::MissingField(Field::Country)
    );
    assert_eq!(
        parse(r#"{"type":"result","timestamp":"2024-01-01T00:00:00Z","ping":{"jitter":1,"latency":2,"low":1,"high":3}}"#).unwrap_err(),
        ParseError::MissingField(Field::Download)
    );
}

#[test]
fn decode_takes_first_error_in_member_order() {
    let j = parse_json(r#"{"type":"ping","timestamp":"2024-01-01T00:00:00Z","ping":{"jitter":"x"}}"#).unwrap();
    assert_eq!(Record::decode(&j).unwrap_err(), ParseError::InvalidValue(Field::Jitter));
}

#[test]
fn parse_json_reads_numbers() {
    match parse_json(r#"{"a":7,"b":0.5,"c":-2,"d":[true,null,"s"]}"#).unwrap() {
        Json::Object(members) => {
            assert_eq!(members.len(), 4);
            assert_eq!(members[0].0, "a");
            match &members[0].1 {
                Json::Number(n) => {
                    assert_eq!(n.uint, Some(7));
                    assert_eq!(n.real, Some(double(7.0)));
                }
                other => panic!("unexpected {:?}", other),
            }
            match &members[1].1 {
                Json::Number(n) => {
                    assert_eq!(n.uint, None);
                    assert_eq!(n.real, Some(double(0.5)));
                }
                other => panic!("unexpected {:?}", other),
            }
            match &members[2].1 {
                Json::Number(n) => {
                    assert_eq!(n.uint, None);
                    assert_eq!(n.real, Some(double(-2.0)));
                }
                other => panic!("unexpected {:?}", other),
            }
            match &members[3].1 {
                Json::Array(items) => {
                    assert_eq!(items.len(), 3);
                    assert!(matches!(items[0], Json::Bool(true)));
                    assert!(matches!(items[1], Json::Null));
                    assert!(matches!(&items[2], Json::Str(s) if s == "s"));
                }
                other => panic!("unexpected {:?}", other),
            }
        }
        other => panic!("unexpected {:?}", other),
    }
    assert!(parse_json("{").is_none());
}

#[test]
fn scenario_pings_ordered_by_progress() {
    let first_ping = ping_line(1.0, 0.5);
    let second_ping = ping_line(2.0, 0.1);
    let third_ping = ping_line(3.0, 0.9);
    let rs = Records::aggregate(records_of(&[START, &first_ping, &second_ping, &third_ping, RESULT])).unwrap();
    assert_eq!(rs.ping.len(), 3);
    let jitters: Vec<Real> = rs.ping.iter().map(|p| p.ping.jitter).collect();
    assert_eq!(jitters, vec![double(2.0), double(1.0), double(3.0)]);
    let sequences: Vec<Option<u64>> = rs.ping.iter().map(|p| p.sequence).collect();
    assert_eq!(sequences, vec![Some(0), Some(1), Some(2)]);
    assert!(rs.ping.iter().all(|p| p.ping.progress.is_none()));
    assert!(rs.download.is_empty());
    assert!(rs.upload.is_empty());
}

#[test]
fn aggregate_keeps_start_and_result() {
    let start = parse(START).unwrap();
    let result = parse(RESULT).unwrap();
    let rs = Records::aggregate(records_of(&[START, RESULT])).unwrap();
    assert_eq!(debug(&Record::Start(rs.start.clone())), debug(&start));
    assert_eq!(debug(&Record::Result(rs.result.clone())), debug(&result));
}

#[test]
fn equal_progress_keeps_arrival_order() {
    let first_download = download_line(1, 0.5);
    let second_download = download_line(2, 0.25);
    let third_download = download_line(3, 0.5);
    let fourth_download = download_line(4, 0.0);
    let rs = Records::aggregate(records_of(&[START, &first_download, &second_download, &third_download, RESULT, &fourth_download])).unwrap();
    let bytes: Vec<u64> = rs.download.iter().map(|d| d.download.bytes).collect();
    assert_eq!(bytes, vec![4, 2, 1, 3]);
    let sequences: Vec<Option<u64>> = rs.download.iter().map(|d| d.sequence).collect();
    assert_eq!(sequences, vec![Some(0), Some(1), Some(2), Some(3)]);
    assert!(rs.download.iter().all(|d| d.download.progress.is_none()));
}

#[test]
fn aggregate_missing_start_or_result() {
    let p = ping_line(1.0, 0.5);
    assert_eq!(
        Records::aggregate(records_of(&[&p, RESULT])).unwrap_err(),
        AggregateError::Incomplete(RecordKind::Start)
    );
    assert_eq!(
        Records::aggregate(records_of(&[START, &p])).unwrap_err(),
        AggregateError::Incomplete(RecordKind::Result)
    );
    assert_eq!(
        Records::aggregate(records_of(&[&p])).unwrap_err(),
        AggregateError::Incomplete(RecordKind::Start)
    );
    assert_eq!(
        Records::aggregate(Vec::new()).unwrap_err(),
        AggregateError::Incomplete(RecordKind::Start)
    );
}

#[test]
fn scenario_bogus_line_skipped() {
    let p = ping_line(1.0, 0.5);
    let input = lines(&[
        START,
        r#"{"type":"bogus","timestamp":"2024-01-01T00:00:00Z"}"#,
        &p,
        "not json at all",
        RESULT,
    ]);
    assert_eq!(parse_lines(&input).len(), 3);
    let rs = run_outcome(&input, true).unwrap();
    assert_eq!(rs.ping.len(), 1);
    assert_eq!(rs.ping[0].sequence, Some(0));
}

#[test]
fn scenario_no_output() {
    assert_eq!(run_outcome(&Vec::new(), false).unwrap_err(), Error::StreamReadFailed);
    assert_eq!(
        run_outcome(&lines(&["garbage"]), false).unwrap_err(),
        Error::StreamReadFailed
    );
    assert_eq!(
        run_outcome(&Vec::new(), true).unwrap_err(),
        Error::Aggregation(AggregateError::Incomplete(RecordKind::Start))
    );
}

#[test]
fn output_before_abnormal_exit_is_kept() {
    let rs = run_outcome(&lines(&[START, RESULT]), false).unwrap();
    assert_eq!(rs.start.server.id, 4302);
    assert_eq!(
        assemble(records_of(&[START]), false).unwrap_err(),
        Error::Aggregation(AggregateError::Incomplete(RecordKind::Result))
    );
}

#[test]
fn keep_parsed_drops_failures() {
    let kept = keep_parsed(vec![
        Err(ParseError::Syntax),
        parse(START),
        Err(ParseError::UnknownKind),
        parse(RESULT),
    ]);
    assert_eq!(kept.len(), 2);
    assert_eq!(kept[0].get_type(), "start");
    assert_eq!(kept[1].get_type(), "result");
}

#[test]
fn record_kinds_and_tags() {
    let recs = records_of(&[START, &ping_line(1.0, 0.1), &download_line(1, 0.1), RESULT]);
    let tags: Vec<&str> = recs.iter().map(|r| r.get_type()).collect();
    assert_eq!(tags, vec!["start", "ping", "download", "result"]);
    assert_eq!(recs[1].kind(), RecordKind::Ping);
    assert_eq!(RecordKind::Upload.tag(), "upload");
    assert_eq!(Field::PacketLoss.key(), "packetLoss");
}

#[test]
fn speedtest_new_keeps_server() {
    assert_eq!(Speedtest::new(26941).server_id, 26941);
}

fn to_value(j: &Json) -> serde_json::Value {
    match j {
        Json::Null => serde_json::Value::Null,
        Json::Bool(b) => serde_json::Value::Bool(*b),
        Json::Number(n) => match (n.uint, n.real) {
            (Some(u), _) => serde_json::Value::from(u),
            (None, Some(r)) => serde_json::Value::from(f64::from_bits(r.bits)),
            (None, None) => serde_json::Value::Null,
        },
        Json::Str(s) => serde_json::Value::String(s.clone()),
        Json::Array(items) => serde_json::Value::Array(items.iter().map(to_value).collect()),
        Json::Object(members) => serde_json::Value::Object(
            members.iter().map(|(k, v)| (k.clone(), to_value(v))).collect(),
        ),
    }
}

#[test]
fn stored_rows_and_payload_round_trip() {
    let first_ping = ping_line(1.0, 0.5);
    let second_ping = ping_line(2.0, 0.1);
    let first_download = download_line(9, 0.7);
    let rs = Records::aggregate(records_of(&[START, &first_ping, &second_ping, &first_download, RESULT])).unwrap();
    let stored = rs.stored();
    assert_eq!(stored.timestamp.seconds, 1704067200);
    assert_eq!(stored.records.len(), 1 + 2 + 1 + 0 + 1);
    let kinds: Vec<RecordKind> = stored.records.iter().map(|r| r.0).collect();
    assert_eq!(
        kinds,
        vec![RecordKind::Start, RecordKind::Ping, RecordKind::Ping, RecordKind::Download, RecordKind::Result]
    );
    let server = serde_json::to_string(&to_value(&stored.server)).unwrap();
    assert_eq!(
        server,
        r#"{"country":"Italy","host":"speedtest.example.net","id":4302,"location":"Milan","name":"Example"}"#
    );
    let expected = vec![
        Record::Start(rs.start.clone()),
        Record::Ping(rs.ping[0].clone()),
        Record::Ping(rs.ping[1].clone()),
        Record::Download(rs.download[0].clone()),
        Record::Result(rs.result.clone()),
    ];
    for ((kind, payload), wanted) in stored.records.iter().zip(expected.iter()) {
        let direct = Record::decode_payload(*kind, payload).unwrap();
        assert_eq!(debug(&direct), debug(wanted));
        let text = serde_json::to_string(&to_value(payload)).unwrap();
        let reread = parse_json(&text).unwrap();
        let decoded = Record::decode_payload(*kind, &reread).unwrap();
        assert_eq!(debug(&decoded), debug(wanted));
    }
    let ping_text = serde_json::to_string(&to_value(&stored.records[1].1)).unwrap();
    assert_eq!(
        ping_text,
        r#"{"ping":{"jitter":2.0,"latency":12.5},"sequence":0,"timestamp":"2024-01-01T00:00:01Z"}"#
    );
}

#[test]
fn live_decoder_refuses_payload_without_progress() {
    let rs = Records::aggregate(records_of(&[START, &ping_line(1.0, 0.5), RESULT])).unwrap();
    let stored = rs.stored();
    assert_eq!(
        Record::decode_payload(RecordKind::Ping, &stored.records[1].1).unwrap().get_type(),
        "ping"
    );
    assert_eq!(Record::decode(&stored.records[1].1).unwrap_err(), ParseError::UnknownKind);
}

#[test]
fn aggregate_rejects_repeated_start_or_result() {
    assert_eq!(
        Records::aggregate(records_of(&[START, START, RESULT])).unwrap_err(),
        AggregateError::Duplicate(RecordKind::Start)
    );
    assert_eq!(
        Records::aggregate(records_of(&[START, RESULT, RESULT])).unwrap_err(),
        AggregateError::Duplicate(RecordKind::Result)
    );
    assert_eq!(
        Records::aggregate(records_of(&[START, START])).unwrap_err(),
        AggregateError::Incomplete(RecordKind::Result)
    );
    assert_eq!(
        Records::aggregate(records_of(&[RESULT, RESULT])).unwrap_err(),
        AggregateError::Incomplete(RecordKind::Start)
    );
    assert_eq!(
        Records::aggregate(records_of(&[START, RESULT, START, RESULT])).unwrap_err(),
        AggregateError::Duplicate(RecordKind::Start)
    );
    assert_eq!(
        run_outcome(&lines(&[START, RESULT, START]), true).unwrap_err(),
        Error::Aggregation(AggregateError::Duplicate(RecordKind::Start))
    );
}
