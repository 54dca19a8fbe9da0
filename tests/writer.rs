use chrono::{TimeZone, Utc};
use metrics_writer::json::encode_record;
use metrics_writer::timestamp::Timestamp;
use metrics_writer::writer::{response_outcome, AddError, MetricsWriter, SendError};
use std::collections::BTreeMap;

fn labels(pairs: &[(&str, &str)]) -> BTreeMap<String, String> {
    let mut m = BTreeMap::new();
    for (k, v) in pairs {
        m.insert(k.to_string(), v.to_string());
    }
    m
}

fn at(ms: i64) -> Timestamp {
    Timestamp::from_millis(Utc.timestamp_millis_opt(ms).unwrap().timestamp_millis())
}

#[test]
fn test_metric() {
    let mut writer = MetricsWriter::new("localhost:8428");

    writer
        .add(
            "up",
            &BTreeMap::from([
                ("job".to_string(), "node_exporter".to_string()),
                ("instance".to_string(), "localhost:9100".to_string()),
            ]),
            &[0, 0, 0],
            &[at(1549891472010), at(1549891487724), at(1549891503438)],
        )
        .unwrap();

    writer
        .add(
            "up",
            &BTreeMap::from([
                ("job".to_string(), "prometheus".to_string()),
                ("instance".to_string(), "localhost:9090".to_string()),
            ]),
            &[1, 1, 1],
            &[at(1549891461511), at(1549891476511), at(1549891491511)],
        )
        .unwrap();

    let payload = writer.take_payload().unwrap();
    let expected = String::new()
        + r#"{"metric":{"__name__":"up","instance":"localhost:9100","job":"node_exporter"},"values":[0,0,0],"timestamps":[1549891472010,1549891487724,1549891503438]}"#
        + "\r\n"
        + r#"{"metric":{"__name__":"up","instance":"localhost:9090","job":"prometheus"},"values":[1,1,1],"timestamps":[1549891461511,1549891476511,1549891491511]}"#
        + "\r\n";
    assert_eq!(payload, expected);
}

#[test]
fn single_record_line() {
    let mut writer = MetricsWriter::new("localhost:8428");
    writer
        .add(
            "up",
            &labels(&[("job", "node_exporter"), ("instance", "localhost:9100")]),
            &[0, 0, 0],
            &[at(1549891472010), at(1549891487724), at(1549891503438)],
        )
        .unwrap();
    assert_eq!(
        writer.take_payload().unwrap(),
        "{\"metric\":{\"__name__\":\"up\",\"instance\":\"localhost:9100\",\"job\":\"node_exporter\"},\"values\":[0,0,0],\"timestamps\":[1549891472010,1549891487724,1549891503438]}\r\n"
    );
}

#[test]
fn lines_keep_call_order() {
    let mut writer = MetricsWriter::new("h:1");
    for i in 0..4i64 {
        writer.add("m", &labels(&[]), &[i], &[at(i)]).unwrap();
    }
    let payload = writer.take_payload().unwrap();
    let lines: Vec<&str> = payload.split_terminator("\r\n").collect();
    assert_eq!(lines.len(), 4);
    assert!(payload.ends_with("\r\n"));
    for (i, line) in lines.iter().enumerate() {
        assert_eq!(
            *line,
            format!("{{\"metric\":{{\"__name__\":\"m\"}},\"values\":[{}],\"timestamps\":[{}]}}", i, i)
        );
    }
}

#[test]
fn labels_sorted_whatever_insertion_order() {
    let mut first = BTreeMap::new();
    first.insert("b".to_string(), "2".to_string());
    first.insert("ab".to_string(), "3".to_string());
    first.insert("a".to_string(), "1".to_string());
    let mut second = BTreeMap::new();
    second.insert("a".to_string(), "1".to_string());
    second.insert("b".to_string(), "2".to_string());
    second.insert("ab".to_string(), "3".to_string());
    let mut w1 = MetricsWriter::new("h:1");
    let mut w2 = MetricsWriter::new("h:1");
    w1.add("x", &first, &[5], &[at(7)]).unwrap();
    w2.add("x", &second, &[5], &[at(7)]).unwrap();
    let p1 = w1.take_payload().unwrap();
    assert_eq!(p1, w2.take_payload().unwrap());
    assert_eq!(
        p1,
        "{\"metric\":{\"__name__\":\"x\",\"a\":\"1\",\"ab\":\"3\",\"b\":\"2\"},\"values\":[5],\"timestamps\":[7]}\r\n"
    );
}

#[test]
fn same_arguments_give_identical_lines() {
    let mut writer = MetricsWriter::new("h:1");
    let l = labels(&[("k", "v")]);
    writer.add("dup", &l, &[3, -4], &[at(10), at(20)]).unwrap();
    writer.add("dup", &l, &[3, -4], &[at(10), at(20)]).unwrap();
    let payload = writer.take_payload().unwrap();
    let lines: Vec<&str> = payload.split_terminator("\r\n").collect();
    assert_eq!(lines.len(), 2);
    assert_eq!(lines[0], lines[1]);
    assert_eq!(
        lines[0],
        "{\"metric\":{\"__name__\":\"dup\",\"k\":\"v\"},\"values\":[3,-4],\"timestamps\":[10,20]}"
    );
}

#[test]
fn empty_writer_has_no_payload() {
    let mut writer = MetricsWriter::new("localhost:8428");
    assert!(writer.take_payload().is_none());
}

#[test]
fn take_payload_empties_the_buffer() {
    let mut writer = MetricsWriter::new("localhost:8428");
    writer.add("a", &labels(&[]), &[1], &[at(1)]).unwrap();
    assert!(writer.take_payload().is_some());
    assert!(writer.take_payload().is_none());
}

#[test]
fn length_mismatch_is_refused() {
    let mut writer = MetricsWriter::new("localhost:8428");
    let r = writer.add("a", &labels(&[]), &[1, 2], &[at(1)]);
    assert_eq!(r, Err(AddError::LengthMismatch));
    assert!(writer.take_payload().is_none());
}

#[test]
fn strings_are_escaped() {
    let mut writer = MetricsWriter::new("h:1");
    writer
        .add("a\"b", &labels(&[("p\\q", "line\nbreak")]), &[], &[])
        .unwrap();
    assert_eq!(
        writer.take_payload().unwrap(),
        "{\"metric\":{\"__name__\":\"a\\\"b\",\"p\\\\q\":\"line\\nbreak\"},\"values\":[],\"timestamps\":[]}\r\n"
    );
}

#[test]
fn import_url_from_host() {
    let writer = MetricsWriter::new("localhost:8428");
    assert_eq!(writer.url(), "http://localhost:8428/api/v1/import");
}

#[test]
fn encode_record_exact_text() {
    let pairs = vec![("\"a\"".to_string(), "\"1\"".to_string())];
    let line = encode_record("\"n\"", &pairs, &[i64::MIN, 0, 42], &[i64::MAX]);
    assert_eq!(
        line,
        "{\"metric\":{\"__name__\":\"n\",\"a\":\"1\"},\"values\":[-9223372036854775808,0,42],\"timestamps\":[9223372036854775807]}\r\n"
    );
}

#[test]
fn millis_round_trip() {
    for ms in [0i64, 1, 999, 1000, 1549891472010, -1, -999, -1000, -1001, i64::MAX, i64::MIN] {
        let t = Timestamp::from_millis(ms);
        assert_eq!(t.timestamp_millis(), ms);
        assert!(t.subsec_nanos() < 1_000_000_000);
    }
    let t = Timestamp::from_millis(-1);
    assert_eq!(t.secs(), -1);
    assert_eq!(t.subsec_nanos(), 999_000_000);
}

#[test]
fn timestamp_matches_chrono_millis() {
    let dt = Utc.timestamp_millis_opt(1549891503438).unwrap();
    let t = Timestamp::from_parts(dt.timestamp(), dt.timestamp_subsec_nanos()).unwrap();
    assert_eq!(t.timestamp_millis(), 1549891503438);
}

#[test]
fn from_parts_drops_sub_millisecond() {
    let t = Timestamp::from_parts(1, 999_999_999).unwrap();
    assert_eq!(t.timestamp_millis(), 1999);
    assert!(Timestamp::from_parts(0, 1_000_000_000).is_none());
    assert!(Timestamp::from_parts(i64::MAX, 0).is_none());
}

#[test]
fn status_500_is_unexpected() {
    match response_outcome(Ok(500)) {
        Err(SendError::InvalidResponseStatusCode(code)) => assert_eq!(code, 500),
        other => panic!("unexpected outcome {:?}", other),
    }
    assert!(matches!(
        response_outcome(Ok(300)),
        Err(SendError::InvalidResponseStatusCode(300))
    ));
    assert!(matches!(
        response_outcome(Ok(199)),
        Err(SendError::InvalidResponseStatusCode(199))
    ));
}

#[test]
fn success_statuses_are_ok() {
    assert!(response_outcome(Ok(200)).is_ok());
    assert!(response_outcome(Ok(204)).is_ok());
    assert!(response_outcome(Ok(299)).is_ok());
}

#[test]
fn transport_error_is_wrapped() {
    let err = reqwest::Client::new().get("not a url").build().unwrap_err();
    let text = err.to_string();
    match response_outcome(Err(err)) {
        Err(SendError::RequestError(e)) => assert_eq!(e.to_string(), text),
        other => panic!("unexpected outcome {:?}", other),
    }
}
