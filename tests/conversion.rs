use junitxml2subunit::accumulator::{
    convert, Accumulator, ConvertError, ReportEvent, TestCaseAttributes,
};
use junitxml2subunit::encode::{encode_packet, encode_stream};
use junitxml2subunit::identity::derive_test_id;
use junitxml2subunit::markup::{find_attribute, is_testcase, start_event, time_attribute, Attribute};
use junitxml2subunit::packet::{FileName, Packet, Status};

const EPOCH: i64 = 1_600_000_000_000_000_000;
const SECOND: i64 = 1_000_000_000;

fn bytes(s: &str) -> Option<Vec<u8>> {
    Some(s.as_bytes().to_vec())
}

fn testcase(classname: Option<&str>, name: Option<&str>, nanos: Option<i64>) -> ReportEvent {
    ReportEvent::TestCase(TestCaseAttributes {
        name: name.and_then(bytes),
        classname: classname.and_then(bytes),
        id: None,
        duration: nanos,
    })
}

fn attachment(p: &Packet) -> Option<(FileName, Vec<u8>)> {
    p.attachment.as_ref().map(|a| (a.name, a.content.clone()))
}

#[test]
fn identifier_class_and_name() {
    let r = derive_test_id(&bytes("n"), &bytes("C"), &None);
    assert_eq!(r, bytes("C.n"));
}

#[test]
fn identifier_id_only() {
    let r = derive_test_id(&None, &None, &bytes("7"));
    assert_eq!(r, bytes("7"));
}

#[test]
fn identifier_class_and_id() {
    let r = derive_test_id(&None, &bytes("C"), &bytes("7"));
    assert_eq!(r, bytes("C.7"));
}

#[test]
fn identifier_name_wins_over_id() {
    let r = derive_test_id(&bytes("n"), &bytes("C"), &bytes("7"));
    assert_eq!(r, bytes("C.n"));
}

#[test]
fn identifier_class_alone_and_name_alone() {
    assert_eq!(derive_test_id(&None, &bytes("C"), &None), bytes("C"));
    assert_eq!(derive_test_id(&bytes("n"), &None, &None), bytes("n"));
    assert_eq!(derive_test_id(&bytes("n"), &None, &bytes("7")), bytes("7"));
}

#[test]
fn identifier_absent() {
    assert_eq!(derive_test_id(&None, &None, &None), None);
}

#[test]
fn success_without_text_has_no_attachment() {
    let events = vec![testcase(Some("C"), Some("n"), Some(1_500_000_000))];
    let pk = convert(EPOCH, &events).unwrap();
    assert_eq!(pk.len(), 2);
    assert_eq!(pk[0].status, Status::InProgress);
    assert_eq!(pk[0].test_id, b"C.n".to_vec());
    assert_eq!(pk[0].timestamp, EPOCH);
    assert_eq!(pk[1].status, Status::Success);
    assert_eq!(pk[1].timestamp, EPOCH + 1_500_000_000);
    assert!(pk[1].attachment.is_none());
}

#[test]
fn success_with_text_attaches_stdout() {
    let events = vec![
        testcase(Some("C"), Some("n"), Some(1_500_000_000)),
        ReportEvent::Text(b"first".to_vec()),
        ReportEvent::Text(Vec::new()),
        ReportEvent::Text(b"captured".to_vec()),
    ];
    let pk = convert(EPOCH, &events).unwrap();
    assert_eq!(pk.len(), 2);
    assert_eq!(pk[1].status, Status::Success);
    assert_eq!(attachment(&pk[1]), Some((FileName::Stdout, b"captured".to_vec())));
}

#[test]
fn failure_message_flushes_traceback() {
    let events = vec![
        testcase(Some("C"), Some("n"), Some(SECOND)),
        ReportEvent::Failure(bytes("boom")),
        ReportEvent::Text(b"ignored".to_vec()),
    ];
    let pk = convert(EPOCH, &events).unwrap();
    assert_eq!(pk.len(), 2);
    assert_eq!(pk[1].status, Status::Fail);
    assert_eq!(pk[1].timestamp, EPOCH + SECOND);
    assert_eq!(attachment(&pk[1]), Some((FileName::Traceback, b"boom".to_vec())));
}

#[test]
fn failure_without_message_takes_text_as_traceback() {
    let events = vec![
        testcase(Some("C"), Some("n"), Some(SECOND)),
        ReportEvent::Failure(None),
        ReportEvent::Text(b"trace".to_vec()),
    ];
    let pk = convert(EPOCH, &events).unwrap();
    assert_eq!(pk[1].status, Status::Fail);
    assert_eq!(attachment(&pk[1]), Some((FileName::Traceback, b"trace".to_vec())));
}

#[test]
fn skipped_message_and_text_reason() {
    let events = vec![
        testcase(Some("C"), Some("a"), Some(SECOND)),
        ReportEvent::Skipped(bytes("later")),
        testcase(Some("C"), Some("b"), Some(SECOND)),
        ReportEvent::Skipped(None),
        ReportEvent::Text(b"why".to_vec()),
        testcase(Some("C"), Some("c"), Some(SECOND)),
        ReportEvent::Skipped(None),
    ];
    let pk = convert(EPOCH, &events).unwrap();
    assert_eq!(pk.len(), 6);
    assert_eq!(pk[1].status, Status::Skip);
    assert_eq!(attachment(&pk[1]), Some((FileName::Reason, b"later".to_vec())));
    assert_eq!(pk[3].status, Status::Skip);
    assert_eq!(attachment(&pk[3]), Some((FileName::Reason, b"why".to_vec())));
    assert_eq!(pk[5].status, Status::Skip);
    assert!(pk[5].attachment.is_none());
}

#[test]
fn outcome_outside_a_test_is_ignored() {
    let events = vec![
        ReportEvent::Failure(bytes("stray")),
        ReportEvent::Text(b"stray".to_vec()),
    ];
    let pk = convert(EPOCH, &events).unwrap();
    assert!(pk.is_empty());
}

#[test]
fn missing_time_exit_code_two() {
    let events = vec![
        testcase(Some("C"), Some("a"), Some(SECOND)),
        testcase(Some("C"), Some("b"), None),
    ];
    let r = convert(EPOCH, &events);
    assert_eq!(r.unwrap_err(), ConvertError::MissingTime);
    assert_eq!(ConvertError::MissingTime.exit_code(), 2);
    assert_eq!(ConvertError::MissingTime.message(), "There is no time attribute on a testcase");
}

#[test]
fn missing_identifier_exit_code_three() {
    let events = vec![testcase(None, None, Some(SECOND))];
    let r = convert(EPOCH, &events);
    assert_eq!(r.unwrap_err(), ConvertError::MissingIdentifier);
    assert_eq!(ConvertError::MissingIdentifier.exit_code(), 3);
}

#[test]
fn missing_time_reported_before_identifier() {
    let events = vec![testcase(None, None, None)];
    assert_eq!(convert(EPOCH, &events).unwrap_err(), ConvertError::MissingTime);
}

#[test]
fn clock_overflow_is_an_error() {
    let events = vec![testcase(Some("C"), Some("n"), Some(i64::MAX))];
    let r = convert(EPOCH, &events);
    assert_eq!(r.unwrap_err(), ConvertError::ClockOverflow);
    assert_eq!(ConvertError::ClockOverflow.exit_code(), 2);
}

#[test]
fn step_error_leaves_state_unchanged() {
    let mut acc = Accumulator::new(EPOCH);
    let out = acc.step(&testcase(Some("C"), Some("a"), Some(SECOND))).unwrap();
    assert_eq!(out.len(), 1);
    assert!(acc.step(&testcase(None, None, Some(SECOND))).is_err());
    assert_eq!(acc.cursor, EPOCH + SECOND);
    let tail = acc.finish();
    assert_eq!(tail.len(), 1);
    assert_eq!(tail[0].test_id, b"C.a".to_vec());
}

#[test]
fn end_of_document_flushes_success() {
    let mut acc = Accumulator::new(EPOCH);
    let out = acc.step(&testcase(Some("C"), Some("n"), Some(SECOND))).unwrap();
    assert_eq!(out.len(), 1);
    assert_eq!(out[0].status, Status::InProgress);
    let tail = acc.finish();
    assert_eq!(tail.len(), 1);
    assert_eq!(tail[0].status, Status::Success);
    assert_eq!(tail[0].timestamp, EPOCH + SECOND);
    assert!(acc.finish().is_empty());
}

#[test]
fn empty_report_emits_nothing() {
    assert!(convert(EPOCH, &Vec::new()).unwrap().is_empty());
}

#[test]
fn round_trip_two_tests() {
    let events = vec![
        testcase(Some("T"), Some("a"), Some(500_000_000)),
        testcase(Some("T"), Some("b"), Some(SECOND)),
        ReportEvent::Failure(bytes("x")),
    ];
    let pk = convert(EPOCH, &events).unwrap();
    assert_eq!(pk.len(), 4);
    assert_eq!((pk[0].status, pk[0].test_id.clone(), pk[0].timestamp), (Status::InProgress, b"T.a".to_vec(), EPOCH));
    assert_eq!((pk[1].status, pk[1].test_id.clone(), pk[1].timestamp), (Status::Success, b"T.a".to_vec(), EPOCH + 500_000_000));
    assert!(pk[1].attachment.is_none());
    assert_eq!((pk[2].status, pk[2].test_id.clone(), pk[2].timestamp), (Status::InProgress, b"T.b".to_vec(), EPOCH + 500_000_000));
    assert_eq!((pk[3].status, pk[3].test_id.clone(), pk[3].timestamp), (Status::Fail, b"T.b".to_vec(), EPOCH + 1_500_000_000));
    assert_eq!(attachment(&pk[3]), Some((FileName::Traceback, b"x".to_vec())));
}

#[test]
fn timeline_is_back_to_back() {
    let events = vec![
        testcase(Some("T"), Some("a"), Some(250)),
        ReportEvent::Text(b"out".to_vec()),
        testcase(Some("T"), Some("b"), Some(0)),
        ReportEvent::Skipped(bytes("r")),
        testcase(Some("T"), Some("c"), Some(750)),
    ];
    let pk = convert(EPOCH, &events).unwrap();
    assert_eq!(pk.len(), 6);
    assert_eq!(pk[0].timestamp, EPOCH);
    for k in 0..pk.len() {
        assert_eq!(pk[k].status == Status::InProgress, k % 2 == 0);
        if k % 2 == 1 {
            assert_eq!(pk[k].test_id, pk[k - 1].test_id);
        } else if k > 0 {
            assert_eq!(pk[k].timestamp, pk[k - 1].timestamp);
        }
    }
    assert_eq!(pk[5].timestamp, EPOCH + 1000);
}

fn attr(k: &str, v: &str) -> Attribute {
    Attribute { key: k.as_bytes().to_vec(), value: v.as_bytes().to_vec() }
}

#[test]
fn start_tags_become_events() {
    let attrs = vec![attr("classname", "C"), attr("name", "n"), attr("time", "1.5"), attr("name", "other")];
    assert!(is_testcase(b"testcase"));
    assert!(!is_testcase(b"testsuite"));
    assert_eq!(time_attribute(&attrs), bytes("1.5"));
    assert_eq!(find_attribute(&attrs, b"name"), bytes("n"));
    assert_eq!(find_attribute(&attrs, b"id"), None);
    match start_event(b"testcase", &attrs, Some(7)) {
        Some(ReportEvent::TestCase(a)) => {
            assert_eq!(a.name, bytes("n"));
            assert_eq!(a.classname, bytes("C"));
            assert_eq!(a.id, None);
            assert_eq!(a.duration, Some(7));
        }
        _ => panic!("expected a testcase event"),
    }
    let msg = vec![attr("message", "m")];
    assert!(matches!(start_event(b"skipped", &msg, None), Some(ReportEvent::Skipped(Some(m))) if m == b"m".to_vec()));
    assert!(matches!(start_event(b"failure", &msg, None), Some(ReportEvent::Failure(Some(_)))));
    assert!(matches!(start_event(b"error", &Vec::new(), None), Some(ReportEvent::Failure(None))));
    assert!(start_event(b"testsuite", &msg, None).is_none());
}

#[test]
fn packets_encode_as_subunit() {
    let events = vec![
        testcase(Some("T"), Some("a"), Some(SECOND)),
        ReportEvent::Failure(bytes("boom")),
    ];
    let pk = convert(EPOCH, &events).unwrap();
    let start = encode_packet(&pk[0]).unwrap();
    let stop = encode_packet(&pk[1]).unwrap();
    assert_eq!(start[0], 0xb3);
    assert_eq!(stop[0], 0xb3);
    assert_ne!(start, stop);
    assert!(stop.windows(4).any(|w| w == b"boom"));
    assert!(stop.windows(9).any(|w| w == b"traceback"));
    assert!(stop.windows(10).any(|w| w == b"text/plain"));
    assert!(start.windows(3).any(|w| w == b"T.a"));
    let all = encode_stream(&pk).unwrap();
    let mut joined = start.clone();
    joined.extend_from_slice(&stop);
    assert_eq!(all, joined);
}

#[test]
fn oversized_identifier_is_not_encoded() {
    let p = Packet::start(vec![b'x'; 1_000_001], EPOCH);
    assert!(encode_packet(&p).is_none());
}

#[test]
fn invalid_utf8_identifier_is_not_encoded() {
    let p = Packet::start(vec![0xff, 0xfe], EPOCH);
    assert!(encode_packet(&p).is_none());
    let q = Packet::start(b"T.a".to_vec(), EPOCH);
    assert!(encode_stream(&vec![q.clone(), p]).is_none());
    assert!(encode_stream(&vec![q]).is_some());
}

#[test]
fn open_test_survives_a_failing_step() {
    let mut acc = Accumulator::new(EPOCH);
    acc.step(&testcase(Some("T"), Some("a"), Some(SECOND))).unwrap();
    let err = acc.step(&testcase(Some("T"), Some("b"), None)).unwrap_err();
    assert_eq!(err, ConvertError::MissingTime);
    let tail = acc.finish();
    assert_eq!(tail.len(), 1);
    assert_eq!(tail[0].status, Status::Success);
    assert_eq!(tail[0].test_id, b"T.a".to_vec());
    assert_eq!(tail[0].timestamp, EPOCH + SECOND);
}
