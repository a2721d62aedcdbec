use check_domains::probe::{classify, Classification, HandshakeOutcome, SSL_ERROR_SYSCALL};
use check_domains::record::{Record, RecordError};
use check_domains::report::{render, Stream};
use check_domains::text::push_decimal;

fn sample() -> Record {
    Record::new(42, "example.com".to_string(), "7.5".to_string()).unwrap()
}

#[test]
fn describe_shows_domain_rank_and_score() {
    assert_eq!(sample().describe(), "Domain: example.com, Rank = 42, Open Page Rank = 7.5");
}

#[test]
fn success_line_goes_to_standard_stream() {
    let line = render(3, &sample(), Classification::Success).unwrap();
    assert_eq!(line.stream, Stream::Standard);
    assert_eq!(line.text, "[3] ok Domain: example.com, Rank = 42, Open Page Rank = 7.5");
}

#[test]
fn blocked_line_goes_to_diagnostic_stream() {
    let line = render(17, &sample(), Classification::Blocked).unwrap();
    assert_eq!(line.stream, Stream::Diagnostic);
    assert_eq!(line.text, "BLOCKED! domain Domain: example.com, Rank = 42, Open Page Rank = 7.5");
}

#[test]
fn failure_emits_no_line() {
    assert!(render(0, &sample(), Classification::Failure("timed out".to_string())).is_none());
}

#[test]
fn at_most_one_line_per_record() {
    let outcomes = vec![
        HandshakeOutcome::Completed,
        HandshakeOutcome::TlsError { code: SSL_ERROR_SYSCALL, detail: String::new() },
        HandshakeOutcome::ConnectError { detail: "refused".to_string() },
        HandshakeOutcome::TlsError { code: 1, detail: "alert".to_string() },
    ];
    let records: Vec<Record> = (1..=4)
        .map(|r| Record::new(r, format!("d{}.example", r), "0".to_string()).unwrap())
        .collect();
    let lines: Vec<String> = records
        .iter()
        .zip(outcomes)
        .filter_map(|(r, o)| render(9, r, classify(o)).map(|l| l.text))
        .collect();
    assert_eq!(
        lines,
        vec![
            "[9] ok Domain: d1.example, Rank = 1, Open Page Rank = 0".to_string(),
            "BLOCKED! domain Domain: d2.example, Rank = 2, Open Page Rank = 0".to_string(),
        ]
    );
}

#[test]
fn record_rejects_zero_rank_and_empty_domain() {
    assert_eq!(Record::new(0, "x.example".to_string(), "1".to_string()).unwrap_err(), RecordError::ZeroRank);
    assert_eq!(Record::new(0, String::new(), "1".to_string()).unwrap_err(), RecordError::ZeroRank);
    assert_eq!(Record::new(5, String::new(), "1".to_string()).unwrap_err(), RecordError::EmptyDomain);
    let r = Record::new(5, "y.example".to_string(), "2.25".to_string()).unwrap();
    assert_eq!(r.rank(), 5);
    assert_eq!(r.domain(), "y.example");
    assert_eq!(r.score(), "2.25");
}

#[test]
fn decimal_rendering() {
    let mut s = String::from("n=");
    push_decimal(&mut s, 0);
    assert_eq!(s, "n=0");
    let mut s = String::new();
    push_decimal(&mut s, 1234567890);
    assert_eq!(s, "1234567890");
    let mut s = String::new();
    push_decimal(&mut s, usize::MAX);
    assert_eq!(s, usize::MAX.to_string());
    let mut s = String::new();
    push_decimal(&mut s, 10);
    assert_eq!(s, "10");
}
