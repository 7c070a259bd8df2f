use opensmtpd::message_aggregator::Status;
use opensmtpd::{
    encode_data_line, filter_result_line, handshake_reply_lines, parse_entry, register_line,
    register_ready_line, split_line, AuthResult, Entry, Error, Event, Filter, FilterEntry,
    FilterKind, FilterPhase, FilterResponse, Kind, MailResult, MessageAggregator, Method,
    SmtpStatusCode, SubSystem, TimeVal,
};

#[derive(Default)]
struct SpamGuard {
    connects: u64,
}

impl Filter for SpamGuard {
    fn has_report_link_connect(&self) -> bool {
        true
    }

    fn on_report_link_connect(
        &mut self,
        _entry: &opensmtpd::ReportEntry,
        _rdns: &str,
        _fcrdns: &str,
        _src: &opensmtpd::Address,
        _dest: &opensmtpd::Address,
    ) {
        self.connects += 1;
    }

    fn has_filter_rcpt_to(&self) -> bool {
        true
    }

    fn on_filter_rcpt_to(&mut self, _entry: &FilterEntry, address: &str) -> FilterResponse {
        if address == "spam@example.com" {
            FilterResponse::Reject(SmtpStatusCode::from_number(550))
        } else {
            FilterResponse::Proceed
        }
    }
}

// A rcpt-to handler answering reject with code 550 produces the one
// decision line, echoing the session id and token.
#[test]
fn test_rcpt_to_reject_produces_decision_line() {
    let mut guard = SpamGuard::default();
    let input = b"filter|0.7|1.000001|smtp-in|rcpt-to|ab12|cd34|spam@example.com\n";
    let out = opensmtpd::line(&mut guard, input).unwrap();
    assert_eq!(out.len(), 1);
    assert_eq!(
        out[0],
        b"filter-result|cd34|ab12|reject|550 Requested action not taken: mailbox unavailable\n"
            .to_vec()
    );
}

#[test]
fn test_rcpt_to_proceed_produces_decision_line() {
    let mut guard = SpamGuard::default();
    let input = b"filter|0.7|1.000001|smtp-in|rcpt-to|ab12|cd34|friend@example.com\n";
    let out = opensmtpd::line(&mut guard, input).unwrap();
    assert_eq!(out.len(), 1);
    assert_eq!(out[0], b"filter-result|cd34|ab12|proceed\n".to_vec());
}

#[test]
fn test_report_produces_no_output() {
    let mut guard = SpamGuard::default();
    let input = b"report|0.5|1576146008.060990|smtp-in|link-connect|7641df9771b4ed00|mail.example.org|pass|199.185.178.25:33174|45.77.67.80:25\n";
    let out = opensmtpd::line(&mut guard, input).unwrap();
    assert!(out.is_empty());
    assert_eq!(guard.connects, 1);
}

#[test]
fn test_decode_error_does_not_stop_the_stream() {
    let mut guard = SpamGuard::default();
    assert!(opensmtpd::line(&mut guard, b"report|0.5|oops\n").is_err());
    let out = opensmtpd::line(
        &mut guard,
        b"filter|0.7|1.000001|smtp-in|rcpt-to|ab12|cd34|friend@example.com\n",
    )
    .unwrap();
    assert_eq!(out.len(), 1);
}

#[test]
fn test_handshake_reply_lists_declared_capabilities() {
    let guard = SpamGuard::default();
    let lines = handshake_reply_lines(&guard, SubSystem::SmtpIn);
    assert_eq!(
        lines,
        vec![
            b"register|filter|smtp-in|rcpt-to\n".to_vec(),
            b"register|report|smtp-in|link-connect\n".to_vec(),
            b"register|ready\n".to_vec(),
        ]
    );
}

#[test]
fn test_register_line_forms() {
    assert_eq!(
        register_line(Kind::Report, SubSystem::SmtpOut, "link-tls"),
        b"register|report|smtp-out|link-tls\n".to_vec()
    );
    assert_eq!(register_ready_line(), b"register|ready\n".to_vec());
}

fn filter_entry_of(input: &[u8]) -> FilterEntry {
    match parse_entry(input).unwrap() {
        Entry::V1Filter(f) => f,
        _ => panic!("expected a filter record"),
    }
}

#[test]
fn test_data_line_echo_strips_line_endings() {
    let f = filter_entry_of(b"filter|0.7|1.000001|smtp-in|data-line|ab12|cd34|x\n");
    let out = encode_data_line(&f, b"Subject: hi\r\n");
    assert_eq!(out, b"filter-dataline|cd34|ab12|Subject: hi\n".to_vec());
}

#[test]
fn test_filter_result_line_rewrite() {
    let f = filter_entry_of(b"filter|0.7|1.000001|smtp-in|mail-from|1|2|a@b\n");
    let out = filter_result_line(&f, &FilterResponse::Rewrite(String::from("other@b")));
    assert_eq!(out, b"filter-result|2|1|rewrite|other@b\n".to_vec());
}

#[test]
fn test_data_line_callback_emits_echoes() {
    struct Echoing {}
    impl Filter for Echoing {
        fn has_filter_data_line(&self) -> bool {
            true
        }
        fn on_filter_data_line(&mut self, _entry: &FilterEntry, data_line: &[u8]) -> Vec<Vec<u8>> {
            vec![data_line.to_vec()]
        }
    }
    let mut e = Echoing {};
    let out =
        opensmtpd::line(&mut e, b"filter|0.7|1.000001|smtp-in|data-line|ab12|cd34|hello world\n")
            .unwrap();
    assert_eq!(out, vec![b"filter-dataline|cd34|ab12|hello world\n".to_vec()]);
}

#[test]
fn test_message_aggregator_collects_until_the_dot() {
    let f = filter_entry_of(b"filter|0.7|1.000001|smtp-in|data-line|ab12|cd34|x\n");
    let mut agg = MessageAggregator::new(f);
    assert!(matches!(agg.append(b"X-Junk: yes"), Status::Incomplete));
    assert!(matches!(agg.append(b"."), Status::Okay));
    assert!(matches!(agg.append(b"more"), Status::Error(_)));
    let lines = agg.return_message();
    assert_eq!(lines, vec![b"filter-dataline|cd34|ab12|.\n".to_vec()]);
}

#[test]
fn test_smtp_status_code_text() {
    let c = SmtpStatusCode::from_number(550);
    assert_eq!(c.number, 550);
    assert_eq!(c.text, "Requested action not taken: mailbox unavailable");
    assert_eq!(
        c.to_string(),
        "550 Requested action not taken: mailbox unavailable"
    );
    let unknown = SmtpStatusCode::from_number(299);
    assert_eq!(unknown.text, "");
    assert_eq!(unknown.to_string(), "299 ");
}

#[test]
fn test_timeval_is_zero_padded() {
    let tv = TimeVal {
        sec: 1576146008,
        usec: 60990,
    };
    assert_eq!(tv.to_string(), "1576146008.060990");
    let neg = TimeVal { sec: -5, usec: 1 };
    assert_eq!(neg.to_string(), "-5.000001");
}

#[test]
fn test_split_line_buffers_partial_input() {
    let mut buf: Vec<u8> = b"config|ready".to_vec();
    assert!(split_line(&mut buf).is_none());
    buf.extend_from_slice(b"\nrepo");
    let line1 = split_line(&mut buf).unwrap();
    assert_eq!(line1, b"config|ready\n".to_vec());
    assert_eq!(buf, b"repo".to_vec());
    assert!(split_line(&mut buf).is_none());
}

#[test]
fn test_error_message_forms() {
    assert_eq!(Error::new("boom").as_str(), "boom");
    assert_eq!(Error::from_string(&String::from("x")).as_str(), "x");
    assert_eq!(Error::new_param("timestamp", "malformed").as_str(), "timestamp: malformed");
}

#[test]
fn test_enum_names_round_trip() {
    assert_eq!(Event::from_str(&Event::TxCommit.to_string()), Ok(Event::TxCommit));
    assert_eq!(
        FilterPhase::from_str(&FilterPhase::DataLine.to_string()),
        Ok(FilterPhase::DataLine)
    );
    assert_eq!(MailResult::from_str("permfail"), Ok(MailResult::PermFail));
    assert_eq!(AuthResult::from_str("pass"), Ok(AuthResult::Pass));
    assert_eq!(Method::from_str("HELO"), Ok(Method::Helo));
    assert_eq!(FilterKind::from_str("proc"), Ok(FilterKind::Proc));
    assert_eq!(SubSystem::from_str("smtp-out"), Ok(SubSystem::SmtpOut));
    assert!(Event::from_str("link-warp").is_err());
}

#[test]
fn test_filter_result_line_all_decision_forms() {
    let f = filter_entry_of(b"filter|0.7|1.000001|smtp-in|data|1|2\n");
    assert_eq!(
        filter_result_line(&f, &FilterResponse::Proceed),
        b"filter-result|2|1|proceed\n".to_vec()
    );
    assert_eq!(
        filter_result_line(&f, &FilterResponse::Junk),
        b"filter-result|2|1|junk\n".to_vec()
    );
    assert_eq!(
        filter_result_line(&f, &FilterResponse::Disconnect(SmtpStatusCode::from_number(421))),
        b"filter-result|2|1|disconnect|421 Service is unavailable because the server is shutting down\n"
            .to_vec()
    );
    assert_eq!(
        filter_result_line(&f, &FilterResponse::Report(String::from("spam score 7"))),
        b"filter-result|2|1|report|spam score 7\n".to_vec()
    );
}

#[test]
fn test_short_microseconds_are_read_right_padded() {
    let r = match parse_entry(b"report|0.5|1.5|smtp-in|timeout|1d\n").unwrap() {
        Entry::V1Report(r) => r,
        _ => panic!("expected a report record"),
    };
    assert_eq!(r.timestamp, TimeVal { sec: 1, usec: 500000 });
}

#[test]
fn test_split_line_yields_each_line_in_turn() {
    let mut buf: Vec<u8> = b"a\nbb\nccc".to_vec();
    assert_eq!(split_line(&mut buf), Some(b"a\n".to_vec()));
    assert_eq!(split_line(&mut buf), Some(b"bb\n".to_vec()));
    assert_eq!(split_line(&mut buf), None);
    assert_eq!(buf, b"ccc".to_vec());
}

#[test]
fn test_register_lines_for_renders_enabled_entries_in_order() {
    let caps: Vec<(bool, Kind, &str)> = vec![
        (true, Kind::Filter, "auth"),
        (false, Kind::Filter, "data"),
        (true, Kind::Report, "timeout"),
    ];
    let lines = opensmtpd::register_lines_for(&caps, SubSystem::SmtpIn);
    assert_eq!(
        lines,
        vec![
            b"register|filter|smtp-in|auth\n".to_vec(),
            b"register|report|smtp-in|timeout\n".to_vec(),
            b"register|ready\n".to_vec(),
        ]
    );
}
