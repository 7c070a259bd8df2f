use opensmtpd::{
    is_parameter_char, parse_address, parse_entry, parse_filter_auth, parse_handshake, Address,
    Entry, Event, HandshakeNegotiator, SubSystem, TimeVal,
};

#[test]
fn test_valid_handshake_nl() {
    let input = b"config|smtpd-version|6.6.1\nconfig|smtp-session-timeout|300\nconfig|subsystem|smtp-in\nconfig|ready\n";
    let r = parse_handshake(input);
    assert!(r.is_ok());
    let (r, h) = r.unwrap();
    assert_eq!(r, b"");
    assert_eq!(h.smtpd_version, "6.6.1");
    assert_eq!(h.smtp_session_timeout, 300);
    assert_eq!(h.subsystem, SubSystem::SmtpIn);
}

#[test]
fn test_valid_handshake_crnl() {
    let input = b"config|smtpd-version|6.6.1\r\nconfig|smtp-session-timeout|300\r\nconfig|subsystem|smtp-in\r\nconfig|ready\r\n";
    let r = parse_handshake(input);
    assert!(r.is_ok());
    let (r, h) = r.unwrap();
    assert_eq!(r, b"");
    assert_eq!(h.smtpd_version, "6.6.1");
    assert_eq!(h.smtp_session_timeout, 300);
    assert_eq!(h.subsystem, SubSystem::SmtpIn);
}

#[test]
fn test_valid_handshake_over() {
    let input = b"config|smtpd-version|6.6.1\nconfig|smtp-session-timeout|300\nconfig|subsystem|smtp-in\nconfig|ready\nplop";
    let r = parse_handshake(input);
    assert!(r.is_ok());
    let (r, h) = r.unwrap();
    assert_eq!(r, b"plop");
    assert_eq!(h.smtpd_version, "6.6.1");
    assert_eq!(h.smtp_session_timeout, 300);
    assert_eq!(h.subsystem, SubSystem::SmtpIn);
}

#[test]
fn test_invalid_handshakes() {
    let test_vectors = vec![
        "config|smtpd-version|6.6.1\nconfig|smtp-session-timeout|\nconfig|subsystem|smtp-in\nconfig|ready\n",
        "config|smtp-session-timeout|300\nconfig|smtpd-version|6.6.1\nconfig|subsystem|smtp-in\nconfig|ready\n",
        "config|smtpd-version|6.6.1\nconfig|smtp-session-timeout|300\nconfig|subsystem|smtp-in\nconfig|ready",
        "config|smtpd-version|6.6.1\nconfig|smtp-session-timeout|300\nconfig|subsystem|smtp-in\nconfig|ready\r",
    ];
    for input in test_vectors {
        let r = parse_handshake(input.as_bytes());
        assert!(r.is_err());
    }
}

#[test]
fn test_report_link_connect() {
    let input = b"report|0.5|1576146008.06099|smtp-in|link-connect|7641df9771b4ed00|mail.openbsd.org|pass|199.185.178.25:33174|45.77.67.80:25\n";
    let res = parse_entry(input);
    assert!(res.is_ok());
    let res = match res.unwrap() {
        Entry::V1Report(r) => r,
        _ => {
            panic!("expected a report record");
        }
    };
    assert_eq!(res.version, String::from("0.5"));
    assert_eq!(
        res.timestamp,
        TimeVal {
            sec: 1576146008,
            usec: 60990
        }
    );
    assert_eq!(res.subsystem, SubSystem::SmtpIn);
    assert_eq!(res.event, Event::LinkConnect);
    assert_eq!(
        res.session_id,
        u64::from_str_radix("7641df9771b4ed00", 16).unwrap()
    );
    assert_eq!(res.params.len(), 4);
}

#[test]
fn test_valid_parameter_char() {
    let char_lst = "a0.:-_/";
    for c in char_lst.bytes() {
        assert!(is_parameter_char(c));
    }
}

#[test]
fn test_invalid_parameter_char() {
    let char_lst = "|\n";
    for c in char_lst.bytes() {
        assert!(!is_parameter_char(c));
    }
}

#[test]
fn test_unix_socket() {
    let res = parse_address(b"unix:/var/something.sock|");
    assert!(res.is_ok());
    let (addr, i) = res.unwrap();
    assert_eq!(i, b"|");
    match addr {
        Address::UnixSocket(addr) => {
            assert_eq!(addr, "/var/something.sock");
        }
        Address::Ip(_) => panic!("expected a local socket"),
    };
}

#[test]
fn test_ip_address_kept_textual() {
    let res = parse_address(b"199.185.178.25:33174|");
    assert!(res.is_ok());
    let (addr, i) = res.unwrap();
    assert_eq!(i, b"|");
    match addr {
        Address::Ip(addr) => {
            assert_eq!(addr, "199.185.178.25:33174");
        }
        Address::UnixSocket(_) => panic!("expected a socket address"),
    };
}

fn auth_line(tail: &str) -> String {
    format!("filter|1|0.1|smtp-in|auth|aa|bb{}", tail)
}

#[test]
fn test_valid_parse_filter_auth() {
    let test_vectors = vec![
        ("|derp\n", "derp"),
        ("|derp.derpson@example.com\r\n", "derp.derpson@example.com"),
    ];
    for (test, ref_auth) in test_vectors {
        let line = auth_line(test);
        let res = parse_entry(line.as_bytes());
        assert!(res.is_ok());
        match res.unwrap() {
            Entry::V1Filter(f) => {
                let auth = parse_filter_auth(&f.params);
                assert!(auth.is_ok());
                assert_eq!(auth.unwrap(), ref_auth.to_string());
            }
            _ => panic!("expected a filter record"),
        }
    }
}

#[test]
fn test_invalid_parse_filter_auth() {
    let test_vectors = vec!["|\n", "|\r\n", "|derp", "|derp|derpson\n"];
    for test in test_vectors {
        let line = auth_line(test);
        let failed = match parse_entry(line.as_bytes()) {
            Err(_) => true,
            Ok(Entry::V1Filter(f)) => parse_filter_auth(&f.params).is_err(),
            Ok(_) => false,
        };
        assert!(failed);
    }
}

#[test]
fn test_malformed_line_does_not_stop_the_next() {
    let bad = parse_entry(b"report|0.5|notatimestamp|smtp-in|link-connect|7641df9771b4ed00\n");
    assert!(bad.is_err());
    let good = parse_entry(b"report|0.5|1.000001|smtp-in|timeout|1d\n");
    assert!(good.is_ok());
}

#[test]
fn test_unknown_event_is_an_error() {
    let res = parse_entry(b"report|0.5|1.000001|smtp-in|link-warp|1d\n");
    assert!(res.is_err());
}

#[test]
fn test_filter_token_before_session_id() {
    let res = parse_entry(b"filter|0.7|2.000003|smtp-in|mail-from|ab12|cd34|someone@example.org\n");
    assert!(res.is_ok());
    match res.unwrap() {
        Entry::V1Filter(f) => {
            assert_eq!(f.token, 0xab12);
            assert_eq!(f.session_id, 0xcd34);
            assert_eq!(f.params, vec![String::from("someone@example.org")]);
        }
        _ => panic!("expected a filter record"),
    }
}

#[test]
fn test_data_line_payload_is_verbatim() {
    let res = parse_entry(b"filter|0.7|2.000003|smtp-in|data-line|ab12|cd34|From: a|b c\n");
    assert!(res.is_ok());
    match res.unwrap() {
        Entry::V1Filter(f) => {
            assert_eq!(f.data_line, Some(b"From: a|b c".to_vec()));
            assert!(f.params.is_empty());
        }
        _ => panic!("expected a filter record"),
    }
}

#[test]
fn test_negative_timestamp_seconds() {
    let res = parse_entry(b"report|0.5|-5.000001|smtp-in|timeout|1d\n");
    assert!(res.is_ok());
    match res.unwrap() {
        Entry::V1Report(r) => {
            assert_eq!(r.timestamp, TimeVal { sec: -5, usec: 1 });
        }
        _ => panic!("expected a report record"),
    }
}

#[test]
fn test_incomplete_line_is_refused() {
    let res = parse_entry(b"report|0.5|1.000001|smtp-in|timeout|1d");
    assert!(res.is_err());
}

#[test]
fn test_encode_entry_round_trips_a_report() {
    let line = b"report|0.5|1576146008.060990|smtp-in|link-connect|7641df9771b4ed00|mail.example.org|pass|199.185.178.25:33174|45.77.67.80:25\n";
    let e = parse_entry(line).unwrap();
    let encoded = opensmtpd::encode_entry(&e);
    assert_eq!(encoded, line.to_vec());
    assert!(parse_entry(&encoded).is_ok());
}

#[test]
fn test_encode_entry_round_trips_a_filter_request() {
    let line = b"filter|0.7|2.000003|smtp-out|mail-from|ab12|cd34|someone@example.org\n";
    let e = parse_entry(line).unwrap();
    let encoded = opensmtpd::encode_entry(&e);
    assert_eq!(encoded, line.to_vec());
}

#[test]
fn test_encode_entry_round_trips_a_data_line() {
    let line = b"filter|0.7|2.000003|smtp-in|data-line|ab12|cd34|body with | pipes\n";
    let e = parse_entry(line).unwrap();
    let encoded = opensmtpd::encode_entry(&e);
    assert_eq!(encoded, line.to_vec());
}

#[test]
fn test_link_connect_parameters() {
    let input = b"report|0.5|1576146008.060990|smtp-in|link-connect|7641df9771b4ed00|mail.example.org|pass|199.185.178.25:33174|45.77.67.80:25\n";
    let r = match parse_entry(input).unwrap() {
        Entry::V1Report(r) => r,
        _ => panic!("expected a report record"),
    };
    let (rdns, fcrdns, src, dest) = opensmtpd::parse_report_link_connect(&r.params).unwrap();
    assert_eq!(rdns, "mail.example.org");
    assert_eq!(fcrdns, "pass");
    assert!(matches!(src, Address::Ip(s) if s == "199.185.178.25:33174"));
    assert!(matches!(dest, Address::Ip(s) if s == "45.77.67.80:25"));
}

#[test]
fn test_tx_commit_parameters() {
    let input = b"report|0.5|1.000001|smtp-in|tx-commit|9|deadbeef|4096\n";
    let r = match parse_entry(input).unwrap() {
        Entry::V1Report(r) => r,
        _ => panic!("expected a report record"),
    };
    let (id, size) = opensmtpd::parse_report_tx_commit(&r.params).unwrap();
    assert_eq!(id, "deadbeef");
    assert_eq!(size, 4096);
    let bad = vec![String::from("deadbeef"), String::from("not-a-size")];
    assert!(opensmtpd::parse_report_tx_commit(&bad).is_err());
}

#[test]
fn test_session_id_too_large_is_an_error() {
    let res = parse_entry(b"report|0.5|1.000001|smtp-in|timeout|11112222333344445\n");
    assert!(res.is_err());
}

#[test]
fn test_negotiator_steps_through_the_handshake() {
    let mut n = HandshakeNegotiator::new();
    assert_eq!(n.feed_line(b"config|smtpd-version|6.6.1\n").unwrap(), false);
    assert_eq!(n.feed_line(b"config|smtp-session-timeout|300\n").unwrap(), false);
    assert_eq!(n.feed_line(b"config|subsystem|smtp-in\n").unwrap(), false);
    assert_eq!(n.feed_line(b"config|ready\n").unwrap(), true);
    let h = n.result();
    assert_eq!(h.smtpd_version, "6.6.1");
    assert_eq!(h.smtp_session_timeout, 300);
    assert_eq!(h.subsystem, SubSystem::SmtpIn);
}

#[test]
fn test_negotiator_rejects_lines_out_of_order() {
    let mut n = HandshakeNegotiator::new();
    assert!(n.feed_line(b"config|smtp-session-timeout|300\n").is_err());
    assert_eq!(n.feed_line(b"config|smtpd-version|6.6.1\n").unwrap(), false);
    assert!(n.feed_line(b"config|ready\n").is_err());
}

#[test]
fn test_non_ascii_parameter_bytes_are_accepted() {
    assert!(is_parameter_char(0xa0));
    assert!(is_parameter_char(0xc3));
    assert!(!is_parameter_char(0x9f));
    let res = parse_entry("report|0.5|1.000001|smtp-in|link-greeting|1d|caf\u{e9}.example\n".as_bytes());
    assert!(res.is_ok());
    match res.unwrap() {
        Entry::V1Report(r) => {
            assert_eq!(r.params, vec![String::from("caf\u{e9}.example")]);
        }
        _ => panic!("expected a report record"),
    }
}

#[test]
fn test_invalid_utf8_parameter_is_a_decode_error() {
    let mut line: Vec<u8> = b"report|0.5|1.000001|smtp-in|link-greeting|1d|".to_vec();
    line.push(0xa0);
    line.push(b'\n');
    assert!(parse_entry(&line).is_err());
}

#[test]
fn test_encode_entry_round_trips_non_ascii_parameters() {
    let line = "report|0.5|1.000001|smtp-in|link-greeting|1d|caf\u{e9}.example\n";
    let e = parse_entry(line.as_bytes()).unwrap();
    let encoded = opensmtpd::encode_entry(&e);
    assert_eq!(encoded, line.as_bytes().to_vec());
}
