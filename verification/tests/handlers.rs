use opensmtpd::{
    parse_entry, Callback, Entry, Event, EventHandler, FilterPhase, Handler, Kind, MatchEvent,
    NullOutput, SubSystem, Version,
};

struct NoContext;

type Cb = Callback<fn(&Entry), fn(&NoContext, &Entry), fn(&NoContext, &Entry) -> NoContext>;

#[test]
fn test_eventhandler_build_noctx() {
    let cb: Cb = Callback::NoCtx(|_entry: &Entry| {});
    EventHandler::new("Any", cb);
}

#[test]
fn test_eventhandler_build_ctx() {
    let cb: Cb = Callback::Ctx(|_context: &NoContext, _entry: &Entry| {});
    EventHandler::new("Any", cb);
}

#[test]
fn test_eventhandler_build_ctxmut() {
    let cb: Cb = Callback::CtxMut(|_context: &NoContext, _entry: &Entry| NoContext);
    EventHandler::new("Any", cb);
}

fn report_entry(event: &str, sid: &str) -> Entry {
    let line = format!("report|0.5|1.000001|smtp-in|{}|{}\n", event, sid);
    parse_entry(line.as_bytes()).unwrap()
}

fn report_entry_out(event: &str, sid: &str) -> Entry {
    let line = format!("report|0.5|1.000001|smtp-out|{}|{}\n", event, sid);
    parse_entry(line.as_bytes()).unwrap()
}

fn filter_entry(phase: &str, tail: &str) -> Entry {
    let line = format!("filter|0.7|1.000001|smtp-in|{}|aa|bb{}\n", phase, tail);
    parse_entry(line.as_bytes()).unwrap()
}

fn filter_entry_out(phase: &str, tail: &str) -> Entry {
    let line = format!("filter|0.7|1.000001|smtp-out|{}|aa|bb{}\n", phase, tail);
    parse_entry(line.as_bytes()).unwrap()
}

#[test]
fn test_eventhandler_any_matches_every_event() {
    let cb: Cb = Callback::NoCtx(|_entry: &Entry| {});
    let h = EventHandler::new("Any", cb);
    assert!(h.is_callable(Event::LinkConnect));
    assert!(h.is_callable(Event::Timeout));
    assert!(h.matches_entry(&report_entry("link-disconnect", "9")));
}

#[test]
fn test_eventhandler_event_list_matches_exactly() {
    let cb: Cb = Callback::NoCtx(|_entry: &Entry| {});
    let h = EventHandler::new("link-connect , tx-begin", cb);
    assert!(h.is_callable(Event::LinkConnect));
    assert!(h.is_callable(Event::TxBegin));
    assert!(!h.is_callable(Event::LinkDisconnect));
}

#[test]
fn test_eventhandler_unknown_names_are_skipped() {
    let cb: Cb = Callback::NoCtx(|_entry: &Entry| {});
    let h = EventHandler::new("link-connect , link-warp", cb);
    assert!(h.is_callable(Event::LinkConnect));
    assert!(!h.is_callable(Event::Timeout));
}

#[test]
fn test_eventhandler_call_mutates_context() {
    let cb: Callback<fn(&Entry), fn(&u64, &Entry), fn(&u64, &Entry) -> u64> =
        Callback::CtxMut(|context: &u64, _entry: &Entry| *context + 1);
    let h = EventHandler::new("Any", cb);
    let e = report_entry("link-connect", "9");
    let mut counter: u64 = 0;
    h.call(&e, &mut counter);
    h.call(&e, &mut counter);
    assert_eq!(counter, 2);
}

// A handler registered for every filter phase on the inbound subsystem
// fires for each such request and for none on the outbound subsystem.
#[test]
fn test_filter_all_matches_every_phase_on_smtp_in() {
    let action = |_e: &Entry, _s: &u64, _f: &u64| -> Result<(u64, u64, Vec<String>), String> {
        Ok((0, 0, Vec::new()))
    };
    let h: Handler<u64, u64, _> =
        Handler::new(Version::V1, Kind::Filter, SubSystem::SmtpIn, MatchEvent::All, action);
    let phases = vec![
        ("connect", "|rdns|fcrdns|1.2.3.4:5|5.6.7.8:25"),
        ("helo", "|host"),
        ("ehlo", "|host"),
        ("starttls", "|tls"),
        ("auth", "|user"),
        ("mail-from", "|a@b"),
        ("rcpt-to", "|c@d"),
        ("data", ""),
        ("data-line", "|x"),
        ("commit", ""),
    ];
    let mut out = NullOutput::default();
    for (phase, tail) in phases {
        let e_in = filter_entry(phase, tail);
        let mut s: u64 = 7;
        let mut f: u64 = 7;
        assert!(h.send(&e_in, &mut out, &mut s, &mut f).is_ok());
        assert_eq!((s, f), (0, 0), "phase {} should fire on smtp-in", phase);
        let e_out = filter_entry_out(phase, tail);
        let mut s: u64 = 7;
        let mut f: u64 = 7;
        assert!(h.send(&e_out, &mut out, &mut s, &mut f).is_ok());
        assert_eq!((s, f), (7, 7), "phase {} should not fire on smtp-out", phase);
    }
    // A report on smtp-in is of the wrong kind, so it does not fire either.
    let e_rep = report_entry("link-connect", "9");
    let mut s: u64 = 7;
    let mut f: u64 = 7;
    assert!(h.send(&e_rep, &mut out, &mut s, &mut f).is_ok());
    assert_eq!((s, f), (7, 7));
}

// A handler registered for one exact report event fires only on it.
#[test]
fn test_report_single_event_matches_only_it() {
    let action = |_e: &Entry, _s: &u64, _f: &u64| -> Result<(u64, u64, Vec<String>), String> {
        Ok((1, 1, Vec::new()))
    };
    let h: Handler<u64, u64, _> = Handler::new(
        Version::V1,
        Kind::Report,
        SubSystem::SmtpIn,
        MatchEvent::Evt(vec![Event::LinkConnect]),
        action,
    );
    let mut out = NullOutput::default();

    let fire = report_entry("link-connect", "9");
    let mut s: u64 = 7;
    let mut f: u64 = 7;
    assert!(h.send(&fire, &mut out, &mut s, &mut f).is_ok());
    assert_eq!((s, f), (1, 1));

    for e in vec![
        report_entry("link-disconnect", "9"),
        report_entry("timeout", "9"),
        report_entry_out("link-connect", "9"),
        filter_entry("commit", ""),
    ] {
        let mut s: u64 = 7;
        let mut f: u64 = 7;
        assert!(h.send(&e, &mut out, &mut s, &mut f).is_ok());
        assert_eq!((s, f), (7, 7));
    }
}

#[test]
fn test_handler_action_error_is_reported() {
    let action = |_e: &Entry, _s: &u64, _f: &u64| -> Result<(u64, u64, Vec<String>), String> {
        Err(String::from("nope"))
    };
    let h: Handler<u64, u64, _> =
        Handler::new(Version::V1, Kind::Report, SubSystem::SmtpIn, MatchEvent::All, action);
    let mut out = NullOutput::default();
    let e = report_entry("timeout", "9");
    let mut s: u64 = 7;
    let mut f: u64 = 7;
    let r = h.send(&e, &mut out, &mut s, &mut f);
    assert!(r.is_err());
    assert_eq!(r.unwrap_err().as_str(), "nope");
    assert_eq!((s, f), (7, 7));
}
