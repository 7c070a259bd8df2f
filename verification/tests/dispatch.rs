use opensmtpd::{parse_entry, Callback, Entry, EventHandler, SessionDispatcher, SessionHandler};

fn report_for(sid: &str, event: &str) -> Entry {
    let line = format!("report|0.5|1.000001|smtp-in|{}|{}\n", event, sid);
    parse_entry(line.as_bytes()).unwrap()
}

#[test]
fn test_dispatcher_creates_session_on_first_record() {
    let mut d: SessionDispatcher<u64> = SessionDispatcher::new();
    assert_eq!(d.len(), 0);
    let created = d.route(report_for("a1", "link-connect"), 0);
    assert!(created);
    assert_eq!(d.len(), 1);
    let created = d.route(report_for("a1", "tx-begin"), 0);
    assert!(!created);
    assert_eq!(d.len(), 1);
}

#[test]
fn test_dispatcher_orders_records_within_a_session() {
    let mut d: SessionDispatcher<u64> = SessionDispatcher::new();
    d.route(report_for("a1", "link-connect"), 0);
    d.route(report_for("b2", "link-connect"), 0);
    d.route(report_for("a1", "tx-begin"), 0);
    d.route(report_for("b2", "timeout"), 0);
    d.route(report_for("a1", "tx-commit"), 0);
    let sid = 0xa1;
    let e1 = d.pop_next(sid).unwrap();
    let e2 = d.pop_next(sid).unwrap();
    let e3 = d.pop_next(sid).unwrap();
    assert!(d.pop_next(sid).is_none());
    let events: Vec<_> = vec![e1, e2, e3]
        .into_iter()
        .map(|e| e.get_event().unwrap())
        .collect();
    assert_eq!(
        format!("{:?}", events),
        "[LinkConnect, TxBegin, TxCommit]"
    );
}

#[test]
fn test_dispatcher_isolates_session_contexts() {
    let mut d: SessionDispatcher<u64> = SessionDispatcher::new();
    d.route(report_for("a1", "link-connect"), 0);
    d.route(report_for("b2", "link-connect"), 0);
    assert!(d.update_context(0xa1, 41));
    assert_eq!(d.context(0xa1), Some(&41));
    assert_eq!(d.context(0xb2), Some(&0));
    assert!(d.update_context(0xb2, 7));
    assert_eq!(d.context(0xa1), Some(&41));
    assert_eq!(d.context(0xb2), Some(&7));
}

#[test]
fn test_dispatcher_lifecycle_fresh_context_after_close() {
    let mut d: SessionDispatcher<u64> = SessionDispatcher::new();
    d.route(report_for("a1", "link-connect"), 0);
    d.update_context(0xa1, 99);
    assert!(d.close(0xa1));
    assert!(d.context(0xa1).is_none());
    let created = d.route(report_for("a1", "link-connect"), 0);
    assert!(created);
    assert_eq!(d.context(0xa1), Some(&0));
}

#[test]
fn test_dispatcher_close_unknown_session() {
    let mut d: SessionDispatcher<u64> = SessionDispatcher::new();
    assert!(!d.close(0x99));
}

// Two interleaved sessions, each sending one hundred report records: each
// session's private counter ends at exactly one hundred.
#[test]
fn test_two_sessions_of_one_hundred_records() {
    let cb: Callback<fn(&Entry), fn(&u64, &Entry), fn(&u64, &Entry) -> u64> =
        Callback::CtxMut(|context: &u64, _entry: &Entry| *context + 1);
    let handler = EventHandler::new("Any", cb);
    let mut d: SessionDispatcher<u64> = SessionDispatcher::new();
    for _ in 0..100 {
        d.route(report_for("a1", "tx-begin"), 0);
        d.route(report_for("b2", "tx-begin"), 0);
    }
    for sid in vec![0xa1u64, 0xb2u64] {
        while let Some(e) = d.pop_next(sid) {
            let mut ctx = *d.context(sid).unwrap();
            if handler.matches_entry(&e) {
                handler.call(&e, &mut ctx);
            }
            d.update_context(sid, ctx);
        }
    }
    assert_eq!(d.context(0xa1), Some(&100));
    assert_eq!(d.context(0xb2), Some(&100));
}

#[test]
fn test_session_handler_drains_in_order() {
    let cb: Callback<fn(&Entry), fn(&u64, &Entry), fn(&u64, &Entry) -> u64> =
        Callback::CtxMut(|context: &u64, _entry: &Entry| *context + 1);
    let handler = SessionHandler::new(vec![EventHandler::new("Any", cb)]);
    let mut d: SessionDispatcher<u64> = SessionDispatcher::new();
    for _ in 0..100 {
        d.route(report_for("a1", "tx-begin"), 0);
        d.route(report_for("b2", "tx-begin"), 0);
    }
    handler.read_entries(&mut d, 0xa1);
    assert_eq!(d.context(0xa1), Some(&100));
    assert_eq!(d.context(0xb2), Some(&0));
    handler.read_entries(&mut d, 0xb2);
    assert_eq!(d.context(0xb2), Some(&100));
    assert_eq!(d.context(0xa1), Some(&100));
}
