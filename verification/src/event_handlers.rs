use crate::data_structures::event::Event;
use crate::data_structures::filter_phase::FilterPhase;
use crate::entry::{Entry, EntryV};
use crate::parsers::{ascii_to_string, chars_of, slice_skip, slice_take, str_eq};
use vstd::prelude::*;
use vstd::string::StringSliceAdditionalSpecFns;

verus! {

// The handler registry's match specifications: a handler is bound to either
// an explicit set of report events, an explicit set of filter phases, or
// everything.

#[derive(Clone, Debug, PartialEq)]
pub enum MatchEvent {
    Evt(Vec<Event>),
    Phases(Vec<FilterPhase>),
    All,
}

impl MatchEvent {
    /// Whether a report with this event falls in the set.
    pub open spec fn spec_matches_event(self, e: Event) -> bool {
        match self {
            MatchEvent::All => true,
            MatchEvent::Evt(v) => v@.contains(e),
            MatchEvent::Phases(_) => false,
        }
    }

    /// Whether a record's tag falls in the set.
    pub open spec fn spec_matches(self, e: EntryV) -> bool {
        match self {
            MatchEvent::All => true,
            MatchEvent::Evt(v) => e matches EntryV::Report(r) && v@.contains(r.event),
            MatchEvent::Phases(v) => e matches EntryV::Filter(f) && v@.contains(f.phase),
        }
    }
}

/// Whether a vector of events holds the given one.
pub fn contains_event(v: &Vec<Event>, e: Event) -> (r: bool)
    ensures
        r == v@.contains(e),
{
    let mut i: usize = 0;
    while i < v.len()
        invariant
            0 <= i <= v@.len(),
            forall|j: int| 0 <= j < i ==> v@[j] != e,
        decreases v@.len() - i,
    {
        if v[i] == e {
            return true;
        }
        i += 1;
    }
    false
}

/// Whether a vector of phases holds the given one.
pub fn contains_phase(v: &Vec<FilterPhase>, p: FilterPhase) -> (r: bool)
    ensures
        r == v@.contains(p),
{
    let mut i: usize = 0;
    while i < v.len()
        invariant
            0 <= i <= v@.len(),
            forall|j: int| 0 <= j < i ==> v@[j] != p,
        decreases v@.len() - i,
    {
        if v[i] == p {
            return true;
        }
        i += 1;
    }
    false
}

// An event list is written as names joined by " , ".  The spec functions
// below split it into tokens and read each token as an event name, with
// "Any" or "All" standing for everything.

pub open spec fn sep_at(s: Seq<u8>, i: int) -> bool {
    s[i] == 0x20 && s[i + 1] == 0x2c && s[i + 2] == 0x20
}

/// Where the first token separator starts; the length when there is none.
pub open spec fn sp_first_sep(s: Seq<u8>) -> int
    decreases s.len(),
{
    if s.len() < 3 {
        s.len() as int
    } else if sep_at(s, 0) {
        0
    } else {
        1 + sp_first_sep(s.skip(1))
    }
}

pub proof fn lemma_first_sep_bounds(s: Seq<u8>)
    ensures
        0 <= sp_first_sep(s) <= s.len(),
        sp_first_sep(s) < s.len() ==> sp_first_sep(s) + 3 <= s.len() && sep_at(s, sp_first_sep(s)),
    decreases s.len(),
{
    if s.len() >= 3 && !sep_at(s, 0) {
        lemma_first_sep_bounds(s.skip(1));
        if sp_first_sep(s.skip(1)) < s.skip(1).len() {
            let i = sp_first_sep(s.skip(1));
            assert(s.skip(1)[i] == s[i + 1]);
            assert(s.skip(1)[i + 1] == s[i + 2]);
            assert(s.skip(1)[i + 2] == s[i + 3]);
        }
    }
}

/// `sp_first_sep` is pinned down by the first place a separator sits.
pub proof fn lemma_first_sep_is(s: Seq<u8>, n: int)
    requires
        0 <= n,
        n + 3 <= s.len(),
        sep_at(s, n),
        forall|j: int| 0 <= j < n ==> !sep_at(s, j),
    ensures
        sp_first_sep(s) == n,
    decreases s.len(),
{
    if n > 0 {
        assert(!sep_at(s, 0));
        assert forall|j: int| 0 <= j < n - 1 implies !sep_at(s.skip(1), j) by {
            assert(s.skip(1)[j] == s[j + 1]);
            assert(s.skip(1)[j + 1] == s[j + 2]);
            assert(s.skip(1)[j + 2] == s[j + 3]);
            assert(!sep_at(s, j + 1));
        }
        assert(s.skip(1)[n - 1] == s[n]);
        assert(s.skip(1)[n] == s[n + 1]);
        assert(s.skip(1)[n + 1] == s[n + 2]);
        lemma_first_sep_is(s.skip(1), n - 1);
    }
}

/// When no separator sits anywhere, the first separator is at the length.
pub proof fn lemma_first_sep_none(s: Seq<u8>)
    requires
        forall|j: int| 0 <= j && j + 3 <= s.len() ==> !sep_at(s, j),
    ensures
        sp_first_sep(s) == s.len(),
    decreases s.len(),
{
    if s.len() >= 3 {
        assert(!sep_at(s, 0));
        assert forall|j: int| 0 <= j && j + 3 <= s.skip(1).len() implies !sep_at(s.skip(1), j) by {
            assert(s.skip(1)[j] == s[j + 1]);
            assert(s.skip(1)[j + 1] == s[j + 2]);
            assert(s.skip(1)[j + 2] == s[j + 3]);
            assert(!sep_at(s, j + 1));
        }
        lemma_first_sep_none(s.skip(1));
    }
}

/// The tokens of an event list.
pub open spec fn sp_tokens(s: Seq<u8>) -> Seq<Seq<u8>>
    decreases s.len(),
    via sp_tokens_dec
{
    let i = sp_first_sep(s);
    if i >= s.len() {
        seq![s]
    } else {
        seq![s.take(i)] + sp_tokens(s.skip(i + 3))
    }
}

#[via_fn]
proof fn sp_tokens_dec(s: Seq<u8>) {
    lemma_first_sep_bounds(s);
}

pub open spec fn ascii_token(t: Seq<u8>) -> bool {
    forall|i: int| 0 <= i < t.len() ==> #[trigger] t[i] < 128
}

/// Whether a token names everything.
pub open spec fn is_all_token(t: Seq<u8>) -> bool {
    ascii_token(t) && (chars_of(t) == "Any"@ || chars_of(t) == "All"@)
}

/// The event a token names, if any.
pub open spec fn token_event(t: Seq<u8>) -> Option<Event> {
    if ascii_token(t) {
        match Event::spec_from(chars_of(t)) {
            Ok(e) => Some(e),
            Err(_) => None,
        }
    } else {
        None
    }
}

/// Whether some token names everything.
pub open spec fn sp_has_all(toks: Seq<Seq<u8>>) -> bool {
    exists|i: int| 0 <= i < toks.len() && is_all_token(#[trigger] toks[i])
}

/// The events named by the tokens, in order; unknown names are skipped.
pub open spec fn sp_event_list(toks: Seq<Seq<u8>>) -> Seq<Event>
    decreases toks.len(),
{
    if toks.len() == 0 {
        Seq::empty()
    } else {
        match token_event(toks[0]) {
            Some(e) => seq![e] + sp_event_list(toks.skip(1)),
            None => sp_event_list(toks.skip(1)),
        }
    }
}

pub proof fn lemma_tokens_cons(t: Seq<u8>, ts: Seq<Seq<u8>>)
    ensures
        sp_has_all(seq![t] + ts) == (is_all_token(t) || sp_has_all(ts)),
        sp_event_list(seq![t] + ts) == (match token_event(t) {
            Some(e) => seq![e] + sp_event_list(ts),
            None => sp_event_list(ts),
        }),
{
    let c = seq![t] + ts;
    assert(c[0] == t);
    assert(c.skip(1) =~= ts);
    if is_all_token(t) {
        assert(sp_has_all(c));
    }
    if sp_has_all(ts) {
        let i = choose|i: int| 0 <= i < ts.len() && is_all_token(#[trigger] ts[i]);
        assert(c[i + 1] == ts[i]);
        assert(sp_has_all(c));
    }
    if sp_has_all(c) && !is_all_token(t) {
        let i = choose|i: int| 0 <= i < c.len() && is_all_token(#[trigger] c[i]);
        assert(i > 0);
        assert(ts[i - 1] == c[i]);
        assert(sp_has_all(ts));
    }
}

/// Where the first separator starts, when there is one.
fn find_sep(s: &[u8]) -> (r: Option<usize>)
    ensures
        r matches Some(i) ==> sp_first_sep(s@) == i && i + 3 <= s@.len(),
        r is None ==> sp_first_sep(s@) == s@.len(),
{
    if s.len() < 3 {
        proof {
            lemma_first_sep_none(s@);
        }
        return None;
    }
    let lim = s.len() - 3;
    let mut j: usize = 0;
    while j <= lim
        invariant
            lim + 3 == s@.len(),
            0 <= j <= lim + 1,
            forall|k: int| 0 <= k < j ==> !sep_at(s@, k),
        decreases lim + 1 - j,
    {
        if s[j] == 0x20 && s[j + 1] == 0x2c && s[j + 2] == 0x20 {
            proof {
                lemma_first_sep_is(s@, j as int);
            }
            return Some(j);
        }
        proof {
            assert(!sep_at(s@, j as int));
        }
        j += 1;
    }
    proof {
        assert forall|k: int| 0 <= k && k + 3 <= s@.len() implies !sep_at(s@, k) by {
            assert(k < j);
        }
        lemma_first_sep_none(s@);
    }
    None
}

/// Whether every byte is ASCII.
fn all_ascii_bytes(s: &[u8]) -> (r: bool)
    ensures
        r == ascii_token(s@),
{
    let mut i: usize = 0;
    while i < s.len()
        invariant
            0 <= i <= s@.len(),
            forall|j: int| 0 <= j < i ==> #[trigger] s@[j] < 128,
        decreases s@.len() - i,
    {
        if s[i] >= 128 {
            return false;
        }
        i += 1;
    }
    true
}

/// Reads an event list: names joined by " , ", with "Any" or "All"
/// matching everything and unknown names ignored.
pub fn get_events_from_string(event_str: &str) -> (r: MatchEvent)
    ensures
        r is All <==> sp_has_all(sp_tokens(event_str.spec_bytes())),
        r matches MatchEvent::Evt(v) ==> v@ == sp_event_list(sp_tokens(event_str.spec_bytes())),
        r is All || r is Evt,
{
    let bytes = event_str.as_bytes();
    let ghost s0 = bytes@;
    let mut events: Vec<Event> = Vec::new();
    let mut cur: &[u8] = bytes;
    loop
        invariant
            s0 == event_str.spec_bytes(),
            sp_has_all(sp_tokens(s0)) == sp_has_all(sp_tokens(cur@)),
            sp_event_list(sp_tokens(s0)) =~= events@ + sp_event_list(sp_tokens(cur@)),
        decreases cur@.len(),
    {
        let sep = find_sep(cur);
        let tok_len = match sep {
            Some(i) => i,
            None => cur.len(),
        };
        let tok = slice_take(cur, tok_len);
        let ghost rest_tokens = match sep {
            Some(i) => sp_tokens(cur@.skip(i + 3)),
            None => Seq::<Seq<u8>>::empty(),
        };
        proof {
            match sep {
                Some(i) => {
                    assert(sp_tokens(cur@) == seq![cur@.take(i as int)] + sp_tokens(
                        cur@.skip(i + 3),
                    ));
                    lemma_tokens_cons(tok@, rest_tokens);
                },
                None => {
                    assert(cur@.take(cur@.len() as int) =~= cur@);
                    assert(sp_tokens(cur@) == seq![cur@]);
                    assert(seq![cur@] =~= seq![cur@] + Seq::<Seq<u8>>::empty());
                    lemma_tokens_cons(tok@, rest_tokens);
                },
            }
            assert(sp_tokens(cur@) =~= seq![tok@] + rest_tokens);
        }
        if all_ascii_bytes(tok) {
            let tstr = ascii_to_string(tok);
            if str_eq(tstr.as_str(), "Any") || str_eq(tstr.as_str(), "All") {
                proof {
                    assert(is_all_token(tok@));
                }
                return MatchEvent::All;
            }
            match Event::from_str(tstr.as_str()) {
                Ok(e) => {
                    let ghost before = events@;
                    events.push(e);
                    proof {
                        assert(events@ =~= before.push(e));
                        assert(token_event(tok@) == Some(e));
                        assert(before + (seq![e] + sp_event_list(rest_tokens)) =~= events@
                            + sp_event_list(rest_tokens));
                    }
                },
                Err(_) => {
                    proof {
                        assert(token_event(tok@) is None);
                    }
                },
            }
        } else {
            proof {
                assert(!ascii_token(tok@));
                assert(token_event(tok@) is None);
                assert(!is_all_token(tok@));
            }
        }
        match sep {
            Some(i) => {
                let clen = cur.len();
                proof {
                    assert(i + 3 <= clen);
                }
                cur = slice_skip(cur, i + 3);
            },
            None => {
                proof {
                    assert(sp_has_all(rest_tokens) == false);
                    assert(sp_event_list(rest_tokens) =~= Seq::<Event>::empty());
                    assert(sp_event_list(sp_tokens(s0)) =~= events@);
                }
                return MatchEvent::Evt(events);
            },
        }
    }
}

/// A handler's callback, by how it uses the session context: reading
/// nothing, reading it, or computing its replacement.
pub enum Callback<F1, F2, F3> {
    NoCtx(F1),
    Ctx(F2),
    CtxMut(F3),
}

/// Whether a callback can be invoked on any record and context.
pub open spec fn callback_total<T, F1: Fn(&Entry), F2: Fn(&T, &Entry), F3: Fn(&T, &Entry) -> T>(
    c: Callback<F1, F2, F3>,
) -> bool {
    &&& (c matches Callback::NoCtx(f) ==> forall|e: &Entry| #[trigger] call_requires(f, (e,)))
    &&& (c matches Callback::Ctx(f) ==> forall|t: &T, e: &Entry| #[trigger] call_requires(
        f,
        (t, e),
    ))
    &&& (c matches Callback::CtxMut(f) ==> forall|t: &T, e: &Entry| #[trigger] call_requires(
        f,
        (t, e),
    ))
}

/// One registered handler: the set of tags it fires for, and its callback.
pub struct EventHandler<F1, F2, F3> {
    event: MatchEvent,
    callback: Callback<F1, F2, F3>,
}

impl<F1, F2, F3> EventHandler<F1, F2, F3> {
    /// The set of tags the handler fires for.
    pub closed spec fn match_spec(self) -> MatchEvent {
        self.event
    }

    /// The handler's callback.
    pub closed spec fn callback_spec(self) -> Callback<F1, F2, F3> {
        self.callback
    }

    /// Registers a handler for the events the string names.
    pub fn new(event_str: &str, callback: Callback<F1, F2, F3>) -> (h: Self)
        ensures
            h.match_spec() is All <==> sp_has_all(sp_tokens(event_str.spec_bytes())),
            h.match_spec() matches MatchEvent::Evt(v) ==> v@ == sp_event_list(
                sp_tokens(event_str.spec_bytes()),
            ),
            h.callback_spec() == callback,
    {
        EventHandler { event: get_events_from_string(event_str), callback }
    }

    /// Whether the handler fires for a report with this event.
    pub fn is_callable(&self, event: Event) -> (r: bool)
        ensures
            r == self.match_spec().spec_matches_event(event),
    {
        match &self.event {
            MatchEvent::All => true,
            MatchEvent::Evt(v) => contains_event(v, event),
            MatchEvent::Phases(_) => false,
        }
    }

    /// Whether the handler fires for this record.
    pub fn matches_entry(&self, entry: &Entry) -> (r: bool)
        ensures
            r == self.match_spec().spec_matches(entry@),
    {
        match (&self.event, entry) {
            (MatchEvent::All, _) => true,
            (MatchEvent::Evt(v), Entry::V1Report(rep)) => contains_event(v, rep.event),
            (MatchEvent::Phases(v), Entry::V1Filter(f)) => contains_phase(v, f.phase),
            _ => false,
        }
    }

    /// Runs the callback on a record, against the session's context.  A
    /// context-reading callback leaves the context as it was; a mutating
    /// one replaces it with what it computed.
    pub fn call<T>(&self, entry: &Entry, context: &mut T) where
        F1: Fn(&Entry),
        F2: Fn(&T, &Entry),
        F3: Fn(&T, &Entry) -> T,

        requires
            callback_total::<T, F1, F2, F3>(self.callback_spec()),
        ensures
            self.callback_spec() matches Callback::NoCtx(f) ==> *final(context) == *old(context),
            self.callback_spec() matches Callback::Ctx(f) ==> *final(context) == *old(context),
            self.callback_spec() matches Callback::CtxMut(f) ==> exists|t: &T|
                *t == *old(context) && call_ensures(f, (t, entry), *final(context)),
    {
        match &self.callback {
            Callback::NoCtx(f) => {
                f(entry);
            },
            Callback::Ctx(f) => {
                f(context, entry);
            },
            Callback::CtxMut(f) => {
                *context = f(context, entry);
            },
        }
    }
}

/// What one handler may do to a context on one record: nothing when it
/// does not fire or its callback only reads; otherwise the replacement is
/// something its callback can compute from the old context and the record.
pub open spec fn handler_step_ok<T, F1: Fn(&Entry), F2: Fn(&T, &Entry), F3: Fn(&T, &Entry) -> T>(
    h: EventHandler<F1, F2, F3>,
    e: Entry,
    c0: T,
    c1: T,
) -> bool {
    if h.match_spec().spec_matches(e@) {
        match h.callback_spec() {
            Callback::NoCtx(_) => c1 == c0,
            Callback::Ctx(_) => c1 == c0,
            Callback::CtxMut(f) => exists|t: &T, ee: &Entry|
                *t == c0 && *ee == e && call_ensures(f, (t, ee), c1),
        }
    } else {
        c1 == c0
    }
}

/// Running a sequence of handlers over one record chains their steps, in
/// registration order.
pub open spec fn handlers_fold_ok<
    T,
    F1: Fn(&Entry),
    F2: Fn(&T, &Entry),
    F3: Fn(&T, &Entry) -> T,
>(hs: Seq<EventHandler<F1, F2, F3>>, e: Entry, c0: T, c1: T) -> bool
    decreases hs.len(),
{
    if hs.len() == 0 {
        c1 == c0
    } else {
        exists|mid: T|
            handler_step_ok(hs[0], e, c0, mid) && handlers_fold_ok(hs.skip(1), e, mid, c1)
    }
}

pub proof fn lemma_handlers_fold_snoc<
    T,
    F1: Fn(&Entry),
    F2: Fn(&T, &Entry),
    F3: Fn(&T, &Entry) -> T,
>(hs: Seq<EventHandler<F1, F2, F3>>, h: EventHandler<F1, F2, F3>, e: Entry, c0: T, c1: T, c2: T)
    requires
        handlers_fold_ok(hs, e, c0, c1),
        handler_step_ok(h, e, c1, c2),
    ensures
        handlers_fold_ok(hs.push(h), e, c0, c2),
    decreases hs.len(),
{
    if hs.len() == 0 {
        assert(c1 == c0);
        assert(hs.push(h)[0] == h);
        assert(hs.push(h).skip(1) =~= Seq::<EventHandler<F1, F2, F3>>::empty());
        assert(handlers_fold_ok(hs.push(h).skip(1), e, c2, c2));
        assert(handler_step_ok(hs.push(h)[0], e, c0, c2) && handlers_fold_ok(
            hs.push(h).skip(1),
            e,
            c2,
            c2,
        ));
    } else {
        let mid = choose|mid: T|
            handler_step_ok(hs[0], e, c0, mid) && handlers_fold_ok(hs.skip(1), e, mid, c1);
        lemma_handlers_fold_snoc(hs.skip(1), h, e, mid, c1, c2);
        assert(hs.push(h)[0] == hs[0]);
        assert(hs.push(h).skip(1) =~= hs.skip(1).push(h));
        assert(handler_step_ok(hs.push(h)[0], e, c0, mid) && handlers_fold_ok(
            hs.push(h).skip(1),
            e,
            mid,
            c2,
        ));
    }
}

} // verus!
