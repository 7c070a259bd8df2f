use crate::data_structures::subsystem::SubSystem;
use crate::entry::{Entry, EntryV, Kind};
use crate::errors::Error;
use crate::event_handlers::{contains_event, contains_phase, MatchEvent};
use crate::output::FilterOutput;
use vstd::prelude::*;

verus! {

/// The protocol generation a handler speaks.
#[derive(Clone, Copy, Debug, Eq, PartialEq, Structural)]
pub enum Version {
    V1,
}

/// A registered handler bound to a capability set: a kind, a subsystem,
/// a set of tags or everything, and an action.  The action computes the
/// contexts' replacements and the lines to write.
pub struct Handler<S, F, A> {
    version: Version,
    pub(crate) kind: Kind,
    pub(crate) subsystem: SubSystem,
    pub(crate) events: MatchEvent,
    action: A,
    marker: core::marker::PhantomData<(S, F)>,
}

impl<S, F, A> Handler<S, F, A> {
    pub closed spec fn kind_spec(self) -> Kind {
        self.kind
    }

    pub closed spec fn subsystem_spec(self) -> SubSystem {
        self.subsystem
    }

    pub closed spec fn events_spec(self) -> MatchEvent {
        self.events
    }

    pub closed spec fn action_spec(self) -> A {
        self.action
    }

    /// The matching rule: a handler fires for a record exactly when the
    /// kinds agree, the subsystems agree, and the record's tag falls in
    /// the handler's set.
    pub open spec fn spec_matches(self, e: EntryV) -> bool {
        &&& self.kind_spec() == e.kind()
        &&& self.subsystem_spec() == e.subsystem()
        &&& self.events_spec().spec_matches(e)
    }

    pub fn new(version: Version, kind: Kind, subsystem: SubSystem, events: MatchEvent, action: A)
        -> (h: Handler<S, F, A>)
        ensures
            h.kind_spec() == kind,
            h.subsystem_spec() == subsystem,
            h.events_spec() == events,
            h.action_spec() == action,
    {
        Handler { version, kind, subsystem, events, action, marker: core::marker::PhantomData }
    }

    /// Runs the action when the record matches, writing the lines it
    /// returns and installing the contexts it computed; leaves everything
    /// alone when the record does not match, and leaves the contexts
    /// alone on any failure.
    #[verifier::loop_isolation(false)]
    pub fn send<O: FilterOutput>(
        &self,
        entry: &Entry,
        output: &mut O,
        session_ctx: &mut S,
        filter_ctx: &mut F,
    ) -> (r: Result<(), Error>) where A: Fn(&Entry, &S, &F) -> Result<(S, F, Vec<String>), String>
        requires
            forall|e: &Entry, s: &S, f: &F| #[trigger] call_requires(self.action_spec(), (e, s, f)),
        ensures
            !self.spec_matches(entry@) ==> r is Ok && *final(session_ctx) == *old(session_ctx)
                && *final(filter_ctx) == *old(filter_ctx),
            r is Err ==> *final(session_ctx) == *old(session_ctx) && *final(filter_ctx) == *old(
                filter_ctx,
            ),
            self.spec_matches(entry@) && r is Ok ==> exists|s: &S, f: &F, out: Result<
                (S, F, Vec<String>),
                String,
            >|
                {
                    &&& *s == *old(session_ctx)
                    &&& *f == *old(filter_ctx)
                    &&& #[trigger] call_ensures(self.action_spec(), (entry, s, f), out)
                    &&& out matches Ok(t)
                    &&& *final(session_ctx) == t.0
                    &&& *final(filter_ctx) == t.1
                },
            self.spec_matches(entry@) && r is Err ==> exists|s: &S, f: &F, out: Result<
                (S, F, Vec<String>),
                String,
            >|
                {
                    &&& *s == *old(session_ctx)
                    &&& *f == *old(filter_ctx)
                    &&& #[trigger] call_ensures(self.action_spec(), (entry, s, f), out)
                    &&& (out matches Err(m) ==> r->Err_0@ == m@)
                },
    {
        let version_ok = match self.version {
            Version::V1 => true,
        };
        let kind_ok = match (self.kind, entry) {
            (Kind::Report, Entry::V1Report(_)) => true,
            (Kind::Filter, Entry::V1Filter(_)) => true,
            _ => false,
        };
        let subsystem_ok = match entry {
            Entry::V1Report(rep) => rep.subsystem == self.subsystem,
            Entry::V1Filter(f) => f.subsystem == self.subsystem,
        };
        let tag_ok = match (&self.events, entry) {
            (MatchEvent::All, _) => true,
            (MatchEvent::Evt(v), Entry::V1Report(rep)) => contains_event(v, rep.event),
            (MatchEvent::Phases(v), Entry::V1Filter(f)) => contains_phase(v, f.phase),
            _ => false,
        };
        if !(version_ok && kind_ok && subsystem_ok && tag_ok) {
            proof {
                assert(!self.spec_matches(entry@));
            }
            return Ok(());
        }
        proof {
            assert(self.spec_matches(entry@));
            assert forall|e: &Entry, s: &S, f: &F| #[trigger] call_requires(
                self.action,
                (e, s, f),
            ) by {
                assert(call_requires(self.action_spec(), (e, s, f)));
            }
        }
        let out = (self.action)(entry, session_ctx, filter_ctx);
        let ghost gout = out;
        proof {
            assert(exists|s: &S, f: &F|
                *s == *old(session_ctx) && *f == *old(filter_ctx) && #[trigger] call_ensures(
                    self.action,
                    (entry, s, f),
                    gout,
                ));
        }
        match out {
            Ok((s2, f2, lines)) => {
                let mut i: usize = 0;
                while i < lines.len()
                    invariant
                        *session_ctx == *old(session_ctx),
                        *filter_ctx == *old(filter_ctx),
                    decreases lines@.len() - i,
                {
                    match output.send(lines[i].as_str()) {
                        Ok(_) => {},
                        Err(e) => {
                            proof {
                                let pair = choose|s: &S, f: &F|
                                    *s == *old(session_ctx) && *f == *old(filter_ctx)
                                        && #[trigger] call_ensures(
                                        self.action,
                                        (entry, s, f),
                                        gout,
                                    );
                                assert(call_ensures(
                                    self.action_spec(),
                                    (entry, pair.0, pair.1),
                                    gout,
                                ));
                            }
                            return Err(e);
                        },
                    }
                    i += 1;
                }
                *session_ctx = s2;
                *filter_ctx = f2;
                proof {
                    let pair = choose|s: &S, f: &F|
                        *s == *old(session_ctx) && *f == *old(filter_ctx) && #[trigger] call_ensures(
                            self.action,
                            (entry, s, f),
                            gout,
                        );
                    assert(call_ensures(self.action_spec(), (entry, pair.0, pair.1), gout));
                    assert(gout matches Ok(t) && *session_ctx == t.0 && *filter_ctx == t.1);
                }
                Ok(())
            },
            Err(msg) => {
                let e = Error::from_string(&msg);
                proof {
                    let pair = choose|s: &S, f: &F|
                        *s == *old(session_ctx) && *f == *old(filter_ctx) && #[trigger] call_ensures(
                            self.action,
                            (entry, s, f),
                            gout,
                        );
                    assert(call_ensures(self.action_spec(), (entry, pair.0, pair.1), gout));
                }
                Err(e)
            },
        }
    }
}

/// A handler bound to everything fires for a record exactly when the
/// kinds and subsystems agree, whatever the record's tag.
pub proof fn lemma_matching_all<S, F, A>(h: Handler<S, F, A>, e: EntryV)
    requires
        h.events_spec() is All,
    ensures
        h.spec_matches(e) <==> (h.kind_spec() == e.kind() && h.subsystem_spec() == e.subsystem()),
{
}

/// A handler bound to one report event fires exactly for reports of the
/// right subsystem carrying that event.
pub proof fn lemma_matching_single_event<S, F, A>(h: Handler<S, F, A>, e: EntryV, ev: crate::data_structures::event::Event)
    requires
        h.kind_spec() == Kind::Report,
        h.events_spec() matches MatchEvent::Evt(v) && v@ == seq![ev],
    ensures
        h.spec_matches(e) <==> (e matches EntryV::Report(r) && h.subsystem_spec() == r.subsystem
            && r.event == ev),
{
    match h.events_spec() {
        MatchEvent::Evt(v) => {
            assert(v@[0] == ev);
            assert forall|x: crate::data_structures::event::Event| v@.contains(x) implies x
                == ev by {
                let i = choose|i: int| 0 <= i < v@.len() && v@[i] == x;
                assert(v@[i] == v@[0]);
            }
            if e matches EntryV::Report(r) && r.event == ev {
                assert(v@.contains(ev));
            }
        },
        _ => {
        },
    }
}

} // verus!
