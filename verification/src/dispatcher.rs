use crate::entry::Entry;
use vstd::prelude::*;

verus! {

// The session dispatcher demultiplexes the single wire stream into one
// ordered queue per session identifier.  A session is created when its
// identifier is first seen, its records are queued in arrival order, and it
// is removed once its disconnect record has been processed.  Contexts of
// different sessions are disjoint by construction.

/// One live session: its identifier, its private context, and its queue of
/// records not yet processed, in arrival order.
pub struct Session<T> {
    pub id: u64,
    pub context: T,
    pub queue: Vec<Entry>,
}

/// The mathematical content of one session.
pub struct SessionV<T> {
    pub id: u64,
    pub context: T,
    pub queue: Seq<Entry>,
}

impl<T> View for Session<T> {
    type V = SessionV<T>;

    open spec fn view(&self) -> SessionV<T> {
        SessionV { id: self.id, context: self.context, queue: self.queue@ }
    }
}

/// The index of the session with the given identifier, if any.
pub open spec fn sp_find<T>(ss: Seq<SessionV<T>>, sid: u64) -> Option<int>
    decreases ss.len(),
{
    if ss.len() == 0 {
        None
    } else if ss[0].id == sid {
        Some(0)
    } else {
        match sp_find(ss.skip(1), sid) {
            None => None,
            Some(i) => Some(i + 1),
        }
    }
}

pub proof fn lemma_sp_find_props<T>(ss: Seq<SessionV<T>>, sid: u64)
    ensures
        match sp_find(ss, sid) {
            Some(i) => 0 <= i < ss.len() && ss[i].id == sid && forall|j: int|
                0 <= j < i ==> ss[j].id != sid,
            None => forall|j: int| 0 <= j < ss.len() ==> ss[j].id != sid,
        },
    decreases ss.len(),
{
    if ss.len() > 0 && ss[0].id != sid {
        lemma_sp_find_props(ss.skip(1), sid);
        match sp_find(ss.skip(1), sid) {
            Some(i) => {
                assert(ss[i + 1].id == ss.skip(1)[i].id);
                assert forall|j: int| 0 <= j < i + 1 implies ss[j].id != sid by {
                    if j > 0 {
                        assert(ss.skip(1)[j - 1].id != sid);
                    }
                }
            },
            None => {
                assert forall|j: int| 0 <= j < ss.len() implies ss[j].id != sid by {
                    if j > 0 {
                        assert(ss.skip(1)[j - 1].id != sid);
                    }
                }
            },
        }
    }
}

/// What routing one record does to the session table: the record goes to
/// the back of its session's queue; an unseen identifier gets a new session
/// whose context is the fresh value.
pub open spec fn sp_route<T>(ss: Seq<SessionV<T>>, entry: Entry, fresh: T) -> Seq<SessionV<T>> {
    match sp_find(ss, entry@.session_id()) {
        Some(i) => ss.update(
            i,
            SessionV { id: ss[i].id, context: ss[i].context, queue: ss[i].queue.push(entry) },
        ),
        None => ss.push(
            SessionV { id: entry@.session_id(), context: fresh, queue: seq![entry] },
        ),
    }
}

/// What closing a session does to the session table: its entry is removed;
/// every other session keeps its place.
pub open spec fn sp_close<T>(ss: Seq<SessionV<T>>, sid: u64) -> Seq<SessionV<T>> {
    match sp_find(ss, sid) {
        Some(i) => ss.subrange(0, i) + ss.skip(i + 1),
        None => ss,
    }
}

/// The dispatcher: the table of live sessions, at most one per identifier.
pub struct SessionDispatcher<T> {
    sessions: Vec<Session<T>>,
}

impl<T> View for SessionDispatcher<T> {
    type V = Seq<SessionV<T>>;

    closed spec fn view(&self) -> Seq<SessionV<T>> {
        Seq::new(self.sessions@.len(), |i: int| self.sessions@[i]@)
    }
}

impl<T> SessionDispatcher<T> {
    /// Session identifiers are unique in the table.
    pub open spec fn wf(self) -> bool {
        forall|i: int, j: int|
            0 <= i < j < self@.len() ==> #[trigger] self@[i].id != #[trigger] self@[j].id
    }

    /// A dispatcher with no sessions.
    pub fn new() -> (d: SessionDispatcher<T>)
        ensures
            d@ =~= Seq::<SessionV<T>>::empty(),
            d.wf(),
    {
        SessionDispatcher { sessions: Vec::new() }
    }

    /// How many sessions are live.
    pub fn len(&self) -> (n: usize)
        ensures
            n == self@.len(),
    {
        self.sessions.len()
    }

    /// The index of a session in the table.
    fn find(&self, sid: u64) -> (r: Option<usize>)
        ensures
            match r {
                Some(i) => sp_find(self@, sid) == Some(i as int),
                None => sp_find(self@, sid) is None,
            },
    {
        proof {
            lemma_sp_find_props(self@, sid);
        }
        let mut i: usize = 0;
        while i < self.sessions.len()
            invariant
                0 <= i <= self@.len(),
                forall|j: int| 0 <= j < i ==> self@[j].id != sid,
            decreases self@.len() - i,
        {
            if self.sessions[i].id == sid {
                proof {
                    lemma_sp_find_unique(self@, sid, i as int);
                }
                return Some(i);
            }
            i += 1;
        }
        None
    }

    /// Routes one record: appends it to its session's queue, creating the
    /// session with the fresh context when the identifier is new.  Returns
    /// whether a session was created.  No other session is touched.
    pub fn route(&mut self, entry: Entry, fresh: T) -> (created: bool)
        requires
            old(self).wf(),
        ensures
            final(self).wf(),
            final(self)@ =~~= sp_route(old(self)@, entry, fresh),
            created == (sp_find(old(self)@, entry@.session_id()) is None),
    {
        proof {
            lemma_sp_find_props(self@, entry@.session_id());
        }
        let sid = entry.get_session_id();
        match self.find(sid) {
            Some(i) => {
                let ghost before = self@;
                let s = &mut self.sessions[i];
                s.queue.push(entry);
                proof {
                    assert(self@ =~~= sp_route(before, entry, fresh));
                    assert forall|a: int, b: int|
                        0 <= a < b < self@.len() implies #[trigger] self@[a].id
                        != #[trigger] self@[b].id by {
                        assert(before[a].id == self@[a].id);
                        assert(before[b].id == self@[b].id);
                    }
                }
                false
            },
            None => {
                let ghost before = self@;
                let mut queue: Vec<Entry> = Vec::new();
                queue.push(entry);
                proof {
                    assert(queue@ =~= seq![entry]);
                }
                self.sessions.push(Session { id: sid, context: fresh, queue });
                proof {
                    assert(self@ =~~= sp_route(before, entry, fresh));
                    assert forall|a: int, b: int|
                        0 <= a < b < self@.len() implies #[trigger] self@[a].id
                        != #[trigger] self@[b].id by {
                        if b < before.len() {
                            assert(before[a].id == self@[a].id);
                            assert(before[b].id == self@[b].id);
                        } else {
                            assert(before[a].id == self@[a].id);
                        }
                    }
                }
                true
            },
        }
    }

    /// Takes the next queued record of a session: the one that arrived
    /// first.  No other session is touched.
    pub fn pop_next(&mut self, sid: u64) -> (r: Option<Entry>)
        requires
            old(self).wf(),
        ensures
            final(self).wf(),
            match sp_find(old(self)@, sid) {
                Some(i) => {
                    if old(self)@[i].queue.len() > 0 {
                        &&& r matches Some(e) && e == old(self)@[i].queue[0]
                        &&& final(self)@ =~~= old(self)@.update(
                            i,
                            SessionV {
                                id: old(self)@[i].id,
                                context: old(self)@[i].context,
                                queue: old(self)@[i].queue.skip(1),
                            },
                        )
                    } else {
                        r is None && final(self)@ =~= old(self)@
                    }
                },
                None => r is None && final(self)@ =~= old(self)@,
            },
    {
        proof {
            lemma_sp_find_props(self@, sid);
        }
        match self.find(sid) {
            Some(i) => {
                let ghost before = self@;
                let s = &mut self.sessions[i];
                if s.queue.len() == 0 {
                    proof {
                        assert(self@ =~= before);
                    }
                    None
                } else {
                    let e = s.queue.remove(0);
                    proof {
                        assert(self@[i as int].queue =~= before[i as int].queue.skip(1));
                        assert(self@ =~~= before.update(
                            i as int,
                            SessionV {
                                id: before[i as int].id,
                                context: before[i as int].context,
                                queue: before[i as int].queue.skip(1),
                            },
                        ));
                        assert forall|a: int, b: int|
                            0 <= a < b < self@.len() implies #[trigger] self@[a].id
                            != #[trigger] self@[b].id by {
                            assert(before[a].id == self@[a].id);
                            assert(before[b].id == self@[b].id);
                        }
                    }
                    Some(e)
                }
            },
            None => None,
        }
    }

    /// Reads a session's context.
    pub fn context(&self, sid: u64) -> (r: Option<&T>)
        ensures
            match sp_find(self@, sid) {
                Some(i) => r matches Some(t) && *t == self@[i].context,
                None => r is None,
            },
    {
        proof {
            lemma_sp_find_props(self@, sid);
        }
        match self.find(sid) {
            Some(i) => Some(&self.sessions[i].context),
            None => None,
        }
    }

    /// Replaces a session's context.  Every other session, and the queue of
    /// this one, stays as it was.  Returns whether the session exists.
    pub fn update_context(&mut self, sid: u64, context: T) -> (r: bool)
        requires
            old(self).wf(),
        ensures
            final(self).wf(),
            match sp_find(old(self)@, sid) {
                Some(i) => r && final(self)@ =~~= old(self)@.update(
                    i,
                    SessionV {
                        id: old(self)@[i].id,
                        context,
                        queue: old(self)@[i].queue,
                    },
                ),
                None => !r && final(self)@ =~= old(self)@,
            },
    {
        proof {
            lemma_sp_find_props(self@, sid);
        }
        match self.find(sid) {
            Some(i) => {
                let ghost before = self@;
                let s = &mut self.sessions[i];
                s.context = context;
                proof {
                    assert forall|a: int, b: int|
                        0 <= a < b < self@.len() implies #[trigger] self@[a].id
                        != #[trigger] self@[b].id by {
                        assert(before[a].id == self@[a].id);
                        assert(before[b].id == self@[b].id);
                    }
                }
                true
            },
            None => false,
        }
    }

    /// Removes a session once its disconnect record has been processed.
    /// Every other session keeps its place.  Returns whether it existed.
    pub fn close(&mut self, sid: u64) -> (r: bool)
        requires
            old(self).wf(),
        ensures
            final(self).wf(),
            final(self)@ =~~= sp_close(old(self)@, sid),
            r == (sp_find(old(self)@, sid) is Some),
            sp_find(final(self)@, sid) is None,
    {
        proof {
            lemma_sp_find_props(self@, sid);
        }
        match self.find(sid) {
            Some(i) => {
                let ghost before = self@;
                let _ = self.sessions.remove(i);
                proof {
                    assert(self@ =~~= before.subrange(0, i as int) + before.skip(i + 1));
                    assert forall|a: int, b: int|
                        0 <= a < b < self@.len() implies #[trigger] self@[a].id
                        != #[trigger] self@[b].id by {
                        let la = if a < i { a } else { a + 1 };
                        let lb = if b < i { b } else { b + 1 };
                        assert(self@[a].id == before[la].id);
                        assert(self@[b].id == before[lb].id);
                    }
                    lemma_sp_find_props(self@, sid);
                    assert forall|j: int| 0 <= j < self@.len() implies self@[j].id != sid by {
                        let lj = if j < i { j } else { j + 1 };
                        assert(self@[j].id == before[lj].id);
                    }
                }
                true
            },
            None => false,
        }
    }
}

impl<T> SessionDispatcher<T> {
    /// Removes a session and hands it out, with its place in the table;
    /// every other session keeps its place.
    pub fn detach(&mut self, sid: u64) -> (r: Option<(usize, Session<T>)>)
        requires
            old(self).wf(),
        ensures
            final(self).wf(),
            match sp_find(old(self)@, sid) {
                Some(i) => {
                    &&& r matches Some((at, s)) && at == i && s@ == old(self)@[i]
                    &&& final(self)@ =~~= old(self)@.subrange(0, i) + old(self)@.skip(i + 1)
                },
                None => r is None && final(self)@ =~~= old(self)@,
            },
    {
        proof {
            lemma_sp_find_props(self@, sid);
        }
        match self.find(sid) {
            Some(i) => {
                let ghost before = self@;
                let s = self.sessions.remove(i);
                proof {
                    assert(self@ =~~= before.subrange(0, i as int) + before.skip(i + 1));
                    assert forall|a: int, b: int|
                        0 <= a < b < self@.len() implies #[trigger] self@[a].id
                        != #[trigger] self@[b].id by {
                        let la = if a < i {
                            a
                        } else {
                            a + 1
                        };
                        let lb = if b < i {
                            b
                        } else {
                            b + 1
                        };
                        assert(self@[a].id == before[la].id);
                        assert(self@[b].id == before[lb].id);
                    }
                }
                Some((i, s))
            },
            None => None,
        }
    }

    /// Puts a detached session back at its place; the identifier must not
    /// be in the table.
    pub fn reattach(&mut self, at: usize, session: Session<T>)
        requires
            old(self).wf(),
            at <= old(self)@.len(),
            forall|j: int| 0 <= j < old(self)@.len() ==> (#[trigger] old(self)@[j]).id != session@.id,
        ensures
            final(self).wf(),
            final(self)@ =~~= old(self)@.insert(at as int, session@),
    {
        let ghost before = self@;
        let ghost sv = session@;
        self.sessions.insert(at, session);
        proof {
            assert(self@ =~~= before.insert(at as int, sv));
            assert forall|a: int, b: int|
                0 <= a < b < self@.len() implies #[trigger] self@[a].id != #[trigger] self@[b].id by {
                let ins = before.insert(at as int, sv);
                if a == at {
                    assert(ins[b] == before[b - 1]);
                } else if b == at {
                    assert(ins[a] == before[a]);
                } else {
                    let la = if a < at {
                        a
                    } else {
                        a - 1
                    };
                    let lb = if b < at {
                        b
                    } else {
                        b - 1
                    };
                    assert(ins[a] == before[la]);
                    assert(ins[b] == before[lb]);
                }
            }
        }
    }
}

/// Replacing a session's content at its place, identifier kept, moves no
/// session: lookups are as they were.
pub proof fn lemma_sp_find_update<T>(ss: Seq<SessionV<T>>, i: int, x: SessionV<T>, sid: u64)
    requires
        0 <= i < ss.len(),
        x.id == ss[i].id,
    ensures
        sp_find(ss.update(i, x), sid) == sp_find(ss, sid),
{
    let up = ss.update(i, x);
    lemma_sp_find_props(ss, sid);
    match sp_find(ss, sid) {
        Some(j) => {
            assert(up[j].id == sid);
            assert forall|k: int| 0 <= k < j implies up[k].id != sid by {
                assert(ss[k].id != sid);
            }
            lemma_sp_find_unique(up, sid, j);
        },
        None => {
            lemma_sp_find_props(up, sid);
            match sp_find(up, sid) {
                Some(j) => {
                    assert(ss[j].id == up[j].id);
                },
                None => {
                },
            }
        },
    }
}

/// A session's index is where its identifier sits.
pub proof fn lemma_sp_find_unique<T>(ss: Seq<SessionV<T>>, sid: u64, i: int)
    requires
        0 <= i < ss.len(),
        ss[i].id == sid,
        forall|j: int| 0 <= j < i ==> ss[j].id != sid,
    ensures
        sp_find(ss, sid) == Some(i),
    decreases ss.len(),
{
    if i > 0 {
        assert forall|j: int| 0 <= j < i - 1 implies ss.skip(1)[j].id != sid by {
            assert(ss[j + 1].id != sid);
        }
        lemma_sp_find_unique(ss.skip(1), sid, i - 1);
    }
}

/// Records of one session are observed in submission order: routing two
/// records with the same identifier, in either an empty or a live session,
/// leaves them queued one after the other.
pub proof fn lemma_session_ordering<T>(ss: Seq<SessionV<T>>, e1: Entry, e2: Entry, f1: T, f2: T)
    requires
        e1@.session_id() == e2@.session_id(),
        forall|i: int, j: int| 0 <= i < j < ss.len() ==> ss[i].id != ss[j].id,
    ensures
        ({
            let after = sp_route(sp_route(ss, e1, f1), e2, f2);
            match sp_find(after, e1@.session_id()) {
                Some(i) => {
                    let q = after[i].queue;
                    &&& q.len() >= 2
                    &&& q[q.len() - 2] == e1
                    &&& q[q.len() - 1] == e2
                },
                None => false,
            }
        }),
{
    let sid = e1@.session_id();
    lemma_sp_find_props(ss, sid);
    let mid = sp_route(ss, e1, f1);
    lemma_sp_find_props(mid, sid);
    match sp_find(ss, sid) {
        Some(i) => {
            lemma_sp_find_unique(mid, sid, i);
        },
        None => {
            assert forall|j: int| 0 <= j < ss.len() implies mid[j].id != sid by {
                assert(mid[j].id == ss[j].id);
            }
            lemma_sp_find_unique(mid, sid, ss.len() as int);
        },
    }
    let after = sp_route(mid, e2, f2);
    lemma_sp_find_props(after, sid);
    match sp_find(mid, sid) {
        Some(i) => {
            lemma_sp_find_unique(after, sid, i);
        },
        None => {
            assert(false);
        },
    }
}

/// Routing a record touches no other session's context: every session with
/// another identifier is exactly as it was.
pub proof fn lemma_session_isolation<T>(ss: Seq<SessionV<T>>, entry: Entry, fresh: T)
    ensures
        forall|j: int|
            0 <= j < ss.len() && ss[j].id != entry@.session_id() ==> sp_route(ss, entry, fresh)[j]
                == ss[j],
{
    lemma_sp_find_props(ss, entry@.session_id());
}

/// After a session is closed, its identifier is unreachable: a later record
/// with the same identifier starts a new session whose context is the fresh
/// value, not the old one.
pub proof fn lemma_session_lifecycle<T>(ss: Seq<SessionV<T>>, sid: u64, entry: Entry, fresh: T)
    requires
        entry@.session_id() == sid,
        forall|i: int, j: int| 0 <= i < j < ss.len() ==> ss[i].id != ss[j].id,
    ensures
        sp_find(sp_close(ss, sid), sid) is None,
        ({
            let reopened = sp_route(sp_close(ss, sid), entry, fresh);
            match sp_find(reopened, sid) {
                Some(i) => reopened[i].context == fresh && reopened[i].queue =~= seq![entry],
                None => false,
            }
        }),
{
    let closed = sp_close(ss, sid);
    lemma_sp_find_props(ss, sid);
    match sp_find(ss, sid) {
        Some(i) => {
            assert forall|j: int| 0 <= j < closed.len() implies closed[j].id != sid by {
                if j < i {
                    assert(closed[j] == ss[j]);
                } else {
                    assert(closed[j] == ss[j + 1]);
                }
            }
            lemma_sp_find_props(closed, sid);
        },
        None => {
            lemma_sp_find_props(closed, sid);
        },
    }
    let reopened = sp_route(closed, entry, fresh);
    assert forall|j: int| 0 <= j < closed.len() implies reopened[j].id != sid by {
        assert(reopened[j].id == closed[j].id);
    }
    lemma_sp_find_unique(reopened, sid, closed.len() as int);
}

} // verus!
