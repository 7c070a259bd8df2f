use crate::dispatcher::{sp_find, Session, SessionDispatcher, SessionV};
use crate::entry::Entry;
use crate::event_handlers::{
    callback_total, handler_step_ok, handlers_fold_ok, lemma_handlers_fold_snoc, Callback,
    EventHandler,
};
use vstd::prelude::*;

verus! {

/// Running the handlers over a sequence of records chains the per-record
/// folds, in arrival order.
pub open spec fn entries_fold_ok<T, F1: Fn(&Entry), F2: Fn(&T, &Entry), F3: Fn(&T, &Entry) -> T>(
    hs: Seq<EventHandler<F1, F2, F3>>,
    entries: Seq<Entry>,
    c0: T,
    c1: T,
) -> bool
    decreases entries.len(),
{
    if entries.len() == 0 {
        c1 == c0
    } else {
        exists|mid: T|
            handlers_fold_ok(hs, entries[0], c0, mid) && entries_fold_ok(
                hs,
                entries.skip(1),
                mid,
                c1,
            )
    }
}

pub proof fn lemma_entries_fold_snoc<
    T,
    F1: Fn(&Entry),
    F2: Fn(&T, &Entry),
    F3: Fn(&T, &Entry) -> T,
>(hs: Seq<EventHandler<F1, F2, F3>>, entries: Seq<Entry>, e: Entry, c0: T, c1: T, c2: T)
    requires
        entries_fold_ok(hs, entries, c0, c1),
        handlers_fold_ok(hs, e, c1, c2),
    ensures
        entries_fold_ok(hs, entries.push(e), c0, c2),
    decreases entries.len(),
{
    if entries.len() == 0 {
        assert(c1 == c0);
        assert(entries.push(e)[0] == e);
        assert(entries.push(e).skip(1) =~= Seq::<Entry>::empty());
        assert(handlers_fold_ok(hs, entries.push(e)[0], c0, c2) && entries_fold_ok(
            hs,
            entries.push(e).skip(1),
            c2,
            c2,
        ));
    } else {
        let mid = choose|mid: T|
            handlers_fold_ok(hs, entries[0], c0, mid) && entries_fold_ok(
                hs,
                entries.skip(1),
                mid,
                c1,
            );
        lemma_entries_fold_snoc(hs, entries.skip(1), e, mid, c1, c2);
        assert(entries.push(e)[0] == entries[0]);
        assert(entries.push(e).skip(1) =~= entries.skip(1).push(e));
        assert(handlers_fold_ok(hs, entries.push(e)[0], c0, mid) && entries_fold_ok(
            hs,
            entries.push(e).skip(1),
            mid,
            c2,
        ));
    }
}

/// One session's execution unit: it runs the registered handlers over that
/// session's records, in arrival order, against the session's private
/// context.
pub struct SessionHandler<F1, F2, F3> {
    event_handlers: Vec<EventHandler<F1, F2, F3>>,
}

impl<F1, F2, F3> SessionHandler<F1, F2, F3> {
    /// The registered handlers, in registration order.
    pub closed spec fn handlers_spec(self) -> Seq<EventHandler<F1, F2, F3>> {
        self.event_handlers@
    }

    pub fn new(event_handlers: Vec<EventHandler<F1, F2, F3>>) -> (h: SessionHandler<F1, F2, F3>)
        ensures
            h.handlers_spec() == event_handlers@,
    {
        SessionHandler { event_handlers }
    }

    /// Hands one record to every handler that fires for it, in
    /// registration order: the context becomes the fold of the firing
    /// callbacks' steps over it.
    #[verifier::loop_isolation(false)]
    pub fn handle_entry<T>(&self, entry: &Entry, context: &mut T) where
        F1: Fn(&Entry),
        F2: Fn(&T, &Entry),
        F3: Fn(&T, &Entry) -> T,

        requires
            forall|k: int|
                0 <= k < self.handlers_spec().len() ==> callback_total::<T, F1, F2, F3>(
                    (#[trigger] self.handlers_spec()[k]).callback_spec(),
                ),
        ensures
            handlers_fold_ok(self.handlers_spec(), *entry, *old(context), *final(context)),
    {
        let ghost hs = self.handlers_spec();
        let ghost c0 = *context;
        proof {
            assert(hs.take(0) =~= Seq::<EventHandler<F1, F2, F3>>::empty());
        }
        let mut k: usize = 0;
        while k < self.event_handlers.len()
            invariant
                0 <= k <= hs.len(),
                handlers_fold_ok(hs.take(k as int), *entry, c0, *context),
            decreases hs.len() - k,
        {
            let ghost prev = *context;
            let h = &self.event_handlers[k];
            if h.matches_entry(entry) {
                h.call(entry, context);
                proof {
                    match h.callback_spec() {
                        Callback::NoCtx(_) => {
                            assert(handler_step_ok(hs[k as int], *entry, prev, *context));
                        },
                        Callback::Ctx(_) => {
                            assert(handler_step_ok(hs[k as int], *entry, prev, *context));
                        },
                        Callback::CtxMut(f) => {
                            let t = choose|t: &T| *t == prev && call_ensures(
                                f,
                                (t, entry),
                                *context,
                            );
                            assert(*t == prev && *entry == *entry && call_ensures(
                                f,
                                (t, entry),
                                *context,
                            ));
                            assert(handler_step_ok(hs[k as int], *entry, prev, *context));
                        },
                    }
                }
            } else {
                proof {
                    assert(handler_step_ok(hs[k as int], *entry, prev, *context));
                }
            }
            proof {
                lemma_handlers_fold_snoc(hs.take(k as int), hs[k as int], *entry, c0, prev, *context);
                assert(hs.take(k + 1) =~= hs.take(k as int).push(hs[k as int]));
            }
            k += 1;
        }
        proof {
            assert(hs.take(hs.len() as int) =~= hs);
        }
    }

    /// Drains one session's queue through the handlers: the session ends
    /// with an empty queue and a context that is the in-order fold of the
    /// firing callbacks over its old context and its queued records; every
    /// other session is exactly as it was.
    pub fn read_entries<T>(&self, dispatcher: &mut SessionDispatcher<T>, sid: u64) where
        F1: Fn(&Entry),
        F2: Fn(&T, &Entry),
        F3: Fn(&T, &Entry) -> T,

        requires
            old(dispatcher).wf(),
            forall|k: int|
                0 <= k < self.handlers_spec().len() ==> callback_total::<T, F1, F2, F3>(
                    (#[trigger] self.handlers_spec()[k]).callback_spec(),
                ),
        ensures
            final(dispatcher).wf(),
            match sp_find(old(dispatcher)@, sid) {
                Some(i) => {
                    &&& final(dispatcher)@ =~~= old(dispatcher)@.update(
                        i,
                        SessionV {
                            id: old(dispatcher)@[i].id,
                            context: final(dispatcher)@[i].context,
                            queue: Seq::empty(),
                        },
                    )
                    &&& entries_fold_ok(
                        self.handlers_spec(),
                        old(dispatcher)@[i].queue,
                        old(dispatcher)@[i].context,
                        final(dispatcher)@[i].context,
                    )
                },
                None => final(dispatcher)@ =~~= old(dispatcher)@,
            },
    {
        proof {
            crate::dispatcher::lemma_sp_find_props(dispatcher@, sid);
        }
        let ghost before = dispatcher@;
        let (at, sess) = match dispatcher.detach(sid) {
            Some(v) => v,
            None => {
                return ;
            },
        };
        let Session { id, context, queue } = sess;
        let mut context = context;
        let ghost q0 = queue@;
        let ghost c0 = context;
        let ghost hs = self.handlers_spec();
        let mut k: usize = 0;
        proof {
            assert(q0.take(0) =~= Seq::<Entry>::empty());
        }
        while k < queue.len()
            invariant
                queue@ == q0,
                0 <= k <= q0.len(),
                entries_fold_ok(hs, q0.take(k as int), c0, context),
                hs == self.handlers_spec(),
                forall|j: int|
                    0 <= j < hs.len() ==> callback_total::<T, F1, F2, F3>(
                        (#[trigger] hs[j]).callback_spec(),
                    ),
            decreases q0.len() - k,
        {
            let ghost prev = context;
            self.handle_entry(&queue[k], &mut context);
            proof {
                lemma_entries_fold_snoc(hs, q0.take(k as int), q0[k as int], c0, prev, context);
                assert(q0.take(k + 1) =~= q0.take(k as int).push(q0[k as int]));
            }
            k += 1;
        }
        proof {
            assert(q0.take(q0.len() as int) =~= q0);
        }
        let ghost mid = dispatcher@;
        let ghost cfin = context;
        dispatcher.reattach(at, Session { id, context, queue: Vec::new() });
        proof {
            let i = at as int;
            assert(before[i].id == id);
            assert(mid.insert(i, SessionV { id, context: cfin, queue: Seq::<Entry>::empty() })
                =~~= before.update(
                i,
                SessionV { id, context: cfin, queue: Seq::<Entry>::empty() },
            ));
            assert(dispatcher@[i].context == cfin);
        }
    }
}

} // verus!
