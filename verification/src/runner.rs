//! The dispatch loop: a state machine over one mapping from key to
//! handle — the set of subcontroller instances working on that key.
//! For an upsert it looks the key's handle up (instantiating all
//! declared subcontroller kinds on first sight) and starts each
//! subcontroller with the new entry, in declaration order; for a
//! removal it stops each subcontroller already tracked for the key; a
//! removal for an unknown key is a no-op.
//!
//! The fan-out contract is the ensures of [`Runner::step`]: each event
//! appends exactly one request to each subcontroller of its key's
//! handle, and the runner's journal records those invocations in
//! declaration order, whole-event by whole-event. [`Runner::run`]
//! consumes a produced sequence of events, aborting on the first event
//! source error and surfacing it as the run's terminal result.

use vstd::prelude::*;

use crate::config::Config;
use crate::config::Request;
use crate::config::Subcontroller;
use crate::subscriber::Event;
use crate::subscriber::EventKey;

verus! {

/// The terminal error of a run.
pub enum RunError<SubscribeErr> {
    /// The event source itself failed; fatal to the whole run.
    Subscribe(SubscribeErr),
}

/// One invocation the dispatch loop performed: on which declared
/// subcontroller kind, and with which request.
pub struct Invocation<Key, Entry> {
    /// The index of the kind in declaration order.
    pub kind: int,
    /// The request delivered to that kind's instance.
    pub req: Request<Key, Entry>,
}

/// The keys tracked after dispatching one event: an upsert begins
/// tracking its key; a removal never untracks (handles are retained).
pub open spec fn dispatch_keys<Key: View, Entry>(
    keys: Set<Key::V>,
    ev: Event<Key, Entry>,
) -> Set<Key::V> {
    if ev.entry is Some {
        keys.insert(ev.key@)
    } else {
        keys
    }
}

/// The invocations dispatching one event performs, given which keys
/// are tracked: an upsert starts every declared kind, in declaration
/// order; a removal of a tracked key stops every declared kind; a
/// removal of an unknown key does nothing.
pub open spec fn dispatch_journal<Key: View, Entry>(
    keys: Set<Key::V>,
    ev: Event<Key, Entry>,
    declared: nat,
) -> Seq<Invocation<Key, Entry>> {
    match ev.entry {
        Some(e) => Seq::new(
            declared,
            |k: int| Invocation { kind: k, req: Request::Start(ev.key, e) },
        ),
        None => if keys.contains(ev.key@) {
            Seq::new(declared, |k: int| Invocation { kind: k, req: Request::Stop(ev.key) })
        } else {
            Seq::empty()
        },
    }
}

/// The keys tracked after dispatching a whole sequence of events.
pub open spec fn run_keys<Key: View, Entry>(
    keys: Set<Key::V>,
    evs: Seq<Event<Key, Entry>>,
) -> Set<Key::V>
    decreases evs.len(),
{
    if evs.len() == 0 {
        keys
    } else {
        run_keys(dispatch_keys(keys, evs[0]), evs.drop_first())
    }
}

/// The invocations dispatching a whole sequence of events performs.
pub open spec fn run_journal<Key: View, Entry>(
    keys: Set<Key::V>,
    evs: Seq<Event<Key, Entry>>,
    declared: nat,
) -> Seq<Invocation<Key, Entry>>
    decreases evs.len(),
{
    if evs.len() == 0 {
        Seq::empty()
    } else {
        dispatch_journal(keys, evs[0], declared) + run_journal(
            dispatch_keys(keys, evs[0]),
            evs.drop_first(),
            declared,
        )
    }
}

/// Dispatching distributes over appending one event to a sequence.
pub proof fn lemma_run_push<Key: View, Entry>(
    keys: Set<Key::V>,
    evs: Seq<Event<Key, Entry>>,
    ev: Event<Key, Entry>,
    declared: nat,
)
    ensures
        run_keys(keys, evs.push(ev)) == dispatch_keys(run_keys(keys, evs), ev),
        run_journal(keys, evs.push(ev), declared) == run_journal(keys, evs, declared)
            + dispatch_journal(run_keys(keys, evs), ev, declared),
    decreases evs.len(),
{
    let p = evs.push(ev);
    if evs.len() == 0 {
        assert(p[0] == ev);
        assert(p.drop_first() =~= Seq::<Event<Key, Entry>>::empty());
        assert(run_keys(keys, p) == run_keys(dispatch_keys(keys, ev), p.drop_first()));
        assert(run_keys(keys, p) == dispatch_keys(keys, ev));
        assert(run_keys(keys, evs) == keys);
        assert(run_journal(keys, evs, declared) == Seq::<Invocation<Key, Entry>>::empty());
        assert(run_journal(keys, p.drop_first(), declared) == Seq::<
            Invocation<Key, Entry>,
        >::empty());
        assert(run_journal(keys, p, declared) == dispatch_journal(keys, ev, declared)
            + run_journal(dispatch_keys(keys, ev), p.drop_first(), declared));
        assert(run_journal(keys, p, declared) =~= run_journal(keys, evs, declared)
            + dispatch_journal(run_keys(keys, evs), ev, declared));
    } else {
        assert(p[0] == evs[0]);
        assert(p.drop_first() =~= evs.drop_first().push(ev));
        lemma_run_push(dispatch_keys(keys, evs[0]), evs.drop_first(), ev, declared);
        assert(run_keys(keys, p) == run_keys(dispatch_keys(keys, evs[0]), p.drop_first()));
        assert(run_keys(keys, p) == dispatch_keys(run_keys(keys, evs), ev));
        assert(run_journal(keys, p, declared) == dispatch_journal(keys, evs[0], declared)
            + run_journal(dispatch_keys(keys, evs[0]), evs.drop_first().push(ev), declared));
        assert(run_journal(keys, p, declared) =~= run_journal(keys, evs, declared)
            + dispatch_journal(run_keys(keys, evs), ev, declared));
    }
}

/// The index of the first event source error in a produced sequence,
/// or the sequence's length if every item is an event.
pub open spec fn first_err<Key, Entry, SubscribeErr>(
    items: Seq<Result<Event<Key, Entry>, SubscribeErr>>,
) -> int
    decreases items.len(),
{
    if items.len() == 0 {
        0
    } else if items[0] is Err {
        0
    } else {
        1 + first_err(items.drop_first())
    }
}

/// Everything before the first error is an event.
pub proof fn lemma_first_err<Key, Entry, SubscribeErr>(
    items: Seq<Result<Event<Key, Entry>, SubscribeErr>>,
)
    ensures
        0 <= first_err(items) <= items.len(),
        forall|i: int| 0 <= i < first_err(items) ==> (#[trigger] items[i]) is Ok,
        first_err(items) < items.len() ==> items[first_err(items)] is Err,
    decreases items.len(),
{
    if items.len() > 0 && !(items[0] is Err) {
        lemma_first_err(items.drop_first());
        assert forall|i: int| 0 <= i < first_err(items) implies (#[trigger] items[i]) is Ok by {
            if i > 0 {
                assert(items.drop_first()[i - 1] is Ok);
            }
        }
    }
}

/// The dispatch loop's state: the configuration it fans events out
/// with, one handle per tracked key, and the (ghost) journal of every
/// invocation performed so far.
pub struct Runner<C: Config> {
    /// The embedding application's configuration.
    pub config: C,
    /// One handle per key for which an upsert has been observed: the
    /// key, with one subcontroller instance per declared kind, in
    /// declaration order. Handles are retained after a stop.
    pub handles: Vec<(C::TriggerKey, Vec<C::Sub>)>,
    /// Every invocation performed, oldest first.
    pub journal: Ghost<Seq<Invocation<C::TriggerKey, C::Entry>>>,
}

impl<C: Config> Runner<C> where C::TriggerKey: EventKey {
    /// Whether a key with this view is tracked.
    pub open spec fn has_key(self, kv: <C::TriggerKey as View>::V) -> bool {
        exists|i: int|
            0 <= i < self.handles@.len() && (#[trigger] self.handles@[i]).0@ == kv
    }

    /// The handle index of a tracked key.
    pub open spec fn index_of(self, kv: <C::TriggerKey as View>::V) -> int {
        choose|i: int| 0 <= i < self.handles@.len() && (#[trigger] self.handles@[i]).0@ == kv
    }

    /// The set of tracked keys, by view.
    pub open spec fn keys_set(self) -> Set<<C::TriggerKey as View>::V> {
        Set::new(|kv: <C::TriggerKey as View>::V| self.has_key(kv))
    }

    /// The runner's invariant: tracked keys are distinct, and every
    /// handle holds one well-formed instance per declared kind.
    pub open spec fn wf(self) -> bool {
        &&& forall|i: int, j: int|
            #![trigger self.handles@[i], self.handles@[j]]
            0 <= i < j < self.handles@.len() ==> self.handles@[i].0@ != self.handles@[j].0@
        &&& forall|i: int|
            0 <= i < self.handles@.len() ==> (#[trigger] self.handles@[i]).1@.len()
                == self.config.declared()
        &&& forall|i: int, k: int|
            #![trigger self.handles@[i].1@[k]]
            0 <= i < self.handles@.len() && 0 <= k < self.handles@[i].1@.len()
                ==> self.handles@[i].1@[k].inv()
    }

    /// A runner tracking no key yet.
    pub fn new(config: C) -> (r: Self)
        ensures
            r.wf(),
            r.config == config,
            r.handles@ == Seq::<(C::TriggerKey, Vec<C::Sub>)>::empty(),
            r.journal@ == Seq::<Invocation<C::TriggerKey, C::Entry>>::empty(),
    {
        Runner { config, handles: Vec::new(), journal: Ghost(Seq::empty()) }
    }

    /// The handle index of this key, if it is tracked.
    fn find(&self, key: &C::TriggerKey) -> (r: Option<usize>)
        ensures
            match r {
                Some(i) => i < self.handles@.len() && self.handles@[i as int].0@ == key@,
                None => !self.has_key(key@),
            },
    {
        let mut i: usize = 0;
        while i < self.handles.len()
            invariant
                i <= self.handles@.len(),
                forall|j: int| 0 <= j < i ==> (#[trigger] self.handles@[j]).0@ != key@,
            decreases self.handles@.len() - i,
        {
            if self.handles[i].0.key_eq(key) {
                return Some(i);
            }
            i += 1;
        }
        None
    }

    /// Two states whose handles carry the same keys, in order, track
    /// the same key set.
    proof fn lemma_same_keys(pre: Self, post: Self)
        requires
            post.handles@.len() == pre.handles@.len(),
            forall|j: int|
                0 <= j < post.handles@.len() ==> (#[trigger] post.handles@[j]).0@
                    == pre.handles@[j].0@,
        ensures
            post.keys_set() == pre.keys_set(),
    {
        assert forall|kv: <C::TriggerKey as View>::V| pre.has_key(kv) implies post.has_key(
            kv,
        ) by {
            let j = choose|j: int|
                0 <= j < pre.handles@.len() && (#[trigger] pre.handles@[j]).0@ == kv;
            assert(post.handles@[j].0@ == kv);
        }
        assert forall|kv: <C::TriggerKey as View>::V| post.has_key(kv) implies pre.has_key(
            kv,
        ) by {
            let j = choose|j: int|
                0 <= j < post.handles@.len() && (#[trigger] post.handles@[j]).0@ == kv;
            assert(pre.handles@[j].0@ == kv);
        }
        assert(post.keys_set() =~= pre.keys_set());
    }

    /// Appending a handle adds exactly its key to the tracked set.
    proof fn lemma_push_key(pre: Self, post: Self, kv_new: <C::TriggerKey as View>::V)
        requires
            post.handles@.len() == pre.handles@.len() + 1,
            forall|j: int|
                0 <= j < pre.handles@.len() ==> (#[trigger] post.handles@[j]).0@
                    == pre.handles@[j].0@,
            post.handles@[pre.handles@.len() as int].0@ == kv_new,
        ensures
            post.keys_set() == pre.keys_set().insert(kv_new),
    {
        assert forall|kv: <C::TriggerKey as View>::V| post.has_key(kv) implies (pre.has_key(kv)
            || kv == kv_new) by {
            let j = choose|j: int|
                0 <= j < post.handles@.len() && (#[trigger] post.handles@[j]).0@ == kv;
            if j < pre.handles@.len() {
                assert(pre.handles@[j].0@ == kv);
            }
        }
        assert forall|kv: <C::TriggerKey as View>::V| pre.has_key(kv) implies post.has_key(
            kv,
        ) by {
            let j = choose|j: int|
                0 <= j < pre.handles@.len() && (#[trigger] pre.handles@[j]).0@ == kv;
            assert(post.handles@[j].0@ == kv);
        }
        assert(post.has_key(kv_new));
        assert(post.keys_set() =~= pre.keys_set().insert(kv_new));
    }

    /// What one dispatch step does to the handles: the event's key gets
    /// a handle if an upsert first sees it; each subcontroller of that
    /// handle accepts exactly one request — a start with the upsert's
    /// entry, or a stop; every other handle is untouched.
    pub open spec fn step_post(pre: Self, post: Self, ev: Event<C::TriggerKey, C::Entry>) -> bool {
        &&& post.config == pre.config
        &&& post.journal@ == pre.journal@ + dispatch_journal(
            pre.keys_set(),
            ev,
            pre.config.declared(),
        )
        &&& match ev.entry {
            Some(e) => {
                if pre.has_key(ev.key@) {
                    let i = pre.index_of(ev.key@);
                    &&& post.handles@.len() == pre.handles@.len()
                    &&& forall|j: int|
                        0 <= j < post.handles@.len() && j != i ==> post.handles@[j]
                            == pre.handles@[j]
                    &&& post.handles@[i].0 == pre.handles@[i].0
                    &&& post.handles@[i].1@.len() == pre.handles@[i].1@.len()
                    &&& forall|k: int|
                        0 <= k < post.handles@[i].1@.len()
                            ==> (#[trigger] post.handles@[i].1@[k]).observed()
                            == pre.handles@[i].1@[k].observed().push(Request::Start(ev.key, e))
                } else {
                    let n = pre.handles@.len() as int;
                    &&& post.handles@.len() == pre.handles@.len() + 1
                    &&& forall|j: int|
                        0 <= j < pre.handles@.len() ==> post.handles@[j] == pre.handles@[j]
                    &&& post.handles@[n].0 == ev.key
                    &&& post.handles@[n].1@.len() == pre.config.declared()
                    &&& forall|k: int|
                        0 <= k < post.handles@[n].1@.len()
                            ==> (#[trigger] post.handles@[n].1@[k]).observed()
                            == Seq::<Request<C::TriggerKey, C::Entry>>::empty().push(
                            Request::Start(ev.key, e),
                        )
                }
            },
            None => {
                if pre.has_key(ev.key@) {
                    let i = pre.index_of(ev.key@);
                    &&& post.handles@.len() == pre.handles@.len()
                    &&& forall|j: int|
                        0 <= j < post.handles@.len() && j != i ==> post.handles@[j]
                            == pre.handles@[j]
                    &&& post.handles@[i].0 == pre.handles@[i].0
                    &&& post.handles@[i].1@.len() == pre.handles@[i].1@.len()
                    &&& forall|k: int|
                        0 <= k < post.handles@[i].1@.len()
                            ==> (#[trigger] post.handles@[i].1@[k]).observed()
                            == pre.handles@[i].1@[k].observed().push(Request::Stop(ev.key))
                } else {
                    post.handles@ == pre.handles@
                }
            },
        }
    }

    /// Dispatch one event, as described by [`Self::step_post`].
    pub fn step(&mut self, event: Event<C::TriggerKey, C::Entry>)
        requires
            old(self).wf(),
        ensures
            final(self).wf(),
            Self::step_post(*old(self), *final(self), event),
            final(self).keys_set() == dispatch_keys(old(self).keys_set(), event),
    {
        let ghost pre = *self;
        let Event { key, entry, known: _ } = event;
        let found = self.find(&key);
        match entry {
            Some(e) => {
                match found {
                    Some(i) => {
                        let mut pair = self.handles.remove(i);
                        let ghost subs0 = pair.1@;
                        let n = pair.1.len();
                        let mut k: usize = 0;
                        while k < n
                            invariant
                                n == pair.1@.len(),
                                n == subs0.len(),
                                k <= n,
                                pair.0 == pre.handles@[i as int].0,
                                forall|j: int| 0 <= j < n ==> (#[trigger] pair.1@[j]).inv(),
                                forall|j: int|
                                    0 <= j < k ==> (#[trigger] pair.1@[j]).observed()
                                        == subs0[j].observed().push(Request::Start(key, e)),
                                forall|j: int| k <= j < n ==> pair.1@[j] == subs0[j],
                            decreases n - k,
                        {
                            let sub = &mut pair.1[k];
                            sub.start(&key, &e);
                            k += 1;
                        }
                        self.handles.insert(i, pair);
                        proof {
                            self.lemma_post_known(pre, i as int, key@);
                        }
                    },
                    None => {
                        let mut subs = self.config.subcontrollers();
                        let ghost subs0 = subs@;
                        let n = subs.len();
                        let mut k: usize = 0;
                        while k < n
                            invariant
                                n == subs@.len(),
                                n == subs0.len(),
                                k <= n,
                                forall|j: int| 0 <= j < n ==> (#[trigger] subs@[j]).inv(),
                                forall|j: int|
                                    0 <= j < k ==> (#[trigger] subs@[j]).observed()
                                        == subs0[j].observed().push(Request::Start(key, e)),
                                forall|j: int| k <= j < n ==> subs@[j] == subs0[j],
                            decreases n - k,
                        {
                            let sub = &mut subs[k];
                            sub.start(&key, &e);
                            k += 1;
                        }
                        self.handles.push((key, subs));
                        proof {
                            assert forall|a: int|
                                0 <= a < pre.handles@.len() implies !(pre.handles@[a].0@
                                == key@) by {
                                if pre.handles@[a].0@ == key@ {
                                    assert(pre.has_key(key@));
                                }
                            }
                            Self::lemma_push_key(pre, *self, key@);
                        }
                    },
                }
            },
            None => {
                match found {
                    Some(i) => {
                        let mut pair = self.handles.remove(i);
                        let ghost subs0 = pair.1@;
                        let n = pair.1.len();
                        let mut k: usize = 0;
                        while k < n
                            invariant
                                n == pair.1@.len(),
                                n == subs0.len(),
                                k <= n,
                                pair.0 == pre.handles@[i as int].0,
                                forall|j: int| 0 <= j < n ==> (#[trigger] pair.1@[j]).inv(),
                                forall|j: int|
                                    0 <= j < k ==> (#[trigger] pair.1@[j]).observed()
                                        == subs0[j].observed().push(Request::Stop(key)),
                                forall|j: int| k <= j < n ==> pair.1@[j] == subs0[j],
                            decreases n - k,
                        {
                            let sub = &mut pair.1[k];
                            sub.stop(&key);
                            k += 1;
                        }
                        self.handles.insert(i, pair);
                        proof {
                            self.lemma_post_known(pre, i as int, key@);
                        }
                    },
                    None => {},
                }
            },
        }
        proof {
            self.journal@ = self.journal@ + dispatch_journal(
                pre.keys_set(),
                event,
                pre.config.declared(),
            );
            if event.entry is Some && pre.has_key(event.key@) {
                assert(pre.keys_set().insert(event.key@) =~= pre.keys_set());
            }
            if event.entry is None && !pre.has_key(event.key@) {
                Self::lemma_same_keys(pre, *self);
            }
        }
    }

    /// After replacing the handle at a tracked key's index with one
    /// whose key is unchanged, the tracked keys are unchanged, the
    /// replaced index is the key's index, and every other handle kept
    /// its place.
    proof fn lemma_post_known(self, pre: Self, i: int, kv: <C::TriggerKey as View>::V)
        requires
            pre.wf(),
            0 <= i < pre.handles@.len(),
            pre.handles@[i].0@ == kv,
            self.handles@.len() == pre.handles@.len(),
            self.handles@[i].0 == pre.handles@[i].0,
            forall|j: int|
                0 <= j < self.handles@.len() && j != i ==> (#[trigger] self.handles@[j])
                    == pre.handles@[j],
        ensures
            pre.has_key(kv),
            pre.index_of(kv) == i,
            self.keys_set() == pre.keys_set(),
    {
        assert(pre.has_key(kv));
        let i0 = pre.index_of(kv);
        assert(0 <= i0 < pre.handles@.len() && pre.handles@[i0].0@ == kv);
        assert(i0 == i);
        Self::lemma_same_keys(pre, self);
    }

    /// Consume a produced sequence of event source items: dispatch each
    /// event in order, aborting on the first event source error, which
    /// is fatal to the whole run and surfaced as its terminal result.
    #[verifier::loop_isolation(false)]
    pub fn run<SubscribeErr>(
        &mut self,
        items: Vec<Result<Event<C::TriggerKey, C::Entry>, SubscribeErr>>,
    ) -> (r: Result<(), RunError<SubscribeErr>>)
        requires
            old(self).wf(),
        ensures
            final(self).wf(),
            final(self).config == old(self).config,
            (r is Ok) == (first_err(items@) == items@.len()),
            r matches Err(err) ==> (first_err(items@) < items@.len() && err
                == RunError::Subscribe(items@[first_err(items@)]->Err_0)),
            final(self).journal@ == old(self).journal@ + run_journal(
                old(self).keys_set(),
                Seq::new(first_err(items@) as nat, |i: int| items@[i]->Ok_0),
                old(self).config.declared(),
            ),
            final(self).keys_set() == run_keys(
                old(self).keys_set(),
                Seq::new(first_err(items@) as nat, |i: int| items@[i]->Ok_0),
            ),
    {
        proof {
            lemma_first_err(items@);
        }
        let ghost pre = *self;
        let ghost fe = first_err(items@);
        let ghost all = items@;
        let mut rest = items;
        let mut i: usize = 0;
        let n = rest.len();
        while i < n
            invariant
                self.wf(),
                self.config == pre.config,
                n == all.len(),
                rest@ == all.subrange(i as int, n as int),
                i <= n,
                0 <= fe <= all.len(),
                fe == first_err(all),
                forall|j: int| 0 <= j < fe ==> (#[trigger] all[j]) is Ok,
                fe < all.len() ==> all[fe] is Err,
                i <= fe,
                self.journal@ == pre.journal@ + run_journal(
                    pre.keys_set(),
                    Seq::new(i as nat, |j: int| all[j]->Ok_0),
                    pre.config.declared(),
                ),
                self.keys_set() == run_keys(
                    pre.keys_set(),
                    Seq::new(i as nat, |j: int| all[j]->Ok_0),
                ),
            decreases n - i,
        {
            let ghost prefix = Seq::new(i as nat, |j: int| all[j]->Ok_0);
            let item = rest.remove(0);
            proof {
                assert(item == all[i as int]);
                assert(rest@ =~= all.subrange(i as int + 1, n as int));
            }
            match item {
                Ok(ev) => {
                    proof {
                        assert(all[i as int] is Ok);
                    }
                    self.step(ev);
                    proof {
                        lemma_run_push(pre.keys_set(), prefix, ev, pre.config.declared());
                        assert(Seq::new((i + 1) as nat, |j: int| all[j]->Ok_0) =~= prefix.push(
                            ev,
                        ));
                        assert(self.journal@ =~= pre.journal@ + run_journal(
                            pre.keys_set(),
                            prefix.push(ev),
                            pre.config.declared(),
                        ));
                    }
                },
                Err(source_err) => {
                    proof {
                        assert(i as int == fe);
                    }
                    return Err(RunError::Subscribe(source_err));
                },
            }
            i += 1;
        }
        proof {
            assert(fe == all.len());
        }
        Ok(())
    }
}

} // verus!
