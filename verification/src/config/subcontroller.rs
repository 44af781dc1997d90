//! Subcontrollers and the builder that assembles one from its three
//! pluggable parts: a predicate deciding whether an entry is relevant,
//! an extractor deriving the run routine's parameters from the entry,
//! and the long-running routine itself.
//!
//! `start` and `stop` both route through one operation, "set task",
//! which launches a new generation of the cancel-then-restart protocol
//! recorded in [`crate::task::GenerationLog`]. A stop and a start whose
//! entry the predicate rejects converge: the generation they launch has
//! no work, so nothing ever runs for it
//! ([`SubcontrollerBuilder::lemma_stop_reject_converge`]).

use vstd::prelude::*;

use crate::task::GenerationLog;
use crate::task::Generation;
use crate::task::Phase;

verus! {

/// One request delivered to a subcontroller: the key it concerns and,
/// for a start, the entry that configures the work.
pub enum Request<Key, Entry> {
    /// Run work for this key, configured by this entry.
    Start(Key, Entry),
    /// Tear the key's work down.
    Stop(Key),
}

/// A capability that can be told to start or stop per-key background
/// work. `observed()` is the sequence of requests the instance has
/// accepted so far, which is how the dispatch loop's fan-out contract
/// is stated.
pub trait Subcontroller<Key, Entry>: Sized {
    /// The instance's internal well-formedness; established by its
    /// constructor and preserved by every request.
    spec fn inv(&self) -> bool;

    /// Every request this instance has accepted, oldest first.
    spec fn observed(&self) -> Seq<Request<Key, Entry>>;

    /// Deliver the key's current desired configuration: supersede
    /// whatever generation of work is running with one configured by
    /// `entry`.
    fn start(&mut self, key: &Key, entry: &Entry)
        requires
            old(self).inv(),
        ensures
            final(self).inv(),
            final(self).observed() == old(self).observed().push(Request::Start(*key, *entry)),
    ;

    /// Tear the key's work down: supersede whatever generation is
    /// running with one that runs nothing.
    fn stop(&mut self, key: &Key)
        requires
            old(self).inv(),
        ensures
            final(self).inv(),
            final(self).observed() == old(self).observed().push(Request::Stop(*key)),
    ;
}

/// A predicate deciding whether a subcontroller is interested in an
/// entry at all.
pub trait IfFn<Key, Entry>: Sized {
    /// What the predicate holds of a key and entry.
    spec fn accepts(&self, key: &Key, entry: &Entry) -> bool;

    /// Evaluate the predicate.
    fn call(&self, key: &Key, entry: &Entry) -> (r: bool)
        ensures
            r == self.accepts(key, entry),
    ;
}

/// The default predicate: every entry is relevant.
#[derive(Clone, Copy, Debug)]
pub struct DefaultIfFn;

impl<Key, Entry> IfFn<Key, Entry> for DefaultIfFn {
    open spec fn accepts(&self, key: &Key, entry: &Entry) -> bool {
        true
    }

    fn call(&self, key: &Key, entry: &Entry) -> (r: bool) {
        true
    }
}

/// A predicate with a fixed verdict, independent of key and entry:
/// `ConstIfFn(true)` accepts everything, `ConstIfFn(false)` rejects
/// everything.
#[derive(Clone, Copy, Debug)]
pub struct ConstIfFn(pub bool);

impl<Key, Entry> IfFn<Key, Entry> for ConstIfFn {
    open spec fn accepts(&self, key: &Key, entry: &Entry) -> bool {
        self.0
    }

    fn call(&self, key: &Key, entry: &Entry) -> (r: bool) {
        self.0
    }
}

/// An extractor deriving the run routine's parameter value from a key
/// and its entry.
pub trait ExtractFn<Key, Entry>: Sized {
    /// The parameter type handed to the run routine.
    type Extracted;

    /// What the extractor derives from a key and entry.
    spec fn extracted(&self, key: &Key, entry: &Entry) -> Self::Extracted;

    /// Evaluate the extractor.
    fn call(&self, key: &Key, entry: &Entry) -> (r: Self::Extracted)
        ensures
            r == self.extracted(key, entry),
    ;
}

/// The default extractor: hand the entry through unchanged.
#[derive(Clone, Copy, Debug)]
pub struct DefaultExtractFn;

impl<Key, Entry: Copy> ExtractFn<Key, Entry> for DefaultExtractFn {
    type Extracted = Entry;

    open spec fn extracted(&self, key: &Key, entry: &Entry) -> Entry {
        *entry
    }

    fn call(&self, key: &Key, entry: &Entry) -> (r: Entry) {
        *entry
    }
}

/// What "set task" decides for the generation it launches: which
/// generation it is, and the work it is to run — `None` realizes both
/// a stop and a rejected entry.
pub struct LaunchPlan<Extracted> {
    /// The index of the launched generation in the builder's log.
    pub generation: usize,
    /// The extracted parameters of the work to run, or `None` if this
    /// generation is to run nothing.
    pub work: Option<Extracted>,
}

/// A subcontroller assembled from a predicate and an extractor,
/// driving the cancel-then-restart protocol for one key.
pub struct SubcontrollerBuilder<Key, Entry, If, Extract> {
    /// The predicate deciding whether an entry is relevant.
    pub if_fn: If,
    /// The extractor deriving the run routine's parameters.
    pub extract: Extract,
    /// The generations launched so far, with their protocol state.
    pub generations: GenerationLog,
    /// The requests accepted so far.
    pub history: Ghost<Seq<Request<Key, Entry>>>,
}

/// A fresh subcontroller with the default predicate (always relevant)
/// and the default extractor (the entry itself): no generation
/// launched, no request accepted.
pub fn subcontroller<Key, Entry: Copy>() -> (s: SubcontrollerBuilder<Key, Entry, DefaultIfFn, DefaultExtractFn>)
    ensures
        s.inv(),
        s.observed() == Seq::<Request<Key, Entry>>::empty(),
        s.if_fn == DefaultIfFn,
        s.extract == DefaultExtractFn,
        s.generations.gens@ == Seq::<Generation>::empty(),
{
    SubcontrollerBuilder {
        if_fn: DefaultIfFn,
        extract: DefaultExtractFn,
        generations: GenerationLog::new(),
        history: Ghost(Seq::empty()),
    }
}

impl<Key, Entry, If, Extract> SubcontrollerBuilder<Key, Entry, If, Extract> where
    If: IfFn<Key, Entry>,
    Extract: ExtractFn<Key, Entry>,
 {
    /// Replace the predicate. Meant for assembling a subcontroller,
    /// before any request has been accepted.
    pub fn if_<If2: IfFn<Key, Entry>>(self, f: If2) -> (s: SubcontrollerBuilder<
        Key,
        Entry,
        If2,
        Extract,
    >)
        ensures
            s.if_fn == f,
            s.extract == self.extract,
            s.generations == self.generations,
            s.history == self.history,
    {
        SubcontrollerBuilder {
            if_fn: f,
            extract: self.extract,
            generations: self.generations,
            history: self.history,
        }
    }

    /// Replace the extractor. Meant for assembling a subcontroller,
    /// before any request has been accepted.
    pub fn using<Extract2: ExtractFn<Key, Entry>>(self, f: Extract2) -> (s: SubcontrollerBuilder<
        Key,
        Entry,
        If,
        Extract2,
    >)
        ensures
            s.if_fn == self.if_fn,
            s.extract == f,
            s.generations == self.generations,
            s.history == self.history,
    {
        SubcontrollerBuilder {
            if_fn: self.if_fn,
            extract: f,
            generations: self.generations,
            history: self.history,
        }
    }

    /// What one "set task" call does to the builder: it records the
    /// request and launches one generation whose work flag says whether
    /// anything is to run — an entry was supplied and the predicate
    /// accepted it.
    pub open spec fn set_task_post(
        pre: Self,
        post: Self,
        key: Key,
        entry: Option<Entry>,
    ) -> bool {
        &&& post.if_fn == pre.if_fn
        &&& post.extract == pre.extract
        &&& post.generations.gens@ == pre.generations.gens@.push(
            Generation {
                phase: Phase::Waiting,
                work: match entry {
                    Some(e) => pre.if_fn.accepts(&key, &e),
                    None => false,
                },
                cancelled: false,
                signalled: false,
            },
        )
        &&& post.generations.reported@ == pre.generations.reported@
        &&& post.history@ == pre.history@.push(
            match entry {
                Some(e) => Request::Start(key, e),
                None => Request::Stop(key),
            },
        )
    }

    /// Route a start (`entry` supplied) or a stop (`entry` absent) into
    /// one new generation: decide its work — the extracted parameters
    /// if the entry is relevant, nothing otherwise — and launch it in
    /// `Waiting` phase. The caller spawns the generation's body, which
    /// then advances the protocol in `self.generations`.
    pub fn set_task(&mut self, key: &Key, entry: Option<&Entry>) -> (plan: LaunchPlan<
        Extract::Extracted,
    >)
        requires
            old(self).inv(),
        ensures
            final(self).inv(),
            plan.generation == old(self).generations.gens@.len(),
            Self::set_task_post(
                *old(self),
                *final(self),
                *key,
                match entry {
                    Some(e) => Some(*e),
                    None => None,
                },
            ),
            (plan.work is Some) == (match entry {
                Some(e) => old(self).if_fn.accepts(key, e),
                None => false,
            }),
            entry matches Some(e) ==> plan.work == (if old(self).if_fn.accepts(key, e) {
                Some(old(self).extract.extracted(key, e))
            } else {
                None
            }),
    {
        let work = match entry {
            Some(e) => {
                if self.if_fn.call(key, e) {
                    Some(self.extract.call(key, e))
                } else {
                    None
                }
            },
            None => None,
        };
        let g = self.generations.launch(work.is_some());
        proof {
            self.history@ = self.history@.push(
                match entry {
                    Some(e) => Request::Start(*key, *e),
                    None => Request::Stop(*key),
                },
            );
        }
        LaunchPlan { generation: g, work }
    }

    /// Convergence of stop and reject: a `stop` and a `start` whose
    /// entry the predicate rejects have the same effect on the
    /// generations — the launched generation has no work, so by
    /// [`GenerationLog::lemma_no_work_never_runs`] its body never runs
    /// anything.
    pub proof fn lemma_stop_reject_converge(
        pre: Self,
        post_stop: Self,
        post_start: Self,
        key: Key,
        entry: Entry,
    )
        requires
            !pre.if_fn.accepts(&key, &entry),
            Self::set_task_post(pre, post_stop, key, None),
            Self::set_task_post(pre, post_start, key, Some(entry)),
        ensures
            post_stop.generations.gens@ == post_start.generations.gens@,
            post_stop.generations.reported@ == post_start.generations.reported@,
            !post_stop.generations.gens@.last().work,
    {
    }
}

impl<Key, Entry, If, Extract> Subcontroller<Key, Entry> for SubcontrollerBuilder<
    Key,
    Entry,
    If,
    Extract,
> where If: IfFn<Key, Entry>, Extract: ExtractFn<Key, Entry> {
    open spec fn inv(&self) -> bool {
        self.generations.wf()
    }

    open spec fn observed(&self) -> Seq<Request<Key, Entry>> {
        self.history@
    }

    fn start(&mut self, key: &Key, entry: &Entry) {
        let _ = self.set_task(key, Some(entry));
    }

    fn stop(&mut self, key: &Key) {
        let _ = self.set_task(key, None);
    }
}

} // verus!
