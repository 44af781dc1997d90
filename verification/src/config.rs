//! The aggregate contract an embedding application supplies to the
//! dispatch loop: a factory producing one fresh instance of each
//! declared subcontroller kind, in stable order. The event source half
//! of the application's configuration is asynchronous and lives with
//! the unverified shell; the loop in [`crate::runner`] takes the events
//! it produced as plain values.

use vstd::prelude::*;

mod subcontroller;

pub use subcontroller::ConstIfFn;
pub use subcontroller::DefaultExtractFn;
pub use subcontroller::DefaultIfFn;
pub use subcontroller::ExtractFn;
pub use subcontroller::IfFn;
pub use subcontroller::LaunchPlan;
pub use subcontroller::Request;
pub use subcontroller::Subcontroller;
pub use subcontroller::SubcontrollerBuilder;
pub use subcontroller::subcontroller;

verus! {

/// A deferred subcontroller constructor: called lazily once per newly
/// observed key, so that every key gets independent subcontroller
/// state.
pub trait SubcontrollerCtor: Sized {
    /// The key type the produced subcontrollers are driven by.
    type Key;

    /// The entry type the produced subcontrollers are configured with.
    type Entry;

    /// The subcontroller type produced.
    type Sub: Subcontroller<Self::Key, Self::Entry>;

    /// Produce one fresh instance: well-formed, with no request
    /// accepted yet.
    fn make(&self) -> (s: Self::Sub)
        ensures
            s.inv(),
            s.observed() == Seq::<Request<Self::Key, Self::Entry>>::empty(),
    ;
}

/// Parameters for the dispatch loop: the set of subcontroller kinds to
/// run for every key, as a pure factory.
pub trait Config: Sized {
    /// The key type mapping an event to its subcontroller set.
    type TriggerKey;

    /// The data associated with an event.
    type Entry;

    /// The subcontroller type the factory produces.
    type Sub: Subcontroller<Self::TriggerKey, Self::Entry>;

    /// How many subcontroller kinds are declared.
    spec fn declared(&self) -> nat;

    /// One freshly constructed instance per declared kind, in stable
    /// declaration order. Called exactly once per newly observed key.
    fn subcontrollers(&self) -> (subs: Vec<Self::Sub>)
        ensures
            subs@.len() == self.declared(),
            forall|i: int|
                0 <= i < subs@.len() ==> (#[trigger] subs@[i]).inv() && subs@[i].observed()
                    == Seq::<Request<Self::TriggerKey, Self::Entry>>::empty(),
    ;
}

/// Assembles a [`Config`] from zero or more subcontroller-kind
/// constructors.
pub struct Builder<Ctor> {
    /// The declared subcontroller kinds, as deferred constructors, in
    /// declaration order.
    pub kinds: Vec<Ctor>,
}

impl<Ctor: SubcontrollerCtor> Builder<Ctor> {
    /// A configuration declaring no subcontroller kind yet.
    pub fn new() -> (b: Self)
        ensures
            b.kinds@ == Seq::<Ctor>::empty(),
    {
        Builder { kinds: Vec::new() }
    }

    /// Adds a subcontroller kind to this config.
    pub fn with(self, ctor: Ctor) -> (b: Self)
        ensures
            b.kinds@ == self.kinds@.push(ctor),
    {
        let mut kinds = self.kinds;
        kinds.push(ctor);
        Builder { kinds }
    }
}

impl<Key, Entry, If, Extract> SubcontrollerCtor for SubcontrollerBuilder<Key, Entry, If, Extract>
    where If: IfFn<Key, Entry> + Copy, Extract: ExtractFn<Key, Entry> + Copy
{
    type Key = Key;

    type Entry = Entry;

    type Sub = Self;

    /// A configured builder is its own constructor: each key gets a
    /// fresh instance with the same predicate and extractor and its own
    /// generation state.
    fn make(&self) -> (s: Self::Sub) {
        SubcontrollerBuilder {
            if_fn: self.if_fn,
            extract: self.extract,
            generations: crate::task::GenerationLog::new(),
            history: Ghost(Seq::empty()),
        }
    }
}

impl<Ctor: SubcontrollerCtor> Config for Builder<Ctor> {
    type TriggerKey = Ctor::Key;

    type Entry = Ctor::Entry;

    type Sub = Ctor::Sub;

    open spec fn declared(&self) -> nat {
        self.kinds@.len()
    }

    fn subcontrollers(&self) -> (subs: Vec<Self::Sub>) {
        let mut subs: Vec<Ctor::Sub> = Vec::new();
        let mut i: usize = 0;
        while i < self.kinds.len()
            invariant
                i <= self.kinds@.len(),
                subs@.len() == i,
                forall|k: int|
                    0 <= k < subs@.len() ==> (#[trigger] subs@[k]).inv() && subs@[k].observed()
                        == Seq::<Request<Ctor::Key, Ctor::Entry>>::empty(),
            decreases self.kinds@.len() - i,
        {
            subs.push(self.kinds[i].make());
            i += 1;
        }
        subs
    }
}

} // verus!
