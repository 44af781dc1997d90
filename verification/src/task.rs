//! The cancellable-task protocol: one `GenerationLog` records every
//! generation of background work ever launched for one
//! (subcontroller, key) pair, together with the cancellation signal and
//! the lifecycle phase of each.
//!
//! A generation's body follows the cancel-then-restart protocol: it
//! first signals the previous generation's cancellation token and waits
//! for that generation to terminate, then checks its own token, and
//! only then runs its work. The transitions of that protocol are the
//! methods of [`GenerationLog`]; its invariant [`GenerationLog::wf`]
//! yields the two central guarantees, proved below: a generation never
//! begins its work before its predecessor has terminated
//! ([`GenerationLog::lemma_ordering`]), and no two generations of the
//! same pair are ever mid-execution at once
//! ([`GenerationLog::lemma_no_double_run`]).

use vstd::prelude::*;

verus! {

/// The result of one invocation of a run routine.
#[derive(Clone, Copy, Debug, PartialEq, Eq, Structural)]
pub enum RunOutcome {
    /// The routine returned success.
    Success,
    /// The routine returned a controller error; it is reported and
    /// swallowed, never escalated.
    Failure,
    /// The routine terminated abnormally (a crash); it must be
    /// re-raised to whoever joins the task, never reported as a mere
    /// controller error.
    Crash,
}

/// How a generation's body terminated.
#[derive(Clone, Copy, Debug, PartialEq, Eq, Structural)]
pub enum Termination {
    /// The body ran no work: the generation was a stop, its entry was
    /// rejected, or it was superseded before it could begin.
    Skipped,
    /// The run routine returned success.
    Success,
    /// The run routine returned a controller error.
    Failure,
    /// The body crashed, either in its own run routine or by re-raising
    /// a predecessor's crash while joining it.
    Crashed,
}

/// The lifecycle phase of one generation.
#[derive(Clone, Copy, Debug, PartialEq, Eq, Structural)]
pub enum Phase {
    /// Launched; still waiting for the previous generation to
    /// terminate, or not yet scheduled.
    Waiting,
    /// The run routine's body is mid-execution.
    Running,
    /// The body has terminated.
    Done(Termination),
}

/// One generation of background work: a cancellation token paired with
/// the recorded fate of the task it controls.
#[derive(Clone, Copy, Debug, PartialEq, Eq, Structural)]
pub struct Generation {
    /// The lifecycle phase of this generation's body.
    pub phase: Phase,
    /// Whether this generation has work to run: an entry was supplied
    /// and the predicate accepted it.
    pub work: bool,
    /// Whether this generation's cancellation token has fired.
    pub cancelled: bool,
    /// Whether this generation's body has signalled its predecessor's
    /// cancellation token (the first step of the protocol).
    pub signalled: bool,
}

/// The full history of generations for one (subcontroller, key) pair.
pub struct GenerationLog {
    /// All generations ever launched, in launch order.
    pub gens: Vec<Generation>,
    /// Generations whose controller errors were handed to the error
    /// sink, in report order.
    pub reported: Vec<usize>,
}

impl GenerationLog {
    /// The protocol invariant, preserved by every transition: a
    /// generation leaves `Waiting` only after signalling, and only once
    /// every earlier generation has terminated; only a generation with
    /// work ever runs; and only controller errors are ever reported.
    pub open spec fn wf(self) -> bool {
        &&& forall|g: int|
            0 <= g < self.gens@.len() ==> (!((#[trigger] self.gens@[g]).phase is Waiting)
                ==> self.gens@[g].signalled)
        &&& forall|i: int, j: int|
            #![trigger self.gens@[i], self.gens@[j]]
            0 <= i < j < self.gens@.len() ==> (!(self.gens@[j].phase is Waiting)
                ==> self.gens@[i].phase is Done)
        &&& forall|g: int|
            0 <= g < self.gens@.len() ==> ((#[trigger] self.gens@[g]).phase is Running
                ==> self.gens@[g].work)
        &&& forall|r: int|
            0 <= r < self.reported@.len() ==> (#[trigger] self.reported@[r]) < self.gens@.len()
                && self.gens@[self.reported@[r] as int].phase == Phase::Done(Termination::Failure)
    }

    /// An empty log: no generation launched yet.
    pub fn new() -> (log: Self)
        ensures
            log.gens@ == Seq::<Generation>::empty(),
            log.reported@ == Seq::<usize>::empty(),
            log.wf(),
    {
        GenerationLog { gens: Vec::new(), reported: Vec::new() }
    }

    /// Launch a new generation: record it in `Waiting` phase with a
    /// fresh, unfired cancellation token. Launching never touches the
    /// predecessor; the new generation's own body does that, later,
    /// through [`Self::signal_prev`] and [`Self::acquire`].
    #[verifier::rlimit(50)]
    pub fn launch(&mut self, work: bool) -> (g: usize)
        requires
            old(self).wf(),
        ensures
            final(self).wf(),
            g == old(self).gens@.len(),
            final(self).gens@ == old(self).gens@.push(
                Generation { phase: Phase::Waiting, work, cancelled: false, signalled: false },
            ),
            final(self).reported@ == old(self).reported@,
    {
        let g = self.gens.len();
        self.gens.push(Generation {
            phase: Phase::Waiting,
            work,
            cancelled: false,
            signalled: false,
        });
        g
    }

    /// The first step of generation `g`'s body: fire the predecessor's
    /// cancellation token (if there is a predecessor) and note that it
    /// was signalled. Firing a token is idempotent and affects nothing
    /// but the token.
    #[verifier::rlimit(50)]
    pub fn signal_prev(&mut self, g: usize)
        requires
            old(self).wf(),
            g < old(self).gens@.len(),
            (old(self).gens@[g as int].phase is Waiting),
            !old(self).gens@[g as int].signalled,
        ensures
            final(self).wf(),
            final(self).gens@.len() == old(self).gens@.len(),
            final(self).gens@[g as int] == (Generation {
                signalled: true,
                ..old(self).gens@[g as int]
            }),
            g > 0 ==> final(self).gens@[g - 1] == (Generation {
                cancelled: true,
                ..old(self).gens@[g - 1]
            }),
            forall|j: int|
                0 <= j < final(self).gens@.len() && j != g && j != g - 1
                    ==> final(self).gens@[j] == old(self).gens@[j],
            final(self).reported@ == old(self).reported@,
    {
        let gen = self.gens[g];
        self.gens.set(g, Generation { signalled: true, ..gen });
        if g > 0 {
            let prev = self.gens[g - 1];
            self.gens.set(g - 1, Generation { cancelled: true, ..prev });
        }
    }

    /// Generation `g`'s body observed that its predecessor terminated,
    /// and now decides how to proceed: re-raise a predecessor's crash,
    /// skip if its own token has already fired or it has no work, or
    /// begin running its work.
    #[verifier::rlimit(50)]
    pub fn acquire(&mut self, g: usize)
        requires
            old(self).wf(),
            g < old(self).gens@.len(),
            (old(self).gens@[g as int].phase is Waiting),
            old(self).gens@[g as int].signalled,
            g > 0 ==> (old(self).gens@[g - 1].phase is Done),
        ensures
            final(self).wf(),
            final(self).gens@.len() == old(self).gens@.len(),
            forall|j: int|
                0 <= j < final(self).gens@.len() && j != g
                    ==> final(self).gens@[j] == old(self).gens@[j],
            final(self).gens@[g as int] == (Generation {
                phase: final(self).gens@[g as int].phase,
                ..old(self).gens@[g as int]
            }),
            final(self).gens@[g as int].phase == (if g > 0 && old(self).gens@[g - 1].phase
                == Phase::Done(Termination::Crashed) {
                Phase::Done(Termination::Crashed)
            } else if old(self).gens@[g as int].cancelled || !old(self).gens@[g as int].work {
                Phase::Done(Termination::Skipped)
            } else {
                Phase::Running
            }),
            final(self).reported@ == old(self).reported@,
    {
        let gen = self.gens[g];
        let phase = if g > 0 && self.gens[g - 1].phase == Phase::Done(Termination::Crashed) {
            // joining the crashed predecessor re-raises its crash
            Phase::Done(Termination::Crashed)
        } else if gen.cancelled || !gen.work {
            Phase::Done(Termination::Skipped)
        } else {
            Phase::Running
        };
        self.gens.set(g, Generation { phase, ..gen });
    }

    /// Fire generation `g`'s own cancellation token from outside its
    /// body: this is what a successor's [`Self::signal_prev`] or an
    /// explicit shutdown does. Idempotent; nothing else changes.
    #[verifier::rlimit(50)]
    pub fn cancel(&mut self, g: usize)
        requires
            old(self).wf(),
            g < old(self).gens@.len(),
        ensures
            final(self).wf(),
            final(self).gens@.len() == old(self).gens@.len(),
            final(self).gens@[g as int] == (Generation {
                cancelled: true,
                ..old(self).gens@[g as int]
            }),
            forall|j: int|
                0 <= j < final(self).gens@.len() && j != g
                    ==> final(self).gens@[j] == old(self).gens@[j],
            final(self).reported@ == old(self).reported@,
    {
        let gen = self.gens[g];
        self.gens.set(g, Generation { cancelled: true, ..gen });
    }

    /// Generation `g`'s run routine terminated with `outcome`. A
    /// controller error is reported to the error sink and swallowed; a
    /// crash is recorded as such and never reported as a controller
    /// error, so that joining the task re-raises it.
    #[verifier::rlimit(50)]
    pub fn finish(&mut self, g: usize, outcome: RunOutcome)
        requires
            old(self).wf(),
            g < old(self).gens@.len(),
            (old(self).gens@[g as int].phase is Running),
        ensures
            final(self).wf(),
            final(self).gens@.len() == old(self).gens@.len(),
            final(self).gens@[g as int] == (Generation {
                phase: Phase::Done(
                    match outcome {
                        RunOutcome::Success => Termination::Success,
                        RunOutcome::Failure => Termination::Failure,
                        RunOutcome::Crash => Termination::Crashed,
                    },
                ),
                ..old(self).gens@[g as int]
            }),
            forall|j: int|
                0 <= j < final(self).gens@.len() && j != g
                    ==> final(self).gens@[j] == old(self).gens@[j],
            final(self).reported@ == (if outcome is Failure {
                old(self).reported@.push(g)
            } else {
                old(self).reported@
            }),
    {
        let gen = self.gens[g];
        let termination = match outcome {
            RunOutcome::Success => Termination::Success,
            RunOutcome::Failure => Termination::Failure,
            RunOutcome::Crash => Termination::Crashed,
        };
        self.gens.set(g, Generation { phase: Phase::Done(termination), ..gen });
        if outcome == RunOutcome::Failure {
            self.reported.push(g);
        }
    }

    /// Join generation `g`: observe how its body terminated. A caller
    /// that joins a crashed generation observes the crash itself, not a
    /// logged controller error.
    pub fn join(&self, g: usize) -> (t: Termination)
        requires
            g < self.gens@.len(),
            (self.gens@[g as int].phase is Done),
        ensures
            Phase::Done(t) == self.gens@[g as int].phase,
    {
        match self.gens[g].phase {
            Phase::Done(t) => t,
            _ => Termination::Skipped,  // unreachable under the precondition
        }
    }

    /// Every generation before a non-waiting one has terminated.
    pub proof fn lemma_predecessors_done(self, g: int)
        requires
            self.wf(),
            0 <= g < self.gens@.len(),
            !(self.gens@[g].phase is Waiting),
        ensures
            forall|j: int| 0 <= j < g ==> (#[trigger] self.gens@[j]).phase is Done,
    {
    }

    /// Ordering of generations: a generation's body never begins
    /// running its work before its predecessor has terminated.
    pub proof fn lemma_ordering(self, g: int)
        requires
            self.wf(),
            1 <= g < self.gens@.len(),
            self.gens@[g].phase is Running,
        ensures
            self.gens@[g - 1].phase is Done,
    {
    }

    /// No double-run: no two generations of the same
    /// (subcontroller, key) pair are ever mid-execution at once.
    pub proof fn lemma_no_double_run(self, i: int, j: int)
        requires
            self.wf(),
            0 <= i < self.gens@.len(),
            0 <= j < self.gens@.len(),
            i != j,
        ensures
            !(self.gens@[i].phase is Running && self.gens@[j].phase is Running),
    {
        if self.gens@[i].phase is Running && self.gens@[j].phase is Running {
            if i < j {
                self.lemma_predecessors_done(j);
                assert(self.gens@[i].phase is Done);
            } else {
                self.lemma_predecessors_done(i);
                assert(self.gens@[j].phase is Done);
            }
        }
    }

    /// A generation with no work never runs: stopping and a rejected
    /// start leave nothing that could execute.
    pub proof fn lemma_no_work_never_runs(self, g: int)
        requires
            self.wf(),
            0 <= g < self.gens@.len(),
            !self.gens@[g].work,
        ensures
            !(self.gens@[g].phase is Running),
    {
    }

    /// A crash is never converted into a reported controller error:
    /// whoever joins the task sees the crash through the normal fault
    /// path instead.
    pub proof fn lemma_crash_not_reported(self, g: int)
        requires
            self.wf(),
            0 <= g < self.gens@.len(),
            self.gens@[g].phase == Phase::Done(Termination::Crashed),
        ensures
            forall|r: int| 0 <= r < self.reported@.len() ==> (#[trigger] self.reported@[r]) != g,
    {
    }
}

} // verus!
