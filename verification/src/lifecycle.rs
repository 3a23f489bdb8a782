//! The life of a node's workers: started once, asked to stop, joined one by one.
//!
//! Threads are started and joined elsewhere. Here stands the bookkeeping that
//! says what is to be done next and what came of it.

use crate::error::KVError;
use vstd::prelude::*;

verus! {

/// The state of a node's workers, as numbers.
pub struct LifecycleView {
    /// How many workers the node has, one for each shard.
    pub workers: nat,
    /// Whether the workers were started.
    pub started: bool,
    /// Whether the workers were asked to stop.
    pub stopping: bool,
    /// How many workers were joined: those numbered below this.
    pub joined: nat,
    /// How many of the joined workers had ended abnormally.
    pub failed: nat,
}

impl LifecycleView {
    /// The state of `workers` workers before any was started.
    pub open spec fn fresh(workers: nat) -> LifecycleView {
        LifecycleView { workers, started: false, stopping: false, joined: 0, failed: 0 }
    }

    /// No more workers were joined than there are, no more failed than were
    /// joined, and none was joined before the start.
    pub open spec fn wf(self) -> bool {
        &&& self.joined <= self.workers
        &&& self.failed <= self.joined
        &&& !self.started ==> self.joined == 0
    }

    /// How many workers a start brings to life now: all of them the first
    /// time, none after that.
    pub open spec fn to_spawn(self) -> nat {
        if self.started {
            0
        } else {
            self.workers
        }
    }

    /// The state after the workers were started.
    pub open spec fn start(self) -> LifecycleView {
        LifecycleView { started: true, ..self }
    }

    /// The state after the workers were asked to stop.
    pub open spec fn request_shutdown(self) -> LifecycleView {
        LifecycleView { stopping: true, ..self }
    }

    /// The worker to join next: they are joined in the order in which they
    /// were started.
    pub open spec fn next_join(self) -> Option<nat> {
        if self.started && self.joined < self.workers {
            Some(self.joined)
        } else {
            None
        }
    }

    /// The state after the next worker was joined; `clean` tells whether it
    /// had ended in order. Where no worker is left to join, nothing changes.
    pub open spec fn join(self, clean: bool) -> LifecycleView {
        if self.next_join() is Some {
            LifecycleView {
                joined: self.joined + 1,
                failed: if clean {
                    self.failed
                } else {
                    self.failed + 1
                },
                ..self
            }
        } else {
            self
        }
    }

    /// The state after one join for each entry of `outcomes`.
    pub open spec fn join_all(self, outcomes: Seq<bool>) -> LifecycleView
        decreases outcomes.len(),
    {
        if outcomes.len() == 0 {
            self
        } else {
            self.join_all(outcomes.drop_last()).join(outcomes.last())
        }
    }

    /// How many workers were started and not yet joined.
    pub open spec fn outstanding(self) -> nat {
        if self.started {
            (self.workers - self.joined) as nat
        } else {
            0
        }
    }

    /// Whether every worker was started and joined.
    pub open spec fn stopped(self) -> bool {
        self.started && self.joined == self.workers
    }

    /// What the joins brought to light: a failure of any worker is reported.
    pub open spec fn report(self) -> Result<(), KVError> {
        if self.failed > 0 {
            Err(KVError::WorkerFailure)
        } else {
            Ok(())
        }
    }
}

/// How many entries of `outcomes` are `false`.
pub open spec fn failures_in(outcomes: Seq<bool>) -> nat
    decreases outcomes.len(),
{
    if outcomes.len() == 0 {
        0
    } else {
        failures_in(outcomes.drop_last()) + if outcomes.last() {
            0nat
        } else {
            1nat
        }
    }
}

/// Asking twice for a stop is asking once.
pub proof fn lemma_shutdown_is_idempotent(state: LifecycleView)
    ensures
        state.request_shutdown().request_shutdown() == state.request_shutdown(),
{
}

/// Joins take the workers in their order, whatever became of them: after
/// `outcomes.len()` joins that many more workers are joined, as far as there
/// were any left, and each failure among them is counted.
pub proof fn lemma_join_all(state: LifecycleView, outcomes: Seq<bool>)
    requires
        state.wf(),
        state.started,
        outcomes.len() <= state.outstanding(),
    ensures
        state.join_all(outcomes).wf(),
        state.join_all(outcomes).joined == state.joined + outcomes.len(),
        state.join_all(outcomes).failed == state.failed + failures_in(outcomes),
        state.join_all(outcomes).workers == state.workers,
        state.join_all(outcomes).started,
        state.join_all(outcomes).stopping == state.stopping,
    decreases outcomes.len(),
{
    if outcomes.len() > 0 {
        lemma_join_all(state, outcomes.drop_last());
    }
}

/// After a stop was asked for and every outstanding worker was joined, no
/// worker is left, and asking for a stop once more changes nothing.
pub proof fn lemma_shutdown_completes(state: LifecycleView, outcomes: Seq<bool>)
    requires
        state.wf(),
        state.started,
        outcomes.len() == state.outstanding(),
    ensures
        state.request_shutdown().join_all(outcomes).outstanding() == 0,
        state.request_shutdown().join_all(outcomes).stopped(),
        state.request_shutdown().join_all(outcomes).next_join() is None,
        state.request_shutdown().join_all(outcomes).request_shutdown()
            == state.request_shutdown().join_all(outcomes),
        state.request_shutdown().join_all(outcomes).report() is Err <==> failures_in(outcomes)
            + state.failed > 0,
{
    lemma_join_all(state.request_shutdown(), outcomes);
}

/// The bookkeeping of a node's workers.
#[derive(Clone, Copy, Debug)]
pub struct Lifecycle {
    workers: usize,
    started: bool,
    stopping: bool,
    joined: usize,
    failed: usize,
}

impl View for Lifecycle {
    type V = LifecycleView;

    closed spec fn view(&self) -> LifecycleView {
        LifecycleView {
            workers: self.workers as nat,
            started: self.started,
            stopping: self.stopping,
            joined: self.joined as nat,
            failed: self.failed as nat,
        }
    }
}

impl Lifecycle {
    #[verifier::type_invariant]
    spec fn consistent(self) -> bool {
        self@.wf()
    }

    /// The bookkeeping for `workers` workers, none of them started.
    pub fn new(workers: usize) -> (state: Lifecycle)
        ensures
            state@ == LifecycleView::fresh(workers as nat),
    {
        Lifecycle { workers, started: false, stopping: false, joined: 0, failed: 0 }
    }

    /// Marks the workers as started and says how many are to be brought to
    /// life now.
    pub fn start(&mut self) -> (to_spawn: usize)
        ensures
            to_spawn == old(self)@.to_spawn(),
            final(self)@ == old(self)@.start(),
    {
        proof {
            use_type_invariant(&*self);
        }
        let to_spawn = if self.started {
            0
        } else {
            self.workers
        };
        self.started = true;
        to_spawn
    }

    /// Notes that the workers were asked to stop. Says whether this was the
    /// first time.
    pub fn request_shutdown(&mut self) -> (first: bool)
        ensures
            first == !old(self)@.stopping,
            final(self)@ == old(self)@.request_shutdown(),
    {
        proof {
            use_type_invariant(&*self);
        }
        let first = !self.stopping;
        self.stopping = true;
        first
    }

    /// Whether the workers were asked to stop.
    pub fn stop_requested(&self) -> (stopping: bool)
        ensures
            stopping == self@.stopping,
    {
        self.stopping
    }

    /// The worker to join next, if one is left.
    pub fn next_join(&self) -> (worker: Option<usize>)
        ensures
            self@.wf(),
            match worker {
                Some(w) => self@.next_join() == Some(w as nat),
                None => self@.next_join() is None,
            },
    {
        proof {
            use_type_invariant(self);
        }
        if self.started && self.joined < self.workers {
            Some(self.joined)
        } else {
            None
        }
    }

    /// Notes that the next worker was joined, and whether it had ended in
    /// order.
    pub fn record_join(&mut self, clean: bool)
        ensures
            final(self)@ == old(self)@.join(clean),
    {
        proof {
            use_type_invariant(&*self);
        }
        if self.started && self.joined < self.workers {
            self.joined = self.joined + 1;
            if !clean {
                self.failed = self.failed + 1;
            }
        }
    }

    /// How many workers were started and not yet joined.
    pub fn outstanding(&self) -> (n: usize)
        ensures
            self@.wf(),
            n == self@.outstanding(),
    {
        proof {
            use_type_invariant(self);
        }
        if self.started {
            self.workers - self.joined
        } else {
            0
        }
    }

    /// What the joins brought to light.
    pub fn report(&self) -> (verdict: Result<(), KVError>)
        ensures
            verdict == self@.report(),
    {
        if self.failed > 0 {
            Err(KVError::WorkerFailure)
        } else {
            Ok(())
        }
    }
}

} // verus!
