//! The progress channel: a three-outcome (progress / success / error)
//! signalling primitive between one background task and one polling consumer,
//! keyed by a stable numeric identity.
//!
//! The channel itself is sequential; callers that share it across tasks wrap
//! it in their own synchronization and hold the lock only around single
//! calls. Progress events are observed in send order, and the terminal
//! outcome strictly after every progress event of the same task, because
//! `extract` drains the whole queue before `finalize` can surface the
//! outcome.

use vstd::prelude::*;

verus! {

/// How a task ended without a success value: with a reported domain error,
/// or abnormally (the task panicked or was aborted), which the consumer
/// renders differently.
pub enum TaskError<E> {
    Domain(E),
    Panicked(String),
}

/// A single-producer, single-consumer channel with incremental progress
/// events and one terminal outcome per task. `active` distinguishes "no task
/// running" from "task running, no new events yet".
pub struct ProgressChannel<P, S, E> {
    id: usize,
    active: bool,
    queue: Vec<P>,
    terminal: Option<Result<S, TaskError<E>>>,
}

impl<P, S, E> ProgressChannel<P, S, E> {
    /// The identity this channel was created with.
    pub closed spec fn spec_id(&self) -> usize {
        self.id
    }

    /// Whether a task is currently running on this channel.
    pub closed spec fn spec_active(&self) -> bool {
        self.active
    }

    /// The progress events sent and not yet drained, in send order.
    pub closed spec fn spec_queue(&self) -> Seq<P> {
        self.queue@
    }

    /// The terminal outcome, once produced and not yet observed.
    pub closed spec fn spec_terminal(&self) -> Option<Result<S, TaskError<E>>> {
        self.terminal
    }

    /// A fresh, inactive channel with the given identity. The identity must
    /// not be reused across conversations in a process lifetime; the caller
    /// enforces that by construction.
    pub fn new(id: usize) -> (r: Self)
        ensures
            r.spec_id() == id,
            !r.spec_active(),
            r.spec_queue() == Seq::<P>::empty(),
            r.spec_terminal() is None,
    {
        let r = ProgressChannel { id, active: false, queue: Vec::new(), terminal: None };
        proof {
            assert(r.spec_queue() =~= Seq::<P>::empty());
        }
        r
    }

    /// The channel's identity, stable for its whole lifetime.
    pub fn id(&self) -> (r: usize)
        ensures
            r == self.spec_id(),
    {
        self.id
    }

    /// Whether a task is running: true from `activate` until the terminal
    /// outcome is observed by `finalize`.
    pub fn is_active(&self) -> (r: bool)
        ensures
            r == self.spec_active(),
    {
        self.active
    }

    /// Whether a terminal outcome has been produced and not yet observed.
    /// Until it is observed, no further event of the task is valid.
    pub fn has_outcome(&self) -> (r: bool)
        ensures
            r == self.spec_terminal() is Some,
    {
        self.terminal.is_some()
    }

    /// Marks the channel busy. Called exactly once per dispatched task,
    /// before any event of that task is sent.
    pub fn activate(&mut self)
        requires
            !old(self).spec_active(),
        ensures
            final(self).spec_active(),
            final(self).spec_id() == old(self).spec_id(),
            final(self).spec_queue() == old(self).spec_queue(),
            final(self).spec_terminal() == old(self).spec_terminal(),
    {
        self.active = true;
    }

    /// Enqueues one incremental progress event. Multiple sends are delivered
    /// to the consumer in send order. No send is valid after the terminal
    /// outcome.
    pub fn send(&mut self, p: P)
        requires
            old(self).spec_active(),
            old(self).spec_terminal() is None,
        ensures
            final(self).spec_queue() == old(self).spec_queue().push(p),
            final(self).spec_active() == old(self).spec_active(),
            final(self).spec_id() == old(self).spec_id(),
            final(self).spec_terminal() == old(self).spec_terminal(),
    {
        self.queue.push(p);
    }

    /// Ends the task with a success value. Exactly one terminal outcome is
    /// produced per task.
    pub fn success(&mut self, s: S)
        requires
            old(self).spec_active(),
            old(self).spec_terminal() is None,
        ensures
            final(self).spec_terminal() == Some(Result::<S, TaskError<E>>::Ok(s)),
            final(self).spec_active() == old(self).spec_active(),
            final(self).spec_id() == old(self).spec_id(),
            final(self).spec_queue() == old(self).spec_queue(),
    {
        self.terminal = Some(Ok(s));
    }

    /// Ends the task with a domain error.
    pub fn error(&mut self, e: E)
        requires
            old(self).spec_active(),
            old(self).spec_terminal() is None,
        ensures
            final(self).spec_terminal() == Some(
                Result::<S, TaskError<E>>::Err(TaskError::<E>::Domain(e)),
            ),
            final(self).spec_active() == old(self).spec_active(),
            final(self).spec_id() == old(self).spec_id(),
            final(self).spec_queue() == old(self).spec_queue(),
    {
        self.terminal = Some(Err(TaskError::Domain(e)));
    }

    /// Records that the task terminated abnormally (it panicked or was
    /// aborted) with the runtime's description, so the consumer can render a
    /// different diagnostic than for a domain error.
    pub fn panicked(&mut self, msg: String)
        requires
            old(self).spec_active(),
            old(self).spec_terminal() is None,
        ensures
            final(self).spec_terminal() == Some(
                Result::<S, TaskError<E>>::Err(TaskError::<E>::Panicked(msg)),
            ),
            final(self).spec_active() == old(self).spec_active(),
            final(self).spec_id() == old(self).spec_id(),
            final(self).spec_queue() == old(self).spec_queue(),
    {
        self.terminal = Some(Err(TaskError::Panicked(msg)));
    }

    /// Drains every pending progress event, in send order. Safe to call
    /// while the task is still running.
    pub fn extract(&mut self) -> (r: Vec<P>)
        ensures
            r@ == old(self).spec_queue(),
            final(self).spec_queue() == Seq::<P>::empty(),
            final(self).spec_active() == old(self).spec_active(),
            final(self).spec_id() == old(self).spec_id(),
            final(self).spec_terminal() == old(self).spec_terminal(),
    {
        let mut drained: Vec<P> = Vec::new();
        core::mem::swap(&mut self.queue, &mut drained);
        proof {
            assert(self.spec_queue() =~= Seq::<P>::empty());
        }
        drained
    }

    /// Observes the terminal outcome, once: when the task has ended, returns
    /// its outcome and returns the channel to the inactive state, ready for
    /// the next task; otherwise returns nothing and changes nothing.
    pub fn finalize(&mut self) -> (r: Option<Result<S, TaskError<E>>>)
        ensures
            r == old(self).spec_terminal(),
            final(self).spec_queue() == old(self).spec_queue(),
            final(self).spec_id() == old(self).spec_id(),
            old(self).spec_terminal() is Some ==> !final(self).spec_active() && final(self).spec_terminal()
                is None,
            old(self).spec_terminal() is None ==> final(self).spec_active() == old(self).spec_active()
                && final(self).spec_terminal() is None,
    {
        match self.terminal.take() {
            Some(t) => {
                self.active = false;
                Some(t)
            },
            None => None,
        }
    }
}

} // verus!
