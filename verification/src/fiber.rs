//! Handles to fibers, and the cell through which a fiber hands its result
//! to the fiber that joins it.

use vstd::prelude::*;
use crate::algorithm::Algorithm;
use crate::apply::ApplyTo;
use crate::scheduler::laws::{lemma_ended_is_final, lemma_paths_terminate, lemma_record, paths_ok};
use crate::scheduler::model::SchedulerView;
use crate::scheduler::Scheduler;
use crate::stack::StackContext;

verus! {

/// What a fiber leaves behind: the value its function returned, or the
/// message of the panic that ended it.
pub type Outcome<T> = Result<T, String>;

/// The cell that receives the outcome of a fiber.
pub struct JoinHandleInner<T> {
    /// Written once, by the fiber just before it ends.
    pub value: Option<Outcome<T>>,
    /// The fiber whose outcome this is.
    pub thread: usize,
    /// The fiber that created `thread`.
    pub wait: usize,
}

impl<T> JoinHandleInner<T> {
    /// Whether the cell tells the truth in the state `s`: an outcome is
    /// there only if the fiber has ended. `finish` keeps it so, and so
    /// does every step of the scheduler; `complete` alone does not look at
    /// the scheduler.
    pub open spec fn backed(&self, s: SchedulerView) -> bool {
        self.value.is_some() ==> s.valid(self.thread) && s.contexts[self.thread as int].terminated
    }

    /// Stores the outcome of the fiber. The first outcome stays: a second
    /// call changes nothing and returns `false`. The fiber stores its
    /// outcome right before it ends; `finish` does both.
    pub fn complete(&mut self, outcome: Outcome<T>) -> (stored: bool)
        ensures
            stored == old(self).value.is_none(),
            stored ==> final(self).value == Some(outcome),
            !stored ==> final(self).value == old(self).value,
            final(self).thread == old(self).thread,
            final(self).wait == old(self).wait,
    {
        if self.value.is_none() {
            self.value = Some(outcome);
            true
        } else {
            false
        }
    }
}

impl<T> JoinHandleInner<T> {
    /// The running fiber, whose cell this is, ends with `outcome`: the
    /// outcome is stored, unless one is there already, and the fiber
    /// terminates, which schedules the fibers that wait for its end.
    pub fn finish<A: Algorithm>(&mut self, sched: &mut Scheduler<A>, outcome: Outcome<T>)
        requires
            old(sched).wf(),
            !old(sched)@.pinned(old(sched)@.active),
            old(self).thread == old(sched)@.active,
        ensures
            final(sched).wf(),
            final(sched)@ == old(sched)@.terminate(),
            final(self).value.is_some(),
            final(self).backed(final(sched)@),
            final(self).value == (if old(self).value.is_none() {
                Some(outcome)
            } else {
                old(self).value
            }),
            final(self).thread == old(self).thread,
            final(self).wait == old(self).wait,
            final(sched).algo.steals() == old(sched).algo.steals(),
            final(sched).algo.parked() == old(sched).algo.parked(),
    {
        proof {
            lemma_paths_terminate(old(sched)@);
            crate::scheduler::laws::lemma_terminate_wf(old(sched)@);
            lemma_record(old(sched)@.terminate(), old(self).thread, true);
        }
        let _ = self.complete(outcome);
        sched.terminate();
    }

    /// Runs the function of the running fiber, whose cell this is: `f` is
    /// applied to `args`, and the fiber ends with what `f` returned.
    pub fn exec<F, Args: ApplyTo<F, Result = T>, A: Algorithm>(
        &mut self,
        sched: &mut Scheduler<A>,
        f: &F,
        args: Args,
    )
        requires
            old(sched).wf(),
            !old(sched)@.pinned(old(sched)@.active),
            old(self).thread == old(sched)@.active,
            args.accepted(f),
        ensures
            final(sched).wf(),
            final(sched)@ == old(sched)@.terminate(),
            final(self).value.is_some(),
            final(self).backed(final(sched)@),
            old(self).value.is_some() ==> final(self).value == old(self).value,
            old(self).value.is_none() ==> final(self).value.unwrap().is_ok(),
            old(self).value.is_none() ==> args.yields(f, final(self).value.unwrap().unwrap()),
            final(self).thread == old(self).thread,
            final(self).wait == old(self).wait,
            final(sched).algo.steals() == old(sched).algo.steals(),
            final(sched).algo.parked() == old(sched).algo.parked(),
    {
        let result = args.apply_to(f);
        self.finish(sched, Ok(result));
    }
}

/// How a join ended.
pub enum Join<T> {
    /// The fiber has ended; this is what it left behind.
    Done(Outcome<T>),
    /// The fiber still runs: the caller was suspended, and joins again
    /// when it runs next.
    Parked,
    /// The fiber has ended and left nothing behind.
    Missing,
}

/// An owned permission to wait for the end of a fiber.
pub struct ThreadHandle<T> {
    pub inner: JoinHandleInner<T>,
}

/// Another name for `ThreadHandle`.
pub type JoinHandle<T> = ThreadHandle<T>;

impl<T> ThreadHandle<T> {
    /// Id of the fiber.
    pub fn thread_id(&self) -> (r: usize)
        ensures
            r == self.inner.thread,
    {
        self.inner.thread
    }

    /// Waits for the end of the fiber. Where its outcome is there, it is
    /// taken out of the cell and returned; a cell that tells the truth has
    /// an outcome only for a fiber that has ended. Else the running fiber
    /// joins the fiber: it is suspended if the fiber has not ended.
    pub fn join<A: Algorithm>(&mut self, sched: &mut Scheduler<A>) -> (r: Join<T>)
        requires
            old(sched).wf(),
            old(sched)@.active != old(sched)@.dispatcher,
        ensures
            final(sched).wf(),
            final(self).inner.thread == old(self).inner.thread,
            final(self).inner.wait == old(self).inner.wait,
            final(self).inner.value.is_none(),
            old(self).inner.value.is_some() ==> r == Join::Done(old(self).inner.value.unwrap())
                && final(sched)@ == old(sched)@,
            old(self).inner.value.is_none() ==> final(sched)@ == old(sched)@.join(
                old(self).inner.thread,
            ),
            old(self).inner.value.is_none() && old(sched)@.can_join(old(self).inner.thread) ==> r
                == Join::<T>::Parked,
            old(self).inner.value.is_none() && !old(sched)@.can_join(old(self).inner.thread) ==> r
                == Join::<T>::Missing,
            old(self).inner.value.is_some() && old(self).inner.backed(old(sched)@) ==> final(sched)@.valid(old(self).inner.thread) && final(sched)@.contexts[old(self).inner.thread as int].terminated,
            final(sched).algo.steals() == old(sched).algo.steals(),
            final(sched).algo.parked() == old(sched).algo.parked(),
    {
        match self.inner.value.take() {
            Some(outcome) => Join::Done(outcome),
            None => {
                if sched.join(self.inner.thread) {
                    Join::Parked
                } else {
                    Join::Missing
                }
            },
        }
    }
}

/// What an event loop learns when it polls a fiber.
pub enum Polled<T> {
    /// The fiber has ended; this is what it left behind.
    Ready(Outcome<T>),
    /// The fiber has not ended: the caller gave way to it.
    Pending,
    /// The fiber has ended and left nothing behind.
    Missing,
}

/// Why a fiber could not be started.
#[derive(Copy, Clone, PartialEq, Eq, Structural, Debug)]
pub enum StartError {
    /// The fiber has ended.
    Terminated,
}

impl StartError {
    /// The error in words.
    pub fn message(&self) -> (r: &'static str)
        ensures
            r@ == "Fiber terminated"@,
    {
        "Fiber terminated"
    }
}

/// A fiber that was created and is started by its owner.
pub struct Fiber<T> {
    pub handle: ThreadHandle<T>,
    pub started: bool,
}

impl<T> Fiber<T> {
    /// Creates a fiber on `stack` without starting it.
    pub fn new<A: Algorithm>(sched: &mut Scheduler<A>, stack: StackContext) -> (r: Self)
        requires
            old(sched).wf(),
            old(sched)@.contexts.len() < usize::MAX,
        ensures
            final(sched).wf(),
            final(sched)@ == old(sched)@.spawn(Some(stack), false),
            r.handle.inner.thread == old(sched)@.contexts.len(),
            r.handle.inner.wait == old(sched)@.active,
            r.handle.inner.value.is_none(),
            !r.started,
            final(sched).algo.steals() == old(sched).algo.steals(),
            final(sched).algo.parked() == old(sched).algo.parked(),
    {
        let wait = sched.active();
        let thread = sched.spawn_not_schedule(stack);
        Fiber {
            handle: ThreadHandle { inner: JoinHandleInner { value: None, thread, wait } },
            started: false,
        }
    }

    /// Id of the fiber.
    pub fn thread_id(&self) -> (r: usize)
        ensures
            r == self.handle.inner.thread,
    {
        self.handle.thread_id()
    }

    /// The running fiber yields.
    pub fn yield_<A: Algorithm>(&self, sched: &mut Scheduler<A>)
        requires
            old(sched).wf(),
        ensures
            final(sched).wf(),
            final(sched)@ == old(sched)@.yield_now(),
            final(sched).algo.steals() == old(sched).algo.steals(),
            final(sched).algo.parked() == old(sched).algo.parked(),
    {
        sched.yield_();
    }

    /// Pauses the fiber, which must be the running one: it is suspended
    /// until it is started again.
    pub fn suspend<A: Algorithm>(&self, sched: &mut Scheduler<A>)
        requires
            old(sched).wf(),
            old(sched)@.active == self.handle.inner.thread,
            old(sched)@.active != old(sched)@.dispatcher,
        ensures
            final(sched).wf(),
            final(sched)@ == old(sched)@.suspend(),
            final(sched).algo.steals() == old(sched).algo.steals(),
            final(sched).algo.parked() == old(sched).algo.parked(),
    {
        sched.suspend();
    }

    /// Starts the fiber, or resumes it if it is suspended: it is
    /// scheduled. A fiber that has ended, or that the scheduler does not
    /// know, is not started.
    pub fn start<A: Algorithm>(&mut self, sched: &mut Scheduler<A>) -> (r: Result<(), StartError>)
        requires
            old(sched).wf(),
        ensures
            final(sched).wf(),
            final(self).handle == old(self).handle,
            r.is_ok() <==> old(sched)@.can_join(old(self).handle.inner.thread),
            r.is_ok() ==> final(self).started && final(sched)@ == old(sched)@.schedule(
                old(self).handle.inner.thread,
            ),
            r.is_err() ==> r == Err::<(), StartError>(StartError::Terminated) && final(self).started
                == old(self).started && final(sched)@ == old(sched)@,
            final(sched).algo.steals() == old(sched).algo.steals(),
            final(sched).algo.parked() == old(sched).algo.parked(),
    {
        if !self.is_alive(sched) {
            return Err(StartError::Terminated);
        }
        self.started = true;
        let _ = sched.schedule(self.handle.inner.thread);
        Ok(())
    }

    /// Waits for the end of the fiber.
    pub fn join<A: Algorithm>(&mut self, sched: &mut Scheduler<A>) -> (r: Join<T>)
        requires
            old(sched).wf(),
            old(sched)@.active != old(sched)@.dispatcher,
        ensures
            final(sched).wf(),
            final(self).started == old(self).started,
            final(self).handle.inner.thread == old(self).handle.inner.thread,
            final(self).handle.inner.wait == old(self).handle.inner.wait,
            final(self).handle.inner.value.is_none(),
            old(self).handle.inner.value.is_some() ==> r == Join::Done(
                old(self).handle.inner.value.unwrap(),
            ) && final(sched)@ == old(sched)@,
            old(self).handle.inner.value.is_none() ==> final(sched)@ == old(sched)@.join(
                old(self).handle.inner.thread,
            ),
            old(self).handle.inner.value.is_none() && old(sched)@.can_join(
                old(self).handle.inner.thread,
            ) ==> r == Join::<T>::Parked,
            old(self).handle.inner.value.is_none() && !old(sched)@.can_join(
                old(self).handle.inner.thread,
            ) ==> r == Join::<T>::Missing,
            old(self).handle.inner.value.is_some() && old(self).handle.inner.backed(old(sched)@)
                ==> final(sched)@.valid(old(self).handle.inner.thread) && final(sched)@.contexts[old(self).handle.inner.thread as int].terminated,
            final(sched).algo.steals() == old(sched).algo.steals(),
            final(sched).algo.parked() == old(sched).algo.parked(),
    {
        self.handle.join(sched)
    }

    /// Polls the fiber for an event loop that runs in the running fiber. A
    /// fiber that was not started is started. While the fiber has not
    /// ended the caller yields to it and the result is `Pending`; once it
    /// has ended the result is what it left behind.
    pub fn poll<A: Algorithm>(&mut self, sched: &mut Scheduler<A>) -> (r: Polled<T>)
        requires
            old(sched).wf(),
        ensures
            final(sched).wf(),
            final(self).handle.inner.thread == old(self).handle.inner.thread,
            final(self).handle.inner.wait == old(self).handle.inner.wait,
            final(self).started == (old(self).started || old(sched)@.can_join(
                old(self).handle.inner.thread,
            )),
            old(sched)@.can_join(old(self).handle.inner.thread) ==> r == Polled::<T>::Pending
                && final(self).handle.inner.value == old(self).handle.inner.value && final(sched)@
                == (if old(self).started {
                old(sched)@
            } else {
                old(sched)@.schedule(old(self).handle.inner.thread)
            }).yield_now(),
            !old(sched)@.can_join(old(self).handle.inner.thread) ==> final(sched)@ == old(sched)@
                && final(self).handle.inner.value.is_none() && r == (match old(self).handle.inner.value {
                Some(outcome) => Polled::Ready(outcome),
                None => Polled::Missing,
            }),
            final(sched).algo.steals() == old(sched).algo.steals(),
            final(sched).algo.parked() == old(sched).algo.parked(),
    {
        if self.is_alive(sched) {
            if !self.started {
                self.started = true;
                let _ = sched.schedule(self.handle.inner.thread);
            }
            sched.yield_();
            Polled::Pending
        } else {
            match self.handle.inner.value.take() {
                Some(outcome) => Polled::Ready(outcome),
                None => Polled::Missing,
            }
        }
    }

    /// Whether the fiber has not ended yet.
    pub fn is_alive<A: Algorithm>(&self, sched: &Scheduler<A>) -> (r: bool)
        ensures
            r == sched@.can_join(self.handle.inner.thread),
    {
        let id = self.handle.inner.thread;
        id < sched.contexts.len() && !sched.contexts[id].terminated
    }
}

/// A cell that tells the truth goes on doing so: along every path of the
/// scheduler a fiber that has ended stays ended.
pub proof fn lemma_backed_lasts<T>(cell: JoinHandleInner<T>, s: SchedulerView, n: SchedulerView)
    requires
        s.wf(),
        n.wf(),
        cell.backed(s),
        paths_ok(s, n),
    ensures
        cell.backed(n),
{
    if cell.value.is_some() {
        lemma_record(s, cell.thread, true);
        assert(s.contexts[cell.thread as int].ended());
        assert(n.contexts[cell.thread as int].ended());
        lemma_record(n, cell.thread, true);
    }
}

/// Once a join can hand out the outcome of a fiber, that fiber is out of
/// the game: it does not run, no queue will give it control again, and
/// scheduling it changes nothing, so nothing uses its stack any more.
pub proof fn lemma_joined_has_ended<T>(cell: JoinHandleInner<T>, s: SchedulerView)
    requires
        s.wf(),
        cell.value.is_some(),
        cell.backed(s),
    ensures
        s.valid(cell.thread),
        s.contexts[cell.thread as int].ended(),
        cell.thread != s.active,
        !s.ready.contains(cell.thread),
        !s.sleep.contains(cell.thread),
        s.schedule(cell.thread) == s,
        forall|token: isize| (#[trigger] s.claim(cell.thread, token)).contexts[cell.thread as int].ended(),
{
    lemma_ended_is_final(s, cell.thread);
    lemma_record(s, cell.thread, true);
}

} // verus!
