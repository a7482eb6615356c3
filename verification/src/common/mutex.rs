//! A mutual exclusion lock for fibers.

use vstd::prelude::*;
use crate::algorithm::Algorithm;
use crate::scheduler::model::SchedulerView;
use crate::scheduler::Scheduler;
use crate::wait_queue::WaitQueue;

verus! {

/// A mutex as a mathematical value.
pub struct MutexView {
    /// The fiber that holds the lock.
    pub owner: Option<usize>,
    /// The fibers that wait for the lock, first come first.
    pub waiters: Seq<usize>,
}

/// The state after an operation on a mutex.
pub struct MutexStep {
    pub mutex: MutexView,
    pub sched: SchedulerView,
    /// Whether the calling fiber holds the lock afterwards.
    pub acquired: bool,
}

impl MutexView {
    /// The running fiber asks for the lock: it gets a free lock at once,
    /// and else enters the queue and is suspended.
    pub open spec fn lock(self, s: SchedulerView) -> MutexStep {
        if self.owner.is_none() {
            MutexStep {
                mutex: MutexView { owner: Some(s.active), ..self },
                sched: s,
                acquired: true,
            }
        } else {
            MutexStep {
                mutex: MutexView { waiters: self.waiters.push(s.active), ..self },
                sched: s.suspend(),
                acquired: false,
            }
        }
    }

    /// The running fiber asks for the lock without waiting.
    pub open spec fn try_lock(self, s: SchedulerView) -> MutexStep {
        if self.owner.is_none() {
            MutexStep {
                mutex: MutexView { owner: Some(s.active), ..self },
                sched: s,
                acquired: true,
            }
        } else {
            MutexStep { mutex: self, sched: s, acquired: false }
        }
    }

    /// The lock becomes free, and the first waiter is scheduled so that it
    /// can ask again.
    pub open spec fn unlock(self, s: SchedulerView) -> MutexStep {
        if self.waiters.len() > 0 {
            MutexStep {
                mutex: MutexView { owner: None, waiters: self.waiters.drop_first() },
                sched: s.schedule(self.waiters[0]),
                acquired: false,
            }
        } else {
            MutexStep { mutex: MutexView { owner: None, ..self }, sched: s, acquired: false }
        }
    }
}

/// A lock that at most one fiber holds.
pub struct Mutex {
    pub owner: Option<usize>,
    pub wait_queue: WaitQueue,
}

impl View for Mutex {
    type V = MutexView;

    open spec fn view(&self) -> MutexView {
        MutexView { owner: self.owner, waiters: self.wait_queue@ }
    }
}

impl Mutex {
    /// A mutex that nobody holds.
    pub fn new() -> (r: Self)
        ensures
            r@ == (MutexView { owner: None, waiters: Seq::empty() }),
    {
        Mutex { owner: None, wait_queue: WaitQueue::new() }
    }

    /// The fiber that holds the lock.
    pub fn owner(&self) -> (r: Option<usize>)
        ensures
            r == self@.owner,
    {
        self.owner
    }

    /// Acquires the lock for the running fiber, which must not hold it
    /// already. A free lock is taken at once and the result is `true`. Else
    /// the fiber enters the queue and is suspended; the result is `false`,
    /// and the fiber asks again when it runs next.
    pub fn lock<A: Algorithm>(&mut self, sched: &mut Scheduler<A>) -> (acquired: bool)
        requires
            old(sched).wf(),
            old(sched)@.active != old(sched)@.dispatcher,
            old(self)@.owner != Some(old(sched)@.active),
        ensures
            final(sched).wf(),
            acquired == old(self)@.owner.is_none(),
            acquired == old(self)@.lock(old(sched)@).acquired,
            final(self)@ == old(self)@.lock(old(sched)@).mutex,
            final(sched)@ == old(self)@.lock(old(sched)@).sched,
            final(sched).algo.steals() == old(sched).algo.steals(),
            final(sched).algo.parked() == old(sched).algo.parked(),
    {
        let me = sched.active();
        if self.owner.is_none() {
            self.owner = Some(me);
            true
        } else {
            self.wait_queue.queue.push_back(me);
            sched.suspend();
            false
        }
    }

    /// Acquires the lock for the running fiber, which must not hold it
    /// already, if it is free. Never suspends.
    pub fn try_lock<A: Algorithm>(&mut self, sched: &Scheduler<A>) -> (acquired: bool)
        requires
            old(self)@.owner != Some(sched@.active),
        ensures
            acquired == old(self)@.owner.is_none(),
            final(self)@ == old(self)@.try_lock(sched@).mutex,
    {
        if self.owner.is_none() {
            self.owner = Some(sched.active());
            true
        } else {
            false
        }
    }

    /// Releases the lock, which the running fiber must hold. The first
    /// waiter, if there is one, is scheduled and returned.
    pub fn unlock<A: Algorithm>(&mut self, sched: &mut Scheduler<A>) -> (next: Option<usize>)
        requires
            old(sched).wf(),
            old(self)@.owner == Some(old(sched)@.active),
        ensures
            final(sched).wf(),
            final(self)@ == old(self)@.unlock(old(sched)@).mutex,
            final(sched)@ == old(self)@.unlock(old(sched)@).sched,
            next == (if old(self)@.waiters.len() > 0 {
                Some(old(self)@.waiters[0])
            } else {
                None
            }),
            final(self)@.owner.is_none(),
            final(sched).algo.steals() == old(sched).algo.steals(),
            final(sched).algo.parked() == old(sched).algo.parked(),
    {
        self.owner = None;
        self.wait_queue.pass(sched)
    }
}

/// At most one fiber holds a mutex. A free mutex is acquired without a
/// suspension; while a fiber holds it no lock and no try-lock succeeds, and
/// after the holder released it nobody holds it.
pub proof fn lemma_mutual_exclusion(m: MutexView, s: SchedulerView, t: SchedulerView)
    ensures
        m.owner.is_none() ==> m.lock(s).acquired && m.lock(s).sched == s && m.lock(s).mutex.owner
            == Some(s.active),
        m.owner.is_some() ==> !m.lock(s).acquired && m.lock(s).mutex.owner == m.owner,
        m.owner.is_some() ==> !m.try_lock(s).acquired && m.try_lock(s).mutex == m,
        m.lock(s).acquired ==> !m.lock(s).mutex.lock(t).acquired && !m.lock(s).mutex.try_lock(
            t,
        ).acquired,
        m.unlock(s).mutex.owner.is_none(),
{
}

} // verus!
