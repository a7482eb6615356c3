//! A condition variable for fibers.

use vstd::prelude::*;
use crate::algorithm::Algorithm;
use crate::context::is_token;
use crate::common::mutex::{Mutex, MutexView};
use crate::scheduler::laws::lemma_schedule_keeps_roles;
use crate::scheduler::model::SchedulerView;
use crate::scheduler::Scheduler;
use crate::wait_queue::{wake_all, wake_one, WaitQueue};

verus! {

/// Whether a wait ended by a notification or by the expiry of a deadline.
#[derive(Clone, Copy, PartialEq, Eq, Structural, Debug)]
pub enum CvStatus {
    NoTimeout,
    Timeout,
}

/// A condition variable as a mathematical value.
pub struct CondvarView {
    /// The fibers that wait, first come first.
    pub waiters: Seq<usize>,
    /// The value that waiters publish in their wake-status word.
    pub token: isize,
}

/// The state after a wait on a condition variable.
pub struct WaitStep {
    pub waiters: Seq<usize>,
    pub mutex: MutexView,
    pub sched: SchedulerView,
}

impl CondvarView {
    /// The running fiber publishes its wait, enters the queue, releases
    /// the mutex and is suspended.
    pub open spec fn wait(self, m: MutexView, s: SchedulerView) -> WaitStep {
        let published = s.set_word(s.active, self.token);
        let released = m.unlock(published);
        WaitStep {
            waiters: self.waiters.push(s.active),
            mutex: released.mutex,
            sched: released.sched.suspend(),
        }
    }
}

/// A queue of fibers that wait until another fiber notifies them.
pub struct Condvar {
    pub wait_queue: WaitQueue,
    pub token: isize,
}

impl View for Condvar {
    type V = CondvarView;

    open spec fn view(&self) -> CondvarView {
        CondvarView { waiters: self.wait_queue@, token: self.token }
    }
}

impl Condvar {
    /// The invariant: the token names the condition variable.
    pub open spec fn wf(&self) -> bool {
        is_token(self.token)
    }

    /// A condition variable without waiters, whose waiters publish `token`.
    pub fn new(token: isize) -> (r: Self)
        requires
            is_token(token),
        ensures
            r.wf(),
            r@ == (CondvarView { waiters: Seq::empty(), token }),
    {
        Condvar { wait_queue: WaitQueue::new(), token }
    }

    /// Makes the running fiber, which must hold `m`, wait: it publishes the
    /// token, enters the queue, releases `m` and is suspended. When it runs
    /// next it has to acquire `m` again.
    pub fn wait_for_mutex<A: Algorithm>(&mut self, m: &mut Mutex, sched: &mut Scheduler<A>)
        requires
            old(sched).wf(),
            old(sched)@.active != old(sched)@.dispatcher,
            old(m)@.owner == Some(old(sched)@.active),
        ensures
            final(sched).wf(),
            final(self)@.token == old(self)@.token,
            final(self)@.waiters == old(self)@.wait(old(m)@, old(sched)@).waiters,
            final(m)@ == old(self)@.wait(old(m)@, old(sched)@).mutex,
            final(sched)@ == old(self)@.wait(old(m)@, old(sched)@).sched,
            final(sched).algo.steals() == old(sched).algo.steals(),
            final(sched).algo.parked() == old(sched).algo.parked(),
    {
        let me = sched.active();
        sched.publish(self.token);
        self.wait_queue.queue.push_back(me);
        let _ = m.unlock(sched);
        proof {
            if old(m)@.waiters.len() > 0 {
                lemma_schedule_keeps_roles(old(sched)@.set_word(me, self.token), old(m)@.waiters[0]);
            }
        }
        sched.suspend();
    }

    /// Makes the running fiber wait unless `satisfied` holds. Returns
    /// whether the fiber was suspended; it then has to acquire `m` and to
    /// test its condition again when it runs next.
    pub fn wait_pred<A: Algorithm>(
        &mut self,
        m: &mut Mutex,
        sched: &mut Scheduler<A>,
        satisfied: bool,
    ) -> (parked: bool)
        requires
            old(sched).wf(),
            old(sched)@.active != old(sched)@.dispatcher,
            old(m)@.owner == Some(old(sched)@.active),
        ensures
            final(sched).wf(),
            parked == !satisfied,
            final(self)@.token == old(self)@.token,
            satisfied ==> final(self)@ == old(self)@ && final(m)@ == old(m)@ && final(sched)@
                == old(sched)@,
            !satisfied ==> final(self)@.waiters == old(self)@.wait(old(m)@, old(sched)@).waiters,
            !satisfied ==> final(m)@ == old(self)@.wait(old(m)@, old(sched)@).mutex,
            !satisfied ==> final(sched)@ == old(self)@.wait(old(m)@, old(sched)@).sched,
            final(sched).algo.steals() == old(sched).algo.steals(),
            final(sched).algo.parked() == old(sched).algo.parked(),
    {
        if satisfied {
            false
        } else {
            self.wait_for_mutex(m, sched);
            true
        }
    }

    /// Wakes the first waiter that can be claimed, and returns it. Waiters
    /// before it that are lost to the waker leave the queue; at a waiter
    /// that has not published its wait the waker stops.
    pub fn notify_one<A: Algorithm>(&mut self, sched: &mut Scheduler<A>) -> (r: Option<usize>)
        requires
            old(sched).wf(),
        ensures
            final(sched).wf(),
            final(self)@.token == old(self)@.token,
            final(sched)@ == wake_one(old(sched)@, old(self)@.waiters, old(self)@.token).sched,
            final(self)@.waiters == wake_one(
                old(sched)@,
                old(self)@.waiters,
                old(self)@.token,
            ).queue,
            r.is_some() <==> wake_one(old(sched)@, old(self)@.waiters, old(self)@.token).woke.len()
                == 1,
            r.is_some() ==> wake_one(old(sched)@, old(self)@.waiters, old(self)@.token).woke
                == seq![r.unwrap()],
            r.is_none() ==> final(sched)@ == old(sched)@,
            final(sched).algo.steals() == old(sched).algo.steals(),
            final(sched).algo.parked() == old(sched).algo.parked(),
    {
        self.wait_queue.notify_one(sched, self.token)
    }

    /// Wakes every waiter that can be claimed, and returns their number.
    pub fn notify_all<A: Algorithm>(&mut self, sched: &mut Scheduler<A>) -> (r: usize)
        requires
            old(sched).wf(),
        ensures
            final(sched).wf(),
            final(self)@.token == old(self)@.token,
            final(sched)@ == wake_all(old(sched)@, old(self)@.waiters, old(self)@.token).sched,
            final(self)@.waiters == wake_all(
                old(sched)@,
                old(self)@.waiters,
                old(self)@.token,
            ).queue,
            r == wake_all(old(sched)@, old(self)@.waiters, old(self)@.token).woke.len(),
            final(sched).algo.steals() == old(sched).algo.steals(),
            final(sched).algo.parked() == old(sched).algo.parked(),
    {
        self.wait_queue.notify_all(sched, self.token)
    }
}

} // verus!
