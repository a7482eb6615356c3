//! Synchronisation primitives for fibers.

use vstd::prelude::*;
use crate::algorithm::Algorithm;
use crate::scheduler::Scheduler;

pub mod barrier;
pub mod channel;
pub mod condvar;
pub mod mutex;

verus! {

/// Proof that a fiber holds a mutex. Handing it back releases the lock.
pub struct MutexGuard {
    /// The fiber that holds the lock.
    pub holder: usize,
}

/// A mutex that protects a value: the value is reached through the guard
/// that `lock` and `try_lock` hand out.
pub struct Mutex<T> {
    pub value: T,
    pub mutex: mutex::Mutex,
}

impl<T> Mutex<T> {
    /// A mutex in an unlocked state around `value`.
    pub fn new(value: T) -> (r: Self)
        ensures
            r.value == value,
            r.mutex@ == (mutex::MutexView { owner: None, waiters: Seq::empty() }),
    {
        Mutex { value, mutex: mutex::Mutex::new() }
    }

    /// Whether `guard` is the guard of the fiber that holds this mutex.
    pub open spec fn held_by(&self, guard: &MutexGuard) -> bool {
        self.mutex@.owner == Some(guard.holder)
    }

    /// Acquires the mutex for the running fiber, which must not hold it
    /// already. Returns the guard where the mutex was free; else the fiber
    /// is suspended, and asks again when it runs next.
    pub fn lock<A: Algorithm>(&mut self, sched: &mut Scheduler<A>) -> (r: Option<MutexGuard>)
        requires
            old(sched).wf(),
            old(sched)@.active != old(sched)@.dispatcher,
            old(self).mutex@.owner != Some(old(sched)@.active),
        ensures
            final(sched).wf(),
            final(self).value == old(self).value,
            r.is_some() <==> old(self).mutex@.owner.is_none(),
            r.is_some() ==> r.unwrap().holder == old(sched)@.active && final(self).held_by(
                &r.unwrap(),
            ),
            final(self).mutex@ == old(self).mutex@.lock(old(sched)@).mutex,
            final(sched)@ == old(self).mutex@.lock(old(sched)@).sched,
            final(sched).algo.steals() == old(sched).algo.steals(),
            final(sched).algo.parked() == old(sched).algo.parked(),
    {
        let me = sched.active();
        if self.mutex.lock(sched) {
            Some(MutexGuard { holder: me })
        } else {
            None
        }
    }

    /// Acquires the mutex for the running fiber, which must not hold it
    /// already, if it is free. Never suspends.
    pub fn try_lock<A: Algorithm>(&mut self, sched: &Scheduler<A>) -> (r: Option<MutexGuard>)
        requires
            old(self).mutex@.owner != Some(sched@.active),
        ensures
            final(self).value == old(self).value,
            r.is_some() <==> old(self).mutex@.owner.is_none(),
            r.is_some() ==> r.unwrap().holder == sched@.active && final(self).held_by(&r.unwrap()),
            final(self).mutex@ == old(self).mutex@.try_lock(sched@).mutex,
    {
        if self.mutex.try_lock(sched) {
            Some(MutexGuard { holder: sched.active() })
        } else {
            None
        }
    }

    /// The protected value, for the fiber that holds the mutex.
    pub fn get(&self, guard: &MutexGuard) -> (r: &T)
        requires
            self.held_by(guard),
        ensures
            *r == self.value,
    {
        &self.value
    }

    /// Stores `value` as the protected value, for the fiber that holds the
    /// mutex, and returns the value that was there.
    pub fn replace(&mut self, guard: &MutexGuard, value: T) -> (r: T)
        requires
            old(self).held_by(guard),
        ensures
            r == old(self).value,
            final(self).value == value,
            final(self).mutex == old(self).mutex,
    {
        let mut value = value;
        std::mem::swap(&mut self.value, &mut value);
        value
    }

    /// Releases the mutex by handing back the guard of the running fiber.
    /// The first waiter, if there is one, is scheduled and returned.
    pub fn unlock<A: Algorithm>(&mut self, guard: MutexGuard, sched: &mut Scheduler<A>) -> (next:
        Option<usize>)
        requires
            old(sched).wf(),
            old(self).held_by(&guard),
            guard.holder == old(sched)@.active,
        ensures
            final(sched).wf(),
            final(self).value == old(self).value,
            final(self).mutex@ == old(self).mutex@.unlock(old(sched)@).mutex,
            final(sched)@ == old(self).mutex@.unlock(old(sched)@).sched,
            next == (if old(self).mutex@.waiters.len() > 0 {
                Some(old(self).mutex@.waiters[0])
            } else {
                None
            }),
            final(sched).algo.steals() == old(sched).algo.steals(),
            final(sched).algo.parked() == old(sched).algo.parked(),
    {
        self.mutex.unlock(sched)
    }
}

/// A condition variable that is used with a `Mutex<T>`.
pub struct Condvar(pub condvar::Condvar);

impl Condvar {
    /// A condition variable without waiters, whose waiters publish `token`.
    pub fn new(token: isize) -> (r: Self)
        requires
            crate::context::is_token(token),
        ensures
            r.0.wf(),
            r.0@ == (condvar::CondvarView { waiters: Seq::empty(), token }),
    {
        Condvar(condvar::Condvar::new(token))
    }

    /// Makes the running fiber wait: it hands back its guard of `m`, which
    /// releases the mutex, and is suspended. When it runs next it has to
    /// lock `m` again.
    pub fn wait_for_mutex<T, A: Algorithm>(
        &mut self,
        m: &mut Mutex<T>,
        guard: MutexGuard,
        sched: &mut Scheduler<A>,
    )
        requires
            old(sched).wf(),
            old(sched)@.active != old(sched)@.dispatcher,
            old(m).held_by(&guard),
            guard.holder == old(sched)@.active,
        ensures
            final(sched).wf(),
            final(m).value == old(m).value,
            final(self).0@.token == old(self).0@.token,
            final(self).0@.waiters == old(self).0@.wait(old(m).mutex@, old(sched)@).waiters,
            final(m).mutex@ == old(self).0@.wait(old(m).mutex@, old(sched)@).mutex,
            final(sched)@ == old(self).0@.wait(old(m).mutex@, old(sched)@).sched,
            final(sched).algo.steals() == old(sched).algo.steals(),
            final(sched).algo.parked() == old(sched).algo.parked(),
    {
        self.0.wait_for_mutex(&mut m.mutex, sched);
    }

    /// Makes the running fiber wait unless `satisfied` holds. Where the
    /// fiber goes on, its guard comes back; where it was suspended, the
    /// mutex is released and the result is `None`.
    pub fn wait_pred<T, A: Algorithm>(
        &mut self,
        m: &mut Mutex<T>,
        guard: MutexGuard,
        sched: &mut Scheduler<A>,
        satisfied: bool,
    ) -> (r: Option<MutexGuard>)
        requires
            old(sched).wf(),
            old(sched)@.active != old(sched)@.dispatcher,
            old(m).held_by(&guard),
            guard.holder == old(sched)@.active,
        ensures
            final(sched).wf(),
            final(m).value == old(m).value,
            final(self).0@.token == old(self).0@.token,
            r.is_some() <==> satisfied,
            satisfied ==> r == Some(guard) && final(self).0@ == old(self).0@ && final(m).mutex@
                == old(m).mutex@ && final(sched)@ == old(sched)@,
            !satisfied ==> final(self).0@.waiters == old(self).0@.wait(
                old(m).mutex@,
                old(sched)@,
            ).waiters,
            !satisfied ==> final(m).mutex@ == old(self).0@.wait(old(m).mutex@, old(sched)@).mutex,
            !satisfied ==> final(sched)@ == old(self).0@.wait(old(m).mutex@, old(sched)@).sched,
            final(sched).algo.steals() == old(sched).algo.steals(),
            final(sched).algo.parked() == old(sched).algo.parked(),
    {
        if self.0.wait_pred(&mut m.mutex, sched, satisfied) {
            None
        } else {
            Some(guard)
        }
    }

    /// Wakes the first waiter that can be claimed, and returns it.
    pub fn notify_one<A: Algorithm>(&mut self, sched: &mut Scheduler<A>) -> (r: Option<usize>)
        requires
            old(sched).wf(),
        ensures
            final(sched).wf(),
            final(self).0@.token == old(self).0@.token,
            final(sched)@ == crate::wait_queue::wake_one(
                old(sched)@,
                old(self).0@.waiters,
                old(self).0@.token,
            ).sched,
            final(self).0@.waiters == crate::wait_queue::wake_one(
                old(sched)@,
                old(self).0@.waiters,
                old(self).0@.token,
            ).queue,
            r.is_some() ==> crate::wait_queue::wake_one(
                old(sched)@,
                old(self).0@.waiters,
                old(self).0@.token,
            ).woke == seq![r.unwrap()],
            r.is_none() ==> final(sched)@ == old(sched)@,
            final(sched).algo.steals() == old(sched).algo.steals(),
            final(sched).algo.parked() == old(sched).algo.parked(),
    {
        self.0.notify_one(sched)
    }

    /// Wakes every waiter that can be claimed, and returns their number.
    pub fn notify_all<A: Algorithm>(&mut self, sched: &mut Scheduler<A>) -> (r: usize)
        requires
            old(sched).wf(),
        ensures
            final(sched).wf(),
            final(self).0@.token == old(self).0@.token,
            final(sched)@ == crate::wait_queue::wake_all(
                old(sched)@,
                old(self).0@.waiters,
                old(self).0@.token,
            ).sched,
            final(self).0@.waiters == crate::wait_queue::wake_all(
                old(sched)@,
                old(self).0@.waiters,
                old(self).0@.token,
            ).queue,
            r == crate::wait_queue::wake_all(
                old(sched)@,
                old(self).0@.waiters,
                old(self).0@.token,
            ).woke.len(),
            final(sched).algo.steals() == old(sched).algo.steals(),
            final(sched).algo.parked() == old(sched).algo.parked(),
    {
        self.0.notify_all(sched)
    }
}

} // verus!
