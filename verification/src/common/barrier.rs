//! A barrier at which a fixed number of fibers meet.

use vstd::prelude::*;
use crate::algorithm::Algorithm;
use crate::context::is_token;
use crate::common::condvar::Condvar;
use crate::common::mutex::Mutex;
use crate::scheduler::Scheduler;
use crate::wait_queue::wake_all;

verus! {

/// The counters of a barrier.
pub struct BarrierView {
    /// Number of fibers that meet in one cycle.
    pub initial: usize,
    /// Number of fibers that are still to arrive in the current cycle.
    pub current: usize,
    /// Number of the current cycle.
    pub cycle: usize,
}

/// The number of the cycle that follows cycle `cycle`.
pub open spec fn next_cycle(cycle: usize) -> usize {
    if cycle == usize::MAX {
        0
    } else {
        (cycle + 1) as usize
    }
}

impl BarrierView {
    /// The counter of the fibers that are to arrive is in range.
    pub open spec fn wf(self) -> bool {
        0 < self.current <= self.initial
    }

    /// Whether the fiber that arrives next is the last of its cycle.
    pub open spec fn leads(self) -> bool {
        self.current == 1
    }

    /// The counters after one more fiber arrived: the last fiber of a
    /// cycle starts the next cycle.
    pub open spec fn arrive(self) -> BarrierView {
        if self.leads() {
            BarrierView { current: self.initial, cycle: next_cycle(self.cycle), ..self }
        } else {
            BarrierView { current: (self.current - 1) as usize, ..self }
        }
    }

    /// The counters after `k` more fibers arrived.
    pub open spec fn arrivals(self, k: nat) -> BarrierView
        decreases k,
    {
        if k == 0 {
            self
        } else {
            self.arrivals((k - 1) as nat).arrive()
        }
    }

    /// Whether a fiber that arrived in cycle `cycle` may go on.
    pub open spec fn released(self, cycle: usize) -> bool {
        self.cycle != cycle
    }
}

/// How a call at a barrier ended.
#[derive(Copy, Clone, PartialEq, Eq, Structural, Debug)]
pub enum BarrierWait {
    /// The fiber was the last of its cycle: all others were woken, and it
    /// goes on as the leader.
    Leader,
    /// The cycle of the fiber is over: it goes on.
    Follower,
    /// The fiber was suspended in the given cycle. When it runs next it
    /// calls `resume` with that cycle.
    Parked(usize),
}

impl BarrierWait {
    /// The result of a wait that is over: `true` for the leader alone.
    pub fn is_leader(&self) -> (r: bool)
        ensures
            r == (*self == BarrierWait::Leader),
    {
        match self {
            BarrierWait::Leader => true,
            _ => false,
        }
    }
}

/// Lets a fixed number of fibers wait for each other, cycle after cycle.
pub struct Barrier {
    pub initial: usize,
    pub current: usize,
    pub cycle: usize,
    pub mtx: Mutex,
    pub cnd: Condvar,
}

impl View for Barrier {
    type V = BarrierView;

    open spec fn view(&self) -> BarrierView {
        BarrierView { initial: self.initial, current: self.current, cycle: self.cycle }
    }
}

impl Barrier {
    /// The invariant: the counters are in range, and between two calls
    /// nobody holds the inner mutex or waits for it.
    pub open spec fn wf(&self) -> bool {
        &&& self@.wf()
        &&& self.cnd.wf()
        &&& self.mtx@.owner.is_none()
        &&& self.mtx@.waiters.len() == 0
    }

    /// The fibers that wait for the end of their cycle.
    pub open spec fn waiters(&self) -> Seq<usize> {
        self.cnd@.waiters
    }

    /// The value that waiters publish in their wake-status word.
    pub open spec fn token(&self) -> isize {
        self.cnd@.token
    }

    /// A barrier for `n` fibers, whose waiters publish `token`.
    pub fn new(n: usize, token: isize) -> (r: Self)
        requires
            n > 0,
            is_token(token),
        ensures
            r.wf(),
            r@ == (BarrierView { initial: n, current: n, cycle: 0 }),
            r.waiters() == Seq::<usize>::empty(),
            r.token() == token,
    {
        Barrier { initial: n, current: n, cycle: 0, mtx: Mutex::new(), cnd: Condvar::new(token) }
    }

    /// The running fiber arrives. The last fiber of a cycle starts the
    /// next cycle, wakes every waiter that can be claimed and is the
    /// leader. Any other fiber is suspended until its cycle is over.
    pub fn wait<A: Algorithm>(&mut self, sched: &mut Scheduler<A>) -> (r: BarrierWait)
        requires
            old(self).wf(),
            old(sched).wf(),
            old(sched)@.active != old(sched)@.dispatcher,
        ensures
            final(self).wf(),
            final(sched).wf(),
            final(self)@ == old(self)@.arrive(),
            final(self).token() == old(self).token(),
            old(self)@.leads() ==> r == BarrierWait::Leader,
            old(self)@.leads() ==> final(sched)@ == wake_all(
                old(sched)@,
                old(self).waiters(),
                old(self).token(),
            ).sched,
            old(self)@.leads() ==> final(self).waiters() == wake_all(
                old(sched)@,
                old(self).waiters(),
                old(self).token(),
            ).queue,
            !old(self)@.leads() ==> r == BarrierWait::Parked(old(self)@.cycle),
            !old(self)@.leads() ==> final(sched)@ == old(sched)@.park(old(self).token()),
            !old(self)@.leads() ==> final(self).waiters() == old(self).waiters().push(
                old(sched)@.active,
            ),
            final(sched).algo.steals() == old(sched).algo.steals(),
            final(sched).algo.parked() == old(sched).algo.parked(),
    {
        let _ = self.mtx.lock(sched);
        let cycle = self.cycle;
        self.current = self.current - 1;
        if self.current == 0 {
            self.cycle = self.cycle.wrapping_add(1);
            self.current = self.initial;
            let _ = self.mtx.unlock(sched);
            let _ = self.cnd.notify_all(sched);
            BarrierWait::Leader
        } else {
            let _ = self.cnd.wait_pred(&mut self.mtx, sched, cycle != self.cycle);
            BarrierWait::Parked(cycle)
        }
    }

    /// A fiber that was suspended in cycle `cycle` runs again. Where that
    /// cycle is over it goes on, and is no leader; else it is suspended
    /// once more.
    pub fn resume<A: Algorithm>(&mut self, sched: &mut Scheduler<A>, cycle: usize) -> (r:
        BarrierWait)
        requires
            old(self).wf(),
            old(sched).wf(),
            old(sched)@.active != old(sched)@.dispatcher,
        ensures
            final(self).wf(),
            final(sched).wf(),
            final(self)@ == old(self)@,
            final(self).token() == old(self).token(),
            old(self)@.released(cycle) ==> r == BarrierWait::Follower && final(sched)@ == old(
                sched,
            )@ && final(self).waiters() == old(self).waiters(),
            !old(self)@.released(cycle) ==> r == BarrierWait::Parked(cycle),
            !old(self)@.released(cycle) ==> final(sched)@ == old(sched)@.park(old(self).token()),
            !old(self)@.released(cycle) ==> final(self).waiters() == old(self).waiters().push(
                old(sched)@.active,
            ),
            final(sched).algo.steals() == old(sched).algo.steals(),
            final(sched).algo.parked() == old(sched).algo.parked(),
    {
        let _ = self.mtx.lock(sched);
        if self.cnd.wait_pred(&mut self.mtx, sched, cycle != self.cycle) {
            BarrierWait::Parked(cycle)
        } else {
            let _ = self.mtx.unlock(sched);
            BarrierWait::Follower
        }
    }
}

/// In a cycle of `n` fibers the first `n - 1` arrivals do not end the
/// cycle, and the arrival after them does.
pub proof fn lemma_arrivals(b: BarrierView, k: nat)
    requires
        b.wf(),
        b.current == b.initial,
        k < b.initial,
    ensures
        b.arrivals(k).initial == b.initial,
        b.arrivals(k).current == b.initial - k,
        b.arrivals(k).cycle == b.cycle,
        b.arrivals(k).leads() <==> k + 1 == b.initial,
    decreases k,
{
    if k > 0 {
        lemma_arrivals(b, (k - 1) as nat);
    }
}

/// One cycle of a barrier for `n` fibers: of the `n` arrivals exactly the
/// last one leads; no fiber that arrived is released before the last one
/// arrived, and all are released once it has; the barrier is then ready
/// for the next cycle.
pub proof fn lemma_barrier_cycle(b: BarrierView)
    requires
        b.wf(),
        b.current == b.initial,
    ensures
        forall|k: nat|
            k < b.initial ==> ((#[trigger] b.arrivals(k)).leads() <==> k + 1 == b.initial),
        forall|k: nat| k < b.initial ==> !(#[trigger] b.arrivals(k)).released(b.cycle),
        b.arrivals(b.initial as nat).released(b.cycle),
        b.arrivals(b.initial as nat).wf(),
        b.arrivals(b.initial as nat).current == b.initial,
        b.arrivals(b.initial as nat).initial == b.initial,
{
    assert forall|k: nat| k < b.initial implies ((#[trigger] b.arrivals(k)).leads() <==> k + 1
        == b.initial) && !b.arrivals(k).released(b.cycle) by {
        lemma_arrivals(b, k);
    }
    lemma_arrivals(b, (b.initial - 1) as nat);
}

} // verus!
