use greenie::addr::Address;
use greenie::algorithm::round_robin::RoundRobin;
use greenie::common::barrier::{Barrier, BarrierWait};
use greenie::common::condvar::{Condvar, CvStatus};
use greenie::common::mutex::Mutex;
use greenie::context::State;
use greenie::scheduler::Scheduler;
use greenie::stack::{FixedsizeStack, StackContext};

fn stack(n: usize) -> StackContext {
    FixedsizeStack::new(16384).allocate(Address::from(0x100000 + n * 0x10000)).unwrap()
}

fn workers(n: usize) -> (Scheduler<RoundRobin>, Vec<usize>) {
    let mut sched = Scheduler::new(0, RoundRobin::new(), None);
    let ids: Vec<usize> = (0..n).map(|i| sched.spawn(stack(1 + i))).collect();
    sched.suspend();
    let _ = sched.dispatch(0);
    assert_eq!(sched.active(), ids[0]);
    (sched, ids)
}

#[test]
fn an_uncontended_lock_does_not_suspend() {
    let (mut sched, ids) = workers(1);
    let mut m = Mutex::new();
    assert!(m.owner().is_none());
    assert!(m.lock(&mut sched));
    assert_eq!(m.owner(), Some(ids[0]));
    assert_eq!(sched.active(), ids[0]);
    assert_eq!(sched.contexts[ids[0]].state, State::Running);
    assert_eq!(m.unlock(&mut sched), None);
    assert!(m.owner().is_none());
}

#[test]
fn at_most_one_fiber_holds_the_mutex() {
    let (mut sched, ids) = workers(3);
    let mut m = Mutex::new();
    assert!(m.lock(&mut sched));
    sched.yield_();
    assert_eq!(sched.active(), ids[1]);
    // held by the first fiber: neither form of lock succeeds
    assert!(!m.try_lock(&sched));
    assert_eq!(m.owner(), Some(ids[0]));
    assert!(!m.lock(&mut sched));
    assert_eq!(sched.contexts[ids[1]].state, State::Suspended);
    assert_eq!(sched.active(), ids[2]);
    assert!(!m.lock(&mut sched));
    assert_eq!(m.owner(), Some(ids[0]));
    assert_eq!(m.wait_queue.len(), 2);
    // back to the owner
    assert_eq!(sched.active(), 1);
    let _ = sched.dispatch(0);
    assert_eq!(sched.active(), ids[0]);
    // the release wakes the waiters first come first, one at a time
    assert_eq!(m.unlock(&mut sched), Some(ids[1]));
    assert!(m.owner().is_none());
    assert_eq!(sched.contexts[ids[1]].state, State::Ready);
    assert_eq!(sched.contexts[ids[2]].state, State::Suspended);
    assert_eq!(m.wait_queue.len(), 1);
}

#[test]
fn try_lock_takes_a_free_mutex() {
    let (sched, ids) = workers(1);
    let mut m = Mutex::new();
    assert!(m.try_lock(&sched));
    assert_eq!(m.owner(), Some(ids[0]));
}

#[test]
fn condvar_wait_releases_the_mutex_and_wakes_its_waiter() {
    let (mut sched, ids) = workers(3);
    let mut m = Mutex::new();
    let mut cv = Condvar::new(21);
    // the first fiber holds the mutex, the second waits for it
    assert!(m.lock(&mut sched));
    sched.yield_();
    assert_eq!(sched.active(), ids[1]);
    assert!(!m.lock(&mut sched));
    assert_eq!(sched.active(), ids[2]);
    sched.yield_();
    assert_eq!(sched.active(), 1);
    let _ = sched.dispatch(0);
    assert_eq!(sched.active(), ids[0]);
    // a satisfied condition does not wait
    assert!(!cv.wait_pred(&mut m, &mut sched, true));
    assert_eq!(m.owner(), Some(ids[0]));
    // an unsatisfied one parks the fiber and hands the mutex on
    assert!(cv.wait_pred(&mut m, &mut sched, false));
    assert!(m.owner().is_none());
    assert_eq!(sched.contexts[ids[0]].state, State::Suspended);
    assert_eq!(sched.contexts[ids[0]].twstatus, 21);
    assert_eq!(sched.contexts[ids[1]].state, State::Ready);
    assert_eq!(cv.wait_queue.len(), 1);
    assert_eq!(cv.notify_one(&mut sched), Some(ids[0]));
    assert_eq!(sched.contexts[ids[0]].state, State::Ready);
    assert_eq!(cv.notify_one(&mut sched), None);
    assert_ne!(CvStatus::NoTimeout, CvStatus::Timeout);
}

#[test]
fn condvar_notify_all_wakes_every_waiter() {
    let (mut sched, ids) = workers(3);
    let mut m = Mutex::new();
    let mut cv = Condvar::new(21);
    for id in &ids {
        assert_eq!(sched.active(), *id);
        assert!(m.lock(&mut sched));
        cv.wait_for_mutex(&mut m, &mut sched);
    }
    assert_eq!(sched.active(), 1);
    assert_eq!(cv.notify_all(&mut sched), 3);
    assert!(cv.wait_queue.is_empty());
    for id in &ids {
        assert_eq!(sched.contexts[*id].state, State::Ready);
        assert_eq!(sched.contexts[*id].twstatus, -1);
    }
    assert_eq!(cv.notify_all(&mut sched), 0);
}

#[test]
fn a_barrier_of_three_has_one_leader_per_cycle() {
    let (mut sched, ids) = workers(3);
    let mut barrier = Barrier::new(3, 90);
    for round in 0..4usize {
        assert_eq!(sched.active(), ids[0]);
        assert_eq!(barrier.wait(&mut sched), BarrierWait::Parked(round));
        assert_eq!(sched.active(), ids[1]);
        assert_eq!(barrier.wait(&mut sched), BarrierWait::Parked(round));
        assert_eq!(barrier.current, 1);
        assert_eq!(barrier.cycle, round);
        assert_eq!(sched.active(), ids[2]);
        // the last arrival leads and wakes the others
        let last = barrier.wait(&mut sched);
        assert_eq!(last, BarrierWait::Leader);
        assert!(last.is_leader());
        assert_eq!(barrier.current, 3);
        assert_eq!(barrier.cycle, round + 1);
        assert_eq!(sched.contexts[ids[0]].state, State::Ready);
        assert_eq!(sched.contexts[ids[1]].state, State::Ready);
        sched.yield_();
        assert_eq!(sched.active(), 1);
        let _ = sched.dispatch(0);
        assert_eq!(sched.active(), ids[0]);
        let follower = barrier.resume(&mut sched, round);
        assert_eq!(follower, BarrierWait::Follower);
        assert!(!follower.is_leader());
        sched.yield_();
        assert_eq!(sched.active(), ids[1]);
        assert_eq!(barrier.resume(&mut sched, round), BarrierWait::Follower);
        sched.yield_();
        // bring the first fiber to the front again
        assert_eq!(sched.active(), ids[2]);
        sched.yield_();
        assert_eq!(sched.active(), 1);
        let _ = sched.dispatch(0);
    }
}

#[test]
fn a_waiter_that_wakes_too_early_waits_again() {
    let (mut sched, ids) = workers(2);
    let mut barrier = Barrier::new(2, 90);
    assert_eq!(barrier.wait(&mut sched), BarrierWait::Parked(0));
    assert_eq!(sched.active(), ids[1]);
    // the cycle is not over: a fiber that runs again is parked again
    assert_eq!(barrier.resume(&mut sched, 0), BarrierWait::Parked(0));
    assert_eq!(sched.contexts[ids[1]].state, State::Suspended);
    assert_eq!(barrier.current, 1);
    assert_eq!(barrier.cycle, 0);
}

#[test]
fn a_barrier_of_one_always_leads() {
    let (mut sched, ids) = workers(1);
    let mut barrier = Barrier::new(1, 90);
    for round in 0..3usize {
        assert_eq!(barrier.wait(&mut sched), BarrierWait::Leader);
        assert_eq!(barrier.cycle, round + 1);
        assert_eq!(sched.active(), ids[0]);
    }
}

#[test]
fn the_cycle_number_wraps() {
    let (mut sched, _) = workers(1);
    let mut barrier = Barrier::new(1, 90);
    barrier.cycle = usize::MAX;
    assert_eq!(barrier.wait(&mut sched), BarrierWait::Leader);
    assert_eq!(barrier.cycle, 0);
}
