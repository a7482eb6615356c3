//! A cooperative fiber runtime, written as verified state machines.
//!
//! Every operation of the runtime is a transition on plain data: a scheduler
//! owns the records of its fibers and the queues they wait in, and the
//! synchronisation primitives park and wake fibers through it. The transfer
//! of control between stacks is left to the embedding program, which follows
//! the `active` fiber that each transition names.

use vstd::prelude::*;

pub mod addr;
pub mod algorithm;
pub mod apply;
pub mod common;
pub mod context;
pub mod fcontext;
pub mod fiber;
pub mod generator;
pub mod mem;
pub mod multithread;
pub mod ptr;
pub mod scheduler;
pub mod seq_util;
pub mod stack;
pub mod wait_queue;

verus! {

use crate::algorithm::{Algorithm, ReadyModel};
use crate::fiber::{JoinHandleInner, ThreadHandle};
use crate::scheduler::model::SchedulerView;
use crate::scheduler::{Dispatched, Scheduler};
use crate::stack::StackContext;

/// The deadline of a sleep of `duration` ticks that starts at `now`; the
/// last tick of the clock where the sum lies beyond it.
pub open spec fn spec_deadline(now: u64, duration: u64) -> u64 {
    if now + duration > u64::MAX {
        u64::MAX
    } else {
        (now + duration) as u64
    }
}

/// Puts the running fiber to sleep for at least `duration` ticks of the
/// clock, which stands at `now`.
pub fn thread_sleep<A: Algorithm>(sched: &mut Scheduler<A>, now: u64, duration: u64)
    requires
        old(sched).wf(),
        old(sched)@.active != old(sched)@.dispatcher,
    ensures
        final(sched).wf(),
        final(sched)@ == old(sched)@.sleep_until(spec_deadline(now, duration)),
        final(sched).algo.steals() == old(sched).algo.steals(),
        final(sched).algo.parked() == old(sched).algo.parked(),
{
    sched.sleep_until(now.saturating_add(duration));
}

/// The running fiber gives way to the next runnable fiber.
pub fn yield_thread<A: Algorithm>(sched: &mut Scheduler<A>)
    requires
        old(sched).wf(),
    ensures
        final(sched).wf(),
        final(sched)@ == old(sched)@.yield_now(),
        final(sched).algo.steals() == old(sched).algo.steals(),
        final(sched).algo.parked() == old(sched).algo.parked(),
{
    sched.yield_();
}

/// Creates a fiber on `stack`, hands it to the policy and returns the
/// handle to join it.
pub fn spawn_greenie<T, A: Algorithm>(sched: &mut Scheduler<A>, stack: StackContext) -> (r:
    ThreadHandle<T>)
    requires
        old(sched).wf(),
        old(sched)@.contexts.len() < usize::MAX,
    ensures
        final(sched).wf(),
        final(sched)@ == old(sched)@.spawn(Some(stack), true),
        r.inner.thread == old(sched)@.contexts.len(),
        r.inner.wait == old(sched)@.active,
        r.inner.value.is_none(),
        final(sched).algo.steals() == old(sched).algo.steals(),
        final(sched).algo.parked() == old(sched).algo.parked(),
{
    let wait = sched.active();
    let thread = sched.spawn(stack);
    ThreadHandle { inner: JoinHandleInner { value: None, thread, wait } }
}

/// Sets up the runtime of a thread around an entry fiber: the scheduler `id` with
/// the main and the dispatcher fiber, the entry fiber on `entry_stack`,
/// and the main fiber suspended until the entry fiber ends. Control is
/// with the fiber that the policy serves first: the entry fiber where the
/// policy has a shared queue, else the dispatcher. Returns the scheduler
/// and the handle of the entry fiber, which has id 2.
pub fn create_main<A: Algorithm>(
    id: usize,
    algo: A,
    dispatcher_stack: StackContext,
    entry_stack: StackContext,
) -> (r: (Scheduler<A>, ThreadHandle<()>))
    requires
        algo.wf(),
        algo.model() == ReadyModel::empty(),
    ensures
        r.0.wf(),
        r.0@ == SchedulerView::initial(id, algo.spreads(), Some(dispatcher_stack)).spawn(
            Some(entry_stack),
            true,
        ).join(2),
        r.0@.active == (if algo.spreads() {
            2usize
        } else {
            1usize
        }),
        r.1.inner.thread == 2,
        r.1.inner.wait == 0,
        r.1.inner.value.is_none(),
        r.0.algo.steals() == algo.steals(),
        r.0.algo.parked() == algo.parked(),
{
    let mut sched = Scheduler::new(id, algo, Some(dispatcher_stack));
    let handle: ThreadHandle<()> = spawn_greenie(&mut sched, entry_stack);
    let ghost spawned = sched@;
    let _ = sched.join(handle.inner.thread);
    proof {
        crate::algorithm::lemma_front_is_head(spawned.ready);
        if spawned.spreads {
            assert(spawned.ready.shared =~= seq![2usize]);
        } else {
            assert(spawned.ready.local =~= seq![1usize, 2usize]);
        }
    }
    (sched, handle)
}

/// Runs one turn of the dispatcher loop at clock time `now`.
pub fn run_scheduler<A: Algorithm>(sched: &mut Scheduler<A>, now: u64) -> (r: Dispatched)
    requires
        old(sched).wf(),
        old(sched)@.active == old(sched)@.dispatcher,
    ensures
        final(sched).wf(),
        final(sched)@ == old(sched)@.dispatch(now),
        old(sched)@.drained() <==> r.action == crate::scheduler::Dispatch::Exit,
        !old(sched)@.drained() ==> r.action == (match old(sched)@.housekeeping(now).ready.front() {
            Some(c) => crate::scheduler::Dispatch::Run(c),
            None => crate::scheduler::Dispatch::Idle,
        }),
        final(sched).algo.steals() == old(sched).algo.steals(),
        final(sched).algo.parked() == old(sched).algo.parked(),
{
    sched.dispatch(now)
}

} // verus!
