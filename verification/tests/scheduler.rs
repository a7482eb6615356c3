use greenie::addr::Address;
use greenie::algorithm::round_robin::RoundRobin;
use greenie::algorithm::shared_work::SharedWork;
use greenie::algorithm::work_stealing::WorkStealing;
use greenie::algorithm::Algorithm;
use greenie::context::{check_token, compare_exchange, Context, Handshake, State};
use greenie::scheduler::{Dispatch, Scheduler};
use greenie::stack::{FixedsizeStack, StackContext};
use greenie::{create_main, run_scheduler};

fn stack(n: usize) -> StackContext {
    FixedsizeStack::new(16384).allocate(Address::from(0x100000 + n * 0x10000)).unwrap()
}

fn running<A: Algorithm>(sched: &Scheduler<A>) -> Vec<usize> {
    (0..sched.contexts.len()).filter(|i| sched.contexts[*i].state == State::Running).collect()
}

/// Counts in how many of the ready, sleep and terminated queues a fiber is.
fn queues_of(sched: &Scheduler<RoundRobin>, ctx: usize) -> usize {
    let mut n = 0;
    n += sched.algo.rqueue.iter().filter(|c| **c == ctx).count();
    n += sched.sleep_queue.iter().filter(|c| **c == ctx).count();
    n += sched.terminated_queue.iter().filter(|c| **c == ctx).count();
    n
}

#[test]
fn a_new_scheduler_runs_main_and_queues_the_dispatcher() {
    let sched = Scheduler::new(3, RoundRobin::new(), Some(stack(0)));
    assert_eq!(sched.id, 3);
    assert_eq!(sched.main_ctx, 0);
    assert_eq!(sched.dispatcher_ctx, 1);
    assert_eq!(sched.active(), 0);
    assert_eq!(sched.contexts.len(), 2);
    assert!(sched.contexts[0].is_main);
    assert!(sched.contexts[1].is_dispatcher);
    assert_eq!(sched.contexts[0].state, State::Running);
    assert_eq!(sched.contexts[1].state, State::Ready);
    assert!(sched.ready_is_linked(1));
    assert!(!sched.ready_is_linked(0));
    assert!(!sched.shutdown);
}

#[test]
fn context_new_is_a_fresh_worker() {
    let c = Context::new();
    assert_eq!(c.state, State::Fresh);
    assert_eq!(c.twstatus, 0);
    assert!(!c.is_main && !c.is_dispatcher && !c.terminated);
    assert!(c.stack.is_none());
}

#[test]
fn spawn_queues_the_fiber_behind_the_dispatcher() {
    let mut sched = Scheduler::new(0, RoundRobin::new(), None);
    let a = sched.spawn(stack(1));
    let b = sched.spawn_not_schedule(stack(2));
    assert_eq!((a, b), (2, 3));
    assert_eq!(sched.contexts[a].state, State::Ready);
    assert_eq!(sched.contexts[b].state, State::Fresh);
    assert_eq!(sched.algo.rqueue.iter().copied().collect::<Vec<_>>(), vec![1, 2]);
    assert!(sched.worker_is_linked(a));
    assert!(sched.worker_is_linked(b));
    assert!(!sched.worker_is_linked(0));
    assert!(!sched.worker_is_linked(1));
    assert_eq!(sched.contexts[a].stack, Some(stack(1)));
}

#[test]
fn schedule_takes_fresh_and_suspended_fibers_only() {
    let mut sched = Scheduler::new(0, RoundRobin::new(), None);
    let a = sched.spawn_not_schedule(stack(1));
    assert!(sched.schedule(a));
    assert_eq!(sched.contexts[a].state, State::Ready);
    // ready already
    assert!(!sched.schedule(a));
    // running
    assert!(!sched.schedule(0));
    // unknown
    assert!(!sched.schedule(99));
    assert_eq!(sched.algo.rqueue.iter().copied().collect::<Vec<_>>(), vec![1, a]);
}

#[test]
fn exactly_one_fiber_runs_after_every_step() {
    let mut sched = Scheduler::new(0, RoundRobin::new(), None);
    let a = sched.spawn(stack(1));
    let b = sched.spawn(stack(2));
    assert_eq!(running(&sched), vec![0]);
    sched.suspend();
    assert_eq!(running(&sched), vec![1]);
    let _ = sched.dispatch(0);
    assert_eq!(running(&sched), vec![a]);
    sched.yield_();
    assert_eq!(running(&sched), vec![b]);
    sched.sleep_until(9);
    assert_eq!(running(&sched), vec![1]);
    let _ = sched.dispatch(0);
    assert_eq!(running(&sched), vec![a]);
    sched.terminate();
    assert_eq!(running(&sched), vec![1]);
    assert_eq!(sched.active(), 1);
}

#[test]
fn no_fiber_is_in_two_queues() {
    let mut sched = Scheduler::new(0, RoundRobin::new(), None);
    let a = sched.spawn(stack(1));
    let b = sched.spawn(stack(2));
    let c = sched.spawn(stack(3));
    sched.suspend();
    let _ = sched.dispatch(0);
    assert_eq!(sched.active(), a);
    sched.sleep_until(5);
    assert_eq!(sched.active(), b);
    sched.terminate();
    assert_eq!(sched.active(), c);
    for ctx in 0..sched.contexts.len() {
        let n = queues_of(&sched, ctx);
        assert!(n <= 1, "fiber {} is in {} queues", ctx, n);
        // the running fiber and the suspended main fiber are in none
        if ctx == c || ctx == 0 {
            assert_eq!(n, 0);
        }
    }
    assert!(sched.sleep_is_linked(a));
    assert!(sched.terminated_is_linked(b));
    assert!(sched.ready_is_linked(1));
    // waking the sleeper early moves it from the sleep queue to the ready queue
    assert!(sched.schedule(a));
    assert!(!sched.sleep_is_linked(a));
    assert!(sched.ready_is_linked(a));
    assert_eq!(queues_of(&sched, a), 1);
}

#[test]
fn yield_queues_the_caller_behind_the_next_fiber() {
    let mut sched = Scheduler::new(0, RoundRobin::new(), None);
    let a = sched.spawn(stack(1));
    sched.yield_();
    assert_eq!(sched.active(), 1);
    assert_eq!(sched.algo.rqueue.iter().copied().collect::<Vec<_>>(), vec![a, 0]);
    assert_eq!(sched.contexts[0].state, State::Ready);
}

#[test]
fn yield_with_nothing_queued_goes_on() {
    let mut sched = Scheduler::new(0, RoundRobin::new(), None);
    sched.suspend();
    assert_eq!(sched.active(), 1);
    assert!(sched.algo.rqueue.is_empty());
    sched.yield_();
    assert_eq!(sched.active(), 1);
    assert_eq!(sched.dispatch(0).action, Dispatch::Idle);
    assert_eq!(sched.active(), 1);
}

#[test]
fn shared_work_serves_workers_before_pinned_fibers() {
    let mut sched = Scheduler::new(0, SharedWork::new(), None);
    let a = sched.spawn(stack(1));
    // the dispatcher waits in the local queue, the worker in the shared one
    assert_eq!(sched.algo.lqueue.iter().copied().collect::<Vec<_>>(), vec![1]);
    assert_eq!(sched.algo.rqueue.iter().copied().collect::<Vec<_>>(), vec![a]);
    sched.suspend();
    assert_eq!(sched.active(), a);
    sched.yield_();
    // pick first, queue the caller afterwards: the dispatcher gets its turn
    assert_eq!(sched.active(), 1);
    assert_eq!(sched.algo.rqueue.iter().copied().collect::<Vec<_>>(), vec![a]);
}

#[test]
fn sleep_queue_is_ordered_by_deadline() {
    let mut sched = Scheduler::new(0, RoundRobin::new(), None);
    let a = sched.spawn(stack(1));
    let b = sched.spawn(stack(2));
    let c = sched.spawn(stack(3));
    let d = sched.spawn(stack(4));
    sched.suspend();
    let _ = sched.dispatch(0);
    assert_eq!(sched.active(), a);
    sched.sleep_until(30);
    assert_eq!(sched.active(), b);
    sched.sleep_until(10);
    assert_eq!(sched.active(), c);
    sched.sleep_until(20);
    assert_eq!(sched.active(), d);
    // an equal deadline goes behind the one that is there
    sched.sleep_until(10);
    assert_eq!(sched.sleep_queue.iter().copied().collect::<Vec<_>>(), vec![b, d, c, a]);
    assert_eq!(sched.contexts[b].twstatus, -1);
    assert_eq!(sched.contexts[b].tp, 10);
    assert_eq!(sched.active(), 1);
}

#[test]
fn sleep2ready_wakes_what_is_due_and_no_more() {
    let mut sched = Scheduler::new(0, RoundRobin::new(), None);
    let a = sched.spawn(stack(1));
    let b = sched.spawn(stack(2));
    let c = sched.spawn(stack(3));
    sched.suspend();
    let _ = sched.dispatch(0);
    sched.sleep_until(30);
    sched.sleep_until(10);
    sched.sleep_until(20);
    assert_eq!(sched.active(), 1);
    sched.sleep2ready(9);
    assert_eq!(sched.sleep_queue.iter().copied().collect::<Vec<_>>(), vec![b, c, a]);
    sched.sleep2ready(20);
    assert_eq!(sched.sleep_queue.iter().copied().collect::<Vec<_>>(), vec![a]);
    assert_eq!(sched.algo.rqueue.iter().copied().collect::<Vec<_>>(), vec![b, c]);
    assert_eq!(sched.contexts[b].twstatus, -2);
    assert_eq!(sched.contexts[c].twstatus, -2);
    assert_eq!(sched.contexts[a].twstatus, -1);
    assert_eq!(sched.contexts[a].state, State::Suspended);
    sched.sleep2ready(u64::MAX);
    assert!(sched.sleep_queue.is_empty());
    assert_eq!(sched.contexts[a].state, State::Ready);
}

#[test]
fn a_sleeper_that_a_waker_claimed_is_not_timed_out() {
    let mut sched = Scheduler::new(0, RoundRobin::new(), None);
    let a = sched.spawn(stack(1));
    sched.suspend();
    let _ = sched.dispatch(0);
    assert_eq!(sched.active(), a);
    sched.sleep_until(10);
    // something else took the word of the sleeper
    sched.contexts[a].twstatus = 44;
    sched.sleep2ready(10);
    assert!(sched.sleep_queue.is_empty());
    assert_eq!(sched.contexts[a].state, State::Suspended);
    assert_eq!(sched.contexts[a].twstatus, 44);
    assert!(!sched.ready_is_linked(a));
}

#[test]
fn remote_wakes_wait_for_the_dispatcher() {
    let mut sched = Scheduler::new(7, RoundRobin::new(), None);
    let a = sched.spawn(stack(1));
    let b = sched.spawn(stack(2));
    sched.suspend();
    let _ = sched.dispatch(0);
    sched.suspend();
    assert_eq!(sched.active(), b);
    sched.suspend();
    assert_eq!(sched.active(), 1);
    assert_eq!(sched.contexts[a].state, State::Suspended);
    // a wake from scheduler 8 is remote, one from scheduler 7 is local
    assert!(!sched.wake(a, 8));
    assert!(sched.remote_is_linked(a));
    assert_eq!(sched.contexts[a].state, State::Suspended);
    // a second remote wake of the same fiber is not recorded twice
    assert!(!sched.schedule_from_remote(a));
    assert_eq!(sched.remote_ready_queue.len(), 1);
    // unknown fibers are not recorded
    assert!(!sched.schedule_from_remote(99));
    assert_eq!(sched.remote_ready_queue.len(), 1);
    assert!(!sched.wake(b, 7));
    assert_eq!(sched.contexts[b].state, State::Ready);
    sched.remote_ready2ready();
    assert!(sched.remote_ready_queue.is_empty());
    assert_eq!(sched.contexts[a].state, State::Ready);
    assert_eq!(sched.algo.rqueue.iter().copied().collect::<Vec<_>>(), vec![b, a]);
}

#[test]
fn remote_wakes_are_taken_over_last_in_first() {
    let mut sched = Scheduler::new(0, RoundRobin::new(), None);
    let a = sched.spawn_not_schedule(stack(1));
    let b = sched.spawn_not_schedule(stack(2));
    let _ = sched.schedule_from_remote(a);
    let _ = sched.schedule_from_remote(b);
    assert_eq!(sched.remote_ready_queue.iter().copied().collect::<Vec<_>>(), vec![b, a]);
    sched.remote_ready2ready();
    assert_eq!(sched.algo.rqueue.iter().copied().collect::<Vec<_>>(), vec![1, b, a]);
}

#[test]
fn terminate_wakes_the_joiners_and_release_frees_the_stack() {
    let mut sched = Scheduler::new(0, RoundRobin::new(), None);
    let a = sched.spawn(stack(1));
    let b = sched.spawn(stack(2));
    // main joins a
    assert!(sched.join(a));
    assert_eq!(sched.active(), 1);
    let _ = sched.dispatch(0);
    assert_eq!(sched.active(), a);
    sched.yield_();
    assert_eq!(sched.active(), b);
    // b joins a as well
    assert!(sched.join(a));
    assert_eq!(sched.active(), 1);
    let _ = sched.dispatch(0);
    assert_eq!(sched.active(), a);
    sched.terminate();
    assert!(sched.contexts[a].terminated);
    assert_eq!(sched.contexts[a].state, State::Terminated);
    assert!(sched.terminated_is_linked(a));
    assert!(!sched.worker_is_linked(a));
    assert!(sched.worker_is_linked(b));
    // the joiners are ready again, first come first
    assert_eq!(sched.contexts[b].state, State::Ready);
    assert_eq!(sched.contexts[0].state, State::Ready);
    assert_eq!(sched.active(), 1);
    assert_eq!(sched.algo.rqueue.iter().copied().collect::<Vec<_>>(), vec![0, b]);
    // joining an ended fiber does not suspend
    let released = sched.release_terminated();
    assert_eq!(released, vec![stack(1)]);
    assert_eq!(sched.contexts[a].state, State::Reclaimed);
    assert!(sched.contexts[a].stack.is_none());
    assert!(sched.terminated_queue.is_empty());
    // the ended fiber cannot be scheduled again
    assert!(!sched.schedule(a));
    assert!(!sched.ready_is_linked(a));
    let _ = sched.dispatch(0);
    assert_eq!(sched.active(), 0);
    assert!(!sched.join(a));
    assert_eq!(sched.active(), 0);
}

#[test]
fn dispatch_releases_stacks_and_reports_them() {
    let mut sched = Scheduler::new(0, RoundRobin::new(), None);
    let a = sched.spawn(stack(1));
    sched.suspend();
    let _ = sched.dispatch(0);
    assert_eq!(sched.active(), a);
    sched.terminate();
    assert_eq!(sched.active(), 1);
    let d = sched.dispatch(0);
    assert_eq!(d.action, Dispatch::Idle);
    assert_eq!(d.released, vec![stack(1)]);
    assert!(!d.signal);
    assert_eq!(sched.contexts[a].state, State::Reclaimed);
}

#[test]
fn dispatch_ends_when_shutdown_is_asked_and_no_worker_is_left() {
    let mut sched = Scheduler::new(0, RoundRobin::new(), None);
    let a = sched.spawn(stack(1));
    sched.request_shutdown();
    assert!(sched.shutdown);
    sched.suspend();
    assert_eq!(sched.active(), 1);
    // a worker is left: the loop goes on
    assert_eq!(run_scheduler(&mut sched, 0).action, Dispatch::Run(a));
    sched.terminate();
    assert_eq!(sched.active(), 1);
    // no worker is left: control goes back to the suspended main fiber
    let d = run_scheduler(&mut sched, 0);
    assert_eq!(d.action, Dispatch::Exit);
    assert!(d.released.is_empty());
    assert_eq!(sched.active(), sched.main_ctx);
    assert_eq!(sched.contexts[0].state, State::Running);
    assert_eq!(sched.contexts[1].state, State::Ready);
}

#[test]
fn dispatch_signals_a_parked_thread_at_shutdown() {
    let mut algo = RoundRobin::new();
    algo.suspend = true;
    let mut sched = Scheduler::new(0, algo, None);
    let a = sched.spawn(stack(1));
    sched.suspend();
    assert!(!sched.dispatch(0).signal);
    assert_eq!(sched.active(), a);
    sched.request_shutdown();
    sched.yield_();
    assert_eq!(sched.active(), 1);
    assert!(sched.dispatch(0).signal);
    assert!(sched.algo.flag);
    // a remote wake signals as well
    assert!(sched.schedule_from_remote(a));
}

#[test]
fn claim_follows_the_wake_status_word() {
    let mut sched = Scheduler::new(0, RoundRobin::new(), None);
    let a = sched.spawn(stack(1));
    sched.suspend();
    let _ = sched.dispatch(0);
    assert_eq!(sched.active(), a);
    sched.park(500);
    assert_eq!(sched.contexts[a].twstatus, 500);
    assert_eq!(sched.contexts[a].state, State::Suspended);
    // another token loses
    assert_eq!(sched.claim(a, 501), Handshake::Lost);
    assert_eq!(sched.contexts[a].state, State::Suspended);
    // the right token wins, once
    assert_eq!(sched.claim(a, 500), Handshake::Won);
    assert_eq!(sched.contexts[a].twstatus, -1);
    assert_eq!(sched.contexts[a].state, State::Ready);
    assert_eq!(sched.claim(a, 500), Handshake::Lost);
    // a fiber that has published nothing
    assert_eq!(sched.claim(0, 500), Handshake::Unpublished);
    // an unknown fiber
    assert_eq!(sched.claim(99, 500), Handshake::Lost);
}

#[test]
fn compare_exchange_replaces_the_expected_word_only() {
    let mut word: isize = 5;
    assert_eq!(compare_exchange(&mut word, 4, 9), Err(5));
    assert_eq!(word, 5);
    assert_eq!(compare_exchange(&mut word, 5, 9), Ok(5));
    assert_eq!(word, 9);
}

#[test]
fn reserved_words_are_no_tokens() {
    assert!(!check_token(0));
    assert!(!check_token(-1));
    assert!(!check_token(-2));
    assert!(check_token(1));
    assert!(check_token(-3));
    assert!(check_token(isize::MAX));
}

#[test]
fn create_main_suspends_main_behind_the_entry_fiber() {
    let (sched, handle) = create_main(0, RoundRobin::new(), stack(0), stack(1));
    assert_eq!(handle.thread_id(), 2);
    assert_eq!(handle.inner.wait, 0);
    assert_eq!(sched.active(), 1);
    assert_eq!(sched.contexts[0].state, State::Suspended);
    assert_eq!(sched.contexts[2].state, State::Ready);
    assert_eq!(sched.joiners[2].iter().copied().collect::<Vec<_>>(), vec![0]);
    // with a shared queue the entry fiber is served before the dispatcher
    let (sched, _) = create_main(0, SharedWork::new(), stack(0), stack(1));
    assert_eq!(sched.active(), 2);
    let (sched, _) = create_main(0, WorkStealing::new(0), stack(0), stack(1));
    assert_eq!(sched.active(), 1);
    assert!(sched.algo.is_stealing());
}
