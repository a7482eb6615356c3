use greenie::addr::Address;
use greenie::algorithm::round_robin::RoundRobin;
use greenie::context::State;
use greenie::fiber::{Fiber, Join, JoinHandleInner, Polled, StartError, ThreadHandle};
use greenie::generator::{generator_yield, Generator, GeneratorError, GeneratorState};
use greenie::scheduler::Scheduler;
use greenie::stack::{FixedsizeStack, StackContext};
use greenie::{spawn_greenie, thread_sleep, yield_thread};

fn stack(n: usize) -> StackContext {
    FixedsizeStack::new(16384).allocate(Address::from(0x100000 + n * 0x10000)).unwrap()
}

#[test]
fn a_new_fiber_waits_to_be_started() {
    let mut sched = Scheduler::new(0, RoundRobin::new(), None);
    let mut f: Fiber<u8> = Fiber::new(&mut sched, stack(1));
    assert!(!f.started);
    assert_eq!(f.thread_id(), 2);
    assert_eq!(f.handle.inner.wait, 0);
    assert!(f.is_alive(&sched));
    assert_eq!(sched.contexts[2].state, State::Fresh);
    assert!(!sched.ready_is_linked(2));
    assert_eq!(f.start(&mut sched), Ok(()));
    assert!(f.started);
    assert_eq!(sched.contexts[2].state, State::Ready);
    // starting a fiber that is queued already changes nothing
    assert_eq!(f.start(&mut sched), Ok(()));
    assert_eq!(sched.algo.rqueue.iter().copied().collect::<Vec<_>>(), vec![1, 2]);
}

#[test]
fn a_fiber_that_has_ended_cannot_be_started() {
    let mut sched = Scheduler::new(0, RoundRobin::new(), None);
    let mut f: Fiber<u8> = Fiber::new(&mut sched, stack(1));
    assert_eq!(f.start(&mut sched), Ok(()));
    sched.suspend();
    let _ = sched.dispatch(0);
    assert_eq!(sched.active(), 2);
    f.handle.inner.finish(&mut sched, Ok(3));
    assert!(!f.is_alive(&sched));
    assert_eq!(f.start(&mut sched), Err(StartError::Terminated));
    assert_eq!(StartError::Terminated.message(), "Fiber terminated");
    assert_eq!(sched.contexts[2].state, State::Terminated);
}

#[test]
fn join_hands_out_the_value_once_the_fiber_has_ended() {
    let mut sched = Scheduler::new(0, RoundRobin::new(), None);
    let mut f: Fiber<String> = Fiber::new(&mut sched, stack(1));
    assert_eq!(f.start(&mut sched), Ok(()));
    match f.join(&mut sched) {
        Join::Parked => {}
        _ => panic!("the fiber has not ended"),
    }
    assert_eq!(sched.contexts[0].state, State::Suspended);
    let _ = sched.dispatch(0);
    assert_eq!(sched.active(), 2);
    f.handle.inner.exec(&mut sched, &|a: &str, b: &str| format!("{}{}", a, b), ("Com", "plete"));
    // the joiner was woken by the end of the fiber
    assert_eq!(sched.contexts[0].state, State::Ready);
    match f.join(&mut sched) {
        Join::Done(Ok(v)) => assert_eq!(v, "Complete"),
        _ => panic!("the value is there"),
    }
}

#[test]
fn the_first_outcome_stays() {
    let mut cell: JoinHandleInner<u8> = JoinHandleInner { value: None, thread: 2, wait: 0 };
    assert!(cell.complete(Ok(1)));
    assert!(!cell.complete(Ok(2)));
    assert!(!cell.complete(Err(String::from("late"))));
    assert_eq!(cell.value, Some(Ok(1)));
}

#[test]
fn spawn_greenie_starts_the_fiber_at_once() {
    let mut sched = Scheduler::new(0, RoundRobin::new(), None);
    let h: ThreadHandle<u8> = spawn_greenie(&mut sched, stack(1));
    assert_eq!(h.thread_id(), 2);
    assert_eq!(sched.contexts[2].state, State::Ready);
    yield_thread(&mut sched);
    assert_eq!(sched.active(), 1);
}

#[test]
fn fiber_yield_passes_control_on() {
    let mut sched = Scheduler::new(0, RoundRobin::new(), None);
    let mut f: Fiber<u8> = Fiber::new(&mut sched, stack(1));
    assert_eq!(f.start(&mut sched), Ok(()));
    f.yield_(&mut sched);
    assert_eq!(sched.active(), 1);
    assert_eq!(sched.algo.rqueue.iter().copied().collect::<Vec<_>>(), vec![2, 0]);
}

#[test]
fn thread_sleep_saturates_at_the_end_of_the_clock() {
    let mut sched = Scheduler::new(0, RoundRobin::new(), None);
    thread_sleep(&mut sched, u64::MAX - 5, 10);
    assert_eq!(sched.contexts[0].tp, u64::MAX);
    assert_eq!(sched.sleep_queue.iter().copied().collect::<Vec<_>>(), vec![0]);
    assert_eq!(sched.active(), 1);
    let mut sched = Scheduler::new(0, RoundRobin::new(), None);
    thread_sleep(&mut sched, 100, 23);
    assert_eq!(sched.contexts[0].tp, 123);
}

#[test]
fn a_generator_yields_its_values_in_turn() {
    let mut sched = Scheduler::new(0, RoundRobin::new(), None);
    let mut gen: Generator<i32> = Generator::spawn(&mut sched, stack(1));
    let g = gen.thread;
    assert_eq!(gen.to, 0);
    assert_eq!(sched.contexts[g].state, State::Fresh);
    // only the fiber of the generator can yield
    assert_eq!(generator_yield(&mut gen, &mut sched, 1), Err((GeneratorError::NotAGenerator, 1)));
    let mut seen = Vec::new();
    let mut last = None;
    let mut step = 0;
    for _ in 0..100 {
        let cur = sched.active();
        if cur == 1 {
            let _ = sched.dispatch(0);
        } else if cur == 0 {
            match gen.collect() {
                GeneratorState::Yielded(v) => seen.push(v),
                GeneratorState::Complete(v) => {
                    last = Some(v);
                    break;
                }
                GeneratorState::Ready => {}
            }
            assert_eq!(gen.resume(&mut sched), Ok(()));
        } else {
            assert_eq!(cur, g);
            step += 1;
            if step <= 3 {
                assert_eq!(generator_yield(&mut gen, &mut sched, step * 10), Ok(()));
            } else {
                gen.complete_with(&mut sched, -1);
                sched.terminate();
            }
        }
    }
    assert_eq!(seen, vec![10, 20, 30]);
    assert_eq!(last, Some(-1));
    assert!(gen.complete);
    assert_eq!(gen.resume(&mut sched), Err(GeneratorError::Complete));
    assert_eq!(GeneratorError::Complete.message(), "Generator already complete");
    assert_eq!(GeneratorError::NotAGenerator.message(), "Not a generator");
    assert!(matches!(GeneratorState::<u8>::default(), GeneratorState::Ready));
}

#[test]
fn a_joined_fiber_cannot_yield() {
    let mut sched = Scheduler::new(0, RoundRobin::new(), None);
    let mut gen: Generator<i32> = Generator::spawn(&mut sched, stack(1));
    gen.is_join = true;
    assert_eq!(gen.resume(&mut sched), Ok(()));
    let _ = sched.dispatch(0);
    assert_eq!(sched.active(), gen.thread);
    assert_eq!(generator_yield(&mut gen, &mut sched, 5), Err((GeneratorError::NotAGenerator, 5)));
    assert_eq!(sched.active(), gen.thread);
}

#[test]
fn poll_starts_the_fiber_and_waits_for_its_end() {
    let mut sched = Scheduler::new(0, RoundRobin::new(), None);
    let mut f: Fiber<u8> = Fiber::new(&mut sched, stack(1));
    assert!(matches!(f.poll(&mut sched), Polled::Pending));
    assert!(f.started);
    // the caller gave way: the dispatcher runs, the fiber and the caller wait
    assert_eq!(sched.active(), 1);
    assert_eq!(sched.algo.rqueue.iter().copied().collect::<Vec<_>>(), vec![2, 0]);
    let _ = sched.dispatch(0);
    assert_eq!(sched.active(), 2);
    f.handle.inner.finish(&mut sched, Ok(9));
    assert_eq!(sched.active(), 0);
    assert!(matches!(f.poll(&mut sched), Polled::Ready(Ok(9))));
    assert!(matches!(f.poll(&mut sched), Polled::Missing));
    assert_eq!(sched.active(), 0);
}

#[test]
fn a_suspended_fiber_is_started_again() {
    let mut sched = Scheduler::new(0, RoundRobin::new(), None);
    let mut f: Fiber<u8> = Fiber::new(&mut sched, stack(1));
    assert_eq!(f.start(&mut sched), Ok(()));
    sched.yield_();
    let _ = sched.dispatch(0);
    assert_eq!(sched.active(), f.thread_id());
    f.suspend(&mut sched);
    assert_eq!(sched.contexts[f.thread_id()].state, State::Suspended);
    assert_eq!(sched.active(), 0);
    assert_eq!(f.start(&mut sched), Ok(()));
    assert_eq!(sched.contexts[f.thread_id()].state, State::Ready);
}
