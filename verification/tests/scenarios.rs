use greenie::addr::Address;
use greenie::algorithm::round_robin::RoundRobin;
use greenie::algorithm::shared_work::SharedWork;
use greenie::algorithm::Algorithm;
use greenie::common::barrier::{Barrier, BarrierWait};
use greenie::common::channel::{Channel, ChannelStatus};
use greenie::common::{Condvar, Mutex};
use greenie::context::State;
use greenie::fiber::{Join, ThreadHandle};
use greenie::scheduler::{Dispatch, Scheduler};
use greenie::stack::{FixedsizeStack, StackContext};
use greenie::{spawn_greenie, thread_sleep, yield_thread};

fn stack(n: usize) -> StackContext {
    FixedsizeStack::new(16384).allocate(Address::from(0x100000 + n * 0x10000)).unwrap()
}

/// One side of the ping-pong: sends on one channel, receives on the other,
/// three times over.
struct Player {
    pc: usize,
    word: &'static str,
    seen: Vec<&'static str>,
}

fn play<A: Algorithm>(
    p: &mut Player,
    out: &mut Channel<&'static str>,
    inp: &mut Channel<&'static str>,
    sched: &mut Scheduler<A>,
    handle: &mut ThreadHandle<()>,
) {
    if p.pc == 6 {
        handle.inner.finish(sched, Ok(()));
        p.pc = 7;
    } else if p.pc % 2 == 0 {
        let (status, back) = out.send(sched, p.word);
        if status == ChannelStatus::Success {
            assert!(back.is_none());
            p.pc += 1;
        } else {
            assert_eq!(status, ChannelStatus::Full);
            assert_eq!(back, Some(p.word));
        }
    } else {
        match inp.recv(sched) {
            Ok(v) => {
                p.seen.push(v);
                p.pc += 1;
            }
            Err(status) => assert_eq!(status, ChannelStatus::Empty),
        }
    }
}

fn ping_pong_on<A: Algorithm>(algo: A) {
    let mut sched = Scheduler::new(0, algo, Some(stack(0)));
    let mut c1: Channel<&'static str> = Channel::new(2, 101);
    let mut c2: Channel<&'static str> = Channel::new(2, 102);
    let mut ha: ThreadHandle<()> = spawn_greenie(&mut sched, stack(1));
    let mut hb: ThreadHandle<()> = spawn_greenie(&mut sched, stack(2));
    let (a, b) = (ha.thread_id(), hb.thread_id());
    let mut pa = Player { pc: 0, word: "ping", seen: vec![] };
    let mut pb = Player { pc: 0, word: "pong", seen: vec![] };
    let mut main_pc = 0;
    let mut exited = false;
    for _ in 0..1000 {
        let cur = sched.active();
        if cur == sched.dispatcher_ctx {
            if sched.dispatch(0).action == Dispatch::Exit {
                exited = true;
                break;
            }
        } else if cur == sched.main_ctx {
            match main_pc {
                0 => match ha.join(&mut sched) {
                    Join::Done(r) => {
                        assert_eq!(r, Ok(()));
                        main_pc = 1;
                    }
                    Join::Parked => {}
                    Join::Missing => panic!("the fiber left nothing behind"),
                },
                1 => match hb.join(&mut sched) {
                    Join::Done(r) => {
                        assert_eq!(r, Ok(()));
                        main_pc = 2;
                    }
                    Join::Parked => {}
                    Join::Missing => panic!("the fiber left nothing behind"),
                },
                _ => {
                    sched.request_shutdown();
                    yield_thread(&mut sched);
                }
            }
        } else if cur == a {
            play(&mut pa, &mut c1, &mut c2, &mut sched, &mut ha);
        } else {
            assert_eq!(cur, b);
            play(&mut pb, &mut c2, &mut c1, &mut sched, &mut hb);
        }
    }
    assert!(exited);
    assert_eq!(main_pc, 2);
    assert_eq!(pa.seen, vec!["pong", "pong", "pong"]);
    assert_eq!(pb.seen, vec!["ping", "ping", "ping"]);
    assert_eq!(sched.contexts[a].state, State::Reclaimed);
    assert_eq!(sched.contexts[b].state, State::Reclaimed);
}

#[test]
fn ping_pong_round_robin() {
    ping_pong_on(RoundRobin::new());
}

#[test]
fn ping_pong_shared_work() {
    ping_pong_on(SharedWork::new());
}

#[test]
fn barrier_of_ten() {
    let mut sched = Scheduler::new(0, RoundRobin::new(), Some(stack(0)));
    let mut barrier = Barrier::new(10, 55);
    let mut handles: Vec<ThreadHandle<()>> = Vec::new();
    for i in 0..10 {
        handles.push(spawn_greenie(&mut sched, stack(1 + i)));
    }
    let first = handles[0].thread_id();
    let mut pcs = vec![0usize; 10];
    let mut cycles = vec![0usize; 10];
    let mut log: Vec<&'static str> = Vec::new();
    let mut leaders = 0;
    let mut joined = 0;
    let mut exited = false;
    for _ in 0..10000 {
        let cur = sched.active();
        if cur == sched.dispatcher_ctx {
            if sched.dispatch(0).action == Dispatch::Exit {
                exited = true;
                break;
            }
        } else if cur == sched.main_ctx {
            if joined < 10 {
                match handles[joined].join(&mut sched) {
                    Join::Done(r) => {
                        assert_eq!(r, Ok(()));
                        joined += 1;
                    }
                    Join::Parked => {}
                    Join::Missing => panic!("the fiber left nothing behind"),
                }
            } else {
                sched.request_shutdown();
                yield_thread(&mut sched);
            }
        } else {
            let i = cur - first;
            match pcs[i] {
                0 => {
                    log.push("before");
                    match barrier.wait(&mut sched) {
                        BarrierWait::Leader => {
                            leaders += 1;
                            log.push("after");
                            pcs[i] = 2;
                        }
                        BarrierWait::Parked(cycle) => {
                            cycles[i] = cycle;
                            pcs[i] = 1;
                        }
                        BarrierWait::Follower => panic!("nobody follows on arrival"),
                    }
                }
                1 => match barrier.resume(&mut sched, cycles[i]) {
                    BarrierWait::Follower => {
                        log.push("after");
                        pcs[i] = 2;
                    }
                    BarrierWait::Parked(cycle) => assert_eq!(cycle, cycles[i]),
                    BarrierWait::Leader => panic!("the leader does not resume"),
                },
                _ => {
                    handles[i].inner.finish(&mut sched, Ok(()));
                    pcs[i] = 3;
                }
            }
        }
    }
    assert!(exited);
    assert_eq!(leaders, 1);
    assert_eq!(log.len(), 20);
    assert!(log[..10].iter().all(|l| *l == "before"));
    assert!(log[10..].iter().all(|l| *l == "after"));
    assert_eq!(barrier.cycle, 1);
    assert_eq!(barrier.current, 10);
}

#[test]
fn producer_and_consumer_with_condvar() {
    let mut sched = Scheduler::new(0, RoundRobin::new(), Some(stack(0)));
    let mut queue: Mutex<Vec<i32>> = Mutex::new(Vec::new());
    let mut cv = Condvar::new(77);
    let mut done = false;
    let mut hp: ThreadHandle<()> = spawn_greenie(&mut sched, stack(1));
    let mut hc: ThreadHandle<()> = spawn_greenie(&mut sched, stack(2));
    let (consumer, producer) = (hc.thread_id(), hp.thread_id());
    let mut printed: Vec<i32> = Vec::new();
    let mut events: Vec<&'static str> = Vec::new();
    let mut count = 10;
    // producer: 0 yield, 1 push under the lock, 2 set done and notify, 3 finish
    let mut ppc = 0;
    // consumer: 0 yield, 1 lock, wait for work, drain, 2 finish
    let mut cpc = 0;
    let mut main_pc = 0;
    let mut exited = false;
    for _ in 0..10000 {
        let cur = sched.active();
        if cur == sched.dispatcher_ctx {
            if sched.dispatch(0).action == Dispatch::Exit {
                exited = true;
                break;
            }
        } else if cur == sched.main_ctx {
            let handle = if main_pc == 0 { &mut hp } else { &mut hc };
            if main_pc < 2 {
                match handle.join(&mut sched) {
                    Join::Done(r) => {
                        assert_eq!(r, Ok(()));
                        main_pc += 1;
                    }
                    Join::Parked => {}
                    Join::Missing => panic!("the fiber left nothing behind"),
                }
            } else {
                sched.request_shutdown();
                yield_thread(&mut sched);
            }
        } else if cur == producer {
            match ppc {
                0 => {
                    ppc = if count != 0 { 1 } else { 2 };
                    yield_thread(&mut sched);
                }
                1 => {
                    if let Some(guard) = queue.lock(&mut sched) {
                        count -= 1;
                        let mut held = queue.replace(&guard, Vec::new());
                        held.push(count);
                        let _ = queue.replace(&guard, held);
                        let _ = queue.unlock(guard, &mut sched);
                        ppc = 0;
                    }
                }
                2 => {
                    if let Some(guard) = queue.lock(&mut sched) {
                        done = true;
                        events.push("producer done");
                        let _ = queue.unlock(guard, &mut sched);
                        let _ = cv.notify_one(&mut sched);
                        ppc = 3;
                    }
                }
                _ => {
                    hp.inner.finish(&mut sched, Ok(()));
                    ppc = 4;
                }
            }
        } else {
            assert_eq!(cur, consumer);
            match cpc {
                0 => {
                    cpc = 1;
                    yield_thread(&mut sched);
                }
                1 => {
                    if let Some(guard) = queue.lock(&mut sched) {
                        let ready = done || !queue.get(&guard).is_empty();
                        if let Some(guard) = cv.wait_pred(&mut queue, guard, &mut sched, ready) {
                            let mut held: Vec<i32> = queue.replace(&guard, Vec::new());
                            while let Some(v) = held.pop() {
                                printed.push(v);
                            }
                            let _ = queue.unlock(guard, &mut sched);
                            if done {
                                events.push("consumer done");
                                cpc = 2;
                            } else {
                                cpc = 0;
                            }
                        }
                    }
                }
                _ => {
                    hc.inner.finish(&mut sched, Ok(()));
                    cpc = 3;
                }
            }
        }
    }
    assert!(exited);
    assert_eq!(printed, vec![9, 8, 7, 6, 5, 4, 3, 2, 1, 0]);
    assert_eq!(events, vec!["producer done", "consumer done"]);
    assert!(queue.mutex.owner().is_none());
}

#[test]
fn the_shorter_sleep_ends_first() {
    let mut sched = Scheduler::new(0, RoundRobin::new(), Some(stack(0)));
    let a = sched.spawn(stack(1));
    let b = sched.spawn(stack(2));
    let mut woke: Vec<(usize, u64)> = Vec::new();
    let mut slept = vec![false, false];
    let mut began = vec![0u64, 0u64];
    let mut now: u64 = 0;
    for _ in 0..1000 {
        if woke.len() == 2 {
            break;
        }
        let cur = sched.active();
        if cur == sched.dispatcher_ctx {
            now += 1;
            let _ = sched.dispatch(now);
        } else if cur == sched.main_ctx {
            // the main fiber waits for the first sleeper
            let _ = sched.join(a);
        } else {
            let i = cur - a;
            if !slept[i] {
                slept[i] = true;
                began[i] = now;
                thread_sleep(&mut sched, now, if cur == a { 50 } else { 10 });
            } else {
                woke.push((cur, now));
                sched.suspend();
            }
        }
    }
    assert_eq!(woke.len(), 2);
    assert_eq!(woke[0].0, b);
    assert_eq!(woke[1].0, a);
    // both fell asleep in the same turn of the clock
    assert_eq!(began[0], began[1]);
    // nobody wakes before its deadline
    assert!(woke[0].1 >= began[1] + 10);
    assert!(woke[1].1 >= began[0] + 50);
    // the sleeps overlap: the longer one ends at its own deadline, not
    // after the sum of the two
    assert_eq!(woke[0].1, began[1] + 10);
    assert_eq!(woke[1].1, began[0] + 50);
}

#[test]
fn a_consumer_that_waited_drains_everything_at_once() {
    let mut sched = Scheduler::new(0, RoundRobin::new(), Some(stack(0)));
    let mut queue: Mutex<Vec<i32>> = Mutex::new(Vec::new());
    let mut cv = Condvar::new(77);
    let consumer = sched.spawn(stack(1));
    let producer = sched.spawn(stack(2));
    // the main fiber steps aside
    sched.suspend();
    assert_eq!(sched.active(), sched.dispatcher_ctx);
    let _ = sched.dispatch(0);
    assert_eq!(sched.active(), consumer);
    // the consumer finds nothing and waits
    let guard = queue.lock(&mut sched).unwrap();
    let ready = !queue.get(&guard).is_empty();
    assert!(cv.wait_pred(&mut queue, guard, &mut sched, ready).is_none());
    assert_eq!(sched.contexts[consumer].state, State::Suspended);
    assert_eq!(sched.contexts[consumer].twstatus, 77);
    assert!(queue.mutex.owner().is_none());
    // the producer pushes three values and notifies
    assert_eq!(sched.active(), producer);
    let guard = queue.lock(&mut sched).unwrap();
    let _ = queue.replace(&guard, vec![3, 2, 1]);
    let _ = queue.unlock(guard, &mut sched);
    assert_eq!(cv.notify_one(&mut sched), Some(consumer));
    assert_eq!(sched.contexts[consumer].state, State::Ready);
    assert_eq!(sched.contexts[consumer].twstatus, -1);
    // nobody is left to notify
    assert_eq!(cv.notify_one(&mut sched), None);
    assert_eq!(cv.notify_all(&mut sched), 0);
}

#[test]
fn join_surfaces_the_panic_of_the_fiber() {
    let mut sched = Scheduler::new(0, RoundRobin::new(), Some(stack(0)));
    let mut h: ThreadHandle<u32> = spawn_greenie(&mut sched, stack(1));
    let thread = h.thread_id();
    // the main fiber joins and is suspended
    match h.join(&mut sched) {
        Join::Parked => {}
        _ => panic!("the fiber has not ended yet"),
    }
    assert_eq!(sched.active(), sched.dispatcher_ctx);
    match sched.dispatch(0).action {
        Dispatch::Run(c) => assert_eq!(c, thread),
        _ => panic!("the fiber is runnable"),
    }
    // the fiber ends by raising
    h.inner.finish(&mut sched, Err(String::from("boom")));
    assert_eq!(sched.contexts[thread].state, State::Terminated);
    // the dispatcher was queued behind the fiber; the main fiber behind it
    assert_eq!(sched.active(), sched.dispatcher_ctx);
    match sched.dispatch(0).action {
        Dispatch::Run(c) => assert_eq!(c, sched.main_ctx),
        _ => panic!("the main fiber is runnable"),
    }
    match h.join(&mut sched) {
        Join::Done(Err(message)) => assert_eq!(message, "boom"),
        _ => panic!("the join must hand out the error"),
    }
    // a second join finds the cell empty and the fiber ended
    match h.join(&mut sched) {
        Join::Missing => {}
        _ => panic!("nothing is left to hand out"),
    }
}
