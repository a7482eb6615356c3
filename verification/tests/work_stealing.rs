use greenie::algorithm::round_robin::RoundRobin;
use greenie::algorithm::shared_work::SharedWork;
use greenie::algorithm::work_stealing::{peer_of, Registry, WorkStealing};
use greenie::algorithm::Algorithm;
use greenie::multithread::{Segment, Stolen, Task, Terminator};
use crossbeam_deque::{Injector, Stealer, Worker};

#[test]
fn round_robin_is_first_in_first_out() {
    let mut rr = RoundRobin::new();
    assert_eq!(rr.pick_next(), None);
    rr.awakened(4, false);
    rr.awakened(2, true);
    rr.awakened(9, false);
    assert_eq!(rr.pick_next(), Some(4));
    assert_eq!(rr.pick_next(), Some(2));
    assert_eq!(rr.pick_next(), Some(9));
    assert_eq!(rr.pick_next(), None);
    assert!(!rr.is_stealing());
    rr.awakened(1, false);
    assert_eq!(rr.steal(), None);
    assert_eq!(rr.pick_next(), Some(1));
}

#[test]
fn notify_sets_the_flag_of_a_parked_thread_only() {
    let mut rr = RoundRobin::new();
    assert!(!rr.notify());
    assert!(!rr.flag);
    rr.suspend = true;
    assert!(rr.notify());
    assert!(rr.flag);
    let mut sw = SharedWork::new();
    assert!(!sw.notify());
    sw.suspend = true;
    assert!(sw.notify());
    assert!(sw.flag);
}

#[test]
fn shared_work_prefers_the_shared_queue() {
    let mut sw = SharedWork::new();
    sw.awakened(0, true);
    sw.awakened(5, false);
    sw.awakened(1, true);
    sw.awakened(6, false);
    assert_eq!(sw.pick_next(), Some(5));
    assert_eq!(sw.pick_next(), Some(6));
    assert_eq!(sw.pick_next(), Some(0));
    assert_eq!(sw.pick_next(), Some(1));
    assert_eq!(sw.pick_next(), None);
    assert_eq!(sw.steal(), None);
    assert!(!sw.is_stealing());
}

#[test]
fn steal_refuses_pinned_fibers() {
    let mut ws = WorkStealing::new(0);
    assert!(ws.is_stealing());
    assert!(ws.is_empty());
    assert_eq!(ws.steal(), None);
    ws.awakened(1, true);
    ws.awakened(7, false);
    assert!(!ws.is_empty());
    // the front is the dispatcher: nothing is handed out
    assert_eq!(ws.steal(), None);
    assert_eq!(ws.pick_next(), Some(1));
    assert_eq!(ws.steal(), Some(7));
    assert_eq!(ws.steal(), None);
    assert_eq!(ws.pick_next(), None);
}

#[test]
fn peer_of_skips_the_own_id() {
    assert_eq!(peer_of(0, 0, 4), 1);
    assert_eq!(peer_of(1, 0, 4), 2);
    assert_eq!(peer_of(2, 0, 4), 3);
    assert_eq!(peer_of(0, 2, 4), 0);
    assert_eq!(peer_of(1, 2, 4), 1);
    assert_eq!(peer_of(2, 2, 4), 3);
    assert_eq!(peer_of(0, 1, 2), 0);
    assert_eq!(peer_of(0, 0, 2), 1);
}

#[test]
fn a_scheduler_without_peers_steals_nothing() {
    let mut reg = Registry::new(1);
    assert_eq!(reg.pick_next(0), None);
    reg.awakened(0, 5, false);
    assert_eq!(reg.pick_next(0), Some(5));
    assert_eq!(reg.pick_next(0), None);
}

#[test]
fn an_idle_scheduler_steals_from_its_peer() {
    let mut reg = Registry::new(2);
    reg.awakened(0, 11, false);
    reg.awakened(0, 12, false);
    // scheduler 1 has one peer only, so the draw must name scheduler 0
    for _ in 0..20 {
        reg.awakened(0, 13, false);
        let got = reg.pick_next(1);
        assert!(got.is_some());
    }
    assert_eq!(reg.peers[1].rqueue.len(), 0);
}

#[test]
fn the_victim_is_always_a_peer() {
    let mut reg = Registry::new(5);
    for round in 0..200usize {
        // every scheduler but number 2 has work
        for id in [0usize, 1, 3, 4] {
            reg.awakened(id, round * 10 + id, false);
        }
        let stolen = reg.pick_next(2).unwrap();
        let victim = stolen % 10;
        assert_ne!(victim, 2);
        assert_eq!(stolen / 10, round);
        for id in [0usize, 1, 3, 4] {
            if id != victim {
                assert_eq!(reg.steal_from(id), Some(round * 10 + id));
            } else {
                assert_eq!(reg.steal_from(id), None);
            }
        }
    }
}

#[test]
fn work_is_shared_between_two_schedulers() {
    let mut reg = Registry::new(2);
    // a hundred workers are ready on scheduler 0; on both schedulers the
    // dispatcher runs
    for i in 0..100usize {
        reg.awakened(0, i, false);
    }
    let dispatcher = |id: usize| 1000 + id;
    let mut running = [dispatcher(0), dispatcher(1)];
    let mut yields = vec![10u32; 100];
    let mut results: Vec<Option<usize>> = vec![None; 100];
    let mut share = [0usize; 2];
    let mut turn = 0;
    for _ in 0..100000 {
        if results.iter().all(|r| r.is_some()) {
            break;
        }
        let id = turn % 2;
        turn += 1;
        let me = running[id];
        if me >= 1000 {
            // the dispatcher picks, and queues itself behind what it picked
            if let Some(next) = reg.pick_next(id) {
                assert!(next < 1000);
                reg.awakened(id, me, true);
                running[id] = next;
            }
        } else {
            share[id] += 1;
            let next = reg.pick_next(id).unwrap();
            // a pinned fiber runs on its own scheduler only
            assert!(next < 1000 || next == dispatcher(id));
            if yields[me] > 0 {
                yields[me] -= 1;
                reg.awakened(id, me, false);
            } else {
                assert!(results[me].is_none());
                results[me] = Some(me);
            }
            running[id] = next;
        }
    }
    for (i, r) in results.iter().enumerate() {
        assert_eq!(*r, Some(i));
    }
    assert!(yields.iter().all(|y| *y == 0));
    assert_eq!(share[0] + share[1], 100 * 11);
    assert!(share[0] > 0);
    assert!(share[1] > 0);
}

#[test]
fn a_segment_is_a_bounded_stack() {
    let mut s = Segment::new();
    assert!(s.is_empty());
    assert!(s.has_capacity());
    for i in 0..64 {
        assert!(s.has_capacity());
        s.push(i);
    }
    assert_eq!(s.len(), 64);
    assert!(!s.has_capacity());
    assert_eq!(s.pop(), Some(63));
    assert!(s.has_capacity());
    let mut one = Segment::with(5);
    assert_eq!(one.len(), 1);
    assert_eq!(one.pop(), Some(5));
    assert_eq!(one.pop(), None);
    assert!(Segment::empty().is_empty());
}

#[test]
fn the_last_worker_terminates_the_pool() {
    let mut alone = Terminator::new(1);
    assert!(alone.try_terminate());
    assert_eq!(alone.nworkers, 1);
    let mut pool = Terminator::new(3);
    // a thread that runs out of work while others work goes on
    assert!(!pool.try_terminate());
    assert_eq!(pool.nworkers, 3);
    // two threads take themselves off for good
    assert!(!pool.decrease_workers());
    assert!(!pool.decrease_workers());
    assert_eq!(pool.nworkers, 1);
    // the last one finds nobody left
    assert!(pool.try_terminate());
    assert_eq!(pool.nworkers, 0);
    assert!(pool.zero_or_increase_workers());
    assert_eq!(pool.nworkers, 0);
}

#[test]
fn a_task_looks_in_its_segment_first() {
    let injector: Injector<usize> = Injector::new();
    let workers: Vec<Worker<usize>> = (0..3).map(|_| Worker::new_fifo()).collect();
    let stealers: Vec<Stealer<usize>> = workers.iter().map(|w| w.stealer()).collect();
    let mut workers = workers.into_iter();
    let mut task = Task {
        task_id: 0,
        local: Segment::with(1),
        worker: workers.next().unwrap(),
        injector: &injector,
        stealers: &stealers,
        scheduled: 0,
    };
    let peer = workers.next().unwrap();
    task.local.push(2);
    task.worker.push(3);
    injector.push(4);
    peer.push(5);
    // segment, last in first out
    assert_eq!(task.pop(), Some(2));
    assert_eq!(task.pop(), Some(1));
    // own deque
    assert_eq!(task.pop(), Some(3));
    // shared queue
    assert_eq!(task.pop(), Some(4));
    // a peer
    assert_eq!(task.pop(), Some(5));
    assert_eq!(task.pop(), None);
    assert_eq!(task.pop_local(), None);
    assert_eq!(task.pop_worker(), None);
    assert_eq!(task.pop_global(), None);
    assert_eq!(task.steal(), None);
}

#[test]
fn a_task_without_peers_steals_nothing() {
    let injector: Injector<usize> = Injector::new();
    let worker: Worker<usize> = Worker::new_fifo();
    let stealers = vec![worker.stealer()];
    worker.push(9);
    let task = Task {
        task_id: 0,
        local: Segment::empty(),
        worker,
        injector: &injector,
        stealers: &stealers,
        scheduled: 0,
    };
    assert_eq!(task.steal(), None);
    assert_eq!(task.pop_worker(), Some(9));
}

#[test]
fn an_attempt_settles_unless_it_has_to_be_made_again() {
    assert_eq!(Stolen::Empty.settled(), Some(None));
    assert_eq!(Stolen::Success(7).settled(), Some(Some(7)));
    assert_eq!(Stolen::Success(0).settled(), Some(Some(0)));
    assert_eq!(Stolen::Retry.settled(), None);
}
