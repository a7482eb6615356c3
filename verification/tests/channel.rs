use greenie::addr::Address;
use greenie::algorithm::round_robin::RoundRobin;
use greenie::common::channel::{Channel, ChannelStatus};
use greenie::context::State;
use greenie::scheduler::Scheduler;
use greenie::stack::{FixedsizeStack, StackContext};
use greenie::wait_queue::WaitQueue;

fn stack(n: usize) -> StackContext {
    FixedsizeStack::new(16384).allocate(Address::from(0x100000 + n * 0x10000)).unwrap()
}

/// A scheduler in which worker `a` runs and worker `b` is queued behind
/// the dispatcher.
fn two_workers() -> (Scheduler<RoundRobin>, usize, usize) {
    let mut sched = Scheduler::new(0, RoundRobin::new(), None);
    let a = sched.spawn(stack(1));
    let b = sched.spawn(stack(2));
    sched.suspend();
    let _ = sched.dispatch(0);
    assert_eq!(sched.active(), a);
    (sched, a, b)
}

#[test]
fn try_send_then_try_recv_returns_the_value() {
    let mut sched = Scheduler::new(0, RoundRobin::new(), None);
    let mut chan: Channel<u32> = Channel::new(4, 7);
    assert_eq!(chan.try_send(&mut sched, 11), ChannelStatus::Success);
    assert_eq!(chan.try_send(&mut sched, 12), ChannelStatus::Success);
    assert_eq!(chan.try_recv(&mut sched), Ok(11));
    assert_eq!(chan.try_recv(&mut sched), Ok(12));
    assert_eq!(chan.try_recv(&mut sched), Err(ChannelStatus::Empty));
}

#[test]
fn a_ring_of_n_slots_holds_n_minus_one_values() {
    let mut sched = Scheduler::new(0, RoundRobin::new(), None);
    let mut chan: Channel<u8> = Channel::new(3, 7);
    assert!(chan.is_empty());
    assert!(!chan.is_full());
    assert_eq!(chan.try_send(&mut sched, 1), ChannelStatus::Success);
    assert!(!chan.is_empty());
    assert!(!chan.is_full());
    assert_eq!(chan.try_send(&mut sched, 2), ChannelStatus::Success);
    assert!(chan.is_full());
    assert_eq!(chan.try_send(&mut sched, 3), ChannelStatus::Full);
    assert_eq!(chan.try_recv(&mut sched), Ok(1));
    assert!(!chan.is_full());
    assert_eq!(chan.try_send(&mut sched, 4), ChannelStatus::Success);
    assert_eq!(chan.try_recv(&mut sched), Ok(2));
    assert_eq!(chan.try_recv(&mut sched), Ok(4));
    assert!(chan.is_empty());
}

#[test]
fn a_ring_of_one_slot_is_always_full() {
    let mut sched = Scheduler::new(0, RoundRobin::new(), None);
    let mut chan: Channel<u8> = Channel::new(1, 7);
    assert!(chan.is_empty());
    assert!(chan.is_full());
    assert_eq!(chan.try_send(&mut sched, 1), ChannelStatus::Full);
    assert_eq!(chan.try_recv(&mut sched), Err(ChannelStatus::Empty));
}

#[test]
fn the_cursors_wrap_around_the_ring() {
    let mut sched = Scheduler::new(0, RoundRobin::new(), None);
    let mut chan: Channel<usize> = Channel::new(4, 7);
    let mut next_out = 0;
    for i in 0..50 {
        assert_eq!(chan.try_send(&mut sched, i), ChannelStatus::Success);
        if i % 3 != 0 {
            assert_eq!(chan.try_recv(&mut sched), Ok(next_out));
            next_out += 1;
        }
        if chan.is_full() {
            assert_eq!(chan.try_recv(&mut sched), Ok(next_out));
            next_out += 1;
        }
        assert!(chan.cidx < 4 && chan.pidx < 4);
    }
    while let Ok(v) = chan.try_recv(&mut sched) {
        assert_eq!(v, next_out);
        next_out += 1;
    }
    assert_eq!(next_out, 50);
}

#[test]
fn send_on_a_full_channel_parks_the_producer() {
    let (mut sched, a, b) = two_workers();
    let mut chan: Channel<&'static str> = Channel::new(2, 300);
    assert_eq!(chan.send(&mut sched, "one"), (ChannelStatus::Success, None));
    assert_eq!(sched.active(), a);
    assert_eq!(chan.send(&mut sched, "two"), (ChannelStatus::Full, Some("two")));
    assert_eq!(sched.contexts[a].state, State::Suspended);
    assert_eq!(sched.contexts[a].twstatus, 300);
    assert_eq!(chan.waiting_producers.len(), 1);
    assert_eq!(sched.active(), b);
    // a receive frees a slot and wakes the producer
    assert_eq!(chan.recv(&mut sched), Ok("one"));
    assert_eq!(sched.contexts[a].state, State::Ready);
    assert_eq!(sched.contexts[a].twstatus, -1);
    assert!(chan.waiting_producers.is_empty());
    assert_eq!(sched.active(), b);
}

#[test]
fn recv_on_an_empty_channel_parks_the_consumer() {
    let (mut sched, a, b) = two_workers();
    let mut chan: Channel<i64> = Channel::new(2, 300);
    assert_eq!(chan.recv(&mut sched), Err(ChannelStatus::Empty));
    assert_eq!(sched.contexts[a].state, State::Suspended);
    assert_eq!(chan.waiting_consumers.len(), 1);
    assert_eq!(sched.active(), b);
    assert_eq!(chan.send(&mut sched, -5), (ChannelStatus::Success, None));
    assert_eq!(sched.contexts[a].state, State::Ready);
    assert!(chan.waiting_consumers.is_empty());
    // the value waits in the ring for the consumer to ask again
    sched.yield_();
    assert_eq!(sched.active(), 1);
    let _ = sched.dispatch(0);
    assert_eq!(sched.active(), a);
    assert_eq!(chan.recv(&mut sched), Ok(-5));
}

#[test]
fn a_closed_channel_refuses_values_and_hands_out_what_it_holds() {
    let mut sched = Scheduler::new(0, RoundRobin::new(), None);
    let mut chan: Channel<u8> = Channel::new(4, 7);
    assert!(!chan.is_closed());
    assert_eq!(chan.try_send(&mut sched, 1), ChannelStatus::Success);
    assert_eq!(chan.try_send(&mut sched, 2), ChannelStatus::Success);
    chan.close(&mut sched);
    assert!(chan.is_closed());
    assert_eq!(chan.try_send(&mut sched, 3), ChannelStatus::Closed);
    assert_eq!(chan.send(&mut sched, 3), (ChannelStatus::Closed, None));
    // what was sent before the close comes out, in order, and nothing else
    assert_eq!(chan.recv(&mut sched), Ok(1));
    assert_eq!(chan.try_recv(&mut sched), Ok(2));
    assert_eq!(chan.try_recv(&mut sched), Err(ChannelStatus::Closed));
    assert_eq!(chan.recv(&mut sched), Err(ChannelStatus::Closed));
    assert_eq!(sched.active(), 0);
    // closing again changes nothing
    chan.close(&mut sched);
    assert!(chan.is_closed());
}

#[test]
fn close_schedules_every_waiter() {
    let mut sched = Scheduler::new(0, RoundRobin::new(), None);
    let a = sched.spawn(stack(1));
    let b = sched.spawn(stack(2));
    let mut chan: Channel<u8> = Channel::new(2, 300);
    sched.suspend();
    let _ = sched.dispatch(0);
    assert_eq!(chan.recv(&mut sched), Err(ChannelStatus::Empty));
    assert_eq!(sched.active(), b);
    assert_eq!(chan.recv(&mut sched), Err(ChannelStatus::Empty));
    assert_eq!(sched.active(), 1);
    assert_eq!(chan.waiting_consumers.len(), 2);
    chan.close(&mut sched);
    assert!(chan.waiting_consumers.is_empty());
    assert_eq!(sched.contexts[a].state, State::Ready);
    assert_eq!(sched.contexts[b].state, State::Ready);
    let _ = sched.dispatch(0);
    assert_eq!(sched.active(), a);
    assert_eq!(chan.recv(&mut sched), Err(ChannelStatus::Closed));
    assert_eq!(sched.active(), a);
}

#[test]
fn a_waker_skips_waiters_it_lost_and_stops_at_unpublished_ones() {
    let (mut sched, a, b) = two_workers();
    let c = sched.spawn(stack(3));
    let mut queue = WaitQueue::new();
    // a and b wait on token 9
    queue.wait(&mut sched, 9);
    assert_eq!(sched.active(), b);
    queue.wait(&mut sched, 9);
    assert_eq!(sched.active(), 1);
    let _ = sched.dispatch(0);
    assert_eq!(sched.active(), c);
    // a timed out in the meantime
    sched.contexts[a].twstatus = -2;
    assert_eq!(queue.notify_one(&mut sched, 9), Some(b));
    assert!(queue.is_empty());
    assert_eq!(sched.contexts[a].state, State::Suspended);
    assert_eq!(sched.contexts[a].twstatus, -2);
    assert_eq!(sched.contexts[b].state, State::Ready);
    // a waiter that has not published its wait stays in front
    queue.queue.push_back(a);
    sched.contexts[a].twstatus = 0;
    assert_eq!(queue.notify_one(&mut sched, 9), None);
    assert_eq!(queue.notify_all(&mut sched, 9), 0);
    assert_eq!(queue.len(), 1);
    // once it has published, it is woken
    sched.contexts[a].twstatus = 9;
    assert_eq!(queue.notify_all(&mut sched, 9), 1);
    assert!(queue.is_empty());
    assert_eq!(sched.contexts[a].state, State::Ready);
}

#[test]
fn notify_all_wakes_in_queue_order() {
    let (mut sched, a, b) = two_workers();
    let mut queue = WaitQueue::new();
    queue.wait(&mut sched, 9);
    queue.wait(&mut sched, 9);
    assert_eq!(sched.active(), 1);
    assert_eq!(queue.notify_all(&mut sched, 9), 2);
    assert_eq!(sched.algo.rqueue.iter().copied().collect::<Vec<_>>(), vec![a, b]);
    // pass and drain schedule without a handshake
    sched.suspend();
    assert_eq!(sched.active(), a);
    queue.wait(&mut sched, 9);
    queue.wait(&mut sched, 9);
    sched.contexts[a].twstatus = -2;
    assert_eq!(queue.pass(&mut sched), Some(a));
    assert_eq!(sched.contexts[a].state, State::Ready);
    queue.drain(&mut sched);
    assert!(queue.is_empty());
    assert_eq!(sched.contexts[b].state, State::Ready);
    assert_eq!(queue.pass(&mut sched), None);
}

#[test]
fn the_cursors_and_slots_follow_each_value() {
    let mut sched = Scheduler::new(0, RoundRobin::new(), None);
    let mut chan: Channel<u8> = Channel::new(3, 7);
    assert_eq!((chan.cidx, chan.pidx), (0, 0));
    assert_eq!(chan.slots, vec![None, None, None]);
    // a value goes to the slot at the producer cursor
    assert_eq!(chan.try_send(&mut sched, 10), ChannelStatus::Success);
    assert_eq!((chan.cidx, chan.pidx), (0, 1));
    assert_eq!(chan.slots, vec![Some(10), None, None]);
    assert_eq!(chan.try_send(&mut sched, 11), ChannelStatus::Success);
    assert_eq!((chan.cidx, chan.pidx), (0, 2));
    // a refused value moves nothing
    assert_eq!(chan.try_send(&mut sched, 12), ChannelStatus::Full);
    assert_eq!((chan.cidx, chan.pidx), (0, 2));
    assert_eq!(chan.slots, vec![Some(10), Some(11), None]);
    // a received value leaves its slot empty and moves the consumer cursor
    assert_eq!(chan.try_recv(&mut sched), Ok(10));
    assert_eq!((chan.cidx, chan.pidx), (1, 2));
    assert_eq!(chan.slots, vec![None, Some(11), None]);
    // the producer cursor wraps round the ring
    assert_eq!(chan.try_send(&mut sched, 12), ChannelStatus::Success);
    assert_eq!((chan.cidx, chan.pidx), (1, 0));
    assert_eq!(chan.slots, vec![None, Some(11), Some(12)]);
    // closing moves nothing
    chan.close(&mut sched);
    assert_eq!((chan.cidx, chan.pidx), (1, 0));
    assert_eq!(chan.slots, vec![None, Some(11), Some(12)]);
    assert_eq!(chan.try_recv(&mut sched), Ok(11));
    assert_eq!(chan.try_recv(&mut sched), Ok(12));
    // the ring is empty where the cursors meet, wherever that is
    assert_eq!((chan.cidx, chan.pidx), (0, 0));
    assert_eq!(chan.try_recv(&mut sched), Err(ChannelStatus::Closed));
    assert_eq!((chan.cidx, chan.pidx), (0, 0));
    assert_eq!(chan.slots, vec![None, None, None]);
}

#[test]
fn giving_a_channel_up_closes_it() {
    let (mut sched, a, b) = two_workers();
    let mut chan: Channel<u8> = Channel::new(2, 300);
    assert_eq!(chan.recv(&mut sched), Err(ChannelStatus::Empty));
    assert_eq!(sched.active(), b);
    assert_eq!(sched.contexts[a].state, State::Suspended);
    chan.destroy(&mut sched);
    assert_eq!(sched.contexts[a].state, State::Ready);
    assert_eq!(sched.active(), b);
}
