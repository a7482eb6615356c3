//! A bounded channel: a ring of slots between producers and consumers.

use vstd::prelude::*;
use crate::algorithm::Algorithm;
use crate::context::is_token;
use crate::scheduler::model::SchedulerView;
use crate::scheduler::Scheduler;
use crate::wait_queue::{wake_one, WaitQueue};

verus! {

/// How an operation on a channel ended.
#[derive(Copy, Clone, Debug, PartialEq, Eq, Structural)]
pub enum ChannelStatus {
    Success,
    Empty,
    Full,
    Closed,
    Timeout,
}

/// The slot that follows slot `i` in a ring of `capacity` slots.
pub open spec fn spec_next(i: int, capacity: int) -> int {
    if i + 1 == capacity {
        0
    } else {
        i + 1
    }
}

/// The slot that lies `k` slots behind slot `i` in a ring of `capacity`
/// slots.
pub open spec fn spec_slot(i: int, k: int, capacity: int) -> int {
    if i + k < capacity {
        i + k
    } else {
        i + k - capacity
    }
}

/// Number of slots from slot `from` up to slot `to`, going round the ring.
pub open spec fn spec_distance(from: int, to: int, capacity: int) -> int {
    if to >= from {
        to - from
    } else {
        to + capacity - from
    }
}

/// A channel as a mathematical value.
pub struct ChannelView<T> {
    /// Number of slots in the ring. One slot always stays free, so the ring
    /// holds at most `capacity - 1` values.
    pub capacity: nat,
    /// The slots of the ring; a slot that holds no value is `None`.
    pub slots: Seq<Option<T>>,
    /// The consumer cursor: slot of the oldest value.
    pub cidx: int,
    /// The producer cursor: slot that the next value goes to.
    pub pidx: int,
    /// The values in the ring, oldest first.
    pub buffer: Seq<T>,
    pub closed: bool,
    /// Fibers that wait for a free slot.
    pub producers: Seq<usize>,
    /// Fibers that wait for a value.
    pub consumers: Seq<usize>,
    /// The value that waiters publish in their wake-status word.
    pub token: isize,
    /// Every value that was ever placed in the ring, in that order.
    pub sent: Seq<T>,
    /// Every value that was ever taken out of the ring, in that order.
    pub received: Seq<T>,
}

/// The state after an operation on a channel, and what it returned.
pub struct ChannelStep<T> {
    pub chan: ChannelView<T>,
    pub sched: SchedulerView,
    pub status: ChannelStatus,
    /// The value that a receive took out of the ring.
    pub value: Option<T>,
}

impl<T> ChannelView<T> {
    /// Number of values between the cursors.
    pub open spec fn count(self) -> int {
        spec_distance(self.cidx, self.pidx, self.capacity as int)
    }

    /// The values in the slots from the consumer cursor up to the producer
    /// cursor, going round the ring.
    pub open spec fn ring(self) -> Seq<T> {
        Seq::new(
            self.count() as nat,
            |k: int| self.slots[spec_slot(self.cidx, k, self.capacity as int)].unwrap(),
        )
    }

    /// The cursors lie in the ring; the slots from the consumer cursor up
    /// to the producer cursor hold the values and no other slot holds one;
    /// the token names the channel; and what was sent is what was received
    /// followed by what is in the ring.
    pub open spec fn wf(self) -> bool {
        &&& self.capacity > 0
        &&& is_token(self.token)
        &&& self.slots.len() == self.capacity
        &&& 0 <= self.cidx < self.capacity
        &&& 0 <= self.pidx < self.capacity
        &&& forall|j: int|
            0 <= j < self.capacity ==> ((#[trigger] self.slots[j]).is_some() <==> spec_distance(
                self.cidx,
                j,
                self.capacity as int,
            ) < self.count())
        &&& self.buffer == self.ring()
        &&& self.buffer.len() < self.capacity
        &&& self.sent == self.received + self.buffer
    }

    /// `value` goes to the slot at the producer cursor, and the cursor
    /// moves on by one slot.
    pub open spec fn put(self, value: T) -> ChannelView<T> {
        ChannelView {
            slots: self.slots.update(self.pidx, Some(value)),
            pidx: spec_next(self.pidx, self.capacity as int),
            buffer: self.buffer.push(value),
            sent: self.sent.push(value),
            ..self
        }
    }

    /// The value in the slot at the consumer cursor leaves its slot, and
    /// the cursor moves on by one slot.
    pub open spec fn get(self) -> ChannelView<T> {
        ChannelView {
            slots: self.slots.update(self.cidx, None),
            cidx: spec_next(self.cidx, self.capacity as int),
            buffer: self.buffer.drop_first(),
            received: self.received.push(self.buffer[0]),
            ..self
        }
    }

    /// Whether no slot is free for a value.
    pub open spec fn is_full(self) -> bool {
        self.buffer.len() + 1 == self.capacity
    }

    /// Whether the ring holds no value.
    pub open spec fn is_empty(self) -> bool {
        self.buffer.len() == 0
    }

    /// A value is placed in the slot at the producer cursor, and the first
    /// consumer that can be claimed is woken.
    pub open spec fn place(self, s: SchedulerView, value: T) -> ChannelStep<T> {
        let woken = wake_one(s, self.consumers, self.token);
        ChannelStep {
            chan: ChannelView { consumers: woken.queue, ..self.put(value) },
            sched: woken.sched,
            status: ChannelStatus::Success,
            value: None,
        }
    }

    /// The oldest value is taken out of the slot at the consumer cursor,
    /// and the first producer that can be claimed is woken.
    pub open spec fn take(self, s: SchedulerView) -> ChannelStep<T> {
        let woken = wake_one(s, self.producers, self.token);
        ChannelStep {
            chan: ChannelView { producers: woken.queue, ..self.get() },
            sched: woken.sched,
            status: ChannelStatus::Success,
            value: Some(self.buffer[0]),
        }
    }

    /// An operation that changed nothing and returned `status`.
    pub open spec fn unchanged(self, s: SchedulerView, status: ChannelStatus) -> ChannelStep<T> {
        ChannelStep { chan: self, sched: s, status, value: None }
    }

    /// A send that does not wait: `Closed` on a closed channel, `Full` on a
    /// full one, else the value is placed.
    pub open spec fn try_send(self, s: SchedulerView, value: T) -> ChannelStep<T> {
        if self.closed {
            self.unchanged(s, ChannelStatus::Closed)
        } else if self.is_full() {
            self.unchanged(s, ChannelStatus::Full)
        } else {
            self.place(s, value)
        }
    }

    /// A send: on a full channel the running fiber enters the queue of
    /// producers and is parked, and the status is `Full`.
    pub open spec fn send(self, s: SchedulerView, value: T) -> ChannelStep<T> {
        if self.closed {
            self.unchanged(s, ChannelStatus::Closed)
        } else if self.is_full() {
            ChannelStep {
                chan: ChannelView { producers: self.producers.push(s.active), ..self },
                sched: s.park(self.token),
                status: ChannelStatus::Full,
                value: None,
            }
        } else {
            self.place(s, value)
        }
    }

    /// A receive that does not wait: on an empty channel `Closed` where it
    /// is closed and `Empty` where it is not, else the oldest value.
    pub open spec fn try_recv(self, s: SchedulerView) -> ChannelStep<T> {
        if self.is_empty() {
            if self.closed {
                self.unchanged(s, ChannelStatus::Closed)
            } else {
                self.unchanged(s, ChannelStatus::Empty)
            }
        } else {
            self.take(s)
        }
    }

    /// A receive: on an empty open channel the running fiber enters the
    /// queue of consumers and is parked, and the status is `Empty`.
    pub open spec fn recv(self, s: SchedulerView) -> ChannelStep<T> {
        if self.is_empty() {
            if self.closed {
                self.unchanged(s, ChannelStatus::Closed)
            } else {
                ChannelStep {
                    chan: ChannelView { consumers: self.consumers.push(s.active), ..self },
                    sched: s.park(self.token),
                    status: ChannelStatus::Empty,
                    value: None,
                }
            }
        } else {
            self.take(s)
        }
    }

    /// The channel is closed and every waiter scheduled, producers first. A
    /// closed channel stays as it is.
    pub open spec fn close(self, s: SchedulerView) -> ChannelStep<T> {
        if self.closed {
            self.unchanged(s, ChannelStatus::Closed)
        } else {
            ChannelStep {
                chan: ChannelView {
                    closed: true,
                    producers: Seq::empty(),
                    consumers: Seq::empty(),
                    ..self
                },
                sched: s.schedule_all(self.producers).schedule_all(self.consumers),
                status: ChannelStatus::Closed,
                value: None,
            }
        }
    }
}

fn next(i: usize, capacity: usize) -> (r: usize)
    requires
        i < capacity,
    ensures
        r == spec_next(i as int, capacity as int),
        r < capacity,
{
    proof {
        if i + 1 == capacity {
            vstd::arithmetic::div_mod::lemma_mod_self_0(capacity as int);
        } else {
            vstd::arithmetic::div_mod::lemma_small_mod((i + 1) as nat, capacity as nat);
        }
    }
    (i + 1) % capacity
}

/// A communication object between fibers: values sent into it come out in
/// the order in which they went in.
pub struct Channel<T> {
    pub capacity: usize,
    pub slots: Vec<Option<T>>,
    pub waiting_producers: WaitQueue,
    pub waiting_consumers: WaitQueue,
    pub closed: bool,
    /// Slot of the oldest value.
    pub cidx: usize,
    /// Slot that the next value goes to.
    pub pidx: usize,
    pub token: isize,
    pub sent: Ghost<Seq<T>>,
    pub received: Ghost<Seq<T>>,
}

impl<T> View for Channel<T> {
    type V = ChannelView<T>;

    open spec fn view(&self) -> ChannelView<T> {
        ChannelView {
            capacity: self.capacity as nat,
            slots: self.slots@,
            cidx: self.cidx as int,
            pidx: self.pidx as int,
            buffer: Seq::new(
                spec_distance(self.cidx as int, self.pidx as int, self.capacity as int) as nat,
                |k: int| self.slots@[spec_slot(self.cidx as int, k, self.capacity as int)].unwrap(),
            ),
            closed: self.closed,
            producers: self.waiting_producers@,
            consumers: self.waiting_consumers@,
            token: self.token,
            sent: self.sent@,
            received: self.received@,
        }
    }
}

impl<T> Channel<T> {
    /// The invariant: that of the channel as a mathematical value.
    pub open spec fn wf(&self) -> bool {
        self@.wf()
    }

    /// A channel with a ring of `size` slots, whose waiters publish `token`.
    pub fn new(size: usize, token: isize) -> (r: Self)
        requires
            size > 0,
            is_token(token),
        ensures
            r.wf(),
            r@ == (ChannelView::<T> {
                capacity: size as nat,
                slots: Seq::new(size as nat, |j: int| None),
                cidx: 0,
                pidx: 0,
                buffer: Seq::empty(),
                closed: false,
                producers: Seq::empty(),
                consumers: Seq::empty(),
                token,
                sent: Seq::empty(),
                received: Seq::empty(),
            }),
    {
        let mut slots: Vec<Option<T>> = Vec::new();
        let mut i: usize = 0;
        while i < size
            invariant
                i <= size,
                slots@.len() == i,
                forall|j: int| 0 <= j < i ==> slots@[j].is_none(),
            decreases size - i,
        {
            slots.push(None);
            i += 1;
        }
        let r = Channel {
            capacity: size,
            slots,
            waiting_producers: WaitQueue::new(),
            waiting_consumers: WaitQueue::new(),
            closed: false,
            cidx: 0,
            pidx: 0,
            token,
            sent: Ghost(Seq::empty()),
            received: Ghost(Seq::empty()),
        };
        proof {
            assert(r@.buffer =~= Seq::<T>::empty());
            assert(r@.slots =~= Seq::new(size as nat, |j: int| None::<T>));
            assert(r@.buffer =~= r@.ring());
            assert(r@.sent =~= r@.received + r@.buffer);
        }
        r
    }

    /// Whether the channel was closed.
    pub fn is_closed(&self) -> (r: bool)
        ensures
            r == self@.closed,
    {
        self.closed
    }

    /// Whether no slot is free for a value.
    pub fn is_full(&self) -> (r: bool)
        requires
            self.wf(),
        ensures
            r == self@.is_full(),
    {
        self.cidx == next(self.pidx, self.capacity)
    }

    /// Whether the ring holds no value.
    pub fn is_empty(&self) -> (r: bool)
        requires
            self.wf(),
        ensures
            r == self@.is_empty(),
    {
        self.cidx == self.pidx
    }

    /// Puts `value` in the slot at the producer cursor and advances the
    /// cursor.
    fn put(&mut self, value: T)
        requires
            old(self).wf(),
            !old(self)@.is_full(),
        ensures
            final(self).wf(),
            final(self)@ == old(self)@.put(value),
    {
        let at = self.pidx;
        self.slots[at] = Some(value);
        self.pidx = next(self.pidx, self.capacity);
        proof {
            self.sent@ = self.sent@.push(value);
            lemma_put(old(self)@, value);
            let n = old(self)@.put(value);
            assert(self@.slots =~= n.slots);
            assert(self@.buffer =~= n.ring());
        }
    }

    /// Takes the value out of the slot at the consumer cursor and advances
    /// the cursor.
    fn get(&mut self) -> (value: T)
        requires
            old(self).wf(),
            !old(self)@.is_empty(),
        ensures
            final(self).wf(),
            value == old(self)@.buffer[0],
            final(self)@ == old(self)@.get(),
    {
        let at = self.cidx;
        proof {
            lemma_get(old(self)@);
        }
        let mut value: Option<T> = None;
        std::mem::swap(&mut self.slots[at], &mut value);
        self.cidx = next(self.cidx, self.capacity);
        proof {
            self.received@ = self.received@.push(old(self)@.buffer[0]);
            let n = old(self)@.get();
            assert(self@.slots =~= n.slots);
            assert(self@.buffer =~= n.ring());
        }
        value.unwrap()
    }

    /// Places `value` and wakes the first consumer that can be claimed.
    fn place<A: Algorithm>(&mut self, sched: &mut Scheduler<A>, value: T)
        requires
            old(self).wf(),
            old(sched).wf(),
            !old(self)@.is_full(),
        ensures
            final(self).wf(),
            final(sched).wf(),
            final(self)@ == old(self)@.place(old(sched)@, value).chan,
            final(sched)@ == old(self)@.place(old(sched)@, value).sched,
            final(sched).algo.steals() == old(sched).algo.steals(),
            final(sched).algo.parked() == old(sched).algo.parked(),
    {
        self.put(value);
        let _ = self.waiting_consumers.notify_one(sched, self.token);
    }

    /// Takes the oldest value and wakes the first producer that can be
    /// claimed.
    fn take<A: Algorithm>(&mut self, sched: &mut Scheduler<A>) -> (value: T)
        requires
            old(self).wf(),
            old(sched).wf(),
            !old(self)@.is_empty(),
        ensures
            final(self).wf(),
            final(sched).wf(),
            final(self)@ == old(self)@.take(old(sched)@).chan,
            final(sched)@ == old(self)@.take(old(sched)@).sched,
            Some(value) == old(self)@.take(old(sched)@).value,
            final(sched).algo.steals() == old(sched).algo.steals(),
            final(sched).algo.parked() == old(sched).algo.parked(),
    {
        let value = self.get();
        let _ = self.waiting_producers.notify_one(sched, self.token);
        value
    }

    /// Sends `value` for the running fiber. On a closed channel the value
    /// is dropped and the status is `Closed`. On a full channel the fiber
    /// enters the queue of producers and is parked; the status is `Full`
    /// and the value comes back, to be sent again when the fiber runs
    /// next. Else the value is placed, the first consumer that can be
    /// claimed is woken, and the status is `Success`.
    pub fn send<A: Algorithm>(&mut self, sched: &mut Scheduler<A>, value: T) -> (r: (
        ChannelStatus,
        Option<T>,
    ))
        requires
            old(self).wf(),
            old(sched).wf(),
            old(sched)@.active != old(sched)@.dispatcher,
        ensures
            final(self).wf(),
            final(sched).wf(),
            final(self)@ == old(self)@.send(old(sched)@, value).chan,
            final(sched)@ == old(self)@.send(old(sched)@, value).sched,
            r.0 == old(self)@.send(old(sched)@, value).status,
            r.0 == ChannelStatus::Success ==> final(self).pidx == spec_next(
                old(self).pidx as int,
                old(self).capacity as int,
            ) && final(self).cidx == old(self).cidx && final(self).slots@ == old(self).slots@.update(old(self).pidx as int, Some(value)),
            r.0 != ChannelStatus::Success ==> final(self).pidx == old(self).pidx && final(self).cidx == old(self).cidx && final(self).slots@ == old(self).slots@,
            r.1 == (if r.0 == ChannelStatus::Full {
                Some(value)
            } else {
                None
            }),
            final(sched).algo.steals() == old(sched).algo.steals(),
            final(sched).algo.parked() == old(sched).algo.parked(),
    {
        if self.is_closed() {
            (ChannelStatus::Closed, None)
        } else if self.is_full() {
            self.waiting_producers.wait(sched, self.token);
            (ChannelStatus::Full, Some(value))
        } else {
            self.place(sched, value);
            (ChannelStatus::Success, None)
        }
    }

    /// Sends `value` without waiting: `Closed` on a closed channel and
    /// `Full` on a full one, with the value dropped; else the value is
    /// placed, the first consumer that can be claimed is woken, and the
    /// status is `Success`.
    pub fn try_send<A: Algorithm>(&mut self, sched: &mut Scheduler<A>, value: T) -> (r:
        ChannelStatus)
        requires
            old(self).wf(),
            old(sched).wf(),
        ensures
            final(self).wf(),
            final(sched).wf(),
            final(self)@ == old(self)@.try_send(old(sched)@, value).chan,
            final(sched)@ == old(self)@.try_send(old(sched)@, value).sched,
            r == old(self)@.try_send(old(sched)@, value).status,
            r == ChannelStatus::Success ==> final(self).pidx == spec_next(
                old(self).pidx as int,
                old(self).capacity as int,
            ) && final(self).cidx == old(self).cidx && final(self).slots@ == old(self).slots@.update(old(self).pidx as int, Some(value)),
            r != ChannelStatus::Success ==> final(self).pidx == old(self).pidx && final(self).cidx == old(self).cidx && final(self).slots@ == old(self).slots@,
            final(sched).algo.steals() == old(sched).algo.steals(),
            final(sched).algo.parked() == old(sched).algo.parked(),
    {
        if self.is_closed() {
            ChannelStatus::Closed
        } else if self.is_full() {
            ChannelStatus::Full
        } else {
            self.place(sched, value);
            ChannelStatus::Success
        }
    }

    /// Receives for the running fiber. From a ring that holds a value the
    /// oldest one is taken and the first producer that can be claimed is
    /// woken. On an empty closed channel the result is `Err(Closed)`. On an
    /// empty open channel the fiber enters the queue of consumers and is
    /// parked; the result is `Err(Empty)`, and the fiber receives again
    /// when it runs next.
    pub fn recv<A: Algorithm>(&mut self, sched: &mut Scheduler<A>) -> (r: Result<T, ChannelStatus>)
        requires
            old(self).wf(),
            old(sched).wf(),
            old(sched)@.active != old(sched)@.dispatcher,
        ensures
            final(self).wf(),
            final(sched).wf(),
            final(self)@ == old(self)@.recv(old(sched)@).chan,
            final(sched)@ == old(self)@.recv(old(sched)@).sched,
            r.is_ok() <==> !old(self)@.is_empty(),
            r.is_ok() ==> Some(r.unwrap()) == old(self)@.recv(old(sched)@).value,
            r.is_err() ==> r == Err::<T, ChannelStatus>(old(self)@.recv(old(sched)@).status),
            r.is_ok() ==> final(self).cidx == spec_next(
                old(self).cidx as int,
                old(self).capacity as int,
            ) && final(self).pidx == old(self).pidx && final(self).slots@ == old(self).slots@.update(old(self).cidx as int, None),
            r.is_err() ==> final(self).cidx == old(self).cidx && final(self).pidx == old(self).pidx && final(self).slots@ == old(self).slots@,
            final(sched).algo.steals() == old(sched).algo.steals(),
            final(sched).algo.parked() == old(sched).algo.parked(),
    {
        if self.is_empty() {
            if self.is_closed() {
                Err(ChannelStatus::Closed)
            } else {
                self.waiting_consumers.wait(sched, self.token);
                Err(ChannelStatus::Empty)
            }
        } else {
            Ok(self.take(sched))
        }
    }

    /// Receives without waiting: the oldest value where the ring holds one,
    /// else `Err(Closed)` on a closed channel and `Err(Empty)` on an open
    /// one.
    pub fn try_recv<A: Algorithm>(&mut self, sched: &mut Scheduler<A>) -> (r: Result<
        T,
        ChannelStatus,
    >)
        requires
            old(self).wf(),
            old(sched).wf(),
        ensures
            final(self).wf(),
            final(sched).wf(),
            final(self)@ == old(self)@.try_recv(old(sched)@).chan,
            final(sched)@ == old(self)@.try_recv(old(sched)@).sched,
            r.is_ok() <==> !old(self)@.is_empty(),
            r.is_ok() ==> Some(r.unwrap()) == old(self)@.try_recv(old(sched)@).value,
            r.is_err() ==> r == Err::<T, ChannelStatus>(old(self)@.try_recv(old(sched)@).status),
            r.is_ok() ==> final(self).cidx == spec_next(
                old(self).cidx as int,
                old(self).capacity as int,
            ) && final(self).pidx == old(self).pidx && final(self).slots@ == old(self).slots@.update(old(self).cidx as int, None),
            r.is_err() ==> final(self).cidx == old(self).cidx && final(self).pidx == old(self).pidx && final(self).slots@ == old(self).slots@,
            final(sched).algo.steals() == old(sched).algo.steals(),
            final(sched).algo.parked() == old(sched).algo.parked(),
    {
        if self.is_empty() {
            if self.is_closed() {
                Err(ChannelStatus::Closed)
            } else {
                Err(ChannelStatus::Empty)
            }
        } else {
            Ok(self.take(sched))
        }
    }

    /// Closes the channel: every waiting producer and then every waiting
    /// consumer is scheduled. Values in the ring can still be received. On
    /// a closed channel nothing changes.
    pub fn close<A: Algorithm>(&mut self, sched: &mut Scheduler<A>)
        requires
            old(self).wf(),
            old(sched).wf(),
        ensures
            final(self).wf(),
            final(sched).wf(),
            final(self)@ == old(self)@.close(old(sched)@).chan,
            final(sched)@ == old(self)@.close(old(sched)@).sched,
            final(self)@.closed,
            final(self).cidx == old(self).cidx,
            final(self).pidx == old(self).pidx,
            final(self).slots@ == old(self).slots@,
            final(sched).algo.steals() == old(sched).algo.steals(),
            final(sched).algo.parked() == old(sched).algo.parked(),
    {
        if !self.closed {
            self.closed = true;
            self.waiting_producers.drain(sched);
            self.waiting_consumers.drain(sched);
            proof {
                assert(self@.buffer =~= old(self)@.buffer);
            }
        }
    }
}

impl<T> Channel<T> {
    /// Gives the channel up. It is closed first, so that nobody is left
    /// waiting on a channel that is gone; the values still in the ring go
    /// with it.
    pub fn destroy<A: Algorithm>(self, sched: &mut Scheduler<A>)
        requires
            self.wf(),
            old(sched).wf(),
        ensures
            final(sched).wf(),
            final(sched)@ == self@.close(old(sched)@).sched,
            final(sched).algo.steals() == old(sched).algo.steals(),
            final(sched).algo.parked() == old(sched).algo.parked(),
    {
        let mut chan = self;
        chan.close(sched);
    }
}

/// The cursors tell how full the ring is: it is empty exactly if they
/// are equal, and full exactly if the consumer cursor is the slot behind
/// the producer cursor.
pub proof fn lemma_ring_cursors<T>(c: ChannelView<T>)
    requires
        c.wf(),
    ensures
        c.buffer.len() == c.count(),
        c.is_empty() <==> c.cidx == c.pidx,
        c.is_full() <==> c.cidx == spec_next(c.pidx, c.capacity as int),
{
}

/// Placing a value keeps the invariant: the ring is what it was, followed
/// by the value.
pub proof fn lemma_put<T>(c: ChannelView<T>, value: T)
    requires
        c.wf(),
        !c.is_full(),
    ensures
        c.put(value).wf(),
        c.put(value).ring() == c.buffer.push(value),
{
    let n = c.put(value);
    let cap = c.capacity as int;
    let count = c.count();
    assert(spec_slot(c.cidx, count, cap) == c.pidx);
    assert forall|j: int| 0 <= j < cap implies ((#[trigger] n.slots[j]).is_some() <==> spec_distance(
        n.cidx,
        j,
        cap,
    ) < n.count()) by {
        if j != c.pidx {
            assert(n.slots[j] == c.slots[j]);
        }
    }
    assert forall|k: int| 0 <= k < count implies #[trigger] n.ring()[k] == c.buffer[k] by {
        assert(c.ring()[k] == c.slots[spec_slot(c.cidx, k, cap)].unwrap());
    }
    assert(n.ring() =~= c.buffer.push(value));
    assert(n.sent =~= n.received + n.buffer);
}

/// Taking the oldest value keeps the invariant: it is the value in the
/// slot at the consumer cursor, and the ring is what it was without it.
pub proof fn lemma_get<T>(c: ChannelView<T>)
    requires
        c.wf(),
        !c.is_empty(),
    ensures
        c.get().wf(),
        c.get().ring() == c.buffer.drop_first(),
        c.slots[c.cidx].is_some(),
        c.slots[c.cidx].unwrap() == c.buffer[0],
{
    let n = c.get();
    let cap = c.capacity as int;
    let count = c.count();
    assert(spec_slot(c.cidx, 0, cap) == c.cidx);
    assert(c.ring()[0] == c.slots[spec_slot(c.cidx, 0, cap)].unwrap());
    assert(c.slots[c.cidx].is_some());
    assert forall|j: int| 0 <= j < cap implies ((#[trigger] n.slots[j]).is_some() <==> spec_distance(
        n.cidx,
        j,
        cap,
    ) < n.count()) by {
        if j != c.cidx {
            assert(n.slots[j] == c.slots[j]);
        }
    }
    assert forall|k: int| 0 <= k < count - 1 implies #[trigger] n.ring()[k] == c.buffer[k + 1] by {
        assert(spec_slot(n.cidx, k, cap) == spec_slot(c.cidx, k + 1, cap));
        assert(c.ring()[k + 1] == c.slots[spec_slot(c.cidx, k + 1, cap)].unwrap());
    }
    assert(n.ring() =~= c.buffer.drop_first());
    assert(n.sent =~= n.received + n.buffer);
}

/// The values received from a channel are the first of the values sent
/// into it, in the order in which they were sent; once every value left
/// the ring, they are all of them.
pub proof fn lemma_channel_preservation<T>(c: ChannelView<T>)
    requires
        c.wf(),
    ensures
        c.received.is_prefix_of(c.sent),
        c.received.len() + c.buffer.len() == c.sent.len(),
        c.is_empty() ==> c.received == c.sent,
{
    assert(c.received =~= c.sent.subrange(0, c.received.len() as int));
    if c.is_empty() {
        assert(c.received + c.buffer =~= c.received);
    }
}

/// Every operation on a channel keeps its invariant and the order of its
/// values: what a receive hands out is the oldest value that was sent and
/// not yet received.
pub proof fn lemma_channel_steps<T>(c: ChannelView<T>, s: SchedulerView, value: T)
    requires
        c.wf(),
    ensures
        c.try_send(s, value).chan.wf(),
        c.send(s, value).chan.wf(),
        c.try_recv(s).chan.wf(),
        c.recv(s).chan.wf(),
        c.close(s).chan.wf(),
        c.send(s, value).status == ChannelStatus::Success ==> c.send(s, value).chan.sent
            == c.sent.push(value),
        c.send(s, value).status != ChannelStatus::Success ==> c.send(s, value).chan.sent == c.sent,
        c.recv(s).value.is_some() ==> c.recv(s).value == Some(c.sent[c.received.len() as int])
            && c.recv(s).chan.received == c.received.push(c.sent[c.received.len() as int]),
        c.recv(s).value.is_none() ==> c.recv(s).chan.received == c.received,
        c.close(s).chan.sent == c.sent,
        c.close(s).chan.received == c.received,
        c.close(s).chan.buffer == c.buffer,
        c.close(s).chan.cidx == c.cidx && c.close(s).chan.pidx == c.pidx && c.close(s).chan.slots
            == c.slots,
        c.send(s, value).status == ChannelStatus::Success ==> c.send(s, value).chan.slots[c.pidx]
            == Some(value) && c.send(s, value).chan.pidx == spec_next(c.pidx, c.capacity as int)
            && c.send(s, value).chan.cidx == c.cidx,
        c.recv(s).value.is_some() ==> c.recv(s).value == c.slots[c.cidx] && c.recv(s).chan.slots[c.cidx].is_none() && c.recv(s).chan.cidx == spec_next(
            c.cidx,
            c.capacity as int,
        ) && c.recv(s).chan.pidx == c.pidx,
{
    if !c.closed && !c.is_full() {
        lemma_put(c, value);
        let n = c.place(s, value).chan;
        assert(n.ring() =~= c.put(value).ring());
    }
    if !c.is_empty() {
        lemma_get(c);
        let n = c.take(s).chan;
        assert(n.ring() =~= c.get().ring());
        assert(c.sent[c.received.len() as int] == c.buffer[0]);
    }
    let parked = ChannelView { producers: c.producers.push(s.active), ..c };
    assert(parked.ring() =~= c.ring());
    let waiting = ChannelView { consumers: c.consumers.push(s.active), ..c };
    assert(waiting.ring() =~= c.ring());
    let shut = c.close(s).chan;
    assert(shut.ring() =~= c.ring());
}

} // verus!
