//! The queue of fibers that wait on one primitive, and the handshake by
//! which a waker takes a waiter out of it.

use vstd::prelude::*;
use std::collections::VecDeque;
use crate::algorithm::Algorithm;
use crate::context::{is_token, Handshake, State, TIMED_OUT, WOKEN};
use crate::scheduler::model::SchedulerView;
use crate::scheduler::Scheduler;

verus! {

/// State after a waker went through a wait queue.
pub struct Woken {
    pub sched: SchedulerView,
    /// The waiters that are left.
    pub queue: Seq<usize>,
    /// The waiters that were claimed and scheduled, in queue order.
    pub woke: Seq<usize>,
}

/// A waker takes waiters from the front of `queue` until it has claimed
/// one. A waiter that is lost to the waker is dropped; at a waiter that has
/// not published its wait the waker stops, and that waiter stays in front.
pub open spec fn wake_one(s: SchedulerView, queue: Seq<usize>, token: isize) -> Woken
    decreases queue.len(),
{
    if queue.len() == 0 {
        Woken { sched: s, queue, woke: Seq::empty() }
    } else {
        match s.handshake(queue[0], token) {
            Handshake::Won => Woken {
                sched: s.claim(queue[0], token),
                queue: queue.drop_first(),
                woke: seq![queue[0]],
            },
            Handshake::Unpublished => Woken { sched: s, queue, woke: Seq::empty() },
            Handshake::Lost => wake_one(s, queue.drop_first(), token),
        }
    }
}

/// A waker claims every waiter of `queue` in turn. It stops at a waiter
/// that has not published its wait, which stays in front with all behind
/// it.
pub open spec fn wake_all(s: SchedulerView, queue: Seq<usize>, token: isize) -> Woken
    decreases queue.len(),
{
    if queue.len() == 0 {
        Woken { sched: s, queue, woke: Seq::empty() }
    } else {
        match s.handshake(queue[0], token) {
            Handshake::Won => {
                let rest = wake_all(s.claim(queue[0], token), queue.drop_first(), token);
                Woken { woke: seq![queue[0]] + rest.woke, ..rest }
            },
            Handshake::Unpublished => Woken { sched: s, queue, woke: Seq::empty() },
            Handshake::Lost => wake_all(s, queue.drop_first(), token),
        }
    }
}

/// First-in, first-out queue of the fibers that wait on one primitive.
pub struct WaitQueue {
    pub queue: VecDeque<usize>,
}

impl View for WaitQueue {
    type V = Seq<usize>;

    open spec fn view(&self) -> Seq<usize> {
        self.queue@
    }
}

impl WaitQueue {
    /// A queue without waiters.
    pub fn new() -> (r: Self)
        ensures
            r@ == Seq::<usize>::empty(),
    {
        WaitQueue { queue: VecDeque::new() }
    }

    /// Whether nobody waits.
    pub fn is_empty(&self) -> (r: bool)
        ensures
            r == (self@.len() == 0),
    {
        self.queue.len() == 0
    }

    /// Number of waiters.
    pub fn len(&self) -> (r: usize)
        ensures
            r == self@.len(),
    {
        self.queue.len()
    }

    /// The running fiber publishes that it waits on `token`, enters the
    /// queue at the back and is suspended.
    pub fn wait<A: Algorithm>(&mut self, sched: &mut Scheduler<A>, token: isize)
        requires
            old(sched).wf(),
            old(sched)@.active != old(sched)@.dispatcher,
        ensures
            final(sched).wf(),
            final(self)@ == old(self)@.push(old(sched)@.active),
            final(sched)@ == old(sched)@.park(token),
            final(sched).algo.steals() == old(sched).algo.steals(),
            final(sched).algo.parked() == old(sched).algo.parked(),
    {
        sched.publish(token);
        self.queue.push_back(sched.active());
        sched.suspend();
    }

    /// Wakes the first waiter that can be claimed for `token`, and returns
    /// it; `None` where no waiter was claimed.
    pub fn notify_one<A: Algorithm>(&mut self, sched: &mut Scheduler<A>, token: isize) -> (r:
        Option<usize>)
        requires
            old(sched).wf(),
        ensures
            final(sched).wf(),
            final(sched)@ == wake_one(old(sched)@, old(self)@, token).sched,
            final(self)@ == wake_one(old(sched)@, old(self)@, token).queue,
            r.is_some() <==> wake_one(old(sched)@, old(self)@, token).woke.len() == 1,
            r.is_some() ==> wake_one(old(sched)@, old(self)@, token).woke == seq![r.unwrap()],
            r.is_none() ==> final(sched)@ == old(sched)@,
            final(sched).algo.steals() == old(sched).algo.steals(),
            final(sched).algo.parked() == old(sched).algo.parked(),
    {
        let ghost goal = wake_one(old(sched)@, old(self)@, token);
        while self.queue.len() > 0
            invariant
                sched.wf(),
                sched@ == old(sched)@,
                sched.algo.steals() == old(sched).algo.steals(),
                sched.algo.parked() == old(sched).algo.parked(),
                wake_one(sched@, self@, token) == goal,
                goal == wake_one(old(sched)@, old(self)@, token),
            decreases self.queue.len(),
        {
            let ctx = self.queue[0];
            let ghost before = self@;
            let ghost state = sched@;
            match sched.claim(ctx, token) {
                Handshake::Won => {
                    let _ = self.queue.pop_front();
                    proof {
                        assert(self@ =~= before.drop_first());
                        assert(goal == (Woken {
                            sched: state.claim(ctx, token),
                            queue: before.drop_first(),
                            woke: seq![ctx],
                        }));
                    }
                    return Some(ctx);
                },
                Handshake::Unpublished => {
                    proof {
                        assert(goal == (Woken { sched: state, queue: before, woke: Seq::empty() }));
                    }
                    return None;
                },
                Handshake::Lost => {
                    let _ = self.queue.pop_front();
                    proof {
                        assert(self@ =~= before.drop_first());
                    }
                },
            }
        }
        None
    }

    /// Wakes every waiter that can be claimed for `token`, and returns how
    /// many were woken.
    pub fn notify_all<A: Algorithm>(&mut self, sched: &mut Scheduler<A>, token: isize) -> (r:
        usize)
        requires
            old(sched).wf(),
        ensures
            final(sched).wf(),
            final(sched)@ == wake_all(old(sched)@, old(self)@, token).sched,
            final(self)@ == wake_all(old(sched)@, old(self)@, token).queue,
            r == wake_all(old(sched)@, old(self)@, token).woke.len(),
            final(sched).algo.steals() == old(sched).algo.steals(),
            final(sched).algo.parked() == old(sched).algo.parked(),
    {
        let ghost goal = wake_all(old(sched)@, old(self)@, token);
        let ghost mut woke: Seq<usize> = Seq::empty();
        let mut count: usize = 0;
        let _ = self.queue.len();
        proof {
            assert(woke + goal.woke =~= goal.woke);
        }
        while self.queue.len() > 0
            invariant
                sched.wf(),
                sched.algo.steals() == old(sched).algo.steals(),
                sched.algo.parked() == old(sched).algo.parked(),
                wake_all(sched@, self@, token).sched == goal.sched,
                wake_all(sched@, self@, token).queue == goal.queue,
                woke + wake_all(sched@, self@, token).woke == goal.woke,
                count == woke.len(),
                count + self@.len() <= usize::MAX,
                goal == wake_all(old(sched)@, old(self)@, token),
            decreases self.queue.len(),
        {
            let ctx = self.queue[0];
            let ghost before = self@;
            let ghost state = sched@;
            match sched.claim(ctx, token) {
                Handshake::Won => {
                    let _ = self.queue.pop_front();
                    count += 1;
                    proof {
                        assert(self@ =~= before.drop_first());
                        let rest = wake_all(state.claim(ctx, token), before.drop_first(), token);
                        assert(woke + (seq![ctx] + rest.woke) =~= woke.push(ctx) + rest.woke);
                        woke = woke.push(ctx);
                    }
                },
                Handshake::Unpublished => {
                    proof {
                        assert(wake_all(state, before, token) == (Woken {
                            sched: state,
                            queue: before,
                            woke: Seq::empty(),
                        }));
                        assert(woke + Seq::<usize>::empty() =~= woke);
                    }
                    return count;
                },
                Handshake::Lost => {
                    let _ = self.queue.pop_front();
                    proof {
                        assert(self@ =~= before.drop_first());
                    }
                },
            }
        }
        proof {
            assert(woke + Seq::<usize>::empty() =~= woke);
        }
        count
    }

    /// Schedules every waiter, whatever its wake-status word holds, and
    /// leaves the queue empty.
    pub fn drain<A: Algorithm>(&mut self, sched: &mut Scheduler<A>)
        requires
            old(sched).wf(),
        ensures
            final(sched).wf(),
            final(sched)@ == old(sched)@.schedule_all(old(self)@),
            final(self)@ == Seq::<usize>::empty(),
            final(sched).algo.steals() == old(sched).algo.steals(),
            final(sched).algo.parked() == old(sched).algo.parked(),
    {
        sched.schedule_all(&self.queue);
        self.queue.clear();
    }

    /// Takes the first waiter out of the queue and schedules it.
    pub fn pass<A: Algorithm>(&mut self, sched: &mut Scheduler<A>) -> (r: Option<usize>)
        requires
            old(sched).wf(),
        ensures
            final(sched).wf(),
            old(self)@.len() == 0 ==> r.is_none() && final(self)@ == old(self)@ && final(sched)@
                == old(sched)@,
            old(self)@.len() > 0 ==> r == Some(old(self)@[0]) && final(self)@
                == old(self)@.drop_first() && final(sched)@ == old(sched)@.schedule(old(self)@[0]),
            final(sched).algo.steals() == old(sched).algo.steals(),
            final(sched).algo.parked() == old(sched).algo.parked(),
    {
        match self.queue.pop_front() {
            None => None,
            Some(ctx) => {
                proof {
                    assert(self@ =~= old(self)@.drop_first());
                }
                let _ = sched.schedule(ctx);
                Some(ctx)
            },
        }
    }
}

/// A claim touches the record of the claimed fiber alone.
pub proof fn lemma_claim_frame(s: SchedulerView, ctx: usize, token: isize)
    ensures
        s.claim(ctx, token).contexts.len() == s.contexts.len(),
        forall|c: int|
            0 <= c < s.contexts.len() && c != ctx ==> (#[trigger] s.claim(ctx, token).contexts[c])
                == s.contexts[c],
        s.handshake(ctx, token) != Handshake::Won ==> s.claim(ctx, token) == s,
        s.handshake(ctx, token) == Handshake::Won ==> s.claim(ctx, token).contexts[ctx as int].twstatus
            == WOKEN,
        s.handshake(ctx, token) == Handshake::Won && s.contexts[ctx as int].state
            == State::Suspended ==> s.claim(ctx, token).contexts[ctx as int].state == State::Ready
            && s.claim(ctx, token).ready.contains(ctx),
{
    if s.handshake(ctx, token) == Handshake::Won {
        let marked = s.set_word(ctx, WOKEN);
        if marked.can_schedule(ctx) {
            crate::algorithm::lemma_push_order(
                marked.ready,
                ctx,
                marked.spreads && !marked.pinned(ctx),
            );
        }
    }
}

/// A successful `notify_one` moves exactly one waiter: the first waiter in
/// the queue whose wake-status word holds the token. Its word becomes
/// `WOKEN`, and it becomes ready if it was suspended; the record of no
/// other fiber changes. The waiters before it were lost to the waker and
/// left the queue; those behind it stay. A `notify_one` that claims nobody
/// leaves the scheduler unchanged.
pub proof fn lemma_wake_one(s: SchedulerView, queue: Seq<usize>, token: isize)
    requires
        s.wf(),
    ensures
        wake_one(s, queue, token).sched.wf(),
        wake_one(s, queue, token).woke.len() <= 1,
        wake_one(s, queue, token).woke.len() == 0 ==> wake_one(s, queue, token).sched == s,
        wake_one(s, queue, token).woke.len() == 1 ==> exists|k: int|
            {
                &&& 0 <= k < queue.len()
                &&& (#[trigger] queue[k]) == wake_one(s, queue, token).woke[0]
                &&& s.handshake(queue[k], token) == Handshake::Won
                &&& forall|j: int| 0 <= j < k ==> s.handshake(#[trigger] queue[j], token) == Handshake::Lost
                &&& wake_one(s, queue, token).queue == queue.skip(k + 1)
                &&& wake_one(s, queue, token).sched == s.claim(queue[k], token)
            },
        wake_one(s, queue, token).woke.len() == 1 ==> {
            let w = wake_one(s, queue, token).woke[0];
            let n = wake_one(s, queue, token).sched;
            &&& s.valid(w)
            &&& n.contexts.len() == s.contexts.len()
            &&& n.contexts[w as int].twstatus == WOKEN
            &&& s.contexts[w as int].state == State::Suspended ==> n.contexts[w as int].state
                == State::Ready && n.ready.contains(w)
            &&& forall|c: int|
                0 <= c < s.contexts.len() && c != w ==> (#[trigger] n.contexts[c]) == s.contexts[c]
        },
    decreases queue.len(),
{
    if queue.len() > 0 {
        match s.handshake(queue[0], token) {
            Handshake::Won => {
                crate::scheduler::laws::lemma_claim_inv(s, queue[0], token, true);
                lemma_claim_frame(s, queue[0], token);
                assert(queue.drop_first() =~= queue.skip(1));
                assert(queue[0] == wake_one(s, queue, token).woke[0]);
            },
            Handshake::Unpublished => {},
            Handshake::Lost => {
                let rest = queue.drop_first();
                lemma_wake_one(s, rest, token);
                if wake_one(s, rest, token).woke.len() == 1 {
                    let k = choose|k: int|
                        {
                            &&& 0 <= k < rest.len()
                            &&& (#[trigger] rest[k]) == wake_one(s, rest, token).woke[0]
                            &&& s.handshake(rest[k], token) == Handshake::Won
                            &&& forall|j: int|
                                0 <= j < k ==> s.handshake(#[trigger] rest[j], token)
                                    == Handshake::Lost
                            &&& wake_one(s, rest, token).queue == rest.skip(k + 1)
                            &&& wake_one(s, rest, token).sched == s.claim(rest[k], token)
                        };
                    assert(queue[k + 1] == rest[k]);
                    assert(rest.skip(k + 1) =~= queue.skip(k + 2));
                    assert forall|j: int| 0 <= j < k + 1 implies s.handshake(
                        #[trigger] queue[j],
                        token,
                    ) == Handshake::Lost by {
                        if j > 0 {
                            assert(queue[j] == rest[j - 1]);
                        }
                    }
                }
            },
        }
    }
}

/// After a timeout no waker schedules the waiter: a fiber whose
/// wake-status word holds `TIMED_OUT` is claimed by no `notify_one` and no
/// `notify_all`, whatever the queue, and its record stays as it is.
pub proof fn lemma_timed_out_is_skipped(s: SchedulerView, queue: Seq<usize>, token: isize, c: usize)
    requires
        s.valid(c),
        s.contexts[c as int].twstatus == TIMED_OUT,
        is_token(token),
    ensures
        !wake_one(s, queue, token).woke.contains(c),
        !wake_all(s, queue, token).woke.contains(c),
        wake_one(s, queue, token).sched.contexts[c as int] == s.contexts[c as int],
        wake_all(s, queue, token).sched.contexts[c as int] == s.contexts[c as int],
    decreases queue.len(),
{
    if queue.len() > 0 {
        let head = queue[0];
        let rest = queue.drop_first();
        lemma_claim_frame(s, head, token);
        match s.handshake(head, token) {
            Handshake::Won => {
                assert(head != c);
                lemma_timed_out_is_skipped(s.claim(head, token), rest, token, c);
                let tail = wake_all(s.claim(head, token), rest, token).woke;
                let all = seq![head] + tail;
                if all.contains(c) {
                    let i = choose|i: int| 0 <= i < all.len() && all[i] == c;
                    assert(tail[i - 1] == c);
                }
                let one = seq![head];
                if one.contains(c) {
                    let i = choose|i: int| 0 <= i < one.len() && one[i] == c;
                }
            },
            Handshake::Unpublished => {},
            Handshake::Lost => {
                lemma_timed_out_is_skipped(s, rest, token, c);
            },
        }
    }
}

/// A sleeper whose deadline expires before a waker claimed it is marked
/// `TIMED_OUT`.
pub proof fn lemma_time_out_marks(s: SchedulerView, c: usize)
    requires
        s.valid(c),
        s.contexts[c as int].twstatus == WOKEN,
    ensures
        s.time_out(c).valid(c),
        s.time_out(c).contexts[c as int].twstatus == TIMED_OUT,
{
}

} // verus!
