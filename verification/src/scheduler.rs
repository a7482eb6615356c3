//! The per-thread scheduler.

use vstd::prelude::*;
use std::collections::VecDeque;
use crate::algorithm::{Algorithm, ReadyModel};
use crate::context::{compare_exchange, Context, Handshake, State, NOT_WAITING, TIMED_OUT, WOKEN};
use crate::seq_util::{lemma_without, without};
use crate::stack::StackContext;
use crate::scheduler::queues::lemma_due;
use crate::scheduler::laws::{
    lemma_release_terminated_inv,
    lemma_remote_ready2ready_inv,
    lemma_schedule_all_inv,
    lemma_schedule_from_remote_inv,
    lemma_schedule_wf,
    lemma_set_word_inv,
    lemma_sleep_until_wf,
    lemma_spawn_inv,
    lemma_terminate_wf,
    lemma_yield_wf,
};
use crate::scheduler::model::{due, stacks_of, SchedulerView};

pub mod laws;
pub mod model;
pub mod queues;

verus! {

/// The runtime of one thread: the records of its fibers, the policy that
/// orders the runnable ones, and the queues of the others. Fibers are named
/// by their index in `contexts`.
pub struct Scheduler<A: Algorithm> {
    /// Name of the scheduler among those of the program.
    pub id: usize,
    pub contexts: Vec<Context>,
    /// For each fiber, the fibers that wait for its end.
    pub joiners: Vec<VecDeque<usize>>,
    pub algo: A,
    /// Fibers that other threads have woken.
    pub remote_ready_queue: VecDeque<usize>,
    /// Sleeping fibers, earliest deadline first.
    pub sleep_queue: VecDeque<usize>,
    /// Worker fibers that have not ended.
    pub worker_queue: VecDeque<usize>,
    /// Ended fibers whose stacks are not yet released.
    pub terminated_queue: VecDeque<usize>,
    pub dispatcher_ctx: usize,
    pub main_ctx: usize,
    /// The fiber that runs.
    pub active: usize,
    pub shutdown: bool,
}

impl<A: Algorithm> View for Scheduler<A> {
    type V = SchedulerView;

    open spec fn view(&self) -> SchedulerView {
        SchedulerView {
            id: self.id,
            contexts: self.contexts@,
            joiners: Seq::new(self.joiners@.len(), |i: int| self.joiners@[i]@),
            ready: self.algo.model(),
            spreads: self.algo.spreads(),
            remote: self.remote_ready_queue@,
            sleep: self.sleep_queue@,
            worker: self.worker_queue@,
            terminated: self.terminated_queue@,
            dispatcher: self.dispatcher_ctx,
            main: self.main_ctx,
            active: self.active,
            shutdown: self.shutdown,
        }
    }
}

/// Takes `ctx` out of `queue`, if it is there.
fn unlink(queue: &mut VecDeque<usize>, ctx: usize) -> (r: bool)
    requires
        old(queue)@.no_duplicates(),
    ensures
        r == old(queue)@.contains(ctx),
        final(queue)@ == without(old(queue)@, ctx),
{
    let mut i: usize = 0;
    while i < queue.len()
        invariant
            i <= queue.len(),
            *queue == *old(queue),
            queue@.no_duplicates(),
            forall|j: int| 0 <= j < i ==> queue@[j] != ctx,
        decreases queue.len() - i,
    {
        if queue[i] == ctx {
            proof {
                lemma_without(queue@, ctx);
            }
            let _ = queue.remove(i);
            return true;
        }
        i += 1;
    }
    false
}

/// Tells whether `ctx` is in `queue`.
fn linked(queue: &VecDeque<usize>, ctx: usize) -> (r: bool)
    ensures
        r == queue@.contains(ctx),
{
    let mut i: usize = 0;
    while i < queue.len()
        invariant
            i <= queue.len(),
            forall|j: int| 0 <= j < i ==> queue@[j] != ctx,
        decreases queue.len() - i,
    {
        if queue[i] == ctx {
            return true;
        }
        i += 1;
    }
    false
}

impl<A: Algorithm> Scheduler<A> {
    /// The invariant: that of the policy and that of the state.
    pub open spec fn wf(&self) -> bool {
        &&& self.algo.wf()
        &&& self@.wf()
    }

    /// The scheduler `id` with its two fibers: the main fiber, which runs,
    /// and the dispatcher fiber on `stack`, which is queued.
    pub fn new(id: usize, algo: A, stack: Option<StackContext>) -> (r: Self)
        requires
            algo.wf(),
            algo.model() == ReadyModel::empty(),
        ensures
            r.wf(),
            r@ == SchedulerView::initial(id, algo.spreads(), stack),
            r.algo.steals() == algo.steals(),
            r.algo.parked() == algo.parked(),
    {
        let mut algo = algo;
        let ghost spreads = algo.spreads();
        let mut contexts: Vec<Context> = Vec::new();
        contexts.push(
            Context {
                tp: 0,
                twstatus: NOT_WAITING,
                is_main: true,
                is_dispatcher: false,
                terminated: false,
                state: State::Running,
                stack: None,
            },
        );
        contexts.push(
            Context {
                tp: 0,
                twstatus: NOT_WAITING,
                is_main: false,
                is_dispatcher: true,
                terminated: false,
                state: State::Ready,
                stack,
            },
        );
        let mut joiners: Vec<VecDeque<usize>> = Vec::new();
        joiners.push(VecDeque::new());
        joiners.push(VecDeque::new());
        algo.awakened(1, true);
        let r = Scheduler {
            id,
            contexts,
            joiners,
            algo,
            remote_ready_queue: VecDeque::new(),
            sleep_queue: VecDeque::new(),
            worker_queue: VecDeque::new(),
            terminated_queue: VecDeque::new(),
            dispatcher_ctx: 1,
            main_ctx: 0,
            active: 0,
            shutdown: false,
        };
        proof {
            let v = SchedulerView::initial(id, spreads, stack);
            assert(r@.contexts =~= v.contexts);
            assert(r@.joiners =~~= v.joiners);
            assert(r@ =~~= v);
            crate::scheduler::laws::lemma_initial_wf(id, spreads, stack);
        }
        r
    }

    /// The fiber that runs.
    pub fn active(&self) -> (r: usize)
        ensures
            r == self@.active,
    {
        self.active
    }

    /// Whether `ctx` is queued by the policy.
    pub fn ready_is_linked(&self, ctx: usize) -> (r: bool)
        requires
            self.wf(),
        ensures
            r == self@.ready.contains(ctx),
    {
        proof {
            crate::algorithm::lemma_front_is_head(self@.ready);
            if self@.valid(ctx) {
                crate::scheduler::laws::lemma_record(self@, ctx, true);
            } else if self@.ready.contains(ctx) {
                crate::scheduler::queues::lemma_exact_member(
                    self@.contexts,
                    self@.ready.order(),
                    State::Ready,
                    ctx,
                );
            }
        }
        if ctx >= self.contexts.len() {
            return false;
        }
        self.contexts[ctx].state == State::Ready
    }

    /// Whether `ctx` sleeps until a deadline.
    pub fn sleep_is_linked(&self, ctx: usize) -> (r: bool)
        ensures
            r == self@.sleep.contains(ctx),
    {
        linked(&self.sleep_queue, ctx)
    }

    /// Whether `ctx` has ended and still holds its stack.
    pub fn terminated_is_linked(&self, ctx: usize) -> (r: bool)
        ensures
            r == self@.terminated.contains(ctx),
    {
        linked(&self.terminated_queue, ctx)
    }

    /// Whether `ctx` is a worker fiber that has not ended.
    pub fn worker_is_linked(&self, ctx: usize) -> (r: bool)
        ensures
            r == self@.worker.contains(ctx),
    {
        linked(&self.worker_queue, ctx)
    }

    /// Whether `ctx` was woken by another thread and not yet taken over.
    pub fn remote_is_linked(&self, ctx: usize) -> (r: bool)
        ensures
            r == self@.remote.contains(ctx),
    {
        linked(&self.remote_ready_queue, ctx)
    }

    /// Makes `ctx` runnable: it leaves the sleep queue, if it is there, and
    /// is handed to the policy. Only a fresh or suspended fiber can be
    /// scheduled; for any other the call changes nothing and returns
    /// `false`.
    pub fn schedule(&mut self, ctx: usize) -> (r: bool)
        requires
            old(self).wf(),
        ensures
            final(self).wf(),
            r == old(self)@.can_schedule(ctx),
            final(self)@ == old(self)@.schedule(ctx),
            final(self).algo.steals() == old(self).algo.steals(),
            final(self).algo.parked() == old(self).algo.parked(),
    {
        if ctx >= self.contexts.len() {
            return false;
        }
        let state = self.contexts[ctx].state;
        if !(state == State::Fresh || state == State::Suspended) {
            return false;
        }
        proof {
            crate::scheduler::laws::lemma_distinct(self@, true);
        }
        let _ = unlink(&mut self.sleep_queue, ctx);
        let pinned = ctx == self.main_ctx || ctx == self.dispatcher_ctx;
        self.algo.awakened(ctx, pinned);
        self.contexts[ctx].state = State::Ready;
        proof {
            lemma_schedule_wf(old(self)@, ctx);
            assert(self@ =~~= old(self)@.schedule(ctx));
        }
        true
    }

    /// Control passes to the front of the policy, or to the dispatcher
    /// where nothing is queued.
    fn switch(&mut self)
        requires
            old(self).algo.wf(),
            old(self)@.in_transfer(),
        ensures
            final(self).wf(),
            final(self)@ == old(self)@.switch(),
            final(self).algo.steals() == old(self).algo.steals(),
            final(self).algo.parked() == old(self).algo.parked(),
    {
        proof {
            crate::scheduler::laws::lemma_switch_wf(old(self)@);
            crate::algorithm::lemma_front_is_head(old(self)@.ready);
            assert(old(self)@.ready.order().contains(old(self)@.ready.order()[0]));
        }
        let next = match self.algo.pick_next() {
            Some(c) => c,
            None => self.dispatcher_ctx,
        };
        self.contexts[next].state = State::Running;
        self.active = next;
        proof {
            assert(self@ =~~= old(self)@.switch());
        }
    }

    /// Suspends the running fiber and passes control to the next one. The
    /// fiber stays suspended until it is scheduled.
    pub fn suspend(&mut self)
        requires
            old(self).wf(),
            old(self)@.active != old(self)@.dispatcher,
        ensures
            final(self).wf(),
            final(self)@ == old(self)@.suspend(),
            final(self).algo.steals() == old(self).algo.steals(),
            final(self).algo.parked() == old(self).algo.parked(),
    {
        let me = self.active;
        self.contexts[me].state = State::Suspended;
        proof {
            crate::scheduler::laws::lemma_pause(old(self)@);
            assert(self@ =~~= old(self)@.set_state(me, State::Suspended));
        }
        self.switch();
    }

    /// Publishes that the running fiber waits on `token`: its wake-status
    /// word is set to the token.
    pub fn publish(&mut self, token: isize)
        requires
            old(self).wf(),
        ensures
            final(self).wf(),
            final(self)@ == old(self)@.set_word(old(self)@.active, token),
            final(self).algo.steals() == old(self).algo.steals(),
            final(self).algo.parked() == old(self).algo.parked(),
    {
        let me = self.active;
        self.contexts[me].twstatus = token;
        proof {
            lemma_set_word_inv(old(self)@, me, token, true);
            assert(self@ =~~= old(self)@.set_word(me, token));
        }
    }

    /// Publishes that the running fiber waits on `token`, and suspends it.
    pub fn park(&mut self, token: isize)
        requires
            old(self).wf(),
            old(self)@.active != old(self)@.dispatcher,
        ensures
            final(self).wf(),
            final(self)@ == old(self)@.park(token),
            final(self).algo.steals() == old(self).algo.steals(),
            final(self).algo.parked() == old(self).algo.parked(),
    {
        self.publish(token);
        self.suspend();
    }

    /// Passes control to the next runnable fiber and queues the running one
    /// behind it. With nothing queued the running fiber goes on.
    pub fn yield_(&mut self)
        requires
            old(self).wf(),
        ensures
            final(self).wf(),
            final(self)@ == old(self)@.yield_now(),
            final(self).algo.steals() == old(self).algo.steals(),
            final(self).algo.parked() == old(self).algo.parked(),
    {
        let me = self.active;
        proof {
            lemma_yield_wf(old(self)@);
            crate::algorithm::lemma_front_is_head(old(self)@.ready);
            if old(self)@.ready.front().is_some() {
                assert(old(self)@.ready.order().contains(old(self)@.ready.order()[0]));
            }
        }
        match self.algo.pick_next() {
            None => {},
            Some(next) => {
                let pinned = me == self.main_ctx || me == self.dispatcher_ctx;
                self.algo.awakened(me, pinned);
                self.contexts[me].state = State::Ready;
                self.contexts[next].state = State::Running;
                self.active = next;
            },
        }
        proof {
            assert(self@ =~~= old(self)@.yield_now());
        }
    }

    /// Length of the prefix of the sleep queue whose deadlines are at most
    /// `now`.
    fn due_count(&self, now: u64) -> (r: usize)
        ensures
            r == due(self.contexts@, self.sleep_queue@, now),
            r <= self.sleep_queue@.len(),
    {
        let mut i: usize = 0;
        proof {
            assert(self.sleep_queue@.skip(0) =~= self.sleep_queue@);
        }
        while i < self.sleep_queue.len() && self.sleep_queue[i] < self.contexts.len()
            && self.contexts[self.sleep_queue[i]].tp <= now
            invariant
                i <= self.sleep_queue.len(),
                due(self.contexts@, self.sleep_queue@, now) == i + due(
                    self.contexts@,
                    self.sleep_queue@.skip(i as int),
                    now,
                ),
            decreases self.sleep_queue.len() - i,
        {
            proof {
                assert(self.sleep_queue@.skip(i as int).drop_first() =~= self.sleep_queue@.skip(
                    i as int + 1,
                ));
            }
            i += 1;
        }
        i
    }

    /// Suspends the running fiber until the clock reaches `deadline`: its
    /// wake-status word is set to `WOKEN`, it enters the sleep queue behind
    /// every fiber whose deadline is not later, and control passes on.
    pub fn sleep_until(&mut self, deadline: u64)
        requires
            old(self).wf(),
            old(self)@.active != old(self)@.dispatcher,
        ensures
            final(self).wf(),
            final(self)@ == old(self)@.sleep_until(deadline),
            final(self).algo.steals() == old(self).algo.steals(),
            final(self).algo.parked() == old(self).algo.parked(),
    {
        let me = self.active;
        let slot = self.due_count(deadline);
        proof {
            lemma_sleep_until_wf(old(self)@, deadline);
            lemma_due(old(self)@.contexts, old(self)@.sleep, deadline);
        }
        self.contexts[me].tp = deadline;
        self.contexts[me].twstatus = WOKEN;
        self.sleep_queue.insert(slot, me);
        self.contexts[me].state = State::Suspended;
        proof {
            let parked = SchedulerView {
                contexts: old(self)@.contexts.update(
                    me as int,
                    Context { tp: deadline, twstatus: WOKEN, ..old(self)@.contexts[me as int] },
                ),
                sleep: old(self)@.sleep.insert(slot as int, me),
                ..old(self)@
            };
            let n = parked.set_state(me, State::Suspended);
            assert(self@.contexts =~= n.contexts);
            assert(self@.sleep =~= n.sleep);
            assert(self@.joiners =~~= n.joiners);
            assert(self@.ready == n.ready);
            assert(self@ =~~= n);
            crate::scheduler::laws::lemma_sleep_until_parked(old(self)@, deadline);
        }
        self.switch();
    }

    /// The deadline of `ctx` has expired: unless a waker was first, its
    /// wake-status word goes from `WOKEN` to `TIMED_OUT` and it is
    /// scheduled.
    fn time_out(&mut self, ctx: usize)
        requires
            old(self).wf(),
        ensures
            final(self).wf(),
            final(self)@ == old(self)@.time_out(ctx),
            final(self).algo.steals() == old(self).algo.steals(),
            final(self).algo.parked() == old(self).algo.parked(),
    {
        if ctx >= self.contexts.len() {
            return ;
        }
        let mut word = self.contexts[ctx].twstatus;
        if compare_exchange(&mut word, WOKEN, TIMED_OUT).is_ok() {
            self.contexts[ctx].twstatus = word;
            proof {
                lemma_set_word_inv(old(self)@, ctx, TIMED_OUT, true);
                assert(self@ =~~= old(self)@.set_word(ctx, TIMED_OUT));
            }
            let _ = self.schedule(ctx);
        }
    }

    /// Moves every sleeper whose deadline is at most `now` out of the sleep
    /// queue, earliest deadline first, and lets it time out.
    pub fn sleep2ready(&mut self, now: u64)
        requires
            old(self).wf(),
        ensures
            final(self).wf(),
            final(self)@ == old(self)@.sleep2ready(now),
            final(self).algo.steals() == old(self).algo.steals(),
            final(self).algo.parked() == old(self).algo.parked(),
    {
        let k = self.due_count(now);
        let mut expired = self.sleep_queue.split_off(k);
        std::mem::swap(&mut self.sleep_queue, &mut expired);
        proof {
            lemma_due(old(self)@.contexts, old(self)@.sleep, now);
            crate::scheduler::laws::lemma_drop_sleepers_inv(old(self)@, k as int, true);
            assert(expired@ =~= old(self)@.sleep.take(k as int));
            assert(self@.sleep =~= old(self)@.sleep.skip(k as int));
            assert(self@ =~~= (SchedulerView { sleep: old(self)@.sleep.skip(k as int), ..old(self)@ }));
            assert(expired@.skip(0) =~= expired@);
        }
        let mut i: usize = 0;
        while i < expired.len()
            invariant
                i <= expired.len(),
                self.wf(),
                self@.time_out_all(expired@.skip(i as int)) == old(self)@.sleep2ready(now),
                self.algo.steals() == old(self).algo.steals(),
                self.algo.parked() == old(self).algo.parked(),
            decreases expired.len() - i,
        {
            proof {
                assert(expired@.skip(i as int).drop_first() =~= expired@.skip(i as int + 1));
            }
            self.time_out(expired[i]);
            i += 1;
        }
    }

    /// Schedules the fibers of `ids` one after the other.
    pub fn schedule_all(&mut self, ids: &VecDeque<usize>)
        requires
            old(self).wf(),
        ensures
            final(self).wf(),
            final(self)@ == old(self)@.schedule_all(ids@),
            final(self).algo.steals() == old(self).algo.steals(),
            final(self).algo.parked() == old(self).algo.parked(),
    {
        let mut i: usize = 0;
        proof {
            assert(ids@.skip(0) =~= ids@);
        }
        while i < ids.len()
            invariant
                i <= ids.len(),
                self.wf(),
                self@.schedule_all(ids@.skip(i as int)) == old(self)@.schedule_all(ids@),
                self.algo.steals() == old(self).algo.steals(),
                self.algo.parked() == old(self).algo.parked(),
            decreases ids.len() - i,
        {
            proof {
                assert(ids@.skip(i as int).drop_first() =~= ids@.skip(i as int + 1));
            }
            let _ = self.schedule(ids[i]);
            i += 1;
        }
    }

    /// Records that a fiber of this scheduler was woken by another thread.
    /// The fiber is scheduled when the dispatcher next takes over such
    /// wakes. The result says whether a sleeping thread has to be signalled.
    pub fn schedule_from_remote(&mut self, ctx: usize) -> (signal: bool)
        requires
            old(self).wf(),
        ensures
            final(self).wf(),
            final(self)@ == old(self)@.schedule_from_remote(ctx),
            signal == old(self).algo.parked(),
            final(self).algo.steals() == old(self).algo.steals(),
            final(self).algo.parked() == old(self).algo.parked(),
    {
        proof {
            lemma_schedule_from_remote_inv(old(self)@, ctx, true);
        }
        if ctx < self.contexts.len() && !linked(&self.remote_ready_queue, ctx) {
            self.remote_ready_queue.push_front(ctx);
            proof {
                assert(self@.remote =~= seq![ctx] + old(self)@.remote);
            }
        }
        let signal = self.algo.notify();
        proof {
            assert(self@ =~~= old(self)@.schedule_from_remote(ctx));
        }
        signal
    }

    /// Wakes `ctx` for a fiber of the scheduler `origin`: a wake from this
    /// scheduler schedules the fiber at once, a wake from another one is
    /// recorded for the dispatcher. The result says whether a sleeping
    /// thread has to be signalled.
    pub fn wake(&mut self, ctx: usize, origin: usize) -> (signal: bool)
        requires
            old(self).wf(),
        ensures
            final(self).wf(),
            final(self)@ == old(self)@.wake(ctx, origin),
            signal == (origin != old(self)@.id && old(self).algo.parked()),
            final(self).algo.steals() == old(self).algo.steals(),
            final(self).algo.parked() == old(self).algo.parked(),
    {
        if origin == self.id {
            let _ = self.schedule(ctx);
            false
        } else {
            self.schedule_from_remote(ctx)
        }
    }

    /// Takes over the wakes of other threads: each fiber they named is
    /// scheduled, in the order of the queue.
    pub fn remote_ready2ready(&mut self)
        requires
            old(self).wf(),
        ensures
            final(self).wf(),
            final(self)@ == old(self)@.remote_ready2ready(),
            final(self).algo.steals() == old(self).algo.steals(),
            final(self).algo.parked() == old(self).algo.parked(),
    {
        let mut tmp: VecDeque<usize> = VecDeque::new();
        std::mem::swap(&mut self.remote_ready_queue, &mut tmp);
        proof {
            let n = SchedulerView { remote: Seq::empty(), ..old(self)@ };
            assert(self@.remote =~= n.remote);
            assert(self@ =~~= n);
            lemma_remote_ready2ready_inv(old(self)@, true);
            crate::scheduler::laws::lemma_frame_inv(old(self)@, n, true);
        }
        self.schedule_all(&tmp);
    }

    /// Releases the stacks of the ended fibers: each fiber of the terminated
    /// queue becomes reclaimed. Returns the stacks, for the caller to hand
    /// back to the allocator.
    pub fn release_terminated(&mut self) -> (released: Vec<StackContext>)
        requires
            old(self).wf(),
        ensures
            final(self).wf(),
            final(self)@ == old(self)@.release_terminated(),
            released@ == stacks_of(old(self)@.contexts, old(self)@.terminated),
            final(self).algo.steals() == old(self).algo.steals(),
            final(self).algo.parked() == old(self).algo.parked(),
    {
        let mut released: Vec<StackContext> = Vec::new();
        let ghost goal = SchedulerView::reclaim_all(old(self)@.contexts, old(self)@.terminated);
        let ghost stacks = stacks_of(old(self)@.contexts, old(self)@.terminated);
        proof {
            lemma_release_terminated_inv(old(self)@, true);
            crate::scheduler::laws::lemma_distinct(old(self)@, true);
            assert(released@ + stacks =~= stacks);
        }
        while self.terminated_queue.len() > 0
            invariant
                self.contexts@.len() == old(self)@.contexts.len(),
                self.terminated_queue@.no_duplicates(),
                SchedulerView::reclaim_all(self.contexts@, self.terminated_queue@) == goal,
                released@ + stacks_of(self.contexts@, self.terminated_queue@) == stacks,
                self.id == old(self).id,
                self.joiners == old(self).joiners,
                self.algo == old(self).algo,
                self.remote_ready_queue == old(self).remote_ready_queue,
                self.sleep_queue == old(self).sleep_queue,
                self.worker_queue == old(self).worker_queue,
                self.dispatcher_ctx == old(self).dispatcher_ctx,
                self.main_ctx == old(self).main_ctx,
                self.active == old(self).active,
                self.shutdown == old(self).shutdown,
            decreases self.terminated_queue.len(),
        {
            let ghost before = self.terminated_queue@;
            let ghost records = self.contexts@;
            let ctx = self.terminated_queue.pop_front().unwrap();
            proof {
                assert(self.terminated_queue@ =~= before.drop_first());
                crate::seq_util::lemma_remove_at(before, 0);
                assert(before.remove(0) =~= before.drop_first());
            }
            if ctx < self.contexts.len() {
                match self.contexts[ctx].stack {
                    Some(stack) => {
                        released.push(stack);
                    },
                    None => {},
                }
                self.contexts[ctx].state = State::Reclaimed;
                self.contexts[ctx].stack = None;
                proof {
                    assert(self.contexts@ =~= records.update(
                        ctx as int,
                        Context { state: State::Reclaimed, stack: None, ..records[ctx as int] },
                    ));
                    crate::scheduler::laws::lemma_stacks_of_frame(
                        records,
                        self.contexts@,
                        self.terminated_queue@,
                    );
                }
            }
            proof {
                let rest = stacks_of(records, before.drop_first());
                if ctx < records.len() && records[ctx as int].stack.is_some() {
                    assert(released@ + rest =~= (released@.drop_last() + (seq![
                        records[ctx as int].stack.unwrap(),
                    ] + rest)));
                }
            }
        }
        proof {
            assert(self.terminated_queue@ =~= Seq::empty());
            assert(released@ + Seq::<StackContext>::empty() =~= released@);
            assert(self@ =~~= old(self)@.release_terminated());
        }
        released
    }

    /// Adds a worker fiber that runs on `stack` and hands it to the policy.
    /// Returns its id.
    pub fn spawn(&mut self, stack: StackContext) -> (id: usize)
        requires
            old(self).wf(),
            old(self)@.contexts.len() < usize::MAX,
        ensures
            final(self).wf(),
            id == old(self)@.contexts.len(),
            final(self)@ == old(self)@.spawn(Some(stack), true),
            final(self).algo.steals() == old(self).algo.steals(),
            final(self).algo.parked() == old(self).algo.parked(),
    {
        let id = self.spawn_not_schedule(stack);
        let _ = self.schedule(id);
        id
    }

    /// Adds a worker fiber that runs on `stack` without handing it to the
    /// policy: the fiber stays fresh until it is scheduled. Returns its id.
    pub fn spawn_not_schedule(&mut self, stack: StackContext) -> (id: usize)
        requires
            old(self).wf(),
            old(self)@.contexts.len() < usize::MAX,
        ensures
            final(self).wf(),
            id == old(self)@.contexts.len(),
            final(self)@ == old(self)@.spawn(Some(stack), false),
            final(self).algo.steals() == old(self).algo.steals(),
            final(self).algo.parked() == old(self).algo.parked(),
    {
        let id = self.contexts.len();
        let mut record = Context::new();
        record.stack = Some(stack);
        self.contexts.push(record);
        self.joiners.push(VecDeque::new());
        self.attach_worker_ctx(id);
        proof {
            lemma_spawn_inv(old(self)@, Some(stack), false, true);
            let n = old(self)@.spawn(Some(stack), false);
            assert(self@.contexts =~= n.contexts);
            assert(self@.joiners =~~= n.joiners);
            assert(self@.worker =~= n.worker);
            assert(self@ =~~= n);
        }
        id
    }

    /// Enters `ctx` in the worker queue.
    fn attach_worker_ctx(&mut self, ctx: usize)
        ensures
            final(self).worker_queue@ == seq![ctx] + old(self).worker_queue@,
            final(self).id == old(self).id,
            final(self).contexts == old(self).contexts,
            final(self).joiners == old(self).joiners,
            final(self).algo == old(self).algo,
            final(self).remote_ready_queue == old(self).remote_ready_queue,
            final(self).sleep_queue == old(self).sleep_queue,
            final(self).terminated_queue == old(self).terminated_queue,
            final(self).dispatcher_ctx == old(self).dispatcher_ctx,
            final(self).main_ctx == old(self).main_ctx,
            final(self).active == old(self).active,
            final(self).shutdown == old(self).shutdown,
    {
        self.worker_queue.push_front(ctx);
        proof {
            assert(self.worker_queue@ =~= seq![ctx] + old(self).worker_queue@);
        }
    }

    /// Makes the running fiber wait for the end of `target`. Returns `true`
    /// where the fiber was suspended, and `false`, with nothing changed,
    /// where `target` is unknown or has ended.
    pub fn join(&mut self, target: usize) -> (parked: bool)
        requires
            old(self).wf(),
            old(self)@.active != old(self)@.dispatcher,
        ensures
            final(self).wf(),
            parked == old(self)@.can_join(target),
            final(self)@ == old(self)@.join(target),
            final(self).algo.steals() == old(self).algo.steals(),
            final(self).algo.parked() == old(self).algo.parked(),
    {
        if target >= self.contexts.len() || self.contexts[target].terminated {
            return false;
        }
        let me = self.active;
        self.joiners[target].push_back(me);
        proof {
            let n = SchedulerView {
                joiners: old(self)@.joiners.update(
                    target as int,
                    old(self)@.joiners[target as int].push(me),
                ),
                ..old(self)@
            };
            assert(self@.joiners =~~= n.joiners);
            assert(self@ =~~= n);
            crate::scheduler::laws::lemma_frame_inv(old(self)@, n, true);
        }
        self.suspend();
        true
    }

    /// Ends the running fiber, which is neither the main nor the dispatcher
    /// fiber: every fiber that waits for its end is scheduled, the fiber
    /// moves from the worker queue to the terminated queue, and control
    /// passes on.
    pub fn terminate(&mut self)
        requires
            old(self).wf(),
            !old(self)@.pinned(old(self)@.active),
        ensures
            final(self).wf(),
            final(self)@ == old(self)@.terminate(),
            final(self).algo.steals() == old(self).algo.steals(),
            final(self).algo.parked() == old(self).algo.parked(),
    {
        let me = self.active;
        let mut waiters: VecDeque<usize> = VecDeque::new();
        std::mem::swap(&mut self.joiners[me], &mut waiters);
        proof {
            let cleared = SchedulerView {
                joiners: old(self)@.joiners.update(me as int, Seq::empty()),
                ..old(self)@
            };
            assert(self@.joiners =~~= cleared.joiners);
            assert(self@ =~~= cleared);
            crate::scheduler::laws::lemma_frame_inv(old(self)@, cleared, true);
            lemma_schedule_all_inv(cleared, waiters@, true);
            lemma_terminate_wf(old(self)@);
        }
        self.schedule_all(&waiters);
        let ghost woken = self@;
        self.contexts[me].terminated = true;
        self.contexts[me].state = State::Terminated;
        proof {
            crate::scheduler::laws::lemma_distinct(woken, true);
        }
        let _ = unlink(&mut self.worker_queue, me);
        self.terminated_queue.push_front(me);
        proof {
            let n = SchedulerView {
                contexts: woken.contexts.update(
                    me as int,
                    Context {
                        terminated: true,
                        state: State::Terminated,
                        ..woken.contexts[me as int]
                    },
                ),
                worker: without(woken.worker, me),
                terminated: seq![me] + woken.terminated,
                ..woken
            };
            assert(self@.contexts =~= n.contexts);
            assert(self@.terminated =~= n.terminated);
            assert(self@.joiners =~~= n.joiners);
            assert(self@ =~~= n);
            crate::scheduler::laws::lemma_terminate_parked(old(self)@);
        }
        self.switch();
    }

    /// Asks the dispatcher to leave its loop once no worker is left.
    pub fn request_shutdown(&mut self)
        requires
            old(self).wf(),
        ensures
            final(self).wf(),
            final(self)@ == (SchedulerView { shutdown: true, ..old(self)@ }),
            final(self).algo.steals() == old(self).algo.steals(),
            final(self).algo.parked() == old(self).algo.parked(),
    {
        self.shutdown = true;
        proof {
            let n = SchedulerView { shutdown: true, ..old(self)@ };
            assert(self@ =~~= n);
            crate::scheduler::laws::lemma_frame_inv(old(self)@, n, true);
        }
    }

    /// A waker tries to claim the waiter `ctx` for `token`: it compares the
    /// wake-status word of `ctx` with the token and, where they are equal,
    /// sets the word to `WOKEN` and schedules the fiber.
    pub fn claim(&mut self, ctx: usize, token: isize) -> (r: Handshake)
        requires
            old(self).wf(),
        ensures
            final(self).wf(),
            r == old(self)@.handshake(ctx, token),
            final(self)@ == old(self)@.claim(ctx, token),
            final(self).algo.steals() == old(self).algo.steals(),
            final(self).algo.parked() == old(self).algo.parked(),
    {
        if ctx >= self.contexts.len() {
            return Handshake::Lost;
        }
        let mut word = self.contexts[ctx].twstatus;
        match compare_exchange(&mut word, token, WOKEN) {
            Ok(_) => {
                self.contexts[ctx].twstatus = word;
                proof {
                    lemma_set_word_inv(old(self)@, ctx, WOKEN, true);
                    assert(self@ =~~= old(self)@.set_word(ctx, WOKEN));
                }
                let _ = self.schedule(ctx);
                Handshake::Won
            },
            Err(seen) => {
                if seen == NOT_WAITING {
                    Handshake::Unpublished
                } else {
                    Handshake::Lost
                }
            },
        }
    }

    /// One turn of the dispatcher loop, for the dispatcher fiber to run.
    /// Where shutdown was asked for and no worker is left the loop ends:
    /// control goes back to the main fiber. Else the wakes of other
    /// threads are taken over, the sleepers that are due at `now` woken
    /// and the stacks of ended fibers released; then the next runnable
    /// fiber gets control, with the dispatcher queued behind it.
    pub fn dispatch(&mut self, now: u64) -> (r: Dispatched)
        requires
            old(self).wf(),
            old(self)@.active == old(self)@.dispatcher,
        ensures
            final(self).wf(),
            final(self)@ == old(self)@.dispatch(now),
            r.signal == (old(self)@.shutdown && old(self).algo.parked()),
            old(self)@.drained() ==> r.action == Dispatch::Exit && r.released@.len() == 0,
            old(self)@.drained() ==> final(self)@.active == old(self)@.main,
            !old(self)@.drained() ==> r.action == (match old(self)@.housekeeping(now).ready.front() {
                Some(c) => Dispatch::Run(c),
                None => Dispatch::Idle,
            }),
            !old(self)@.drained() ==> r.released@ == stacks_of(
                old(self)@.remote_ready2ready().sleep2ready(now).contexts,
                old(self)@.remote_ready2ready().sleep2ready(now).terminated,
            ),
            final(self).algo.steals() == old(self).algo.steals(),
            final(self).algo.parked() == old(self).algo.parked(),
    {
        let mut signal = false;
        if self.shutdown {
            signal = self.algo.notify();
            if self.worker_queue.len() == 0 {
                proof {
                    assert(self@ =~~= old(self)@);
                    crate::scheduler::laws::lemma_unwind(old(self)@);
                }
                let main = self.main_ctx;
                let _ = self.schedule(main);
                self.yield_();
                return Dispatched { action: Dispatch::Exit, released: Vec::new(), signal };
            }
        }
        proof {
            assert(self@ =~~= old(self)@);
            crate::scheduler::laws::lemma_housekeeping_wf(old(self)@, now);
        }
        self.remote_ready2ready();
        self.sleep2ready(now);
        let released = self.release_terminated();
        let before = self.active;
        self.yield_();
        let action = if self.active == before {
            Dispatch::Idle
        } else {
            Dispatch::Run(self.active)
        };
        proof {
            let h = old(self)@.housekeeping(now);
            crate::algorithm::lemma_front_is_head(h.ready);
            crate::scheduler::laws::lemma_yield_wf(h);
        }
        Dispatched { action, released, signal }
    }
}

/// What the dispatcher asks its thread to do after one turn of its loop.
#[derive(Copy, Clone, PartialEq, Eq, Structural, Debug)]
pub enum Dispatch {
    /// The loop has ended: transfer control to the main fiber.
    Exit,
    /// Transfer control to this fiber.
    Run(usize),
    /// Nothing is runnable: turn again.
    Idle,
}

/// Outcome of one turn of the dispatcher loop.
pub struct Dispatched {
    pub action: Dispatch,
    /// Stacks of ended fibers, to be handed back to the allocator.
    pub released: Vec<StackContext>,
    /// Whether a sleeping thread has to be signalled.
    pub signal: bool,
}

} // verus!
