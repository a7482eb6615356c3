//! The transitions of a scheduler keep its invariant, and what follows
//! from the invariant.

use vstd::prelude::*;
use crate::algorithm::{lemma_front_is_head, lemma_push_order};
use crate::context::{path_ok, step_ok, Context, Handshake, State, TIMED_OUT, WOKEN};
use crate::scheduler::model::{
    due,
    holds_exactly,
    record_ok,
    records_ok,
    remote_ok,
    sleepers_ok,
    stacks_of,
    workers_ok,
    SchedulerView,
};
use crate::scheduler::queues::{
    lemma_due,
    lemma_exact_empty,
    lemma_exact_insert,
    lemma_exact_kept,
    lemma_exact_member,
    lemma_exact_remove,
    lemma_queues_distinct,
    lemma_remote_empty,
    lemma_remote_grown,
    lemma_remote_pushed,
    lemma_sleepers_insert,
    lemma_sleepers_kept,
    lemma_sleepers_member,
    lemma_sleepers_skip,
    lemma_sleepers_without,
    lemma_workers_grown,
    lemma_workers_kept,
    lemma_workers_member,
    lemma_workers_without,
};
use crate::seq_util::without;
use crate::stack::StackContext;

verus! {

/// What the invariant says of one record.
pub proof fn lemma_record(s: SchedulerView, c: usize, running: bool)
    requires
        s.inv(running),
        s.valid(c),
    ensures
        record_ok(s.contexts[c as int], c as int, s.main, s.dispatcher, s.active, running),
        s.ready.contains(c) <==> s.contexts[c as int].state == State::Ready,
        s.terminated.contains(c) <==> s.contexts[c as int].state == State::Terminated,
        s.sleep.contains(c) ==> s.contexts[c as int].state == State::Suspended,
        s.worker.contains(c) <==> !s.pinned(c) && !s.contexts[c as int].ended(),
{
    reveal(records_ok);
    lemma_exact_member(s.contexts, s.ready.order(), State::Ready, c);
    lemma_exact_member(s.contexts, s.terminated, State::Terminated, c);
    lemma_workers_member(s.contexts, s.worker, s.main, s.dispatcher, c);
    if s.sleep.contains(c) {
        lemma_sleepers_member(s.contexts, s.sleep, c);
    }
}

/// No queue of a scheduler holds a fiber twice.
pub proof fn lemma_distinct(s: SchedulerView, running: bool)
    requires
        s.inv(running),
    ensures
        s.ready.order().no_duplicates(),
        s.sleep.no_duplicates(),
        s.terminated.no_duplicates(),
        s.worker.no_duplicates(),
        s.remote.no_duplicates(),
{
    lemma_queues_distinct(
        s.contexts,
        s.ready.order(),
        State::Ready,
        s.sleep,
        s.worker,
        s.main,
        s.dispatcher,
        s.remote,
    );
    lemma_queues_distinct(
        s.contexts,
        s.terminated,
        State::Terminated,
        s.sleep,
        s.worker,
        s.main,
        s.dispatcher,
        s.remote,
    );
}

/// A scheduler starts in a state that satisfies the invariant.
pub proof fn lemma_initial_wf(id: usize, spreads: bool, stack: Option<StackContext>)
    ensures
        SchedulerView::initial(id, spreads, stack).wf(),
{
    let v = SchedulerView::initial(id, spreads, stack);
    assert(v.ready.order() =~= seq![1usize]);
    assert(v.ready.order()[0] == 1usize);
    reveal(records_ok);
    reveal(holds_exactly);
    reveal(sleepers_ok);
    reveal(workers_ok);
    reveal(remote_ok);
    assert forall|c: int|
        0 <= c < v.contexts.len() && (#[trigger] v.contexts[c]).state
            == State::Ready implies v.ready.order().contains(c as usize) by {
        assert(c == 1);
    }
}

/// A state that differs from one with the invariant in nothing but the
/// queues of joiners, an emptied queue of remote wakes, its name or the
/// request for shutdown has the invariant.
pub proof fn lemma_frame_inv(s: SchedulerView, n: SchedulerView, running: bool)
    requires
        s.inv(running),
        n.contexts == s.contexts,
        n.joiners.len() == s.joiners.len(),
        n.ready == s.ready,
        n.sleep == s.sleep,
        n.worker == s.worker,
        n.terminated == s.terminated,
        n.remote == s.remote || n.remote == Seq::<usize>::empty(),
        n.main == s.main,
        n.dispatcher == s.dispatcher,
        n.active == s.active,
    ensures
        n.inv(running),
{
    lemma_remote_empty(s.contexts.len());
}

/// Changing the wake-status word of a fiber keeps the invariant.
pub proof fn lemma_set_word_inv(s: SchedulerView, ctx: usize, word: isize, running: bool)
    requires
        s.inv(running),
        s.valid(ctx),
    ensures
        s.set_word(ctx, word).inv(running),
{
    let n = s.set_word(ctx, word);
    assert(records_ok(n.contexts, n.main, n.dispatcher, n.active, running)) by {
        reveal(records_ok);
        assert forall|i: int| 0 <= i < n.contexts.len() implies record_ok(
            #[trigger] n.contexts[i],
            i,
            n.main,
            n.dispatcher,
            n.active,
            running,
        ) by {
            assert(record_ok(s.contexts[i], i, s.main, s.dispatcher, s.active, running));
        }
    }
    lemma_exact_kept(s.contexts, n.contexts, s.ready.order(), State::Ready);
    lemma_sleepers_kept(s.contexts, n.contexts, s.sleep);
    lemma_exact_kept(s.contexts, n.contexts, s.terminated, State::Terminated);
    lemma_workers_kept(s.contexts, n.contexts, s.worker, s.main, s.dispatcher);
}

/// Scheduling a fiber keeps the invariant, also while control is on its
/// way to the next fiber.
pub proof fn lemma_schedule_inv(s: SchedulerView, ctx: usize, running: bool)
    requires
        s.inv(running),
    ensures
        s.schedule(ctx).inv(running),
{
    if s.can_schedule(ctx) {
        let n = s.schedule(ctx);
        let to_shared = s.spreads && !s.pinned(ctx);
        let order = s.ready.order();
        lemma_push_order(s.ready, ctx, to_shared);
        let at = if to_shared {
            s.ready.shared.len() as int
        } else {
            order.len() as int
        };
        assert(records_ok(n.contexts, n.main, n.dispatcher, n.active, running)) by {
            reveal(records_ok);
            assert forall|i: int| 0 <= i < n.contexts.len() implies record_ok(
                #[trigger] n.contexts[i],
                i,
                n.main,
                n.dispatcher,
                n.active,
                running,
            ) by {
                assert(record_ok(s.contexts[i], i, s.main, s.dispatcher, s.active, running));
            }
        }
        lemma_exact_insert(s.contexts, n.contexts, order, at, ctx, State::Ready);
        lemma_sleepers_without(s.contexts, n.contexts, s.sleep, ctx);
        lemma_exact_kept(s.contexts, n.contexts, s.terminated, State::Terminated);
        lemma_workers_kept(s.contexts, n.contexts, s.worker, s.main, s.dispatcher);
        assert((running && n.dispatcher == n.active) || n.ready.order().contains(n.dispatcher)) by {
            if !(running && s.dispatcher == s.active) {
                assert(order.contains(s.dispatcher));
                assert(order.insert(at, ctx).contains(s.dispatcher));
            }
        }
    }
}

/// Scheduling a fiber keeps the invariant.
pub proof fn lemma_schedule_wf(s: SchedulerView, ctx: usize)
    requires
        s.wf(),
    ensures
        s.schedule(ctx).wf(),
{
    lemma_schedule_inv(s, ctx, true);
}

/// Scheduling a fiber changes neither who runs nor the roles.
pub proof fn lemma_schedule_keeps_roles(s: SchedulerView, ctx: usize)
    ensures
        s.schedule(ctx).active == s.active,
        s.schedule(ctx).dispatcher == s.dispatcher,
        s.schedule(ctx).main == s.main,
        s.schedule(ctx).contexts.len() == s.contexts.len(),
{
}

/// Scheduling fibers one after the other keeps the invariant. It touches
/// the ready and the sleep queue and the states of fibers that were fresh
/// or suspended, and nothing else.
pub proof fn lemma_schedule_all_inv(s: SchedulerView, ids: Seq<usize>, running: bool)
    requires
        s.inv(running),
    ensures
        s.schedule_all(ids).inv(running),
        s.schedule_all(ids).contexts.len() == s.contexts.len(),
        s.schedule_all(ids).id == s.id,
        s.schedule_all(ids).active == s.active,
        s.schedule_all(ids).main == s.main,
        s.schedule_all(ids).dispatcher == s.dispatcher,
        s.schedule_all(ids).joiners == s.joiners,
        s.schedule_all(ids).worker == s.worker,
        s.schedule_all(ids).terminated == s.terminated,
        s.schedule_all(ids).remote == s.remote,
        s.schedule_all(ids).shutdown == s.shutdown,
        s.schedule_all(ids).spreads == s.spreads,
        forall|i: int|
            0 <= i < s.contexts.len() ==> (#[trigger] s.schedule_all(ids).contexts[i])
                == s.contexts[i] || s.schedule_all(ids).contexts[i] == s.contexts[i].with_state(
                State::Ready,
            ),
        forall|i: int|
            0 <= i < s.contexts.len() && s.contexts[i].state != State::Fresh && s.contexts[i].state
                != State::Suspended ==> (#[trigger] s.schedule_all(ids).contexts[i])
                == s.contexts[i],
    decreases ids.len(),
{
    if ids.len() > 0 {
        lemma_schedule_inv(s, ids[0], running);
        lemma_schedule_all_inv(s.schedule(ids[0]), ids.drop_first(), running);
    }
}

/// Control passes to the front of the policy: afterwards exactly that
/// fiber runs.
pub proof fn lemma_switch_wf(s: SchedulerView)
    requires
        s.in_transfer(),
    ensures
        s.switch().wf(),
        s.ready.front().is_some(),
        s.valid(s.successor()),
        s.contexts[s.successor() as int].state == State::Ready,
{
    lemma_front_is_head(s.ready);
    let order = s.ready.order();
    assert(order.contains(s.dispatcher));
    let next = s.successor();
    assert(next == order[0]);
    assert(order.contains(next));
    lemma_exact_member(s.contexts, order, State::Ready, next);
    let n = s.switch();
    assert(order.remove(0) =~= order.drop_first());
    lemma_exact_remove(s.contexts, n.contexts, order, 0, State::Ready);
    lemma_sleepers_kept(s.contexts, n.contexts, s.sleep);
    lemma_exact_kept(s.contexts, n.contexts, s.terminated, State::Terminated);
    lemma_workers_kept(s.contexts, n.contexts, s.worker, s.main, s.dispatcher);
    assert(records_ok(n.contexts, n.main, n.dispatcher, n.active, true)) by {
        reveal(records_ok);
        assert forall|i: int| 0 <= i < n.contexts.len() implies record_ok(
            #[trigger] n.contexts[i],
            i,
            n.main,
            n.dispatcher,
            n.active,
            true,
        ) by {
            assert(record_ok(s.contexts[i], i, s.main, s.dispatcher, s.active, false));
        }
    }
    assert(n.dispatcher == n.active || n.ready.order().contains(n.dispatcher)) by {
        if s.dispatcher != next {
            assert(order.remove(0).contains(s.dispatcher));
        }
    }
}

/// The running fiber, unless it is the dispatcher, can give up control:
/// once it is marked suspended, control is on its way.
pub proof fn lemma_pause(s: SchedulerView)
    requires
        s.wf(),
        s.active != s.dispatcher,
    ensures
        s.set_state(s.active, State::Suspended).in_transfer(),
{
    let n = s.set_state(s.active, State::Suspended);
    lemma_record(s, s.active, true);
    assert(records_ok(n.contexts, n.main, n.dispatcher, n.active, false)) by {
        reveal(records_ok);
        assert forall|i: int| 0 <= i < n.contexts.len() implies record_ok(
            #[trigger] n.contexts[i],
            i,
            n.main,
            n.dispatcher,
            n.active,
            false,
        ) by {
            assert(record_ok(s.contexts[i], i, s.main, s.dispatcher, s.active, true));
        }
    }
    lemma_exact_kept(s.contexts, n.contexts, s.ready.order(), State::Ready);
    lemma_sleepers_kept(s.contexts, n.contexts, s.sleep);
    lemma_exact_kept(s.contexts, n.contexts, s.terminated, State::Terminated);
    lemma_workers_kept(s.contexts, n.contexts, s.worker, s.main, s.dispatcher);
}

/// Suspending the running fiber keeps the invariant.
pub proof fn lemma_suspend_wf(s: SchedulerView)
    requires
        s.wf(),
        s.active != s.dispatcher,
    ensures
        s.suspend().wf(),
        s.ready.front().is_some(),
        s.suspend().active == s.ready.front().unwrap(),
        s.suspend().contexts[s.active as int].state == State::Suspended,
{
    lemma_pause(s);
    lemma_record(s, s.active, true);
    lemma_switch_wf(s.set_state(s.active, State::Suspended));
}

/// Parking the running fiber on a token keeps the invariant.
pub proof fn lemma_park_wf(s: SchedulerView, token: isize)
    requires
        s.wf(),
        s.active != s.dispatcher,
    ensures
        s.park(token).wf(),
{
    lemma_set_word_inv(s, s.active, token, true);
    lemma_suspend_wf(s.set_word(s.active, token));
}

/// A yield keeps the invariant.
pub proof fn lemma_yield_wf(s: SchedulerView)
    requires
        s.wf(),
    ensures
        s.yield_now().wf(),
        s.ready.front().is_some() ==> s.valid(s.successor()) && s.successor() != s.active,
{
    if s.ready.front().is_some() {
        lemma_front_is_head(s.ready);
        let me = s.active;
        let order = s.ready.order();
        let next = order[0];
        assert(order.contains(next));
        lemma_exact_member(s.contexts, order, State::Ready, next);
        lemma_record(s, me, true);
        lemma_record(s, next, true);
        let n = s.yield_now();
        // the state between the pick and the queueing of the caller
        let picked = s.contexts.update(next as int, s.contexts[next as int].with_state(State::Running));
        let popped = s.ready.pop();
        assert(order.remove(0) =~= order.drop_first());
        lemma_exact_remove(s.contexts, picked, order, 0, State::Ready);
        let to_shared = s.spreads && !s.pinned(me);
        lemma_push_order(popped, me, to_shared);
        let at = if to_shared {
            popped.shared.len() as int
        } else {
            popped.order().len() as int
        };
        assert(n.contexts =~= picked.update(me as int, picked[me as int].with_state(State::Ready)));
        lemma_exact_insert(picked, n.contexts, popped.order(), at, me, State::Ready);
        lemma_sleepers_kept(s.contexts, n.contexts, s.sleep);
        lemma_exact_kept(s.contexts, n.contexts, s.terminated, State::Terminated);
        lemma_workers_kept(s.contexts, n.contexts, s.worker, s.main, s.dispatcher);
        assert(records_ok(n.contexts, n.main, n.dispatcher, n.active, true)) by {
            reveal(records_ok);
            assert forall|i: int| 0 <= i < n.contexts.len() implies record_ok(
                #[trigger] n.contexts[i],
                i,
                n.main,
                n.dispatcher,
                n.active,
                true,
            ) by {
                assert(record_ok(s.contexts[i], i, s.main, s.dispatcher, s.active, true));
            }
        }
        assert(n.dispatcher == n.active || n.ready.order().contains(n.dispatcher)) by {
            if s.dispatcher != next && s.dispatcher != me {
                assert(order.contains(s.dispatcher));
                assert(order.remove(0).contains(s.dispatcher));
                assert(popped.order().insert(at, me).contains(s.dispatcher));
            }
            if s.dispatcher == me {
                assert(popped.order().insert(at, me).contains(me));
            }
        }
    }
}

/// Once the running fiber is in the sleep queue and marked suspended,
/// control is on its way.
pub proof fn lemma_sleep_until_parked(s: SchedulerView, deadline: u64)
    requires
        s.wf(),
        s.active != s.dispatcher,
    ensures
        0 <= s.sleep_slot(deadline) <= s.sleep.len(),
        (SchedulerView {
            contexts: s.contexts.update(
                s.active as int,
                Context { tp: deadline, twstatus: WOKEN, ..s.contexts[s.active as int] },
            ),
            sleep: s.sleep.insert(s.sleep_slot(deadline), s.active),
            ..s
        }).set_state(s.active, State::Suspended).in_transfer(),
{
    let me = s.active;
    let n = (SchedulerView {
        contexts: s.contexts.update(
            me as int,
            Context { tp: deadline, twstatus: WOKEN, ..s.contexts[me as int] },
        ),
        sleep: s.sleep.insert(s.sleep_slot(deadline), me),
        ..s
    }).set_state(me, State::Suspended);
    lemma_record(s, me, true);
    assert(records_ok(n.contexts, n.main, n.dispatcher, n.active, false)) by {
        reveal(records_ok);
        assert forall|i: int| 0 <= i < n.contexts.len() implies record_ok(
            #[trigger] n.contexts[i],
            i,
            n.main,
            n.dispatcher,
            n.active,
            false,
        ) by {
            assert(record_ok(s.contexts[i], i, s.main, s.dispatcher, s.active, true));
        }
    }
    lemma_exact_kept(s.contexts, n.contexts, s.ready.order(), State::Ready);
    lemma_sleepers_insert(s.contexts, n.contexts, s.sleep, me, deadline);
    lemma_exact_kept(s.contexts, n.contexts, s.terminated, State::Terminated);
    lemma_workers_kept(s.contexts, n.contexts, s.worker, s.main, s.dispatcher);
}

/// Putting the running fiber to sleep keeps the invariant.
pub proof fn lemma_sleep_until_wf(s: SchedulerView, deadline: u64)
    requires
        s.wf(),
        s.active != s.dispatcher,
    ensures
        s.sleep_until(deadline).wf(),
{
    lemma_sleep_until_parked(s, deadline);
    lemma_switch_wf(
        (SchedulerView {
            contexts: s.contexts.update(
                s.active as int,
                Context { tp: deadline, twstatus: WOKEN, ..s.contexts[s.active as int] },
            ),
            sleep: s.sleep.insert(s.sleep_slot(deadline), s.active),
            ..s
        }).set_state(s.active, State::Suspended),
    );
}

/// The expiry of a deadline keeps the invariant.
pub proof fn lemma_time_out_inv(s: SchedulerView, ctx: usize, running: bool)
    requires
        s.inv(running),
    ensures
        s.time_out(ctx).inv(running),
        s.time_out(ctx).contexts.len() == s.contexts.len(),
{
    if s.valid(ctx) && s.contexts[ctx as int].twstatus == WOKEN {
        lemma_set_word_inv(s, ctx, TIMED_OUT, running);
        lemma_schedule_inv(s.set_word(ctx, TIMED_OUT), ctx, running);
    }
}

/// The expiry of deadlines one after the other keeps the invariant.
pub proof fn lemma_time_out_all_inv(s: SchedulerView, ids: Seq<usize>, running: bool)
    requires
        s.inv(running),
    ensures
        s.time_out_all(ids).inv(running),
        s.time_out_all(ids).contexts.len() == s.contexts.len(),
    decreases ids.len(),
{
    if ids.len() > 0 {
        lemma_time_out_inv(s, ids[0], running);
        lemma_time_out_all_inv(s.time_out(ids[0]), ids.drop_first(), running);
    }
}

/// Dropping a prefix of the sleep queue keeps the invariant.
pub proof fn lemma_drop_sleepers_inv(s: SchedulerView, k: int, running: bool)
    requires
        s.inv(running),
        0 <= k <= s.sleep.len(),
    ensures
        (SchedulerView { sleep: s.sleep.skip(k), ..s }).inv(running),
{
    lemma_sleepers_skip(s.contexts, s.sleep, k);
}

/// Waking the sleepers that are due keeps the invariant.
pub proof fn lemma_sleep2ready_inv(s: SchedulerView, now: u64, running: bool)
    requires
        s.inv(running),
    ensures
        s.sleep2ready(now).inv(running),
        s.sleep2ready(now).contexts.len() == s.contexts.len(),
{
    let k = due(s.contexts, s.sleep, now);
    lemma_due(s.contexts, s.sleep, now);
    lemma_drop_sleepers_inv(s, k, running);
    lemma_time_out_all_inv(SchedulerView { sleep: s.sleep.skip(k), ..s }, s.sleep.take(k), running);
}

/// A wake from another thread keeps the invariant.
pub proof fn lemma_schedule_from_remote_inv(s: SchedulerView, ctx: usize, running: bool)
    requires
        s.inv(running),
    ensures
        s.schedule_from_remote(ctx).inv(running),
{
    if s.valid(ctx) && !s.remote.contains(ctx) {
        lemma_remote_pushed(s.contexts.len(), s.remote, ctx);
    }
}

/// Taking over the wakes of other threads keeps the invariant.
pub proof fn lemma_remote_ready2ready_inv(s: SchedulerView, running: bool)
    requires
        s.inv(running),
    ensures
        (SchedulerView { remote: Seq::empty(), ..s }).inv(running),
        s.remote_ready2ready().inv(running),
        s.remote_ready2ready().contexts.len() == s.contexts.len(),
{
    let n = SchedulerView { remote: Seq::empty(), ..s };
    lemma_frame_inv(s, n, running);
    lemma_schedule_all_inv(n, s.remote, running);
}

/// `reclaim_all` changes the records of the listed fibers alone: they lose
/// their stacks and become reclaimed.
pub proof fn lemma_reclaim_all(contexts: Seq<Context>, ids: Seq<usize>)
    requires
        contexts.len() <= usize::MAX,
    ensures
        SchedulerView::reclaim_all(contexts, ids).len() == contexts.len(),
        forall|i: int|
            0 <= i < contexts.len() ==> (#[trigger] SchedulerView::reclaim_all(contexts, ids)[i])
                == (if ids.contains(i as usize) {
                Context { state: State::Reclaimed, stack: None, ..contexts[i] }
            } else {
                contexts[i]
            }),
    decreases ids.len(),
{
    if ids.len() > 0 {
        let c = ids[0];
        let rest = ids.drop_first();
        let next = if c < contexts.len() {
            contexts.update(
                c as int,
                Context { state: State::Reclaimed, stack: None, ..contexts[c as int] },
            )
        } else {
            contexts
        };
        lemma_reclaim_all(next, rest);
        assert forall|i: int| 0 <= i < contexts.len() implies (
        #[trigger] SchedulerView::reclaim_all(contexts, ids)[i]) == (if ids.contains(i as usize) {
            Context { state: State::Reclaimed, stack: None, ..contexts[i] }
        } else {
            contexts[i]
        }) by {
            if rest.contains(i as usize) {
                let j = choose|j: int| 0 <= j < rest.len() && rest[j] == i as usize;
                assert(ids[j + 1] == i as usize);
            }
            if ids.contains(i as usize) && !rest.contains(i as usize) {
                let j = choose|j: int| 0 <= j < ids.len() && ids[j] == i as usize;
                if j > 0 {
                    assert(rest[j - 1] == i as usize);
                }
            }
            if i == c {
                assert(ids[0] == i as usize);
            }
            if i != c && c < contexts.len() {
                assert(next[i] == contexts[i]);
            }
        }
    }
}

/// Releasing the stacks of the ended fibers keeps the invariant.
pub proof fn lemma_release_terminated_inv(s: SchedulerView, running: bool)
    requires
        s.inv(running),
    ensures
        s.release_terminated().inv(running),
        s.release_terminated().contexts.len() == s.contexts.len(),
{
    let n = s.release_terminated();
    lemma_reclaim_all(s.contexts, s.terminated);
    assert forall|c: int| 0 <= c < s.contexts.len() implies (s.terminated.contains(c as usize)
        <==> (#[trigger] s.contexts[c]).state == State::Terminated) by {
        lemma_exact_member(s.contexts, s.terminated, State::Terminated, c as usize);
    }
    assert(records_ok(n.contexts, n.main, n.dispatcher, n.active, running)) by {
        reveal(records_ok);
        assert forall|i: int| 0 <= i < n.contexts.len() implies record_ok(
            #[trigger] n.contexts[i],
            i,
            n.main,
            n.dispatcher,
            n.active,
            running,
        ) by {
            assert(record_ok(s.contexts[i], i, s.main, s.dispatcher, s.active, running));
        }
    }
    assert forall|c: int| 0 <= c < n.contexts.len() implies ((#[trigger] n.contexts[c]).state
        == State::Ready <==> s.contexts[c].state == State::Ready) by {}
    lemma_exact_kept(s.contexts, n.contexts, s.ready.order(), State::Ready);
    assert forall|c: int|
        0 <= c < s.contexts.len() && s.contexts[c].state == State::Suspended implies (
    #[trigger] n.contexts[c]).state == State::Suspended && n.contexts[c].tp == s.contexts[c].tp by {}
    lemma_sleepers_kept(s.contexts, n.contexts, s.sleep);
    assert forall|c: int| 0 <= c < n.contexts.len() implies (#[trigger] n.contexts[c]).state
        != State::Terminated by {
        assert(s.terminated.contains(c as usize) <==> s.contexts[c].state == State::Terminated);
    }
    lemma_exact_empty(n.contexts, State::Terminated);
    assert forall|c: int| 0 <= c < s.contexts.len() implies (#[trigger] n.contexts[c]).ended()
        == s.contexts[c].ended() by {
        assert(s.terminated.contains(c as usize) <==> s.contexts[c].state == State::Terminated);
    }
    lemma_workers_kept(s.contexts, n.contexts, s.worker, s.main, s.dispatcher);
    assert(!n.contexts[n.main as int].ended());
    assert(!n.contexts[n.dispatcher as int].ended());
}

/// A new worker fiber keeps the invariant.
pub proof fn lemma_spawn_inv(s: SchedulerView, stack: Option<StackContext>, start: bool, running: bool)
    requires
        s.inv(running),
        s.contexts.len() < usize::MAX,
    ensures
        s.spawn(stack, false).inv(running),
        s.spawn(stack, start).inv(running),
        s.spawn(stack, start).contexts.len() == s.contexts.len() + 1,
        s.spawn(stack, start).active == s.active,
{
    let id = s.contexts.len() as usize;
    let n = s.spawn(stack, false);
    assert(records_ok(n.contexts, n.main, n.dispatcher, n.active, running)) by {
        reveal(records_ok);
        assert forall|i: int| 0 <= i < n.contexts.len() implies record_ok(
            #[trigger] n.contexts[i],
            i,
            n.main,
            n.dispatcher,
            n.active,
            running,
        ) by {
            if i < s.contexts.len() {
                assert(record_ok(s.contexts[i], i, s.main, s.dispatcher, s.active, running));
            }
        }
    }
    lemma_exact_kept(s.contexts, n.contexts, s.ready.order(), State::Ready);
    lemma_sleepers_kept(s.contexts, n.contexts, s.sleep);
    lemma_exact_kept(s.contexts, n.contexts, s.terminated, State::Terminated);
    lemma_workers_grown(s.contexts, n.contexts, s.worker, s.main, s.dispatcher);
    lemma_remote_grown(s.contexts.len(), n.contexts.len(), s.remote);
    assert(n.inv(running));
    if start {
        lemma_schedule_inv(n, id, running);
    }
}

/// Waiting for the end of a fiber keeps the invariant.
pub proof fn lemma_join_wf(s: SchedulerView, target: usize)
    requires
        s.wf(),
        s.active != s.dispatcher,
    ensures
        s.join(target).wf(),
{
    if s.can_join(target) {
        let n = SchedulerView {
            joiners: s.joiners.update(target as int, s.joiners[target as int].push(s.active)),
            ..s
        };
        lemma_frame_inv(s, n, true);
        lemma_suspend_wf(n);
    }
}

/// The state of `terminate` before control passes on.
pub open spec fn terminate_parked(s: SchedulerView) -> SchedulerView {
    let me = s.active;
    let cleared = SchedulerView { joiners: s.joiners.update(me as int, Seq::empty()), ..s };
    let woken = cleared.schedule_all(s.joiners[me as int]);
    SchedulerView {
        contexts: woken.contexts.update(
            me as int,
            Context { terminated: true, state: State::Terminated, ..woken.contexts[me as int] },
        ),
        worker: without(woken.worker, me),
        terminated: seq![me] + woken.terminated,
        ..woken
    }
}

/// Once the ending fiber is in the terminated queue, control is on its
/// way.
pub proof fn lemma_terminate_parked(s: SchedulerView)
    requires
        s.wf(),
        !s.pinned(s.active),
    ensures
        terminate_parked(s).in_transfer(),
        terminate_parked(s).contexts.len() == s.contexts.len(),
        s.terminate() == terminate_parked(s).switch(),
{
    let me = s.active;
    let cleared = SchedulerView { joiners: s.joiners.update(me as int, Seq::empty()), ..s };
    lemma_frame_inv(s, cleared, true);
    let woken = cleared.schedule_all(s.joiners[me as int]);
    lemma_schedule_all_inv(cleared, s.joiners[me as int], true);
    lemma_record(s, me, true);
    lemma_record(woken, me, true);
    let n = terminate_parked(s);
    assert(records_ok(n.contexts, n.main, n.dispatcher, n.active, false)) by {
        reveal(records_ok);
        assert forall|i: int| 0 <= i < n.contexts.len() implies record_ok(
            #[trigger] n.contexts[i],
            i,
            n.main,
            n.dispatcher,
            n.active,
            false,
        ) by {
            assert(record_ok(woken.contexts[i], i, woken.main, woken.dispatcher, woken.active, true));
        }
    }
    lemma_exact_kept(woken.contexts, n.contexts, woken.ready.order(), State::Ready);
    lemma_sleepers_kept(woken.contexts, n.contexts, woken.sleep);
    lemma_exact_insert(woken.contexts, n.contexts, woken.terminated, 0, me, State::Terminated);
    assert(n.terminated =~= woken.terminated.insert(0, me));
    lemma_workers_without(woken.contexts, n.contexts, woken.worker, me, woken.main, woken.dispatcher);
}

/// The end of the running fiber, unless it is the main or the dispatcher
/// fiber, keeps the invariant.
pub proof fn lemma_terminate_wf(s: SchedulerView)
    requires
        s.wf(),
        !s.pinned(s.active),
    ensures
        s.terminate().wf(),
        s.terminate().contexts.len() == s.contexts.len(),
{
    lemma_terminate_parked(s);
    lemma_switch_wf(terminate_parked(s));
}

/// A claim keeps the invariant.
pub proof fn lemma_claim_inv(s: SchedulerView, ctx: usize, token: isize, running: bool)
    requires
        s.inv(running),
    ensures
        s.claim(ctx, token).inv(running),
        s.claim(ctx, token).contexts.len() == s.contexts.len(),
        s.claim(ctx, token).active == s.active,
        s.claim(ctx, token).dispatcher == s.dispatcher,
        s.claim(ctx, token).main == s.main,
{
    if s.handshake(ctx, token) == Handshake::Won {
        lemma_set_word_inv(s, ctx, WOKEN, running);
        lemma_schedule_inv(s.set_word(ctx, WOKEN), ctx, running);
    }
}

/// The housekeeping of the dispatcher keeps the invariant.
pub proof fn lemma_housekeeping_wf(s: SchedulerView, now: u64)
    requires
        s.wf(),
    ensures
        s.remote_ready2ready().wf(),
        s.remote_ready2ready().sleep2ready(now).wf(),
        s.housekeeping(now).wf(),
{
    lemma_remote_ready2ready_inv(s, true);
    lemma_sleep2ready_inv(s.remote_ready2ready(), now, true);
    lemma_release_terminated_inv(s.remote_ready2ready().sleep2ready(now), true);
}

/// When the dispatcher leaves its loop, control is back with the main
/// fiber: no worker is left, so the main fiber is the only one that the
/// policy can hold.
pub proof fn lemma_unwind(s: SchedulerView)
    requires
        s.wf(),
        s.active == s.dispatcher,
        s.worker.len() == 0,
    ensures
        s.unwind().wf(),
        s.unwind().active == s.main,
        s.unwind().contexts[s.main as int].state == State::Running,
        s.unwind().ready.order() == seq![s.dispatcher],
{
    let a = s.schedule(s.main);
    lemma_schedule_inv(s, s.main, true);
    lemma_yield_wf(a);
    lemma_front_is_head(a.ready);
    lemma_record(s, s.main, true);
    lemma_record(s, s.dispatcher, true);
    lemma_record(a, s.main, true);
    let order = a.ready.order();
    // every queued fiber is the main fiber
    assert forall|i: int| 0 <= i < order.len() implies #[trigger] order[i] == s.main by {
        let c = order[i];
        assert(order.contains(c));
        lemma_exact_member(a.contexts, order, State::Ready, c);
        lemma_record(a, c, true);
        lemma_record(s, c, true);
        if c != s.main {
            assert(s.contexts[c as int] == a.contexts[c as int]);
            assert(s.worker.contains(c));
        }
    }
    assert(a.contexts[s.main as int].state == State::Ready);
    assert(order.contains(s.main));
    reveal(holds_exactly);
    assert(order.len() == 1) by {
        if order.len() > 1 {
            assert(order[0] == order[1]);
        }
    }
    assert(order[0] == s.main);
    let popped = a.ready.pop();
    assert(popped.order() =~= Seq::<usize>::empty());
    assert(popped.shared =~= Seq::<usize>::empty());
    assert(popped.local =~= Seq::<usize>::empty());
    assert(s.unwind().ready.order() =~= seq![s.dispatcher]);
}

/// One turn of the dispatcher loop keeps the invariant.
pub proof fn lemma_dispatch_wf(s: SchedulerView, now: u64)
    requires
        s.wf(),
    ensures
        s.dispatch(now).wf(),
{
    if !s.drained() {
        lemma_housekeeping_wf(s, now);
        lemma_yield_wf(s.housekeeping(now));
    } else {
        lemma_schedule_inv(s, s.main, true);
        lemma_yield_wf(s.schedule(s.main));
    }
}

/// `stacks_of` does not look at records of fibers that are not listed.
pub proof fn lemma_stacks_of_frame(a: Seq<Context>, b: Seq<Context>, ids: Seq<usize>)
    requires
        a.len() == b.len(),
        forall|i: int|
            0 <= i < ids.len() && ids[i] < a.len() ==> a[(#[trigger] ids[i]) as int].stack
                == b[ids[i] as int].stack,
    ensures
        stacks_of(a, ids) == stacks_of(b, ids),
    decreases ids.len(),
{
    if ids.len() > 0 {
        let rest = ids.drop_first();
        assert forall|i: int| 0 <= i < rest.len() && rest[i] < a.len() implies a[(
        #[trigger] rest[i]) as int].stack == b[rest[i] as int].stack by {
            assert(rest[i] == ids[i + 1]);
        }
        assert(ids[0] < a.len() ==> a[ids[0] as int].stack == b[ids[0] as int].stack);
        lemma_stacks_of_frame(a, b, rest);
    }
}

/// Exactly one fiber runs: the fiber that the scheduler names as active
/// is in state `Running`, and no other fiber is.
pub proof fn lemma_single_active(s: SchedulerView)
    requires
        s.wf(),
    ensures
        s.valid(s.active),
        s.contexts[s.active as int].state == State::Running,
        forall|c: usize|
            s.valid(c) ==> ((#[trigger] s.contexts[c as int]).state == State::Running <==> c
                == s.active),
{
    assert forall|c: usize| s.valid(c) implies ((#[trigger] s.contexts[c as int]).state
        == State::Running <==> c == s.active) by {
        lemma_record(s, c, true);
    }
    lemma_record(s, s.active, true);
}

/// No fiber is in two of the ready, sleep and terminated queues, no fiber
/// is twice in one of them, and the queue of a fiber follows from its
/// state: a fiber is queued by the policy exactly if it is ready, in the
/// terminated queue exactly if it has ended and holds its stack, and in
/// the sleep queue only if it is suspended. The running fiber is in none.
pub proof fn lemma_queue_exclusivity(s: SchedulerView, c: usize)
    requires
        s.wf(),
        s.valid(c),
    ensures
        !(s.ready.contains(c) && s.sleep.contains(c)),
        !(s.ready.contains(c) && s.terminated.contains(c)),
        !(s.sleep.contains(c) && s.terminated.contains(c)),
        s.ready.order().no_duplicates(),
        s.sleep.no_duplicates(),
        s.terminated.no_duplicates(),
        s.ready.contains(c) <==> s.contexts[c as int].state == State::Ready,
        s.terminated.contains(c) <==> s.contexts[c as int].state == State::Terminated,
        s.sleep.contains(c) ==> s.contexts[c as int].state == State::Suspended,
        c == s.active ==> !s.ready.contains(c) && !s.sleep.contains(c) && !s.terminated.contains(c),
{
    lemma_record(s, c, true);
    lemma_distinct(s, true);
}

/// A fiber that has ended is out of the game: it does not run, it is in
/// neither the ready nor the sleep queue, and scheduling, claiming or
/// joining it changes nothing of it. Its stack is released only after its
/// end: a release changes the stacks of ended fibers alone.
pub proof fn lemma_ended_is_final(s: SchedulerView, c: usize)
    requires
        s.wf(),
        s.valid(c),
        s.contexts[c as int].terminated,
    ensures
        c != s.active,
        !s.ready.contains(c),
        !s.sleep.contains(c),
        !s.worker.contains(c),
        s.schedule(c) == s,
        !s.can_join(c),
        s.join(c) == s,
        forall|token: isize| (#[trigger] s.claim(c, token)).contexts[c as int].ended(),
        forall|d: usize|
            s.valid(d) && (#[trigger] s.release_terminated().contexts[d as int]).stack
                != s.contexts[d as int].stack ==> s.contexts[d as int].state == State::Terminated,
{
    lemma_record(s, c, true);
    lemma_reclaim_all(s.contexts, s.terminated);
    assert forall|d: usize|
        s.valid(d) && (#[trigger] s.release_terminated().contexts[d as int]).stack
            != s.contexts[d as int].stack implies s.contexts[d as int].state
        == State::Terminated by {
        assert(s.terminated.contains(d));
        lemma_record(s, d, true);
    }
    assert forall|token: isize| (#[trigger] s.claim(c, token)).contexts[c as int].ended() by {
        if s.handshake(c, token) == Handshake::Won {
            assert(!s.set_word(c, WOKEN).can_schedule(c));
        }
    }
}

/// Whether every fiber of `s` is in `n` where one step of its life takes
/// it, and the request for shutdown, once made, stands.
pub open spec fn steps_ok(s: SchedulerView, n: SchedulerView) -> bool {
    &&& s.contexts.len() <= n.contexts.len()
    &&& s.shutdown ==> n.shutdown
    &&& forall|c: int|
        0 <= c < s.contexts.len() ==> step_ok((#[trigger] s.contexts[c]).state, n.contexts[c].state)
}

/// Scheduling moves the scheduled fiber from fresh or suspended to ready,
/// and no other fiber.
pub proof fn lemma_steps_schedule(s: SchedulerView, ctx: usize)
    ensures
        steps_ok(s, s.schedule(ctx)),
{
}

/// A claim moves the claimed fiber from fresh or suspended to ready, and
/// no other fiber.
pub proof fn lemma_steps_claim(s: SchedulerView, ctx: usize, token: isize)
    ensures
        steps_ok(s, s.claim(ctx, token)),
{
}

/// The expiry of a deadline moves the sleeper from suspended to ready,
/// and no other fiber.
pub proof fn lemma_steps_time_out(s: SchedulerView, ctx: usize)
    ensures
        steps_ok(s, s.time_out(ctx)),
{
}

/// A suspension moves the running fiber to suspended and its successor
/// from ready to running.
pub proof fn lemma_steps_suspend(s: SchedulerView)
    requires
        s.wf(),
        s.active != s.dispatcher,
    ensures
        steps_ok(s, s.suspend()),
        steps_ok(s, s.park(0)),
        forall|token: isize| steps_ok(s, #[trigger] s.park(token)),
{
    lemma_record(s, s.active, true);
    lemma_suspend_wf(s);
    lemma_front_is_head(s.ready);
    let next = s.ready.order()[0];
    assert(s.ready.order().contains(next));
    lemma_exact_member(s.contexts, s.ready.order(), State::Ready, next);
    lemma_record(s, next, true);
    assert forall|token: isize| steps_ok(s, #[trigger] s.park(token)) by {
        let p = s.set_word(s.active, token);
        assert(p.ready == s.ready);
    }
}

/// A yield moves the running fiber to ready and its successor from ready
/// to running.
pub proof fn lemma_steps_yield(s: SchedulerView)
    requires
        s.wf(),
    ensures
        steps_ok(s, s.yield_now()),
{
    lemma_record(s, s.active, true);
    lemma_yield_wf(s);
    lemma_front_is_head(s.ready);
    if s.ready.front().is_some() {
        let next = s.ready.order()[0];
        assert(s.ready.order().contains(next));
        lemma_exact_member(s.contexts, s.ready.order(), State::Ready, next);
    }
}

/// Falling asleep moves the running fiber to suspended and its successor
/// from ready to running.
pub proof fn lemma_steps_sleep_until(s: SchedulerView, deadline: u64)
    requires
        s.wf(),
        s.active != s.dispatcher,
    ensures
        steps_ok(s, s.sleep_until(deadline)),
{
    lemma_record(s, s.active, true);
    lemma_suspend_wf(s);
    lemma_front_is_head(s.ready);
    let next = s.ready.order()[0];
    assert(s.ready.order().contains(next));
    lemma_exact_member(s.contexts, s.ready.order(), State::Ready, next);
    lemma_record(s, next, true);
}

/// A join moves the running fiber to suspended and its successor from
/// ready to running, or nobody.
pub proof fn lemma_steps_join(s: SchedulerView, target: usize)
    requires
        s.wf(),
        s.active != s.dispatcher,
    ensures
        steps_ok(s, s.join(target)),
{
    if s.can_join(target) {
        let n = SchedulerView {
            joiners: s.joiners.update(target as int, s.joiners[target as int].push(s.active)),
            ..s
        };
        lemma_frame_inv(s, n, true);
        lemma_steps_suspend(n);
    }
}

/// Whether every fiber of `s` is in `n` where steps of its life can take
/// it, and the request for shutdown, once made, stands.
pub open spec fn paths_ok(s: SchedulerView, n: SchedulerView) -> bool {
    &&& s.contexts.len() <= n.contexts.len()
    &&& s.shutdown ==> n.shutdown
    &&& forall|c: int|
        0 <= c < s.contexts.len() ==> path_ok((#[trigger] s.contexts[c]).state, n.contexts[c].state)
}

/// Paths compose.
pub proof fn lemma_paths_trans(a: SchedulerView, b: SchedulerView, c: SchedulerView)
    requires
        paths_ok(a, b),
        paths_ok(b, c),
    ensures
        paths_ok(a, c),
{
    assert forall|i: int| 0 <= i < a.contexts.len() implies path_ok(
        (#[trigger] a.contexts[i]).state,
        c.contexts[i].state,
    ) by {
        assert(path_ok(b.contexts[i].state, c.contexts[i].state));
    }
}

/// A step is a path.
pub proof fn lemma_step_is_path(a: SchedulerView, b: SchedulerView)
    requires
        steps_ok(a, b),
    ensures
        paths_ok(a, b),
{
}

/// Scheduling fibers one after the other takes every fiber along a path.
pub proof fn lemma_paths_schedule_all(s: SchedulerView, ids: Seq<usize>)
    ensures
        paths_ok(s, s.schedule_all(ids)),
    decreases ids.len(),
{
    if ids.len() > 0 {
        lemma_steps_schedule(s, ids[0]);
        lemma_paths_schedule_all(s.schedule(ids[0]), ids.drop_first());
        lemma_paths_trans(s, s.schedule(ids[0]), s.schedule_all(ids));
    }
}

/// The expiry of deadlines takes every fiber along a path.
pub proof fn lemma_paths_time_out_all(s: SchedulerView, ids: Seq<usize>)
    ensures
        paths_ok(s, s.time_out_all(ids)),
    decreases ids.len(),
{
    if ids.len() > 0 {
        lemma_steps_time_out(s, ids[0]);
        lemma_paths_time_out_all(s.time_out(ids[0]), ids.drop_first());
        lemma_paths_trans(s, s.time_out(ids[0]), s.time_out_all(ids));
    }
}

/// Waking the sleepers that are due takes every fiber along a path.
pub proof fn lemma_paths_sleep2ready(s: SchedulerView, now: u64)
    ensures
        paths_ok(s, s.sleep2ready(now)),
{
    let k = due(s.contexts, s.sleep, now);
    lemma_paths_time_out_all(SchedulerView { sleep: s.sleep.skip(k), ..s }, s.sleep.take(k));
}

/// Taking over the wakes of other threads takes every fiber along a path.
pub proof fn lemma_paths_remote_ready2ready(s: SchedulerView)
    ensures
        paths_ok(s, s.remote_ready2ready()),
{
    lemma_paths_schedule_all(SchedulerView { remote: Seq::empty(), ..s }, s.remote);
}

/// Releasing stacks moves the fibers of the terminated queue from
/// terminated to reclaimed, and no other fiber.
pub proof fn lemma_steps_release_terminated(s: SchedulerView)
    requires
        s.wf(),
    ensures
        steps_ok(s, s.release_terminated()),
{
    lemma_reclaim_all(s.contexts, s.terminated);
    assert forall|c: int| 0 <= c < s.contexts.len() implies step_ok(
        (#[trigger] s.contexts[c]).state,
        s.release_terminated().contexts[c].state,
    ) by {
        lemma_exact_member(s.contexts, s.terminated, State::Terminated, c as usize);
    }
}

/// The end of a fiber takes every fiber along a path: the running fiber
/// to terminated, the fibers that waited for its end to ready, and its
/// successor to running.
pub proof fn lemma_paths_terminate(s: SchedulerView)
    requires
        s.wf(),
        !s.pinned(s.active),
    ensures
        paths_ok(s, s.terminate()),
        s.terminate().contexts[s.active as int].state == State::Terminated,
{
    let me = s.active;
    lemma_terminate_parked(s);
    let cleared = SchedulerView { joiners: s.joiners.update(me as int, Seq::empty()), ..s };
    lemma_paths_schedule_all(cleared, s.joiners[me as int]);
    let woken = cleared.schedule_all(s.joiners[me as int]);
    lemma_frame_inv(s, cleared, true);
    lemma_schedule_all_inv(cleared, s.joiners[me as int], true);
    let parked = terminate_parked(s);
    lemma_record(s, me, true);
    lemma_record(woken, me, true);
    assert(paths_ok(woken, parked));
    lemma_paths_trans(s, woken, parked);
    lemma_switch_wf(parked);
    assert(paths_ok(parked, parked.switch()));
    lemma_paths_trans(s, parked, s.terminate());
}

/// One turn of the dispatcher takes every fiber along a path.
pub proof fn lemma_paths_dispatch(s: SchedulerView, now: u64)
    requires
        s.wf(),
    ensures
        paths_ok(s, s.dispatch(now)),
{
    if !s.drained() {
        lemma_housekeeping_wf(s, now);
        lemma_paths_remote_ready2ready(s);
        let a = s.remote_ready2ready();
        lemma_paths_sleep2ready(a, now);
        let b = a.sleep2ready(now);
        lemma_paths_trans(s, a, b);
        lemma_steps_release_terminated(b);
        let h = b.release_terminated();
        lemma_paths_trans(s, b, h);
        lemma_steps_yield(h);
        lemma_paths_trans(s, h, s.dispatch(now));
    } else {
        lemma_schedule_inv(s, s.main, true);
        lemma_steps_schedule(s, s.main);
        lemma_steps_yield(s.schedule(s.main));
        lemma_paths_trans(s, s.schedule(s.main), s.dispatch(now));
    }
}

/// The expiry of the deadlines of other fibers leaves a sleeper asleep.
pub proof fn lemma_time_out_all_keeps(s: SchedulerView, ids: Seq<usize>, c: usize)
    requires
        s.wf(),
        s.sleep.contains(c),
        !ids.contains(c),
    ensures
        s.time_out_all(ids).sleep.contains(c),
        s.time_out_all(ids).contexts[c as int] == s.contexts[c as int],
    decreases ids.len(),
{
    if ids.len() > 0 {
        let x = ids[0];
        assert(ids.contains(x));
        let n = s.time_out(x);
        lemma_time_out_inv(s, x, true);
        lemma_distinct(s, true);
        lemma_sleepers_member(s.contexts, s.sleep, c);
        if s.valid(x) && s.contexts[x as int].twstatus == WOKEN {
            let marked = s.set_word(x, TIMED_OUT);
            crate::seq_util::lemma_without(marked.sleep, x);
        }
        assert forall|i: int| 0 <= i < ids.drop_first().len() implies ids.drop_first()[i] != c by {
            assert(ids[i + 1] == ids.drop_first()[i]);
            assert(ids.contains(ids[i + 1]));
        }
        lemma_time_out_all_keeps(n, ids.drop_first(), c);
    }
}

/// No sleeper is woken before its deadline: waking the sleepers that are
/// due at `now` leaves a fiber whose deadline is later in the sleep queue,
/// with its record as it was.
pub proof fn lemma_sleeper_not_due(s: SchedulerView, now: u64, c: usize)
    requires
        s.wf(),
        s.sleep.contains(c),
        s.contexts[c as int].tp > now,
    ensures
        s.sleep2ready(now).sleep.contains(c),
        s.sleep2ready(now).contexts[c as int] == s.contexts[c as int],
        s.sleep2ready(now).contexts[c as int].state == State::Suspended,
{
    let k = due(s.contexts, s.sleep, now);
    lemma_due(s.contexts, s.sleep, now);
    lemma_sleepers_member(s.contexts, s.sleep, c);
    let rest = SchedulerView { sleep: s.sleep.skip(k), ..s };
    lemma_drop_sleepers_inv(s, k, true);
    let i = choose|i: int| 0 <= i < s.sleep.len() && s.sleep[i] == c;
    assert(i >= k);
    assert(s.sleep.skip(k)[i - k] == c);
    let early = s.sleep.take(k);
    assert(!early.contains(c)) by {
        if early.contains(c) {
            let j = choose|j: int| 0 <= j < early.len() && early[j] == c;
            assert(s.sleep[j] == c);
        }
    }
    lemma_time_out_all_keeps(rest, early, c);
}

/// Scheduling a fiber that is fresh or suspended puts it in the ready
/// queue once and in no other queue: it leaves the sleep queue, if it was
/// there, with the order of the others kept, and no other fiber changes
/// its record or its queue.
pub proof fn lemma_schedule_moves(s: SchedulerView, ctx: usize)
    requires
        s.wf(),
        s.can_schedule(ctx),
    ensures
        s.schedule(ctx).wf(),
        s.schedule(ctx).ready.contains(ctx),
        s.schedule(ctx).ready.order().no_duplicates(),
        !s.schedule(ctx).sleep.contains(ctx),
        !s.schedule(ctx).terminated.contains(ctx),
        s.schedule(ctx).sleep == without(s.sleep, ctx),
        s.schedule(ctx).terminated == s.terminated,
        s.schedule(ctx).worker == s.worker,
        s.schedule(ctx).remote == s.remote,
        forall|c: usize|
            c != ctx ==> (#[trigger] s.schedule(ctx).ready.contains(c) <==> s.ready.contains(c)),
        forall|c: usize|
            c != ctx ==> (#[trigger] s.schedule(ctx).sleep.contains(c) <==> s.sleep.contains(c)),
        forall|c: int|
            0 <= c < s.contexts.len() && c != ctx ==> (#[trigger] s.schedule(ctx).contexts[c])
                == s.contexts[c],
{
    let n = s.schedule(ctx);
    lemma_schedule_inv(s, ctx, true);
    lemma_distinct(n, true);
    lemma_distinct(s, true);
    lemma_record(n, ctx, true);
    lemma_push_order(s.ready, ctx, s.spreads && !s.pinned(ctx));
    crate::seq_util::lemma_without(s.sleep, ctx);
    if n.sleep.contains(ctx) {
        lemma_sleepers_member(n.contexts, n.sleep, ctx);
    }
}

/// When the running fiber, unless it is the dispatcher, hands control on,
/// the fiber at the front of the policy is the one that runs and the only
/// one; the fiber that ran is suspended, and every other fiber is in the
/// state it was in.
pub proof fn lemma_suspend_hands_over(s: SchedulerView)
    requires
        s.wf(),
        s.active != s.dispatcher,
    ensures
        s.suspend().wf(),
        s.ready.front().is_some(),
        s.suspend().active == s.ready.front().unwrap(),
        s.suspend().active != s.active,
        s.contexts[s.suspend().active as int].state == State::Ready,
        s.suspend().contexts[s.active as int].state == State::Suspended,
        forall|c: usize|
            s.valid(c) ==> ((#[trigger] s.suspend().contexts[c as int]).state == State::Running
                <==> c == s.suspend().active),
        forall|c: int|
            0 <= c < s.contexts.len() && c != s.active && c != s.suspend().active ==> (
            #[trigger] s.suspend().contexts[c]) == s.contexts[c],
{
    lemma_suspend_wf(s);
    lemma_pause(s);
    lemma_record(s, s.active, true);
    lemma_switch_wf(s.set_state(s.active, State::Suspended));
    lemma_single_active(s.suspend());
}

} // verus!
