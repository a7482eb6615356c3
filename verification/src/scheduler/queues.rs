//! How the parts of the scheduler's invariant follow a change of the
//! records or of one queue.

use vstd::prelude::*;
use crate::context::{Context, State};
use crate::scheduler::model::{due, holds_exactly, remote_ok, sleepers_ok, workers_ok};
use crate::seq_util::{lemma_insert_fresh, lemma_remove_at, lemma_skip, lemma_without, without};

verus! {

/// A fiber is in a queue that holds exactly one state if and only if it
/// is in that state.
pub proof fn lemma_exact_member(records: Seq<Context>, queue: Seq<usize>, state: State, c: usize)
    requires
        holds_exactly(records, queue, state),
    ensures
        queue.contains(c) <==> (c < records.len() && records[c as int].state == state),
{
    reveal(holds_exactly);
    if queue.contains(c) {
        let i = choose|i: int| 0 <= i < queue.len() && queue[i] == c;
        assert(queue[i] < records.len());
    }
    if c < records.len() && records[c as int].state == state {
        assert(queue.contains(c as int as usize));
    }
}

/// The queue stays right when no fiber enters or leaves its state.
pub proof fn lemma_exact_kept(a: Seq<Context>, b: Seq<Context>, queue: Seq<usize>, state: State)
    requires
        holds_exactly(a, queue, state),
        a.len() <= b.len() <= usize::MAX,
        forall|c: int|
            0 <= c < b.len() ==> (((#[trigger] b[c]).state == state) <==> (c < a.len()
                && a[c].state == state)),
    ensures
        holds_exactly(b, queue, state),
{
    reveal(holds_exactly);
    assert forall|i: int| 0 <= i < queue.len() implies (#[trigger] queue[i]) < b.len()
        && b[queue[i] as int].state == state by {
        assert(a[queue[i] as int].state == state);
    }
    assert forall|c: int| 0 <= c < b.len() && (#[trigger] b[c]).state == state implies queue.contains(
        c as usize,
    ) by {
        assert(a[c].state == state);
    }
}

/// The queue stays right when the fiber that enters the state is inserted.
pub proof fn lemma_exact_insert(
    a: Seq<Context>,
    b: Seq<Context>,
    queue: Seq<usize>,
    at: int,
    x: usize,
    state: State,
)
    requires
        holds_exactly(a, queue, state),
        0 <= at <= queue.len(),
        x < a.len(),
        a[x as int].state != state,
        b.len() == a.len(),
        b[x as int].state == state,
        forall|c: int|
            0 <= c < a.len() && c != x ==> (((#[trigger] b[c]).state == state) <==> a[c].state
                == state),
    ensures
        holds_exactly(b, queue.insert(at, x), state),
        forall|c: usize| #[trigger] queue.insert(at, x).contains(c) <==> (c == x || queue.contains(c)),
{
    lemma_exact_member(a, queue, state, x);
    reveal(holds_exactly);
    lemma_insert_fresh(queue, at, x);
    let n = queue.insert(at, x);
    assert forall|i: int| 0 <= i < n.len() implies (#[trigger] n[i]) < b.len() && b[n[i] as int].state
        == state by {
        if i < at {
            assert(n[i] == queue[i]);
            assert(queue.contains(queue[i]));
            assert(a[queue[i] as int].state == state);
        } else if i > at {
            assert(n[i] == queue[i - 1]);
            assert(queue.contains(queue[i - 1]));
            assert(a[queue[i - 1] as int].state == state);
        }
    }
    assert forall|c: int| 0 <= c < b.len() && (#[trigger] b[c]).state == state implies n.contains(
        c as usize,
    ) by {
        if c != x {
            assert(a[c].state == state);
            assert(queue.contains(c as usize));
        }
    }
}

/// The queue stays right when the fiber that leaves the state is taken
/// out.
pub proof fn lemma_exact_remove(
    a: Seq<Context>,
    b: Seq<Context>,
    queue: Seq<usize>,
    at: int,
    state: State,
)
    requires
        holds_exactly(a, queue, state),
        0 <= at < queue.len(),
        b.len() == a.len(),
        b[queue[at] as int].state != state,
        forall|c: int|
            0 <= c < a.len() && c != queue[at] ==> (((#[trigger] b[c]).state == state)
                <==> a[c].state == state),
    ensures
        holds_exactly(b, queue.remove(at), state),
        queue[at] < a.len(),
        a[queue[at] as int].state == state,
        forall|c: usize|
            #[trigger] queue.remove(at).contains(c) <==> (c != queue[at] && queue.contains(c)),
{
    reveal(holds_exactly);
    lemma_remove_at(queue, at);
    let x = queue[at];
    let n = queue.remove(at);
    assert forall|i: int| 0 <= i < n.len() implies (#[trigger] n[i]) < b.len() && b[n[i] as int].state
        == state by {
        assert(n.contains(n[i]));
        if i < at {
            assert(n[i] == queue[i]);
            assert(a[queue[i] as int].state == state);
        } else {
            assert(n[i] == queue[i + 1]);
            assert(a[queue[i + 1] as int].state == state);
        }
    }
    assert forall|c: int| 0 <= c < b.len() && (#[trigger] b[c]).state == state implies n.contains(
        c as usize,
    ) by {
        assert(a[c].state == state);
        assert(queue.contains(c as usize));
    }
}

/// The empty queue is right when no fiber is in the state.
pub proof fn lemma_exact_empty(b: Seq<Context>, state: State)
    requires
        b.len() <= usize::MAX,
        forall|c: int| 0 <= c < b.len() ==> (#[trigger] b[c]).state != state,
    ensures
        holds_exactly(b, Seq::empty(), state),
{
    reveal(holds_exactly);
}

/// A fiber in the sleep queue is known and suspended.
pub proof fn lemma_sleepers_member(records: Seq<Context>, queue: Seq<usize>, c: usize)
    requires
        sleepers_ok(records, queue),
        queue.contains(c),
    ensures
        c < records.len(),
        records[c as int].state == State::Suspended,
{
    reveal(sleepers_ok);
    let i = choose|i: int| 0 <= i < queue.len() && queue[i] == c;
    assert(queue[i] < records.len());
}

/// The sleep queue stays right when every suspended fiber stays suspended
/// and keeps its deadline.
pub proof fn lemma_sleepers_kept(a: Seq<Context>, b: Seq<Context>, queue: Seq<usize>)
    requires
        sleepers_ok(a, queue),
        a.len() <= b.len(),
        forall|c: int|
            0 <= c < a.len() && a[c].state == State::Suspended ==> (#[trigger] b[c]).state
                == State::Suspended && b[c].tp == a[c].tp,
    ensures
        sleepers_ok(b, queue),
{
    reveal(sleepers_ok);
    assert forall|i: int| 0 <= i < queue.len() implies (#[trigger] queue[i]) < b.len()
        && b[queue[i] as int].state == State::Suspended by {
        assert(a[queue[i] as int].state == State::Suspended);
    }
    assert forall|i: int, j: int| 0 <= i < j < queue.len() implies b[(#[trigger] queue[i]) as int].tp
        <= b[(#[trigger] queue[j]) as int].tp by {
        assert(a[queue[i] as int].state == State::Suspended);
        assert(a[queue[j] as int].state == State::Suspended);
        assert(b[queue[i] as int].tp == a[queue[i] as int].tp);
        assert(b[queue[j] as int].tp == a[queue[j] as int].tp);
    }
}

/// The sleep queue stays right when a fiber is taken out of it.
pub proof fn lemma_sleepers_without(a: Seq<Context>, b: Seq<Context>, queue: Seq<usize>, x: usize)
    requires
        sleepers_ok(a, queue),
        a.len() == b.len(),
        forall|c: int|
            0 <= c < a.len() && c != x && a[c].state == State::Suspended ==> (#[trigger] b[c]).state
                == State::Suspended && b[c].tp == a[c].tp,
    ensures
        sleepers_ok(b, without(queue, x)),
{
    reveal(sleepers_ok);
    lemma_without(queue, x);
    let n = without(queue, x);
    if queue.contains(x) {
        let k = queue.index_of(x);
        assert forall|i: int| 0 <= i < n.len() implies (#[trigger] n[i]) < b.len() && b[n[i] as int].state
            == State::Suspended by {
            let o = if i < k {
                i
            } else {
                i + 1
            };
            assert(n[i] == queue[o]);
            assert(n.contains(n[i]));
            assert(a[queue[o] as int].state == State::Suspended);
        }
        assert forall|i: int, j: int| 0 <= i < j < n.len() implies b[(#[trigger] n[i]) as int].tp
            <= b[(#[trigger] n[j]) as int].tp by {
            let oi = if i < k {
                i
            } else {
                i + 1
            };
            let oj = if j < k {
                j
            } else {
                j + 1
            };
            assert(n[i] == queue[oi]);
            assert(n[j] == queue[oj]);
            assert(n.contains(n[i]));
            assert(n.contains(n[j]));
            assert(a[queue[oi] as int].state == State::Suspended);
            assert(a[queue[oj] as int].state == State::Suspended);
            assert(a[queue[oi] as int].tp <= a[queue[oj] as int].tp);
        }
    } else {
        assert forall|i: int| 0 <= i < n.len() implies (#[trigger] n[i]) < b.len() && b[n[i] as int].state
            == State::Suspended by {
            assert(queue.contains(queue[i]));
            assert(a[queue[i] as int].state == State::Suspended);
        }
        assert forall|i: int, j: int| 0 <= i < j < n.len() implies b[(#[trigger] n[i]) as int].tp
            <= b[(#[trigger] n[j]) as int].tp by {
            assert(queue.contains(queue[i]));
            assert(queue.contains(queue[j]));
            assert(a[queue[i] as int].state == State::Suspended);
            assert(a[queue[j] as int].state == State::Suspended);
            assert(a[queue[i] as int].tp <= a[queue[j] as int].tp);
        }
    }
}

/// `due` counts a prefix: every fiber in it is due, and the fiber behind
/// it, if there is one, is not.
pub proof fn lemma_due(records: Seq<Context>, queue: Seq<usize>, now: u64)
    ensures
        0 <= due(records, queue, now) <= queue.len(),
        forall|i: int|
            0 <= i < due(records, queue, now) ==> (#[trigger] queue[i]) < records.len()
                && records[queue[i] as int].tp <= now,
        due(records, queue, now) < queue.len() ==> !(queue[due(records, queue, now)] < records.len()
            && records[queue[due(records, queue, now)] as int].tp <= now),
    decreases queue.len(),
{
    if queue.len() > 0 && queue[0] < records.len() && records[queue[0] as int].tp <= now {
        let rest = queue.drop_first();
        lemma_due(records, rest, now);
        let d = due(records, rest, now);
        assert forall|i: int| 0 <= i < d + 1 implies (#[trigger] queue[i]) < records.len()
            && records[queue[i] as int].tp <= now by {
            if i > 0 {
                assert(queue[i] == rest[i - 1]);
            }
        }
        if d + 1 < queue.len() {
            assert(queue[d + 1] == rest[d]);
        }
    }
}

/// The sleep queue stays right when a fiber that falls asleep is inserted
/// behind the fibers whose deadlines are not later than its own.
pub proof fn lemma_sleepers_insert(
    a: Seq<Context>,
    b: Seq<Context>,
    queue: Seq<usize>,
    x: usize,
    deadline: u64,
)
    requires
        sleepers_ok(a, queue),
        x < a.len(),
        a[x as int].state != State::Suspended,
        b.len() == a.len(),
        b[x as int].state == State::Suspended,
        b[x as int].tp == deadline,
        forall|c: int| 0 <= c < a.len() && c != x ==> (#[trigger] b[c]) == a[c],
    ensures
        0 <= due(a, queue, deadline) <= queue.len(),
        sleepers_ok(b, queue.insert(due(a, queue, deadline), x)),
{
    if queue.contains(x) {
        lemma_sleepers_member(a, queue, x);
    }
    reveal(sleepers_ok);
    let slot = due(a, queue, deadline);
    lemma_due(a, queue, deadline);
    lemma_insert_fresh(queue, slot, x);
    let n = queue.insert(slot, x);
    assert forall|i: int| 0 <= i < n.len() implies (#[trigger] n[i]) < b.len() && b[n[i] as int].state
        == State::Suspended by {
        if i < slot {
            assert(n[i] == queue[i]);
            assert(queue.contains(queue[i]));
        } else if i > slot {
            assert(n[i] == queue[i - 1]);
            assert(queue.contains(queue[i - 1]));
        }
    }
    assert forall|i: int, j: int| 0 <= i < j < n.len() implies b[(#[trigger] n[i]) as int].tp <= b[(
    #[trigger] n[j]) as int].tp by {
        let oi = if i < slot {
            i
        } else {
            i - 1
        };
        let oj = if j < slot {
            j
        } else {
            j - 1
        };
        if i == slot {
            assert(n[j] == queue[oj]);
            assert(queue.contains(queue[oj]));
            assert(queue.contains(queue[slot]));
            if slot < oj {
                assert(a[queue[slot] as int].tp <= a[queue[oj] as int].tp);
            }
        } else if j == slot {
            assert(n[i] == queue[oi]);
            assert(queue.contains(queue[oi]));
        } else {
            assert(n[i] == queue[oi]);
            assert(n[j] == queue[oj]);
            assert(queue.contains(queue[oi]));
            assert(queue.contains(queue[oj]));
            assert(a[queue[oi] as int].tp <= a[queue[oj] as int].tp);
        }
    }
}

/// The sleep queue stays right when a prefix of it is dropped.
pub proof fn lemma_sleepers_skip(a: Seq<Context>, queue: Seq<usize>, k: int)
    requires
        sleepers_ok(a, queue),
        0 <= k <= queue.len(),
    ensures
        sleepers_ok(a, queue.skip(k)),
{
    reveal(sleepers_ok);
    lemma_skip(queue, k);
    let n = queue.skip(k);
    assert forall|i: int| 0 <= i < n.len() implies (#[trigger] n[i]) < a.len() && a[n[i] as int].state
        == State::Suspended by {
        assert(n[i] == queue[i + k]);
    }
    assert forall|i: int, j: int| 0 <= i < j < n.len() implies a[(#[trigger] n[i]) as int].tp <= a[(
    #[trigger] n[j]) as int].tp by {
        assert(n[i] == queue[i + k]);
        assert(n[j] == queue[j + k]);
        assert(a[queue[i + k] as int].tp <= a[queue[j + k] as int].tp);
    }
}

/// A fiber is in the worker queue if and only if it is a worker that has
/// not ended.
pub proof fn lemma_workers_member(
    records: Seq<Context>,
    queue: Seq<usize>,
    main: usize,
    dispatcher: usize,
    c: usize,
)
    requires
        workers_ok(records, queue, main, dispatcher),
    ensures
        queue.contains(c) <==> (c < records.len() && c != main && c != dispatcher
            && !records[c as int].ended()),
{
    reveal(workers_ok);
    if queue.contains(c) {
        let i = choose|i: int| 0 <= i < queue.len() && queue[i] == c;
        assert(queue[i] < records.len());
    }
    if c < records.len() && c != main && c != dispatcher && !records[c as int].ended() {
        assert(queue.contains(c as int as usize));
    }
}

/// The worker queue stays right when no fiber ends.
pub proof fn lemma_workers_kept(
    a: Seq<Context>,
    b: Seq<Context>,
    queue: Seq<usize>,
    main: usize,
    dispatcher: usize,
)
    requires
        workers_ok(a, queue, main, dispatcher),
        a.len() == b.len(),
        forall|c: int| 0 <= c < a.len() ==> (#[trigger] b[c]).ended() == a[c].ended(),
    ensures
        workers_ok(b, queue, main, dispatcher),
{
    reveal(workers_ok);
    assert forall|i: int| 0 <= i < queue.len() implies (#[trigger] queue[i]) < b.len() && queue[i]
        != main && queue[i] != dispatcher && !b[queue[i] as int].ended() by {
        assert(!a[queue[i] as int].ended());
    }
    assert forall|c: int|
        0 <= c < b.len() && c != main && c != dispatcher && !(#[trigger] b[c]).ended() implies queue.contains(
        c as usize,
    ) by {
        assert(!a[c].ended());
    }
}

/// The worker queue stays right when a new worker enters it.
pub proof fn lemma_workers_grown(
    a: Seq<Context>,
    b: Seq<Context>,
    queue: Seq<usize>,
    main: usize,
    dispatcher: usize,
)
    requires
        workers_ok(a, queue, main, dispatcher),
        a.len() < usize::MAX,
        b.len() == a.len() + 1,
        main < a.len(),
        dispatcher < a.len(),
        !b[a.len() as int].ended(),
        forall|c: int| 0 <= c < a.len() ==> (#[trigger] b[c]).ended() == a[c].ended(),
    ensures
        workers_ok(b, seq![a.len() as usize] + queue, main, dispatcher),
{
    lemma_workers_member(a, queue, main, dispatcher, a.len() as usize);
    reveal(workers_ok);
    let id = a.len() as usize;
    lemma_insert_fresh(queue, 0, id);
    let n = seq![id] + queue;
    assert(n =~= queue.insert(0, id));
    assert forall|i: int| 0 <= i < n.len() implies (#[trigger] n[i]) < b.len() && n[i] != main && n[i]
        != dispatcher && !b[n[i] as int].ended() by {
        if i > 0 {
            assert(n[i] == queue[i - 1]);
            assert(!a[queue[i - 1] as int].ended());
        }
    }
    assert forall|c: int|
        0 <= c < b.len() && c != main && c != dispatcher && !(#[trigger] b[c]).ended() implies n.contains(
        c as usize,
    ) by {
        if c < a.len() {
            assert(!a[c].ended());
            assert(queue.contains(c as usize));
        }
    }
}

/// The worker queue stays right when the fiber that ends is taken out.
pub proof fn lemma_workers_without(
    a: Seq<Context>,
    b: Seq<Context>,
    queue: Seq<usize>,
    x: usize,
    main: usize,
    dispatcher: usize,
)
    requires
        workers_ok(a, queue, main, dispatcher),
        a.len() == b.len(),
        x < a.len(),
        b[x as int].ended(),
        forall|c: int| 0 <= c < a.len() && c != x ==> (#[trigger] b[c]).ended() == a[c].ended(),
    ensures
        workers_ok(b, without(queue, x), main, dispatcher),
{
    reveal(workers_ok);
    lemma_without(queue, x);
    let n = without(queue, x);
    assert forall|i: int| 0 <= i < n.len() implies (#[trigger] n[i]) < b.len() && n[i] != main && n[i]
        != dispatcher && !b[n[i] as int].ended() by {
        assert(n.contains(n[i]));
        assert(queue.contains(n[i]));
        let j = choose|j: int| 0 <= j < queue.len() && queue[j] == n[i];
        assert(!a[queue[j] as int].ended());
    }
    assert forall|c: int|
        0 <= c < b.len() && c != main && c != dispatcher && !(#[trigger] b[c]).ended() implies n.contains(
        c as usize,
    ) by {
        assert(!a[c].ended());
        assert(queue.contains(c as usize));
    }
}

/// The queue of remote wakes stays right when fibers are added to the
/// scheduler.
pub proof fn lemma_remote_grown(known: nat, more: nat, queue: Seq<usize>)
    requires
        remote_ok(known, queue),
        known <= more,
    ensures
        remote_ok(more, queue),
{
    reveal(remote_ok);
}

/// The queue of remote wakes stays right when a known fiber that is not
/// in it is put in front.
pub proof fn lemma_remote_pushed(known: nat, queue: Seq<usize>, x: usize)
    requires
        remote_ok(known, queue),
        x < known,
        !queue.contains(x),
    ensures
        remote_ok(known, seq![x] + queue),
{
    reveal(remote_ok);
    lemma_insert_fresh(queue, 0, x);
    let n = seq![x] + queue;
    assert(n =~= queue.insert(0, x));
    assert forall|i: int| 0 <= i < n.len() implies (#[trigger] n[i]) < known by {
        if i > 0 {
            assert(n[i] == queue[i - 1]);
        }
    }
}

/// The empty queue of remote wakes is right.
pub proof fn lemma_remote_empty(known: nat)
    ensures
        remote_ok(known, Seq::empty()),
{
    reveal(remote_ok);
}

/// No queue of a scheduler holds a fiber twice.
pub proof fn lemma_queues_distinct(
    records: Seq<Context>,
    queue: Seq<usize>,
    state: State,
    sleep: Seq<usize>,
    worker: Seq<usize>,
    main: usize,
    dispatcher: usize,
    remote: Seq<usize>,
)
    requires
        holds_exactly(records, queue, state),
        sleepers_ok(records, sleep),
        workers_ok(records, worker, main, dispatcher),
        remote_ok(records.len(), remote),
    ensures
        queue.no_duplicates(),
        sleep.no_duplicates(),
        worker.no_duplicates(),
        remote.no_duplicates(),
{
    reveal(holds_exactly);
    reveal(sleepers_ok);
    reveal(workers_ok);
    reveal(remote_ok);
}

} // verus!
