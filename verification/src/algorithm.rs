//! Scheduling policies: where an awakened context is queued and which
//! context runs next.

use vstd::prelude::*;

pub mod round_robin;
pub mod shared_work;
pub mod work_stealing;

verus! {

/// What a policy holds, as two queues of context ids. `shared` is served
/// first; a policy with a single queue keeps `shared` empty.
pub struct ReadyModel {
    pub shared: Seq<usize>,
    pub local: Seq<usize>,
}

impl ReadyModel {
    /// The model with nothing queued.
    pub open spec fn empty() -> ReadyModel {
        ReadyModel { shared: Seq::empty(), local: Seq::empty() }
    }

    /// The contexts in the order in which they will be picked.
    pub open spec fn order(self) -> Seq<usize> {
        self.shared + self.local
    }

    /// Whether `ctx` is queued.
    pub open spec fn contains(self, ctx: usize) -> bool {
        self.order().contains(ctx)
    }

    /// The model after `ctx` was queued at the back of one of the queues.
    pub open spec fn push(self, ctx: usize, to_shared: bool) -> ReadyModel {
        if to_shared {
            ReadyModel { shared: self.shared.push(ctx), local: self.local }
        } else {
            ReadyModel { shared: self.shared, local: self.local.push(ctx) }
        }
    }

    /// The context that is picked next, if there is one.
    pub open spec fn front(self) -> Option<usize> {
        if self.shared.len() > 0 {
            Some(self.shared[0])
        } else if self.local.len() > 0 {
            Some(self.local[0])
        } else {
            None
        }
    }

    /// The model after the front context left; an empty model stays empty.
    pub open spec fn pop(self) -> ReadyModel {
        if self.shared.len() > 0 {
            ReadyModel { shared: self.shared.drop_first(), local: self.local }
        } else if self.local.len() > 0 {
            ReadyModel { shared: self.shared, local: self.local.drop_first() }
        } else {
            self
        }
    }
}

/// The front of a model is the head of its order, and popping drops it.
pub proof fn lemma_front_is_head(m: ReadyModel)
    ensures
        m.front().is_none() <==> m.order().len() == 0,
        m.front().is_some() ==> m.front() == Some(m.order()[0]),
        m.order().len() > 0 ==> m.pop().order() == m.order().drop_first(),
        m.order().len() == 0 ==> m.pop() == m,
{
    if m.shared.len() > 0 {
        assert(m.pop().order() =~= m.order().drop_first());
    } else if m.local.len() > 0 {
        assert(m.shared =~= Seq::empty());
        assert(m.pop().order() =~= m.order().drop_first());
    }
}

/// Pushing appends to the order when the policy keeps one queue, and in
/// every case adds exactly the pushed context.
pub proof fn lemma_push_order(m: ReadyModel, ctx: usize, to_shared: bool)
    ensures
        m.push(ctx, to_shared).order() == m.order().insert(
            if to_shared {
                m.shared.len() as int
            } else {
                m.order().len() as int
            },
            ctx,
        ),
        forall|c: usize| #[trigger] m.push(ctx, to_shared).contains(c) <==> (c == ctx || m.contains(c)),
{
    let at = if to_shared {
        m.shared.len() as int
    } else {
        m.order().len() as int
    };
    assert(m.push(ctx, to_shared).order() =~= m.order().insert(at, ctx));
    assert forall|c: usize| #[trigger] m.push(ctx, to_shared).contains(c) <==> (c == ctx || m.contains(c)) by {
        let n = m.push(ctx, to_shared).order();
        let o = m.order();
        if n.contains(c) {
            let i = choose|i: int| 0 <= i < n.len() && n[i] == c;
            if i < at {
                assert(o[i] == c);
            } else if i > at {
                assert(o[i - 1] == c);
            }
        }
        if c == ctx {
            assert(n[at] == c);
        }
        if o.contains(c) {
            let i = choose|i: int| 0 <= i < o.len() && o[i] == c;
            if i < at {
                assert(n[i] == c);
            } else {
                assert(n[i + 1] == c);
            }
        }
    }
}

/// A scheduling policy. The scheduler tells it which contexts became
/// runnable and asks it which one to run.
pub trait Algorithm {
    /// The policy's own invariant.
    spec fn wf(&self) -> bool;

    /// The queued contexts.
    spec fn model(&self) -> ReadyModel;

    /// Whether contexts other than the main and the dispatcher context are
    /// queued in `shared`.
    spec fn spreads(&self) -> bool;

    /// Whether peers may take contexts from this policy.
    spec fn steals(&self) -> bool;

    /// Whether the thread of this policy sleeps and waits for `notify`.
    spec fn parked(&self) -> bool;

    /// Whether idle peers may take work from this policy.
    fn is_stealing(&self) -> (r: bool)
        ensures
            r == self.steals(),
    ;

    /// Queues a context that became runnable. `pinned` is set for the main
    /// and the dispatcher context, which never leave their scheduler.
    fn awakened(&mut self, ctx: usize, pinned: bool)
        requires
            old(self).wf(),
        ensures
            final(self).wf(),
            final(self).model() == old(self).model().push(ctx, old(self).spreads() && !pinned),
            final(self).spreads() == old(self).spreads(),
            final(self).steals() == old(self).steals(),
            final(self).parked() == old(self).parked(),
    ;

    /// Takes the context that runs next; `None` when nothing is queued.
    fn pick_next(&mut self) -> (r: Option<usize>)
        requires
            old(self).wf(),
        ensures
            final(self).wf(),
            r == old(self).model().front(),
            final(self).model() == old(self).model().pop(),
            final(self).spreads() == old(self).spreads(),
            final(self).steals() == old(self).steals(),
            final(self).parked() == old(self).parked(),
    ;

    /// Tells the policy that work arrived from outside. The result says
    /// whether a sleeping thread has to be signalled.
    fn notify(&mut self) -> (signal: bool)
        requires
            old(self).wf(),
        ensures
            final(self).wf(),
            signal == old(self).parked(),
            final(self).model() == old(self).model(),
            final(self).spreads() == old(self).spreads(),
            final(self).steals() == old(self).steals(),
            final(self).parked() == old(self).parked(),
    ;

    /// Hands the front context to a peer, or nothing. A policy that does
    /// not steal hands out nothing; a policy that steals says itself which
    /// contexts it keeps.
    fn steal(&mut self) -> (r: Option<usize>)
        requires
            old(self).wf(),
        ensures
            final(self).wf(),
            r.is_some() ==> old(self).steals() && r == old(self).model().front(),
            r.is_some() ==> final(self).model() == old(self).model().pop(),
            r.is_none() ==> final(self).model() == old(self).model(),
            !old(self).steals() ==> r.is_none(),
            final(self).spreads() == old(self).spreads(),
            final(self).steals() == old(self).steals(),
            final(self).parked() == old(self).parked(),
    ;
}

} // verus!
