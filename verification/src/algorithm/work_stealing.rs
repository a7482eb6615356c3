//! One queue per scheduler, from whose front idle peers may take work.

use vstd::prelude::*;
use std::collections::VecDeque;
use crate::algorithm::{Algorithm, ReadyModel};

verus! {

/// The policy of one scheduler among peers that steal from each other.
pub struct WorkStealing {
    /// Place of this scheduler in the registry of its peers.
    pub id: usize,
    /// The queued contexts.
    pub rqueue: VecDeque<usize>,
    /// For each queued context, whether it is the main or the dispatcher
    /// context of this scheduler.
    pub pinned: VecDeque<bool>,
    /// Whether the thread sleeps until it is notified.
    pub suspend: bool,
}

impl WorkStealing {
    /// The policy of scheduler `id`, with nothing queued.
    pub fn new(id: usize) -> (r: Self)
        ensures
            r.wf(),
            r.id == id,
            r.model() == ReadyModel::empty(),
            !r.suspend,
    {
        WorkStealing { id, rqueue: VecDeque::new(), pinned: VecDeque::new(), suspend: false }
    }

    /// Whether the front context may be handed to a peer.
    pub open spec fn front_stealable(&self) -> bool {
        self.rqueue@.len() > 0 && !self.pinned@[0]
    }

    /// Whether nothing is queued.
    pub fn is_empty(&self) -> (r: bool)
        requires
            self.wf(),
        ensures
            r == (self.model().order().len() == 0),
    {
        proof {
            assert(self.model().order() =~= self.rqueue@);
        }
        self.rqueue.len() == 0
    }
}

impl Algorithm for WorkStealing {
    open spec fn wf(&self) -> bool {
        self.rqueue@.len() == self.pinned@.len()
    }

    open spec fn model(&self) -> ReadyModel {
        ReadyModel { shared: Seq::empty(), local: self.rqueue@ }
    }

    open spec fn spreads(&self) -> bool {
        false
    }

    open spec fn steals(&self) -> bool {
        true
    }

    open spec fn parked(&self) -> bool {
        self.suspend
    }

    fn is_stealing(&self) -> (r: bool) {
        true
    }

    fn awakened(&mut self, ctx: usize, pinned: bool)
        ensures
            final(self).pinned@ == old(self).pinned@.push(pinned),
            final(self).id == old(self).id,
    {
        self.rqueue.push_back(ctx);
        self.pinned.push_back(pinned);
    }

    fn pick_next(&mut self) -> (r: Option<usize>)
        ensures
            old(self).rqueue@.len() > 0 ==> final(self).pinned@ == old(self).pinned@.drop_first(),
            old(self).rqueue@.len() == 0 ==> *final(self) == *old(self),
            final(self).id == old(self).id,
    {
        if self.rqueue.len() == 0 {
            return None;
        }
        let r = self.rqueue.pop_front();
        let _ = self.pinned.pop_front();
        proof {
            if old(self).rqueue@.len() > 0 {
                assert(self.rqueue@ =~= old(self).rqueue@.drop_first());
                assert(self.pinned@ =~= old(self).pinned@.drop_first());
            }
        }
        r
    }

    fn notify(&mut self) -> (signal: bool)
        ensures
            *final(self) == *old(self),
    {
        self.suspend
    }

    fn steal(&mut self) -> (r: Option<usize>)
        ensures
            r.is_some() <==> old(self).front_stealable(),
            r.is_some() ==> final(self).pinned@ == old(self).pinned@.drop_first(),
            r.is_none() ==> *final(self) == *old(self),
            final(self).id == old(self).id,
    {
        if self.rqueue.len() == 0 {
            return None;
        }
        if self.pinned[0] {
            return None;
        }
        let r = self.rqueue.pop_front();
        let _ = self.pinned.pop_front();
        proof {
            assert(self.rqueue@ =~= old(self).rqueue@.drop_first());
            assert(self.pinned@ =~= old(self).pinned@.drop_first());
        }
        r
    }
}

/// The peer that a draw selects for the scheduler `id`: the draws below
/// `id` name the peers before it, all others the peers behind it.
pub open spec fn spec_peer_of(draw: usize, id: usize) -> int {
    if draw >= id {
        draw + 1
    } else {
        draw as int
    }
}

/// Maps a draw among `size - 1` values to one of the peers of `id` among
/// `size` schedulers.
pub fn peer_of(draw: usize, id: usize, size: usize) -> (r: usize)
    requires
        id < size,
        draw < size - 1,
    ensures
        r == spec_peer_of(draw, id),
        r < size,
        r != id,
{
    if draw >= id {
        draw + 1
    } else {
        draw
    }
}

/// Draws a number below `high` from the generator of the thread.
///
/// Calls `rand::Rng::gen_range` on `rand::thread_rng()` with the bounds 0
/// and `high`. The contract claims only what holds of every draw: the
/// result lies below `high`. The call panics for an empty range, which the
/// precondition leaves out. The generator of a thread seeds itself from
/// the operating system when the thread first asks for it, and gives up
/// where the system has no entropy to offer.
#[verifier::external_body]
pub(crate) fn draw_below(high: usize) -> (r: usize)
    requires
        high > 0,
    ensures
        r < high,
{
    rand::Rng::gen_range(&mut rand::thread_rng(), 0usize, high)
}

/// The schedulers of a work-stealing runtime, each at the index that is
/// its id. Contexts are named by ids that all schedulers share.
pub struct Registry {
    pub peers: Vec<WorkStealing>,
}

/// What a scheduler gets and what is left when it takes the front context
/// of the queue `queue`, whose entries are pinned as `pinned` tells: nothing
/// from an empty queue or one with a pinned front.
pub open spec fn spec_steal(queue: Seq<usize>, pinned: Seq<bool>) -> (Option<usize>, Seq<usize>) {
    if queue.len() > 0 && !pinned[0] {
        (Some(queue[0]), queue.drop_first())
    } else {
        (None, queue)
    }
}

impl Registry {
    /// Every scheduler is well-formed and sits at the index that is its id.
    pub open spec fn wf(&self) -> bool {
        forall|i: int|
            0 <= i < self.peers@.len() ==> (#[trigger] self.peers@[i]).wf() && self.peers@[i].id
                == i
    }

    /// The queue of scheduler `i`.
    pub open spec fn queue(&self, i: int) -> Seq<usize> {
        self.peers@[i].rqueue@
    }

    /// All queues but that of scheduler `i` are as they were in `old`.
    pub open spec fn same_but(&self, old: &Registry, i: int) -> bool {
        &&& self.peers@.len() == old.peers@.len()
        &&& forall|j: int|
            0 <= j < self.peers@.len() && j != i ==> (#[trigger] self.peers@[j]) == old.peers@[j]
    }

    /// A registry of `count` schedulers with empty queues.
    pub fn new(count: usize) -> (r: Self)
        ensures
            r.wf(),
            r.peers@.len() == count,
            forall|i: int| 0 <= i < count ==> (#[trigger] r.queue(i)).len() == 0,
    {
        let mut peers: Vec<WorkStealing> = Vec::new();
        let mut i: usize = 0;
        while i < count
            invariant
                i <= count,
                peers@.len() == i,
                forall|j: int|
                    0 <= j < i ==> (#[trigger] peers@[j]).wf() && peers@[j].id == j
                        && peers@[j].rqueue@.len() == 0,
            decreases count - i,
        {
            peers.push(WorkStealing::new(i));
            i += 1;
        }
        Registry { peers }
    }

    /// Queues a context that became runnable on scheduler `id`.
    pub fn awakened(&mut self, id: usize, ctx: usize, pinned: bool)
        requires
            old(self).wf(),
            id < old(self).peers@.len(),
        ensures
            final(self).wf(),
            final(self).same_but(old(self), id as int),
            final(self).queue(id as int) == old(self).queue(id as int).push(ctx),
            final(self).peers@[id as int].pinned@ == old(self).peers@[id as int].pinned@.push(pinned),
    {
        self.peers[id].awakened(ctx, pinned);
    }

    /// Scheduler `thief` takes the front context of scheduler `victim`,
    /// unless that queue is empty or its front is pinned.
    pub fn steal_from(&mut self, victim: usize) -> (r: Option<usize>)
        requires
            old(self).wf(),
            victim < old(self).peers@.len(),
        ensures
            final(self).wf(),
            final(self).same_but(old(self), victim as int),
            r == spec_steal(
                old(self).queue(victim as int),
                old(self).peers@[victim as int].pinned@,
            ).0,
            final(self).queue(victim as int) == spec_steal(
                old(self).queue(victim as int),
                old(self).peers@[victim as int].pinned@,
            ).1,
            r.is_some() ==> final(self).peers@[victim as int].pinned@ == old(
                self,
            ).peers@[victim as int].pinned@.drop_first(),
            r.is_none() ==> final(self).peers@[victim as int] == old(self).peers@[victim as int],
    {
        let r = self.peers[victim].steal();
        proof {
            crate::algorithm::lemma_front_is_head(old(self).peers@[victim as int].model());
            assert(old(self).peers@[victim as int].model().order() =~= old(self).queue(
                victim as int,
            ));
            if r.is_some() {
                assert(self.queue(victim as int) =~= old(self).queue(victim as int).drop_first());
            }
        }
        r
    }

    /// Picks the context that scheduler `id` runs next: the front of its
    /// own queue or, where that queue is empty, what it can steal from one
    /// peer chosen at random. A scheduler without peers steals nothing.
    pub fn pick_next(&mut self, id: usize) -> (r: Option<usize>)
        requires
            old(self).wf(),
            id < old(self).peers@.len(),
        ensures
            final(self).wf(),
            final(self).peers@.len() == old(self).peers@.len(),
            old(self).queue(id as int).len() > 0 ==> {
                &&& r == Some(old(self).queue(id as int)[0])
                &&& final(self).queue(id as int) == old(self).queue(id as int).drop_first()
                &&& final(self).same_but(old(self), id as int)
            },
            old(self).queue(id as int).len() == 0 && old(self).peers@.len() == 1 ==> {
                &&& r.is_none()
                &&& final(self).peers@ == old(self).peers@
            },
            old(self).queue(id as int).len() == 0 && old(self).peers@.len() > 1 ==> exists|
                victim: int,
            |
                {
                    &&& 0 <= victim < old(self).peers@.len()
                    &&& victim != id
                    &&& final(self).same_but(old(self), victim)
                    &&& r == (#[trigger] spec_steal(
                        old(self).queue(victim),
                        old(self).peers@[victim].pinned@,
                    )).0
                    &&& final(self).queue(victim) == spec_steal(
                        old(self).queue(victim),
                        old(self).peers@[victim].pinned@,
                    ).1
                },
    {
        proof {
            crate::algorithm::lemma_front_is_head(old(self).peers@[id as int].model());
            assert(old(self).peers@[id as int].model().order() =~= old(self).queue(id as int));
        }
        let local = self.peers[id].pick_next();
        if local.is_some() {
            proof {
                assert(self.queue(id as int) =~= old(self).queue(id as int).drop_first());
            }
            return local;
        }
        let size = self.peers.len();
        if size == 1 {
            proof {
                assert(self.peers@[id as int] == old(self).peers@[id as int]);
                assert(self.peers@ =~= old(self).peers@);
            }
            return None;
        }
        let victim = peer_of(draw_below(size - 1), id, size);
        let ghost before = *self;
        let r = self.steal_from(victim);
        proof {
            assert(before.queue(victim as int) == old(self).queue(victim as int));
            assert(before.peers@[victim as int] == old(self).peers@[victim as int]);
            assert(before.peers@[id as int] == old(self).peers@[id as int]);
            assert(self.same_but(old(self), victim as int)) by {
                assert forall|j: int|
                    0 <= j < self.peers@.len() && j != victim implies (#[trigger] self.peers@[j])
                    == old(self).peers@[j] by {
                    assert(self.peers@[j] == before.peers@[j]);
                }
            }
            assert(r == spec_steal(
                old(self).queue(victim as int),
                old(self).peers@[victim as int].pinned@,
            ).0);
        }
        r
    }
}

} // verus!
