//! Two queues: the main and the dispatcher context wait in a local one,
//! every other context in a shared one that is served first.

use vstd::prelude::*;
use std::collections::VecDeque;
use crate::algorithm::{Algorithm, ReadyModel};

verus! {

/// The policy with a shared queue for workers and a local queue for the
/// main and the dispatcher fiber.
pub struct SharedWork {
    /// Holds the main and the dispatcher context.
    pub lqueue: VecDeque<usize>,
    /// Holds every other context.
    pub rqueue: VecDeque<usize>,
    /// Set by `notify` while the thread sleeps.
    pub flag: bool,
    /// Whether the thread sleeps until it is notified.
    pub suspend: bool,
}

impl SharedWork {
    /// A policy with nothing queued.
    pub fn new() -> (r: Self)
        ensures
            r.wf(),
            r.model() == ReadyModel::empty(),
            !r.flag,
            !r.suspend,
    {
        SharedWork { lqueue: VecDeque::new(), rqueue: VecDeque::new(), flag: false, suspend: false }
    }
}

impl Algorithm for SharedWork {
    open spec fn wf(&self) -> bool {
        true
    }

    open spec fn model(&self) -> ReadyModel {
        ReadyModel { shared: self.rqueue@, local: self.lqueue@ }
    }

    open spec fn spreads(&self) -> bool {
        true
    }

    open spec fn steals(&self) -> bool {
        false
    }

    open spec fn parked(&self) -> bool {
        self.suspend
    }

    fn is_stealing(&self) -> (r: bool) {
        false
    }

    fn awakened(&mut self, ctx: usize, pinned: bool)
        ensures
            final(self).flag == old(self).flag,
    {
        if pinned {
            self.lqueue.push_back(ctx);
        } else {
            self.rqueue.push_back(ctx);
        }
    }

    fn pick_next(&mut self) -> (r: Option<usize>)
        ensures
            final(self).flag == old(self).flag,
    {
        if self.rqueue.len() > 0 {
            let r = self.rqueue.pop_front();
            proof {
                assert(self.rqueue@ =~= old(self).rqueue@.drop_first());
            }
            r
        } else {
            let r = self.lqueue.pop_front();
            proof {
                if old(self).lqueue@.len() > 0 {
                    assert(self.lqueue@ =~= old(self).lqueue@.drop_first());
                }
            }
            r
        }
    }

    fn notify(&mut self) -> (signal: bool)
        ensures
            final(self).flag == (old(self).flag || old(self).suspend),
    {
        if self.suspend {
            self.flag = true;
        }
        self.suspend
    }

    fn steal(&mut self) -> (r: Option<usize>)
        ensures
            r.is_none(),
            *final(self) == *old(self),
    {
        None
    }
}

} // verus!
