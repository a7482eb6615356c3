//! One queue, served first in, first out.

use vstd::prelude::*;
use std::collections::VecDeque;
use crate::algorithm::{Algorithm, ReadyModel};

verus! {

/// The policy with one queue, served first in, first out.
pub struct RoundRobin {
    pub rqueue: VecDeque<usize>,
    /// Set by `notify` while the thread sleeps.
    pub flag: bool,
    /// Whether the thread sleeps until it is notified.
    pub suspend: bool,
}

impl RoundRobin {
    /// A policy with nothing queued.
    pub fn new() -> (r: Self)
        ensures
            r.wf(),
            r.model() == ReadyModel::empty(),
            !r.flag,
            !r.suspend,
    {
        RoundRobin { rqueue: VecDeque::new(), flag: false, suspend: false }
    }
}

impl Algorithm for RoundRobin {
    open spec fn wf(&self) -> bool {
        true
    }

    open spec fn model(&self) -> ReadyModel {
        ReadyModel { shared: Seq::empty(), local: self.rqueue@ }
    }

    open spec fn spreads(&self) -> bool {
        false
    }

    open spec fn steals(&self) -> bool {
        false
    }

    open spec fn parked(&self) -> bool {
        self.suspend
    }

    fn is_stealing(&self) -> (r: bool) {
        false
    }

    fn awakened(&mut self, ctx: usize, pinned: bool)
        ensures
            final(self).flag == old(self).flag,
    {
        self.rqueue.push_back(ctx);
    }

    fn pick_next(&mut self) -> (r: Option<usize>)
        ensures
            final(self).flag == old(self).flag,
    {
        let r = self.rqueue.pop_front();
        proof {
            if old(self).rqueue@.len() > 0 {
                assert(self.rqueue@ =~= old(self).rqueue@.drop_first());
            }
        }
        r
    }

    fn notify(&mut self) -> (signal: bool)
        ensures
            final(self).flag == (old(self).flag || old(self).suspend),
    {
        if self.suspend {
            self.flag = true;
        }
        self.suspend
    }

    fn steal(&mut self) -> (r: Option<usize>)
        ensures
            r.is_none(),
            *final(self) == *old(self),
    {
        None
    }
}

} // verus!
