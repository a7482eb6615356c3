//! The parts of a pool of worker threads that share fibers through
//! lock-free deques: what each thread keeps for itself, where it looks for
//! work, and how the threads agree that none is left.

use vstd::prelude::*;
use crossbeam_deque::{Injector, Stealer, Worker};
use crate::algorithm::work_stealing::{draw_below, peer_of};

verus! {

/// The deque of one thread of the pool, from `crossbeam_deque`. Other
/// threads take from it through its stealers, so nothing is known about
/// what it holds.
#[verifier::external_type_specification]
#[verifier::external_body]
#[verifier::reject_recursive_types(T)]
pub struct ExWorker<T>(Worker<T>);

/// The handle through which other threads take from a deque, from
/// `crossbeam_deque`.
#[verifier::external_type_specification]
#[verifier::external_body]
#[verifier::reject_recursive_types(T)]
pub struct ExStealer<T>(Stealer<T>);

/// The queue that all threads of the pool share, from `crossbeam_deque`.
#[verifier::external_type_specification]
#[verifier::external_body]
#[verifier::reject_recursive_types(T)]
pub struct ExInjector<T>(Injector<T>);

/// What an attempt to take from a queue of another thread gave.
#[derive(Copy, Clone, PartialEq, Eq, Structural, Debug)]
pub enum Stolen {
    /// The queue was empty.
    Empty,
    /// This fiber was taken.
    Success(usize),
    /// Another thread was in the way: the attempt can be made again.
    Retry,
}

impl Stolen {
    /// What an attempt settles: the fiber that was taken, or none where
    /// the queue was empty. An attempt that has to be made again settles
    /// nothing.
    pub open spec fn spec_settled(self) -> Option<Option<usize>> {
        match self {
            Stolen::Empty => Some(None),
            Stolen::Success(id) => Some(Some(id)),
            Stolen::Retry => None,
        }
    }

    /// Decides what follows an attempt: `Some` of what the thread takes
    /// away from the queue, or `None` where the attempt has to be made
    /// again.
    pub fn settled(self) -> (r: Option<Option<usize>>)
        ensures
            r == self.spec_settled(),
    {
        match self {
            Stolen::Empty => Some(None),
            Stolen::Success(id) => Some(Some(id)),
            Stolen::Retry => None,
        }
    }
}

/// Takes a fiber from the own deque.
///
/// Calls `crossbeam_deque::Worker::pop`. Other threads may take from the
/// deque at any moment, so the contract promises nothing of the result.
#[verifier::external_body]
fn worker_pop(worker: &Worker<usize>) -> (r: Option<usize>) {
    worker.pop()
}

/// Moves a batch of fibers from the shared queue to the own deque and
/// takes one of them.
///
/// Calls `crossbeam_deque::Injector::steal_batch_and_pop`. How many fibers
/// move is left open by the crate and the queue is shared, so the contract
/// promises nothing of the result.
#[verifier::external_body]
fn injector_steal(injector: &Injector<usize>, dest: &Worker<usize>) -> (r: Stolen) {
    match injector.steal_batch_and_pop(dest) {
        crossbeam_deque::Steal::Empty => Stolen::Empty,
        crossbeam_deque::Steal::Success(id) => Stolen::Success(id),
        crossbeam_deque::Steal::Retry => Stolen::Retry,
    }
}

/// Moves a batch of fibers from the deque of a peer to the own deque and
/// takes one of them.
///
/// Calls `crossbeam_deque::Stealer::steal_batch_and_pop`. How many fibers
/// move is left open by the crate and the deque is shared, so the contract
/// promises nothing of the result.
#[verifier::external_body]
fn stealer_steal(stealer: &Stealer<usize>, dest: &Worker<usize>) -> (r: Stolen) {
    match stealer.steal_batch_and_pop(dest) {
        crossbeam_deque::Steal::Empty => Stolen::Empty,
        crossbeam_deque::Steal::Success(id) => Stolen::Success(id),
        crossbeam_deque::Steal::Retry => Stolen::Retry,
    }
}

/// Number of fibers that a segment holds at most.
pub const SEGMENT_SIZE: usize = 64;

/// The fibers that a thread keeps for itself: a stack of at most
/// `SEGMENT_SIZE` ids.
pub struct Segment {
    pub data: Vec<usize>,
}

impl View for Segment {
    type V = Seq<usize>;

    open spec fn view(&self) -> Seq<usize> {
        self.data@
    }
}

impl Segment {
    /// An empty segment.
    pub fn new() -> (r: Segment)
        ensures
            r@ == Seq::<usize>::empty(),
    {
        Segment { data: Vec::with_capacity(SEGMENT_SIZE) }
    }

    /// An empty segment that reserves no memory.
    pub fn empty() -> (r: Segment)
        ensures
            r@ == Seq::<usize>::empty(),
    {
        Segment { data: Vec::new() }
    }

    /// A segment that holds `id` alone.
    pub fn with(id: usize) -> (r: Segment)
        ensures
            r@ == seq![id],
    {
        let mut segment = Segment::new();
        segment.push(id);
        proof {
            assert(segment@ =~= seq![id]);
        }
        segment
    }

    /// Whether the segment has room for one more fiber.
    pub fn has_capacity(&self) -> (r: bool)
        ensures
            r == (self@.len() < SEGMENT_SIZE),
    {
        self.data.len() < SEGMENT_SIZE
    }

    /// Whether the segment holds no fiber.
    pub fn is_empty(&self) -> (r: bool)
        ensures
            r == (self@.len() == 0),
    {
        self.data.len() == 0
    }

    /// Puts `id` on top of a segment that has room.
    pub fn push(&mut self, id: usize)
        requires
            old(self)@.len() < SEGMENT_SIZE,
        ensures
            final(self)@ == old(self)@.push(id),
    {
        self.data.push(id);
    }

    /// Takes the fiber that was put on last.
    pub fn pop(&mut self) -> (r: Option<usize>)
        ensures
            old(self)@.len() == 0 ==> r.is_none() && final(self)@ == old(self)@,
            old(self)@.len() > 0 ==> r == Some(old(self)@.last()) && final(self)@
                == old(self)@.drop_last(),
    {
        self.data.pop()
    }

    /// Number of fibers in the segment.
    pub fn len(&self) -> (r: usize)
        ensures
            r == self@.len(),
    {
        self.data.len()
    }
}

/// Lets the threads of a pool agree that no work is left: a count of the
/// threads that still look for work. A thread that shares the count with
/// others pauses between taking itself off and looking at the count.
pub struct Terminator {
    pub const_nworkers: usize,
    pub nworkers: usize,
}

impl Terminator {
    /// A terminator for `number_workers` threads, all of which work.
    pub fn new(number_workers: usize) -> (r: Terminator)
        ensures
            r.const_nworkers == number_workers,
            r.nworkers == number_workers,
    {
        Terminator { const_nworkers: number_workers, nworkers: number_workers }
    }

    /// A thread has run out of work and takes itself off the count. The
    /// result says whether it was the last one that worked.
    pub fn decrease_workers(&mut self) -> (last: bool)
        requires
            old(self).nworkers > 0,
        ensures
            last == (old(self).nworkers == 1),
            final(self).nworkers == old(self).nworkers - 1,
            final(self).const_nworkers == old(self).const_nworkers,
    {
        let before = self.nworkers;
        self.nworkers = before - 1;
        before == 1
    }

    /// A thread that took itself off looks at the count: where nobody
    /// works any more the pool is done and the result is `true`; else the
    /// thread puts itself back on the count and goes on looking for work.
    pub fn zero_or_increase_workers(&mut self) -> (done: bool)
        requires
            old(self).nworkers < usize::MAX,
        ensures
            done == (old(self).nworkers == 0),
            final(self).nworkers == (if old(self).nworkers == 0 {
                0
            } else {
                old(self).nworkers + 1
            }),
            final(self).const_nworkers == old(self).const_nworkers,
    {
        if self.nworkers == 0 {
            true
        } else {
            self.nworkers = self.nworkers + 1;
            false
        }
    }

    /// A thread that ran out of work asks whether the pool is done. A pool
    /// of one thread is; in a larger pool the thread is the last one
    /// exactly if the count stood at one.
    pub fn try_terminate(&mut self) -> (done: bool)
        requires
            old(self).const_nworkers == 1 || old(self).nworkers > 0,
        ensures
            done == (old(self).const_nworkers == 1 || old(self).nworkers == 1),
            final(self).const_nworkers == old(self).const_nworkers,
            final(self).nworkers == (if old(self).const_nworkers == 1 {
                old(self).nworkers
            } else if old(self).nworkers == 1 {
                0
            } else {
                old(self).nworkers
            }),
    {
        if self.const_nworkers == 1 {
            return true;
        }
        let _ = self.decrease_workers();
        self.zero_or_increase_workers()
    }
}

/// One thread of the pool.
pub struct Task<'a> {
    /// Place of the thread's own stealer among `stealers`.
    pub task_id: usize,
    pub local: Segment,
    pub worker: Worker<usize>,
    pub injector: &'a Injector<usize>,
    pub stealers: &'a [Stealer<usize>],
    /// Number of fibers that the thread has taken so far.
    pub scheduled: usize,
}

impl<'a> Task<'a> {
    /// The thread's own stealer is among the stealers.
    pub open spec fn wf(&self) -> bool {
        self.task_id < self.stealers@.len()
    }

    /// The next fiber for the thread: from its own segment, its own deque,
    /// the shared queue or a peer, in that order. A fiber in the segment is
    /// always found.
    pub fn pop(&mut self) -> (r: Option<usize>)
        requires
            old(self).wf(),
        ensures
            final(self).wf(),
            final(self).task_id == old(self).task_id,
            final(self).scheduled == old(self).scheduled,
            old(self).local@.len() > 0 ==> r == Some(old(self).local@.last()),
            old(self).local@.len() > 0 ==> final(self).local@ == old(self).local@.drop_last(),
            old(self).local@.len() == 0 ==> final(self).local@ == old(self).local@,
    {
        let local = self.pop_local();
        if local.is_some() {
            return local;
        }
        let own = self.pop_worker();
        if own.is_some() {
            return own;
        }
        let shared = self.pop_global();
        if shared.is_some() {
            return shared;
        }
        self.steal()
    }

    /// Takes the top of the own segment.
    pub fn pop_local(&mut self) -> (r: Option<usize>)
        ensures
            final(self).task_id == old(self).task_id,
            final(self).scheduled == old(self).scheduled,
            final(self).stealers == old(self).stealers,
            old(self).local@.len() == 0 ==> r.is_none() && final(self).local@ == old(self).local@,
            old(self).local@.len() > 0 ==> r == Some(old(self).local@.last()) && final(self).local@
                == old(self).local@.drop_last(),
    {
        if self.local.is_empty() {
            return None;
        }
        self.local.pop()
    }

    /// Takes a fiber from the own deque.
    pub fn pop_worker(&self) -> (r: Option<usize>) {
        worker_pop(&self.worker)
    }

    /// Takes a fiber from the shared queue, trying again while other
    /// threads are in the way. Each attempt is settled by
    /// `Stolen::settled`.
    pub fn pop_global(&self) -> (r: Option<usize>) {
        let mut tries: usize = 0;
        while tries < usize::MAX
            invariant
                tries <= usize::MAX,
            decreases usize::MAX - tries,
        {
            match injector_steal(self.injector, &self.worker).settled() {
                Some(found) => {
                    return found;
                },
                None => {},
            }
            tries += 1;
        }
        None
    }

    /// Takes a fiber from peers chosen at random, twice as many times as
    /// there are threads. Each attempt is settled by `Stolen::settled`: a
    /// fiber that was taken is returned, an empty deque sends the thread
    /// to the next peer. A thread without peers steals nothing.
    pub fn steal(&self) -> (r: Option<usize>)
        requires
            self.wf(),
        ensures
            self.stealers@.len() == 1 ==> r.is_none(),
    {
        let size = self.stealers.len();
        if size == 1 {
            return None;
        }
        let rounds: usize = if size > usize::MAX / 2 {
            usize::MAX
        } else {
            2 * size
        };
        let mut round: usize = 0;
        while round < rounds
            invariant
                round <= rounds,
                size == self.stealers@.len(),
                size > 1,
                self.task_id < size,
            decreases rounds - round,
        {
            let victim = peer_of(draw_below(size - 1), self.task_id, size);
            let mut tries: usize = 0;
            while tries < usize::MAX
                invariant
                    tries <= usize::MAX,
                    victim < self.stealers@.len(),
                    self.stealers@.len() > 1,
                decreases usize::MAX - tries,
            {
                match stealer_steal(&self.stealers[victim], &self.worker).settled() {
                    Some(Some(id)) => {
                        return Some(id);
                    },
                    Some(None) => {
                        break ;
                    },
                    None => {},
                }
                tries += 1;
            }
            round += 1;
        }
        None
    }
}

} // verus!
