//! The scheduler as a mathematical state, and its transitions.

use vstd::prelude::*;
use crate::algorithm::ReadyModel;
use crate::context::{spec_handshake, Context, Handshake, State, TIMED_OUT, WOKEN};
use crate::seq_util::without;

verus! {

/// State of one scheduler: the records of its fibers, indexed by their ids,
/// and the queues that hold ids.
pub struct SchedulerView {
    /// Name of the scheduler among those of the program.
    pub id: usize,
    pub contexts: Seq<Context>,
    /// For each fiber, the fibers that wait for its end.
    pub joiners: Seq<Seq<usize>>,
    /// Runnable fibers, as the policy queues them.
    pub ready: ReadyModel,
    /// Whether the policy queues worker fibers in its shared queue.
    pub spreads: bool,
    /// Fibers that other threads have woken.
    pub remote: Seq<usize>,
    /// Sleeping fibers, earliest deadline first.
    pub sleep: Seq<usize>,
    /// Worker fibers that have not ended.
    pub worker: Seq<usize>,
    /// Ended fibers whose stacks are not yet released.
    pub terminated: Seq<usize>,
    pub dispatcher: usize,
    pub main: usize,
    /// The fiber that runs.
    pub active: usize,
    pub shutdown: bool,
}

/// Length of the longest prefix of `queue` whose deadlines are at most `now`.
pub open spec fn due(contexts: Seq<Context>, queue: Seq<usize>, now: u64) -> int
    decreases queue.len(),
{
    if queue.len() > 0 && queue[0] < contexts.len() && contexts[queue[0] as int].tp <= now {
        1 + due(contexts, queue.drop_first(), now)
    } else {
        0
    }
}

/// The record `c` of fiber `i` agrees with the scheduler about its role,
/// its end and whether it runs.
pub open spec fn record_ok(
    c: Context,
    i: int,
    main: usize,
    dispatcher: usize,
    active: usize,
    running: bool,
) -> bool {
    &&& c.is_main == (i == main)
    &&& c.is_dispatcher == (i == dispatcher)
    &&& c.terminated == c.ended()
    &&& (c.state == State::Running) == (running && i == active)
    &&& c.state == State::Reclaimed ==> c.stack.is_none()
}

/// Every record agrees with the scheduler.
#[verifier::opaque]
pub open spec fn records_ok(
    records: Seq<Context>,
    main: usize,
    dispatcher: usize,
    active: usize,
    running: bool,
) -> bool {
    forall|i: int|
        0 <= i < records.len() ==> record_ok(
            #[trigger] records[i],
            i,
            main,
            dispatcher,
            active,
            running,
        )
}

/// `queue` holds the fibers that are in state `state`, each once, and no
/// others.
#[verifier::opaque]
pub open spec fn holds_exactly(records: Seq<Context>, queue: Seq<usize>, state: State) -> bool {
    &&& records.len() <= usize::MAX
    &&& queue.no_duplicates()
    &&& forall|i: int|
        0 <= i < queue.len() ==> (#[trigger] queue[i]) < records.len()
            && records[queue[i] as int].state == state
    &&& forall|c: int|
        0 <= c < records.len() && (#[trigger] records[c]).state == state ==> queue.contains(
            c as usize,
        )
}

/// `queue` holds suspended fibers, each once, in the order of their
/// deadlines.
#[verifier::opaque]
pub open spec fn sleepers_ok(records: Seq<Context>, queue: Seq<usize>) -> bool {
    &&& queue.no_duplicates()
    &&& forall|i: int|
        0 <= i < queue.len() ==> (#[trigger] queue[i]) < records.len()
            && records[queue[i] as int].state == State::Suspended
    &&& forall|i: int, j: int|
        0 <= i < j < queue.len() ==> records[(#[trigger] queue[i]) as int].tp <= records[(
        #[trigger] queue[j]) as int].tp
}

/// `queue` holds the fibers that have not ended, but for the main and the
/// dispatcher fiber, each once, and no others.
#[verifier::opaque]
pub open spec fn workers_ok(
    records: Seq<Context>,
    queue: Seq<usize>,
    main: usize,
    dispatcher: usize,
) -> bool {
    &&& records.len() <= usize::MAX
    &&& queue.no_duplicates()
    &&& forall|i: int|
        0 <= i < queue.len() ==> (#[trigger] queue[i]) < records.len() && queue[i] != main
            && queue[i] != dispatcher && !records[queue[i] as int].ended()
    &&& forall|c: int|
        0 <= c < records.len() && c != main && c != dispatcher && !(#[trigger] records[c]).ended()
            ==> queue.contains(c as usize)
}

/// `queue` names known fibers, each once.
#[verifier::opaque]
pub open spec fn remote_ok(known: nat, queue: Seq<usize>) -> bool {
    &&& queue.no_duplicates()
    &&& forall|i: int| 0 <= i < queue.len() ==> (#[trigger] queue[i]) < known
}

impl SchedulerView {
    /// A scheduler at its start: the main fiber, with id 0, runs, and the
    /// dispatcher fiber, with id 1, is queued.
    pub open spec fn initial(
        id: usize,
        spreads: bool,
        stack: Option<crate::stack::StackContext>,
    ) -> SchedulerView {
        SchedulerView {
            id,
            contexts: seq![
                Context {
                    tp: 0,
                    twstatus: 0,
                    is_main: true,
                    is_dispatcher: false,
                    terminated: false,
                    state: State::Running,
                    stack: None,
                },
                Context {
                    tp: 0,
                    twstatus: 0,
                    is_main: false,
                    is_dispatcher: true,
                    terminated: false,
                    state: State::Ready,
                    stack,
                },
            ],
            joiners: seq![Seq::empty(), Seq::empty()],
            ready: ReadyModel::empty().push(1, false),
            spreads,
            remote: Seq::empty(),
            sleep: Seq::empty(),
            worker: Seq::empty(),
            terminated: Seq::empty(),
            dispatcher: 1,
            main: 0,
            active: 0,
            shutdown: false,
        }
    }

    /// Whether the scheduler has a fiber with the id `ctx`.
    pub open spec fn valid(self, ctx: usize) -> bool {
        ctx < self.contexts.len()
    }

    /// The main and the dispatcher fiber never leave their scheduler.
    pub open spec fn pinned(self, ctx: usize) -> bool {
        ctx == self.main || ctx == self.dispatcher
    }

    /// The scheduler knows its three distinguished fibers, and the
    /// dispatcher runs or is queued. With `running` unset nobody runs.
    pub open spec fn roles_ok(self, running: bool) -> bool {
        &&& self.contexts.len() <= usize::MAX
        &&& self.contexts.len() == self.joiners.len()
        &&& self.valid(self.main)
        &&& self.valid(self.dispatcher)
        &&& self.valid(self.active)
        &&& self.main != self.dispatcher
        &&& (running && self.dispatcher == self.active) || self.ready.order().contains(
            self.dispatcher,
        )
        &&& !self.contexts[self.main as int].ended()
        &&& !self.contexts[self.dispatcher as int].ended()
    }

    /// The invariant of a scheduler.
    pub open spec fn wf(self) -> bool {
        self.inv(true)
    }

    /// The invariant while control is on its way to the next fiber: no
    /// fiber runs, and the dispatcher is queued.
    pub open spec fn in_transfer(self) -> bool {
        self.inv(false)
    }

    /// The invariant: every record agrees with the scheduler about its
    /// role, its end and whether it runs; the policy holds the ready
    /// fibers and the terminated queue the terminated ones, each once; the
    /// sleep queue holds suspended fibers in the order of their deadlines;
    /// the worker queue holds the workers that have not ended; the queue of
    /// remote wakes names known fibers.
    pub open spec fn inv(self, running: bool) -> bool {
        &&& self.roles_ok(running)
        &&& records_ok(self.contexts, self.main, self.dispatcher, self.active, running)
        &&& holds_exactly(self.contexts, self.ready.order(), State::Ready)
        &&& sleepers_ok(self.contexts, self.sleep)
        &&& holds_exactly(self.contexts, self.terminated, State::Terminated)
        &&& workers_ok(self.contexts, self.worker, self.main, self.dispatcher)
        &&& remote_ok(self.contexts.len(), self.remote)
    }

    /// The state of fiber `ctx` becomes `state`.
    pub open spec fn set_state(self, ctx: usize, state: State) -> SchedulerView {
        SchedulerView {
            contexts: self.contexts.update(ctx as int, self.contexts[ctx as int].with_state(state)),
            ..self
        }
    }

    /// The wake-status word of fiber `ctx` becomes `word`.
    pub open spec fn set_word(self, ctx: usize, word: isize) -> SchedulerView {
        SchedulerView {
            contexts: self.contexts.update(ctx as int, self.contexts[ctx as int].with_word(word)),
            ..self
        }
    }

    /// Whether `schedule` queues `ctx`: it does for a known fiber that is
    /// fresh or suspended.
    pub open spec fn can_schedule(self, ctx: usize) -> bool {
        &&& self.valid(ctx)
        &&& (self.contexts[ctx as int].state == State::Fresh || self.contexts[ctx as int].state
            == State::Suspended)
    }

    /// `ctx` leaves the sleep queue, if it is there, and is handed to the
    /// policy. A fiber that cannot be scheduled leaves the state unchanged.
    pub open spec fn schedule(self, ctx: usize) -> SchedulerView {
        if self.can_schedule(ctx) {
            SchedulerView {
                contexts: self.contexts.update(
                    ctx as int,
                    self.contexts[ctx as int].with_state(State::Ready),
                ),
                sleep: without(self.sleep, ctx),
                ready: self.ready.push(ctx, self.spreads && !self.pinned(ctx)),
                ..self
            }
        } else {
            self
        }
    }

    /// The fibers of `ids` are scheduled one after the other.
    pub open spec fn schedule_all(self, ids: Seq<usize>) -> SchedulerView
        decreases ids.len(),
    {
        if ids.len() == 0 {
            self
        } else {
            self.schedule(ids[0]).schedule_all(ids.drop_first())
        }
    }

    /// The fiber that gets control when the running one gives it up: the
    /// front of the policy, or the dispatcher where nothing is queued.
    pub open spec fn successor(self) -> usize {
        match self.ready.front() {
            Some(c) => c,
            None => self.dispatcher,
        }
    }

    /// Control passes to the successor, which leaves the policy.
    pub open spec fn switch(self) -> SchedulerView {
        let next = self.successor();
        SchedulerView {
            contexts: self.contexts.update(
                next as int,
                self.contexts[next as int].with_state(State::Running),
            ),
            ready: self.ready.pop(),
            active: next,
            ..self
        }
    }

    /// The running fiber is suspended and its successor runs.
    pub open spec fn suspend(self) -> SchedulerView {
        self.set_state(self.active, State::Suspended).switch()
    }

    /// The running fiber publishes that it waits on `token`, and is
    /// suspended.
    pub open spec fn park(self, token: isize) -> SchedulerView {
        self.set_word(self.active, token).suspend()
    }

    /// The front of the policy runs and the fiber that ran is queued behind
    /// it. With nothing queued the running fiber goes on.
    pub open spec fn yield_now(self) -> SchedulerView {
        if self.ready.front().is_none() {
            self
        } else {
            let me = self.active;
            let next = self.successor();
            SchedulerView {
                contexts: self.contexts.update(
                    me as int,
                    self.contexts[me as int].with_state(State::Ready),
                ).update(next as int, self.contexts[next as int].with_state(State::Running)),
                ready: self.ready.pop().push(me, self.spreads && !self.pinned(me)),
                active: next,
                ..self
            }
        }
    }

    /// Index in the sleep queue at which a fiber with deadline `deadline`
    /// is inserted: behind every fiber whose deadline is not later.
    pub open spec fn sleep_slot(self, deadline: u64) -> int {
        due(self.contexts, self.sleep, deadline)
    }

    /// The running fiber sleeps until `deadline`.
    pub open spec fn sleep_until(self, deadline: u64) -> SchedulerView {
        let me = self.active;
        let slot = self.sleep_slot(deadline);
        let parked = SchedulerView {
            contexts: self.contexts.update(
                me as int,
                Context { tp: deadline, twstatus: WOKEN, ..self.contexts[me as int] },
            ),
            sleep: self.sleep.insert(slot, me),
            ..self
        };
        parked.suspend()
    }

    /// The deadline of `ctx` has expired: unless a waker was first, its word
    /// becomes `TIMED_OUT` and it is scheduled.
    pub open spec fn time_out(self, ctx: usize) -> SchedulerView {
        if self.valid(ctx) && self.contexts[ctx as int].twstatus == WOKEN {
            self.set_word(ctx, TIMED_OUT).schedule(ctx)
        } else {
            self
        }
    }

    /// The deadlines of the fibers of `ids` expire one after the other.
    pub open spec fn time_out_all(self, ids: Seq<usize>) -> SchedulerView
        decreases ids.len(),
    {
        if ids.len() == 0 {
            self
        } else {
            self.time_out(ids[0]).time_out_all(ids.drop_first())
        }
    }

    /// Every sleeper whose deadline is at most `now` leaves the sleep queue
    /// and times out, earliest deadline first.
    pub open spec fn sleep2ready(self, now: u64) -> SchedulerView {
        let k = due(self.contexts, self.sleep, now);
        SchedulerView { sleep: self.sleep.skip(k), ..self }.time_out_all(self.sleep.take(k))
    }

    /// A fiber of this scheduler was woken by another thread.
    pub open spec fn schedule_from_remote(self, ctx: usize) -> SchedulerView {
        if self.valid(ctx) && !self.remote.contains(ctx) {
            SchedulerView { remote: seq![ctx] + self.remote, ..self }
        } else {
            self
        }
    }

    /// A fiber of the scheduler `origin` wakes `ctx`: a wake from this
    /// scheduler schedules the fiber at once, a wake from another one goes
    /// through the queue of remote wakes.
    pub open spec fn wake(self, ctx: usize, origin: usize) -> SchedulerView {
        if origin == self.id {
            self.schedule(ctx)
        } else {
            self.schedule_from_remote(ctx)
        }
    }

    /// The fibers that other threads have woken are scheduled.
    pub open spec fn remote_ready2ready(self) -> SchedulerView {
        SchedulerView { remote: Seq::empty(), ..self }.schedule_all(self.remote)
    }

    /// The records of the fibers in `ids` lose their stacks and become
    /// reclaimed.
    pub open spec fn reclaim_all(contexts: Seq<Context>, ids: Seq<usize>) -> Seq<Context>
        decreases ids.len(),
    {
        if ids.len() == 0 {
            contexts
        } else {
            let c = ids[0];
            let next = if c < contexts.len() {
                contexts.update(
                    c as int,
                    Context { state: State::Reclaimed, stack: None, ..contexts[c as int] },
                )
            } else {
                contexts
            };
            Self::reclaim_all(next, ids.drop_first())
        }
    }

    /// The stacks of the ended fibers are released.
    pub open spec fn release_terminated(self) -> SchedulerView {
        SchedulerView {
            contexts: Self::reclaim_all(self.contexts, self.terminated),
            terminated: Seq::empty(),
            ..self
        }
    }

    /// A new worker fiber with the given stack joins the scheduler; where
    /// `start` is set it is handed to the policy at once.
    pub open spec fn spawn(self, stack: Option<crate::stack::StackContext>, start: bool) -> SchedulerView {
        let id = self.contexts.len() as usize;
        let grown = SchedulerView {
            contexts: self.contexts.push(
                Context {
                    tp: 0,
                    twstatus: 0,
                    is_main: false,
                    is_dispatcher: false,
                    terminated: false,
                    state: State::Fresh,
                    stack,
                },
            ),
            joiners: self.joiners.push(Seq::empty()),
            worker: seq![id] + self.worker,
            ..self
        };
        if start {
            grown.schedule(id)
        } else {
            grown
        }
    }

    /// Whether a fiber can wait for the end of `target`: it can for a
    /// known fiber that has not ended.
    pub open spec fn can_join(self, target: usize) -> bool {
        self.valid(target) && !self.contexts[target as int].terminated
    }

    /// The running fiber waits for the end of `target`: it enters the back
    /// of the queue of `target` and is suspended. A target that is unknown
    /// or has ended leaves the state unchanged.
    pub open spec fn join(self, target: usize) -> SchedulerView {
        if self.can_join(target) {
            SchedulerView {
                joiners: self.joiners.update(
                    target as int,
                    self.joiners[target as int].push(self.active),
                ),
                ..self
            }.suspend()
        } else {
            self
        }
    }

    /// The running fiber ends: the fibers that wait for its end are
    /// scheduled, it moves from the worker queue to the terminated queue,
    /// and its successor runs.
    pub open spec fn terminate(self) -> SchedulerView {
        let me = self.active;
        let cleared = SchedulerView { joiners: self.joiners.update(me as int, Seq::empty()), ..self };
        let woken = cleared.schedule_all(self.joiners[me as int]);
        SchedulerView {
            contexts: woken.contexts.update(
                me as int,
                Context { terminated: true, state: State::Terminated, ..woken.contexts[me as int] },
            ),
            worker: without(woken.worker, me),
            terminated: seq![me] + woken.terminated,
            ..woken
        }.switch()
    }

    /// What a waker learns when it tries to claim `ctx` for `token`. An
    /// unknown fiber is lost to every waker.
    pub open spec fn handshake(self, ctx: usize, token: isize) -> Handshake {
        if self.valid(ctx) {
            spec_handshake(self.contexts[ctx as int].twstatus, token)
        } else {
            Handshake::Lost
        }
    }

    /// A waker claims `ctx` for `token`: where the wake-status word holds
    /// the token it becomes `WOKEN` and the fiber is scheduled; else nothing
    /// changes.
    pub open spec fn claim(self, ctx: usize, token: isize) -> SchedulerView {
        if self.handshake(ctx, token) == Handshake::Won {
            self.set_word(ctx, WOKEN).schedule(ctx)
        } else {
            self
        }
    }

    /// Whether the dispatcher leaves its loop: shutdown was asked for and
    /// no worker is left.
    pub open spec fn drained(self) -> bool {
        self.shutdown && self.worker.len() == 0
    }

    /// The state in which the dispatcher picks the next fiber: wakes of
    /// other threads are taken over, due sleepers woken, and the stacks of
    /// ended fibers released.
    pub open spec fn housekeeping(self, now: u64) -> SchedulerView {
        self.remote_ready2ready().sleep2ready(now).release_terminated()
    }

    /// The dispatcher leaves its loop: the main fiber is scheduled, unless
    /// it is queued already, and gets control.
    pub open spec fn unwind(self) -> SchedulerView {
        self.schedule(self.main).yield_now()
    }

    /// One turn of the dispatcher loop.
    pub open spec fn dispatch(self, now: u64) -> SchedulerView {
        if self.drained() {
            self.unwind()
        } else {
            self.housekeeping(now).yield_now()
        }
    }
}

/// The stacks of the fibers in `ids`, in that order.
pub open spec fn stacks_of(contexts: Seq<Context>, ids: Seq<usize>) -> Seq<crate::stack::StackContext>
    decreases ids.len(),
{
    if ids.len() == 0 {
        Seq::empty()
    } else {
        let rest = stacks_of(contexts, ids.drop_first());
        if ids[0] < contexts.len() && contexts[ids[0] as int].stack.is_some() {
            seq![contexts[ids[0] as int].stack.unwrap()] + rest
        } else {
            rest
        }
    }
}

} // verus!
