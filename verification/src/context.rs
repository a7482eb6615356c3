//! The record that a scheduler keeps for each fiber.

use vstd::prelude::*;
use crate::stack::StackContext;

verus! {

/// Wake-status word of a fiber that waits for nothing.
pub const NOT_WAITING: isize = 0;

/// Wake-status word of a fiber that a waker has claimed. A fiber that sleeps
/// until a deadline carries the same word, so that the expiry of the
/// deadline and a waker race for one exchange.
pub const WOKEN: isize = -1;

/// Wake-status word of a fiber whose deadline expired.
pub const TIMED_OUT: isize = -2;

/// Whether `word` can name a primitive: it is none of the three words that
/// have a meaning of their own.
pub open spec fn is_token(word: isize) -> bool {
    word != NOT_WAITING && word != WOKEN && word != TIMED_OUT
}

/// Tells whether `word` can name a primitive.
pub fn check_token(word: isize) -> (r: bool)
    ensures
        r == is_token(word),
{
    word != NOT_WAITING && word != WOKEN && word != TIMED_OUT
}

/// Where a fiber stands in its life.
#[derive(Copy, Clone, PartialEq, Eq, Structural, Debug)]
pub enum State {
    /// Created, not yet handed to the policy.
    Fresh,
    /// Queued by the policy.
    Ready,
    /// The one fiber that runs.
    Running,
    /// Waits on a primitive, a deadline or the end of another fiber.
    Suspended,
    /// Its function returned; its stack is not yet released.
    Terminated,
    /// Its stack was released.
    Reclaimed,
}

/// Whether a fiber can go from state `from` to state `to` in one step of
/// its life: a fresh fiber is started, a ready one gets control, the running
/// one gives way, waits or ends, a suspended one is woken, and the stack of
/// an ended one is released. Staying in a state is a step as well.
pub open spec fn step_ok(from: State, to: State) -> bool {
    ||| from == to
    ||| from == State::Fresh && to == State::Ready
    ||| from == State::Ready && to == State::Running
    ||| from == State::Running && to == State::Ready
    ||| from == State::Running && to == State::Suspended
    ||| from == State::Suspended && to == State::Ready
    ||| from == State::Running && to == State::Terminated
    ||| from == State::Terminated && to == State::Reclaimed
}

/// Whether steps of its life can take a fiber from state `from` to state
/// `to`: no fiber becomes fresh again, and an ended fiber can only lose
/// its stack.
pub open spec fn path_ok(from: State, to: State) -> bool {
    ||| from == to
    ||| from == State::Terminated && to == State::Reclaimed
    ||| from != State::Terminated && from != State::Reclaimed && to != State::Fresh
}

/// Per-fiber scheduler record.
#[derive(Copy, Clone, PartialEq, Eq, Structural, Debug)]
pub struct Context {
    /// Deadline of the current sleep, in clock ticks.
    pub tp: u64,
    /// Wake-status word: `NOT_WAITING`, the token of the primitive waited
    /// on, `WOKEN` or `TIMED_OUT`.
    pub twstatus: isize,
    pub is_main: bool,
    pub is_dispatcher: bool,
    pub terminated: bool,
    pub state: State,
    /// The stack the fiber runs on; `None` for the main fiber, which runs on
    /// the stack of its thread, and after the stack was released.
    pub stack: Option<StackContext>,
}

impl Context {
    /// A fresh record for a worker fiber.
    pub fn new() -> (r: Context)
        ensures
            r == (Context {
                tp: 0,
                twstatus: NOT_WAITING,
                is_main: false,
                is_dispatcher: false,
                terminated: false,
                state: State::Fresh,
                stack: None,
            }),
    {
        Context {
            tp: 0,
            twstatus: NOT_WAITING,
            is_main: false,
            is_dispatcher: false,
            terminated: false,
            state: State::Fresh,
            stack: None,
        }
    }

    /// Whether the fiber has ended.
    pub open spec fn ended(&self) -> bool {
        self.state == State::Terminated || self.state == State::Reclaimed
    }

    /// Struct update of the state.
    pub open spec fn with_state(self, state: State) -> Context {
        Context { state, ..self }
    }

    /// Struct update of the wake-status word.
    pub open spec fn with_word(self, word: isize) -> Context {
        Context { twstatus: word, ..self }
    }
}

/// What a waker learns when it tries to claim a waiter.
#[derive(Copy, Clone, PartialEq, Eq, Structural, Debug)]
pub enum Handshake {
    /// The word held the token: the waker alone may schedule the waiter.
    Won,
    /// The word held something else: the waiter is no longer this waker's.
    Lost,
    /// The word held `NOT_WAITING`: the waiter has not published its wait.
    Unpublished,
}

/// Outcome of a claim on a waiter whose wake-status word is `word`.
pub open spec fn spec_handshake(word: isize, token: isize) -> Handshake {
    if word == token {
        Handshake::Won
    } else if word == NOT_WAITING {
        Handshake::Unpublished
    } else {
        Handshake::Lost
    }
}

/// Compares the word with `expected` and, where they are equal, replaces
/// it by `new`. Returns the word as it was, as `Ok` where it was replaced.
pub fn compare_exchange(word: &mut isize, expected: isize, new: isize) -> (r: Result<isize, isize>)
    ensures
        *old(word) == expected ==> r == Ok::<isize, isize>(expected) && *final(word) == new,
        *old(word) != expected ==> r == Err::<isize, isize>(*old(word)) && *final(word) == *old(
            word,
        ),
{
    if *word == expected {
        *word = new;
        Ok(expected)
    } else {
        Err(*word)
    }
}

} // verus!
