//! Generators: fibers that hand values to the fiber that resumes them.

use vstd::prelude::*;
use crate::algorithm::Algorithm;
use crate::scheduler::model::SchedulerView;
use crate::scheduler::Scheduler;
use crate::stack::StackContext;

verus! {

/// What a generator left for the fiber that resumed it.
pub enum GeneratorState<T> {
    /// Nothing: the generator has not run since it was last resumed.
    Ready,
    /// The generator suspended itself with a value.
    Yielded(T),
    /// The generator returned a value and will not run again.
    Complete(T),
}

impl<T> Default for GeneratorState<T> {
    fn default() -> (r: Self)
        ensures
            r == GeneratorState::<T>::Ready,
    {
        GeneratorState::Ready
    }
}

/// Why an operation on a generator was refused.
#[derive(Copy, Clone, PartialEq, Eq, Structural, Debug)]
pub enum GeneratorError {
    /// The generator has returned.
    Complete,
    /// The running fiber is not the fiber of this generator.
    NotAGenerator,
}

impl GeneratorError {
    /// The error in words.
    pub fn message(&self) -> (r: &'static str)
        ensures
            *self == GeneratorError::Complete ==> r@ == "Generator already complete"@,
            *self == GeneratorError::NotAGenerator ==> r@ == "Not a generator"@,
    {
        match self {
            GeneratorError::Complete => "Generator already complete",
            GeneratorError::NotAGenerator => "Not a generator",
        }
    }
}

/// A fiber that yields values to the fiber that resumes it.
pub struct Generator<T> {
    pub state: GeneratorState<T>,
    /// Whether the generator has returned and its value was collected.
    pub complete: bool,
    /// The fiber that runs the generator.
    pub thread: usize,
    /// The fiber that gets control when the generator yields.
    pub to: usize,
    /// Whether the fiber is joined rather than resumed; such a fiber
    /// cannot yield.
    pub is_join: bool,
}

impl<T> Generator<T> {
    /// Creates the fiber of a generator on `stack`, without starting it.
    /// The running fiber is the one that gets control at each yield.
    pub fn spawn<A: Algorithm>(sched: &mut Scheduler<A>, stack: StackContext) -> (r: Self)
        requires
            old(sched).wf(),
            old(sched)@.contexts.len() < usize::MAX,
        ensures
            final(sched).wf(),
            final(sched)@ == old(sched)@.spawn(Some(stack), false),
            r.state == GeneratorState::<T>::Ready,
            !r.complete,
            !r.is_join,
            r.thread == old(sched)@.contexts.len(),
            r.to == old(sched)@.active,
            final(sched).algo.steals() == old(sched).algo.steals(),
            final(sched).algo.parked() == old(sched).algo.parked(),
    {
        let to = sched.active();
        let thread = sched.spawn_not_schedule(stack);
        Generator { state: GeneratorState::Ready, complete: false, thread, to, is_join: false }
    }

    /// Resumes the generator for the running fiber: the fiber of the
    /// generator is scheduled and the running fiber suspended. A generator
    /// that has returned is not resumed.
    pub fn resume<A: Algorithm>(&mut self, sched: &mut Scheduler<A>) -> (r: Result<
        (),
        GeneratorError,
    >)
        requires
            old(sched).wf(),
            old(sched)@.active != old(sched)@.dispatcher,
        ensures
            final(sched).wf(),
            *final(self) == *old(self),
            r.is_err() <==> old(self).complete,
            r.is_err() ==> r == Err::<(), GeneratorError>(GeneratorError::Complete) && final(sched)@
                == old(sched)@,
            r.is_ok() ==> final(sched)@ == old(sched)@.schedule(old(self).thread).suspend(),
            final(sched).algo.steals() == old(sched).algo.steals(),
            final(sched).algo.parked() == old(sched).algo.parked(),
    {
        if self.complete {
            return Err(GeneratorError::Complete);
        }
        let _ = sched.schedule(self.thread);
        proof {
            crate::scheduler::laws::lemma_schedule_keeps_roles(old(sched)@, self.thread);
        }
        sched.suspend();
        Ok(())
    }

    /// Takes what the generator left since it was resumed. A generator
    /// that left its return value is complete from then on.
    pub fn collect(&mut self) -> (r: GeneratorState<T>)
        ensures
            r == old(self).state,
            final(self).state == GeneratorState::<T>::Ready,
            final(self).complete == (old(self).complete || old(self).state is Complete),
            final(self).thread == old(self).thread,
            final(self).to == old(self).to,
            final(self).is_join == old(self).is_join,
    {
        if let GeneratorState::Complete(_) = &self.state {
            self.complete = true;
        }
        let mut state = GeneratorState::Ready;
        std::mem::swap(&mut self.state, &mut state);
        state
    }

    /// The generator returns `val`: the value is left as its last one, and
    /// the fiber that resumed it is scheduled. The fiber of the generator
    /// has to terminate next.
    pub fn complete_with<A: Algorithm>(&mut self, sched: &mut Scheduler<A>, val: T)
        requires
            old(sched).wf(),
        ensures
            final(sched).wf(),
            final(sched)@ == old(sched)@.schedule(old(self).to),
            final(self).state == GeneratorState::Complete(val),
            final(self).complete == old(self).complete,
            final(self).thread == old(self).thread,
            final(self).to == old(self).to,
            final(self).is_join == old(self).is_join,
            final(sched).algo.steals() == old(sched).algo.steals(),
            final(sched).algo.parked() == old(sched).algo.parked(),
    {
        self.state = GeneratorState::Complete(val);
        let _ = sched.schedule(self.to);
    }
}

/// The state of the scheduler after a yield of the generator whose fiber
/// runs: the fiber that resumed it is scheduled, and the generator
/// suspended.
pub open spec fn spec_generator_yield(s: SchedulerView, to: usize) -> SchedulerView {
    s.schedule(to).suspend()
}

/// Yields `val` from the running fiber, which must be the fiber of
/// `generator`: the value is left for the fiber that resumed the
/// generator, that fiber is scheduled, and the generator is suspended.
/// Where the running fiber is another one, or one that is joined, the
/// value comes back with the error.
pub fn generator_yield<T, A: Algorithm>(
    generator: &mut Generator<T>,
    sched: &mut Scheduler<A>,
    val: T,
) -> (r: Result<(), (GeneratorError, T)>)
    requires
        old(sched).wf(),
        old(sched)@.active != old(sched)@.dispatcher,
    ensures
        final(sched).wf(),
        r.is_ok() <==> old(generator).thread == old(sched)@.active && !old(generator).is_join,
        r.is_ok() ==> final(generator).state == GeneratorState::Yielded(val) && final(sched)@
            == spec_generator_yield(old(sched)@, old(generator).to),
        r.is_err() ==> r == Err::<(), (GeneratorError, T)>((GeneratorError::NotAGenerator, val))
            && *final(generator) == *old(generator) && final(sched)@ == old(sched)@,
        final(generator).complete == old(generator).complete,
        final(generator).thread == old(generator).thread,
        final(generator).to == old(generator).to,
        final(generator).is_join == old(generator).is_join,
        final(sched).algo.steals() == old(sched).algo.steals(),
        final(sched).algo.parked() == old(sched).algo.parked(),
{
    if generator.thread != sched.active() || generator.is_join {
        return Err((GeneratorError::NotAGenerator, val));
    }
    generator.state = GeneratorState::Yielded(val);
    let _ = sched.schedule(generator.to);
    proof {
        crate::scheduler::laws::lemma_schedule_keeps_roles(old(sched)@, generator.to);
    }
    sched.suspend();
    Ok(())
}

} // verus!
