//! Applying a function to a tuple of arguments.

use vstd::prelude::*;

verus! {

/// A tuple of arguments that a function of type `F` can be applied to.
pub trait ApplyTo<F>: Sized {
    type Result;

    /// Whether `f` accepts the arguments.
    spec fn accepted(self, f: &F) -> bool;

    /// Whether `r` is a result of `f` on the arguments.
    spec fn yields(self, f: &F, r: Self::Result) -> bool;

    /// Calls `f` with the members of the tuple as its arguments.
    fn apply_to(self, f: &F) -> (r: Self::Result)
        requires
            self.accepted(f),
        ensures
            self.yields(f, r),
    ;
}

impl<F, R> ApplyTo<F> for () where F: Fn() -> R {
    type Result = R;

    open spec fn accepted(self, f: &F) -> bool {
        call_requires(*f, ())
    }

    open spec fn yields(self, f: &F, r: R) -> bool {
        call_ensures(*f, (), r)
    }

    fn apply_to(self, f: &F) -> (r: R) {
        f()
    }
}

impl<F, R, A0> ApplyTo<F> for (A0,) where F: Fn(A0) -> R {
    type Result = R;

    open spec fn accepted(self, f: &F) -> bool {
        call_requires(*f, (self.0,))
    }

    open spec fn yields(self, f: &F, r: R) -> bool {
        call_ensures(*f, (self.0,), r)
    }

    fn apply_to(self, f: &F) -> (r: R) {
        f(self.0)
    }
}

impl<F, R, A0, A1> ApplyTo<F> for (A0, A1) where F: Fn(A0, A1) -> R {
    type Result = R;

    open spec fn accepted(self, f: &F) -> bool {
        call_requires(*f, (self.0, self.1))
    }

    open spec fn yields(self, f: &F, r: R) -> bool {
        call_ensures(*f, (self.0, self.1), r)
    }

    fn apply_to(self, f: &F) -> (r: R) {
        f(self.0, self.1)
    }
}

impl<F, R, A0, A1, A2> ApplyTo<F> for (A0, A1, A2) where F: Fn(A0, A1, A2) -> R {
    type Result = R;

    open spec fn accepted(self, f: &F) -> bool {
        call_requires(*f, (self.0, self.1, self.2))
    }

    open spec fn yields(self, f: &F, r: R) -> bool {
        call_ensures(*f, (self.0, self.1, self.2), r)
    }

    fn apply_to(self, f: &F) -> (r: R) {
        f(self.0, self.1, self.2)
    }
}

impl<F, R, A0, A1, A2, A3> ApplyTo<F> for (A0, A1, A2, A3) where F: Fn(A0, A1, A2, A3) -> R {
    type Result = R;

    open spec fn accepted(self, f: &F) -> bool {
        call_requires(*f, (self.0, self.1, self.2, self.3))
    }

    open spec fn yields(self, f: &F, r: R) -> bool {
        call_ensures(*f, (self.0, self.1, self.2, self.3), r)
    }

    fn apply_to(self, f: &F) -> (r: R) {
        f(self.0, self.1, self.2, self.3)
    }
}

impl<F, R, A0, A1, A2, A3, A4> ApplyTo<F> for (
    A0, A1, A2, A3, A4,
) where F: Fn(A0, A1, A2, A3, A4) -> R {
    type Result = R;

    open spec fn accepted(self, f: &F) -> bool {
        call_requires(*f, (self.0, self.1, self.2, self.3, self.4))
    }

    open spec fn yields(self, f: &F, r: R) -> bool {
        call_ensures(*f, (self.0, self.1, self.2, self.3, self.4), r)
    }

    fn apply_to(self, f: &F) -> (r: R) {
        f(self.0, self.1, self.2, self.3, self.4)
    }
}

impl<F, R, A0, A1, A2, A3, A4, A5> ApplyTo<F> for (
    A0, A1, A2, A3, A4, A5,
) where F: Fn(A0, A1, A2, A3, A4, A5) -> R {
    type Result = R;

    open spec fn accepted(self, f: &F) -> bool {
        call_requires(*f, (self.0, self.1, self.2, self.3, self.4, self.5))
    }

    open spec fn yields(self, f: &F, r: R) -> bool {
        call_ensures(*f, (self.0, self.1, self.2, self.3, self.4, self.5), r)
    }

    fn apply_to(self, f: &F) -> (r: R) {
        f(self.0, self.1, self.2, self.3, self.4, self.5)
    }
}

impl<F, R, A0, A1, A2, A3, A4, A5, A6> ApplyTo<F> for (
    A0, A1, A2, A3, A4, A5, A6,
) where F: Fn(A0, A1, A2, A3, A4, A5, A6) -> R {
    type Result = R;

    open spec fn accepted(self, f: &F) -> bool {
        call_requires(*f, (self.0, self.1, self.2, self.3, self.4, self.5, self.6))
    }

    open spec fn yields(self, f: &F, r: R) -> bool {
        call_ensures(*f, (self.0, self.1, self.2, self.3, self.4, self.5, self.6), r)
    }

    fn apply_to(self, f: &F) -> (r: R) {
        f(self.0, self.1, self.2, self.3, self.4, self.5, self.6)
    }
}

impl<F, R, A0, A1, A2, A3, A4, A5, A6, A7> ApplyTo<F> for (
    A0, A1, A2, A3, A4, A5, A6, A7,
) where F: Fn(A0, A1, A2, A3, A4, A5, A6, A7) -> R {
    type Result = R;

    open spec fn accepted(self, f: &F) -> bool {
        call_requires(*f, (self.0, self.1, self.2, self.3, self.4, self.5, self.6, self.7))
    }

    open spec fn yields(self, f: &F, r: R) -> bool {
        call_ensures(*f, (self.0, self.1, self.2, self.3, self.4, self.5, self.6, self.7), r)
    }

    fn apply_to(self, f: &F) -> (r: R) {
        f(self.0, self.1, self.2, self.3, self.4, self.5, self.6, self.7)
    }
}

impl<F, R, A0, A1, A2, A3, A4, A5, A6, A7, A8> ApplyTo<F> for (
    A0, A1, A2, A3, A4, A5, A6, A7, A8,
) where F: Fn(A0, A1, A2, A3, A4, A5, A6, A7, A8) -> R {
    type Result = R;

    open spec fn accepted(self, f: &F) -> bool {
        call_requires(*f, (self.0, self.1, self.2, self.3, self.4, self.5, self.6, self.7, self.8))
    }

    open spec fn yields(self, f: &F, r: R) -> bool {
        call_ensures(*f, (self.0, self.1, self.2, self.3, self.4, self.5, self.6, self.7, self.8), r)
    }

    fn apply_to(self, f: &F) -> (r: R) {
        f(self.0, self.1, self.2, self.3, self.4, self.5, self.6, self.7, self.8)
    }
}

impl<F, R, A0, A1, A2, A3, A4, A5, A6, A7, A8, A9> ApplyTo<F> for (
    A0, A1, A2, A3, A4, A5, A6, A7, A8, A9,
) where F: Fn(A0, A1, A2, A3, A4, A5, A6, A7, A8, A9) -> R {
    type Result = R;

    open spec fn accepted(self, f: &F) -> bool {
        call_requires(*f, (self.0, self.1, self.2, self.3, self.4, self.5, self.6, self.7, self.8, self.9))
    }

    open spec fn yields(self, f: &F, r: R) -> bool {
        call_ensures(*f, (self.0, self.1, self.2, self.3, self.4, self.5, self.6, self.7, self.8, self.9), r)
    }

    fn apply_to(self, f: &F) -> (r: R) {
        f(self.0, self.1, self.2, self.3, self.4, self.5, self.6, self.7, self.8, self.9)
    }
}

impl<F, R, A0, A1, A2, A3, A4, A5, A6, A7, A8, A9, A10> ApplyTo<F> for (
    A0, A1, A2, A3, A4, A5, A6, A7, A8, A9, A10,
) where F: Fn(A0, A1, A2, A3, A4, A5, A6, A7, A8, A9, A10) -> R {
    type Result = R;

    open spec fn accepted(self, f: &F) -> bool {
        call_requires(*f, (self.0, self.1, self.2, self.3, self.4, self.5, self.6, self.7, self.8, self.9, self.10))
    }

    open spec fn yields(self, f: &F, r: R) -> bool {
        call_ensures(*f, (self.0, self.1, self.2, self.3, self.4, self.5, self.6, self.7, self.8, self.9, self.10), r)
    }

    fn apply_to(self, f: &F) -> (r: R) {
        f(self.0, self.1, self.2, self.3, self.4, self.5, self.6, self.7, self.8, self.9, self.10)
    }
}

impl<F, R, A0, A1, A2, A3, A4, A5, A6, A7, A8, A9, A10, A11> ApplyTo<F> for (
    A0, A1, A2, A3, A4, A5, A6, A7, A8, A9, A10, A11,
) where F: Fn(A0, A1, A2, A3, A4, A5, A6, A7, A8, A9, A10, A11) -> R {
    type Result = R;

    open spec fn accepted(self, f: &F) -> bool {
        call_requires(*f, (self.0, self.1, self.2, self.3, self.4, self.5, self.6, self.7, self.8, self.9, self.10, self.11))
    }

    open spec fn yields(self, f: &F, r: R) -> bool {
        call_ensures(*f, (self.0, self.1, self.2, self.3, self.4, self.5, self.6, self.7, self.8, self.9, self.10, self.11), r)
    }

    fn apply_to(self, f: &F) -> (r: R) {
        f(self.0, self.1, self.2, self.3, self.4, self.5, self.6, self.7, self.8, self.9, self.10, self.11)
    }
}

impl<F, R, A0, A1, A2, A3, A4, A5, A6, A7, A8, A9, A10, A11, A12> ApplyTo<F> for (
    A0, A1, A2, A3, A4, A5, A6, A7, A8, A9, A10, A11, A12,
) where F: Fn(A0, A1, A2, A3, A4, A5, A6, A7, A8, A9, A10, A11, A12) -> R {
    type Result = R;

    open spec fn accepted(self, f: &F) -> bool {
        call_requires(*f, (self.0, self.1, self.2, self.3, self.4, self.5, self.6, self.7, self.8, self.9, self.10, self.11, self.12))
    }

    open spec fn yields(self, f: &F, r: R) -> bool {
        call_ensures(*f, (self.0, self.1, self.2, self.3, self.4, self.5, self.6, self.7, self.8, self.9, self.10, self.11, self.12), r)
    }

    fn apply_to(self, f: &F) -> (r: R) {
        f(self.0, self.1, self.2, self.3, self.4, self.5, self.6, self.7, self.8, self.9, self.10, self.11, self.12)
    }
}

impl<F, R, A0, A1, A2, A3, A4, A5, A6, A7, A8, A9, A10, A11, A12, A13> ApplyTo<F> for (
    A0, A1, A2, A3, A4, A5, A6, A7, A8, A9, A10, A11, A12, A13,
) where F: Fn(A0, A1, A2, A3, A4, A5, A6, A7, A8, A9, A10, A11, A12, A13) -> R {
    type Result = R;

    open spec fn accepted(self, f: &F) -> bool {
        call_requires(*f, (self.0, self.1, self.2, self.3, self.4, self.5, self.6, self.7, self.8, self.9, self.10, self.11, self.12, self.13))
    }

    open spec fn yields(self, f: &F, r: R) -> bool {
        call_ensures(*f, (self.0, self.1, self.2, self.3, self.4, self.5, self.6, self.7, self.8, self.9, self.10, self.11, self.12, self.13), r)
    }

    fn apply_to(self, f: &F) -> (r: R) {
        f(self.0, self.1, self.2, self.3, self.4, self.5, self.6, self.7, self.8, self.9, self.10, self.11, self.12, self.13)
    }
}

impl<F, R, A0, A1, A2, A3, A4, A5, A6, A7, A8, A9, A10, A11, A12, A13, A14> ApplyTo<F> for (
    A0, A1, A2, A3, A4, A5, A6, A7, A8, A9, A10, A11, A12, A13, A14,
) where F: Fn(A0, A1, A2, A3, A4, A5, A6, A7, A8, A9, A10, A11, A12, A13, A14) -> R {
    type Result = R;

    open spec fn accepted(self, f: &F) -> bool {
        call_requires(*f, (self.0, self.1, self.2, self.3, self.4, self.5, self.6, self.7, self.8, self.9, self.10, self.11, self.12, self.13, self.14))
    }

    open spec fn yields(self, f: &F, r: R) -> bool {
        call_ensures(*f, (self.0, self.1, self.2, self.3, self.4, self.5, self.6, self.7, self.8, self.9, self.10, self.11, self.12, self.13, self.14), r)
    }

    fn apply_to(self, f: &F) -> (r: R) {
        f(self.0, self.1, self.2, self.3, self.4, self.5, self.6, self.7, self.8, self.9, self.10, self.11, self.12, self.13, self.14)
    }
}

} // verus!
