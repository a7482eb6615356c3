//! A nullable owning handle to a value on the heap.

use vstd::prelude::*;

verus! {

/// Either null or the owner of one value of type `T`.
pub struct Ptr<T> {
    pub slot: Option<Box<T>>,
}

impl<T> View for Ptr<T> {
    type V = Option<T>;

    open spec fn view(&self) -> Option<T> {
        match self.slot {
            Some(b) => Some(*b),
            None => None,
        }
    }
}

impl<T> Ptr<T> {
    /// A handle to `x`.
    pub fn new(x: T) -> (r: Self)
        ensures
            r@ == Some(x),
    {
        Ptr { slot: Some(Box::new(x)) }
    }

    /// A handle to the value in `b`.
    pub fn from_box(b: Box<T>) -> (r: Self)
        ensures
            r@ == Some(*b),
    {
        Ptr { slot: Some(b) }
    }

    /// The null handle.
    pub fn null() -> (r: Self)
        ensures
            r@.is_none(),
    {
        Ptr { slot: None }
    }

    /// Whether the handle owns nothing.
    pub fn is_null(&self) -> (r: bool)
        ensures
            r == self@.is_none(),
    {
        self.slot.is_none()
    }

    /// The value behind a handle that is not null.
    pub fn get(&self) -> (r: &T)
        requires
            self@.is_some(),
        ensures
            *r == self@.unwrap(),
    {
        let b: &Box<T> = self.slot.as_ref().unwrap();
        &**b
    }

    /// Stores `val` behind the handle; a null handle gets a value.
    pub fn set(&mut self, val: T)
        ensures
            final(self)@ == Some(val),
    {
        self.slot = Some(Box::new(val));
    }

    /// Exchanges the value behind the handle with `val`.
    pub fn swap(&mut self, val: &mut T)
        requires
            old(self)@.is_some(),
        ensures
            final(self)@ == Some(*old(val)),
            *final(val) == old(self)@.unwrap(),
    {
        let mut taken: Option<Box<T>> = None;
        std::mem::swap(&mut self.slot, &mut taken);
        let mut held: T = *taken.unwrap();
        std::mem::swap(&mut held, val);
        self.slot = Some(Box::new(held));
    }

    /// Stores `val` behind the handle and returns the value that was there.
    pub fn replace(&mut self, val: T) -> (r: T)
        requires
            old(self)@.is_some(),
        ensures
            r == old(self)@.unwrap(),
            final(self)@ == Some(val),
    {
        let mut val = val;
        self.swap(&mut val);
        val
    }

    /// Returns the value behind the handle and leaves the default value of
    /// its type there.
    pub fn take(&mut self) -> (r: T) where T: Default
        requires
            old(self)@.is_some(),
        ensures
            r == old(self)@.unwrap(),
            final(self)@.is_some(),
            call_ensures(T::default, (), final(self)@.unwrap()),
    {
        self.replace(T::default())
    }
}

} // verus!
