//! The cell that holds the state of a scope.

use core::marker::PhantomData;
use core::mem::ManuallyDrop;
use core::ops::Deref;
use vstd::prelude::*;

verus! {

/// A cell whose value is taken or dropped once, by hand. A cell that goes out of
/// scope with its value does not drop the value.
pub struct ManuallyDropCell<T> {
    cell: Option<ManuallyDrop<T>>,
}

impl<T> View for ManuallyDropCell<T> {
    type V = Option<T>;

    /// The value, while it has been neither taken nor dropped.
    closed spec fn view(&self) -> Option<T> {
        match self.cell {
            Some(value) => Some(value@),
            None => None,
        }
    }
}

impl<T> ManuallyDropCell<T> {
    /// A cell that holds `t`.
    pub fn new(t: T) -> (cell: Self)
        ensures
            cell@ == Some(t),
    {
        ManuallyDropCell { cell: Some(ManuallyDrop::new(t)) }
    }

    /// Moves the value out.
    pub fn take(&mut self) -> (t: T)
        requires
            old(self)@ is Some,
        ensures
            final(self)@ is None,
            old(self)@ == Some(t),
    {
        ManuallyDrop::into_inner(self.cell.take().unwrap())
    }

    /// Drops the value where it is, which runs its destructor. The contract says that
    /// the value is gone from the cell, and nothing of the destructor.
    pub fn drop(&mut self)
        requires
            old(self)@ is Some,
        ensures
            final(self)@ is None,
    {
        let _value: T = self.take();
    }

    /// Puts a value into the cell, whose value has been taken.
    pub(crate) fn put(&mut self, t: T)
        requires
            old(self)@ is None,
        ensures
            final(self)@ == Some(t),
    {
        self.cell = Some(ManuallyDrop::new(t));
    }

    /// Lends the value, with a guard that is held for as long as the value is
    /// in use.
    pub fn borrow(&self) -> (lent: (&T, GuardPtr<T>))
        requires
            self@ is Some,
        ensures
            self@ == Some(*lent.0),
            lent.1@,
    {
        (self.cell.as_ref().unwrap().deref(), GuardPtr { held: true, value: PhantomData })
    }
}

/// Says whether a borrow of a [`ManuallyDropCell`] is still in use.
pub struct GuardPtr<T> {
    held: bool,
    value: PhantomData<T>,
}

impl<T> View for GuardPtr<T> {
    type V = bool;

    /// The borrow is still in use.
    closed spec fn view(&self) -> bool {
        self.held
    }
}

impl<T> GuardPtr<T> {
    /// Ends the use of the borrow.
    pub fn release(&mut self)
        ensures
            !final(self)@,
    {
        self.held = false;
    }

    /// Whether the borrow is still in use.
    pub fn is_held(&self) -> (held: bool)
        ensures
            held == self@,
    {
        self.held
    }
}

} // verus!
