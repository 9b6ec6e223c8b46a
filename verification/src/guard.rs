//! The shared-state guard: an exclusive-access cell with initialize-once
//! semantics, the discipline under which interrupt handlers and the main
//! loop share a protected structure.
//!
//! On the single-core device, exclusion is had by masking interrupts for
//! the duration of the critical section; here the cell captures the logical
//! contract of that discipline — the cell must be initialized exactly once
//! before use, and a critical section sees the whole value, transforms it,
//! and puts the result back before anyone else can look.

use vstd::prelude::*;

verus! {

/// A cell holding a value shared between contexts. Using it before `init`,
/// or calling `init` twice, is a programming error; verified callers are
/// held to that by the contracts, and unverified callers must test
/// `is_initialized` first.
pub struct GuardCell<T> {
    slot: Option<T>,
}

impl<T> GuardCell<T> {
    /// Whether `init` has established the protected value.
    pub closed spec fn is_init(&self) -> bool {
        self.slot is Some
    }

    /// The protected value.
    pub closed spec fn value(&self) -> T
        recommends
            self.is_init(),
    {
        self.slot->Some_0
    }

    /// A cell with no value yet.
    pub fn new() -> (cell: Self)
        ensures
            !cell.is_init(),
    {
        GuardCell { slot: None }
    }

    /// Establish the protected value. May be called exactly once, before
    /// any use of the cell.
    pub fn init(&mut self, value: T)
        requires
            !old(self).is_init(),
        ensures
            final(self).is_init(),
            final(self).value() == value,
    {
        self.slot = Some(value);
    }

    /// Whether the cell has been initialized.
    pub fn is_initialized(&self) -> (b: bool)
        ensures
            b == self.is_init(),
    {
        self.slot.is_some()
    }

    /// Read the protected value.
    pub fn borrow(&self) -> (r: &T)
        requires
            self.is_init(),
        ensures
            *r == self.value(),
    {
        match &self.slot {
            Some(v) => v,
            None => unreached(),
        }
    }

    /// Run one critical section: hand the whole protected value to `f` and
    /// store what it returns. No other context observes the value between
    /// the take and the put-back.
    pub fn with_exclusive_access<F: FnOnce(T) -> T>(&mut self, f: F)
        requires
            old(self).is_init(),
            call_requires(f, (old(self).value(),)),
        ensures
            final(self).is_init(),
            call_ensures(f, (old(self).value(),), final(self).value()),
    {
        let mut taken: Option<T> = None;
        core::mem::swap(&mut self.slot, &mut taken);
        let v = match taken {
            Some(v) => v,
            None => unreached(),
        };
        self.slot = Some(f(v));
    }
}

} // verus!
