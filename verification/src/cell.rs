//! Model of the register-width atomic cell.
//!
//! On the target, a cell wraps a value whose size matches a single load or
//! store instruction, so that main-line code and an interrupt handler can
//! share it without ever observing a torn value.  Values that also have a
//! hardware swap instruction (8-bit and 32-bit, not 16-bit) additionally
//! support an atomic exchange, the one primitive strong enough to build a
//! cross-context test-and-set.
//!
//! In this model the single-instruction property is captured by the marker
//! traits: only types of the right shapes implement them, and the cell's
//! operations are whole-value reads, writes and exchanges.

use vstd::prelude::*;

verus! {

/// Marker trait for types an `NdsCell` can hold: types that fit in one
/// register and can be loaded and stored in a single instruction (8-, 16-
/// or 32-bit wide, with alignment equal to their size).
pub trait NdsCellSafe: Copy {
}

impl NdsCellSafe for bool {
}

impl NdsCellSafe for char {
}

impl NdsCellSafe for u8 {
}

impl NdsCellSafe for u16 {
}

impl NdsCellSafe for u32 {
}

impl NdsCellSafe for i8 {
}

impl NdsCellSafe for i16 {
}

impl NdsCellSafe for i32 {
}

/// Marker trait for types whose width also has a hardware atomic exchange
/// instruction: the 8-bit and 32-bit shapes, but not the 16-bit ones.
pub trait NdsCellSwapSafe: NdsCellSafe {
}

impl NdsCellSwapSafe for bool {
}

impl NdsCellSwapSafe for char {
}

impl NdsCellSwapSafe for u8 {
}

impl NdsCellSwapSafe for u32 {
}

impl NdsCellSwapSafe for i8 {
}

impl NdsCellSwapSafe for i32 {
}

/// A cell holding a register-width value shared between main-line code and
/// an interrupt handler.  Every access moves the whole value at once, so no
/// reader ever sees a half-written value.
pub struct NdsCell<T> {
    inner: T,
}

impl<T: NdsCellSafe> NdsCell<T> {
    /// The value the cell currently holds.
    pub closed spec fn value(self) -> T {
        self.inner
    }

    /// Wraps a value in a new `NdsCell`.
    pub fn new(val: T) -> (r: Self)
        ensures
            r.value() == val,
    {
        NdsCell { inner: val }
    }

    /// Reads the value.
    pub fn read(&self) -> (r: T)
        ensures
            r == self.value(),
    {
        self.inner
    }

    /// Writes a new value.
    pub fn write(&mut self, val: T)
        ensures
            final(self).value() == val,
    {
        self.inner = val;
    }
}

impl<T: NdsCellSwapSafe> NdsCell<T> {
    /// Writes a new value in, and returns the old value.
    ///
    /// Unlike a `read` followed by a `write`, this is a single indivisible
    /// exchange: the returned value is exactly the one the new value
    /// replaced, with no window in between.
    pub fn swap(&mut self, val: T) -> (prev: T)
        ensures
            prev == old(self).value(),
            final(self).value() == val,
    {
        let prev = self.inner;
        self.inner = val;
        prev
    }
}

} // verus!
