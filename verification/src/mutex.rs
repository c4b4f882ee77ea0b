//! A software mutex built from the atomic exchange of an [`NdsCell`].
//!
//! The platform has no scheduler to block on, so contention is always a
//! programming error rather than a transient condition: `lock` demands an
//! unlocked mutex, while `try_lock` reports "unavailable" instead.  The
//! payload moves into the guard while the lock is held and back on
//! `unlock`, so a live guard is unique by construction: no second guard can
//! exist until the first is returned.

use vstd::prelude::*;
use crate::cell::NdsCell;

verus! {

/// A mutual-exclusion wrapper around a payload shared between main-line
/// code and an interrupt handler.  The lock flag is a single atomic cell;
/// acquisition is one atomic exchange.
pub struct NdsMutex<T> {
    locked: NdsCell<bool>,
    data: Option<T>,
}

/// Exclusive access to a mutex's payload, handed out by `lock` or
/// `try_lock` and given back by `unlock`.
pub struct MutexGuard<T> {
    /// The payload of the mutex, held exclusively while this guard lives.
    pub data: T,
}

impl<T> NdsMutex<T> {
    /// Whether the mutex is currently locked.
    pub closed spec fn is_locked(self) -> bool {
        self.locked.value()
    }

    /// The payload slot: the stored value when unlocked, `None` while a
    /// guard holds the payload.
    pub closed spec fn stored(self) -> Option<T> {
        self.data
    }

    /// The payload of an unlocked mutex.
    pub open spec fn value(self) -> T
        recommends
            !self.is_locked(),
    {
        match self.stored() {
            Option::Some(v) => v,
            Option::None => arbitrary(),
        }
    }

    /// The lock flag and the payload slot agree: the payload is away in a
    /// guard exactly while the mutex is locked.
    pub open spec fn wf(self) -> bool {
        self.is_locked() <==> self.stored() is None
    }

    /// Wraps a value in a new, unlocked mutex.
    pub fn new(in_data: T) -> (r: Self)
        ensures
            r.wf(),
            !r.is_locked(),
            r.value() == in_data,
    {
        NdsMutex { locked: NdsCell::new(false), data: Option::Some(in_data) }
    }

    /// Acquires the lock and hands out the payload.
    ///
    /// Locking an already-locked mutex is a fatal programming error on this
    /// platform (there is no scheduler to wait on), so the mutex must be
    /// unlocked; `try_lock` is the non-fatal variant.
    pub fn lock(&mut self) -> (g: MutexGuard<T>)
        requires
            old(self).wf(),
            !old(self).is_locked(),
        ensures
            final(self).wf(),
            final(self).is_locked(),
            g.data == old(self).value(),
    {
        let was_locked = self.locked.swap(true);
        assert(!was_locked);
        let taken = self.data.take();
        match taken {
            Option::Some(v) => MutexGuard { data: v },
            Option::None => unreached(),
        }
    }

    /// Attempts to acquire the lock without treating contention as fatal.
    ///
    /// Returns `None` exactly when the mutex is already locked, leaving it
    /// untouched; otherwise locks it and hands out the payload.
    pub fn try_lock(&mut self) -> (r: Option<MutexGuard<T>>)
        requires
            old(self).wf(),
        ensures
            final(self).wf(),
            r is Some <==> !old(self).is_locked(),
            final(self).is_locked(),
            match r {
                Option::Some(g) => g.data == old(self).value(),
                Option::None => final(self).stored() == old(self).stored(),
            },
    {
        let was_locked = self.locked.swap(true);
        if was_locked {
            Option::None
        } else {
            let taken = self.data.take();
            match taken {
                Option::Some(v) => Option::Some(MutexGuard { data: v }),
                Option::None => unreached(),
            }
        }
    }

    /// Releases the lock, putting the payload carried by the guard back
    /// into the mutex.
    ///
    /// Unlocking a mutex that is not locked is a fatal double-unlock error,
    /// so the mutex must be locked.
    pub fn unlock(&mut self, g: MutexGuard<T>)
        requires
            old(self).wf(),
            old(self).is_locked(),
        ensures
            final(self).wf(),
            !final(self).is_locked(),
            final(self).value() == g.data,
    {
        let was_locked = self.locked.swap(false);
        assert(was_locked);
        self.data = Option::Some(g.data);
    }
}

} // verus!
