//! A first-fit allocator over an explicit list of holes.
//!
//! Unlike the platform allocator, which threads its free list through the
//! managed bytes themselves, this allocator keeps the holes as plain
//! records in address order.  Every request is widened to a minimum
//! allocation size, which keeps tiny holes from clogging the list, and is
//! served from the start of the first hole large enough to hold it; a
//! request is only placed at a hole whose start already satisfies the
//! requested alignment.

use vstd::prelude::*;

verus! {

/// The smallest allocation the hole list hands out: requests below this
/// are widened to it.
pub const MIN_ALLOC_SIZE: usize = 64;

/// The widened size of a request.
pub open spec fn fl_actual(size: int) -> int {
    if size < MIN_ALLOC_SIZE {
        MIN_ALLOC_SIZE as int
    } else {
        size
    }
}

/// Whether the hole `h` (start address, length) can serve a widened
/// request of `actual` bytes at alignment `align`.
pub open spec fn fl_fits(h: (usize, usize), actual: int, align: int) -> bool {
    actual <= h.1 && (h.0 as int) % align == 0
}

/// The index of the first hole that can serve the request, or `-1` when
/// none can.  The scan is in address order, so the result is determined by
/// the hole list and the request alone.
pub open spec fn fl_first_fit(holes: Seq<(usize, usize)>, actual: int, align: int) -> int
    decreases holes.len(),
{
    if holes.len() == 0 {
        -1
    } else if fl_fits(holes[0], actual, align) {
        0
    } else {
        let r = fl_first_fit(holes.subrange(1, holes.len() as int), actual, align);
        if r < 0 {
            -1
        } else {
            r + 1
        }
    }
}

/// `fl_first_fit` returns the index of the first fitting hole.
proof fn lemma_fl_first_fit_at(holes: Seq<(usize, usize)>, actual: int, align: int, k: int)
    requires
        0 <= k < holes.len(),
        fl_fits(holes[k], actual, align),
        forall|j: int| 0 <= j < k ==> !fl_fits(#[trigger] holes[j], actual, align),
    ensures
        fl_first_fit(holes, actual, align) == k,
    decreases k,
{
    if k == 0 {
    } else {
        let sub = holes.subrange(1, holes.len() as int);
        assert(sub[k - 1] == holes[k]);
        assert(forall|j: int| 0 <= j < k - 1 ==> !fl_fits(#[trigger] sub[j], actual, align)) by {
            assert(forall|j: int| 0 <= j < k - 1 ==> sub[j] == #[trigger] holes[j + 1]);
        }
        lemma_fl_first_fit_at(sub, actual, align, k - 1);
    }
}

/// When no hole fits, `fl_first_fit` reports so.
proof fn lemma_fl_first_fit_none(holes: Seq<(usize, usize)>, actual: int, align: int)
    requires
        forall|j: int| 0 <= j < holes.len() ==> !fl_fits(#[trigger] holes[j], actual, align),
    ensures
        fl_first_fit(holes, actual, align) == -1,
    decreases holes.len(),
{
    if holes.len() == 0 {
    } else {
        let sub = holes.subrange(1, holes.len() as int);
        assert(forall|j: int| 0 <= j < sub.len() ==> !fl_fits(#[trigger] sub[j], actual, align))
            by {
            assert(forall|j: int| 0 <= j < sub.len() ==> sub[j] == #[trigger] holes[j + 1]);
        }
        lemma_fl_first_fit_none(sub, actual, align);
    }
}

/// The hole-list allocator.
pub struct FLAlloc {
    holes: Vec<(usize, usize)>,
}

impl FLAlloc {
    /// The holes (start address, length), in ascending address order.
    pub closed spec fn holes(self) -> Seq<(usize, usize)> {
        self.holes@
    }

    /// Holes are non-empty, do not wrap around the address space, and
    /// each ends at or before the next begins.
    pub closed spec fn wf(self) -> bool {
        &&& forall|i: int|
            0 <= i < self.holes@.len() ==> {
                let h = #[trigger] self.holes@[i];
                &&& h.1 > 0
                &&& h.0 + h.1 <= usize::MAX
            }
        &&& forall|i: int, j: int|
            0 <= i < j < self.holes@.len() ==> (#[trigger] self.holes@[i]).0 + self.holes@[i].1
                <= (#[trigger] self.holes@[j]).0
    }

    /// An allocator with no memory yet.
    pub fn new() -> (r: FLAlloc)
        ensures
            r.wf(),
            r.holes() == Seq::<(usize, usize)>::empty(),
    {
        FLAlloc { holes: Vec::new() }
    }

    /// Hands the allocator its memory region as one initial hole.  Runs
    /// once, from the startup path where interrupts are still disabled, so
    /// no critical section is needed.
    pub fn init(&mut self, heap_start: usize, heap_size: usize)
        requires
            heap_size > 0,
            heap_start + heap_size <= usize::MAX,
        ensures
            final(self).wf(),
            final(self).holes() == seq![(heap_start, heap_size)],
    {
        let mut holes: Vec<(usize, usize)> = Vec::new();
        holes.push((heap_start, heap_size));
        self.holes = holes;
    }

    /// Serves a request from the first hole that fits it.
    ///
    /// The size is widened to `MIN_ALLOC_SIZE`; a hole fits when it is at
    /// least that large and its start satisfies the alignment.  On success
    /// the hole's start address is returned and the hole shrinks by the
    /// widened size (disappearing on an exact fit); when no hole fits,
    /// `Err` is returned and the list is untouched.
    pub fn allocate_first_fit(&mut self, size: usize, align: usize) -> (r: Result<usize, ()>)
        requires
            old(self).wf(),
            1 <= align,
        ensures
            final(self).wf(),
            ({
                let actual = fl_actual(size as int);
                let k = fl_first_fit(old(self).holes(), actual, align as int);
                if k < 0 {
                    &&& r is Err
                    &&& *final(self) == *old(self)
                } else {
                    let h = old(self).holes()[k];
                    &&& r == Result::<usize, ()>::Ok(h.0)
                    &&& final(self).holes() == if h.1 == actual {
                        old(self).holes().remove(k)
                    } else {
                        old(self).holes().update(
                            k,
                            (((h.0 + actual) as usize), ((h.1 - actual) as usize)),
                        )
                    }
                }
            }),
    {
        let actual = if size < MIN_ALLOC_SIZE {
            MIN_ALLOC_SIZE
        } else {
            size
        };
        let mut i: usize = 0;
        while i < self.holes.len()
            invariant
                self.wf(),
                *self == *old(self),
                actual == fl_actual(size as int),
                1 <= align,
                0 <= i <= self.holes@.len(),
                forall|j: int|
                    0 <= j < i ==> !fl_fits(#[trigger] self.holes@[j], actual as int, align as int),
            decreases self.holes@.len() - i,
        {
            let (addr, len) = self.holes[i];
            if len >= actual && addr % align == 0 {
                proof {
                    assert(fl_fits(self.holes@[i as int], actual as int, align as int));
                    lemma_fl_first_fit_at(self.holes@, actual as int, align as int, i as int);
                }
                let ghost oh = self.holes@;
                if len == actual {
                    self.holes.remove(i);
                    proof {
                        assert(self.holes@ =~= oh.remove(i as int));
                        assert forall|x: int, y: int| 0 <= x < y < self.holes@.len() implies (
                        #[trigger] self.holes@[x]).0 + self.holes@[x].1 <= (
                        #[trigger] self.holes@[y]).0 by {
                            let xo = if x < i {
                                x
                            } else {
                                x + 1
                            };
                            let yo = if y < i {
                                y
                            } else {
                                y + 1
                            };
                            assert(self.holes@[x] == oh[xo]);
                            assert(self.holes@[y] == oh[yo]);
                            assert(oh[xo].0 + oh[xo].1 <= oh[yo].0);
                        }
                    }
                } else {
                    self.holes.set(i, (addr + actual, len - actual));
                    proof {
                        assert forall|x: int, y: int| 0 <= x < y < self.holes@.len() implies (
                        #[trigger] self.holes@[x]).0 + self.holes@[x].1 <= (
                        #[trigger] self.holes@[y]).0 by {
                            assert(oh[x].0 + oh[x].1 <= oh[y].0);
                        }
                    }
                }
                return Result::Ok(addr);
            }
            i = i + 1;
        }
        proof {
            lemma_fl_first_fit_none(self.holes@, actual as int, align as int);
        }
        Result::Err(())
    }
}

} // verus!
