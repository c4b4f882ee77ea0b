//! The free-list heap allocator for a fixed, non-relocatable memory region.
//!
//! The region is managed through a singly linked list of free blocks kept in
//! strictly ascending address order, with the list nodes stored inside the
//! free blocks themselves.  The first word of a free block holds the address
//! of the next free block; its lowest bit is the "is-large" flag.  When the
//! flag is set a second word holds the address of the first byte past the
//! block; when it is clear the block is exactly one word (the minimum
//! granularity of 4 bytes) long.  The address just past the region serves as
//! the end-of-list sentinel.  Allocated blocks carry no header at all, so
//! freeing a block requires the caller to echo the exact size it allocated.
//!
//! The region itself is modelled as an array of 4-byte words addressed by
//! plain integer addresses, with explicit reads and writes of the header
//! fields at known offsets; a thin layer outside the library can point the
//! same logic at a real memory region.  Two ghost views track the state: the
//! ascending sequence of free extents and the set of live allocations.  The
//! well-formedness invariant ties the word array to the views and keeps the
//! free extents separated, so adjacent free blocks are always coalesced.

use vstd::prelude::*;
use vstd::arithmetic::div_mod::lemma_add_mod_noop;
use vstd::arithmetic::div_mod::lemma_fundamental_div_mod;
use vstd::arithmetic::div_mod::lemma_mod_multiples_basic;
use vstd::arithmetic::div_mod::lemma_fundamental_div_mod_converse;

verus! {

/// Rounds a requested size up to the allocator's 4-byte granularity.
pub open spec fn round4(size: int) -> int {
    ((size + 3) / 4) * 4
}

/// Whether a free extent can hold a rounded request of `n` bytes.
pub open spec fn fits(b: (usize, usize), n: int) -> bool {
    n <= b.1 - b.0
}

/// The index of the first free extent that fits a rounded request of `n`
/// bytes, or `-1` when none does.  The scan is in list (address) order, so
/// the result is determined by the free-list state and the request alone.
pub open spec fn first_fit(free: Seq<(usize, usize)>, n: int) -> int
    decreases free.len(),
{
    if free.len() == 0 {
        -1
    } else if fits(free[0], n) {
        0
    } else {
        let r = first_fit(free.subrange(1, free.len() as int), n);
        if r < 0 {
            -1
        } else {
            r + 1
        }
    }
}

/// Whether address `a` lies in one of the extents of `s`.
pub open spec fn covers(s: Seq<(usize, usize)>, a: int) -> bool {
    exists|k: int| 0 <= k < s.len() && (#[trigger] s[k]).0 <= a < s[k].1
}

/// Whether address `a` lies in one of the extents of the set `s`.
pub open spec fn set_covers(s: Set<(usize, usize)>, a: int) -> bool {
    exists|b: (usize, usize)| #[trigger] s.contains(b) && b.0 <= a < b.1
}

/// An exactly divisible quantity is reassembled by its quotient.
proof fn lemma_exact_div4(x: int)
    requires
        x % 4 == 0,
    ensures
        4 * (x / 4) == x,
{
    lemma_fundamental_div_mod(x, 4);
}

/// A 4-aligned quantity is even, and its successor is odd.  Block starts
/// and the sentinel are 4-aligned, so the low bit of a stored successor
/// address is free to carry the is-large flag, and decoding the flag by
/// parity is exact.
proof fn lemma_flag_parity(x: int)
    requires
        x % 4 == 0,
        0 <= x,
    ensures
        x % 2 == 0,
        (x + 1) % 2 == 1,
{
    lemma_exact_div4(x);
    let q = x / 4;
    lemma_fundamental_div_mod_converse(x, 2, 2 * q, 0);
    lemma_fundamental_div_mod_converse(x + 1, 2, 2 * q, 1);
}

/// The sum of two 4-aligned quantities is 4-aligned.
proof fn lemma_aligned_add(a: int, b: int)
    requires
        a % 4 == 0,
        b % 4 == 0,
    ensures
        (a + b) % 4 == 0,
{
    lemma_add_mod_noop(a, b, 4);
}

/// The difference of two 4-aligned quantities is 4-aligned.
proof fn lemma_aligned_sub(a: int, b: int)
    requires
        a % 4 == 0,
        b % 4 == 0,
    ensures
        (a - b) % 4 == 0,
{
    lemma_fundamental_div_mod(a, 4);
    lemma_fundamental_div_mod(b, 4);
    lemma_fundamental_div_mod(a - b, 4);
    let q = (a - b) / 4;
    let r = (a - b) % 4;
    assert(4 * (a / 4) - 4 * (b / 4) == 4 * q + r);
    assert(4 * ((a / 4) - (b / 4) - q) == r) by (nonlinear_arith)
        requires
            4 * (a / 4) - 4 * (b / 4) == 4 * q + r,
    ;
    assert(r == 0) by (nonlinear_arith)
        requires
            4 * ((a / 4) - (b / 4) - q) == r,
            0 <= r < 4,
    ;
}

/// `first_fit` returns the index of the first fitting extent.
proof fn lemma_first_fit_at(free: Seq<(usize, usize)>, n: int, k: int)
    requires
        0 <= k < free.len(),
        fits(free[k], n),
        forall|j: int| 0 <= j < k ==> !fits(#[trigger] free[j], n),
    ensures
        first_fit(free, n) == k,
    decreases k,
{
    if k == 0 {
    } else {
        let sub = free.subrange(1, free.len() as int);
        assert(sub[k - 1] == free[k]);
        assert(forall|j: int| 0 <= j < k - 1 ==> !fits(#[trigger] sub[j], n)) by {
            assert(forall|j: int| 0 <= j < k - 1 ==> sub[j] == #[trigger] free[j + 1]);
        }
        lemma_first_fit_at(sub, n, k - 1);
    }
}

/// When no extent fits, `first_fit` reports so.
proof fn lemma_first_fit_none(free: Seq<(usize, usize)>, n: int)
    requires
        forall|j: int| 0 <= j < free.len() ==> !fits(#[trigger] free[j], n),
    ensures
        first_fit(free, n) == -1,
    decreases free.len(),
{
    if free.len() == 0 {
    } else {
        let sub = free.subrange(1, free.len() as int);
        assert(forall|j: int| 0 <= j < sub.len() ==> !fits(#[trigger] sub[j], n)) by {
            assert(forall|j: int| 0 <= j < sub.len() ==> sub[j] == #[trigger] free[j + 1]);
        }
        lemma_first_fit_none(sub, n);
    }
}

/// The free-list allocator.  `new` yields an inert allocator; `init` hands
/// it its memory region, exactly once, before the first request.
pub struct ACSLAlloc {
    /// Address of the first free block; equals the end-of-heap sentinel
    /// when no free block is left.
    free_list: usize,
    /// Address one past the managed region; never changes after `init`.
    heap_end: usize,
    /// Size of the managed region in bytes; never changes after `init`.
    heap_size: usize,
    /// Address of the managed region; never changes after `init`.
    heap_start: usize,
    /// The region as 4-byte words; free-block headers live here.
    mem: Vec<usize>,
    /// Ghost view: the free extents `(start, end)` in ascending order.
    free: Ghost<Seq<(usize, usize)>>,
    /// Ghost view: the live allocations `(start, end)`.
    busy: Ghost<Set<(usize, usize)>>,
}

impl ACSLAlloc {
    /// Whether `init` has been run.
    pub closed spec fn initialized(self) -> bool {
        self.heap_size != 0
    }

    /// The start address of the managed region.
    pub closed spec fn start(self) -> usize {
        self.heap_start
    }

    /// The size of the managed region in bytes.
    pub closed spec fn size(self) -> usize {
        self.heap_size
    }

    /// The address one past the managed region.
    pub closed spec fn end(self) -> usize {
        self.heap_end
    }

    /// The free extents, in strictly ascending, non-touching order.
    pub closed spec fn free_blocks(self) -> Seq<(usize, usize)> {
        self.free@
    }

    /// The extents currently handed out to callers.
    pub closed spec fn allocated(self) -> Set<(usize, usize)> {
        self.busy@
    }

    /// The word index backing address `a`.
    closed spec fn widx(self, a: usize) -> int {
        (a - self.heap_start) / 4
    }

    /// The word stored at 4-aligned address `a` of the region.
    closed spec fn word_at(self, a: usize) -> usize {
        self.mem@[self.widx(a)]
    }

    /// Geometry of the region: aligned, non-trivial, with room above it for
    /// the sentinel value, and fully backed by the word array.
    closed spec fn geom(self) -> bool {
        &&& self.heap_start % 4 == 0
        &&& self.heap_size % 4 == 0
        &&& self.heap_end % 4 == 0
        &&& 8 <= self.heap_size
        &&& self.heap_end == self.heap_start + self.heap_size
        &&& self.heap_start + self.heap_size + 4 <= usize::MAX
        &&& self.mem.len() == self.heap_size / 4
    }

    /// The free extents are aligned, inside the region, at least one word
    /// long, and strictly separated (so no two free blocks touch).
    closed spec fn free_wf(self) -> bool {
        &&& forall|k: int|
            0 <= k < self.free@.len() ==> {
                let b = #[trigger] self.free@[k];
                &&& b.0 % 4 == 0
                &&& b.1 % 4 == 0
                &&& self.heap_start <= b.0
                &&& b.0 + 4 <= b.1
                &&& b.1 <= self.heap_end
            }
        &&& forall|i: int, j: int|
            0 <= i < j < self.free@.len() ==> (#[trigger] self.free@[i]).1 < (
            #[trigger] self.free@[j]).0
    }

    /// The start of the free block after block `k`, or the sentinel.
    closed spec fn next_start(self, k: int) -> usize {
        if k + 1 < self.free@.len() {
            self.free@[k + 1].0
        } else {
            self.heap_end
        }
    }

    /// The header words of free block `k` encode its successor and extent:
    /// a one-word block stores the bare successor address, a larger block
    /// stores the successor address with the low flag bit set plus an end
    /// marker in its second word.
    closed spec fn block_encoded(self, k: int) -> bool {
        let b = self.free@[k];
        let nxt = self.next_start(k);
        if b.1 - b.0 == 4 {
            self.word_at(b.0) == nxt
        } else {
            &&& self.word_at(b.0) == nxt + 1
            &&& self.word_at((b.0 + 4) as usize) == b.1
        }
    }

    /// The list head and every free-block header agree with the ghost view.
    closed spec fn encoding_wf(self) -> bool {
        &&& self.free_list == if self.free@.len() == 0 {
            self.heap_end
        } else {
            self.free@[0].0
        }
        &&& forall|k: int| 0 <= k < self.free@.len() ==> #[trigger] self.block_encoded(k)
    }

    /// Live allocations are aligned, inside the region, non-empty, disjoint
    /// from one another and from every free extent.
    closed spec fn busy_wf(self) -> bool {
        &&& self.busy@.finite()
        &&& forall|b: (usize, usize)|
            #[trigger] self.busy@.contains(b) ==> {
                &&& b.0 % 4 == 0
                &&& b.1 % 4 == 0
                &&& self.heap_start <= b.0
                &&& b.0 + 4 <= b.1
                &&& b.1 <= self.heap_end
            }
        &&& forall|b1: (usize, usize), b2: (usize, usize)|
            #[trigger] self.busy@.contains(b1) && #[trigger] self.busy@.contains(b2) && b1 != b2
                ==> b1.1 <= b2.0 || b2.1 <= b1.0
        &&& forall|b: (usize, usize), k: int|
            #[trigger] self.busy@.contains(b) && 0 <= k < self.free@.len() ==> b.1 <= (
            #[trigger] self.free@[k]).0 || self.free@[k].1 <= b.0
    }

    /// Every address of the region is either free or allocated.
    closed spec fn covered(self) -> bool {
        forall|a: int|
            self.heap_start <= a < self.heap_end ==> #[trigger] covers(self.free@, a)
                || set_covers(self.busy@, a)
    }

    /// The allocator's full invariant; established by `init` and preserved
    /// by `alloc` and `dealloc`.
    pub closed spec fn wf(self) -> bool {
        &&& self.geom()
        &&& self.free_wf()
        &&& self.encoding_wf()
        &&& self.busy_wf()
        &&& self.covered()
    }

    /// An inert allocator that owns no memory yet.
    pub fn new() -> (r: ACSLAlloc)
        ensures
            !r.initialized(),
    {
        ACSLAlloc {
            free_list: 0,
            heap_end: 0,
            heap_size: 0,
            heap_start: 0,
            mem: Vec::new(),
            free: Ghost(Seq::empty()),
            busy: Ghost(Set::empty()),
        }
    }

    /// Reads the word at 4-aligned address `addr` of the region.
    fn word(&self, addr: usize) -> (w: usize)
        requires
            self.geom(),
            self.heap_start <= addr,
            addr + 4 <= self.heap_end,
            addr % 4 == 0,
        ensures
            w == self.word_at(addr),
    {
        proof {
            lemma_aligned_sub(addr as int, self.heap_start as int);
            lemma_exact_div4(addr - self.heap_start);
            lemma_exact_div4(self.heap_size as int);
        }
        let i = (addr - self.heap_start) / 4;
        assert(i < self.mem.len());
        self.mem[i]
    }

    /// Writes the word at 4-aligned address `addr` of the region, leaving
    /// every other word untouched.
    fn set_word(&mut self, addr: usize, v: usize)
        requires
            old(self).geom(),
            old(self).heap_start <= addr,
            addr + 4 <= old(self).heap_end,
            addr % 4 == 0,
        ensures
            final(self).geom(),
            final(self).mem@ == old(self).mem@.update(old(self).widx(addr), v),
            final(self).word_at(addr) == v,
            final(self).free_list == old(self).free_list,
            final(self).heap_start == old(self).heap_start,
            final(self).heap_end == old(self).heap_end,
            final(self).heap_size == old(self).heap_size,
            final(self).free == old(self).free,
            final(self).busy == old(self).busy,
            final(self).mem@.len() == old(self).mem@.len(),
    {
        proof {
            lemma_aligned_sub(addr as int, self.heap_start as int);
            lemma_exact_div4(addr - self.heap_start);
            lemma_exact_div4(self.heap_size as int);
        }
        let i = (addr - self.heap_start) / 4;
        assert(i < self.mem.len());
        self.mem.set(i, v);
        proof {
            assert(self.widx(addr) == i as int);
        }
    }

    /// A write to one aligned word of the region leaves every other
    /// aligned word intact: distinct 4-aligned addresses back distinct
    /// words.
    proof fn lemma_word_frame(pre: ACSLAlloc, post: ACSLAlloc, waddr: usize, v: usize, a: usize)
        requires
            pre.geom(),
            post.heap_start == pre.heap_start,
            post.mem@ == pre.mem@.update(pre.widx(waddr), v),
            waddr % 4 == 0,
            pre.heap_start <= waddr,
            waddr + 4 <= pre.heap_end,
            a % 4 == 0,
            pre.heap_start <= a,
            a + 4 <= pre.heap_end,
            a != waddr,
        ensures
            post.word_at(a) == pre.word_at(a),
    {
        lemma_aligned_sub(a as int, pre.heap_start as int);
        lemma_exact_div4(a - pre.heap_start);
        lemma_aligned_sub(waddr as int, pre.heap_start as int);
        lemma_exact_div4(waddr - pre.heap_start);
        lemma_exact_div4(pre.heap_size as int);
        assert(pre.widx(a) != pre.widx(waddr));
        assert(0 <= pre.widx(a) < pre.mem@.len());
    }

    /// Hands the allocator its memory region and sets up the single initial
    /// free block spanning all of it.  Must run exactly once, before the
    /// first request; on the target this happens during startup, with
    /// interrupts still disabled, so no critical section is needed here.
    pub fn init(&mut self, heap_start: usize, heap_size: usize)
        requires
            !old(self).initialized(),
            heap_start % 4 == 0,
            heap_size % 4 == 0,
            8 <= heap_size,
            heap_start + heap_size + 4 <= usize::MAX,
        ensures
            final(self).wf(),
            final(self).initialized(),
            final(self).start() == heap_start,
            final(self).size() == heap_size,
            final(self).end() == heap_start + heap_size,
            final(self).free_blocks() == seq![
                (heap_start, (heap_start + heap_size) as usize),
            ],
            final(self).allocated() == Set::<(usize, usize)>::empty(),
    {
        proof {
            lemma_exact_div4(heap_size as int);
            lemma_aligned_add(heap_start as int, heap_size as int);
        }
        self.heap_start = heap_start;
        self.heap_size = heap_size;
        self.heap_end = heap_start + heap_size;
        let words = heap_size / 4;
        let mut mem: Vec<usize> = Vec::new();
        while mem.len() < words
            invariant
                mem.len() <= words,
            decreases words - mem.len(),
        {
            mem.push(0);
        }
        self.mem = mem;
        // The whole region is one large free block: successor is the
        // sentinel, with the is-large flag in the low bit, and the end
        // marker is the sentinel itself.
        self.set_word(heap_start, self.heap_end + 1);
        self.set_word(heap_start + 4, self.heap_end);
        self.free_list = heap_start;
        let ghost initial_free: Seq<(usize, usize)> = seq![(heap_start, self.heap_end)];
        self.free = Ghost(initial_free);
        self.busy = Ghost(Set::empty());
        proof {
            let s = self.free@;
            assert(s[0] == (heap_start, self.heap_end));
            assert(self.block_encoded(0));
            assert forall|a: int|
                self.heap_start <= a < self.heap_end implies #[trigger] covers(self.free@, a)
                || set_covers(self.busy@, a) by {
                assert(s[0].0 <= a < s[0].1);
            }
        }
    }

    /// Walks the free list and returns the free extents in ascending
    /// address order, exactly as the ghost view describes them.
    pub fn free_extents(&self) -> (r: Vec<(usize, usize)>)
        requires
            self.wf(),
        ensures
            r@ == self.free_blocks(),
    {
        let mut r: Vec<(usize, usize)> = Vec::new();
        let mut cur = self.free_list;
        let ghost mut k: int = 0;
        proof {
            assert(r@ =~= self.free@.subrange(0, 0));
        }
        while cur != self.heap_end
            invariant
                self.wf(),
                0 <= k <= self.free@.len(),
                cur == if k < self.free@.len() {
                    self.free@[k].0
                } else {
                    self.heap_end
                },
                r@ == self.free@.subrange(0, k),
            decreases self.free@.len() - k,
        {
            proof {
                if k >= self.free@.len() {
                    assert(cur == self.heap_end);
                }
                assert(k < self.free@.len());
                assert(self.block_encoded(k));
            }
            let w = self.word(cur);
            proof {
                let b = self.free@[k];
                let ns = self.next_start(k);
                // Block starts and the sentinel are 4-aligned, so the flag
                // bit decodes exactly by parity.
                if k + 1 < self.free@.len() {
                    assert(self.free@[k + 1].0 % 4 == 0);
                }
                lemma_flag_parity(ns as int);
                if b.1 - b.0 == 4 {
                    assert(w == ns);
                } else {
                    assert(w == ns + 1);
                }
            }
            let is_large = w % 2 == 1;
            proof {
                assert(is_large <==> self.free@[k].1 - self.free@[k].0 > 4);
                if is_large {
                    assert(cur + 8 <= self.free@[k].1) by {
                        lemma_aligned_sub(
                            self.free@[k].1 as int,
                            self.free@[k].0 as int,
                        );
                        lemma_exact_div4(self.free@[k].1 - self.free@[k].0);
                    }
                }
            }
            let blk_end = if is_large {
                self.word(cur + 4)
            } else {
                cur + 4
            };
            let nxt = if is_large {
                w - 1
            } else {
                w
            };
            proof {
                assert(nxt == self.next_start(k));
                assert(blk_end == self.free@[k].1);
            }
            r.push((cur, blk_end));
            cur = nxt;
            proof {
                assert(self.free@.subrange(0, k).push(self.free@[k]) =~= self.free@.subrange(
                    0,
                    k + 1,
                ));
                if k + 1 < self.free@.len() {
                    assert(self.free@[k].1 < self.free@[k + 1].0);
                    assert(self.free@[k + 1].0 < self.heap_end);
                }
                k = k + 1;
            }
        }
        proof {
            if k < self.free@.len() {
                assert(self.free@[k].0 + 4 <= self.free@[k].1);
                assert(self.free@[k].0 < self.heap_end);
            }
            assert(k == self.free@.len());
            assert(r@ =~= self.free@);
        }
        r
    }

    /// How the allocator state after an exact-fit unlink relates to the
    /// state before it: free block `k` is gone from the view and handed to
    /// the caller, and the only word that changed is the predecessor's
    /// successor field (or the list head), redirected past the block with
    /// the flag bit kept.
    spec fn exact_shape(
        pre: ACSLAlloc,
        post: ACSLAlloc,
        k: int,
        cur: usize,
        nxt: usize,
        have_prev: bool,
        prev_s: usize,
    ) -> bool {
        &&& pre.wf()
        &&& 0 <= k < pre.free@.len()
        &&& cur == pre.free@[k].0
        &&& nxt == pre.next_start(k)
        &&& (have_prev <==> k > 0)
        &&& (have_prev ==> prev_s == pre.free@[k - 1].0)
        &&& post.heap_start == pre.heap_start
        &&& post.heap_end == pre.heap_end
        &&& post.heap_size == pre.heap_size
        &&& post.free@ == pre.free@.remove(k)
        &&& post.busy@ == pre.busy@.insert((cur, pre.free@[k].1))
        &&& post.free_list == if have_prev {
            pre.free_list
        } else {
            nxt
        }
        &&& post.mem@ == if have_prev {
            pre.mem@.update(pre.widx(prev_s), ((pre.word_at(prev_s) - cur + nxt) as usize))
        } else {
            pre.mem@
        }
        &&& (have_prev ==> pre.word_at(prev_s) - cur + nxt <= usize::MAX)
    }

    /// An exact-fit unlink keeps the free list well formed and separated.
    /// After an exact-fit unlink, block `j` of the new list is still
    /// encoded correctly in the heap words.
    #[verifier::rlimit(100)]
    proof fn exact_encoded_at(
        pre: ACSLAlloc,
        post: ACSLAlloc,
        k: int,
        cur: usize,
        nxt: usize,
        have_prev: bool,
        prev_s: usize,
        j: int,
    )
        requires
            Self::exact_shape(pre, post, k, cur, nxt, have_prev, prev_s),
            0 <= j < post.free@.len(),
        ensures
            post.block_encoded(j),
    {
        let of = pre.free@;
        let nf = post.free@;
        let jo = if j < k {
            j
        } else {
            j + 1
        };
        assert(pre.block_encoded(jo));
        assert(nf[j] == of[jo]);
        if have_prev {
            assert(pre.block_encoded(k - 1));
            assert(pre.next_start(k - 1) == cur);
        }
        let pv = (pre.word_at(prev_s) - cur + nxt) as usize;
        if jo == k - 1 {
            assert(post.next_start(j) == nxt);
            lemma_aligned_sub(prev_s as int, pre.heap_start as int);
            lemma_exact_div4(prev_s - pre.heap_start);
            lemma_exact_div4(pre.heap_size as int);
            assert(0 <= pre.widx(prev_s) < pre.mem@.len());
            assert(post.word_at(prev_s) == pv);
            if of[jo].1 - of[jo].0 > 4 {
                Self::lemma_word_frame(
                    pre,
                    post,
                    prev_s,
                    pv,
                    (of[jo].0 + 4) as usize,
                );
            }
        } else {
            assert(post.next_start(j) == pre.next_start(jo));
            if have_prev {
                if jo < k - 1 {
                    assert(of[jo].1 < of[k - 1].0);
                } else {
                    assert(of[k - 1].1 < of[jo].0);
                }
                Self::lemma_word_frame(pre, post, prev_s, pv, of[jo].0);
                if of[jo].1 - of[jo].0 > 4 {
                    Self::lemma_word_frame(
                        pre,
                        post,
                        prev_s,
                        pv,
                        (of[jo].0 + 4) as usize,
                    );
                }
            }
        }
    }

    #[verifier::rlimit(100)]
    proof fn exact_keeps_free(
        pre: ACSLAlloc,
        post: ACSLAlloc,
        k: int,
        cur: usize,
        nxt: usize,
        have_prev: bool,
        prev_s: usize,
    )
        requires
            Self::exact_shape(pre, post, k, cur, nxt, have_prev, prev_s),
        ensures
            post.geom(),
            post.free_wf(),
            post.encoding_wf(),
    {
        let of = pre.free@;
        let nf = post.free@;
        assert(forall|j: int| 0 <= j < k ==> nf[j] == #[trigger] of[j]);
        assert(forall|j: int| k <= j < nf.len() ==> #[trigger] nf[j] == of[j + 1]);
        assert forall|i: int, j: int| 0 <= i < j < nf.len() implies (#[trigger] nf[i]).1 < (
        #[trigger] nf[j]).0 by {
            let io = if i < k {
                i
            } else {
                i + 1
            };
            let jj = if j < k {
                j
            } else {
                j + 1
            };
            assert(nf[i] == of[io]);
            assert(nf[j] == of[jj]);
            assert(of[io].1 < of[jj].0);
        }
        assert forall|j: int| 0 <= j < nf.len() implies #[trigger] post.block_encoded(j) by {
            Self::exact_encoded_at(pre, post, k, cur, nxt, have_prev, prev_s, j);
        }
        if k == 0 {
            if nf.len() == 0 {
            } else {
                assert(nf[0] == of[1]);
            }
        }
    }

    /// An exact-fit unlink keeps the allocation set disjoint and the heap
    /// fully covered.
    #[verifier::rlimit(100)]
    proof fn exact_keeps_busy(
        pre: ACSLAlloc,
        post: ACSLAlloc,
        k: int,
        cur: usize,
        nxt: usize,
        have_prev: bool,
        prev_s: usize,
    )
        requires
            Self::exact_shape(pre, post, k, cur, nxt, have_prev, prev_s),
        ensures
            post.busy_wf(),
            post.covered(),
    {
        let of = pre.free@;
        let nf = post.free@;
        let nb = post.busy@;
        let blk = (cur, of[k].1);
        assert(forall|j: int| 0 <= j < k ==> nf[j] == #[trigger] of[j]);
        assert(forall|j: int| k <= j < nf.len() ==> #[trigger] nf[j] == of[j + 1]);
        assert forall|b: (usize, usize), j: int|
            #[trigger] nb.contains(b) && 0 <= j < nf.len() implies b.1 <= (#[trigger] nf[j]).0
            || nf[j].1 <= b.0 by {
            let jo = if j < k {
                j
            } else {
                j + 1
            };
            assert(nf[j] == of[jo]);
            if b == blk && !pre.busy@.contains(b) {
                if jo < k {
                    assert(of[jo].1 < of[k].0);
                } else {
                    assert(of[k].1 < of[jo].0);
                }
            }
        }
        assert forall|b1: (usize, usize), b2: (usize, usize)|
            #[trigger] nb.contains(b1) && #[trigger] nb.contains(b2) && b1 != b2 implies b1.1
            <= b2.0 || b2.1 <= b1.0 by {
            if b1 == blk && !pre.busy@.contains(b1) {
                assert(pre.busy@.contains(b2));
            } else if b2 == blk && !pre.busy@.contains(b2) {
                assert(pre.busy@.contains(b1));
            }
        }
        assert forall|a: int| post.heap_start <= a < post.heap_end implies #[trigger] covers(
            nf,
            a,
        ) || set_covers(nb, a) by {
            assert(covers(of, a) || set_covers(pre.busy@, a));
            if set_covers(pre.busy@, a) {
                let b = choose|b: (usize, usize)| #[trigger] pre.busy@.contains(b) && b.0 <= a
                    < b.1;
                assert(nb.contains(b));
            } else {
                let j = choose|j: int| 0 <= j < of.len() && (#[trigger] of[j]).0 <= a < of[j].1;
                if j == k {
                    assert(nb.contains(blk) && blk.0 <= a < blk.1);
                } else {
                    let jn = if j < k {
                        j
                    } else {
                        j - 1
                    };
                    assert(nf[jn] == of[j]);
                    assert(0 <= jn < nf.len() && nf[jn].0 <= a < nf[jn].1);
                }
            }
        }
    }

    /// Removes free block `k`, which a request of exactly `n` bytes is
    /// about to occupy whole, from the list: the predecessor's successor
    /// field (or the list head) is redirected past it, keeping the
    /// predecessor's own is-large flag bit.
    #[verifier::rlimit(100)]
    fn alloc_exact(
        &mut self,
        cur: usize,
        n: usize,
        nxt: usize,
        have_prev: bool,
        prev_s: usize,
        Ghost(k): Ghost<int>,
    )
        requires
            old(self).wf(),
            0 <= k < old(self).free@.len(),
            cur == old(self).free@[k].0,
            old(self).free@[k].1 - cur == n,
            nxt == old(self).next_start(k),
            have_prev <==> k > 0,
            have_prev ==> prev_s == old(self).free@[k - 1].0,
        ensures
            final(self).wf(),
            final(self).free@ == old(self).free@.remove(k),
            final(self).busy@ == old(self).busy@.insert((cur, old(self).free@[k].1)),
            final(self).heap_start == old(self).heap_start,
            final(self).heap_end == old(self).heap_end,
            final(self).heap_size == old(self).heap_size,
    {
        let ghost of = self.free@;
        let ghost blk = (cur, of[k].1);
        if have_prev {
            proof {
                assert(self.block_encoded(k - 1));
                assert(self.next_start(k - 1) == cur);
            }
            let pw = self.word(prev_s);
            proof {
                assert(pw == cur || pw == cur + 1);
            }
            self.set_word(prev_s, pw - cur + nxt);
        } else {
            self.free_list = nxt;
        }
        self.free = Ghost(of.remove(k));
        self.busy = Ghost(self.busy@.insert(blk));
        proof {
            assert(Self::exact_shape(*old(self), *self, k, cur, nxt, have_prev, prev_s));
            Self::exact_keeps_free(*old(self), *self, k, cur, nxt, have_prev, prev_s);
            Self::exact_keeps_busy(*old(self), *self, k, cur, nxt, have_prev, prev_s);
        }
    }

    /// Two distinct aligned in-range addresses back distinct words of the
    /// region.
    proof fn lemma_widx_ne(pre: ACSLAlloc, a: usize, b: usize)
        requires
            pre.geom(),
            a % 4 == 0,
            pre.heap_start <= a,
            a + 4 <= pre.heap_end,
            b % 4 == 0,
            pre.heap_start <= b,
            b + 4 <= pre.heap_end,
            a != b,
        ensures
            pre.widx(a) != pre.widx(b),
            0 <= pre.widx(a) < pre.mem@.len(),
            0 <= pre.widx(b) < pre.mem@.len(),
    {
        lemma_aligned_sub(a as int, pre.heap_start as int);
        lemma_exact_div4(a - pre.heap_start);
        lemma_aligned_sub(b as int, pre.heap_start as int);
        lemma_exact_div4(b - pre.heap_start);
        lemma_exact_div4(pre.heap_size as int);
    }

    /// An aligned in-range address backs a word of the region.
    proof fn lemma_widx_in(pre: ACSLAlloc, a: usize)
        requires
            pre.geom(),
            a % 4 == 0,
            pre.heap_start <= a,
            a + 4 <= pre.heap_end,
        ensures
            0 <= pre.widx(a) < pre.mem@.len(),
    {
        lemma_aligned_sub(a as int, pre.heap_start as int);
        lemma_exact_div4(a - pre.heap_start);
        lemma_exact_div4(pre.heap_size as int);
    }

    /// How the allocator state after carving `n` bytes off the front of
    /// free block `k` relates to the state before it: the block's header
    /// moves forward by `n`, the predecessor's successor field (or the
    /// list head) follows it, and the carved front is handed to the
    /// caller.
    spec fn shrink_shape(
        pre: ACSLAlloc,
        post: ACSLAlloc,
        k: int,
        cur: usize,
        n: usize,
        nxt: usize,
        have_prev: bool,
        prev_s: usize,
    ) -> bool {
        let ns = (cur + n) as usize;
        let e = pre.free@[k].1;
        let base = if e - ns == 4 {
            pre.mem@.update(pre.widx(ns), nxt)
        } else {
            pre.mem@.update(pre.widx(ns), (nxt + 1) as usize).update(
                pre.widx((ns + 4) as usize),
                e,
            )
        };
        &&& pre.wf()
        &&& 0 <= k < pre.free@.len()
        &&& cur == pre.free@[k].0
        &&& n % 4 == 0
        &&& 4 <= n
        &&& n < e - cur
        &&& nxt == pre.next_start(k)
        &&& (have_prev <==> k > 0)
        &&& (have_prev ==> prev_s == pre.free@[k - 1].0)
        &&& post.heap_start == pre.heap_start
        &&& post.heap_end == pre.heap_end
        &&& post.heap_size == pre.heap_size
        &&& post.free@ == pre.free@.update(k, (ns, e))
        &&& post.busy@ == pre.busy@.insert((cur, ns))
        &&& post.free_list == if have_prev {
            pre.free_list
        } else {
            ns
        }
        &&& post.mem@ == if have_prev {
            base.update(pre.widx(prev_s), ((pre.word_at(prev_s) - cur + ns) as usize))
        } else {
            base
        }
    }

    /// After a shrink, the shrunk block `k` itself is encoded correctly.
    #[verifier::rlimit(100)]
    proof fn shrink_encoded_self(
        pre: ACSLAlloc,
        post: ACSLAlloc,
        k: int,
        cur: usize,
        n: usize,
        nxt: usize,
        have_prev: bool,
        prev_s: usize,
    )
        requires
            Self::shrink_shape(pre, post, k, cur, n, nxt, have_prev, prev_s),
        ensures
            post.block_encoded(k),
    {
        let of = pre.free@;
        let ns = (cur + n) as usize;
        let e = of[k].1;
        let ns4 = (ns + 4) as usize;
        lemma_aligned_add(cur as int, n as int);
        lemma_aligned_sub(e as int, ns as int);
        lemma_exact_div4(e - ns);
        Self::lemma_widx_in(pre, ns);
        if e - ns != 4 {
            Self::lemma_widx_ne(pre, ns, ns4);
        }
        if have_prev {
            assert(of[k - 1].1 < of[k].0);
            Self::lemma_widx_ne(pre, prev_s, ns);
            if e - ns != 4 {
                Self::lemma_widx_ne(pre, prev_s, ns4);
            }
        }
        assert(post.free@[k] == (ns, e));
        assert(post.next_start(k) == nxt);
        if e - ns == 4 {
            assert(post.word_at(ns) == nxt);
        } else {
            assert(post.word_at(ns) == nxt + 1);
            assert(post.word_at(ns4) == e);
        }
    }

    /// After a shrink, the predecessor block `k - 1` is encoded correctly:
    /// its successor field now holds the moved header's address, with its
    /// own flag bit kept.
    #[verifier::rlimit(100)]
    proof fn shrink_encoded_prev(
        pre: ACSLAlloc,
        post: ACSLAlloc,
        k: int,
        cur: usize,
        n: usize,
        nxt: usize,
        have_prev: bool,
        prev_s: usize,
    )
        requires
            Self::shrink_shape(pre, post, k, cur, n, nxt, have_prev, prev_s),
            have_prev,
        ensures
            post.block_encoded(k - 1),
    {
        let of = pre.free@;
        let ns = (cur + n) as usize;
        let e = of[k].1;
        let ns4 = (ns + 4) as usize;
        lemma_aligned_add(cur as int, n as int);
        lemma_aligned_sub(e as int, ns as int);
        lemma_exact_div4(e - ns);
        assert(pre.block_encoded(k - 1));
        assert(pre.next_start(k - 1) == cur);
        assert(of[k - 1].1 < cur);
        Self::lemma_widx_in(pre, prev_s);
        Self::lemma_widx_ne(pre, prev_s, ns);
        if e - ns != 4 {
            Self::lemma_widx_ne(pre, prev_s, ns4);
        }
        let pv = (pre.word_at(prev_s) - cur + ns) as usize;
        assert(post.next_start(k - 1) == ns);
        assert(post.word_at(prev_s) == pv);
        if of[k - 1].1 - of[k - 1].0 > 4 {
            let p4 = (prev_s + 4) as usize;
            assert(p4 + 4 <= of[k - 1].1 + 4);
            assert(p4 + 4 <= pre.heap_end);
            Self::lemma_widx_ne(pre, p4, ns);
            if e - ns != 4 {
                Self::lemma_widx_ne(pre, p4, ns4);
            }
            Self::lemma_widx_ne(pre, p4, prev_s);
            assert(post.word_at(p4) == pre.word_at(p4));
        }
    }

    /// After a shrink, every block other than `k` and its predecessor is
    /// untouched and still encoded correctly.
    #[verifier::rlimit(100)]
    proof fn shrink_encoded_other(
        pre: ACSLAlloc,
        post: ACSLAlloc,
        k: int,
        cur: usize,
        n: usize,
        nxt: usize,
        have_prev: bool,
        prev_s: usize,
        j: int,
    )
        requires
            Self::shrink_shape(pre, post, k, cur, n, nxt, have_prev, prev_s),
            0 <= j < post.free@.len(),
            j != k,
            have_prev ==> j != k - 1,
        ensures
            post.block_encoded(j),
    {
        let of = pre.free@;
        let nf = post.free@;
        let ns = (cur + n) as usize;
        let e = of[k].1;
        let ns4 = (ns + 4) as usize;
        lemma_aligned_add(cur as int, n as int);
        lemma_aligned_sub(e as int, ns as int);
        lemma_exact_div4(e - ns);
        assert(pre.block_encoded(j));
        assert(nf[j] == of[j]);
        if j < k {
            assert(of[j].1 < of[k].0);
        } else {
            assert(of[k].1 < of[j].0);
        }
        if have_prev {
            if j < k - 1 {
                assert(of[j].1 < of[k - 1].0);
            } else {
                assert(of[k - 1].1 < of[j].0);
            }
        }
        let h0 = of[j].0;
        let h4 = (of[j].0 + 4) as usize;
        Self::lemma_widx_ne(pre, h0, ns);
        if e - ns != 4 {
            Self::lemma_widx_ne(pre, h0, ns4);
        }
        if have_prev {
            Self::lemma_widx_ne(pre, h0, prev_s);
        }
        assert(post.word_at(h0) == pre.word_at(h0));
        if of[j].1 - of[j].0 > 4 {
            Self::lemma_widx_ne(pre, h4, ns);
            if e - ns != 4 {
                Self::lemma_widx_ne(pre, h4, ns4);
            }
            if have_prev {
                Self::lemma_widx_ne(pre, h4, prev_s);
            }
            assert(post.word_at(h4) == pre.word_at(h4));
        }
        assert(post.next_start(j) == pre.next_start(j));
    }

    /// A shrink keeps the free list well formed and separated.
    #[verifier::rlimit(100)]
    proof fn shrink_keeps_free(
        pre: ACSLAlloc,
        post: ACSLAlloc,
        k: int,
        cur: usize,
        n: usize,
        nxt: usize,
        have_prev: bool,
        prev_s: usize,
    )
        requires
            Self::shrink_shape(pre, post, k, cur, n, nxt, have_prev, prev_s),
        ensures
            post.geom(),
            post.free_wf(),
            post.encoding_wf(),
    {
        let of = pre.free@;
        let nf = post.free@;
        let ns = (cur + n) as usize;
        lemma_aligned_add(cur as int, n as int);
        lemma_aligned_sub(of[k].1 as int, ns as int);
        lemma_exact_div4(of[k].1 - ns);
        assert(forall|j: int| 0 <= j < nf.len() && j != k ==> nf[j] == #[trigger] of[j]);
        assert(nf[k] == (ns, of[k].1));
        assert(ns + 4 <= of[k].1);
        assert forall|i: int, j: int| 0 <= i < j < nf.len() implies (#[trigger] nf[i]).1 < (
        #[trigger] nf[j]).0 by {
            assert(of[i].1 < of[j].0);
        }
        assert forall|j: int| 0 <= j < nf.len() implies #[trigger] post.block_encoded(j) by {
            if j == k {
                Self::shrink_encoded_self(pre, post, k, cur, n, nxt, have_prev, prev_s);
            } else if have_prev && j == k - 1 {
                Self::shrink_encoded_prev(pre, post, k, cur, n, nxt, have_prev, prev_s);
            } else {
                Self::shrink_encoded_other(pre, post, k, cur, n, nxt, have_prev, prev_s, j);
            }
        }
        if k == 0 {
            assert(post.free_list == nf[0].0);
        }
    }

    /// A shrink keeps the allocation set disjoint and the heap fully
    /// covered.
    #[verifier::rlimit(100)]
    proof fn shrink_keeps_busy(
        pre: ACSLAlloc,
        post: ACSLAlloc,
        k: int,
        cur: usize,
        n: usize,
        nxt: usize,
        have_prev: bool,
        prev_s: usize,
    )
        requires
            Self::shrink_shape(pre, post, k, cur, n, nxt, have_prev, prev_s),
        ensures
            post.busy_wf(),
            post.covered(),
    {
        let of = pre.free@;
        let nf = post.free@;
        let nb = post.busy@;
        let ns = (cur + n) as usize;
        let blk = (cur, ns);
        lemma_aligned_add(cur as int, n as int);
        assert(forall|j: int| 0 <= j < nf.len() && j != k ==> nf[j] == #[trigger] of[j]);
        assert(nf[k] == (ns, of[k].1));
        assert forall|b: (usize, usize), j: int|
            #[trigger] nb.contains(b) && 0 <= j < nf.len() implies b.1 <= (#[trigger] nf[j]).0
            || nf[j].1 <= b.0 by {
            if b == blk && !pre.busy@.contains(b) {
                if j < k {
                    assert(of[j].1 < of[k].0);
                } else if j > k {
                    assert(of[k].1 < of[j].0);
                }
            } else {
                assert(pre.busy@.contains(b));
                if j == k {
                    assert(b.1 <= of[k].0 || of[k].1 <= b.0);
                }
            }
        }
        assert forall|b1: (usize, usize), b2: (usize, usize)|
            #[trigger] nb.contains(b1) && #[trigger] nb.contains(b2) && b1 != b2 implies b1.1
            <= b2.0 || b2.1 <= b1.0 by {
            if b1 == blk && !pre.busy@.contains(b1) {
                assert(pre.busy@.contains(b2));
            } else if b2 == blk && !pre.busy@.contains(b2) {
                assert(pre.busy@.contains(b1));
            }
        }
        assert forall|a: int| post.heap_start <= a < post.heap_end implies #[trigger] covers(
            nf,
            a,
        ) || set_covers(nb, a) by {
            assert(covers(of, a) || set_covers(pre.busy@, a));
            if set_covers(pre.busy@, a) {
                let b = choose|b: (usize, usize)| #[trigger] pre.busy@.contains(b) && b.0 <= a
                    < b.1;
                assert(nb.contains(b));
            } else {
                let j = choose|j: int| 0 <= j < of.len() && (#[trigger] of[j]).0 <= a < of[j].1;
                if j == k {
                    if a < ns {
                        assert(nb.contains(blk) && blk.0 <= a < blk.1);
                    } else {
                        assert(0 <= k < nf.len() && nf[k].0 <= a < nf[k].1);
                    }
                } else {
                    assert(nf[j] == of[j]);
                    assert(0 <= j < nf.len() && nf[j].0 <= a < nf[j].1);
                }
            }
        }
    }

    /// Carves `n` bytes off the front of free block `k`, which is strictly
    /// larger than the request: the block's header moves forward by `n`
    /// and the predecessor's successor field (or the list head) follows
    /// it.  If the remaining tail is exactly one word the shrunk block is
    /// stored in the short form, otherwise with the is-large flag and an
    /// end marker.
    #[verifier::rlimit(100)]
    fn alloc_shrink(
        &mut self,
        cur: usize,
        n: usize,
        blk_end: usize,
        nxt: usize,
        have_prev: bool,
        prev_s: usize,
        Ghost(k): Ghost<int>,
    )
        requires
            old(self).wf(),
            0 <= k < old(self).free@.len(),
            cur == old(self).free@[k].0,
            blk_end == old(self).free@[k].1,
            n % 4 == 0,
            4 <= n,
            n < blk_end - cur,
            nxt == old(self).next_start(k),
            have_prev <==> k > 0,
            have_prev ==> prev_s == old(self).free@[k - 1].0,
        ensures
            final(self).wf(),
            final(self).free@ == old(self).free@.update(k, (((cur + n) as usize), blk_end)),
            final(self).busy@ == old(self).busy@.insert((cur, (cur + n) as usize)),
            final(self).heap_start == old(self).heap_start,
            final(self).heap_end == old(self).heap_end,
            final(self).heap_size == old(self).heap_size,
    {
        let ghost of = self.free@;
        proof {
            lemma_aligned_add(cur as int, n as int);
            lemma_aligned_sub(blk_end as int, (cur + n) as int);
            lemma_exact_div4(blk_end - (cur + n));
        }
        let ns = cur + n;
        let ghost blk = (cur, ns);
        if blk_end - ns == 4 {
            self.set_word(ns, nxt);
        } else {
            self.set_word(ns, nxt + 1);
            self.set_word(ns + 4, blk_end);
        }
        if have_prev {
            proof {
                assert(old(self).block_encoded(k - 1));
                assert(old(self).next_start(k - 1) == cur);
                assert(of[k - 1].1 < cur);
                Self::lemma_widx_ne(*old(self), prev_s, ns);
                if blk_end - ns != 4 {
                    Self::lemma_widx_ne(*old(self), prev_s, (ns + 4) as usize);
                }
                assert(self.word_at(prev_s) == old(self).word_at(prev_s));
                assert(old(self).word_at(prev_s) == cur || old(self).word_at(prev_s) == cur
                    + 1);
            }
            let pw = self.word(prev_s);
            self.set_word(prev_s, pw - cur + ns);
        } else {
            self.free_list = ns;
        }
        self.free = Ghost(of.update(k, (ns, blk_end)));
        self.busy = Ghost(self.busy@.insert(blk));
        proof {
            assert(Self::shrink_shape(*old(self), *self, k, cur, n, nxt, have_prev, prev_s));
            Self::shrink_keeps_free(*old(self), *self, k, cur, n, nxt, have_prev, prev_s);
            Self::shrink_keeps_busy(*old(self), *self, k, cur, n, nxt, have_prev, prev_s);
        }
    }

    /// Allocates `size` bytes with the given alignment.
    ///
    /// An alignment above the allocator's fixed 4-byte granularity is
    /// rejected.  The size is rounded up to the granularity, and the
    /// ascending free list is scanned front to back; the request is served
    /// from the start of the first block it fits in, so the result is a
    /// function of the free-list state and the request alone.  On success
    /// the address of the new allocation is returned; when the request is
    /// rejected or no free block can hold it, `None` is returned and the
    /// allocator is left exactly as it was.
    #[verifier::rlimit(100)]
    pub fn allocate(&mut self, size: usize, align: usize) -> (r: Option<usize>)
        requires
            old(self).wf(),
        ensures
            final(self).wf(),
            final(self).start() == old(self).start(),
            final(self).size() == old(self).size(),
            final(self).end() == old(self).end(),
            r is None ==> *final(self) == *old(self),
            size == 0 ==> *final(self) == *old(self),
            ({
                let n = round4(size as int);
                let k = first_fit(old(self).free_blocks(), n);
                if align > 4 || size + 3 > usize::MAX || n > old(self).size() || k < 0 {
                    r is None
                } else {
                    let b = old(self).free_blocks()[k];
                    &&& r == Option::Some(b.0)
                    &&& final(self).allocated() == if size == 0 {
                        old(self).allocated()
                    } else {
                        old(self).allocated().insert((b.0, (b.0 + n) as usize))
                    }
                    &&& final(self).free_blocks() == if size == 0 {
                        old(self).free_blocks()
                    } else if b.1 - b.0 == n {
                        old(self).free_blocks().remove(k)
                    } else {
                        old(self).free_blocks().update(k, (((b.0 + n) as usize), b.1))
                    }
                }
            }),
    {
        if align > 4 {
            return Option::None;
        }
        if size > usize::MAX - 3 {
            return Option::None;
        }
        let n = (size + 3) / 4 * 4;
        proof {
            assert(n == round4(size as int));
            lemma_fundamental_div_mod((size + 3) as int, 4);
            lemma_mod_multiples_basic(((size + 3) as int) / 4, 4);
            assert(n % 4 == 0);
            assert(size <= n <= size + 3);
        }
        if n > self.heap_size {
            return Option::None;
        }
        if n == 0 {
            // A zero-byte request reports the first free block without
            // touching anything, and fails only on an empty list.
            proof {
                if self.free@.len() > 0 {
                    assert(fits(self.free@[0], 0));
                    assert(first_fit(self.free@, 0) == 0);
                    assert(self.free@[0].0 + 4 <= self.free@[0].1);
                    assert(self.free@[0].0 < self.heap_end);
                } else {
                    assert(first_fit(self.free@, 0) == -1);
                }
            }
            if self.free_list == self.heap_end {
                return Option::None;
            } else {
                return Option::Some(self.free_list);
            }
        }
        let mut cur = self.free_list;
        let mut have_prev = false;
        let mut prev_s: usize = 0;
        let ghost mut k: int = 0;
        while cur != self.heap_end
            invariant
                self.wf(),
                *self == *old(self),
                4 <= n <= self.heap_size,
                n % 4 == 0,
                n == round4(size as int),
                1 <= size,
                size + 3 <= usize::MAX,
                align <= 4,
                0 <= k <= self.free@.len(),
                cur == if k < self.free@.len() {
                    self.free@[k].0
                } else {
                    self.heap_end
                },
                forall|j: int| 0 <= j < k ==> !fits(#[trigger] self.free@[j], n as int),
                have_prev <==> k > 0,
                have_prev ==> prev_s == self.free@[k - 1].0,
            decreases self.free@.len() - k,
        {
            proof {
                if k >= self.free@.len() {
                    assert(cur == self.heap_end);
                }
                assert(k < self.free@.len());
                assert(self.block_encoded(k));
                if k + 1 < self.free@.len() {
                    assert(self.free@[k + 1].0 % 4 == 0);
                    assert(self.free@[k].1 < self.free@[k + 1].0);
                }
                lemma_flag_parity(self.next_start(k) as int);
            }
            let w = self.word(cur);
            proof {
                if self.free@[k].1 - self.free@[k].0 == 4 {
                    assert(w == self.next_start(k));
                } else {
                    assert(w == self.next_start(k) + 1);
                }
            }
            let is_large = w % 2 == 1;
            proof {
                assert(is_large <==> self.free@[k].1 - self.free@[k].0 > 4);
                if is_large {
                    assert(cur + 8 <= self.free@[k].1) by {
                        lemma_aligned_sub(self.free@[k].1 as int, self.free@[k].0 as int);
                        lemma_exact_div4(self.free@[k].1 - self.free@[k].0);
                    }
                }
            }
            let blk_end = if is_large {
                self.word(cur + 4)
            } else {
                cur + 4
            };
            let nxt = if is_large {
                w - 1
            } else {
                w
            };
            proof {
                assert(nxt == self.next_start(k));
                assert(blk_end == self.free@[k].1);
            }
            if n <= blk_end - cur {
                proof {
                    assert(fits(self.free@[k], n as int));
                    lemma_first_fit_at(self.free@, n as int, k);
                }
                if blk_end - cur == n {
                    self.alloc_exact(cur, n, nxt, have_prev, prev_s, Ghost(k));
                } else {
                    self.alloc_shrink(cur, n, blk_end, nxt, have_prev, prev_s, Ghost(k));
                }
                return Option::Some(cur);
            }
            prev_s = cur;
            have_prev = true;
            cur = nxt;
            proof {
                k = k + 1;
            }
        }
        proof {
            if k < self.free@.len() {
                assert(self.free@[k].0 + 4 <= self.free@[k].1);
                assert(self.free@[k].0 < self.heap_end);
            }
            assert(k == self.free@.len());
            lemma_first_fit_none(self.free@, n as int);
        }
        Option::None
    }

    /// How the state after extending the predecessor block over a freed
    /// region relates to the state before: block `k - 1`, which ended
    /// exactly where the freed region begins, now runs to `xe`; when the
    /// freed region touched the following free block `k`, that block is
    /// absorbed too.  Only the predecessor's two header words change.
    spec fn extend_shape(
        pre: ACSLAlloc,
        post: ACSLAlloc,
        k: int,
        ptr: usize,
        pe: usize,
        prev_s: usize,
        yv: usize,
        xe: usize,
        merge_next: bool,
    ) -> bool {
        &&& pre.wf()
        &&& pre.busy@.contains((ptr, pe))
        &&& 0 < k <= pre.free@.len()
        &&& prev_s == pre.free@[k - 1].0
        &&& pre.free@[k - 1].1 == ptr
        &&& forall|j: int| 0 <= j < k ==> (#[trigger] pre.free@[j]).1 <= ptr
        &&& (k < pre.free@.len() ==> pre.free@[k].0 >= pe)
        &&& (merge_next <==> (k < pre.free@.len() && pre.free@[k].0 == pe))
        &&& yv == if merge_next {
            pre.next_start(k)
        } else if k < pre.free@.len() {
            pre.free@[k].0
        } else {
            pre.heap_end
        }
        &&& xe == if merge_next {
            pre.free@[k].1
        } else {
            pe
        }
        &&& post.heap_start == pre.heap_start
        &&& post.heap_end == pre.heap_end
        &&& post.heap_size == pre.heap_size
        &&& post.free_list == pre.free_list
        &&& post.free@ == if merge_next {
            pre.free@.update(k - 1, (prev_s, xe)).remove(k)
        } else {
            pre.free@.update(k - 1, (prev_s, xe))
        }
        &&& post.busy@ == pre.busy@.remove((ptr, pe))
        &&& post.mem@ == pre.mem@.update(pre.widx(prev_s), (yv + 1) as usize).update(
            pre.widx((prev_s + 4) as usize),
            xe,
        )
    }

    /// After extending the predecessor, the merged block is encoded
    /// correctly: it is always in the large form.
    #[verifier::rlimit(100)]
    proof fn extend_encoded_prev(
        pre: ACSLAlloc,
        post: ACSLAlloc,
        k: int,
        ptr: usize,
        pe: usize,
        prev_s: usize,
        yv: usize,
        xe: usize,
        merge_next: bool,
    )
        requires
            Self::extend_shape(pre, post, k, ptr, pe, prev_s, yv, xe, merge_next),
        ensures
            post.block_encoded(k - 1),
    {
        let of = pre.free@;
        let nf = post.free@;
        let p4 = (prev_s + 4) as usize;
        Self::lemma_widx_in(pre, prev_s);
        Self::lemma_widx_ne(pre, prev_s, p4);
        assert(nf[k - 1] == (prev_s, xe));
        assert(prev_s + 8 <= xe);
        assert(post.word_at(p4) == xe);
        assert(post.word_at(prev_s) == yv + 1);
        if merge_next {
            assert(nf.len() == of.len() - 1);
            assert(forall|j: int| k <= j < nf.len() ==> #[trigger] nf[j] == of[j + 1]);
            assert(post.next_start(k - 1) == pre.next_start(k));
        } else {
            assert(post.next_start(k - 1) == yv);
        }
    }

    /// After extending the predecessor, every other block is untouched and
    /// still encoded correctly.
    #[verifier::rlimit(100)]
    proof fn extend_encoded_other(
        pre: ACSLAlloc,
        post: ACSLAlloc,
        k: int,
        ptr: usize,
        pe: usize,
        prev_s: usize,
        yv: usize,
        xe: usize,
        merge_next: bool,
        j: int,
    )
        requires
            Self::extend_shape(pre, post, k, ptr, pe, prev_s, yv, xe, merge_next),
            0 <= j < post.free@.len(),
            j != k - 1,
        ensures
            post.block_encoded(j),
    {
        let of = pre.free@;
        let nf = post.free@;
        let p4 = (prev_s + 4) as usize;
        let jo = if j < k - 1 || !merge_next {
            j
        } else {
            j + 1
        };
        assert(pre.block_encoded(jo));
        assert(nf[j] == of[jo]);
        if jo < k - 1 {
            assert(of[jo].1 < of[k - 1].0);
        } else {
            assert(of[k - 1].1 < of[jo].0);
        }
        let h0 = of[jo].0;
        let h4 = (of[jo].0 + 4) as usize;
        Self::lemma_widx_ne(pre, h0, prev_s);
        Self::lemma_widx_ne(pre, h0, p4);
        assert(post.word_at(h0) == pre.word_at(h0));
        if of[jo].1 - of[jo].0 > 4 {
            Self::lemma_widx_ne(pre, h4, prev_s);
            Self::lemma_widx_ne(pre, h4, p4);
            assert(post.word_at(h4) == pre.word_at(h4));
        }
        if j < k - 2 {
            assert(post.next_start(j) == pre.next_start(jo));
        } else if j == k - 2 {
            assert(post.next_start(j) == prev_s);
            assert(pre.next_start(j) == prev_s);
        } else {
            assert(post.next_start(j) == pre.next_start(jo));
        }
    }

    /// Extending the predecessor keeps the free list well formed.
    #[verifier::rlimit(100)]
    proof fn extend_keeps_free(
        pre: ACSLAlloc,
        post: ACSLAlloc,
        k: int,
        ptr: usize,
        pe: usize,
        prev_s: usize,
        yv: usize,
        xe: usize,
        merge_next: bool,
    )
        requires
            Self::extend_shape(pre, post, k, ptr, pe, prev_s, yv, xe, merge_next),
        ensures
            post.geom(),
            post.free_wf(),
            post.encoding_wf(),
    {
        let of = pre.free@;
        let nf = post.free@;
        assert(forall|j: int| 0 <= j < k - 1 ==> nf[j] == #[trigger] of[j]);
        assert(nf[k - 1] == (prev_s, xe));
        if merge_next {
            assert(forall|j: int| k <= j < nf.len() ==> #[trigger] nf[j] == of[j + 1]);
        } else {
            assert(forall|j: int| k <= j < nf.len() ==> #[trigger] nf[j] == of[j]);
        }
        assert forall|i: int, j: int| 0 <= i < j < nf.len() implies (#[trigger] nf[i]).1 < (
        #[trigger] nf[j]).0 by {
            let io = if i < k - 1 || !merge_next {
                i
            } else {
                i + 1
            };
            let jj = if j < k - 1 || !merge_next {
                j
            } else {
                j + 1
            };
            if i == k - 1 {
                assert(nf[i].1 == xe);
                if merge_next {
                    assert(of[k].1 < of[jj].0);
                } else {
                    assert(of[jj].0 >= pe);
                    if jj > k {
                        assert(of[k].0 < of[jj].0);
                    }
                }
            } else if j == k - 1 {
                assert(of[io].1 < of[k - 1].0);
            } else {
                assert(of[io].1 < of[jj].0);
            }
        }
        assert forall|j: int| 0 <= j < nf.len() implies #[trigger] post.block_encoded(j) by {
            if j == k - 1 {
                Self::extend_encoded_prev(pre, post, k, ptr, pe, prev_s, yv, xe, merge_next);
            } else {
                Self::extend_encoded_other(
                    pre,
                    post,
                    k,
                    ptr,
                    pe,
                    prev_s,
                    yv,
                    xe,
                    merge_next,
                    j,
                );
            }
        }
        assert(nf.len() > 0);
        assert(nf[0].0 == of[0].0);
        assert(post.free_list == nf[0].0);
    }

    /// Extending the predecessor keeps the allocation set disjoint, keeps
    /// the heap fully covered, and frees exactly the returned region.
    #[verifier::rlimit(100)]
    proof fn extend_keeps_busy(
        pre: ACSLAlloc,
        post: ACSLAlloc,
        k: int,
        ptr: usize,
        pe: usize,
        prev_s: usize,
        yv: usize,
        xe: usize,
        merge_next: bool,
    )
        requires
            Self::extend_shape(pre, post, k, ptr, pe, prev_s, yv, xe, merge_next),
        ensures
            post.busy_wf(),
            post.covered(),
            forall|a: int|
                #![trigger covers(post.free@, a)]
                #![trigger covers(pre.free@, a)]
                covers(post.free@, a) <==> covers(pre.free@, a) || (ptr <= a < pe),
    {
        let of = pre.free@;
        let nf = post.free@;
        let nb = post.busy@;
        assert(forall|j: int| 0 <= j < k - 1 ==> nf[j] == #[trigger] of[j]);
        assert(nf[k - 1] == (prev_s, xe));
        if merge_next {
            assert(forall|j: int| k <= j < nf.len() ==> #[trigger] nf[j] == of[j + 1]);
        } else {
            assert(forall|j: int| k <= j < nf.len() ==> #[trigger] nf[j] == of[j]);
        }
        assert forall|b: (usize, usize), j: int|
            #[trigger] nb.contains(b) && 0 <= j < nf.len() implies b.1 <= (#[trigger] nf[j]).0
            || nf[j].1 <= b.0 by {
            assert(pre.busy@.contains(b) && b != (ptr, pe));
            if j == k - 1 {
                assert(b.1 <= of[k - 1].0 || b.0 >= of[k - 1].1);
                assert(b.1 <= ptr || b.0 >= pe);
                if merge_next {
                    assert(b.1 <= of[k].0 || b.0 >= of[k].1);
                }
                if !(b.1 <= of[k - 1].0) {
                    assert(b.0 >= ptr);
                    assert(b.0 + 4 <= b.1);
                    assert(b.0 >= pe);
                    if merge_next {
                        assert(b.0 >= of[k].1);
                    }
                }
            } else {
                let jo = if j < k - 1 || !merge_next {
                    j
                } else {
                    j + 1
                };
                assert(nf[j] == of[jo]);
            }
        }
        assert forall|a: int| post.heap_start <= a < post.heap_end implies #[trigger] covers(
            nf,
            a,
        ) || set_covers(nb, a) by {
            assert(covers(of, a) || set_covers(pre.busy@, a));
            if set_covers(pre.busy@, a) {
                let b = choose|b: (usize, usize)| #[trigger] pre.busy@.contains(b) && b.0 <= a
                    < b.1;
                if b == (ptr, pe) {
                    assert(0 <= k - 1 < nf.len() && nf[k - 1].0 <= a < nf[k - 1].1);
                } else {
                    assert(nb.contains(b));
                }
            } else {
                let j = choose|j: int| 0 <= j < of.len() && (#[trigger] of[j]).0 <= a < of[j].1;
                if j == k - 1 {
                    assert(nf[k - 1].0 <= a < nf[k - 1].1);
                } else if merge_next && j == k {
                    assert(nf[k - 1].0 <= a < nf[k - 1].1);
                } else {
                    let jn = if j < k - 1 || !merge_next {
                        j
                    } else {
                        j - 1
                    };
                    assert(nf[jn] == of[j]);
                    assert(0 <= jn < nf.len() && nf[jn].0 <= a < nf[jn].1);
                }
            }
        }
        assert forall|a: int| true implies (covers(nf, a) <==> covers(of, a) || (ptr <= a
            < pe)) by {
            if covers(nf, a) {
                let j = choose|j: int| 0 <= j < nf.len() && (#[trigger] nf[j]).0 <= a < nf[j].1;
                if j == k - 1 {
                    if a < ptr {
                        assert(of[k - 1].0 <= a < of[k - 1].1);
                    } else if a >= pe {
                        assert(merge_next && of[k].0 <= a < of[k].1);
                    }
                } else {
                    let jo = if j < k - 1 || !merge_next {
                        j
                    } else {
                        j + 1
                    };
                    assert(of[jo] == nf[j]);
                    assert(0 <= jo < of.len() && of[jo].0 <= a < of[jo].1);
                }
            }
            if ptr <= a < pe {
                assert(0 <= k - 1 < nf.len() && nf[k - 1].0 <= a < nf[k - 1].1);
            }
            if covers(of, a) {
                let j = choose|j: int| 0 <= j < of.len() && (#[trigger] of[j]).0 <= a < of[j].1;
                if j == k - 1 || (merge_next && j == k) {
                    assert(nf[k - 1].0 <= a < nf[k - 1].1);
                } else {
                    let jn = if j < k - 1 || !merge_next {
                        j
                    } else {
                        j - 1
                    };
                    assert(nf[jn] == of[j]);
                    assert(0 <= jn < nf.len() && nf[jn].0 <= a < nf[jn].1);
                }
            }
        }
    }

    /// Merges a freed region into the free block that ends exactly where
    /// the region begins, absorbing the following free block too when the
    /// region touches it: the predecessor's header is rewritten in the
    /// large form with the new successor and end marker.
    #[verifier::rlimit(100)]
    fn free_extend_prev(
        &mut self,
        ptr: usize,
        pe: usize,
        prev_s: usize,
        yv: usize,
        xe: usize,
        merge_next: bool,
        Ghost(k): Ghost<int>,
    )
        requires
            old(self).wf(),
            old(self).busy@.contains((ptr, pe)),
            0 < k <= old(self).free@.len(),
            prev_s == old(self).free@[k - 1].0,
            old(self).free@[k - 1].1 == ptr,
            forall|j: int| 0 <= j < k ==> (#[trigger] old(self).free@[j]).1 <= ptr,
            k < old(self).free@.len() ==> old(self).free@[k].0 >= pe,
            merge_next <==> (k < old(self).free@.len() && old(self).free@[k].0 == pe),
            yv == if merge_next {
                old(self).next_start(k)
            } else if k < old(self).free@.len() {
                old(self).free@[k].0
            } else {
                old(self).heap_end
            },
            xe == if merge_next {
                old(self).free@[k].1
            } else {
                pe
            },
        ensures
            final(self).wf(),
            final(self).free@ == if merge_next {
                old(self).free@.update(k - 1, (prev_s, xe)).remove(k)
            } else {
                old(self).free@.update(k - 1, (prev_s, xe))
            },
            final(self).busy@ == old(self).busy@.remove((ptr, pe)),
            final(self).heap_start == old(self).heap_start,
            final(self).heap_end == old(self).heap_end,
            final(self).heap_size == old(self).heap_size,
            forall|a: int|
                #![trigger covers(final(self).free@, a)]
                #![trigger covers(old(self).free@, a)]
                covers(final(self).free@, a) <==> covers(old(self).free@, a) || (ptr <= a < pe),
    {
        let ghost of = self.free@;
        proof {
            Self::lemma_widx_ne(*old(self), prev_s, (prev_s + 4) as usize);
        }
        self.set_word(prev_s, yv + 1);
        self.set_word(prev_s + 4, xe);
        self.free = Ghost(
            if merge_next {
                of.update(k - 1, (prev_s, xe)).remove(k)
            } else {
                of.update(k - 1, (prev_s, xe))
            },
        );
        self.busy = Ghost(self.busy@.remove((ptr, pe)));
        proof {
            assert(Self::extend_shape(
                *old(self),
                *self,
                k,
                ptr,
                pe,
                prev_s,
                yv,
                xe,
                merge_next,
            ));
            Self::extend_keeps_free(*old(self), *self, k, ptr, pe, prev_s, yv, xe, merge_next);
            Self::extend_keeps_busy(*old(self), *self, k, ptr, pe, prev_s, yv, xe, merge_next);
        }
    }

    /// How the state after inserting a freed region as a free block of its
    /// own relates to the state before: the region becomes block `k`,
    /// absorbing the following free block when the region touches it; the
    /// predecessor's successor field (or the list head) now points at it.
    spec fn insert_shape(
        pre: ACSLAlloc,
        post: ACSLAlloc,
        k: int,
        ptr: usize,
        pe: usize,
        have_prev: bool,
        prev_s: usize,
        cur: usize,
        yv: usize,
        xe: usize,
        merge_next: bool,
    ) -> bool {
        let base = if xe - ptr == 4 {
            pre.mem@.update(pre.widx(ptr), yv)
        } else {
            pre.mem@.update(pre.widx(ptr), (yv + 1) as usize).update(
                pre.widx((ptr + 4) as usize),
                xe,
            )
        };
        &&& pre.wf()
        &&& pre.busy@.contains((ptr, pe))
        &&& 0 <= k <= pre.free@.len()
        &&& (have_prev <==> k > 0)
        &&& (have_prev ==> prev_s == pre.free@[k - 1].0 && pre.free@[k - 1].1 < ptr)
        &&& forall|j: int| 0 <= j < k ==> (#[trigger] pre.free@[j]).1 <= ptr
        &&& (k < pre.free@.len() ==> pre.free@[k].0 >= pe)
        &&& (merge_next <==> (k < pre.free@.len() && pre.free@[k].0 == pe))
        &&& cur == if k < pre.free@.len() {
            pre.free@[k].0
        } else {
            pre.heap_end
        }
        &&& yv == if merge_next {
            pre.next_start(k)
        } else {
            cur
        }
        &&& xe == if merge_next {
            pre.free@[k].1
        } else {
            pe
        }
        &&& post.heap_start == pre.heap_start
        &&& post.heap_end == pre.heap_end
        &&& post.heap_size == pre.heap_size
        &&& post.free_list == if have_prev {
            pre.free_list
        } else {
            ptr
        }
        &&& post.free@ == if merge_next {
            pre.free@.update(k, (ptr, xe))
        } else {
            pre.free@.insert(k, (ptr, pe))
        }
        &&& post.busy@ == pre.busy@.remove((ptr, pe))
        &&& post.mem@ == if have_prev {
            base.update(pre.widx(prev_s), ((pre.word_at(prev_s) - cur + ptr) as usize))
        } else {
            base
        }
        &&& (have_prev ==> pre.word_at(prev_s) == cur || pre.word_at(prev_s) == cur + 1)
    }

    /// After the insertion, the new block `k` is encoded correctly.
    #[verifier::rlimit(100)]
    proof fn insert_encoded_self(
        pre: ACSLAlloc,
        post: ACSLAlloc,
        k: int,
        ptr: usize,
        pe: usize,
        have_prev: bool,
        prev_s: usize,
        cur: usize,
        yv: usize,
        xe: usize,
        merge_next: bool,
    )
        requires
            Self::insert_shape(pre, post, k, ptr, pe, have_prev, prev_s, cur, yv, xe, merge_next),
        ensures
            post.block_encoded(k),
    {
        let of = pre.free@;
        let nf = post.free@;
        let pt4 = (ptr + 4) as usize;
        Self::lemma_widx_in(pre, ptr);
        if xe - ptr != 4 {
            Self::lemma_widx_ne(pre, ptr, pt4);
        }
        if have_prev {
            assert(of[k - 1].1 < ptr);
            Self::lemma_widx_ne(pre, prev_s, ptr);
            if xe - ptr != 4 {
                Self::lemma_widx_ne(pre, prev_s, pt4);
            }
        }
        assert(nf[k] == (ptr, xe));
        if merge_next {
            assert(forall|j: int| k < j < nf.len() ==> #[trigger] nf[j] == of[j]);
            assert(post.next_start(k) == pre.next_start(k));
        } else {
            assert(forall|j: int| k < j < nf.len() ==> #[trigger] nf[j] == of[j - 1]);
            assert(post.next_start(k) == cur);
        }
        if xe - ptr == 4 {
            assert(post.word_at(ptr) == yv);
        } else {
            assert(post.word_at(ptr) == yv + 1);
            assert(post.word_at(pt4) == xe);
        }
    }

    /// After the insertion, the predecessor block is encoded correctly:
    /// its successor field now points at the new block, flag bit kept.
    #[verifier::rlimit(100)]
    proof fn insert_encoded_prev(
        pre: ACSLAlloc,
        post: ACSLAlloc,
        k: int,
        ptr: usize,
        pe: usize,
        have_prev: bool,
        prev_s: usize,
        cur: usize,
        yv: usize,
        xe: usize,
        merge_next: bool,
    )
        requires
            Self::insert_shape(pre, post, k, ptr, pe, have_prev, prev_s, cur, yv, xe, merge_next),
            have_prev,
        ensures
            post.block_encoded(k - 1),
    {
        let of = pre.free@;
        let nf = post.free@;
        let pt4 = (ptr + 4) as usize;
        assert(pre.block_encoded(k - 1));
        assert(pre.next_start(k - 1) == cur);
        assert(of[k - 1].1 < ptr);
        Self::lemma_widx_in(pre, prev_s);
        Self::lemma_widx_ne(pre, prev_s, ptr);
        if xe - ptr != 4 {
            Self::lemma_widx_ne(pre, prev_s, pt4);
        }
        assert(nf[k - 1] == of[k - 1]);
        assert(post.next_start(k - 1) == ptr);
        assert(post.word_at(prev_s) == pre.word_at(prev_s) - cur + ptr);
        if of[k - 1].1 - of[k - 1].0 > 4 {
            let p4 = (prev_s + 4) as usize;
            assert(p4 + 4 <= pre.heap_end);
            Self::lemma_widx_ne(pre, p4, ptr);
            if xe - ptr != 4 {
                Self::lemma_widx_ne(pre, p4, pt4);
            }
            Self::lemma_widx_ne(pre, p4, prev_s);
            assert(post.word_at(p4) == pre.word_at(p4));
        }
    }

    /// After the insertion, every block other than the new one and its
    /// predecessor is untouched and still encoded correctly.
    #[verifier::rlimit(100)]
    proof fn insert_encoded_other(
        pre: ACSLAlloc,
        post: ACSLAlloc,
        k: int,
        ptr: usize,
        pe: usize,
        have_prev: bool,
        prev_s: usize,
        cur: usize,
        yv: usize,
        xe: usize,
        merge_next: bool,
        j: int,
    )
        requires
            Self::insert_shape(pre, post, k, ptr, pe, have_prev, prev_s, cur, yv, xe, merge_next),
            0 <= j < post.free@.len(),
            j != k,
            have_prev ==> j != k - 1,
        ensures
            post.block_encoded(j),
    {
        let of = pre.free@;
        let nf = post.free@;
        let pt4 = (ptr + 4) as usize;
        let jo = if j < k || merge_next {
            j
        } else {
            j - 1
        };
        assert(pre.block_encoded(jo));
        assert(nf[j] == of[jo]);
        if jo < k {
            assert(of[jo].1 <= ptr);
            assert(of[jo].0 + 4 <= of[jo].1);
        } else {
            assert(of[jo].0 >= pe);
        }
        if have_prev {
            if jo < k - 1 {
                assert(of[jo].1 < of[k - 1].0);
            } else if jo > k - 1 {
                assert(of[k - 1].1 < of[jo].0);
            }
        }
        let h0 = of[jo].0;
        let h4 = (of[jo].0 + 4) as usize;
        assert(h0 != ptr && h4 != ptr);
        Self::lemma_widx_ne(pre, h0, ptr);
        if xe - ptr != 4 {
            Self::lemma_widx_ne(pre, h0, pt4);
        }
        if have_prev {
            Self::lemma_widx_ne(pre, h0, prev_s);
        }
        assert(post.word_at(h0) == pre.word_at(h0));
        if of[jo].1 - of[jo].0 > 4 {
            Self::lemma_widx_ne(pre, h4, ptr);
            if xe - ptr != 4 {
                Self::lemma_widx_ne(pre, h4, pt4);
            }
            if have_prev {
                Self::lemma_widx_ne(pre, h4, prev_s);
            }
            assert(post.word_at(h4) == pre.word_at(h4));
        }
        if j < k - 1 {
            assert(post.next_start(j) == pre.next_start(jo));
        } else if j > k {
            if merge_next {
                assert(post.next_start(j) == pre.next_start(jo));
            } else {
                assert(post.next_start(j) == pre.next_start(jo));
            }
        }
    }

    /// The insertion keeps the free list well formed.
    #[verifier::rlimit(100)]
    proof fn insert_keeps_free(
        pre: ACSLAlloc,
        post: ACSLAlloc,
        k: int,
        ptr: usize,
        pe: usize,
        have_prev: bool,
        prev_s: usize,
        cur: usize,
        yv: usize,
        xe: usize,
        merge_next: bool,
    )
        requires
            Self::insert_shape(pre, post, k, ptr, pe, have_prev, prev_s, cur, yv, xe, merge_next),
        ensures
            post.geom(),
            post.free_wf(),
            post.encoding_wf(),
    {
        let of = pre.free@;
        let nf = post.free@;
        assert(forall|j: int| 0 <= j < k ==> nf[j] == #[trigger] of[j]);
        assert(nf[k] == (ptr, xe));
        if merge_next {
            assert(forall|j: int| k < j < nf.len() ==> #[trigger] nf[j] == of[j]);
        } else {
            assert(forall|j: int| k < j < nf.len() ==> #[trigger] nf[j] == of[j - 1]);
        }
        assert forall|i: int, j: int| 0 <= i < j < nf.len() implies (#[trigger] nf[i]).1 < (
        #[trigger] nf[j]).0 by {
            let io = if i < k || merge_next {
                i
            } else {
                i - 1
            };
            let jj = if j < k || merge_next {
                j
            } else {
                j - 1
            };
            if i == k {
                assert(nf[i].1 == xe);
                if merge_next {
                    assert(of[k].1 < of[jj].0);
                } else {
                    assert(of[jj].0 >= pe);
                    if jj > k {
                        assert(of[k].0 < of[jj].0);
                    }
                }
            } else if j == k {
                assert(of[io].1 <= ptr);
                assert(have_prev);
                if io < k - 1 {
                    assert(of[io].1 < of[k - 1].0);
                    assert(of[k - 1].0 < of[k - 1].1);
                }
                assert(of[io].1 < ptr);
            } else {
                assert(of[io].1 < of[jj].0);
            }
        }
        assert forall|j: int| 0 <= j < nf.len() implies #[trigger] post.block_encoded(j) by {
            if j == k {
                Self::insert_encoded_self(
                    pre,
                    post,
                    k,
                    ptr,
                    pe,
                    have_prev,
                    prev_s,
                    cur,
                    yv,
                    xe,
                    merge_next,
                );
            } else if have_prev && j == k - 1 {
                Self::insert_encoded_prev(
                    pre,
                    post,
                    k,
                    ptr,
                    pe,
                    have_prev,
                    prev_s,
                    cur,
                    yv,
                    xe,
                    merge_next,
                );
            } else {
                Self::insert_encoded_other(
                    pre,
                    post,
                    k,
                    ptr,
                    pe,
                    have_prev,
                    prev_s,
                    cur,
                    yv,
                    xe,
                    merge_next,
                    j,
                );
            }
        }
        if have_prev {
            assert(nf[0] == of[0]);
            assert(post.free_list == nf[0].0);
        } else {
            assert(nf[0] == (ptr, xe));
            assert(post.free_list == ptr);
        }
    }

    /// The insertion keeps the allocation set disjoint, keeps the heap
    /// fully covered, and frees exactly the returned region.
    #[verifier::rlimit(100)]
    proof fn insert_keeps_busy(
        pre: ACSLAlloc,
        post: ACSLAlloc,
        k: int,
        ptr: usize,
        pe: usize,
        have_prev: bool,
        prev_s: usize,
        cur: usize,
        yv: usize,
        xe: usize,
        merge_next: bool,
    )
        requires
            Self::insert_shape(pre, post, k, ptr, pe, have_prev, prev_s, cur, yv, xe, merge_next),
        ensures
            post.busy_wf(),
            post.covered(),
            forall|a: int|
                #![trigger covers(post.free@, a)]
                #![trigger covers(pre.free@, a)]
                covers(post.free@, a) <==> covers(pre.free@, a) || (ptr <= a < pe),
    {
        let of = pre.free@;
        let nf = post.free@;
        let nb = post.busy@;
        assert(forall|j: int| 0 <= j < k ==> nf[j] == #[trigger] of[j]);
        assert(nf[k] == (ptr, xe));
        if merge_next {
            assert(forall|j: int| k < j < nf.len() ==> #[trigger] nf[j] == of[j]);
        } else {
            assert(forall|j: int| k < j < nf.len() ==> #[trigger] nf[j] == of[j - 1]);
        }
        assert forall|b: (usize, usize), j: int|
            #[trigger] nb.contains(b) && 0 <= j < nf.len() implies b.1 <= (#[trigger] nf[j]).0
            || nf[j].1 <= b.0 by {
            assert(pre.busy@.contains(b) && b != (ptr, pe));
            if j == k {
                assert(b.1 <= ptr || b.0 >= pe);
                if merge_next {
                    assert(b.1 <= of[k].0 || b.0 >= of[k].1);
                }
                if !(b.1 <= ptr) {
                    assert(b.0 >= pe);
                    assert(b.0 + 4 <= b.1);
                    if merge_next {
                        assert(b.0 >= of[k].1);
                    }
                }
            } else {
                let jo = if j < k || merge_next {
                    j
                } else {
                    j - 1
                };
                assert(nf[j] == of[jo]);
            }
        }
        assert forall|a: int| post.heap_start <= a < post.heap_end implies #[trigger] covers(
            nf,
            a,
        ) || set_covers(nb, a) by {
            assert(covers(of, a) || set_covers(pre.busy@, a));
            if set_covers(pre.busy@, a) {
                let b = choose|b: (usize, usize)| #[trigger] pre.busy@.contains(b) && b.0 <= a
                    < b.1;
                if b == (ptr, pe) {
                    assert(0 <= k < nf.len() && nf[k].0 <= a < nf[k].1);
                } else {
                    assert(nb.contains(b));
                }
            } else {
                let j = choose|j: int| 0 <= j < of.len() && (#[trigger] of[j]).0 <= a < of[j].1;
                if merge_next && j == k {
                    assert(nf[k].0 <= a < nf[k].1);
                } else {
                    let jn = if j < k || merge_next {
                        j
                    } else {
                        j + 1
                    };
                    assert(nf[jn] == of[j]);
                    assert(0 <= jn < nf.len() && nf[jn].0 <= a < nf[jn].1);
                }
            }
        }
        assert forall|a: int| true implies (covers(nf, a) <==> covers(of, a) || (ptr <= a
            < pe)) by {
            if covers(nf, a) {
                let j = choose|j: int| 0 <= j < nf.len() && (#[trigger] nf[j]).0 <= a < nf[j].1;
                if j == k {
                    if a >= pe {
                        assert(merge_next && of[k].0 <= a < of[k].1);
                    }
                } else {
                    let jo = if j < k || merge_next {
                        j
                    } else {
                        j - 1
                    };
                    assert(of[jo] == nf[j]);
                    assert(0 <= jo < of.len() && of[jo].0 <= a < of[jo].1);
                }
            }
            if ptr <= a < pe {
                assert(0 <= k < nf.len() && nf[k].0 <= a < nf[k].1);
            }
            if covers(of, a) {
                let j = choose|j: int| 0 <= j < of.len() && (#[trigger] of[j]).0 <= a < of[j].1;
                if merge_next && j == k {
                    assert(nf[k].0 <= a < nf[k].1);
                } else {
                    let jn = if j < k || merge_next {
                        j
                    } else {
                        j + 1
                    };
                    assert(nf[jn] == of[j]);
                    assert(0 <= jn < nf.len() && nf[jn].0 <= a < nf[jn].1);
                }
            }
        }
    }

    /// Inserts a freed region into the list as a block of its own,
    /// absorbing the following free block when the region touches it: the
    /// region's header words are written (short form for a one-word
    /// block), and the predecessor's successor field or the list head is
    /// pointed at it.
    #[verifier::rlimit(100)]
    fn free_insert_block(
        &mut self,
        ptr: usize,
        pe: usize,
        have_prev: bool,
        prev_s: usize,
        cur: usize,
        yv: usize,
        xe: usize,
        merge_next: bool,
        Ghost(k): Ghost<int>,
    )
        requires
            old(self).wf(),
            old(self).busy@.contains((ptr, pe)),
            0 <= k <= old(self).free@.len(),
            have_prev <==> k > 0,
            have_prev ==> prev_s == old(self).free@[k - 1].0 && old(self).free@[k - 1].1 < ptr,
            forall|j: int| 0 <= j < k ==> (#[trigger] old(self).free@[j]).1 <= ptr,
            k < old(self).free@.len() ==> old(self).free@[k].0 >= pe,
            merge_next <==> (k < old(self).free@.len() && old(self).free@[k].0 == pe),
            cur == if k < old(self).free@.len() {
                old(self).free@[k].0
            } else {
                old(self).heap_end
            },
            yv == if merge_next {
                old(self).next_start(k)
            } else {
                cur
            },
            xe == if merge_next {
                old(self).free@[k].1
            } else {
                pe
            },
        ensures
            final(self).wf(),
            final(self).free@ == if merge_next {
                old(self).free@.update(k, (ptr, xe))
            } else {
                old(self).free@.insert(k, (ptr, pe))
            },
            final(self).busy@ == old(self).busy@.remove((ptr, pe)),
            final(self).heap_start == old(self).heap_start,
            final(self).heap_end == old(self).heap_end,
            final(self).heap_size == old(self).heap_size,
            forall|a: int|
                #![trigger covers(final(self).free@, a)]
                #![trigger covers(old(self).free@, a)]
                covers(final(self).free@, a) <==> covers(old(self).free@, a) || (ptr <= a < pe),
    {
        let ghost of = self.free@;
        proof {
            if xe - ptr != 4 {
                Self::lemma_widx_ne(*old(self), ptr, (ptr + 4) as usize);
            }
            if have_prev {
                assert(old(self).block_encoded(k - 1));
                assert(old(self).next_start(k - 1) == cur);
                Self::lemma_widx_ne(*old(self), prev_s, ptr);
                if xe - ptr != 4 {
                    Self::lemma_widx_ne(*old(self), prev_s, (ptr + 4) as usize);
                }
            }
        }
        if xe - ptr == 4 {
            self.set_word(ptr, yv);
        } else {
            self.set_word(ptr, yv + 1);
            self.set_word(ptr + 4, xe);
        }
        if have_prev {
            proof {
                assert(self.word_at(prev_s) == old(self).word_at(prev_s));
                assert(old(self).word_at(prev_s) == cur || old(self).word_at(prev_s) == cur
                    + 1);
            }
            let pw = self.word(prev_s);
            self.set_word(prev_s, pw - cur + ptr);
        } else {
            self.free_list = ptr;
        }
        self.free = Ghost(
            if merge_next {
                of.update(k, (ptr, xe))
            } else {
                of.insert(k, (ptr, pe))
            },
        );
        self.busy = Ghost(self.busy@.remove((ptr, pe)));
        proof {
            assert(Self::insert_shape(
                *old(self),
                *self,
                k,
                ptr,
                pe,
                have_prev,
                prev_s,
                cur,
                yv,
                xe,
                merge_next,
            ));
            Self::insert_keeps_free(
                *old(self),
                *self,
                k,
                ptr,
                pe,
                have_prev,
                prev_s,
                cur,
                yv,
                xe,
                merge_next,
            );
            Self::insert_keeps_busy(
                *old(self),
                *self,
                k,
                ptr,
                pe,
                have_prev,
                prev_s,
                cur,
                yv,
                xe,
                merge_next,
            );
        }
    }
    /// Returns `size` bytes at `ptr` to the free list.
    ///
    /// The caller must echo the exact size it allocated: an allocated
    /// block carries no header, so nothing else records it.  The ascending
    /// list is walked to the insertion point, and the freed region is
    /// merged with the preceding free block and with the following free
    /// block wherever they touch, so neighbouring free blocks always
    /// coalesce into one.  A zero-byte free is a no-op.
    #[verifier::rlimit(100)]
    pub fn deallocate(&mut self, ptr: usize, size: usize)
        requires
            old(self).wf(),
            size > 0 ==> size + 3 <= usize::MAX,
            size > 0 ==> ptr + round4(size as int) <= usize::MAX,
            size > 0 ==> old(self).allocated().contains(
                (ptr, (ptr + round4(size as int)) as usize),
            ),
        ensures
            final(self).wf(),
            final(self).start() == old(self).start(),
            final(self).size() == old(self).size(),
            final(self).end() == old(self).end(),
            size == 0 ==> *final(self) == *old(self),
            size > 0 ==> final(self).allocated() == old(self).allocated().remove(
                (ptr, (ptr + round4(size as int)) as usize),
            ),
            size > 0 ==> forall|a: int|
                #![trigger covers(final(self).free_blocks(), a)]
                #![trigger covers(old(self).free_blocks(), a)]
                covers(final(self).free_blocks(), a) <==> covers(old(self).free_blocks(), a)
                    || (ptr <= a < ptr + round4(size as int)),
    {
        if size == 0 {
            return ;
        }
        let n = (size + 3) / 4 * 4;
        proof {
            assert(n == round4(size as int));
        }
        let pe = ptr + n;
        let ghost blk = (ptr, pe);
        proof {
            assert(self.busy@.contains(blk));
            assert(ptr % 4 == 0 && pe % 4 == 0 && self.heap_start <= ptr && ptr + 4 <= pe
                <= self.heap_end);
        }
        let mut cur = self.free_list;
        let mut have_prev = false;
        let mut prev_s: usize = 0;
        let ghost mut k: int = 0;
        while cur != self.heap_end && cur < pe
            invariant
                self.wf(),
                *self == *old(self),
                self.busy@.contains(blk),
                blk == (ptr, pe),
                ptr % 4 == 0,
                pe == ptr + n,
                n % 4 == 0,
                4 <= n,
                self.heap_start <= ptr,
                pe <= self.heap_end,
                0 <= k <= self.free@.len(),
                cur == if k < self.free@.len() {
                    self.free@[k].0
                } else {
                    self.heap_end
                },
                forall|j: int| 0 <= j < k ==> (#[trigger] self.free@[j]).1 <= ptr,
                have_prev <==> k > 0,
                have_prev ==> prev_s == self.free@[k - 1].0,
            decreases self.free@.len() - k,
        {
            proof {
                if k >= self.free@.len() {
                    assert(cur == self.heap_end);
                }
                assert(k < self.free@.len());
                assert(self.block_encoded(k));
                if k + 1 < self.free@.len() {
                    assert(self.free@[k + 1].0 % 4 == 0);
                    assert(self.free@[k].1 < self.free@[k + 1].0);
                }
                lemma_flag_parity(self.next_start(k) as int);
                // Case split on the block's header form, so both decode
                // shapes are in view.
                if self.free@[k].1 - self.free@[k].0 == 4 {
                } else {
                }
                // The current block starts below the freed region's end,
                // and free blocks are disjoint from the freed allocation,
                // so it ends at or before the region's start.
                assert(blk.1 <= self.free@[k].0 || self.free@[k].1 <= blk.0);
                assert(self.free@[k].1 <= ptr);
            }
            let w = self.word(cur);
            let is_large = w % 2 == 1;
            let nxt = if is_large {
                w - 1
            } else {
                w
            };
            proof {
                assert(nxt == self.next_start(k));
            }
            prev_s = cur;
            have_prev = true;
            cur = nxt;
            proof {
                k = k + 1;
            }
        }
        proof {
            if cur == self.heap_end {
                if k < self.free@.len() {
                    assert(self.free@[k].0 + 4 <= self.free@[k].1);
                    assert(self.free@[k].0 < self.heap_end);
                }
                assert(k == self.free@.len());
            } else {
                assert(k < self.free@.len() && self.free@[k].0 == cur && cur >= pe);
            }
            if k < self.free@.len() {
                assert(self.free@[k].0 >= pe);
            }
        }
        let merge_next = cur != self.heap_end && cur == pe;
        if have_prev {
            proof {
                assert(self.block_encoded(k - 1));
                lemma_flag_parity(self.next_start(k - 1) as int);
                if self.free@[k - 1].1 - self.free@[k - 1].0 > 4 {
                    lemma_aligned_sub(
                        self.free@[k - 1].1 as int,
                        self.free@[k - 1].0 as int,
                    );
                    lemma_exact_div4(self.free@[k - 1].1 - self.free@[k - 1].0);
                    assert(prev_s + 8 <= self.free@[k - 1].1);
                }
            }
            let pw = self.word(prev_s);
            let p_large = pw % 2 == 1;
            let prev_end = if p_large {
                self.word(prev_s + 4)
            } else {
                prev_s + 4
            };
            proof {
                assert(prev_end == self.free@[k - 1].1);
            }
            if prev_end == ptr {
                // The predecessor ends exactly where the freed region
                // begins: extend it instead of creating a new block.
                let (yv, xe) = if merge_next {
                    proof {
                        assert(self.block_encoded(k));
                        lemma_flag_parity(self.next_start(k) as int);
                        if self.free@[k].1 - self.free@[k].0 > 4 {
                            lemma_aligned_sub(
                                self.free@[k].1 as int,
                                self.free@[k].0 as int,
                            );
                            lemma_exact_div4(self.free@[k].1 - self.free@[k].0);
                        }
                    }
                    let w2 = self.word(cur);
                    let n_large = w2 % 2 == 1;
                    let n_next = if n_large {
                        w2 - 1
                    } else {
                        w2
                    };
                    let n_end = if n_large {
                        self.word(cur + 4)
                    } else {
                        cur + 4
                    };
                    (n_next, n_end)
                } else {
                    (cur, pe)
                };
                self.free_extend_prev(ptr, pe, prev_s, yv, xe, merge_next, Ghost(k));
                return ;
            }
            proof {
                assert(self.free@[k - 1].1 < ptr);
            }
        }
        let (yv, xe) = if merge_next {
            proof {
                assert(self.block_encoded(k));
                lemma_flag_parity(self.next_start(k) as int);
                if self.free@[k].1 - self.free@[k].0 > 4 {
                    lemma_aligned_sub(self.free@[k].1 as int, self.free@[k].0 as int);
                    lemma_exact_div4(self.free@[k].1 - self.free@[k].0);
                }
            }
            let w2 = self.word(cur);
            let n_large = w2 % 2 == 1;
            let n_next = if n_large {
                w2 - 1
            } else {
                w2
            };
            let n_end = if n_large {
                self.word(cur + 4)
            } else {
                cur + 4
            };
            (n_next, n_end)
        } else {
            (cur, pe)
        };
        self.free_insert_block(ptr, pe, have_prev, prev_s, cur, yv, xe, merge_next, Ghost(k));
    }

    /// No two simultaneously live allocations overlap.  The
    /// well-formedness invariant, which `init` establishes and `allocate`
    /// and `deallocate` preserve, keeps the allocated extents pairwise
    /// disjoint, so the property holds after any sequence of calls.
    pub proof fn lemma_no_overlap(self, b1: (usize, usize), b2: (usize, usize))
        requires
            self.wf(),
            self.allocated().contains(b1),
            self.allocated().contains(b2),
            b1 != b2,
        ensures
            b1.1 <= b2.0 || b2.1 <= b1.0,
    {
    }

    /// When no allocation is outstanding, the free list is exactly one
    /// block spanning the whole region: freeing everything coalesces the
    /// list back to its initial state.
    pub proof fn lemma_full_coalescing(self)
        requires
            self.wf(),
            self.allocated() == Set::<(usize, usize)>::empty(),
        ensures
            self.free_blocks() == seq![(self.start(), self.end())],
    {
        let f = self.free@;
        let hs = self.heap_start;
        let he = self.heap_end;
        assert(hs < he);
        assert(covers(f, hs as int) || set_covers(self.busy@, hs as int));
        if set_covers(self.busy@, hs as int) {
            let b = choose|b: (usize, usize)| #[trigger] self.busy@.contains(b) && b.0 <= hs
                < b.1;
            assert(false);
        }
        let j = choose|j: int| 0 <= j < f.len() && (#[trigger] f[j]).0 <= hs < f[j].1;
        assert(f[j].0 == hs);
        if j != 0 {
            assert(f[0].1 < f[j].0);
            assert(f[0].0 + 4 <= f[0].1);
            assert(false);
        }
        if f[0].1 < he {
            let a = f[0].1 as int;
            assert(covers(f, a) || set_covers(self.busy@, a));
            if set_covers(self.busy@, a) {
                let b = choose|b: (usize, usize)| #[trigger] self.busy@.contains(b) && b.0 <= a
                    < b.1;
                assert(false);
            }
            let m = choose|m: int| 0 <= m < f.len() && (#[trigger] f[m]).0 <= a < f[m].1;
            if m == 0 {
                assert(false);
            } else {
                assert(f[0].1 < f[m].0);
                assert(false);
            }
        }
        assert(f[0] == (hs, he));
        if f.len() > 1 {
            assert(f[0].1 < f[1].0);
            assert(f[1].0 + 4 <= f[1].1);
            assert(f[1].1 <= he);
            assert(false);
        }
        assert(f =~= seq![(hs, he)]);
    }

}

} // verus!
