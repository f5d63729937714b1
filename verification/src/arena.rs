//! Arena allocator: the fixed-capacity memory pool backing the interpreter.
//!
//! The arena is one byte region with a high-water mark. An allocation
//! carves `size + COOKIE_SIZE` bytes at the mark: the requested payload
//! size is written into the cookie, the header stored immediately before
//! the payload, so that `free` and `realloc` can recover the original size
//! without external bookkeeping. A block is addressed by the offset of its
//! payload; offset `0` plays the role of the null pointer (no payload ever
//! starts at `0`, the first lies behind its cookie).
//!
//! The pool strategy never compacts: the mark moves back only when the
//! block being released is the topmost one; any other released range stays
//! where it is. The mark never exceeds the capacity, and exceeding it is
//! the single source of out-of-memory, reported as a null result and
//! counted so that the caller can observe exhaustion before deciding that
//! it is fatal.
//!
//! The arena is singleton, process-wide state in the surrounding program;
//! it is safe without internal locking only under single-threaded
//! cooperative execution, and concurrent callers would need external
//! synchronization.

use vstd::prelude::*;
use vstd::bytes::lemma_auto_spec_u64_to_from_le_bytes;
use vstd::bytes::spec_u64_from_le_bytes;
use vstd::bytes::spec_u64_to_le_bytes;
use vstd::bytes::u64_from_le_bytes;
use vstd::bytes::u64_to_le_bytes;
use vstd::slice::slice_subrange;

verus! {

/// Width of the size cookie stored in front of every block.
pub const COOKIE_SIZE: usize = 8;

/// Mathematical model of the arena: the byte region, the high-water mark
/// and the fixed capacity.
#[verifier::ext_equal]
pub ghost struct ArenaModel {
    pub mem: Seq<u8>,
    pub mark: int,
    pub capacity: int,
}

/// Well-formedness of the model: the region has exactly the capacity's
/// bytes, the mark stays within it, and the capacity fits the machine.
pub open spec fn arena_inv(m: ArenaModel) -> bool {
    &&& m.mem.len() == m.capacity
    &&& 0 <= m.mark <= m.capacity
    &&& m.capacity <= usize::MAX
}

/// The little-endian cookie encoding of a payload size.
pub open spec fn spec_cookie_bytes(size: int) -> Seq<u8> {
    spec_u64_to_le_bytes(size as u64)
}

/// The payload size recorded in the cookie of the block at offset `p`.
pub open spec fn spec_cookie_value(mem: Seq<u8>, p: int) -> int
    recommends
        COOKIE_SIZE <= p <= mem.len(),
{
    spec_u64_from_le_bytes(mem.subrange(p - COOKIE_SIZE, p)) as int
}

/// The region with a size cookie written at offset `at`.
pub open spec fn spec_store_cookie(mem: Seq<u8>, at: int, size: int) -> Seq<u8>
    recommends
        0 <= at,
        at + COOKIE_SIZE <= mem.len(),
{
    mem.subrange(0, at) + spec_cookie_bytes(size) + mem.subrange(at + COOKIE_SIZE, mem.len() as int)
}

/// Whether a request for `size` payload bytes still fits under the mark.
pub open spec fn spec_can_malloc(m: ArenaModel, size: int) -> bool {
    m.mark + COOKIE_SIZE + size <= m.capacity
}

/// Allocation on the model: on success the cookie is written at the old
/// mark, the mark advances past cookie and payload, and the payload offset
/// comes back; on exhaustion the model is unchanged and the offset is null.
pub open spec fn spec_malloc(m: ArenaModel, size: int) -> (ArenaModel, int) {
    if spec_can_malloc(m, size) {
        (
            ArenaModel {
                mem: spec_store_cookie(m.mem, m.mark, size),
                mark: m.mark + COOKIE_SIZE + size,
                capacity: m.capacity,
            },
            m.mark + COOKIE_SIZE,
        )
    } else {
        (m, 0)
    }
}

/// A live, correctly addressed block: its cookie lies inside the region
/// and cookie plus payload lie at or below the mark.
pub open spec fn spec_valid_block(m: ArenaModel, p: int) -> bool {
    &&& COOKIE_SIZE <= p <= m.mark
    &&& p + spec_cookie_value(m.mem, p) <= m.mark
}

/// Release on the model: null is a no-op; the topmost block gives its
/// exact byte range, cookie included, back to the pool by moving the mark
/// down; any other range stays (the pool never compacts). The region's
/// bytes are never scrubbed.
pub open spec fn spec_free(m: ArenaModel, p: int) -> ArenaModel {
    if p == 0 {
        m
    } else if p + spec_cookie_value(m.mem, p) == m.mark {
        ArenaModel { mem: m.mem, mark: p - COOKIE_SIZE, capacity: m.capacity }
    } else {
        m
    }
}

pub open spec fn spec_min(a: int, b: int) -> int {
    if a < b {
        a
    } else {
        b
    }
}

/// The region after copying `n` bytes from offset `src` to offset `dst`.
pub open spec fn spec_copy_bytes(mem: Seq<u8>, src: int, dst: int, n: int) -> Seq<u8> {
    Seq::new(mem.len(), |i: int| if dst <= i < dst + n { mem[src + (i - dst)] } else { mem[i] })
}

/// Reallocation on the model. A zero size releases the block and returns
/// null; a null block allocates afresh. Otherwise a new block of the new
/// size is carved, the first `min(old_size, new_size)` payload bytes are
/// copied over, and the old block is released; on exhaustion the old block
/// stays live and the model is unchanged.
pub open spec fn spec_realloc(m: ArenaModel, p: int, new_size: int) -> (ArenaModel, int) {
    if new_size == 0 {
        (spec_free(m, p), 0)
    } else if p == 0 {
        spec_malloc(m, new_size)
    } else {
        let old_size = spec_cookie_value(m.mem, p);
        let alloc = spec_malloc(m, new_size);
        if alloc.1 == 0 {
            (m, 0)
        } else {
            let copied = spec_copy_bytes(alloc.0.mem, p, alloc.1, spec_min(old_size, new_size));
            (
                spec_free(
                    ArenaModel { mem: copied, mark: alloc.0.mark, capacity: alloc.0.capacity },
                    p,
                ),
                alloc.1,
            )
        }
    }
}

/// An exhaustion counter bumped once more, saturating at its ceiling.
pub open spec fn spec_bump(c: u64) -> u64 {
    if c == u64::MAX {
        c
    } else {
        (c + 1) as u64
    }
}

/// The arena. The only heap available to the interpreter; out-of-memory
/// is observable through the null result and the exhaustion counter.
pub struct Arena {
    mem: Vec<u8>,
    mark: usize,
    oom_count: u64,
}

impl Arena {
    /// The model of the arena's current state.
    pub closed spec fn model(&self) -> ArenaModel {
        ArenaModel { mem: self.mem@, mark: self.mark as int, capacity: self.mem@.len() as int }
    }

    /// How many allocation requests have failed for want of space.
    pub closed spec fn spec_oom_count(&self) -> u64 {
        self.oom_count
    }

    /// Well-formedness, established by the constructor and preserved by
    /// every operation.
    pub open spec fn wf(&self) -> bool {
        arena_inv(self.model())
    }

    /// A fresh arena: a zeroed region of `capacity` bytes, mark at the
    /// bottom, nothing failed yet.
    pub fn new(capacity: usize) -> (a: Arena)
        ensures
            a.wf(),
            a.model() == (ArenaModel {
                mem: Seq::new(capacity as nat, |i: int| 0u8),
                mark: 0,
                capacity: capacity as int,
            }),
            a.spec_oom_count() == 0,
    {
        let mut mem: Vec<u8> = Vec::new();
        while mem.len() < capacity
            invariant
                mem@.len() <= capacity,
                mem@ == Seq::new(mem@.len(), |i: int| 0u8),
            decreases capacity - mem@.len(),
        {
            mem.push(0u8);
            proof {
                assert(mem@ =~= Seq::new(mem@.len(), |i: int| 0u8));
            }
        }
        proof {
            assert(mem@ =~= Seq::new(capacity as nat, |i: int| 0u8));
        }
        Arena { mem, mark: 0, oom_count: 0 }
    }

    /// The high-water mark: how many bytes of the region are in use.
    pub fn high_water_mark(&self) -> (r: usize)
        ensures
            r as int == self.model().mark,
    {
        self.mark
    }

    /// The fixed capacity of the region.
    pub fn capacity(&self) -> (r: usize)
        ensures
            r as int == self.model().capacity,
    {
        self.mem.len()
    }

    /// How many allocation requests have failed for want of space.
    pub fn oom_count(&self) -> (r: u64)
        ensures
            r == self.spec_oom_count(),
    {
        self.oom_count
    }

    /// Requests `size + COOKIE_SIZE` bytes from the pool. On success the
    /// requested size is written into the cookie and the payload offset
    /// past the cookie is returned; on exhaustion the arena is left
    /// exactly as it was, no live block is touched, the failure is counted
    /// and the null offset comes back.
    pub fn malloc(&mut self, size: usize) -> (p: usize)
        requires
            old(self).wf(),
        ensures
            final(self).wf(),
            final(self).model() == spec_malloc(old(self).model(), size as int).0,
            p as int == spec_malloc(old(self).model(), size as int).1,
            final(self).spec_oom_count() == if spec_can_malloc(old(self).model(), size as int) {
                old(self).spec_oom_count()
            } else {
                spec_bump(old(self).spec_oom_count())
            },
            spec_can_malloc(old(self).model(), size as int) ==> spec_valid_block(
                final(self).model(),
                p as int,
            ) && spec_cookie_value(final(self).model().mem, p as int) == size as int,
    {
        let cap = self.mem.len();
        if cap - self.mark < COOKIE_SIZE || size > cap - self.mark - COOKIE_SIZE {
            assert(!spec_can_malloc(old(self).model(), size as int));
            self.oom_count = if self.oom_count == u64::MAX {
                self.oom_count
            } else {
                self.oom_count + 1
            };
            return 0;
        }
        let at = self.mark;
        let cookie = u64_to_le_bytes(size as u64);
        let mut j: usize = 0;
        while j < COOKIE_SIZE
            invariant
                j <= COOKIE_SIZE,
                at + COOKIE_SIZE + size <= self.mem@.len() <= usize::MAX,
                cookie@ == spec_u64_to_le_bytes(size as u64),
                cookie@.len() == 8,
                self.mark == at,
                self.oom_count == old(self).oom_count,
                self.mem@.len() == old(self).mem@.len(),
                old(self).mem@ == old(self).model().mem,
                forall|k: int|
                    0 <= k < self.mem@.len() && !(at <= k < at + j) ==> self.mem@[k] == old(
                        self,
                    ).mem@[k],
                forall|k: int| 0 <= k < j ==> self.mem@[at + k] == cookie@[k],
            decreases COOKIE_SIZE - j,
        {
            self.mem[at + j] = cookie[j];
            j = j + 1;
        }
        self.mark = at + COOKIE_SIZE + size;
        proof {
            let stored = spec_store_cookie(old(self).model().mem, at as int, size as int);
            assert forall|k: int| 0 <= k < self.mem@.len() implies self.mem@[k] == stored[k] by {
                if at <= k < at + COOKIE_SIZE {
                    assert(self.mem@[k] == cookie@[k - at]);
                } else {
                    assert(self.mem@[k] == old(self).mem@[k]);
                }
            }
            assert(self.mem@ =~= stored);
            assert(final(self).model() =~= spec_malloc(old(self).model(), size as int).0);
            lemma_auto_spec_u64_to_from_le_bytes();
            assert(stored.subrange(at as int, at + COOKIE_SIZE) =~= spec_cookie_bytes(
                size as int,
            ));
            assert(spec_cookie_value(stored, at + COOKIE_SIZE) == size as int);
        }
        at + COOKIE_SIZE
    }

    /// Releases a block. A null offset is a no-op; otherwise the cookie is
    /// read back to recover the exact byte range, and the range returns to
    /// the pool: the mark moves down when the block is the topmost one and
    /// stays put otherwise. The region's bytes are unchanged either way.
    pub fn free(&mut self, p: usize)
        requires
            old(self).wf(),
            p == 0 || spec_valid_block(old(self).model(), p as int),
        ensures
            final(self).wf(),
            final(self).model() == spec_free(old(self).model(), p as int),
            final(self).spec_oom_count() == old(self).spec_oom_count(),
    {
        if p == 0 {
            return ;
        }
        let cookie_slice = slice_subrange(self.mem.as_slice(), p - COOKIE_SIZE, p);
        let s64 = u64_from_le_bytes(cookie_slice);
        assert(s64 as int == spec_cookie_value(old(self).model().mem, p as int));
        let size = s64 as usize;
        if p + size == self.mark {
            self.mark = p - COOKIE_SIZE;
        }
    }

    /// Resizes a block. A zero size behaves as `free` and returns null; a
    /// null offset behaves as `malloc(new_size)`. Otherwise the cookie
    /// gives the old size, a fresh block of the new size is carved, the
    /// first `min(old_size, new_size)` payload bytes are copied exactly,
    /// and the old block is released. On exhaustion the old block stays
    /// live, nothing is touched and null comes back.
    pub fn realloc(&mut self, p: usize, new_size: usize) -> (q: usize)
        requires
            old(self).wf(),
            p == 0 || spec_valid_block(old(self).model(), p as int),
        ensures
            final(self).wf(),
            final(self).model() == spec_realloc(old(self).model(), p as int, new_size as int).0,
            q as int == spec_realloc(old(self).model(), p as int, new_size as int).1,
            final(self).spec_oom_count() == if new_size != 0 && !spec_can_malloc(
                old(self).model(),
                new_size as int,
            ) {
                spec_bump(old(self).spec_oom_count())
            } else {
                old(self).spec_oom_count()
            },
            q != 0 ==> spec_valid_block(final(self).model(), q as int) && spec_cookie_value(
                final(self).model().mem,
                q as int,
            ) == new_size as int,
    {
        if new_size == 0 {
            self.free(p);
            return 0;
        }
        if p == 0 {
            return self.malloc(new_size);
        }
        let ghost m0 = old(self).model();
        let cookie_slice = slice_subrange(self.mem.as_slice(), p - COOKIE_SIZE, p);
        let s64 = u64_from_le_bytes(cookie_slice);
        assert(s64 as int == spec_cookie_value(m0.mem, p as int));
        let old_size = s64 as usize;
        let q = self.malloc(new_size);
        if q == 0 {
            return 0;
        }
        let ghost m1 = spec_malloc(m0, new_size as int).0;
        let copy_len = if old_size < new_size {
            old_size
        } else {
            new_size
        };
        assert(p + old_size <= m0.mark && q == m0.mark + COOKIE_SIZE);
        let mut i: usize = 0;
        while i < copy_len
            invariant
                i <= copy_len,
                self.model() == (ArenaModel {
                    mem: spec_copy_bytes(m1.mem, p as int, q as int, i as int),
                    mark: m1.mark,
                    capacity: m1.capacity,
                }),
                arena_inv(m1),
                self.oom_count == old(self).oom_count,
                copy_len as int == spec_min(spec_cookie_value(m0.mem, p as int), new_size as int),
                COOKIE_SIZE <= p,
                p + old_size <= m0.mark,
                copy_len <= old_size,
                copy_len <= new_size,
                q as int == m0.mark + COOKIE_SIZE,
                q + new_size <= m1.mark <= m1.capacity,
                m1.mem.len() == m1.capacity,
                forall|k: int| 0 <= k < m0.mark ==> m1.mem[k] == m0.mem[k],
            decreases copy_len - i,
        {
            let b = self.mem[p + i];
            assert(b == m1.mem[p + i]);
            self.mem[q + i] = b;
            proof {
                assert(self.mem@ =~= spec_copy_bytes(m1.mem, p as int, q as int, i + 1));
            }
            i = i + 1;
        }
        let ghost m2 = ArenaModel {
            mem: spec_copy_bytes(m1.mem, p as int, q as int, copy_len as int),
            mark: m1.mark,
            capacity: m1.capacity,
        };
        proof {
            assert(self.model() =~= m2);
            assert(m2.mem.subrange(p - COOKIE_SIZE, p as int) =~= m0.mem.subrange(
                p - COOKIE_SIZE,
                p as int,
            ));
            assert(spec_cookie_value(m2.mem, p as int) == spec_cookie_value(m0.mem, p as int));
            assert(spec_valid_block(self.model(), p as int));
        }
        self.free(p);
        proof {
            assert(final(self).model() =~= spec_realloc(m0, p as int, new_size as int).0);
            assert(final(self).model().mem.subrange(q - COOKIE_SIZE, q as int) =~= m1.mem.subrange(
                q - COOKIE_SIZE,
                q as int,
            ));
            assert(spec_cookie_value(final(self).model().mem, q as int) == new_size as int);
        }
        q
    }

    /// Writes one payload byte of a live block; the interpreter's stores
    /// into memory it was handed go through here in the model.
    pub fn write_byte(&mut self, p: usize, i: usize, b: u8)
        requires
            old(self).wf(),
            spec_valid_block(old(self).model(), p as int),
            i < spec_cookie_value(old(self).model().mem, p as int),
        ensures
            final(self).wf(),
            final(self).model() == (ArenaModel {
                mem: old(self).model().mem.update(p + i, b),
                mark: old(self).model().mark,
                capacity: old(self).model().capacity,
            }),
            spec_valid_block(final(self).model(), p as int),
            final(self).spec_oom_count() == old(self).spec_oom_count(),
    {
        proof {
            assert(p + i < old(self).model().mark);
        }
        self.mem[p + i] = b;
        proof {
            assert(final(self).model().mem.subrange(p - COOKIE_SIZE, p as int) =~= old(
                self,
            ).model().mem.subrange(p - COOKIE_SIZE, p as int));
            assert(spec_cookie_value(final(self).model().mem, p as int) == spec_cookie_value(
                old(self).model().mem,
                p as int,
            ));
        }
    }

    /// Reads one payload byte of a live block.
    pub fn read_byte(&self, p: usize, i: usize) -> (b: u8)
        requires
            self.wf(),
            spec_valid_block(self.model(), p as int),
            i < spec_cookie_value(self.model().mem, p as int),
        ensures
            b == self.model().mem[p + i],
    {
        proof {
            assert(p + i < self.model().mark);
        }
        self.mem[p + i]
    }
}

/// Allocating and then releasing that block returns the arena to its
/// pre-allocation high-water mark: the release reads the size just written
/// into the cookie, finds the block topmost, and moves the mark back down.
pub proof fn lemma_malloc_free_round_trip(m: ArenaModel, size: int)
    requires
        arena_inv(m),
        0 <= size,
        spec_can_malloc(m, size),
    ensures
        ({
            let after = spec_free(spec_malloc(m, size).0, spec_malloc(m, size).1);
            after.mark == m.mark && after.capacity == m.capacity
        }),
{
    let m1 = spec_malloc(m, size).0;
    let p = spec_malloc(m, size).1;
    lemma_auto_spec_u64_to_from_le_bytes();
    assert(m1.mem.subrange(p - COOKIE_SIZE, p) =~= spec_cookie_bytes(size));
    assert(spec_cookie_value(m1.mem, p) == size);
}

/// A request that does not fit reports exhaustion deterministically — null
/// result, counter bumped — and corrupts nothing: the region, the mark and
/// with them every live block are exactly as before.
pub proof fn lemma_malloc_exhaustion(m: ArenaModel, size: int)
    requires
        !spec_can_malloc(m, size),
    ensures
        spec_malloc(m, size).0 == m,
        spec_malloc(m, size).1 == 0,
{
}

/// An allocation never touches an existing live block: whether it
/// succeeds or reports exhaustion, the block stays valid and its cookie
/// and payload bytes are exactly as before.
pub proof fn lemma_malloc_preserves_live_blocks(m: ArenaModel, size: int, p: int)
    requires
        arena_inv(m),
        0 <= size,
        spec_valid_block(m, p),
    ensures
        ({
            let m1 = spec_malloc(m, size).0;
            &&& spec_valid_block(m1, p)
            &&& spec_cookie_value(m1.mem, p) == spec_cookie_value(m.mem, p)
            &&& forall|i: int|
                0 <= i < spec_cookie_value(m.mem, p) ==> m1.mem[p + i] == #[trigger] m.mem[p + i]
        }),
{
    lemma_auto_spec_u64_to_from_le_bytes();
    assert(spec_cookie_bytes(size).len() == 8);
    if spec_can_malloc(m, size) {
        let m1 = spec_malloc(m, size).0;
        assert(m1.mem.len() == m.mem.len());
        assert forall|k: int| 0 <= k < m.mark implies m1.mem[k] == #[trigger] m.mem[k] by {}
        assert(m1.mem.subrange(p - COOKIE_SIZE, p) =~= m.mem.subrange(p - COOKIE_SIZE, p));
        assert(spec_cookie_value(m1.mem, p) == spec_cookie_value(m.mem, p));
    }
}

/// Reallocation preserves the first `min(old_size, new_size)` payload
/// bytes of the block exactly: byte for byte, the new block starts with
/// the old block's contents.
pub proof fn lemma_realloc_preserves_prefix(m: ArenaModel, p: int, new_size: int)
    requires
        arena_inv(m),
        spec_valid_block(m, p),
        0 < new_size,
        spec_can_malloc(m, new_size),
    ensures
        spec_realloc(m, p, new_size).1 != 0,
        forall|i: int|
            0 <= i < spec_min(spec_cookie_value(m.mem, p), new_size) ==> spec_realloc(
                m,
                p,
                new_size,
            ).0.mem[spec_realloc(m, p, new_size).1 + i] == #[trigger] m.mem[p + i],
{
    lemma_auto_spec_u64_to_from_le_bytes();
    let old_size = spec_cookie_value(m.mem, p);
    let n = spec_min(old_size, new_size);
    let m1 = spec_malloc(m, new_size).0;
    let q = spec_malloc(m, new_size).1;
    let copied = spec_copy_bytes(m1.mem, p, q, n);
    assert(m1.mem.len() == m.mem.len());
    assert(q + n <= m1.mark <= m1.mem.len());
    assert forall|i: int| 0 <= i < n implies copied[q + i] == #[trigger] m.mem[p + i] by {
        assert(0 <= q + i < m1.mem.len());
        assert(0 <= p + i < m.mark);
        assert(copied[q + i] == m1.mem[p + i]);
        assert(m1.mem[p + i] == m.mem[p + i]);
    }
    let m2 = ArenaModel { mem: copied, mark: m1.mark, capacity: m1.capacity };
    assert(m2.mem.subrange(p - COOKIE_SIZE, p) =~= m.mem.subrange(p - COOKIE_SIZE, p));
    assert(spec_cookie_value(m2.mem, p) == spec_cookie_value(m.mem, p));
    assert(spec_free(m2, p).mem == copied);
}

} // verus!
