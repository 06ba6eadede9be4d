//! Sizing of the shared-memory pool that backs presented frames.
use vstd::prelude::*;

verus! {

/// Bytes taken by a `w` by `h` frame at four bytes per pixel.
pub open spec fn frame_bytes(w: u32, h: u32) -> int {
    w * h * 4
}

pub fn frame_bytes_exec(w: u32, h: u32) -> (r: u128)
    ensures
        r == frame_bytes(w, h),
{
    assert((w as u128) * (h as u128) <= 0xffff_ffff_ffff_ffff_ffff_ffff) by (nonlinear_arith)
        requires
            w <= 0xffff_ffff,
            h <= 0xffff_ffff,
    ;
    (w as u128) * (h as u128) * 4
}

/// The size a pool of capacity `cap` is grown to when `needed` bytes are
/// asked for, while the previous frame took `prev` bytes; `None` when it is
/// large enough already.
pub open spec fn growth_for(cap: int, needed: int, prev: int) -> Option<int> {
    if needed > cap {
        Some(if needed >= prev { needed } else { prev })
    } else {
        None
    }
}

/// The capacity after one request, where `allocated` tells whether the
/// allocation that a growth needs succeeded.
pub open spec fn ensure_step(cap: int, needed: int, prev: int, allocated: bool) -> int {
    match growth_for(cap, needed, prev) {
        Some(t) if allocated => t,
        _ => cap,
    }
}

/// The capacity after a sequence of requests `(needed, prev, allocated)`.
pub open spec fn capacity_after(cap: int, steps: Seq<(int, int, bool)>) -> int
    decreases steps.len(),
{
    if steps.len() == 0 {
        cap
    } else {
        let (n, p, a) = steps.last();
        ensure_step(capacity_after(cap, steps.drop_last()), n, p, a)
    }
}

/// The pool's capacity in bytes. The allocation itself belongs to the
/// caller, who reports each successful growth.
pub struct BufferPool {
    pub capacity: u128,
}

impl BufferPool {
    pub fn new(capacity: u128) -> (r: BufferPool)
        ensures
            r.capacity == capacity,
    {
        BufferPool { capacity }
    }

    /// How far to grow before presenting `needed` bytes, given that the
    /// previous frame took `prev` bytes: `None` when no growth is needed.
    pub fn growth_target(&self, needed: u128, prev: u128) -> (r: Option<u128>)
        ensures
            r matches Some(t) ==> growth_for(self.capacity as int, needed as int, prev as int)
                == Some(t as int),
            r is None <==> growth_for(self.capacity as int, needed as int, prev as int) is None,
    {
        if needed > self.capacity {
            if needed >= prev {
                Some(needed)
            } else {
                Some(prev)
            }
        } else {
            None
        }
    }

    /// Records that the pool was reallocated with `target` bytes.
    pub fn grown(&mut self, target: u128)
        requires
            target > old(self).capacity,
        ensures
            final(self).capacity == target,
    {
        self.capacity = target;
    }

    /// One request as a whole: grows when `needed` exceeds the capacity and
    /// the allocation succeeded. Returns the new capacity.
    pub fn ensure_capacity(&mut self, needed: u128, prev: u128, allocated: bool) -> (r: u128)
        ensures
            final(self).capacity == ensure_step(old(self).capacity as int, needed as int, prev as int, allocated),
            final(self).capacity >= old(self).capacity,
            r == final(self).capacity,
    {
        match self.growth_target(needed, prev) {
            Some(t) => {
                if allocated {
                    self.grown(t);
                }
            },
            None => {},
        }
        self.capacity
    }
}

/// Across any sequence of requests the capacity never shrinks: after a
/// longer prefix of the sequence it is at least what it was after a shorter.
pub proof fn lemma_capacity_monotone(cap: int, steps: Seq<(int, int, bool)>, i: int, j: int)
    requires
        0 <= i <= j <= steps.len(),
    ensures
        capacity_after(cap, steps.take(i)) <= capacity_after(cap, steps.take(j)),
    decreases j - i,
{
    if i < j {
        lemma_capacity_monotone(cap, steps, i, j - 1);
        assert(steps.take(j).drop_last() =~= steps.take(j - 1));
    }
}

} // verus!
