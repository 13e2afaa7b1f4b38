//! An arena that hands out aligned ranges of one block, front to back.
use vstd::prelude::*;

verus! {

/// A block of `size` bytes of which the first `used` are taken.
pub struct Arena {
    pub size: usize,
    pub used: usize,
}

/// Whether `offset` is where a range aligned to `align` starts that comes
/// after `used` bytes: the first multiple of `align` at or after `used`.
pub open spec fn aligned_after(used: usize, align: usize, offset: int) -> bool {
    &&& align > 0
    &&& offset % (align as int) == 0
    &&& used <= offset < used + align
}

impl Arena {
    /// The invariant: no more is taken than there is.
    pub open spec fn wf(&self) -> bool {
        self.used <= self.size
    }

    /// An arena of `size` bytes, none of them taken.
    pub fn new(size: usize) -> (arena: Self)
        ensures
            arena.wf(),
            arena.size == size,
            arena.used == 0,
    {
        Arena { size, used: 0 }
    }

    /// Takes `size` bytes aligned to `align` and returns the offset at
    /// which they start: the first multiple of `align` at or after what
    /// is taken.  `None`, and nothing is taken, where `align` is 0 or the
    /// bytes do not fit.
    pub fn allocate(&mut self, size: usize, align: usize) -> (r: Option<usize>)
        requires
            old(self).wf(),
        ensures
            final(self).wf(),
            final(self).size == old(self).size,
            match r {
                Some(offset) => aligned_after(old(self).used, align, offset as int) && offset + size
                    <= old(self).size && final(self).used == offset + size,
                None => final(self).used == old(self).used && (align == 0 || forall|offset: int|
                    aligned_after(old(self).used, align, offset) ==> offset + size > old(self).size),
            },
    {
        if align == 0 {
            return None;
        }
        let over: usize = self.used % align;
        let gap: usize = if over == 0 {
            0
        } else {
            align - over
        };
        proof {
            let u = self.used as int;
            let a = align as int;
            assert((u + gap) % a == 0) by (nonlinear_arith)
                requires
                    a > 0,
                    u >= 0,
                    gap == if u % a == 0 {
                        0
                    } else {
                        a - u % a
                    },
            ;
            assert forall|offset: int| aligned_after(self.used, align, offset) implies offset == u
                + gap by {
                let d = offset - (u + gap);
                assert(d == 0) by (nonlinear_arith)
                    requires
                        a > 0,
                        offset % a == 0,
                        (u + gap) % a == 0,
                        d == offset - (u + gap),
                        -a < d < a,
                ;
            }
        }
        if gap > self.size - self.used {
            return None;
        }
        let offset: usize = self.used + gap;
        if size > self.size - offset {
            return None;
        }
        self.used = offset + size;
        Some(offset)
    }
}

} // verus!
