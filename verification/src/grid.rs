//! The double-buffered grid: two equal-length binary cell buffers and a flag
//! that says which one the next generation step reads. The roles alternate
//! every tick; no buffer is ever reallocated or copied.
use vstd::prelude::*;

use crate::life::{
    all_cells, all_dead, pixel_of, pixel_seq, seed_cell, step_seq,
};
use crate::rng::random_bit;
use crate::stepper::step_buffers;

verus! {

/// A fixed-size toroidal Game of Life grid with two cell buffers.
///
/// At any time exactly one buffer is "current" (the read source of the
/// upcoming step) and the other is "next" (its write target); `active`
/// selects which physical buffer plays which role.
pub struct Grid {
    /// First physical cell buffer; current when `active == 0`.
    pub a: Vec<u8>,
    /// Second physical cell buffer; current when `active == 1`.
    pub b: Vec<u8>,
    /// Role selector: 0 or 1.
    pub active: u32,
    /// Row length of the row-major buffers.
    pub width: usize,
    /// Number of rows.
    pub height: usize,
}

/// Exactly the change `swap` makes: both buffers and the dimensions are kept,
/// the role selector flips.
pub open spec fn swap_rel(pre: Grid, post: Grid) -> bool {
    &&& post.a == pre.a
    &&& post.b == pre.b
    &&& post.width == pre.width
    &&& post.height == pre.height
    &&& post.active == (if pre.active == 0 {
        1u32
    } else {
        0u32
    })
}

impl Grid {
    /// The grid invariant: positive dimensions that multiply to the buffer
    /// length, two equal-length buffers of binary cells, a binary role
    /// selector, and a cell count small enough for wraparound index
    /// arithmetic.
    pub open spec fn wf(self) -> bool {
        &&& 1 <= self.width
        &&& 1 <= self.height
        &&& self.width * self.height == self.a@.len()
        &&& self.a@.len() == self.b@.len()
        &&& self.a@.len() <= usize::MAX / 2
        &&& self.active == 0 || self.active == 1
        &&& all_cells(self.a@)
        &&& all_cells(self.b@)
    }

    /// The buffer the upcoming step reads: the previous generation.
    pub open spec fn cur(self) -> Seq<u8> {
        if self.active == 0 {
            self.a@
        } else {
            self.b@
        }
    }

    /// The buffer the upcoming step writes: the next generation's target.
    pub open spec fn nxt(self) -> Seq<u8> {
        if self.active == 0 {
            self.b@
        } else {
            self.a@
        }
    }

    /// Construct a grid from a seed: byte 1 seeds a live cell, any other
    /// byte a dead one; the write target starts all dead; the seeded buffer
    /// is current.
    pub fn new(seed: &Vec<u8>, width: usize, height: usize) -> (g: Grid)
        requires
            1 <= width,
            1 <= height,
            width * height == seed@.len(),
            seed@.len() <= usize::MAX / 2,
        ensures
            g.wf(),
            g.width == width,
            g.height == height,
            g.active == 0,
            g.cur().len() == seed@.len(),
            forall|i: int| 0 <= i < seed@.len() ==> g.cur()[i] == seed_cell(seed@[i]),
            g.nxt().len() == seed@.len(),
            all_dead(g.nxt()),
    {
        let n = seed.len();
        let mut a: Vec<u8> = Vec::new();
        let mut b: Vec<u8> = Vec::new();
        let mut i: usize = 0;
        while i < n
            invariant
                n == seed@.len(),
                i <= n,
                a@.len() == i,
                b@.len() == i,
                forall|j: int| 0 <= j < i ==> a@[j] == seed_cell(seed@[j]),
                forall|j: int| 0 <= j < i ==> b@[j] == 0,
            decreases n - i,
        {
            let c: u8 = if seed[i] == 1 {
                1
            } else {
                0
            };
            a.push(c);
            b.push(0);
            i += 1;
        }
        Grid { a, b, active: 0, width, height }
    }

    /// The number of cells in each buffer.
    pub fn cell_count(&self) -> (n: usize)
        ensures
            n == self.a@.len(),
    {
        self.a.len()
    }

    /// The cell of the current buffer at flat index `i`.
    pub fn current_at(&self, i: usize) -> (c: u8)
        requires
            i < self.cur().len(),
            self.wf(),
        ensures
            c == self.cur()[i as int],
    {
        if self.active == 0 {
            self.a[i]
        } else {
            self.b[i]
        }
    }

    /// The cell of the next buffer at flat index `i`.
    pub fn next_at(&self, i: usize) -> (c: u8)
        requires
            i < self.nxt().len(),
            self.wf(),
        ensures
            c == self.nxt()[i as int],
    {
        if self.active == 0 {
            self.b[i]
        } else {
            self.a[i]
        }
    }

    /// Alternate the buffer roles: the current buffer becomes the write
    /// target and the former target becomes current. No cell moves.
    pub fn swap(&mut self)
        requires
            old(self).wf(),
        ensures
            final(self).wf(),
            swap_rel(*old(self), *final(self)),
            final(self).cur() == old(self).nxt(),
            final(self).nxt() == old(self).cur(),
    {
        self.active = if self.active == 0 {
            1
        } else {
            0
        };
    }

    /// Overwrite the current buffer — the one the upcoming step will read —
    /// with the given binary values, value `k` into cell `k`. The write
    /// target, the roles and the dimensions are untouched. The reseeded
    /// buffer is a pure function of the given sequence.
    pub fn reseed_from(&mut self, bits: &Vec<u8>)
        requires
            old(self).wf(),
            bits@.len() == old(self).cur().len(),
            all_cells(bits@),
        ensures
            final(self).wf(),
            final(self).width == old(self).width,
            final(self).height == old(self).height,
            final(self).active == old(self).active,
            final(self).nxt() == old(self).nxt(),
            final(self).cur() == bits@,
    {
        let n = self.a.len();
        let mut i: usize = 0;
        while i < n
            invariant
                self.wf(),
                n == self.a@.len(),
                i <= n,
                bits@.len() == n,
                all_cells(bits@),
                self.width == old(self).width,
                self.height == old(self).height,
                self.active == old(self).active,
                self.nxt() == old(self).nxt(),
                self.cur().len() == n,
                forall|j: int| 0 <= j < i ==> self.cur()[j] == bits@[j],
            decreases n - i,
        {
            let bit = bits[i];
            if self.active == 0 {
                self.a.set(i, bit);
            } else {
                self.b.set(i, bit);
            }
            i += 1;
        }
        proof {
            assert(self.cur() =~= bits@);
        }
    }

    /// Overwrite every cell of the current buffer with an independently
    /// drawn random binary value: the cell at flat index `k` receives the
    /// `k`-th draw, through `reseed_from`. The write target is untouched.
    /// Nothing more than binary contents can be promised of the outcome
    /// here: the draws are random.
    pub fn reseed(&mut self)
        requires
            old(self).wf(),
        ensures
            final(self).wf(),
            final(self).width == old(self).width,
            final(self).height == old(self).height,
            final(self).active == old(self).active,
            final(self).nxt() == old(self).nxt(),
            final(self).cur().len() == old(self).cur().len(),
            all_cells(final(self).cur()),
    {
        let n = self.a.len();
        let mut bits: Vec<u8> = Vec::new();
        let mut i: usize = 0;
        while i < n
            invariant
                i <= n,
                bits@.len() == i,
                all_cells(bits@),
            decreases n - i,
        {
            bits.push(random_bit());
            i += 1;
        }
        self.reseed_from(&bits);
    }

    /// Compute one generation from the current buffer into the write target
    /// and render it into `pixels`. The current buffer and the roles are
    /// unchanged; a following `swap` makes the new generation current.
    pub fn step(&mut self, pixels: &mut Vec<u32>)
        requires
            old(self).wf(),
            old(pixels)@.len() == old(self).a@.len(),
        ensures
            final(self).wf(),
            final(self).width == old(self).width,
            final(self).height == old(self).height,
            final(self).active == old(self).active,
            final(self).cur() == old(self).cur(),
            final(self).nxt() == step_seq(old(self).cur(), old(self).width as int),
            final(pixels)@ == pixel_seq(step_seq(old(self).cur(), old(self).width as int)),
    {
        proof {
            crate::life::lemma_step_cells_binary(old(self).cur(), old(self).width as int);
            vstd::arithmetic::mul::lemma_mul_ordering(
                old(self).width as int,
                old(self).height as int,
            );
        }
        if self.active == 0 {
            step_buffers(&self.a, &mut self.b, pixels, self.width);
        } else {
            step_buffers(&self.b, &mut self.a, pixels, self.width);
        }
    }

    /// Render the current buffer as a pixel image: alive cells opaque
    /// white, dead cells black.
    pub fn render_current(&self) -> (px: Vec<u32>)
        requires
            self.wf(),
        ensures
            px@ == pixel_seq(self.cur()),
    {
        let n = self.cell_count();
        let mut px: Vec<u32> = Vec::new();
        let mut i: usize = 0;
        while i < n
            invariant
                self.wf(),
                n == self.cur().len(),
                i <= n,
                px@.len() == i,
                forall|j: int| 0 <= j < i ==> px@[j] == pixel_of(self.cur()[j]),
            decreases n - i,
        {
            let c = self.current_at(i);
            px.push(
                if c == 1 {
                    crate::life::ALIVE_PIXEL
                } else {
                    crate::life::DEAD_PIXEL
                },
            );
            i += 1;
        }
        proof {
            assert(px@ =~= pixel_seq(self.cur()));
        }
        px
    }
}

/// Alternating the buffer roles twice restores the grid exactly: the pair
/// of buffers comes back in its original roles.
pub proof fn lemma_swap_twice_restores(g0: Grid, g1: Grid, g2: Grid)
    requires
        g0.active == 0 || g0.active == 1,
        swap_rel(g0, g1),
        swap_rel(g1, g2),
    ensures
        g2 == g0,
        g1.cur() == g0.nxt(),
        g1.nxt() == g0.cur(),
        g2.cur() == g0.cur(),
        g2.nxt() == g0.nxt(),
{
}

} // verus!
