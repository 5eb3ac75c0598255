//! The generation stepper: executable wraparound index arithmetic, the
//! transition rule, and the full-buffer step that writes the next generation
//! and the pixel image in one pass.
use vstd::prelude::*;

use crate::life::{
    next_cell, next_state, neighbor_sum, pixel_of, pixel_seq, step_seq, wrap, ALIVE_PIXEL,
    DEAD_PIXEL,
};
use vstd::arithmetic::div_mod::{
    lemma_add_mod_noop_right, lemma_mod_multiples_vanish, lemma_small_mod,
    lemma_sub_mod_noop_right,
};

verus! {

/// The flat index `k` places to the right of `i`, wrapped modulo `n`.
pub fn wrap_add(i: usize, k: usize, n: usize) -> (r: usize)
    requires
        n >= 1,
        i < n,
        n <= usize::MAX / 2,
    ensures
        r < n,
        r as int == wrap(i as int, k as int, n as int),
{
    let kp = k % n;
    let s = i + kp;
    let r = if s >= n {
        s - n
    } else {
        s
    };
    proof {
        lemma_add_mod_noop_right(i as int, k as int, n as int);
        if s >= n {
            lemma_mod_multiples_vanish(1, s as int - n as int, n as int);
            lemma_small_mod((s - n) as nat, n as nat);
        } else {
            lemma_small_mod(s as nat, n as nat);
        }
    }
    r
}

/// The flat index `k` places to the left of `i`, wrapped modulo `n`.
pub fn wrap_sub(i: usize, k: usize, n: usize) -> (r: usize)
    requires
        n >= 1,
        i < n,
        n <= usize::MAX / 2,
    ensures
        r < n,
        r as int == wrap(i as int, -(k as int), n as int),
{
    let kp = k % n;
    let d = if kp == 0 {
        0
    } else {
        n - kp
    };
    let r = wrap_add(i, d, n);
    proof {
        lemma_sub_mod_noop_right(i as int, k as int, n as int);
        if kp != 0 {
            lemma_mod_multiples_vanish(1, i as int - kp as int, n as int);
        }
    }
    r
}

/// Conway's rule on one cell: alive next iff the neighbor sum is 3, or the
/// cell is alive and the sum is 2.
pub fn apply_rule(alive: bool, sum: u32) -> (c: u8)
    ensures
        c == next_state(alive, sum as int),
{
    if sum == 3 || (alive && sum == 2) {
        1
    } else {
        0
    }
}

/// One full generation step, as a pure function of the current buffer: for
/// every flat index, sum the eight toroidal neighbors, apply the rule, write
/// the new cell into `next` and its color into `pixels`. No cell of `next`
/// depends on any other cell of `next`; only `cur` is read.
pub fn step_buffers(cur: &Vec<u8>, next: &mut Vec<u8>, pixels: &mut Vec<u32>, width: usize)
    requires
        old(next)@.len() == cur@.len(),
        old(pixels)@.len() == cur@.len(),
        1 <= width <= cur@.len(),
        cur@.len() <= usize::MAX / 2,
    ensures
        final(next)@ == step_seq(cur@, width as int),
        final(pixels)@ == pixel_seq(step_seq(cur@, width as int)),
{
    let n = cur.len();
    let w = width;
    let mut i: usize = 0;
    while i < n
        invariant
            n == cur@.len(),
            1 <= w <= n,
            n <= usize::MAX / 2,
            i <= n,
            next@.len() == n,
            pixels@.len() == n,
            forall|j: int| 0 <= j < i ==> next@[j] == next_cell(cur@, w as int, j),
            forall|j: int|
                0 <= j < i ==> pixels@[j] == pixel_of(next_cell(cur@, w as int, j)),
        decreases n - i,
    {
        let lf = cur[wrap_sub(i, 1, n)];
        let rt = cur[wrap_add(i, 1, n)];
        let ul = cur[wrap_sub(i, w - 1, n)];
        let up = cur[wrap_sub(i, w, n)];
        let ur = cur[wrap_sub(i, w + 1, n)];
        let dl = cur[wrap_add(i, w - 1, n)];
        let dn = cur[wrap_add(i, w, n)];
        let dr = cur[wrap_add(i, w + 1, n)];
        let sum: u32 = lf as u32 + rt as u32 + ul as u32 + up as u32 + ur as u32 + dl as u32
            + dn as u32 + dr as u32;
        proof {
            assert(sum as int == neighbor_sum(cur@, w as int, i as int));
        }
        let alive = cur[i] == 1;
        let c = apply_rule(alive, sum);
        next.set(i, c);
        pixels.set(
            i,
            if c == 1 {
                ALIVE_PIXEL
            } else {
                DEAD_PIXEL
            },
        );
        i += 1;
    }
    proof {
        assert(next@ =~= step_seq(cur@, w as int));
        assert(pixels@ =~= pixel_seq(step_seq(cur@, w as int)));
    }
}

} // verus!
