//! Mathematical model of the simulation: what a cell buffer is, how the
//! toroidal neighbor sum is taken over flat indices, and what one generation
//! step produces. The executable code in the rest of the crate is specified
//! against the functions here.
use vstd::prelude::*;

use vstd::arithmetic::div_mod::{lemma_mod_bound, lemma_mod_multiples_vanish, lemma_small_mod};

verus! {

/// Pixel color written for a live cell.
pub const ALIVE_PIXEL: u32 = 0x00FF_FFFF;

/// Pixel color written for a dead cell.
pub const DEAD_PIXEL: u32 = 0;

/// A cell value is binary: 0 is dead, 1 is alive.
pub open spec fn is_cell(c: u8) -> bool {
    c == 0 || c == 1
}

/// Every value of the buffer is a binary cell value.
pub open spec fn all_cells(buf: Seq<u8>) -> bool {
    forall|i: int| 0 <= i < buf.len() ==> is_cell(#[trigger] buf[i])
}

/// Every value of the buffer is dead.
pub open spec fn all_dead(buf: Seq<u8>) -> bool {
    forall|i: int| 0 <= i < buf.len() ==> #[trigger] buf[i] == 0
}

/// A flat index offset by `off`, wrapped into `[0, n)`. `%` on `int` is
/// Euclidean, so the result is in range for any `i` and `off` when `n >= 1`.
pub open spec fn wrap(i: int, off: int, n: int) -> int
    recommends
        n >= 1,
{
    (i + off) % n
}

/// Sum of the eight toroidal neighbors of flat index `i` in a row-major
/// buffer of width `w`: offsets -1, +1, -(w-1), -w, -(w+1), +(w-1), +w,
/// +(w+1), each wrapped modulo the buffer length.
pub open spec fn neighbor_sum(buf: Seq<u8>, w: int, i: int) -> int
    recommends
        buf.len() >= 1,
        1 <= w,
        0 <= i < buf.len(),
{
    let n = buf.len() as int;
    buf[wrap(i, -1, n)] + buf[wrap(i, 1, n)] + buf[wrap(i, -(w - 1), n)] + buf[wrap(i, -w, n)]
        + buf[wrap(i, -(w + 1), n)] + buf[wrap(i, w - 1, n)] + buf[wrap(i, w, n)] + buf[
        wrap(i, w + 1, n)]
}

/// Conway's transition rule: a cell is alive in the next generation iff its
/// neighbor sum is 3, or it is alive now and its neighbor sum is 2.
pub open spec fn next_state(alive: bool, sum: int) -> u8 {
    if sum == 3 || (alive && sum == 2) {
        1u8
    } else {
        0u8
    }
}

/// The next value of the cell at flat index `i`.
pub open spec fn next_cell(buf: Seq<u8>, w: int, i: int) -> u8
    recommends
        buf.len() >= 1,
        1 <= w,
        0 <= i < buf.len(),
{
    next_state(buf[i] == 1, neighbor_sum(buf, w, i))
}

/// One full generation: every cell advanced by the rule, synchronously, from
/// the settled previous generation.
pub open spec fn step_seq(buf: Seq<u8>, w: int) -> Seq<u8>
    recommends
        buf.len() >= 1,
        1 <= w,
{
    Seq::new(buf.len(), |i: int| next_cell(buf, w, i))
}

/// `k` full generations.
pub open spec fn step_n(buf: Seq<u8>, w: int, k: nat) -> Seq<u8>
    decreases k,
{
    if k == 0 {
        buf
    } else {
        step_seq(step_n(buf, w, (k - 1) as nat), w)
    }
}

/// The pixel color of one cell value.
pub open spec fn pixel_of(c: u8) -> u32 {
    if c == 1 {
        ALIVE_PIXEL
    } else {
        DEAD_PIXEL
    }
}

/// The pixel image of a whole buffer.
pub open spec fn pixel_seq(buf: Seq<u8>) -> Seq<u32> {
    Seq::new(buf.len(), |i: int| pixel_of(buf[i]))
}

/// How a raw seed byte enters the grid: exactly the value 1 seeds a live
/// cell, every other byte seeds a dead one.
pub open spec fn seed_cell(b: u8) -> u8 {
    if b == 1 {
        1u8
    } else {
        0u8
    }
}

/// The transition rule as a table: for a live cell the next state is alive
/// iff the neighbor sum is 2 or 3; for a dead cell iff it is 3; and the next
/// state is always a binary cell value.
pub proof fn lemma_rule_table(alive: bool, sum: int)
    ensures
        alive ==> (next_state(alive, sum) == 1 <==> (sum == 2 || sum == 3)),
        !alive ==> (next_state(alive, sum) == 1 <==> sum == 3),
        is_cell(next_state(alive, sum)),
{
}

/// A generation step never produces anything but binary cell values,
/// whatever buffer it is applied to.
pub proof fn lemma_step_cells_binary(buf: Seq<u8>, w: int)
    ensures
        all_cells(step_seq(buf, w)),
        step_seq(buf, w).len() == buf.len(),
{
    assert forall|i: int| 0 <= i < step_seq(buf, w).len() implies is_cell(
        #[trigger] step_seq(buf, w)[i],
    ) by {
        assert(step_seq(buf, w)[i] == next_cell(buf, w, i));
    }
}

/// Toroidal wraparound at the top-left corner: the left neighbor of flat
/// index 0 is the last flat index, and that cell is counted by the neighbor
/// sum, so edge cells are never under-counted.
pub proof fn lemma_wraparound_top_left(buf: Seq<u8>, w: int)
    requires
        buf.len() >= 2,
        1 <= w,
    ensures
        wrap(0, -1, buf.len() as int) == buf.len() - 1,
        neighbor_sum(buf, w, 0) >= buf[buf.len() - 1],
{
    let n = buf.len() as int;
    lemma_mod_multiples_vanish(1, -1, n);
    lemma_small_mod((n - 1) as nat, n as nat);
    assert(buf[wrap(0, -1, n)] == buf[n - 1]);
}

/// On a buffer of all-live cells, every cell's toroidal neighbor sum is
/// exactly 8, and the rule therefore kills every cell: 8 is neither 2 nor 3.
pub proof fn lemma_all_alive_sum_eight(buf: Seq<u8>, w: int, i: int)
    requires
        buf.len() >= 1,
        1 <= w,
        0 <= i < buf.len(),
        forall|j: int| 0 <= j < buf.len() ==> #[trigger] buf[j] == 1,
    ensures
        neighbor_sum(buf, w, i) == 8,
        next_cell(buf, w, i) == 0,
{
    let n = buf.len() as int;
    lemma_mod_bound(i - 1, n);
    lemma_mod_bound(i + 1, n);
    lemma_mod_bound(i - (w - 1), n);
    lemma_mod_bound(i - w, n);
    lemma_mod_bound(i - (w + 1), n);
    lemma_mod_bound(i + (w - 1), n);
    lemma_mod_bound(i + w, n);
    lemma_mod_bound(i + (w + 1), n);
}

/// One step of an all-dead buffer is all dead: every neighbor sum is 0.
pub proof fn lemma_dead_step(buf: Seq<u8>, w: int)
    requires
        all_dead(buf),
    ensures
        all_dead(step_seq(buf, w)),
{
    let n = buf.len() as int;
    assert forall|i: int| 0 <= i < step_seq(buf, w).len() implies #[trigger] step_seq(buf, w)[i]
        == 0 by {
        lemma_mod_bound(i - 1, n);
        lemma_mod_bound(i + 1, n);
        lemma_mod_bound(i - (w - 1), n);
        lemma_mod_bound(i - w, n);
        lemma_mod_bound(i - (w + 1), n);
        lemma_mod_bound(i + (w - 1), n);
        lemma_mod_bound(i + w, n);
        lemma_mod_bound(i + (w + 1), n);
        assert(neighbor_sum(buf, w, i) == 0);
        assert(step_seq(buf, w)[i] == next_cell(buf, w, i));
    }
}

/// An all-dead buffer is a stable terminal state: it stays all dead after
/// any number of generation steps.
pub proof fn lemma_all_dead_stable(buf: Seq<u8>, w: int, k: nat)
    requires
        all_dead(buf),
    ensures
        all_dead(step_n(buf, w, k)),
        step_n(buf, w, k).len() == buf.len(),
    decreases k,
{
    if k > 0 {
        lemma_all_dead_stable(buf, w, (k - 1) as nat);
        lemma_dead_step(step_n(buf, w, (k - 1) as nat), w);
    }
}

} // verus!
