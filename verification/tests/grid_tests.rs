use conway::grid::Grid;
use conway::stepper::apply_rule;

const WHITE: u32 = 0x00FF_FFFF;

/// Collect the current buffer through the role-aware accessor.
fn current_cells(g: &Grid) -> Vec<u8> {
    let n = g.cell_count();
    let mut v = Vec::new();
    let mut i = 0;
    while i < n {
        v.push(g.current_at(i));
        i += 1;
    }
    v
}

/// Collect the next (write-target) buffer through the role-aware accessor.
fn next_cells(g: &Grid) -> Vec<u8> {
    let n = g.cell_count();
    let mut v = Vec::new();
    let mut i = 0;
    while i < n {
        v.push(g.next_at(i));
        i += 1;
    }
    v
}

/// One tick: compute the next generation, then alternate the buffer roles so
/// the new generation becomes current.
fn tick(g: &mut Grid, px: &mut Vec<u32>) {
    assert_eq!(px.len(), g.cell_count());
    g.step(px);
    g.swap();
}

fn seed_with_live(n: usize, live: &[usize]) -> Vec<u8> {
    let mut s = vec![0u8; n];
    for &i in live {
        s[i] = 1;
    }
    s
}

#[test]
fn rule_table_exhaustive() {
    for sum in 0u32..=8 {
        let live_next = apply_rule(true, sum);
        let dead_next = apply_rule(false, sum);
        if sum == 2 || sum == 3 {
            assert_eq!(live_next, 1);
        } else {
            assert_eq!(live_next, 0);
        }
        if sum == 3 {
            assert_eq!(dead_next, 1);
        } else {
            assert_eq!(dead_next, 0);
        }
    }
}

#[test]
fn new_maps_seed_bytes() {
    let seed = vec![0u8, 1, 2, 255, 1, 7];
    let g = Grid::new(&seed, 3, 2);
    assert_eq!(current_cells(&g), vec![0, 1, 0, 0, 1, 0]);
    assert_eq!(next_cells(&g), vec![0, 0, 0, 0, 0, 0]);
    assert_eq!(g.cell_count(), 6);
}

#[test]
fn render_current_matches_seed() {
    let seed = vec![1u8, 0, 0, 1];
    let g = Grid::new(&seed, 2, 2);
    assert_eq!(g.render_current(), vec![WHITE, 0, 0, WHITE]);
}

#[test]
fn swap_twice_restores_roles() {
    let seed = seed_with_live(16, &[0, 5, 10]);
    let mut g = Grid::new(&seed, 4, 4);
    let cur0 = current_cells(&g);
    let nxt0 = next_cells(&g);
    assert_ne!(cur0, nxt0);

    g.swap();
    assert_eq!(current_cells(&g), nxt0);
    assert_eq!(next_cells(&g), cur0);

    g.swap();
    assert_eq!(current_cells(&g), cur0);
    assert_eq!(next_cells(&g), nxt0);
}

#[test]
fn wraparound_counts_last_index_for_cell_zero() {
    // Cell 0 is dead; its wrapped neighbors 15, 1 and 4 are alive, so its
    // sum is 3 and it is born. Without the wraparound to flat index 15 the
    // sum would be 2 and it would stay dead.
    let seed = seed_with_live(16, &[15, 1, 4]);
    let mut g = Grid::new(&seed, 4, 4);
    let mut px = vec![0u32; 16];
    g.step(&mut px);
    assert_eq!(g.next_at(0), 1);
    assert_eq!(px[0], WHITE);
}

#[test]
fn wraparound_control_without_last_index() {
    // Same picture with the wrapped neighbor 15 dead: only two live
    // neighbors, so cell 0 stays dead.
    let seed = seed_with_live(16, &[1, 4]);
    let mut g = Grid::new(&seed, 4, 4);
    let mut px = vec![0u32; 16];
    g.step(&mut px);
    assert_eq!(g.next_at(0), 0);
    assert_eq!(px[0], 0);
}

#[test]
fn glider_advances_one_textbook_generation() {
    // A glider well inside an 8x8 torus, rows 1..=3, columns 1..=3.
    let before = [10usize, 19, 25, 26, 27];
    let after = [17usize, 19, 26, 27, 34];
    let seed = seed_with_live(64, &before);
    let mut g = Grid::new(&seed, 8, 8);
    let mut px = vec![0u32; 64];
    tick(&mut g, &mut px);
    let expected = seed_with_live(64, &after);
    assert_eq!(current_cells(&g), expected);
    for i in 0..64 {
        assert_eq!(px[i], if expected[i] == 1 { WHITE } else { 0 });
    }
}

#[test]
fn blinker_oscillates_back_after_two_ticks() {
    // A horizontal blinker in the middle of a 5x5 torus flips to vertical
    // and back.
    let horizontal = seed_with_live(25, &[11, 12, 13]);
    let vertical = seed_with_live(25, &[7, 12, 17]);
    let mut g = Grid::new(&horizontal, 5, 5);
    let mut px = vec![0u32; 25];
    tick(&mut g, &mut px);
    assert_eq!(current_cells(&g), vertical);
    tick(&mut g, &mut px);
    assert_eq!(current_cells(&g), horizontal);
}

#[test]
fn all_dead_grid_stays_dead() {
    let seed = vec![0u8; 64];
    let mut g = Grid::new(&seed, 8, 8);
    let mut px = vec![7u32; 64];
    for _ in 0..10 {
        tick(&mut g, &mut px);
        assert_eq!(current_cells(&g), vec![0u8; 64]);
        assert_eq!(px, vec![0u32; 64]);
    }
}

#[test]
fn full_board_of_live_cells_dies_at_once() {
    // Every cell of an all-alive 4x4 board has neighbor sum 8, which the
    // rule's sum==3 / sum==2 branches exclude, so the whole board dies.
    let seed = vec![1u8; 16];
    let mut g = Grid::new(&seed, 4, 4);
    let mut px = vec![0u32; 16];
    g.step(&mut px);
    assert_eq!(next_cells(&g), vec![0u8; 16]);
    assert_eq!(px, vec![0u32; 16]);
    // The current buffer, the read source, is untouched by the step.
    assert_eq!(current_cells(&g), vec![1u8; 16]);
}

#[test]
fn cells_stay_binary_through_ticks() {
    // Junk seed bytes enter as binary cells and stay binary through steps.
    let mut seed = vec![0u8; 64];
    for i in 0..64 {
        seed[i] = (i * 37 % 256) as u8;
    }
    let mut g = Grid::new(&seed, 8, 8);
    let mut px = vec![0u32; 64];
    for _ in 0..6 {
        for &c in current_cells(&g).iter() {
            assert!(c == 0 || c == 1);
        }
        for &c in next_cells(&g).iter() {
            assert!(c == 0 || c == 1);
        }
        tick(&mut g, &mut px);
    }
}

#[test]
fn reseed_fills_current_and_spares_next() {
    // After one tick of an all-alive 16x16 board, the current buffer is all
    // dead and the write target holds the old all-ones buffer.
    let seed = vec![1u8; 256];
    let mut g = Grid::new(&seed, 16, 16);
    let mut px = vec![0u32; 256];
    tick(&mut g, &mut px);
    assert_eq!(current_cells(&g), vec![0u8; 256]);
    assert_eq!(next_cells(&g), vec![1u8; 256]);

    g.reseed();

    let cur = current_cells(&g);
    for &c in cur.iter() {
        assert!(c == 0 || c == 1);
    }
    // 256 independent fair binary draws are all zero with probability
    // 2^-256: the reseeded buffer differs from its all-dead former content.
    assert_ne!(cur, vec![0u8; 256]);
    // The other buffer is untouched.
    assert_eq!(next_cells(&g), vec![1u8; 256]);
}

#[test]
fn reseed_from_puts_draw_k_into_cell_k() {
    // The reseeded buffer is exactly the given draw sequence, in order,
    // and the write target is untouched.
    let seed = vec![1u8; 16];
    let mut g = Grid::new(&seed, 4, 4);
    let bits = vec![0u8, 1, 1, 0, 1, 0, 0, 1, 1, 1, 0, 0, 0, 1, 0, 1];
    assert_eq!(bits.len(), g.cell_count());
    assert!(bits.iter().all(|&b| b == 0 || b == 1));
    g.reseed_from(&bits);
    assert_eq!(current_cells(&g), bits);
    assert_eq!(next_cells(&g), vec![0u8; 16]);
}

#[test]
fn step_reads_the_reseeded_buffer() {
    // Reseed fills the buffer the very next step reads; the step leaves
    // that read source untouched while it writes the other buffer.
    let seed = vec![0u8; 256];
    let mut g = Grid::new(&seed, 16, 16);
    g.reseed();
    let reseeded = current_cells(&g);
    let mut px = vec![0u32; 256];
    g.step(&mut px);
    assert_eq!(current_cells(&g), reseeded);
}
