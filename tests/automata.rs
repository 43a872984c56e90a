use rule30conway::{next_row, ConfigError, Conway, Rule30, Rule30Conway};

fn grid_of(c: &Conway) -> Vec<u8> {
    let mut out = Vec::new();
    for y in 0..c.height() {
        for x in 0..c.width() {
            out.push(c.cell(x, y));
        }
    }
    out
}

fn block_conway(w: usize, h: usize, x0: usize, y0: usize) -> Conway {
    let mut c = Conway::new(w, h);
    let mut row = vec![0u8; w];
    row[x0] = 1;
    row[x0 + 1] = 1;
    c.set_row(y0, &row);
    c.set_row(y0 + 1, &row);
    c
}

#[test]
fn next_row_keeps_length() {
    for w in 3..40usize {
        let mut row = vec![0u8; w];
        for i in 0..w {
            row[i] = ((i * 7 + w) % 3 == 0) as u8;
        }
        let r = next_row(&row);
        assert_eq!(r.len(), w);
        assert!(r.iter().all(|&c| c <= 1));
    }
}

#[test]
fn next_row_single_live_cell() {
    assert_eq!(next_row(&vec![0, 0, 1, 0, 0]), vec![0, 1, 1, 1, 0]);
}

#[test]
fn next_row_wraps_round_the_edges() {
    assert_eq!(next_row(&vec![1, 0, 0, 0, 0]), vec![1, 1, 0, 0, 1]);
    assert_eq!(next_row(&vec![0, 0, 0, 0, 1]), vec![1, 0, 0, 1, 1]);
}

#[test]
fn next_row_every_neighbourhood() {
    // Width 3: cell 1 sees cells 0, 1, 2 in that order.
    let expected = [0u8, 1, 1, 1, 1, 0, 0, 0];
    for code in 0..8usize {
        let row = vec![((code >> 2) & 1) as u8, ((code >> 1) & 1) as u8, (code & 1) as u8];
        assert_eq!(next_row(&row)[1], expected[code], "code {}", code);
    }
}

#[test]
fn next_row_width_one() {
    assert_eq!(next_row(&vec![1]), vec![0]);
    assert_eq!(next_row(&vec![0]), vec![0]);
}

#[test]
fn rule30_new_seeds_newest_row() {
    let r = Rule30::new(5, 3);
    assert_eq!(r.rows(), vec![vec![0, 0, 0, 0, 0], vec![0, 0, 0, 0, 0], vec![0, 0, 1, 0, 0]]);
    assert_eq!(r.width(), 5);
    assert_eq!(r.height(), 3);
    assert_eq!(r.cell(2, 2), 1);
    assert_eq!(r.cell(2, 1), 0);
}

#[test]
fn rule30_step_slides_window() {
    let mut r = Rule30::new(5, 3);
    for _ in 0..6 {
        let before = r.rows();
        let expected_next = next_row(&before[2]);
        let out = r.step();
        let after = r.rows();
        assert_eq!(out, before[0]);
        assert_eq!(after.len(), 3);
        assert_eq!(after[0], before[1]);
        assert_eq!(after[1], before[2]);
        assert_eq!(after[2], expected_next);
    }
}

#[test]
fn rule30_get_next_line_reads_newest_row() {
    let r = Rule30::new(5, 2);
    assert_eq!(r.get_next_line(), vec![0, 1, 1, 1, 0]);
}

#[test]
fn rule30_height_one() {
    let mut r = Rule30::new(5, 1);
    assert_eq!(r.step(), vec![0, 0, 1, 0, 0]);
    assert_eq!(r.rows(), vec![vec![0, 1, 1, 1, 0]]);
}

#[test]
fn conway_new_is_dead() {
    let c = Conway::new(4, 3);
    assert_eq!(grid_of(&c), vec![0; 12]);
    let (cur, spare) = c.get_buffers();
    assert_eq!(cur.len(), 12);
    assert_eq!(spare.len(), 12);
}

#[test]
fn conway_identical_seeds_stay_identical() {
    let mut a = Conway::new(8, 6);
    let mut b = Conway::new(8, 6);
    let row = vec![0u8, 1, 1, 0, 1, 0, 1, 1];
    for c in [&mut a, &mut b] {
        c.set_row(2, &row);
        c.set_row(3, &vec![1, 1, 0, 0, 1, 1, 0, 1]);
    }
    for _ in 0..25 {
        a.step();
        b.step();
        assert_eq!(grid_of(&a), grid_of(&b));
    }
}

#[test]
fn conway_block_is_still() {
    let mut c = block_conway(6, 6, 2, 2);
    let start = grid_of(&c);
    for _ in 0..30 {
        c.step();
        assert_eq!(grid_of(&c), start);
    }
}

#[test]
fn conway_block_in_corner_is_still() {
    let mut c = block_conway(2, 2, 0, 0);
    for _ in 0..5 {
        c.step();
        assert_eq!(grid_of(&c), vec![1, 1, 1, 1]);
    }
    let mut d = block_conway(5, 4, 3, 2);
    let start = grid_of(&d);
    for _ in 0..5 {
        d.step();
        assert_eq!(grid_of(&d), start);
    }
}

#[test]
fn conway_blinker_oscillates() {
    let mut c = Conway::new(5, 5);
    c.set_row(2, &vec![0, 1, 1, 1, 0]);
    c.step();
    let mut vertical = vec![0u8; 25];
    vertical[1 * 5 + 2] = 1;
    vertical[2 * 5 + 2] = 1;
    vertical[3 * 5 + 2] = 1;
    assert_eq!(grid_of(&c), vertical);
    c.step();
    let mut horizontal = vec![0u8; 25];
    horizontal[2 * 5 + 1] = 1;
    horizontal[2 * 5 + 2] = 1;
    horizontal[2 * 5 + 3] = 1;
    assert_eq!(grid_of(&c), horizontal);
}

#[test]
fn conway_no_wraparound() {
    // A vertical line on the left edge: with wraparound the right edge
    // would come alive.
    let mut c = Conway::new(4, 3);
    c.set_row(0, &vec![1, 0, 0, 0]);
    c.set_row(1, &vec![1, 0, 0, 0]);
    c.set_row(2, &vec![1, 0, 0, 0]);
    c.step();
    assert_eq!(grid_of(&c), vec![0, 0, 0, 0, 1, 1, 0, 0, 0, 0, 0, 0]);
}

#[test]
fn conway_degenerate_dimensions() {
    let mut one = Conway::new(1, 1);
    one.set_row(0, &vec![1]);
    one.step();
    assert_eq!(grid_of(&one), vec![0]);

    let mut column = Conway::new(1, 4);
    for y in 0..4 {
        column.set_row(y, &vec![1]);
    }
    column.step();
    assert_eq!(grid_of(&column), vec![0, 1, 1, 0]);

    let mut line = Conway::new(4, 1);
    line.set_row(0, &vec![1, 1, 1, 1]);
    line.step();
    assert_eq!(grid_of(&line), vec![0, 1, 1, 0]);
}

#[test]
fn conway_step_flips_buffers() {
    let mut c = Conway::new(3, 3);
    c.set_row(1, &vec![1, 1, 1]);
    let before = grid_of(&c);
    c.step();
    let (cur, spare) = c.get_buffers();
    assert_eq!(spare, &before);
    assert_eq!(cur, &vec![0, 1, 0, 0, 1, 0, 0, 1, 0]);
}

#[test]
fn conway_get_buffers_mut_writes_current() {
    let mut c = Conway::new(2, 2);
    {
        let (cur, spare) = c.get_buffers_mut();
        cur[0] = 1;
        spare[3] = 1;
    }
    assert_eq!(grid_of(&c), vec![1, 0, 0, 0]);
    assert_eq!(c.get_buffers().1, &vec![0, 0, 0, 1]);
}

#[test]
fn simulation_injects_row_before_life_step() {
    let mut s = Rule30Conway::new(5, 2);
    let evicted = s.rule30().rows()[0].clone();
    assert_eq!(evicted, vec![0, 0, 1, 0, 0]);
    s.step();
    let (_, previous) = s.conway().get_buffers();
    assert_eq!(previous[5 * 0..5], evicted[..]);
    // The lone live cell dies in the generation it was written into.
    assert_eq!(s.snapshot().1, vec![0, 0, 0, 0, 0]);
    assert_eq!(s.snapshot().0, vec![vec![0, 1, 1, 1, 0]]);
}

#[test]
fn simulation_evicted_rows_reach_bottom_row() {
    let mut s = Rule30Conway::new(9, 8);
    for _ in 0..12 {
        let evicted = s.rule30().rows()[0].clone();
        s.step();
        let (_, previous) = s.conway().get_buffers();
        assert_eq!(previous[9 * 3..9 * 4], evicted[..]);
    }
}

#[test]
fn simulation_odd_height_truncates() {
    let s = Rule30Conway::new(10, 301);
    assert_eq!(s.rule30().height(), 150);
    assert_eq!(s.conway().height(), 150);
    assert_eq!(s.rule30().width(), 10);
    assert_eq!(s.conway().width(), 10);
    let (rows, grid) = s.snapshot();
    assert_eq!(rows.len(), 150);
    assert_eq!(grid.len(), 1500);
}

#[test]
fn simulation_try_new_errors() {
    assert_eq!(Rule30Conway::try_new(0, 10).err(), Some(ConfigError::ZeroWidth));
    assert_eq!(Rule30Conway::try_new(5, 1).err(), Some(ConfigError::TooShort));
    assert_eq!(Rule30Conway::try_new(5, 0).err(), Some(ConfigError::TooShort));
    assert_eq!(Rule30Conway::try_new(usize::MAX, 4).err(), Some(ConfigError::TooLarge));
    let s = Rule30Conway::try_new(6, 5).unwrap();
    assert_eq!(s.conway().height(), 2);
}

#[test]
fn simulation_new_snapshot() {
    let s = Rule30Conway::new(5, 6);
    let (rows, grid) = s.snapshot();
    assert_eq!(rows, vec![vec![0, 0, 0, 0, 0], vec![0, 0, 0, 0, 0], vec![0, 0, 1, 0, 0]]);
    assert_eq!(grid, vec![0; 15]);
}

#[test]
fn simulation_steps_match_parts() {
    let mut s = Rule30Conway::new(7, 8);
    let mut r = Rule30::new(7, 4);
    let mut c = Conway::new(7, 4);
    for _ in 0..20 {
        s.step();
        let line = r.step();
        c.set_row(3, &line);
        c.step();
        let (rows, grid) = s.snapshot();
        assert_eq!(rows, r.rows());
        assert_eq!(grid, grid_of(&c));
    }
}
