use game_of_life::universe::Universe;

/// A fresh all-dead grid of the given size.
fn fresh(width: u32, height: u32) -> Universe {
    let mut u = Universe::new();
    u.set_width(width);
    u.set_height(height);
    u
}

fn live_cells(u: &Universe) -> Vec<(u32, u32)> {
    let mut out = Vec::new();
    let bits = u.get_cells();
    for row in 0..u.height() {
        for col in 0..u.width() {
            if bits.contains((row * u.width() + col) as usize) {
                out.push((row, col));
            }
        }
    }
    out
}

#[test]
fn new_universe_is_128_by_128_and_dead() {
    let u = Universe::new();
    assert_eq!(u.width(), 128);
    assert_eq!(u.height(), 128);
    let bits = u.get_cells();
    assert_eq!(bits.len(), 128 * 128);
    assert_eq!(bits.count_ones(..), 0);
}

#[test]
fn set_cells_is_additive() {
    let mut u = fresh(5, 5);
    u.set_cells(&[(1, 1)]);
    u.set_cells(&[(2, 2)]);
    assert_eq!(live_cells(&u), vec![(1, 1), (2, 2)]);
}

#[test]
fn determinism_same_seed_same_evolution() {
    let mut a = fresh(8, 8);
    let mut b = fresh(8, 8);
    let seed = [(1u32, 2u32), (2, 3), (3, 1), (3, 2), (3, 3)];
    a.set_cells(&seed);
    b.set_cells(&seed);
    for _ in 0..5 {
        a.tick();
        b.tick();
        assert_eq!(live_cells(&a), live_cells(&b));
        assert_eq!(a.render(), b.render());
    }
}

#[test]
fn toroidal_wrap_counts_opposite_corner() {
    // Three corners of the grid are mutually adjacent through the wrap, so
    // the fourth corner has exactly three live neighbors and is born.
    let mut u = fresh(4, 4);
    u.set_cells(&[(0, 0), (0, 3), (3, 0)]);
    u.tick();
    assert!(live_cells(&u).contains(&(3, 3)));
}

#[test]
fn block_still_life_is_unchanged() {
    let mut u = fresh(6, 6);
    let block = [(2u32, 2u32), (2, 3), (3, 2), (3, 3)];
    u.set_cells(&block);
    let before = live_cells(&u);
    for _ in 0..4 {
        u.tick();
        assert_eq!(live_cells(&u), before);
    }
}

#[test]
fn blinker_rotates_then_returns() {
    let mut u = fresh(7, 7);
    u.set_cells(&[(3, 2), (3, 3), (3, 4)]);
    let horizontal = live_cells(&u);
    u.tick();
    assert_eq!(live_cells(&u), vec![(2, 3), (3, 3), (4, 3)]);
    u.tick();
    assert_eq!(live_cells(&u), horizontal);
}

#[test]
fn birth_rule_exactly_three_neighbors() {
    // (2, 2) is dead with exactly three live neighbors and is born; (0, 0)
    // is dead with one live neighbor and stays dead.
    let mut u = fresh(6, 6);
    u.set_cells(&[(1, 1), (1, 2), (2, 1)]);
    u.tick();
    let alive = live_cells(&u);
    assert!(alive.contains(&(2, 2)));
    assert!(!alive.contains(&(0, 0)));
}

#[test]
fn lonely_cell_dies_and_stays_dead() {
    let mut u = fresh(5, 5);
    u.set_cells(&[(2, 2)]);
    u.tick();
    assert_eq!(live_cells(&u), vec![]);
}

#[test]
fn resize_width_clears_state() {
    let mut u = fresh(5, 5);
    u.set_cells(&[(1, 1), (2, 2), (4, 4)]);
    u.set_width(3);
    assert_eq!(u.width(), 3);
    assert_eq!(u.height(), 5);
    let bits = u.get_cells();
    assert_eq!(bits.len(), 15);
    assert_eq!(bits.count_ones(..), 0);
}

#[test]
fn resize_height_clears_state() {
    let mut u = fresh(5, 5);
    u.set_cells(&[(0, 0), (3, 3)]);
    u.set_height(2);
    assert_eq!(u.width(), 5);
    assert_eq!(u.height(), 2);
    let bits = u.get_cells();
    assert_eq!(bits.len(), 10);
    assert_eq!(bits.count_ones(..), 0);
}

#[test]
fn reset_cells_kills_everything() {
    let mut u = fresh(5, 5);
    u.set_cells(&[(1, 1), (2, 2)]);
    u.reset_cells();
    assert_eq!(u.get_cells().count_ones(..), 0);
    assert_eq!(u.get_cells().len(), 25);
}

#[test]
fn render_round_trip_on_five_by_five() {
    let mut u = fresh(5, 5);
    u.set_cells(&[(1, 1), (1, 2), (2, 1)]);
    let text = u.render();
    let lines: Vec<&str> = text.split('\n').collect();
    // Five rows plus the empty remainder after the final newline.
    assert_eq!(lines.len(), 6);
    assert_eq!(lines[5], "");
    assert_eq!(lines[0], "\u{25a1}\u{25a1}\u{25a1}\u{25a1}\u{25a1}");
    assert_eq!(lines[1], "\u{25a1}\u{25a0}\u{25a0}\u{25a1}\u{25a1}");
    assert_eq!(lines[2], "\u{25a1}\u{25a0}\u{25a1}\u{25a1}\u{25a1}");
    assert_eq!(lines[3], "\u{25a1}\u{25a1}\u{25a1}\u{25a1}\u{25a1}");
    assert_eq!(lines[4], "\u{25a1}\u{25a1}\u{25a1}\u{25a1}\u{25a1}");
}

#[test]
fn render_uses_one_char_per_cell() {
    let mut u = fresh(3, 2);
    u.set_cells(&[(0, 0), (1, 2)]);
    assert_eq!(u.render(), "\u{25a0}\u{25a1}\u{25a1}\n\u{25a1}\u{25a1}\u{25a0}\n");
}

fn gun_coordinates() -> Vec<(u32, u32)> {
    vec![
        (2, 35),
        (3, 35),
        (3, 37),
        (4, 1),
        (4, 23),
        (4, 25),
        (4, 35),
        (4, 36),
        (5, 1),
        (5, 3),
        (5, 23),
        (5, 24),
        (6, 1),
        (6, 2),
        (6, 9),
        (6, 11),
        (6, 24),
        (6, 37),
        (6, 38),
        (6, 39),
        (7, 9),
        (7, 10),
        (7, 37),
        (8, 3),
        (8, 4),
        (8, 5),
        (8, 10),
        (8, 24),
        (8, 25),
        (8, 38),
        (9, 3),
        (9, 24),
        (9, 26),
        (9, 30),
        (10, 4),
        (10, 10),
        (10, 11),
        (10, 24),
        (10, 29),
        (10, 30),
        (11, 10),
        (11, 12),
        (11, 16),
        (11, 29),
        (11, 31),
        (12, 10),
        (12, 15),
        (12, 16),
        (12, 21),
        (12, 22),
        (13, 15),
        (13, 17),
        (13, 21),
        (13, 23),
        (14, 21),
        (15, 40),
        (15, 41),
        (16, 40),
        (16, 42),
        (17, 40),
        (20, 29),
        (20, 30),
        (20, 31),
        (21, 29),
        (22, 30),
        (108, 122),
        (108, 123),
        (109, 122),
        (109, 124),
        (110, 124),
        (111, 124),
        (111, 125),
    ]
}

#[test]
fn template_seeds_exactly_the_gun_coordinates() {
    let mut u = Universe::new();
    u.set_cells(&[(50, 50)]);
    u.set_template("GriderGun");
    let mut expected = gun_coordinates();
    expected.sort();
    let mut got = live_cells(&u);
    got.sort();
    assert_eq!(got, expected);
}

#[test]
fn template_seeding_is_deterministic() {
    let mut a = Universe::new();
    let mut b = Universe::new();
    a.set_template("GriderGun");
    b.set_template("GriderGun");
    assert_eq!(live_cells(&a), live_cells(&b));
}

#[test]
fn unknown_template_leaves_grid_empty() {
    let mut u = Universe::new();
    u.set_cells(&[(3, 3), (4, 4)]);
    u.set_template("NoSuchPattern");
    assert_eq!(u.get_cells().count_ones(..), 0);
    assert_eq!(u.get_cells().len(), 128 * 128);
}
