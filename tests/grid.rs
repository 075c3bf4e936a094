use game_of_life::{frame_pause, Cell, GameOfLife, GridError, WrapMode};

fn grid_with(width: usize, height: usize, live: &[(usize, usize)], wrap: WrapMode) -> GameOfLife {
    let mut field = vec![Cell::dead(); width * height];
    for &(x, y) in live {
        field[y * width + x] = Cell::alive();
    }
    GameOfLife::from_cells(width, height, field, wrap).unwrap()
}

fn live_cells(game: &GameOfLife) -> Vec<(usize, usize)> {
    let mut out = Vec::new();
    for y in 0..game.height() {
        for x in 0..game.width() {
            if game.is_alive(x as isize, y as isize) {
                out.push((x, y));
            }
        }
    }
    out
}

#[test]
fn index_to_coords_test() {
    let game = GameOfLife::new(10, 5, WrapMode::NoWrap).unwrap();

    assert_eq!(game.index_to_coords(0), (0, 0));
    assert_eq!(game.index_to_coords(1), (1, 0));
    assert_eq!(game.index_to_coords(5), (5, 0));
    assert_eq!(game.index_to_coords(10), (0, 1));
    assert_eq!(game.index_to_coords(49), (9, 4));
}

#[test]
fn index_test() {
    let game = GameOfLife::new(10, 5, WrapMode::Wrap).unwrap();
    assert_eq!(game.index(0, 0), 0);
    assert_eq!(game.index(1, 0), 1);
    assert_eq!(game.index(5, 0), 5);
    assert_eq!(game.index(0, 1), 10);
    assert_eq!(game.index(9, 4), 49);
}

#[test]
fn index_round_trip_on_every_cell() {
    let game = GameOfLife::new(7, 4, WrapMode::Wrap).unwrap();
    for i in 0..28 {
        let (x, y) = game.index_to_coords(i);
        assert!(x < 7 && y < 4);
        assert_eq!(game.index(x, y), i);
    }
}

#[test]
fn new_builds_requested_size() {
    let game = GameOfLife::new(6, 3, WrapMode::NoWrap).unwrap();
    assert_eq!(game.width(), 6);
    assert_eq!(game.height(), 3);
    assert_eq!(game.render().len(), 6 * 3 + 2);
}

#[test]
fn new_rejects_zero_dimension() {
    assert_eq!(GameOfLife::new(0, 5, WrapMode::Wrap).err(), Some(GridError::ZeroDimension));
    assert_eq!(GameOfLife::new(5, 0, WrapMode::NoWrap).err(), Some(GridError::ZeroDimension));
}

#[test]
fn new_rejects_too_large() {
    assert_eq!(GameOfLife::new(usize::MAX, 2, WrapMode::Wrap).err(), Some(GridError::TooLarge));
    assert_eq!(
        GameOfLife::new(isize::MAX as usize, 2, WrapMode::Wrap).err(),
        Some(GridError::TooLarge)
    );
}

#[test]
fn from_cells_rejects_wrong_count() {
    let field = vec![Cell::dead(); 5];
    assert_eq!(
        GameOfLife::from_cells(2, 3, field, WrapMode::Wrap).err(),
        Some(GridError::CellCountMismatch)
    );
    let field = vec![Cell::dead(); 5];
    assert_eq!(
        GameOfLife::from_cells(0, 3, field, WrapMode::Wrap).err(),
        Some(GridError::ZeroDimension)
    );
}

#[test]
fn cell_states_and_glyphs() {
    assert!(Cell::alive().is_alive());
    assert!(!Cell::dead().is_alive());
    assert!(Cell::from_state(true).is_alive());
    assert_eq!(Cell::alive().glyph(), '#');
    assert_eq!(Cell::dead().glyph(), ' ');
}

#[test]
fn wrap_get_resolves_any_coordinates() {
    let game = grid_with(4, 3, &[(3, 2)], WrapMode::Wrap);
    assert!(game.is_alive(3, 2));
    assert!(game.is_alive(-1, -1));
    assert!(game.is_alive(7, 5));
    assert!(game.is_alive(-9, -7));
    assert!(game.is_alive(3 - 400, 2 + 300));
    assert!(!game.is_alive(-2, -1));
    assert!(game.get(-1000, 1000).is_some());
    assert!(game.get(isize::MIN, isize::MAX).is_some());
}

#[test]
fn wrap_is_periodic() {
    let game = grid_with(5, 4, &[(0, 0), (2, 1), (4, 3)], WrapMode::Wrap);
    for x in -6..6isize {
        for y in -5..5isize {
            assert_eq!(game.is_alive(x, y), game.is_alive(x + 5, y));
            assert_eq!(game.is_alive(x, y), game.is_alive(x, y + 4));
        }
    }
}

#[test]
fn clip_outside_is_absent() {
    let game = grid_with(4, 3, &[(0, 0), (3, 2)], WrapMode::NoWrap);
    assert!(game.get(-1, 0).is_none());
    assert!(game.get(0, -1).is_none());
    assert!(game.get(4, 0).is_none());
    assert!(game.get(0, 3).is_none());
    assert!(!game.is_alive(-1, -1));
    assert!(game.get(3, 2).unwrap().is_alive());
    assert!(game.is_alive(0, 0));
    assert!(!game.is_alive(1, 0));
}

#[test]
fn neighbor_counts_stay_within_eight() {
    let full = vec![Cell::alive(); 9];
    let wrapped = GameOfLife::from_cells(3, 3, full, WrapMode::Wrap).unwrap();
    for i in 0..9 {
        assert_eq!(wrapped.count_neighbors(i), 8);
    }
    let full = vec![Cell::alive(); 9];
    let clipped = GameOfLife::from_cells(3, 3, full, WrapMode::NoWrap).unwrap();
    assert_eq!(clipped.count_neighbors(0), 3);
    assert_eq!(clipped.count_neighbors(1), 5);
    assert_eq!(clipped.count_neighbors(4), 8);
}

#[test]
fn all_dead_grid_stays_dead() {
    let mut game = grid_with(3, 3, &[], WrapMode::Wrap);
    for i in 0..9 {
        assert_eq!(game.count_neighbors(i), 0);
    }
    game.update();
    assert!(live_cells(&game).is_empty());
    assert!(!game.any_alive());
}

#[test]
fn lone_cell_dies() {
    for &(w, h) in &[(3usize, 3usize), (5, 4), (6, 6)] {
        let mut game = grid_with(w, h, &[(1, 1)], WrapMode::Wrap);
        assert!(game.any_alive());
        game.update();
        assert!(!game.any_alive());
    }
}

#[test]
fn glider_moves_diagonally_under_wrap() {
    let glider = [(1usize, 0usize), (2, 1), (0, 2), (1, 2), (2, 2)];
    let mut game = grid_with(10, 10, &glider, WrapMode::Wrap);
    for round in 1..=12usize {
        for _ in 0..4 {
            game.update();
        }
        let mut expected: Vec<(usize, usize)> =
            glider.iter().map(|&(x, y)| ((x + round) % 10, (y + round) % 10)).collect();
        expected.sort_by_key(|&(x, y)| (y, x));
        assert_eq!(live_cells(&game), expected);
        assert_eq!(live_cells(&game).len(), 5);
    }
}

#[test]
fn blinker_oscillates_when_clipped() {
    let mut game = grid_with(5, 5, &[(1, 2), (2, 2), (3, 2)], WrapMode::NoWrap);
    game.update();
    assert_eq!(live_cells(&game), vec![(2, 1), (2, 2), (2, 3)]);
    game.update();
    assert_eq!(live_cells(&game), vec![(1, 2), (2, 2), (3, 2)]);
}

#[test]
fn update_reads_only_the_old_generation() {
    for wrap in [WrapMode::Wrap, WrapMode::NoWrap] {
        let mut game = GameOfLife::new(9, 7, wrap).unwrap();
        let (w, h) = (9isize, 7isize);
        let mut old = vec![false; 63];
        for y in 0..h {
            for x in 0..w {
                old[(y * w + x) as usize] = game.is_alive(x, y);
            }
        }
        let old_at = |x: isize, y: isize| -> bool {
            match wrap {
                WrapMode::Wrap => old[(y.rem_euclid(h) * w + x.rem_euclid(w)) as usize],
                WrapMode::NoWrap => {
                    x >= 0 && x < w && y >= 0 && y < h && old[(y * w + x) as usize]
                }
            }
        };
        let mut expected = vec![false; 63];
        for y in 0..h {
            for x in 0..w {
                let mut n = 0;
                for dy in -1..=1isize {
                    for dx in -1..=1isize {
                        if (dx != 0 || dy != 0) && old_at(x + dx, y + dy) {
                            n += 1;
                        }
                    }
                }
                let cur = old[(y * w + x) as usize];
                expected[(y * w + x) as usize] = n == 3 || (n == 2 && cur);
            }
        }
        game.update();
        for y in 0..h {
            for x in 0..w {
                assert_eq!(game.is_alive(x, y), expected[(y * w + x) as usize]);
            }
        }
    }
}

#[test]
fn all_dead_grid_reports_no_live_cells() {
    let game = grid_with(4, 4, &[], WrapMode::NoWrap);
    assert!(!game.any_alive());
    let game = grid_with(4, 4, &[(3, 3)], WrapMode::NoWrap);
    assert!(game.any_alive());
}

#[test]
fn render_draws_rows() {
    let game = grid_with(3, 2, &[(0, 0), (2, 1)], WrapMode::NoWrap);
    assert_eq!(game.render(), "#  \n  #");
    let single = grid_with(1, 1, &[(0, 0)], WrapMode::Wrap);
    assert_eq!(single.render(), "#");
}

#[test]
fn render_neighbors_draws_counts() {
    let game = grid_with(3, 2, &[(0, 0), (1, 0), (2, 1)], WrapMode::NoWrap);
    assert_eq!(game.render_neighbors(), "122\n231");
    let full = GameOfLife::from_cells(3, 3, vec![Cell::alive(); 9], WrapMode::Wrap).unwrap();
    assert_eq!(full.render_neighbors(), "888\n888\n888");
}

#[test]
fn frame_pause_fills_the_rest_of_the_period() {
    assert_eq!(frame_pause(33_333_333, 10_000_000), 23_333_333);
    assert_eq!(frame_pause(33_333_333, 33_333_333), 0);
    assert_eq!(frame_pause(33_333_333, 50_000_000), 0);
    assert_eq!(frame_pause(100, 0), 100);
}
