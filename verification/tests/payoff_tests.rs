use ma_labs::payoff::{Game, VALUE_MAX, VALUE_MIN};

fn game_from(cells: Vec<Vec<u8>>) -> Game {
    let rows = cells.len();
    let columns = cells[0].len();
    Game {
        matrix: cells,
        a_min: Vec::new(),
        b_max: Vec::new(),
        max_min: 0,
        min_max: 0,
        saddle_point: None,
        rows,
        columns,
    }
}

#[test]
fn resize_sets_dimensions_and_value_range() {
    let mut g = Game::default();
    g.resize((2, 2));
    assert_eq!(g.rows, 2);
    assert_eq!(g.columns, 2);
    assert_eq!(g.matrix.len(), 2);
    assert_eq!(g.a_min.len(), 2);
    assert_eq!(g.b_max.len(), 2);
    for row in &g.matrix {
        assert_eq!(row.len(), 2);
        for &v in row {
            assert!(VALUE_MIN <= v && v <= VALUE_MAX);
        }
    }
}

#[test]
fn payoff_resize_at_configured_bounds() {
    let mut g = Game::default();
    g.resize((2, 10));
    assert_eq!(g.rows, 2);
    assert_eq!(g.columns, 10);
    assert_eq!(g.a_min.len(), 2);
    assert_eq!(g.b_max.len(), 10);
    g.resize((10, 2));
    assert_eq!(g.rows, 10);
    assert_eq!(g.columns, 2);
    g.resize((10, 10));
    assert_eq!(g.rows, 10);
    assert_eq!(g.columns, 10);
    assert_eq!(g.a_min.len(), 10);
    assert_eq!(g.b_max.len(), 10);
    for row in &g.matrix {
        assert_eq!(row.len(), 10);
        for &v in row {
            assert!(VALUE_MIN <= v && v <= VALUE_MAX);
        }
    }
}

#[test]
fn weak_duality_on_random_matrices() {
    let mut g = Game::default();
    for rows in 2..=10usize {
        for columns in 2..=10usize {
            g.resize((rows, columns));
            assert!(g.max_min <= g.min_max);
            g.randomize();
            assert!(g.max_min <= g.min_max);
        }
    }
}

#[test]
fn recalc_is_idempotent() {
    let mut g = game_from(vec![vec![4, 3, 7], vec![2, 5, 6]]);
    g.recalc();
    let a_min = g.a_min.clone();
    let b_max = g.b_max.clone();
    let max_min = g.max_min;
    let min_max = g.min_max;
    let saddle = g.saddle_point;
    g.recalc();
    assert_eq!(g.a_min, a_min);
    assert_eq!(g.b_max, b_max);
    assert_eq!(g.max_min, max_min);
    assert_eq!(g.min_max, min_max);
    assert_eq!(g.saddle_point, saddle);
}

#[test]
fn no_saddle_point_when_guarantees_differ() {
    let mut g = game_from(vec![vec![4, 3], vec![2, 5]]);
    g.recalc();
    assert_eq!(g.a_min, vec![3, 2]);
    assert_eq!(g.b_max, vec![4, 5]);
    assert_eq!(g.max_min, 3);
    assert_eq!(g.min_max, 4);
    assert_eq!(g.saddle_point, None);
}

#[test]
fn saddle_point_when_guarantees_coincide() {
    let mut g = game_from(vec![vec![2, 3], vec![1, 4]]);
    g.recalc();
    assert_eq!(g.a_min, vec![2, 1]);
    assert_eq!(g.b_max, vec![2, 4]);
    assert_eq!(g.max_min, 2);
    assert_eq!(g.min_max, 2);
    assert_eq!(g.saddle_point, Some((0, 0)));
}

#[test]
fn saddle_scan_picks_first_in_row_major_order() {
    let mut g = game_from(vec![vec![3, 3], vec![3, 3]]);
    g.recalc();
    assert_eq!(g.max_min, 3);
    assert_eq!(g.min_max, 3);
    assert_eq!(g.saddle_point, Some((0, 0)));
}

#[test]
fn set_cell_then_recalc_moves_the_saddle() {
    let mut g = game_from(vec![vec![2, 3], vec![1, 4]]);
    g.recalc();
    assert_eq!(g.saddle_point, Some((0, 0)));
    g.set_cell(1, 0, 5);
    assert_eq!(g.cell(1, 0), 5);
    assert_eq!(g.cell(0, 1), 3);
    g.recalc();
    assert_eq!(g.a_min, vec![2, 4]);
    assert_eq!(g.b_max, vec![5, 4]);
    assert_eq!(g.max_min, 4);
    assert_eq!(g.min_max, 4);
    assert_eq!(g.saddle_point, Some((1, 1)));
}

#[test]
fn randomize_keeps_dimensions_and_range() {
    let mut g = game_from(vec![vec![0, 0, 0], vec![0, 0, 0]]);
    g.randomize();
    assert_eq!(g.rows, 2);
    assert_eq!(g.columns, 3);
    assert_eq!(g.matrix.len(), 2);
    for row in &g.matrix {
        assert_eq!(row.len(), 3);
        for &v in row {
            assert!(VALUE_MIN <= v && v <= VALUE_MAX);
        }
    }
}

#[test]
fn new_game_is_analyzed_and_in_range() {
    let g = Game::new(4, 6);
    assert_eq!(g.rows, 4);
    assert_eq!(g.columns, 6);
    assert_eq!(g.a_min.len(), 4);
    assert_eq!(g.b_max.len(), 6);
    assert!(g.max_min <= g.min_max);
    for row in &g.matrix {
        assert_eq!(row.len(), 6);
        for &v in row {
            assert!(VALUE_MIN <= v && v <= VALUE_MAX);
        }
    }
}
