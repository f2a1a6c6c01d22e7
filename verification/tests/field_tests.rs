use rain::field::generate_original_field;
use rain::field::get_available_cells;
use rain::{BACKGROUND_DENOMINATOR, BACKGROUND_NUMERATOR, FIELD_COLUMNS, FIELD_ROWS};

fn watermark_columns(cols: usize) -> (usize, usize) {
    (cols / 2 - 2, cols / 2 + 1)
}

#[test]
fn watermark_spells_rain_at_default_size() {
    let mut rng = rand::thread_rng();
    let g = generate_original_field(
        FIELD_ROWS,
        FIELD_COLUMNS,
        BACKGROUND_NUMERATOR,
        BACKGROUND_DENOMINATOR,
        &mut rng,
    );
    let wy = FIELD_ROWS / 2;
    let (lo, _hi) = watermark_columns(FIELD_COLUMNS);
    assert_eq!(g[wy][lo], 'R');
    assert_eq!(g[wy][lo + 1], 'A');
    assert_eq!(g[wy][lo + 2], 'I');
    assert_eq!(g[wy][lo + 3], 'N');
}

#[test]
fn watermark_spells_rain_at_smallest_width() {
    let mut rng = rand::thread_rng();
    let g = generate_original_field(1, 4, 1, 3, &mut rng);
    assert_eq!(g.len(), 1);
    assert_eq!(g[0].len(), 4);
    assert_eq!(g[0], vec!['R', 'A', 'I', 'N']);
}

#[test]
fn non_watermark_cells_are_background() {
    let mut rng = rand::thread_rng();
    let rows = 11;
    let cols = 17;
    let g = generate_original_field(rows, cols, 1, 3, &mut rng);
    let wy = rows / 2;
    let (lo, hi) = watermark_columns(cols);
    assert_eq!(g.len(), rows);
    for y in 0..rows {
        assert_eq!(g[y].len(), cols);
        for x in 0..cols {
            if y == wy && lo <= x && x <= hi {
                continue;
            }
            assert!(g[y][x] == '_' || g[y][x] == ',');
        }
    }
}

#[test]
fn zero_probability_gives_only_empty_background() {
    let mut rng = rand::thread_rng();
    let rows = 8;
    let cols = 12;
    let g = generate_original_field(rows, cols, 0, 3, &mut rng);
    let wy = rows / 2;
    let (lo, hi) = watermark_columns(cols);
    for y in 0..rows {
        for x in 0..cols {
            if y == wy && lo <= x && x <= hi {
                continue;
            }
            assert_eq!(g[y][x], '_');
        }
    }
}

#[test]
fn full_probability_gives_only_textured_background() {
    let mut rng = rand::thread_rng();
    let rows = 8;
    let cols = 12;
    let g = generate_original_field(rows, cols, 3, 3, &mut rng);
    let wy = rows / 2;
    let (lo, hi) = watermark_columns(cols);
    for y in 0..rows {
        for x in 0..cols {
            if y == wy && lo <= x && x <= hi {
                continue;
            }
            assert_eq!(g[y][x], ',');
        }
    }
}

#[test]
fn textured_ratio_converges_to_one_third() {
    let mut rng = rand::thread_rng();
    let rows = 50;
    let cols = 50;
    let g = generate_original_field(rows, cols, 1, 3, &mut rng);
    let wy = rows / 2;
    let (lo, hi) = watermark_columns(cols);
    let mut textured = 0usize;
    let mut total = 0usize;
    for y in 0..rows {
        for x in 0..cols {
            if y == wy && lo <= x && x <= hi {
                continue;
            }
            total += 1;
            if g[y][x] == ',' {
                textured += 1;
            }
        }
    }
    assert_eq!(total, 2496);
    // The expected count is total / 3 = 832 with a standard deviation of
    // about 24; the bounds below sit more than eight deviations away.
    assert!(textured >= 624, "textured count {} far below a third", textured);
    assert!(textured <= 1040, "textured count {} far above a third", textured);
}

#[test]
fn available_cells_are_exactly_the_background_cells() {
    let field = vec![
        vec!['_', 'o', ','],
        vec!['(', ')', '_'],
    ];
    let cells = get_available_cells(&field);
    assert_eq!(cells.len(), 3);
    assert!(cells.contains(&(0, 0)));
    assert!(cells.contains(&(2, 0)));
    assert!(cells.contains(&(2, 1)));
}

#[test]
fn available_cells_of_empty_field_is_empty() {
    let field: Vec<Vec<char>> = Vec::new();
    assert_eq!(get_available_cells(&field).len(), 0);
}
