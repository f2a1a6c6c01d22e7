use rain::rule::{get_neighbors, next_cell};

#[test]
fn neighbors_in_the_middle_of_a_row() {
    let row = vec!['a', 'b', 'c'];
    assert_eq!(get_neighbors(&row, 1), (Some('a'), 'b', Some('c')));
}

#[test]
fn neighbors_at_the_row_edges_are_absent() {
    let row = vec!['a', 'b', 'c'];
    assert_eq!(get_neighbors(&row, 0), (None, 'a', Some('b')));
    assert_eq!(get_neighbors(&row, 2), (Some('b'), 'c', None));
}

#[test]
fn neighbors_of_a_single_cell_row() {
    let row = vec!['x'];
    assert_eq!(get_neighbors(&row, 0), (None, 'x', None));
}

#[test]
fn rule_is_deterministic_on_identical_inputs() {
    let row = vec!['_', 'o', ','];
    let orig = vec!['_', ',', ','];
    for x in 0..row.len() {
        let first = next_cell(&row, &orig, x);
        let second = next_cell(&row, &orig, x);
        assert_eq!(first, second);
    }
}

#[test]
fn drop_head_spreads_and_reverts() {
    // One application of the rule to the row "_o_": the left neighbor of
    // the head becomes '(', the head itself reverts to the original
    // field, and the right neighbor becomes ')'.
    let row = vec!['_', 'o', '_'];
    let orig = vec![',', '_', ','];
    assert_eq!(next_cell(&row, &orig, 0), '(');
    assert_eq!(next_cell(&row, &orig, 1), '_');
    assert_eq!(next_cell(&row, &orig, 2), ')');
}

#[test]
fn markers_revert_to_the_original_field() {
    let row = vec!['(', '_', ')'];
    let orig = vec![',', '_', '_'];
    assert_eq!(next_cell(&row, &orig, 0), ',');
    assert_eq!(next_cell(&row, &orig, 1), '_');
    assert_eq!(next_cell(&row, &orig, 2), '_');
}

#[test]
fn quiescent_cells_are_unchanged() {
    let row = vec!['_', ',', '_'];
    let orig = vec![',', ',', ','];
    for x in 0..row.len() {
        assert_eq!(next_cell(&row, &orig, x), row[x]);
    }
}

#[test]
fn right_neighbor_takes_priority_over_left() {
    // A cell between two drop heads becomes '(': the right neighbor is
    // inspected first.
    let row = vec!['o', '_', 'o'];
    let orig = vec!['_', '_', '_'];
    assert_eq!(next_cell(&row, &orig, 1), '(');
}

#[test]
fn watermark_reappears_after_a_drop_passes() {
    let row = vec!['_', 'o', '_'];
    let orig = vec!['R', 'A', 'I'];
    assert_eq!(next_cell(&row, &orig, 1), 'A');
}
