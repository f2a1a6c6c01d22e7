//! The per-cell update rule of the animation.
//!
//! Each frame, every cell is rewritten from the previous frame's row
//! alone: a cell left of a drop head becomes `'('`, a cell right of one
//! becomes `')'`, a cell that held a drop character reverts to the
//! original field, and every other cell keeps its value.

use vstd::prelude::*;

verus! {

/// A cell that may receive a fresh drop: empty background (`'_'`) or
/// textured background (`','`).
pub open spec fn is_available(c: char) -> bool {
    c == '_' || c == ','
}

/// One of the three transient drop characters.
pub open spec fn is_drop_char(c: char) -> bool {
    c == '(' || c == 'o' || c == ')'
}

/// The next value of cell `x`, read entirely from the previous frame's
/// row `row` and the immutable original row `orig_row`.
pub open spec fn spec_next_cell(row: Seq<char>, orig_row: Seq<char>, x: int) -> char {
    if x + 1 < row.len() && row[x + 1] == 'o' {
        '('
    } else if 0 < x && row[x - 1] == 'o' {
        ')'
    } else if is_drop_char(row[x]) {
        orig_row[x]
    } else {
        row[x]
    }
}

/// The three-cell neighborhood of `field[index]`: the left neighbor (absent
/// at column 0), the cell itself, and the right neighbor (absent at the
/// last column).
pub fn get_neighbors(field: &Vec<char>, index: usize) -> (r: (Option<char>, char, Option<char>))
    requires
        index < field@.len(),
    ensures
        r.0 == (if index == 0 { None::<char> } else { Some(field@[index as int - 1]) }),
        r.1 == field@[index as int],
        r.2 == (if index + 1 == field@.len() {
            None::<char>
        } else {
            Some(field@[index as int + 1])
        }),
{
    (
        if index != 0 { Some(field[index - 1]) } else { None },
        field[index],
        if index != field.len() - 1 { Some(field[index + 1]) } else { None },
    )
}

/// One application of the update rule to cell `x` of `row`.
pub fn next_cell(row: &Vec<char>, orig_row: &Vec<char>, x: usize) -> (c: char)
    requires
        x < row@.len(),
        orig_row@.len() == row@.len(),
    ensures
        c == spec_next_cell(row@, orig_row@, x as int),
{
    match get_neighbors(row, x) {
        (_, _, Some('o')) => '(',
        (Some('o'), _, _) => ')',
        (_, '(', _) | (_, 'o', _) | (_, ')', _) => orig_row[x],
        (_, c, _) => c,
    }
}

/// The update rule is a pure function of the three-cell neighborhood and
/// the original cell: two cells whose neighborhoods agree, including on
/// which sides a neighbor exists, get the same next value.
pub proof fn lemma_rule_local(
    row_a: Seq<char>,
    orig_a: Seq<char>,
    xa: int,
    row_b: Seq<char>,
    orig_b: Seq<char>,
    xb: int,
)
    requires
        0 <= xa < row_a.len(),
        0 <= xb < row_b.len(),
        row_a[xa] == row_b[xb],
        orig_a[xa] == orig_b[xb],
        (xa == 0) <==> (xb == 0),
        (xa + 1 == row_a.len()) <==> (xb + 1 == row_b.len()),
        0 < xa ==> row_a[xa - 1] == row_b[xb - 1],
        xa + 1 < row_a.len() ==> row_a[xa + 1] == row_b[xb + 1],
    ensures
        spec_next_cell(row_a, orig_a, xa) == spec_next_cell(row_b, orig_b, xb),
{
}

/// A quiescent cell is unchanged: where the cell is available and no drop
/// character stands anywhere in its neighborhood, one application of the
/// update rule keeps its value.
pub proof fn lemma_quiescent_cell_unchanged(row: Seq<char>, orig_row: Seq<char>, x: int)
    requires
        0 <= x < row.len(),
        is_available(row[x]),
        0 < x ==> !is_drop_char(row[x - 1]),
        x + 1 < row.len() ==> !is_drop_char(row[x + 1]),
    ensures
        spec_next_cell(row, orig_row, x) == row[x],
{
}

} // verus!
