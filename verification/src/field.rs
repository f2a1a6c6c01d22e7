//! The field: a rectangular grid of characters.
//!
//! The original field is generated once: every cell is background
//! (`'_'`, or `','` with a fixed probability), except a horizontal run of
//! four cells at the vertical midpoint, horizontally centered, that
//! spells the watermark `RAIN`.

use vstd::prelude::*;

use crate::random::random_ratio;
use crate::rule::is_available;

verus! {

broadcast use vstd::seq_lib::lemma_seq_contains_after_push;

/// The rows of a grid, each row as a sequence of characters.
pub open spec fn grid_view(g: Vec<Vec<char>>) -> Seq<Seq<char>> {
    Seq::new(g@.len(), |y: int| g@[y]@)
}

/// A rectangular grid with the given number of rows and columns.
pub open spec fn grid_dims(g: Seq<Seq<char>>, rows: int, cols: int) -> bool {
    g.len() == rows && (forall|y: int| 0 <= y < g.len() ==> (#[trigger] g[y]).len() == cols)
}

/// Does position `(y, x)` belong to the four-cell watermark of a
/// `rows x cols` field?
pub open spec fn is_watermark_pos(rows: int, cols: int, y: int, x: int) -> bool {
    y == rows / 2 && cols / 2 - 2 <= x <= cols / 2 + 1
}

/// The watermark letter shown at column `x` of the watermark row.
pub open spec fn watermark_char(cols: int, x: int) -> char {
    if x == cols / 2 - 2 {
        'R'
    } else if x == cols / 2 - 1 {
        'A'
    } else if x == cols / 2 {
        'I'
    } else {
        'N'
    }
}

/// How many cells of `row` are available for a fresh drop.
pub open spec fn count_avail_row(row: Seq<char>) -> nat
    decreases row.len(),
{
    if row.len() == 0 {
        0
    } else {
        count_avail_row(row.drop_last()) + (if is_available(row.last()) {
            1nat
        } else {
            0nat
        })
    }
}

/// How many cells of the grid `g` are available for a fresh drop.
pub open spec fn count_avail(g: Seq<Seq<char>>) -> nat
    decreases g.len(),
{
    if g.len() == 0 {
        0
    } else {
        count_avail(g.drop_last()) + count_avail_row(g.last())
    }
}

/// Generate the original field: every cell drawn as textured background
/// `','` with probability `prob_num / prob_den` and as empty background
/// `'_'` otherwise, then the four watermark letters written over the
/// center of the middle row.
pub fn generate_original_field(
    rows: usize,
    cols: usize,
    prob_num: u32,
    prob_den: u32,
    rng: &mut rand::rngs::ThreadRng,
) -> (g: Vec<Vec<char>>)
    requires
        1 <= rows,
        4 <= cols,
        0 < prob_den,
        prob_num <= prob_den,
    ensures
        grid_dims(grid_view(g), rows as int, cols as int),
        forall|y: int, x: int|
            0 <= y < rows && 0 <= x < cols && !is_watermark_pos(rows as int, cols as int, y, x)
                ==> is_available(#[trigger] grid_view(g)[y][x]),
        forall|y: int, x: int|
            0 <= y < rows && 0 <= x < cols && is_watermark_pos(rows as int, cols as int, y, x)
                ==> #[trigger] grid_view(g)[y][x] == watermark_char(cols as int, x),
        prob_num == 0 ==> forall|y: int, x: int|
            0 <= y < rows && 0 <= x < cols && !is_watermark_pos(rows as int, cols as int, y, x)
                ==> #[trigger] grid_view(g)[y][x] == '_',
        prob_num == prob_den ==> forall|y: int, x: int|
            0 <= y < rows && 0 <= x < cols && !is_watermark_pos(rows as int, cols as int, y, x)
                ==> #[trigger] grid_view(g)[y][x] == ',',
{
    let mut g: Vec<Vec<char>> = Vec::new();
    let mut y: usize = 0;
    while y < rows
        invariant
            y <= rows,
            g@.len() == y,
            0 < prob_den,
            prob_num <= prob_den,
            forall|i: int| 0 <= i < y ==> (#[trigger] g@[i])@.len() == cols,
            forall|i: int, j: int|
                0 <= i < y && 0 <= j < cols ==> is_available(#[trigger] g@[i]@[j]),
            prob_num == 0 ==> forall|i: int, j: int|
                0 <= i < y && 0 <= j < cols ==> #[trigger] g@[i]@[j] == '_',
            prob_num == prob_den ==> forall|i: int, j: int|
                0 <= i < y && 0 <= j < cols ==> #[trigger] g@[i]@[j] == ',',
        decreases rows - y,
    {
        let mut row: Vec<char> = Vec::new();
        let mut x: usize = 0;
        while x < cols
            invariant
                x <= cols,
                row@.len() == x,
                0 < prob_den,
                prob_num <= prob_den,
                forall|j: int| 0 <= j < x ==> is_available(#[trigger] row@[j]),
                prob_num == 0 ==> forall|j: int| 0 <= j < x ==> #[trigger] row@[j] == '_',
                prob_num == prob_den ==> forall|j: int| 0 <= j < x ==> #[trigger] row@[j] == ',',
            decreases cols - x,
        {
            let c: char = if random_ratio(rng, prob_num, prob_den) {
                ','
            } else {
                '_'
            };
            row.push(c);
            x += 1;
        }
        g.push(row);
        y += 1;
    }
    let wy: usize = rows / 2;
    let wx: usize = cols / 2;
    assert(wy < rows && 2 <= wx && wx + 1 < cols);
    let wrow = &mut g[wy];
    wrow[wx - 2] = 'R';
    wrow[wx - 1] = 'A';
    wrow[wx] = 'I';
    wrow[wx + 1] = 'N';
    g
}

/// All coordinates `(x, y)` of the grid whose cell is available for a
/// fresh drop, each exactly once.
pub fn get_available_cells(field: &Vec<Vec<char>>) -> (r: Vec<(usize, usize)>)
    ensures
        r@.no_duplicates(),
        forall|p: (usize, usize)|
            #[trigger] r@.contains(p) <==> (p.1 < grid_view(*field).len()
                && p.0 < grid_view(*field)[p.1 as int].len()
                && is_available(grid_view(*field)[p.1 as int][p.0 as int])),
        r@.len() == count_avail(grid_view(*field)),
{
    let ghost gv = grid_view(*field);
    let mut r: Vec<(usize, usize)> = Vec::new();
    let mut y: usize = 0;
    while y < field.len()
        invariant
            y <= field@.len(),
            gv == grid_view(*field),
            r@.no_duplicates(),
            forall|p: (usize, usize)|
                #[trigger] r@.contains(p) <==> (p.1 < y && p.0 < gv[p.1 as int].len()
                    && is_available(gv[p.1 as int][p.0 as int])),
            r@.len() == count_avail(gv.take(y as int)),
        decreases field@.len() - y,
    {
        let row = &field[y];
        let mut x: usize = 0;
        while x < row.len()
            invariant
                y < field@.len(),
                x <= row@.len(),
                gv == grid_view(*field),
                row@ == gv[y as int],
                r@.no_duplicates(),
                forall|p: (usize, usize)|
                    #[trigger] r@.contains(p) <==> ((p.1 < y && p.0 < gv[p.1 as int].len()
                        && is_available(gv[p.1 as int][p.0 as int])) || (p.1 == y && p.0 < x
                        && is_available(gv[y as int][p.0 as int]))),
                r@.len() == count_avail(gv.take(y as int)) + count_avail_row(
                    gv[y as int].take(x as int),
                ),
            decreases row@.len() - x,
        {
            let c = row[x];
            proof {
                assert(gv[y as int].take(x as int + 1).drop_last() =~= gv[y as int].take(
                    x as int,
                ));
                assert(gv[y as int].take(x as int + 1).last() == gv[y as int][x as int]);
            }
            if c == '_' || c == ',' {
                let p = (x, y);
                proof {
                    assert(!r@.contains(p));
                    lemma_push_no_duplicates(r@, p);
                }
                r.push(p);
            }
            x += 1;
        }
        proof {
            assert(gv[y as int].take(row@.len() as int) =~= gv[y as int]);
            assert(gv.take(y as int + 1).drop_last() =~= gv.take(y as int));
            assert(gv.take(y as int + 1).last() == gv[y as int]);
        }
        y += 1;
    }
    proof {
        assert(gv.take(field@.len() as int) =~= gv);
    }
    r
}

/// Pushing an element that a duplicate-free sequence does not yet hold
/// keeps it duplicate-free.
proof fn lemma_push_no_duplicates<A>(s: Seq<A>, e: A)
    requires
        s.no_duplicates(),
        !s.contains(e),
    ensures
        s.push(e).no_duplicates(),
{
    assert forall|i: int, j: int|
        0 <= i < j < s.push(e).len() implies s.push(e)[i] != s.push(e)[j] by {
        if j == s.len() {
            if s[i] == e {
                assert(s.contains(e));
            }
        }
    }
}

} // verus!
