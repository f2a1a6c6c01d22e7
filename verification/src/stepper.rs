//! The frame stepper: one animation frame.
//!
//! A frame applies the cell update rule to every cell of the work field,
//! reading the previous frame only, and then seeds up to `DROP_COUNT`
//! fresh drops on a random selection of the available cells.

use vstd::prelude::*;

use crate::DROP_COUNT;
use crate::field::count_avail;
use crate::field::get_available_cells;
use crate::field::grid_view;
use crate::random::choose_cells;
use crate::rule::is_available;
use crate::rule::next_cell;
use crate::rule::spec_next_cell;

verus! {

/// Two grids with the same number of rows and the same length row by row.
pub open spec fn same_shape(a: Seq<Seq<char>>, b: Seq<Seq<char>>) -> bool {
    a.len() == b.len() && (forall|y: int|
        0 <= y < a.len() ==> (#[trigger] a[y]).len() == b[y].len())
}

/// One row after the update rule ran on every cell, reading `row` alone.
pub open spec fn spec_next_row(row: Seq<char>, orig_row: Seq<char>) -> Seq<char> {
    Seq::new(row.len(), |x: int| spec_next_cell(row, orig_row, x))
}

/// The whole grid after the update rule ran on every cell.
pub open spec fn spec_ruled(work: Seq<Seq<char>>, orig: Seq<Seq<char>>) -> Seq<Seq<char>> {
    Seq::new(work.len(), |y: int| spec_next_row(work[y], orig[y]))
}

/// The coordinates that hold a drop head in `disp` but did not in `ruled`:
/// the drops freshly seeded between the two.
pub open spec fn fresh_drops(ruled: Seq<Seq<char>>, disp: Seq<Seq<char>>) -> Set<(usize, usize)> {
    Set::new(
        |p: (usize, usize)|
            p.1 < ruled.len() && p.0 < ruled[p.1 as int].len() && disp[p.1 as int][p.0 as int]
                == 'o' && ruled[p.1 as int][p.0 as int] != 'o',
    )
}

/// Apply the update rule to every cell of `work`, reading only `work` and
/// the original field, never the grid under construction.
pub fn apply_rule(work: &Vec<Vec<char>>, original: &Vec<Vec<char>>) -> (next: Vec<Vec<char>>)
    requires
        same_shape(grid_view(*work), grid_view(*original)),
    ensures
        grid_view(next) == spec_ruled(grid_view(*work), grid_view(*original)),
{
    let mut next: Vec<Vec<char>> = Vec::new();
    let mut y: usize = 0;
    while y < work.len()
        invariant
            same_shape(grid_view(*work), grid_view(*original)),
            y <= work@.len(),
            next@.len() == y,
            forall|i: int|
                0 <= i < y ==> (#[trigger] next@[i])@ == spec_next_row(
                    work@[i]@,
                    original@[i]@,
                ),
        decreases work@.len() - y,
    {
        let wrow = &work[y];
        let orow = &original[y];
        assert(orow@.len() == wrow@.len()) by {
            assert(grid_view(*work)[y as int].len() == grid_view(*original)[y as int].len());
        }
        let mut row: Vec<char> = Vec::new();
        let mut x: usize = 0;
        while x < wrow.len()
            invariant
                x <= wrow@.len(),
                row@.len() == x,
                orow@.len() == wrow@.len(),
                forall|j: int|
                    0 <= j < x ==> #[trigger] row@[j] == spec_next_cell(wrow@, orow@, j),
            decreases wrow@.len() - x,
        {
            let c = next_cell(wrow, orow, x);
            row.push(c);
            x += 1;
        }
        proof {
            assert(row@ =~= spec_next_row(wrow@, orow@));
        }
        next.push(row);
        y += 1;
    }
    proof {
        assert(grid_view(next) =~~= spec_ruled(grid_view(*work), grid_view(*original)));
    }
    next
}

/// Overwrite the cell at every picked coordinate with the drop head `'o'`;
/// every other cell keeps its value.
pub fn seed_drops(field: &mut Vec<Vec<char>>, picks: &Vec<(usize, usize)>)
    requires
        forall|i: int|
            0 <= i < picks@.len() ==> ((#[trigger] picks@[i]).1 < old(field)@.len()
                && picks@[i].0 < old(field)@[picks@[i].1 as int]@.len()),
    ensures
        final(field)@.len() == old(field)@.len(),
        forall|y: int|
            0 <= y < old(field)@.len() ==> (#[trigger] final(field)@[y])@.len()
                == old(field)@[y]@.len(),
        forall|y: usize, x: usize|
            y < old(field)@.len() && x < old(field)@[y as int]@.len()
                ==> #[trigger] final(field)@[y as int]@[x as int] == (if picks@.contains(
                (x, y),
            ) {
                'o'
            } else {
                old(field)@[y as int]@[x as int]
            }),
{
    let mut i: usize = 0;
    while i < picks.len()
        invariant
            i <= picks@.len(),
            forall|k: int|
                0 <= k < picks@.len() ==> ((#[trigger] picks@[k]).1 < old(field)@.len()
                    && picks@[k].0 < old(field)@[picks@[k].1 as int]@.len()),
            field@.len() == old(field)@.len(),
            forall|y: int|
                0 <= y < old(field)@.len() ==> (#[trigger] field@[y])@.len()
                    == old(field)@[y]@.len(),
            forall|y: usize, x: usize|
                y < old(field)@.len() && x < old(field)@[y as int]@.len()
                    ==> #[trigger] field@[y as int]@[x as int] == (if picks@.take(
                    i as int,
                ).contains((x, y)) {
                    'o'
                } else {
                    old(field)@[y as int]@[x as int]
                }),
        decreases picks@.len() - i,
    {
        let p = picks[i];
        let px = p.0;
        let py = p.1;
        let ghost prev = field@;
        let row = &mut field[py];
        row[px] = 'o';
        proof {
            assert(picks@.take(i as int + 1) =~= picks@.take(i as int).push(p));
            assert(field@[py as int]@ == prev[py as int]@.update(px as int, 'o'));
            assert forall|y: usize, x: usize|
                y < old(field)@.len() && x < old(field)@[y as int]@.len()
                    implies #[trigger] field@[y as int]@[x as int] == (if picks@.take(
                    i as int + 1,
                ).contains((x, y)) {
                    'o'
                } else {
                    old(field)@[y as int]@[x as int]
                }) by {
                let q = (x, y);
                vstd::seq_lib::lemma_seq_contains_after_push(picks@.take(i as int), p, q);
                if q == p {
                    assert(field@[y as int]@[x as int] == 'o');
                } else {
                    assert(field@[y as int]@[x as int] == prev[y as int]@[x as int]);
                }
            }
        }
        i += 1;
    }
    proof {
        assert(picks@.take(picks@.len() as int) =~= picks@);
    }
}

/// One frame: run the update rule over the whole work field, then seed up
/// to `DROP_COUNT` fresh drop heads on randomly chosen available cells.
/// Whatever the random choice, the result differs from the ruled grid only
/// by drop heads on available cells, and the number of freshly seeded
/// heads is exactly the smaller of `DROP_COUNT` and the number of
/// available cells.
pub fn step(
    work: &Vec<Vec<char>>,
    original: &Vec<Vec<char>>,
    rng: &mut rand::rngs::ThreadRng,
) -> (display: Vec<Vec<char>>)
    requires
        same_shape(grid_view(*work), grid_view(*original)),
    ensures
        ({
            let ruled = spec_ruled(grid_view(*work), grid_view(*original));
            let disp = grid_view(display);
            &&& disp.len() == ruled.len()
            &&& forall|y: int| 0 <= y < ruled.len() ==> (#[trigger] disp[y]).len() == ruled[y].len()
            &&& forall|y: usize, x: usize|
                y < ruled.len() && x < ruled[y as int].len() ==> (#[trigger] disp[y as int][x as int]
                    == 'o' || disp[y as int][x as int] == ruled[y as int][x as int])
            &&& forall|y: usize, x: usize|
                y < ruled.len() && x < ruled[y as int].len() && #[trigger] disp[y as int][x as int]
                    == 'o' && ruled[y as int][x as int] != 'o' ==> is_available(
                    ruled[y as int][x as int],
                )
            &&& fresh_drops(ruled, disp).finite()
            &&& fresh_drops(ruled, disp).len() == vstd::math::min(
                DROP_COUNT as int,
                count_avail(ruled) as int,
            )
        }),
{
    let ghost ruled = spec_ruled(grid_view(*work), grid_view(*original));
    let mut display = apply_rule(work, original);
    let available = get_available_cells(&display);
    let picks = choose_cells(&available, rng, DROP_COUNT);
    proof {
        assert forall|k: int| 0 <= k < picks@.len() implies ((#[trigger] picks@[k]).1
            < display@.len() && picks@[k].0 < display@[picks@[k].1 as int]@.len()) by {
            assert(available@.contains(picks@[k]));
        }
    }
    seed_drops(&mut display, &picks);
    proof {
        let disp = grid_view(display);
        assert forall|p: (usize, usize)| #[trigger]
            fresh_drops(ruled, disp).contains(p) implies picks@.to_set().contains(p) by {
            if !picks@.contains(p) {
                assert(disp[p.1 as int][p.0 as int] == ruled[p.1 as int][p.0 as int]);
            }
        }
        assert forall|p: (usize, usize)| #[trigger]
            picks@.to_set().contains(p) implies fresh_drops(ruled, disp).contains(p) by {
            assert(available@.contains(p));
            assert(is_available(ruled[p.1 as int][p.0 as int]));
            assert(disp[p.1 as int][p.0 as int] == 'o');
        }
        assert(fresh_drops(ruled, disp) =~= picks@.to_set());
        picks@.unique_seq_to_set();
        broadcast use vstd::seq_lib::seq_to_set_is_finite;

        assert forall|y: usize, x: usize|
            y < ruled.len() && x < ruled[y as int].len() && #[trigger] disp[y as int][x as int]
                == 'o' && ruled[y as int][x as int] != 'o' implies is_available(
            ruled[y as int][x as int],
        ) by {
            let q = (x, y);
            assert(fresh_drops(ruled, disp).contains(q));
            assert(picks@.to_set().contains(q));
            assert(available@.contains(q));
        }
    }
    display
}

} // verus!
