//! What holds of every board: the shape of a neighbourhood, the count
//! written out cell by cell, and the fate of some well-known patterns.

use vstd::prelude::*;

use crate::board::{window_hi, window_lo, Board};
use crate::rules::rule;

verus! {

/// The set `s`, with `p` added to it if the cell at `p` is alive.
spec fn with_if_alive(b: Board, s: Set<(int, int)>, x: int, y: int) -> Set<(int, int)> {
    if b.alive(x, y) {
        s.insert((x, y))
    } else {
        s
    }
}

/// The live cells of the column `x` between `y - 1` and `y + 1`, added to `s`.
spec fn with_column(b: Board, s: Set<(int, int)>, x: int, y: int) -> Set<(int, int)> {
    with_if_alive(b, with_if_alive(b, with_if_alive(b, s, x, y - 1), x, y), x, y + 1)
}

/// Adding the live cells of a column that `s` has nothing of adds their
/// number to the size of `s`.
proof fn lemma_with_column(b: Board, s: Set<(int, int)>, x: int, y: int)
    requires
        s.finite(),
        forall|p: (int, int)| s.contains(p) ==> p.0 != x,
    ensures
        with_column(b, s, x, y).finite(),
        with_column(b, s, x, y).len() == s.len() + b.lit_in_column(x, y),
        forall|p: (int, int)|
            with_column(b, s, x, y).contains(p) <==> s.contains(p) || (p.0 == x && y - 1 <= p.1
                <= y + 1 && b.live.contains(p)),
{
    let s1 = with_if_alive(b, s, x, y - 1);
    let s2 = with_if_alive(b, s1, x, y);
    let s3 = with_if_alive(b, s2, x, y + 1);
    assert(s1.finite() && s1.len() == s.len() + b.lit(x, y - 1));
    assert(s2.finite() && s2.len() == s1.len() + b.lit(x, y));
    assert(s3.finite() && s3.len() == s2.len() + b.lit(x, y + 1));
    assert forall|p: (int, int)|
        s3.contains(p) <==> s.contains(p) || (p.0 == x && y - 1 <= p.1 <= y + 1
            && b.live.contains(p)) by {
        if p.0 == x && y - 1 <= p.1 <= y + 1 {
            assert(p == (x, y - 1) || p == (x, y) || p == (x, y + 1));
        }
    }
}

/// The count at a cell is the number of live cells among the nine positions
/// around and on it; a position off the board adds nothing.
pub proof fn lemma_count_live_by_cell(b: Board, x: int, y: int)
    requires
        b.wf(),
        b.in_bounds(x, y),
    ensures
        b.count_live(x, y) == b.lit_in_column(x - 1, y) + b.lit_in_column(x, y)
            + b.lit_in_column(x + 1, y),
{
    let s0 = Set::<(int, int)>::empty();
    let s1 = with_column(b, s0, x - 1, y);
    lemma_with_column(b, s0, x - 1, y);
    let s2 = with_column(b, s1, x, y);
    lemma_with_column(b, s1, x, y);
    let s3 = with_column(b, s2, x + 1, y);
    lemma_with_column(b, s2, x + 1, y);
    assert(s3 =~= b.live.intersect(b.window(x, y)));
}

/// The cells of the first `columns` columns, up to `height` rows high, and
/// of the column after them up to `rows` rows.
spec fn cells_up_to(columns: nat, rows: nat, height: nat) -> Set<(int, int)> {
    Set::new(
        |p: (int, int)|
            (0 <= p.0 < columns && 0 <= p.1 < height) || (p.0 == columns && 0 <= p.1 < rows),
    )
}

proof fn lemma_cells_up_to_finite(columns: nat, rows: nat, height: nat)
    requires
        rows <= height,
    ensures
        cells_up_to(columns, rows, height).finite(),
    decreases columns, rows,
{
    if rows > 0 {
        lemma_cells_up_to_finite(columns, (rows - 1) as nat, height);
        assert(cells_up_to(columns, rows, height) =~= cells_up_to(
            columns,
            (rows - 1) as nat,
            height,
        ).insert((columns as int, rows - 1)));
    } else if columns > 0 {
        lemma_cells_up_to_finite((columns - 1) as nat, height, height);
        assert(cells_up_to(columns, rows, height) =~= cells_up_to(
            (columns - 1) as nat,
            height,
            height,
        ));
    } else {
        assert(cells_up_to(columns, rows, height) =~= Set::empty());
    }
}

/// A board has finitely many cells, so finitely many live ones, and no more
/// live cells than cells.
pub proof fn lemma_live_finite(b: Board)
    requires
        b.wf(),
    ensures
        b.cells().finite(),
        b.live.finite(),
        b.live.len() <= b.cells().len(),
{
    lemma_cells_up_to_finite(b.width, 0, b.height);
    assert(b.cells() =~= cells_up_to(b.width, 0, b.height));
    assert(b.live.subset_of(b.cells()));
    vstd::set_lib::lemma_len_subset(b.live, b.cells());
}

/// A generation keeps the dimensions and gives every cell the state that the
/// rule gives it on the board before; nothing off the board comes alive.
pub proof fn lemma_step_by_cell(b: Board)
    requires
        b.wf(),
    ensures
        b.step().wf(),
        b.step().width == b.width,
        b.step().height == b.height,
        forall|x: int, y: int|
            b.in_bounds(x, y) ==> #[trigger] b.step().alive(x, y) == rule(
                b.alive(x, y),
                b.count_live(x, y) as int,
            ),
        forall|x: int, y: int| !b.in_bounds(x, y) ==> !#[trigger] b.step().alive(x, y),
{
}

/// Any number of generations keeps a board well-formed and of the same
/// dimensions.
pub proof fn lemma_after_wf(b: Board, generations: nat)
    requires
        b.wf(),
    ensures
        b.after(generations).wf(),
        b.after(generations).width == b.width,
        b.after(generations).height == b.height,
    decreases generations,
{
    if generations > 0 {
        lemma_step_by_cell(b);
        lemma_after_wf(b.step(), (generations - 1) as nat);
    }
}

/// The count at a cell is at most the number of live cells on the board.
pub proof fn lemma_count_live_at_most_population(b: Board, x: int, y: int)
    requires
        b.wf(),
    ensures
        b.count_live(x, y) <= b.live.len(),
{
    lemma_live_finite(b);
    vstd::set_lib::lemma_len_subset(b.live.intersect(b.window(x, y)), b.live);
}

/// A board without a live cell has none after any number of generations.
pub proof fn lemma_dead_stays_dead(b: Board, generations: nat)
    requires
        b.wf(),
        b.live == Set::<(int, int)>::empty(),
    ensures
        b.after(generations) == b,
    decreases generations,
{
    if generations > 0 {
        assert forall|p: (int, int)| !b.step().live.contains(p) by {
            lemma_count_live_at_most_population(b, p.0, p.1);
        }
        assert(b.step().live =~= b.live);
        assert(b.step() =~= b);
        lemma_dead_stays_dead(b, (generations - 1) as nat);
    }
}

/// A board with at most two live cells, wherever they lie, has none one
/// generation later.
pub proof fn lemma_sparse_board_dies(b: Board)
    requires
        b.wf(),
        b.live.len() <= 2,
    ensures
        b.step() == Board::filled(b.width, b.height, false),
{
    assert forall|p: (int, int)| !b.step().live.contains(p) by {
        lemma_count_live_at_most_population(b, p.0, p.1);
    }
    assert(b.step().live =~= Set::empty());
    assert(b.step() =~= Board::filled(b.width, b.height, false));
}

/// A neighbourhood is a rectangle of at most three by three cells. On an
/// edge it has at most six cells, at a corner at most four, and the count at
/// its centre is at most its size.
pub proof fn lemma_window_size(b: Board, x: int, y: int)
    requires
        b.wf(),
        b.in_bounds(x, y),
    ensures
        b.window(x, y).finite(),
        b.window(x, y).len() == (window_hi(x, b.width as int) - window_lo(x) + 1) * (window_hi(
            y,
            b.height as int,
        ) - window_lo(y) + 1),
        b.count_live(x, y) <= b.window(x, y).len() <= 9,
        b.on_edge(x, y) ==> b.window(x, y).len() <= 6,
        b.at_corner(x, y) ==> b.window(x, y).len() <= 4,
{
    let full = Board::filled(b.width, b.height, true);
    lemma_count_live_by_cell(full, x, y);
    assert(full.live.intersect(full.window(x, y)) =~= b.window(x, y));
    lemma_live_finite(full);
    vstd::set_lib::lemma_len_subset(b.window(x, y), full.live);
    vstd::set_lib::lemma_len_subset(b.live.intersect(b.window(x, y)), b.window(x, y));
    let columns = window_hi(x, b.width as int) - window_lo(x) + 1;
    let rows = window_hi(y, b.height as int) - window_lo(y) + 1;
    assert(full.lit_in_column(x, y) == rows);
    assert(full.lit_in_column(x - 1, y) == if x > 0 { rows } else { 0 });
    assert(full.lit_in_column(x + 1, y) == if x + 1 < b.width { rows } else { 0 });
    assert(1 <= columns <= 3 && 1 <= rows <= 3);
    assert(b.window(x, y).len() == columns * rows) by (nonlinear_arith)
        requires
            1 <= columns <= 3,
            b.window(x, y).len() == (if columns == 1 {
                rows
            } else if columns == 2 {
                rows + rows
            } else {
                rows + rows + rows
            }),
    ;
    assert(b.on_edge(x, y) ==> columns <= 2 || rows <= 2);
    assert(b.at_corner(x, y) ==> columns <= 2 && rows <= 2);
    assert(columns * rows <= 9 && (columns <= 2 || rows <= 2 ==> columns * rows <= 6) && (columns
        <= 2 && rows <= 2 ==> columns * rows <= 4)) by (nonlinear_arith)
        requires
            1 <= columns <= 3,
            1 <= rows <= 3,
    ;
}

/// A vertical line of three live cells, alone on a board that has room for
/// it and for the horizontal line through its centre, becomes that
/// horizontal line after one generation and is itself again after two.
pub proof fn lemma_blinker(width: nat, height: nat, x: int, y: int)
    requires
        1 <= x < width - 1,
        1 <= y < height - 1,
    ensures
        Board::vertical_blinker(width, height, x, y).step() == Board::horizontal_blinker(
            width,
            height,
            x,
            y,
        ),
        Board::horizontal_blinker(width, height, x, y).step() == Board::vertical_blinker(
            width,
            height,
            x,
            y,
        ),
        Board::vertical_blinker(width, height, x, y).after(2) == Board::vertical_blinker(
            width,
            height,
            x,
            y,
        ),
        Board::horizontal_blinker(width, height, x, y).after(2) == Board::horizontal_blinker(
            width,
            height,
            x,
            y,
        ),
{
    let upright = Board::vertical_blinker(width, height, x, y);
    let flat = Board::horizontal_blinker(width, height, x, y);
    assert forall|p: (int, int)| upright.step().live.contains(p) == flat.live.contains(p) by {
        if upright.in_bounds(p.0, p.1) {
            lemma_count_live_by_cell(upright, p.0, p.1);
        }
    }
    assert(upright.step().live =~= flat.live);
    assert forall|p: (int, int)| flat.step().live.contains(p) == upright.live.contains(p) by {
        if flat.in_bounds(p.0, p.1) {
            lemma_count_live_by_cell(flat, p.0, p.1);
        }
    }
    assert(flat.step().live =~= upright.live);
    assert(upright.step() == flat);
    assert(flat.step() == upright);
    reveal_with_fuel(Board::after, 3);
}

} // verus!
