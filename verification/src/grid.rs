//! The executable grid.

use vstd::prelude::*;

use crate::board::{window_hi, window_lo, Board};
use crate::rules::next_state;

verus! {

/// Why a grid could not be made.
#[derive(Debug, Clone, Copy, PartialEq, Eq, Structural)]
pub enum GridError {
    /// The width or the height is zero.
    ZeroDimension,
    /// The number of cells, `width * height`, does not fit in a `usize`.
    TooLarge,
}

/// What keeps a grid of the given dimensions from being made, if anything:
/// an empty axis, or more cells than can be addressed.
pub open spec fn dimensions_error(width: usize, height: usize) -> Option<GridError> {
    if width == 0 || height == 0 {
        Some(GridError::ZeroDimension)
    } else if width * height > usize::MAX {
        Some(GridError::TooLarge)
    } else {
        None
    }
}

/// A rectangle of cells, each alive or dead, whose dimensions are fixed when
/// it is made.
#[derive(Debug, PartialEq, Eq)]
pub struct Grid {
    width: usize,
    height: usize,
    /// Column after column: the cell `(x, y)` is at `x * height + y`.
    cells: Vec<bool>,
}

/// A grid is its board: the dimensions and the set of cells stored as alive.
impl View for Grid {
    type V = Board;

    closed spec fn view(&self) -> Board {
        Board {
            width: self.width as nat,
            height: self.height as nat,
            live: Set::new(
                |p: (int, int)|
                    0 <= p.0 < self.width && 0 <= p.1 < self.height && stored(
                        self.cells@,
                        self.height as int,
                        p.0,
                        p.1,
                    ),
            ),
        }
    }
}

/// Where the cell `(x, y)` of a grid with `height` rows is stored.
spec fn place(x: int, y: int, height: int) -> int {
    x * height + y
}

/// What is stored for the cell `(x, y)`.
spec fn stored(cells: Seq<bool>, height: int, x: int, y: int) -> bool {
    cells[place(x, y, height)]
}

/// Every cell of a grid has its place among the `width * height` places.
proof fn lemma_place(x: int, y: int, width: int, height: int)
    requires
        0 <= x < width,
        0 <= y < height,
    ensures
        0 <= x * height <= place(x, y, height) < width * height,
{
    assert(x * height + y < width * height) by (nonlinear_arith)
        requires
            0 <= x < width,
            0 <= y < height,
    ;
    assert(0 <= x * height) by (nonlinear_arith)
        requires
            0 <= x,
            0 <= height,
    ;
}

/// Two cells that share a place are the same cell.
proof fn lemma_place_unique(x1: int, y1: int, x2: int, y2: int, height: int)
    requires
        0 <= y1 < height,
        0 <= y2 < height,
        place(x1, y1, height) == place(x2, y2, height),
    ensures
        x1 == x2,
        y1 == y2,
{
    assert(x1 == x2) by (nonlinear_arith)
        requires
            0 <= y1 < height,
            0 <= y2 < height,
            x1 * height + y1 == x2 * height + y2,
    {
        if x1 < x2 {
            assert(x2 * height >= (x1 + 1) * height);
        } else if x2 < x1 {
            assert(x1 * height >= (x2 + 1) * height);
        }
    }
}

impl Clone for Grid {
    /// A grid of its own with the same board.
    fn clone(&self) -> (copy: Self)
        ensures
            copy@ == self@,
    {
        proof {
            use_type_invariant(self);
        }
        let cells = self.cells.clone();
        assert(cells@ =~= self.cells@);
        Grid { width: self.width, height: self.height, cells }
    }
}

impl Grid {
    /// Neither axis is empty, and there is one stored state for each cell.
    #[verifier::type_invariant]
    spec fn inv(self) -> bool {
        &&& self.width > 0
        &&& self.height > 0
        &&& self.width * self.height <= usize::MAX
        &&& self.cells@.len() == self.width * self.height
    }

    /// A grid of `width` columns and `height` rows whose cells are all `fill`.
    /// Dimensions that [`dimensions_error`] objects to are refused with the
    /// error it names.
    pub fn new(width: usize, height: usize, fill: bool) -> (made: Result<Grid, GridError>)
        ensures
            match dimensions_error(width, height) {
                Some(error) => made == Err::<Grid, GridError>(error),
                None => made is Ok && made->Ok_0@ == Board::filled(
                    width as nat,
                    height as nat,
                    fill,
                ),
            },
    {
        if width == 0 || height == 0 {
            return Err(GridError::ZeroDimension);
        }
        match width.checked_mul(height) {
            None => Err(GridError::TooLarge),
            Some(len) => {
                let cells = vec![fill; len];
                let made = Grid { width, height, cells };
                proof {
                    assert forall|p: (int, int)|
                        0 <= p.0 < width && 0 <= p.1 < height implies made.cells@[place(
                        p.0,
                        p.1,
                        height as int,
                    )] == fill by {
                        lemma_place(p.0, p.1, width as int, height as int);
                    }
                    assert(made@ =~= Board::filled(width as nat, height as nat, fill));
                }
                Ok(made)
            },
        }
    }

    /// A grid of `width` columns and `height` rows in which the cell at
    /// `(x, y)` has the state that `init` returns for `(x, y)`. `init` is
    /// called once for each cell, column after column. Dimensions are
    /// refused as by [`Grid::new`].
    pub fn from_fn<F: Fn(usize, usize) -> bool>(width: usize, height: usize, init: F) -> (made:
        Result<Grid, GridError>)
        requires
            forall|x: usize, y: usize| x < width && y < height ==> call_requires(init, (x, y)),
        ensures
            match dimensions_error(width, height) {
                Some(error) => made == Err::<Grid, GridError>(error),
                None => made is Ok && made->Ok_0@.wf() && made->Ok_0@.width == width
                    && made->Ok_0@.height == height && forall|x: usize, y: usize|
                    x < width && y < height ==> #[trigger] call_ensures(
                        init,
                        (x, y),
                        made->Ok_0@.alive(x as int, y as int),
                    ),
            },
    {
        let mut grid = match Grid::new(width, height, false) {
            Ok(grid) => grid,
            Err(error) => {
                return Err(error);
            },
        };
        let mut x: usize = 0;
        while x < width
            invariant
                x <= width,
                grid@.wf(),
                grid@.width == width,
                grid@.height == height,
                forall|a: usize, b: usize| a < width && b < height ==> call_requires(init, (a, b)),
                forall|a: usize, b: usize|
                    a < x && b < height ==> #[trigger] call_ensures(
                        init,
                        (a, b),
                        grid@.alive(a as int, b as int),
                    ),
                forall|p: (int, int)| grid@.live.contains(p) ==> p.0 < x,
            decreases width - x,
        {
            let mut y: usize = 0;
            while y < height
                invariant
                    x < width,
                    y <= height,
                    grid@.wf(),
                    grid@.width == width,
                    grid@.height == height,
                    forall|a: usize, b: usize|
                        a < width && b < height ==> call_requires(init, (a, b)),
                    forall|a: usize, b: usize|
                        (a < x && b < height) || (a == x && b < y) ==> #[trigger] call_ensures(
                            init,
                            (a, b),
                            grid@.alive(a as int, b as int),
                        ),
                    forall|p: (int, int)|
                        grid@.live.contains(p) ==> p.0 < x || (p.0 == x && p.1 < y),
                decreases height - y,
            {
                let ghost before = grid@;
                let alive = init(x, y);
                if alive {
                    grid.set(x, y, true);
                }
                proof {
                    assert forall|a: usize, b: usize|
                        (a < x && b < height) || (a == x && b <= y) implies call_ensures(
                        init,
                        (a, b),
                        grid@.alive(a as int, b as int),
                    ) by {
                        if a != x || b != y {
                            assert(grid@.alive(a as int, b as int) == before.alive(
                                a as int,
                                b as int,
                            ));
                            assert(call_ensures(init, (a, b), before.alive(a as int, b as int)));
                        }
                    }
                }
                y = y + 1;
            }
            x = x + 1;
        }
        Ok(grid)
    }

    /// The number of columns. The model of every grid is a well-formed
    /// board.
    pub fn width(&self) -> (w: usize)
        ensures
            w == self@.width,
            self@.wf(),
    {
        proof {
            use_type_invariant(self);
        }
        self.width
    }

    /// The number of rows. The model of every grid is a well-formed board.
    pub fn height(&self) -> (h: usize)
        ensures
            h == self@.height,
            self@.wf(),
    {
        proof {
            use_type_invariant(self);
        }
        self.height
    }

    /// The state of the cell at `(x, y)`, which must be a cell of the grid.
    pub fn get(&self, x: usize, y: usize) -> (alive: bool)
        requires
            self@.in_bounds(x as int, y as int),
        ensures
            alive == self@.alive(x as int, y as int),
    {
        proof {
            use_type_invariant(self);
            lemma_place(x as int, y as int, self.width as int, self.height as int);
        }
        self.cells[x * self.height + y]
    }

    /// Sets the cell at `(x, y)`, which must be a cell of the grid, to
    /// `value`, and leaves every other cell as it is.
    pub fn set(&mut self, x: usize, y: usize, value: bool)
        requires
            old(self)@.in_bounds(x as int, y as int),
        ensures
            final(self)@ == old(self)@.with_cell(x as int, y as int, value),
    {
        proof {
            use_type_invariant(&*self);
            lemma_place(x as int, y as int, self.width as int, self.height as int);
        }
        let at: usize = x * self.height + y;
        self.cells[at] = value;
        proof {
            let height = self.height as int;
            let target = old(self)@.with_cell(x as int, y as int, value);
            assert forall|p: (int, int)| self@.live.contains(p) == target.live.contains(p) by {
                if 0 <= p.0 < self.width && 0 <= p.1 < height && p != (x as int, y as int) {
                    if place(p.0, p.1, height) == at {
                        lemma_place_unique(p.0, p.1, x as int, y as int, height);
                    }
                    lemma_place(p.0, p.1, self.width as int, height);
                }
            }
            assert(self@.live =~= target.live);
        }
    }

    /// The number of live cells in the neighbourhood of `(x, y)`: the cell
    /// itself and those of its eight neighbours that lie on the grid.
    pub fn count_live(&self, x: usize, y: usize) -> (count: u8)
        requires
            self@.in_bounds(x as int, y as int),
        ensures
            count == self@.count_live(x as int, y as int),
            count <= 9,
    {
        proof {
            use_type_invariant(self);
        }
        let x_lo: usize = if x > 0 { x - 1 } else { 0 };
        let y_lo: usize = if y > 0 { y - 1 } else { 0 };
        let x_hi: usize = if x + 1 < self.width { x + 1 } else { self.width - 1 };
        let y_hi: usize = if y + 1 < self.height { y + 1 } else { self.height - 1 };
        let ghost board = self@;
        let ghost window = board.window(x as int, y as int);
        let ghost mut seen: Set<(int, int)> = Set::empty();
        let mut count: u8 = 0;
        let mut i: usize = x_lo;
        while i <= x_hi
            invariant
                board == self@,
                window == board.window(x as int, y as int),
                x_lo == window_lo(x as int),
                y_lo == window_lo(y as int),
                x_hi == window_hi(x as int, board.width as int),
                y_hi == window_hi(y as int, board.height as int),
                x_lo <= x_hi < board.width,
                y_lo <= y_hi < board.height,
                x_hi - x_lo <= 2,
                y_hi - y_lo <= 2,
                x_lo <= i <= x_hi + 1,
                seen.finite(),
                count == seen.len(),
                count <= 3 * (i - x_lo),
                forall|p: (int, int)|
                    seen.contains(p) <==> board.live.contains(p) && window.contains(p) && p.0 < i,
            decreases x_hi + 1 - i,
        {
            let mut j: usize = y_lo;
            while j <= y_hi
                invariant
                    board == self@,
                    window == board.window(x as int, y as int),
                    x_lo == window_lo(x as int),
                    y_lo == window_lo(y as int),
                    x_hi == window_hi(x as int, board.width as int),
                    y_hi == window_hi(y as int, board.height as int),
                    x_lo <= x_hi < board.width,
                    y_lo <= y_hi < board.height,
                    y_hi - y_lo <= 2,
                    x_lo <= i <= x_hi,
                    y_lo <= j <= y_hi + 1,
                    seen.finite(),
                    count == seen.len(),
                    count <= 3 * (i - x_lo) + (j - y_lo),
                    forall|p: (int, int)|
                        seen.contains(p) <==> board.live.contains(p) && window.contains(p) && (p.0
                            < i || (p.0 == i && p.1 < j)),
                decreases y_hi + 1 - j,
            {
                if self.get(i, j) {
                    count = count + 1;
                    proof {
                        seen = seen.insert((i as int, j as int));
                    }
                }
                j = j + 1;
            }
            i = i + 1;
        }
        proof {
            assert(seen =~= board.live.intersect(window));
        }
        count
    }

    /// Advances the grid by one generation. Every cell's new state is
    /// computed from the grid as it was before the call.
    pub fn step(&mut self)
        ensures
            final(self)@ == old(self)@.step(),
    {
        proof {
            use_type_invariant(&*self);
        }
        let ghost board = self@;
        let width = self.width;
        let height = self.height;
        let mut next: Vec<bool> = vec![false; self.cells.len()];
        let mut x: usize = 0;
        while x < width
            invariant
                board == self@,
                width == self.width,
                height == self.height,
                width > 0,
                height > 0,
                width * height <= usize::MAX,
                next@.len() == width * height,
                x <= width,
                forall|a: int, b: int|
                    0 <= a < x && 0 <= b < height ==> #[trigger] stored(next@, height as int, a, b)
                        == board.next_alive(a, b),
            decreases width - x,
        {
            let mut y: usize = 0;
            while y < height
                invariant
                    board == self@,
                    width == self.width,
                    height == self.height,
                    width > 0,
                    height > 0,
                    width * height <= usize::MAX,
                    next@.len() == width * height,
                    x < width,
                    y <= height,
                    forall|a: int, b: int|
                        (0 <= a < x && 0 <= b < height) || (a == x && 0 <= b < y)
                            ==> #[trigger] stored(next@, height as int, a, b) == board.next_alive(
                            a,
                            b,
                        ),
                decreases height - y,
            {
                let count = self.count_live(x, y);
                let alive = next_state(self.get(x, y), count);
                let ghost before = next@;
                proof {
                    lemma_place(x as int, y as int, width as int, height as int);
                }
                next[x * height + y] = alive;
                proof {
                    assert forall|a: int, b: int|
                        (0 <= a < x && 0 <= b < height) || (a == x && 0 <= b <= y) implies stored(
                        next@,
                        height as int,
                        a,
                        b,
                    ) == board.next_alive(a, b) by {
                        lemma_place(a, b, width as int, height as int);
                        if a != x || b != y {
                            if place(a, b, height as int) == place(
                                x as int,
                                y as int,
                                height as int,
                            ) {
                                lemma_place_unique(a, b, x as int, y as int, height as int);
                            }
                            assert(stored(before, height as int, a, b) == board.next_alive(a, b));
                        }
                    }
                }
                y = y + 1;
            }
            x = x + 1;
        }
        self.cells = next;
        proof {
            assert(self@.live =~= board.step().live);
        }
    }
}

} // verus!
