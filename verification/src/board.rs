//! The mathematical model of a grid: its dimensions and the set of its live
//! cells. Contracts elsewhere in the crate are stated over this model.

use vstd::prelude::*;

use crate::rules::rule;

verus! {

/// A grid as a mathematical value: `width` columns, `height` rows, and the
/// coordinates `(x, y)` of the cells that are alive.
#[verifier::ext_equal]
pub struct Board {
    pub width: nat,
    pub height: nat,
    pub live: Set<(int, int)>,
}

/// Lowest coordinate of a three-cell window centred on `c`, clipped at the
/// lower border.
pub open spec fn window_lo(c: int) -> int {
    if c - 1 > 0 {
        c - 1
    } else {
        0
    }
}

/// Highest coordinate of a three-cell window centred on `c`, clipped at the
/// upper border of an axis of `len` cells.
pub open spec fn window_hi(c: int, len: int) -> int {
    if c + 1 < len - 1 {
        c + 1
    } else {
        len - 1
    }
}

impl Board {
    /// Whether `(x, y)` names a cell of the board.
    pub open spec fn in_bounds(self, x: int, y: int) -> bool {
        0 <= x < self.width && 0 <= y < self.height
    }

    /// A board has at least one cell, and only cells of the board are alive.
    pub open spec fn wf(self) -> bool {
        &&& self.width > 0
        &&& self.height > 0
        &&& forall|p: (int, int)| #[trigger] self.live.contains(p) ==> self.in_bounds(p.0, p.1)
    }

    /// The state of the cell at `(x, y)`.
    pub open spec fn alive(self, x: int, y: int) -> bool {
        self.live.contains((x, y))
    }

    /// All the cells of the board.
    pub open spec fn cells(self) -> Set<(int, int)> {
        Set::new(|p: (int, int)| self.in_bounds(p.0, p.1))
    }

    /// The board of the given dimensions whose cells are all `fill`.
    pub open spec fn filled(width: nat, height: nat, fill: bool) -> Board {
        let blank = Board { width, height, live: Set::empty() };
        if fill {
            Board { width, height, live: blank.cells() }
        } else {
            blank
        }
    }

    /// The board with the cell at `(x, y)` set to `value` and every other
    /// cell as it was.
    pub open spec fn with_cell(self, x: int, y: int, value: bool) -> Board {
        Board {
            width: self.width,
            height: self.height,
            live: if value {
                self.live.insert((x, y))
            } else {
                self.live.remove((x, y))
            },
        }
    }

    /// The neighbourhood of `(x, y)`: the cells of the rectangle from
    /// `x - 1` to `x + 1` and from `y - 1` to `y + 1`, clipped at the
    /// borders, with `(x, y)` itself among them.
    pub open spec fn window(self, x: int, y: int) -> Set<(int, int)> {
        Set::new(
            |p: (int, int)|
                window_lo(x) <= p.0 <= window_hi(x, self.width as int) && window_lo(y) <= p.1
                    <= window_hi(y, self.height as int),
        )
    }

    /// The number of live cells in the neighbourhood of `(x, y)`, the cell
    /// itself included.
    pub open spec fn count_live(self, x: int, y: int) -> nat {
        self.live.intersect(self.window(x, y)).len()
    }

    /// The state of the cell at `(x, y)` one generation later.
    pub open spec fn next_alive(self, x: int, y: int) -> bool {
        rule(self.alive(x, y), self.count_live(x, y) as int)
    }

    /// The board one generation later: every cell takes the state that the
    /// rule gives it on this board.
    pub open spec fn step(self) -> Board {
        Board {
            width: self.width,
            height: self.height,
            live: Set::new(|p: (int, int)| self.in_bounds(p.0, p.1) && self.next_alive(p.0, p.1)),
        }
    }

    /// The board `generations` generations later.
    pub open spec fn after(self, generations: nat) -> Board
        decreases generations,
    {
        if generations == 0 {
            self
        } else {
            self.step().after((generations - 1) as nat)
        }
    }

    /// One if the cell at `(x, y)` is alive, zero if it is dead.
    pub open spec fn lit(self, x: int, y: int) -> nat {
        if self.alive(x, y) {
            1
        } else {
            0
        }
    }

    /// The number of live cells among `(x, y - 1)`, `(x, y)` and
    /// `(x, y + 1)`.
    pub open spec fn lit_in_column(self, x: int, y: int) -> nat {
        self.lit(x, y - 1) + self.lit(x, y) + self.lit(x, y + 1)
    }

    /// Whether `(x, y)` lies in the first or last column, or in the first or
    /// last row.
    pub open spec fn on_edge(self, x: int, y: int) -> bool {
        x == 0 || x == self.width - 1 || y == 0 || y == self.height - 1
    }

    /// Whether `(x, y)` lies in the first or last column and also in the
    /// first or last row.
    pub open spec fn at_corner(self, x: int, y: int) -> bool {
        (x == 0 || x == self.width - 1) && (y == 0 || y == self.height - 1)
    }

    /// The board whose live cells are the three of a vertical line centred
    /// on `(x, y)`.
    pub open spec fn vertical_blinker(width: nat, height: nat, x: int, y: int) -> Board {
        Board { width, height, live: set![(x, y - 1), (x, y), (x, y + 1)] }
    }

    /// The board whose live cells are the three of a horizontal line centred
    /// on `(x, y)`.
    pub open spec fn horizontal_blinker(width: nat, height: nat, x: int, y: int) -> Board {
        Board { width, height, live: set![(x - 1, y), (x, y), (x + 1, y)] }
    }
}

} // verus!
