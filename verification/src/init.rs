//! Starting grids: a fill from a bit pattern, fixed or drawn at random.

use vstd::arithmetic::div_mod::{lemma_basic_div, lemma_div_non_zero};
use vstd::arithmetic::power2::{lemma_pow2_pos, pow2};
use vstd::bits::lemma_u64_shr_is_div;
use vstd::prelude::*;

use crate::board::Board;
use crate::grid::{dimensions_error, Grid, GridError};

verus! {

/// Whether `pattern` gives life to the cells of row `y`: it does where the
/// pattern, shifted right by `y` modulo 64 bits, is not zero, that is, where
/// it has a bit set at that position or above.
pub open spec fn pattern_lights(pattern: u64, y: int) -> bool {
    (pattern >> ((y % 64) as u64)) > 0
}

/// The board that `pattern` describes: every column alike, each row alive or
/// dead throughout as [`pattern_lights`] says.
pub open spec fn pattern_board(width: nat, height: nat, pattern: u64) -> Board {
    Board {
        width,
        height,
        live: Set::new(
            |p: (int, int)| 0 <= p.0 < width && 0 <= p.1 < height && pattern_lights(pattern, p.1),
        ),
    }
}

/// A pattern lights the row `y` exactly where it is at least two to the
/// power of `y` modulo 64: in each block of 64 rows, the rows from the first
/// up to the one of the pattern's highest set bit.
pub proof fn lemma_pattern_lights_up_to_highest_bit(pattern: u64, y: int)
    ensures
        pattern_lights(pattern, y) <==> pattern >= pow2((y % 64) as nat),
{
    let shift = (y % 64) as u64;
    let power = pow2(shift as nat) as int;
    lemma_u64_shr_is_div(pattern, shift);
    lemma_pow2_pos(shift as nat);
    if pattern >= power {
        lemma_div_non_zero(pattern as int, power);
    } else {
        lemma_basic_div(pattern as int, power);
    }
}

/// A grid filled from `pattern`, the same in every column.
pub fn init_cells_bitpattern(width: usize, height: usize, pattern: u64) -> (made: Result<
    Grid,
    GridError,
>)
    ensures
        match dimensions_error(width, height) {
            Some(error) => made == Err::<Grid, GridError>(error),
            None => made is Ok && made->Ok_0@ == pattern_board(
                width as nat,
                height as nat,
                pattern,
            ),
        },
{
    let lights = |x: usize, y: usize| -> (alive: bool)
        ensures
            alive == pattern_lights(pattern, y as int),
        {
            let shift: u64 = (y % 64) as u64;
            pattern >> shift > 0
        };
    match Grid::from_fn(width, height, lights) {
        Ok(grid) => {
            proof {
                let target = pattern_board(width as nat, height as nat, pattern);
                assert forall|p: (int, int)| grid@.live.contains(p) == target.live.contains(p) by {
                    if 0 <= p.0 < width && 0 <= p.1 < height {
                        let (x, y) = (p.0 as usize, p.1 as usize);
                        assert(call_ensures(lights, (x, y), grid@.alive(x as int, y as int)));
                    }
                }
                assert(grid@ =~= target);
            }
            Ok(grid)
        },
        Err(error) => Err(error),
    }
}

/// Draws 32 bits from `rand`'s generator of the current thread, which the
/// operating system seeds. Nothing is claimed of the value; the generator
/// panics if the operating system gives it no seed.
#[verifier::external_body]
fn random_pattern() -> (pattern: u32) {
    rand::Rng::gen::<u32>(&mut rand::thread_rng())
}

/// A grid filled from a pattern of 32 bits drawn at random: whichever
/// pattern was drawn, the grid is the one that [`init_cells_bitpattern`]
/// makes of it.
pub fn init_cells_bitrandom(width: usize, height: usize) -> (made: Result<Grid, GridError>)
    ensures
        match dimensions_error(width, height) {
            Some(error) => made == Err::<Grid, GridError>(error),
            None => made is Ok && exists|pattern: u64|
                pattern <= u32::MAX && made->Ok_0@ == #[trigger] pattern_board(
                    width as nat,
                    height as nat,
                    pattern,
                ),
        },
{
    let pattern = random_pattern();
    init_cells_bitpattern(width, height, pattern as u64)
}

} // verus!
