//! The birth and survival rule, phrased over a count that includes the cell
//! itself.

use vstd::prelude::*;

verus! {

/// Count at which a dead cell comes alive: three live cells around it and
/// the dead cell itself, which adds nothing.
pub const BIRTH_COUNT: u8 = 3;

/// Smallest count at which a live cell survives: itself and two neighbours.
pub const SURVIVE_MIN: u8 = 3;

/// Largest count at which a live cell survives: itself and three neighbours.
pub const SURVIVE_MAX: u8 = 4;

/// The state a cell takes in the next generation, given its state now and
/// the number of live cells in its neighbourhood, itself included.
pub open spec fn rule(is_alive: bool, count: int) -> bool {
    if is_alive {
        SURVIVE_MIN <= count <= SURVIVE_MAX
    } else {
        count == BIRTH_COUNT
    }
}

/// The classical statement of the rule, over the live neighbours of a cell
/// without the cell itself: survival on two or three, birth on exactly three.
pub open spec fn classical_rule(is_alive: bool, neighbours: int) -> bool {
    if is_alive {
        neighbours == 2 || neighbours == 3
    } else {
        neighbours == 3
    }
}

/// Applies the rule to one cell.
pub fn next_state(is_alive: bool, neighbor_count_including_self: u8) -> (alive: bool)
    ensures
        alive == rule(is_alive, neighbor_count_including_self as int),
{
    if is_alive {
        SURVIVE_MIN <= neighbor_count_including_self && neighbor_count_including_self
            <= SURVIVE_MAX
    } else {
        neighbor_count_including_self == BIRTH_COUNT
    }
}

/// Counting the cell itself and comparing with three and four is the
/// classical rule on the neighbours alone.
pub proof fn lemma_rule_is_classical(is_alive: bool, neighbours: int)
    ensures
        rule(is_alive, neighbours + if is_alive { 1int } else { 0int }) == classical_rule(
            is_alive,
            neighbours,
        ),
{
}

} // verus!
