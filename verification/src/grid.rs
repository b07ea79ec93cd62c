//! The coordinate mapper: a bijection between lattice positions centered at
//! the origin and flat indices into the dense cell grid.

use vstd::prelude::*;
use vstd::arithmetic::div_mod::{
    lemma_div_denominator, lemma_fundamental_div_mod, lemma_fundamental_div_mod_converse,
    lemma_mod_bound,
};
use crate::{CELL_LOCATIONS_SIZE, GAME_SIZE, HALF_GAME_SIZE};

verus! {

/// A lattice coordinate is valid when it lies inside the grid on its axis.
pub open spec fn valid_coord(c: int) -> bool {
    -(HALF_GAME_SIZE as int) <= c < HALF_GAME_SIZE as int
}

/// All three coordinates of a lattice position are valid.
pub open spec fn valid_position(x: int, y: int, z: int) -> bool {
    valid_coord(x) && valid_coord(y) && valid_coord(z)
}

/// A flat index is valid when it addresses a cell of the grid.
pub open spec fn valid_index(i: int) -> bool {
    0 <= i < CELL_LOCATIONS_SIZE as int
}

/// The flat index of a lattice position: each axis is offset by half the
/// grid side so that the origin sits at the grid center, then the axes are
/// linearized with `x` varying fastest.
pub open spec fn index_of(x: int, y: int, z: int) -> int {
    (x + HALF_GAME_SIZE as int) + (GAME_SIZE as int) * (y + HALF_GAME_SIZE as int)
        + (GAME_SIZE as int) * (GAME_SIZE as int) * (z + HALF_GAME_SIZE as int)
}

/// The `x` coordinate encoded in a flat index.
pub open spec fn x_of(i: int) -> int {
    i % (GAME_SIZE as int) - HALF_GAME_SIZE as int
}

/// The `y` coordinate encoded in a flat index.
pub open spec fn y_of(i: int) -> int {
    (i / (GAME_SIZE as int)) % (GAME_SIZE as int) - HALF_GAME_SIZE as int
}

/// The `z` coordinate encoded in a flat index.
pub open spec fn z_of(i: int) -> int {
    i / ((GAME_SIZE as int) * (GAME_SIZE as int)) - HALF_GAME_SIZE as int
}

/// Decoding a valid index yields a valid position, and re-encoding that
/// position yields the index back: the mapping is a bijection.
pub proof fn lemma_round_trip(i: int)
    requires
        valid_index(i),
    ensures
        valid_position(x_of(i), y_of(i), z_of(i)),
        index_of(x_of(i), y_of(i), z_of(i)) == i,
{
    lemma_fundamental_div_mod(i, 100);
    lemma_mod_bound(i, 100);
    lemma_fundamental_div_mod(i / 100, 100);
    lemma_mod_bound(i / 100, 100);
    lemma_div_denominator(i, 100, 100);
}

/// Encoding a valid position yields a valid index, and decoding that index
/// recovers the position exactly.
pub proof fn lemma_position_of_index(x: int, y: int, z: int)
    requires
        valid_position(x, y, z),
    ensures
        valid_index(index_of(x, y, z)),
        x_of(index_of(x, y, z)) == x,
        y_of(index_of(x, y, z)) == y,
        z_of(index_of(x, y, z)) == z,
{
    let n = index_of(x, y, z);
    lemma_fundamental_div_mod_converse(
        n,
        100,
        (y + 50) + 100 * (z + 50),
        x + 50,
    );
    lemma_fundamental_div_mod_converse(n / 100, 100, z + 50, y + 50);
    lemma_div_denominator(n, 100, 100);
}

/// Two distinct valid positions never share a flat index.
pub proof fn lemma_index_of_injective(x1: int, y1: int, z1: int, x2: int, y2: int, z2: int)
    requires
        valid_position(x1, y1, z1),
        valid_position(x2, y2, z2),
        index_of(x1, y1, z1) == index_of(x2, y2, z2),
    ensures
        x1 == x2,
        y1 == y2,
        z1 == z2,
{
    lemma_position_of_index(x1, y1, z1);
    lemma_position_of_index(x2, y2, z2);
}

/// Maps a lattice position to its flat grid index.  Callers must pass a
/// position inside the grid; out-of-range input would address the wrong
/// cell, so it is ruled out rather than checked here.
pub fn translate_location_to_index(x: i32, y: i32, z: i32) -> (index: usize)
    requires
        valid_position(x as int, y as int, z as int),
    ensures
        index as int == index_of(x as int, y as int, z as int),
        valid_index(index as int),
{
    let xs = x + HALF_GAME_SIZE;
    let ys = y + HALF_GAME_SIZE;
    let zs = z + HALF_GAME_SIZE;
    let side_squared = GAME_SIZE * GAME_SIZE;
    assert(0 <= xs + GAME_SIZE * ys + side_squared * zs < CELL_LOCATIONS_SIZE);
    (xs + GAME_SIZE * ys + side_squared * zs) as usize
}

/// Recovers the lattice position encoded in a flat grid index.
pub fn translate_index_to_location(index: usize) -> (loc: (i32, i32, i32))
    requires
        valid_index(index as int),
    ensures
        loc.0 as int == x_of(index as int),
        loc.1 as int == y_of(index as int),
        loc.2 as int == z_of(index as int),
        valid_position(loc.0 as int, loc.1 as int, loc.2 as int),
{
    proof {
        lemma_round_trip(index as int);
    }
    let side = GAME_SIZE as usize;
    let x = (index % side) as i32 - HALF_GAME_SIZE;
    let y = ((index / side) % side) as i32 - HALF_GAME_SIZE;
    let z = (index / (side * side)) as i32 - HALF_GAME_SIZE;
    (x, y, z)
}

/// Sets every cell of the grid dead.
pub fn reset_cells(cell_locations: &mut Vec<bool>)
    requires
        old(cell_locations)@.len() == CELL_LOCATIONS_SIZE,
    ensures
        final(cell_locations)@.len() == CELL_LOCATIONS_SIZE,
        forall|i: int| valid_index(i) ==> !final(cell_locations)@[i],
{
    let mut i: usize = 0;
    while i < CELL_LOCATIONS_SIZE
        invariant
            cell_locations@.len() == CELL_LOCATIONS_SIZE,
            i <= CELL_LOCATIONS_SIZE,
            forall|j: int| 0 <= j < i ==> !cell_locations@[j],
        decreases CELL_LOCATIONS_SIZE - i,
    {
        cell_locations.set(i, false);
        i = i + 1;
    }
}

} // verus!
