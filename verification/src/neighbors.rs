//! The neighborhood counter: how many of a cell's 26 lattice neighbors are
//! alive, under the boundary policy that skips any offset which would reach
//! the outermost shell of the grid.

use vstd::prelude::*;
use vstd::math::abs;
use vstd::arithmetic::div_mod::{
    lemma_div_denominator, lemma_div_is_ordered, lemma_div_pos_is_pos, lemma_fundamental_div_mod,
    lemma_mod_bound,
};
use crate::{CELL_LOCATIONS_SIZE, HALF_GAME_SIZE};
use crate::grid::{
    index_of, lemma_position_of_index, translate_index_to_location, translate_location_to_index,
    valid_index, valid_position, x_of, y_of, z_of,
};

verus! {

/// The 26 neighbor offsets are enumerated with `x` varying fastest over
/// `{-1,0,1}` on each axis; position 13 of that enumeration is the zero
/// offset and is skipped.
pub open spec fn offset_index(k: int) -> int {
    if k < 13 {
        k
    } else {
        k + 1
    }
}

/// The `x` component of the `k`-th neighbor offset.
pub open spec fn offset_x(k: int) -> int {
    offset_index(k) % 3 - 1
}

/// The `y` component of the `k`-th neighbor offset.
pub open spec fn offset_y(k: int) -> int {
    (offset_index(k) / 3) % 3 - 1
}

/// The `z` component of the `k`-th neighbor offset.
pub open spec fn offset_z(k: int) -> int {
    offset_index(k) / 9 - 1
}

/// The boundary policy: an offset is skipped when, on any axis, the
/// center's absolute coordinate plus the offset component reaches
/// `HALF_GAME_SIZE - 1`.  Cells near the grid edge therefore see fewer
/// neighbors than interior cells; nothing ever wraps around.
pub open spec fn offset_skipped(x: int, y: int, z: int, ox: int, oy: int, oz: int) -> bool {
    abs(x) + ox >= HALF_GAME_SIZE as int - 1 || abs(y) + oy >= HALF_GAME_SIZE as int - 1
        || abs(z) + oz >= HALF_GAME_SIZE as int - 1
}

/// What one offset adds to the neighbor count: 1 when the offset is not
/// skipped and the cell at it is alive, 0 otherwise.
pub open spec fn neighbor_contrib(
    grid: Seq<bool>,
    x: int,
    y: int,
    z: int,
    ox: int,
    oy: int,
    oz: int,
) -> int {
    if offset_skipped(x, y, z, ox, oy, oz) {
        0
    } else if grid[index_of(x + ox, y + oy, z + oz)] {
        1
    } else {
        0
    }
}

/// The contribution of the `k`-th enumerated offset.
pub open spec fn contrib_at(grid: Seq<bool>, x: int, y: int, z: int, k: int) -> int {
    neighbor_contrib(grid, x, y, z, offset_x(k), offset_y(k), offset_z(k))
}

/// The sum of the contributions of the first `k` enumerated offsets.
pub open spec fn partial_count(grid: Seq<bool>, x: int, y: int, z: int, k: int) -> int
    decreases k,
{
    if k <= 0 {
        0
    } else {
        partial_count(grid, x, y, z, k - 1) + contrib_at(grid, x, y, z, k - 1)
    }
}

/// The number of live neighbors of the cell at flat index `i`.
pub open spec fn neighbor_count(grid: Seq<bool>, i: int) -> int {
    partial_count(grid, x_of(i), y_of(i), z_of(i), 26)
}

/// Every partial sum of contributions lies between 0 and the number of
/// offsets summed.
pub proof fn lemma_partial_count_bounds(grid: Seq<bool>, x: int, y: int, z: int, k: int)
    requires
        0 <= k,
    ensures
        0 <= partial_count(grid, x, y, z, k) <= k,
    decreases k,
{
    if k > 0 {
        lemma_partial_count_bounds(grid, x, y, z, k - 1);
    }
}

/// A neighbor count always lies in `[0, 26]`.
pub proof fn lemma_neighbor_count_range(grid: Seq<bool>, i: int)
    ensures
        0 <= neighbor_count(grid, i) <= 26,
{
    lemma_partial_count_bounds(grid, x_of(i), y_of(i), z_of(i), 26);
}

/// The components of every enumerated offset lie in `{-1, 0, 1}`.
pub proof fn lemma_offset_bounds(k: int)
    requires
        0 <= k < 26,
    ensures
        -1 <= offset_x(k) <= 1,
        -1 <= offset_y(k) <= 1,
        -1 <= offset_z(k) <= 1,
{
    let j = offset_index(k);
    lemma_mod_bound(j, 3);
    lemma_mod_bound(j / 3, 3);
    lemma_div_pos_is_pos(j, 3);
    lemma_div_pos_is_pos(j, 9);
    lemma_div_is_ordered(j, 27, 9);
}

/// When the first `k` offsets all contribute 1, the partial sum is `k`.
proof fn lemma_partial_count_full(grid: Seq<bool>, x: int, y: int, z: int, k: int)
    requires
        0 <= k,
        forall|j: int| 0 <= j < k ==> contrib_at(grid, x, y, z, j) == 1,
    ensures
        partial_count(grid, x, y, z, k) == k,
    decreases k,
{
    if k > 0 {
        lemma_partial_count_full(grid, x, y, z, k - 1);
    }
}

/// When some offset among the first `k` contributes 0, the partial sum
/// stays below `k`.
proof fn lemma_partial_count_missing(grid: Seq<bool>, x: int, y: int, z: int, k: int, k0: int)
    requires
        0 <= k0 < k,
        contrib_at(grid, x, y, z, k0) == 0,
    ensures
        partial_count(grid, x, y, z, k) <= k - 1,
    decreases k,
{
    if k - 1 == k0 {
        lemma_partial_count_bounds(grid, x, y, z, k - 1);
    } else {
        lemma_partial_count_missing(grid, x, y, z, k - 1, k0);
    }
}

/// Boundary symmetry, interior side: on an all-alive grid the cell at the
/// exact center of the grid counts all 26 of its neighbors.
pub proof fn lemma_center_count_full(grid: Seq<bool>)
    requires
        grid.len() == CELL_LOCATIONS_SIZE,
        forall|i: int| valid_index(i) ==> grid[i],
    ensures
        neighbor_count(grid, index_of(0, 0, 0)) == 26,
{
    lemma_position_of_index(0, 0, 0);
    let c = index_of(0, 0, 0);
    assert forall|j: int| 0 <= j < 26 implies contrib_at(grid, 0, 0, 0, j) == 1 by {
        lemma_offset_bounds(j);
        let ox = offset_x(j);
        let oy = offset_y(j);
        let oz = offset_z(j);
        assert(!offset_skipped(0, 0, 0, ox, oy, oz));
        lemma_position_of_index(ox, oy, oz);
        assert(grid[index_of(ox, oy, oz)]);
    }
    lemma_partial_count_full(grid, 0, 0, 0, 26);
}

/// Boundary symmetry, edge side: a cell whose position touches the
/// outermost shell on some axis never reaches a count of 26, whatever the
/// grid holds — the boundary policy always skips at least one offset.
pub proof fn lemma_shell_count_short(grid: Seq<bool>, i: int)
    requires
        valid_index(i),
        abs(x_of(i)) >= HALF_GAME_SIZE as int - 1 || abs(y_of(i)) >= HALF_GAME_SIZE as int - 1
            || abs(z_of(i)) >= HALF_GAME_SIZE as int - 1,
    ensures
        neighbor_count(grid, i) < 26,
{
    let x = x_of(i);
    let y = y_of(i);
    let z = z_of(i);
    if abs(x) >= HALF_GAME_SIZE as int - 1 {
        assert(offset_index(13) == 14);
        assert(offset_x(13) == 1 && offset_y(13) == 0 && offset_z(13) == 0);
        assert(contrib_at(grid, x, y, z, 13) == 0);
        lemma_partial_count_missing(grid, x, y, z, 26, 13);
    } else if abs(y) >= HALF_GAME_SIZE as int - 1 {
        assert(offset_index(15) == 16);
        assert(offset_x(15) == 0 && offset_y(15) == 1 && offset_z(15) == 0);
        assert(contrib_at(grid, x, y, z, 15) == 0);
        lemma_partial_count_missing(grid, x, y, z, 26, 15);
    } else {
        assert(offset_index(21) == 22);
        assert(offset_x(21) == 0 && offset_y(21) == 0 && offset_z(21) == 1);
        assert(contrib_at(grid, x, y, z, 21) == 0);
        lemma_partial_count_missing(grid, x, y, z, 26, 21);
    }
}

/// An offset that passes the boundary test leads from a valid position to
/// a valid position.
pub proof fn lemma_unskipped_neighbor_valid(x: int, y: int, z: int, k: int)
    requires
        valid_position(x, y, z),
        0 <= k < 26,
        !offset_skipped(x, y, z, offset_x(k), offset_y(k), offset_z(k)),
    ensures
        valid_position(x + offset_x(k), y + offset_y(k), z + offset_z(k)),
{
    lemma_offset_bounds(k);
}

/// Each enumerated offset is recovered from its components: the
/// enumeration never repeats an offset.
proof fn lemma_offset_decomposition(k: int)
    requires
        0 <= k < 26,
    ensures
        offset_index(k) == (offset_x(k) + 1) + 3 * (offset_y(k) + 1) + 9 * (offset_z(k) + 1),
{
    let j = offset_index(k);
    lemma_fundamental_div_mod(j, 3);
    lemma_fundamental_div_mod(j / 3, 3);
    lemma_div_denominator(j, 3, 3);
}

/// Whether the `k`-th offset of position `(x, y, z)` passes the boundary
/// test and lands exactly on the cell at index `c`.
spec fn hits_cell(x: int, y: int, z: int, c: int, k: int) -> bool {
    &&& !offset_skipped(x, y, z, offset_x(k), offset_y(k), offset_z(k))
    &&& index_of(x + offset_x(k), y + offset_y(k), z + offset_z(k)) == c
}

/// On a grid whose only live cell is at index `c`, the first `k` offsets
/// contribute 1 in total when one of them lands on `c`, and 0 otherwise:
/// distinct offsets land on distinct cells, so at most one can hit.
proof fn lemma_partial_count_single(
    grid: Seq<bool>,
    x: int,
    y: int,
    z: int,
    c: int,
    k: int,
)
    requires
        grid.len() == CELL_LOCATIONS_SIZE,
        forall|i: int| valid_index(i) ==> (grid[i] <==> i == c),
        valid_position(x, y, z),
        0 <= k <= 26,
    ensures
        partial_count(grid, x, y, z, k) == if exists|j: int|
            0 <= j < k && #[trigger] hits_cell(x, y, z, c, j) {
            1int
        } else {
            0int
        },
    decreases k,
{
    if k > 0 {
        lemma_partial_count_single(grid, x, y, z, c, k - 1);
        let ox = offset_x(k - 1);
        let oy = offset_y(k - 1);
        let oz = offset_z(k - 1);
        if !offset_skipped(x, y, z, ox, oy, oz) {
            lemma_unskipped_neighbor_valid(x, y, z, k - 1);
            lemma_position_of_index(x + ox, y + oy, z + oz);
            if index_of(x + ox, y + oy, z + oz) == c {
                assert(hits_cell(x, y, z, c, k - 1));
                assert(contrib_at(grid, x, y, z, k - 1) == 1);
                assert forall|j: int| 0 <= j < k - 1 implies !hits_cell(x, y, z, c, j) by {
                    if hits_cell(x, y, z, c, j) {
                        lemma_unskipped_neighbor_valid(x, y, z, j);
                        crate::grid::lemma_index_of_injective(
                            x + offset_x(j),
                            y + offset_y(j),
                            z + offset_z(j),
                            x + ox,
                            y + oy,
                            z + oz,
                        );
                        lemma_offset_decomposition(j);
                        lemma_offset_decomposition(k - 1);
                    }
                }
            } else {
                assert(contrib_at(grid, x, y, z, k - 1) == 0);
                assert(!hits_cell(x, y, z, c, k - 1));
            }
        } else {
            assert(contrib_at(grid, x, y, z, k - 1) == 0);
            assert(!hits_cell(x, y, z, c, k - 1));
        }
    }
}

/// On a grid whose only live cell is at index `c`, no cell counts more
/// than one live neighbor.
pub proof fn lemma_single_cell_count(grid: Seq<bool>, c: int, i: int)
    requires
        grid.len() == CELL_LOCATIONS_SIZE,
        forall|j: int| valid_index(j) ==> (grid[j] <==> j == c),
        valid_index(i),
    ensures
        0 <= neighbor_count(grid, i) <= 1,
{
    crate::grid::lemma_round_trip(i);
    lemma_partial_count_single(grid, x_of(i), y_of(i), z_of(i), c, 26);
}

/// Counts the live neighbors of the cell at `index`, skipping offsets that
/// the boundary policy rules out.
pub fn get_neighbors(index: usize, cell_locations: &Vec<bool>) -> (count: usize)
    requires
        cell_locations@.len() == CELL_LOCATIONS_SIZE,
        valid_index(index as int),
    ensures
        count == neighbor_count(cell_locations@, index as int),
        count <= 26,
{
    let (x, y, z) = translate_index_to_location(index);
    let mut count: usize = 0;
    let mut k: usize = 0;
    while k < 26
        invariant
            cell_locations@.len() == CELL_LOCATIONS_SIZE,
            x as int == x_of(index as int),
            y as int == y_of(index as int),
            z as int == z_of(index as int),
            valid_position(x as int, y as int, z as int),
            k <= 26,
            count <= k,
            count == partial_count(cell_locations@, x as int, y as int, z as int, k as int),
        decreases 26 - k,
    {
        let j = if k < 13 {
            k
        } else {
            k + 1
        };
        let ox = (j % 3) as i32 - 1;
        let oy = ((j / 3) % 3) as i32 - 1;
        let oz = (j / 9) as i32 - 1;
        assert(ox == offset_x(k as int) && oy == offset_y(k as int) && oz == offset_z(k as int));
        let ax = if x < 0 { (-x) } else { x };
        let ay = if y < 0 { (-y) } else { y };
        let az = if z < 0 { (-z) } else { z };
        if !(ax + ox >= HALF_GAME_SIZE - 1 || ay + oy >= HALF_GAME_SIZE - 1 || az + oz
            >= HALF_GAME_SIZE - 1) {
            assert(!offset_skipped(
                x as int,
                y as int,
                z as int,
                ox as int,
                oy as int,
                oz as int,
            ));
            let neighbor = translate_location_to_index(x + ox, y + oy, z + oz);
            if cell_locations[neighbor] {
                count = count + 1;
            }
        }
        k = k + 1;
    }
    count
}

} // verus!
