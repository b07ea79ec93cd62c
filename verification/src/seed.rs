//! The seeder: randomized live-cell positions within a bounding cube
//! around a center point, and the pass that marks them alive in the grid.

use vstd::prelude::*;
use rand::distributions::Distribution;
use crate::{CELL_LOCATIONS_SIZE, HALF_GAME_SIZE};
use crate::grid::{index_of, translate_location_to_index, valid_position};

verus! {

/// The start of the sampling interval on one axis: the center coordinate
/// minus half the radius, clamped into the grid's coordinate range.
pub open spec fn axis_start(center: int, distance: int) -> int {
    let s = center - distance / 2;
    if s < -(HALF_GAME_SIZE as int) {
        -(HALF_GAME_SIZE as int)
    } else if s > HALF_GAME_SIZE as int {
        HALF_GAME_SIZE as int
    } else {
        s
    }
}

/// Relies on rand's `Uniform` integer distribution sampled with
/// `thread_rng`: the sample lies in `[lo, hi)`.  `Uniform::from` panics on
/// an empty range, so that is ruled out; nothing more is assumed of the
/// random outcome.
#[verifier::external_body]
fn sample_uniform(lo: i32, hi: i32) -> (sample: i32)
    requires
        lo < hi,
    ensures
        lo <= sample < hi,
{
    let distro = rand::distributions::Uniform::from(lo..hi);
    distro.sample(&mut rand::thread_rng())
}

/// Clamps the start of one axis' sampling interval into the grid range.
fn clamped_axis_start(center: i32, distance: i32) -> (start: i32)
    requires
        0 < distance,
    ensures
        start as int == axis_start(center as int, distance as int),
        -HALF_GAME_SIZE <= start <= HALF_GAME_SIZE,
{
    let s = center as i64 - (distance / 2) as i64;
    if s < -(HALF_GAME_SIZE as i64) {
        -HALF_GAME_SIZE
    } else if s > HALF_GAME_SIZE as i64 {
        HALF_GAME_SIZE
    } else {
        s as i32
    }
}

/// Draws `points` positions, each coordinate sampled independently and
/// uniformly from `[axis_start, axis_start + distance)` on its axis.
/// Duplicates are allowed: marking an already-alive cell alive again is
/// harmless.  The caller converts the positions to grid indices.
pub fn create_random_spawn_points(points: i32, center: (i32, i32, i32), distance: i32) -> (
    spawn_points: Vec<(i32, i32, i32)>)
    requires
        0 <= points,
        0 < distance <= i32::MAX - HALF_GAME_SIZE,
    ensures
        spawn_points@.len() == points as int,
        forall|j: int|
            0 <= j < spawn_points@.len() ==> {
                let p = #[trigger] spawn_points@[j];
                &&& axis_start(center.0 as int, distance as int) <= p.0 < axis_start(
                    center.0 as int,
                    distance as int,
                ) + distance
                &&& axis_start(center.1 as int, distance as int) <= p.1 < axis_start(
                    center.1 as int,
                    distance as int,
                ) + distance
                &&& axis_start(center.2 as int, distance as int) <= p.2 < axis_start(
                    center.2 as int,
                    distance as int,
                ) + distance
            },
{
    let x_start = clamped_axis_start(center.0, distance);
    let y_start = clamped_axis_start(center.1, distance);
    let z_start = clamped_axis_start(center.2, distance);
    let mut spawn_points: Vec<(i32, i32, i32)> = Vec::new();
    let mut n: i32 = 0;
    while n < points
        invariant
            0 <= n <= points,
            0 < distance <= i32::MAX - HALF_GAME_SIZE,
            x_start as int == axis_start(center.0 as int, distance as int),
            y_start as int == axis_start(center.1 as int, distance as int),
            z_start as int == axis_start(center.2 as int, distance as int),
            -HALF_GAME_SIZE <= x_start <= HALF_GAME_SIZE,
            -HALF_GAME_SIZE <= y_start <= HALF_GAME_SIZE,
            -HALF_GAME_SIZE <= z_start <= HALF_GAME_SIZE,
            spawn_points@.len() == n as int,
            forall|j: int|
                0 <= j < spawn_points@.len() ==> {
                    let p = #[trigger] spawn_points@[j];
                    &&& x_start <= p.0 < x_start + distance
                    &&& y_start <= p.1 < y_start + distance
                    &&& z_start <= p.2 < z_start + distance
                },
        decreases points - n,
    {
        let x = sample_uniform(x_start, x_start + distance);
        let y = sample_uniform(y_start, y_start + distance);
        let z = sample_uniform(z_start, z_start + distance);
        spawn_points.push((x, y, z));
        n = n + 1;
    }
    spawn_points
}

/// The flat grid index a spawn position maps to.
pub open spec fn point_index(p: (i32, i32, i32)) -> int {
    index_of(p.0 as int, p.1 as int, p.2 as int)
}

/// Whether a spawn position lies on the lattice.
pub open spec fn point_valid(p: (i32, i32, i32)) -> bool {
    valid_position(p.0 as int, p.1 as int, p.2 as int)
}

/// Whether one of the first `n` listed positions maps to index `i`.
pub open spec fn hit_by_prefix(spawn_points: Seq<(i32, i32, i32)>, n: int, i: int) -> bool {
    exists|j: int| 0 <= j < n && point_index(#[trigger] spawn_points[j]) == i
}

/// The grid after marking the cell at each listed position alive: a cell
/// is alive afterwards exactly when it was alive before or some listed
/// position maps to it.
pub open spec fn seeded(grid: Seq<bool>, spawn_points: Seq<(i32, i32, i32)>) -> Seq<bool> {
    Seq::new(
        grid.len(),
        |i: int| grid[i] || hit_by_prefix(spawn_points, spawn_points.len() as int, i),
    )
}

/// Marks the cell at each listed lattice position alive.  Positions must
/// lie on the lattice: the coordinate mapper is only a bijection there,
/// and an out-of-range position would silently address the wrong cell.
pub fn apply_spawn_points(cell_locations: &mut Vec<bool>, spawn_points: &Vec<(i32, i32, i32)>)
    requires
        old(cell_locations)@.len() == CELL_LOCATIONS_SIZE,
        forall|j: int|
            0 <= j < spawn_points@.len() ==> point_valid(#[trigger] spawn_points@[j]),
    ensures
        final(cell_locations)@ == seeded(old(cell_locations)@, spawn_points@),
{
    let ghost pre = cell_locations@;
    let mut n: usize = 0;
    while n < spawn_points.len()
        invariant
            cell_locations@.len() == CELL_LOCATIONS_SIZE,
            pre.len() == CELL_LOCATIONS_SIZE,
            n <= spawn_points@.len(),
            forall|j: int|
                0 <= j < spawn_points@.len() ==> point_valid(#[trigger] spawn_points@[j]),
            forall|i: int|
                0 <= i < CELL_LOCATIONS_SIZE ==> cell_locations@[i] == ((#[trigger] pre[i])
                    || hit_by_prefix(spawn_points@, n as int, i)),
        decreases spawn_points@.len() - n,
    {
        let p = spawn_points[n];
        let index = translate_location_to_index(p.0, p.1, p.2);
        let ghost before = cell_locations@;
        let ghost old_n = n as int;
        cell_locations.set(index, true);
        n = n + 1;
        proof {
            assert forall|i: int| 0 <= i < CELL_LOCATIONS_SIZE implies cell_locations@[i] == ((
            #[trigger] pre[i]) || hit_by_prefix(spawn_points@, n as int, i)) by {
                assert(before[i] == (pre[i] || hit_by_prefix(spawn_points@, old_n, i)));
                if i == index as int {
                    assert(point_index(spawn_points@[old_n]) == i);
                    assert(hit_by_prefix(spawn_points@, n as int, i));
                } else {
                    assert(cell_locations@[i] == before[i]);
                    if hit_by_prefix(spawn_points@, old_n, i) {
                        let j = choose|j: int|
                            0 <= j < old_n && point_index(#[trigger] spawn_points@[j]) == i;
                        assert(hit_by_prefix(spawn_points@, n as int, i));
                    }
                    if hit_by_prefix(spawn_points@, n as int, i) {
                        let j = choose|j: int|
                            0 <= j < n && point_index(#[trigger] spawn_points@[j]) == i;
                        assert(j < old_n);
                        assert(hit_by_prefix(spawn_points@, old_n, i));
                    }
                }
            }
        }
    }
    proof {
        assert(cell_locations@ =~= seeded(pre, spawn_points@));
    }
}

/// Idempotence of re-seeding: marking positions whose cells are already
/// alive changes nothing in the grid.
pub proof fn lemma_reseed_idempotent(grid: Seq<bool>, spawn_points: Seq<(i32, i32, i32)>)
    requires
        grid.len() == CELL_LOCATIONS_SIZE,
        forall|j: int| 0 <= j < spawn_points.len() ==> point_valid(#[trigger] spawn_points[j]),
        forall|j: int|
            0 <= j < spawn_points.len() ==> grid[point_index(#[trigger] spawn_points[j])],
    ensures
        seeded(grid, spawn_points) == grid,
{
    assert forall|i: int| 0 <= i < grid.len() implies seeded(grid, spawn_points)[i] == grid[i] by {
        if !grid[i] {
            if hit_by_prefix(spawn_points, spawn_points.len() as int, i) {
                let j = choose|j: int|
                    0 <= j < spawn_points.len() && point_index(#[trigger] spawn_points[j]) == i;
                assert(grid[point_index(spawn_points[j])]);
            }
        }
    }
    assert(seeded(grid, spawn_points) =~= grid);
}

} // verus!
