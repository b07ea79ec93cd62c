//! The color gradient and the live-cell enumeration handed to rendering.
//!
//! A live cell's color interpolates between the rule's two gradient colors
//! by the cell's Chebyshev distance from the grid center, normalized so
//! that the grid boundary is at distance 1.  The distance is the exact
//! fraction `chebyshev / HALF_GAME_SIZE`, so every channel is carried as
//! an exact numerator over the fixed denominator `HALF_GAME_SIZE`; the
//! renderer divides once when converting to its own color format.

use vstd::prelude::*;
use vstd::math::{abs, max3};
use vstd::arithmetic::mul::lemma_mul_upper_bound;
use crate::{CELL_LOCATIONS_SIZE, HALF_GAME_SIZE};
use crate::grid::{translate_index_to_location, x_of, y_of, z_of};
use crate::rule::GameRule;

verus! {

/// Chebyshev distance of a lattice position from the origin: the largest
/// absolute coordinate.
pub open spec fn chebyshev(x: int, y: int, z: int) -> int {
    max3(abs(x) as int, abs(y) as int, abs(z) as int)
}

/// One color channel blended at Chebyshev distance `cheb`, scaled by the
/// fixed denominator: the channel's value is this numerator divided by
/// `HALF_GAME_SIZE`.
pub open spec fn blend_channel(cheb: int, from: int, to: int) -> int {
    (HALF_GAME_SIZE as int - cheb) * from + cheb * to
}

/// One drawable instance: a lattice position and RGBA channels, each
/// channel an exact numerator over `HALF_GAME_SIZE` on the 0..=255 scale.
#[derive(Clone, Copy, PartialEq, Eq, Structural, Debug)]
pub struct CellInstance {
    pub x: i32,
    pub y: i32,
    pub z: i32,
    pub r: u32,
    pub g: u32,
    pub b: u32,
    pub a: u32,
}

/// The instance drawn for the live cell at index `i`.
pub open spec fn instance_at(rule: GameRule, i: int) -> CellInstance {
    let cheb = chebyshev(x_of(i), y_of(i), z_of(i));
    CellInstance {
        x: x_of(i) as i32,
        y: y_of(i) as i32,
        z: z_of(i) as i32,
        r: blend_channel(cheb, rule.color_from.r as int, rule.color_to.r as int) as u32,
        g: blend_channel(cheb, rule.color_from.g as int, rule.color_to.g as int) as u32,
        b: blend_channel(cheb, rule.color_from.b as int, rule.color_to.b as int) as u32,
        a: HALF_GAME_SIZE as u32,
    }
}

/// The instances of the live cells among the first `n` indices, in index
/// order.
pub open spec fn render_seq(grid: Seq<bool>, rule: GameRule, n: int) -> Seq<CellInstance>
    decreases n,
{
    if n <= 0 {
        Seq::empty()
    } else if grid[n - 1] {
        render_seq(grid, rule, n - 1).push(instance_at(rule, n - 1))
    } else {
        render_seq(grid, rule, n - 1)
    }
}

/// At the grid boundary (normalized distance 1) the blend equals the `to`
/// color exactly, and at the center (distance 0) the `from` color exactly
/// — both scaled by the fixed denominator.
pub proof fn lemma_gradient_endpoints(from: int, to: int)
    ensures
        blend_channel(HALF_GAME_SIZE as int, from, to) == (HALF_GAME_SIZE as int) * to,
        blend_channel(0, from, to) == (HALF_GAME_SIZE as int) * from,
{
}

/// Blends the rule's gradient colors at a lattice position, returning the
/// RGBA channel numerators over `HALF_GAME_SIZE` (alpha is opaque).
pub fn blend(x: i32, y: i32, z: i32, game_rule: &GameRule) -> (color: (u32, u32, u32, u32))
    requires
        -HALF_GAME_SIZE <= x <= HALF_GAME_SIZE,
        -HALF_GAME_SIZE <= y <= HALF_GAME_SIZE,
        -HALF_GAME_SIZE <= z <= HALF_GAME_SIZE,
    ensures
        color.0 == blend_channel(
            chebyshev(x as int, y as int, z as int),
            game_rule.color_from.r as int,
            game_rule.color_to.r as int,
        ),
        color.1 == blend_channel(
            chebyshev(x as int, y as int, z as int),
            game_rule.color_from.g as int,
            game_rule.color_to.g as int,
        ),
        color.2 == blend_channel(
            chebyshev(x as int, y as int, z as int),
            game_rule.color_from.b as int,
            game_rule.color_to.b as int,
        ),
        color.3 == HALF_GAME_SIZE as u32,
{
    let ax = if x < 0 { -x } else { x };
    let ay = if y < 0 { -y } else { y };
    let az = if z < 0 { -z } else { z };
    let mut cheb = ax;
    if ay > cheb {
        cheb = ay;
    }
    if az > cheb {
        cheb = az;
    }
    let d = cheb as u32;
    let rest = HALF_GAME_SIZE as u32 - d;
    proof {
        lemma_mul_upper_bound(rest as int, 50, game_rule.color_from.r as int, 255);
        lemma_mul_upper_bound(d as int, 50, game_rule.color_to.r as int, 255);
        lemma_mul_upper_bound(rest as int, 50, game_rule.color_from.g as int, 255);
        lemma_mul_upper_bound(d as int, 50, game_rule.color_to.g as int, 255);
        lemma_mul_upper_bound(rest as int, 50, game_rule.color_from.b as int, 255);
        lemma_mul_upper_bound(d as int, 50, game_rule.color_to.b as int, 255);
    }
    let r = rest * (game_rule.color_from.r as u32) + d * (game_rule.color_to.r as u32);
    let g = rest * (game_rule.color_from.g as u32) + d * (game_rule.color_to.g as u32);
    let b = rest * (game_rule.color_from.b as u32) + d * (game_rule.color_to.b as u32);
    (r, g, b, HALF_GAME_SIZE as u32)
}

/// Enumerates the live cells of the grid, in index order, each with its
/// position and blended color — what the rendering collaborator consumes
/// every frame.
pub fn feed_cells(cell_locations: &Vec<bool>, game_rule: &GameRule) -> (instances: Vec<
    CellInstance,
>)
    requires
        cell_locations@.len() == CELL_LOCATIONS_SIZE,
    ensures
        instances@ == render_seq(cell_locations@, *game_rule, CELL_LOCATIONS_SIZE as int),
{
    let mut instances: Vec<CellInstance> = Vec::new();
    let mut i: usize = 0;
    while i < CELL_LOCATIONS_SIZE
        invariant
            cell_locations@.len() == CELL_LOCATIONS_SIZE,
            i <= CELL_LOCATIONS_SIZE,
            instances@ == render_seq(cell_locations@, *game_rule, i as int),
        decreases CELL_LOCATIONS_SIZE - i,
    {
        if cell_locations[i] {
            let (x, y, z) = translate_index_to_location(i);
            let (r, g, b, a) = blend(x, y, z, game_rule);
            let instance = CellInstance { x, y, z, r, g, b, a };
            assert(instance == instance_at(*game_rule, i as int));
            instances.push(instance);
        }
        i = i + 1;
    }
    instances
}

} // verus!
