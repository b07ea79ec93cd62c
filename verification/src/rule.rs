//! The rule engine: survive/spawn lookup tables keyed by neighbor count,
//! gradient colors, and noise-spawn parameters.  Pure configuration, read
//! by the step scheduler and the renderer.

use vstd::prelude::*;

verus! {

/// A color with integer channels on a 0..=255 scale.
#[derive(Clone, Copy, PartialEq, Eq, Structural, Debug)]
pub struct CellColor {
    pub r: u8,
    pub g: u8,
    pub b: u8,
}

/// The automaton's configuration: which neighbor counts let a live cell
/// survive, which make a dead cell spawn, how much noise to seed on demand,
/// and the two endpoints of the rendering gradient.
///
/// A cell has at most 26 neighbors, so each table has exactly 27 entries
/// and a neighbor count always indexes it in bounds.
pub struct GameRule {
    pub neighbors_to_surive: [bool; 27],
    pub neighbors_to_spawn: [bool; 27],
    pub spawn_noise_count: i32,
    pub spawn_noise_radius: i32,
    pub color_from: CellColor,
    pub color_to: CellColor,
}

/// The default survive table: a live cell stays alive on 5 to 8 neighbors.
pub open spec fn default_survive(n: int) -> bool {
    5 <= n <= 8
}

/// The default spawn table: a dead cell comes alive on 6, 7 or 9 neighbors.
pub open spec fn default_spawn(n: int) -> bool {
    n == 6 || n == 7 || n == 9
}

impl GameRule {
    /// Builds the dense 27-entry lookup table whose true entries are
    /// exactly the listed neighbor counts.
    pub fn to_dense_array(vc: &[u8]) -> (ar: [bool; 27])
        requires
            forall|j: int| 0 <= j < vc@.len() ==> vc@[j] < 27,
        ensures
            forall|n: int| 0 <= n < 27
                ==> (ar@[n] <==> (exists|j: int| 0 <= j < vc@.len() && vc@[j] == n)),
    {
        let mut ar = [false; 27];
        assert(forall|n: int| 0 <= n < 27 ==> !ar@[n]);
        let mut i: usize = 0;
        while i < vc.len()
            invariant
                i <= vc@.len(),
                forall|j: int| 0 <= j < vc@.len() ==> vc@[j] < 27,
                ar@.len() == 27,
                forall|n: int| 0 <= n < 27
                    ==> (ar@[n] <==> (exists|j: int| 0 <= j < i && vc@[j] == n)),
            decreases vc@.len() - i,
        {
            let c = vc[i];
            ar[c as usize] = true;
            i = i + 1;
        }
        ar
    }

    /// The default configuration: survive on {5,6,7,8}, spawn on {6,7,9},
    /// 50,000 noise points within radius 75, and a yellow-to-blue gradient.
    pub fn default() -> (rule: GameRule)
        ensures
            forall|n: int| 0 <= n < 27 ==> (rule.neighbors_to_surive@[n] <==> default_survive(n)),
            forall|n: int| 0 <= n < 27 ==> (rule.neighbors_to_spawn@[n] <==> default_spawn(n)),
            rule.spawn_noise_count == 50000,
            rule.spawn_noise_radius == 75,
            rule.color_from == (CellColor { r: 255, g: 255, b: 0 }),
            rule.color_to == (CellColor { r: 0, g: 0, b: 255 }),
    {
        let survive_counts: [u8; 4] = [5, 6, 7, 8];
        let spawn_counts: [u8; 3] = [6, 7, 9];
        let neighbors_to_surive = Self::to_dense_array(&survive_counts);
        let neighbors_to_spawn = Self::to_dense_array(&spawn_counts);
        assert(forall|n: int| 0 <= n < 27
            ==> ((exists|j: int| 0 <= j < 4 && survive_counts@[j] == n) <==> default_survive(n)));
        assert(forall|n: int| 0 <= n < 27
            ==> ((exists|j: int| 0 <= j < 3 && spawn_counts@[j] == n) <==> default_spawn(n)));
        GameRule {
            neighbors_to_surive,
            neighbors_to_spawn,
            spawn_noise_count: 50000,
            spawn_noise_radius: 75,
            color_from: CellColor { r: 255, g: 255, b: 0 },
            color_to: CellColor { r: 0, g: 0, b: 255 },
        }
    }
}

} // verus!
