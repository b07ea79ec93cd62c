//! The step scheduler: one synchronous tick of the automaton.
//!
//! The index range is split into contiguous chunks.  Every chunk is scanned
//! against the same pre-tick snapshot of the grid and yields a list of cells
//! to add and a list of cells to remove; only after every chunk has been
//! collected are the lists applied, adds before removes.  Every cell's new
//! state is therefore a function of the snapshot and the rule alone,
//! whatever the chunk size.

use vstd::prelude::*;
use crate::CELL_LOCATIONS_SIZE;
use crate::neighbors::neighbor_count;
use crate::neighbors::get_neighbors;
use crate::rule::GameRule;

verus! {

/// Whether the spawn predicate fires for the cell at index `i`, evaluated
/// against the snapshot `grid`.
pub open spec fn spawn_fires(grid: Seq<bool>, rule: GameRule, i: int) -> bool {
    rule.neighbors_to_spawn@[neighbor_count(grid, i)]
}

/// Whether the survive predicate holds for the cell at index `i`, evaluated
/// against the snapshot `grid`.
pub open spec fn survive_holds(grid: Seq<bool>, rule: GameRule, i: int) -> bool {
    rule.neighbors_to_surive@[neighbor_count(grid, i)]
}

/// The state of the cell at index `i` after one synchronous step evaluated
/// against the snapshot `grid`.  Adds are applied before removes, so when a
/// count fires both predicates the removal wins.
pub open spec fn next_cell(grid: Seq<bool>, rule: GameRule, i: int) -> bool {
    if !survive_holds(grid, rule, i) {
        false
    } else if spawn_fires(grid, rule, i) {
        true
    } else {
        grid[i]
    }
}

/// The whole grid after one synchronous step against the snapshot `grid`.
pub open spec fn next_grid(grid: Seq<bool>, rule: GameRule) -> Seq<bool> {
    Seq::new(grid.len(), |i: int| next_cell(grid, rule, i))
}

/// Whether some entry of the list equals `i`.
pub open spec fn in_list(l: Seq<usize>, i: int) -> bool {
    exists|j: int| 0 <= j < l.len() && l[j] == i
}

/// What a chunk's change lists must hold, relative to the snapshot the
/// chunk was scanned against: the add list holds exactly the indices of
/// the chunk whose count fires the spawn predicate, and the remove list
/// exactly those whose count fails the survive predicate.
pub open spec fn chunk_changes_ok(
    grid: Seq<bool>,
    rule: GameRule,
    adds: Seq<usize>,
    removes: Seq<usize>,
    lo: int,
    hi: int,
) -> bool {
    &&& forall|j: int|
        0 <= j < adds.len() ==> lo <= #[trigger] adds[j] < hi && spawn_fires(
            grid,
            rule,
            adds[j] as int,
        )
    &&& forall|i: int| lo <= i < hi && spawn_fires(grid, rule, i) ==> #[trigger] in_list(adds, i)
    &&& forall|j: int|
        0 <= j < removes.len() ==> lo <= #[trigger] removes[j] < hi && !survive_holds(
            grid,
            rule,
            removes[j] as int,
        )
    &&& forall|i: int|
        lo <= i < hi && !survive_holds(grid, rule, i) ==> #[trigger] in_list(removes, i)
}

/// A list entry stays present when the list grows by `push`.
proof fn lemma_in_list_push(l: Seq<usize>, v: usize, i: int)
    requires
        in_list(l, i),
    ensures
        in_list(l.push(v), i),
{
    let j = choose|j: int| 0 <= j < l.len() && l[j] == i;
    assert(l.push(v)[j] == i);
}

/// Scans the chunk `[lo, hi)` of the grid and collects its add and remove
/// lists, reading the grid only — the read phase of a tick.
pub fn collect_cell_changes(
    cell_locations: &Vec<bool>,
    game_rule: &GameRule,
    lo: usize,
    hi: usize,
) -> (changes: (Vec<usize>, Vec<usize>))
    requires
        cell_locations@.len() == CELL_LOCATIONS_SIZE,
        lo <= hi <= CELL_LOCATIONS_SIZE,
    ensures
        chunk_changes_ok(
            cell_locations@,
            *game_rule,
            changes.0@,
            changes.1@,
            lo as int,
            hi as int,
        ),
{
    let mut cells_to_add: Vec<usize> = Vec::new();
    let mut cells_to_remove: Vec<usize> = Vec::new();
    let mut i: usize = lo;
    while i < hi
        invariant
            cell_locations@.len() == CELL_LOCATIONS_SIZE,
            lo <= i <= hi <= CELL_LOCATIONS_SIZE,
            chunk_changes_ok(
                cell_locations@,
                *game_rule,
                cells_to_add@,
                cells_to_remove@,
                lo as int,
                i as int,
            ),
        decreases hi - i,
    {
        let ghost pre_adds = cells_to_add@;
        let ghost pre_removes = cells_to_remove@;
        let count = get_neighbors(i, cell_locations);
        if game_rule.neighbors_to_spawn[count] {
            cells_to_add.push(i);
        }
        if !game_rule.neighbors_to_surive[count] {
            cells_to_remove.push(i);
        }
        proof {
            assert forall|x: int|
                lo <= x < i + 1 && spawn_fires(cell_locations@, *game_rule, x) implies #[trigger]
            in_list(cells_to_add@, x) by {
                if x < i {
                    if cells_to_add@ =~= pre_adds {
                    } else {
                        lemma_in_list_push(pre_adds, i, x);
                    }
                } else {
                    assert(cells_to_add@[cells_to_add@.len() - 1] == i);
                }
            }
            assert forall|x: int|
                lo <= x < i + 1 && !survive_holds(cell_locations@, *game_rule, x) implies #[trigger]
            in_list(cells_to_remove@, x) by {
                if x < i {
                    if cells_to_remove@ =~= pre_removes {
                    } else {
                        lemma_in_list_push(pre_removes, i, x);
                    }
                } else {
                    assert(cells_to_remove@[cells_to_remove@.len() - 1] == i);
                }
            }
        }
        i = i + 1;
    }
    (cells_to_add, cells_to_remove)
}

/// Applies one chunk's change lists to the grid, adds before removes —
/// part of the write phase of a tick.  The chunk must have been collected
/// against `snapshot`, and the grid must still agree with `snapshot` on
/// every index the chunk may touch.
fn apply_chunk(
    cell_locations: &mut Vec<bool>,
    cells_to_add: &Vec<usize>,
    cells_to_remove: &Vec<usize>,
    Ghost(snapshot): Ghost<Seq<bool>>,
    Ghost(rule): Ghost<GameRule>,
    Ghost(lo): Ghost<int>,
    Ghost(hi): Ghost<int>,
)
    requires
        old(cell_locations)@.len() == CELL_LOCATIONS_SIZE,
        snapshot.len() == CELL_LOCATIONS_SIZE,
        0 <= lo <= hi <= CELL_LOCATIONS_SIZE,
        chunk_changes_ok(snapshot, rule, cells_to_add@, cells_to_remove@, lo, hi),
        forall|i: int| lo <= i < hi ==> old(cell_locations)@[i] == snapshot[i],
    ensures
        final(cell_locations)@.len() == CELL_LOCATIONS_SIZE,
        forall|i: int| 0 <= i < lo ==> final(cell_locations)@[i] == old(cell_locations)@[i],
        forall|i: int| lo <= i < hi ==> final(cell_locations)@[i] == next_cell(snapshot, rule, i),
        forall|i: int|
            hi <= i < CELL_LOCATIONS_SIZE ==> final(cell_locations)@[i] == old(cell_locations)@[i],
{
    let ghost pre = cell_locations@;
    let mut j: usize = 0;
    while j < cells_to_add.len()
        invariant
            cell_locations@.len() == CELL_LOCATIONS_SIZE,
            j <= cells_to_add@.len(),
            0 <= lo <= hi <= CELL_LOCATIONS_SIZE,
            chunk_changes_ok(snapshot, rule, cells_to_add@, cells_to_remove@, lo, hi),
            forall|jj: int| 0 <= jj < j ==> cell_locations@[cells_to_add@[jj] as int],
            forall|i: int|
                0 <= i < CELL_LOCATIONS_SIZE && !in_list(cells_to_add@.take(j as int), i)
                    ==> cell_locations@[i] == pre[i],
        decreases cells_to_add@.len() - j,
    {
        let idx = cells_to_add[j];
        cell_locations.set(idx, true);
        proof {
            assert forall|i: int|
                0 <= i < CELL_LOCATIONS_SIZE && !in_list(
                    cells_to_add@.take(j + 1 as int),
                    i,
                ) implies cell_locations@[i] == pre[i] by {
                assert(!in_list(cells_to_add@.take(j as int), i)) by {
                    if in_list(cells_to_add@.take(j as int), i) {
                        let w = choose|w: int|
                            0 <= w < j && cells_to_add@.take(j as int)[w] == i;
                        assert(cells_to_add@.take(j + 1 as int)[w] == i);
                    }
                }
                assert(cells_to_add@.take(j + 1 as int)[j as int] == idx);
            }
        }
        j = j + 1;
    }
    assert(cells_to_add@.take(cells_to_add@.len() as int) =~= cells_to_add@);
    let ghost mid = cell_locations@;
    let mut j: usize = 0;
    while j < cells_to_remove.len()
        invariant
            cell_locations@.len() == CELL_LOCATIONS_SIZE,
            j <= cells_to_remove@.len(),
            0 <= lo <= hi <= CELL_LOCATIONS_SIZE,
            chunk_changes_ok(snapshot, rule, cells_to_add@, cells_to_remove@, lo, hi),
            forall|jj: int| 0 <= jj < j ==> !cell_locations@[cells_to_remove@[jj] as int],
            forall|i: int|
                0 <= i < CELL_LOCATIONS_SIZE && !in_list(cells_to_remove@.take(j as int), i)
                    ==> cell_locations@[i] == mid[i],
        decreases cells_to_remove@.len() - j,
    {
        let idx = cells_to_remove[j];
        cell_locations.set(idx, false);
        proof {
            assert forall|i: int|
                0 <= i < CELL_LOCATIONS_SIZE && !in_list(
                    cells_to_remove@.take(j + 1 as int),
                    i,
                ) implies cell_locations@[i] == mid[i] by {
                assert(!in_list(cells_to_remove@.take(j as int), i)) by {
                    if in_list(cells_to_remove@.take(j as int), i) {
                        let w = choose|w: int|
                            0 <= w < j && cells_to_remove@.take(j as int)[w] == i;
                        assert(cells_to_remove@.take(j + 1 as int)[w] == i);
                    }
                }
                assert(cells_to_remove@.take(j + 1 as int)[j as int] == idx);
            }
        }
        j = j + 1;
    }
    assert(cells_to_remove@.take(cells_to_remove@.len() as int) =~= cells_to_remove@);
    proof {
        assert forall|i: int| 0 <= i < CELL_LOCATIONS_SIZE implies cell_locations@[i] == (
        if lo <= i < hi {
            next_cell(snapshot, rule, i)
        } else {
            pre[i]
        }) by {
            if lo <= i < hi && !survive_holds(snapshot, rule, i) {
                assert(in_list(cells_to_remove@, i));
                let w = choose|w: int|
                    0 <= w < cells_to_remove@.len() && cells_to_remove@[w] == i;
                assert(!cell_locations@[cells_to_remove@[w] as int]);
            } else {
                assert(!in_list(cells_to_remove@, i)) by {
                    if in_list(cells_to_remove@, i) {
                        let w = choose|w: int|
                            0 <= w < cells_to_remove@.len() && cells_to_remove@[w] == i;
                        assert(!survive_holds(snapshot, rule, cells_to_remove@[w] as int));
                    }
                }
                if lo <= i < hi && spawn_fires(snapshot, rule, i) {
                    assert(in_list(cells_to_add@, i));
                    let w = choose|w: int| 0 <= w < cells_to_add@.len() && cells_to_add@[w] == i;
                    assert(mid[cells_to_add@[w] as int]);
                } else {
                    assert(!in_list(cells_to_add@, i)) by {
                        if in_list(cells_to_add@, i) {
                            let w = choose|w: int|
                                0 <= w < cells_to_add@.len() && cells_to_add@[w] == i;
                            assert(spawn_fires(snapshot, rule, cells_to_add@[w] as int));
                        }
                    }
                }
            }
        }
    }
}

/// One synchronous tick over chunks of the given size: the whole index
/// range is scanned against the pre-tick snapshot, chunk by chunk, and the
/// collected change lists are applied only afterwards.  The resulting grid
/// is `next_grid` of the snapshot — a function of the snapshot and the rule
/// alone, so the chunk size (and hence any division of the scan among
/// workers) never shows in the outcome.
pub fn step_with_chunk_size(
    cell_locations: &mut Vec<bool>,
    game_rule: &GameRule,
    chunk_size: usize,
)
    requires
        old(cell_locations)@.len() == CELL_LOCATIONS_SIZE,
        chunk_size >= 1,
    ensures
        final(cell_locations)@.len() == CELL_LOCATIONS_SIZE,
        final(cell_locations)@ == next_grid(old(cell_locations)@, *game_rule),
{
    let ghost snapshot = cell_locations@;
    let mut cell_changes: Vec<(Vec<usize>, Vec<usize>)> = Vec::new();
    let ghost mut bounds: Seq<(int, int)> = Seq::empty();
    let mut lo: usize = 0;
    while lo < CELL_LOCATIONS_SIZE
        invariant
            cell_locations@ == snapshot,
            snapshot.len() == CELL_LOCATIONS_SIZE,
            chunk_size >= 1,
            lo <= CELL_LOCATIONS_SIZE,
            bounds.len() == cell_changes@.len(),
            cell_changes@.len() == 0 ==> lo == 0,
            cell_changes@.len() > 0 ==> bounds[0].0 == 0 && bounds[bounds.len() - 1].1 == lo,
            forall|c: int|
                0 <= c < bounds.len() - 1 ==> (#[trigger] bounds[c]).1 == bounds[c + 1].0,
            forall|c: int|
                0 <= c < bounds.len() ==> 0 <= (#[trigger] bounds[c]).0 <= bounds[c].1
                    <= CELL_LOCATIONS_SIZE,
            forall|c: int|
                0 <= c < bounds.len() ==> chunk_changes_ok(
                    snapshot,
                    *game_rule,
                    (#[trigger] cell_changes@[c]).0@,
                    cell_changes@[c].1@,
                    bounds[c].0,
                    bounds[c].1,
                ),
        decreases CELL_LOCATIONS_SIZE - lo,
    {
        let hi = if CELL_LOCATIONS_SIZE - lo < chunk_size {
            CELL_LOCATIONS_SIZE
        } else {
            lo + chunk_size
        };
        let changes = collect_cell_changes(cell_locations, game_rule, lo, hi);
        cell_changes.push(changes);
        proof {
            bounds = bounds.push((lo as int, hi as int));
        }
        lo = hi;
    }
    let ghost mut applied: int = 0;
    let mut c: usize = 0;
    while c < cell_changes.len()
        invariant
            cell_locations@.len() == CELL_LOCATIONS_SIZE,
            snapshot.len() == CELL_LOCATIONS_SIZE,
            c <= cell_changes@.len(),
            bounds.len() == cell_changes@.len(),
            bounds.len() > 0 ==> bounds[0].0 == 0 && bounds[bounds.len() - 1].1
                == CELL_LOCATIONS_SIZE,
            bounds.len() == 0 ==> CELL_LOCATIONS_SIZE == 0,
            forall|cc: int|
                0 <= cc < bounds.len() - 1 ==> (#[trigger] bounds[cc]).1 == bounds[cc + 1].0,
            forall|cc: int|
                0 <= cc < bounds.len() ==> 0 <= (#[trigger] bounds[cc]).0 <= bounds[cc].1
                    <= CELL_LOCATIONS_SIZE,
            forall|cc: int|
                0 <= cc < bounds.len() ==> chunk_changes_ok(
                    snapshot,
                    *game_rule,
                    (#[trigger] cell_changes@[cc]).0@,
                    cell_changes@[cc].1@,
                    bounds[cc].0,
                    bounds[cc].1,
                ),
            applied == if c == 0 {
                0int
            } else {
                bounds[c - 1].1
            },
            forall|i: int| 0 <= i < applied ==> cell_locations@[i] == next_cell(
                snapshot,
                *game_rule,
                i,
            ),
            forall|i: int|
                applied <= i < CELL_LOCATIONS_SIZE ==> cell_locations@[i] == snapshot[i],
        decreases cell_changes@.len() - c,
    {
        let pair = &cell_changes[c];
        apply_chunk(
            cell_locations,
            &pair.0,
            &pair.1,
            Ghost(snapshot),
            Ghost(*game_rule),
            Ghost(bounds[c as int].0),
            Ghost(bounds[c as int].1),
        );
        proof {
            applied = bounds[c as int].1;
        }
        c = c + 1;
    }
    proof {
        assert(cell_locations@ =~= next_grid(snapshot, *game_rule));
    }
}

/// Under the default rule a single isolated live cell dies in one step and
/// spawns nothing: every cell's neighbor count is at most 1, and neither
/// the survive nor the spawn table holds at 0 or 1, so the whole grid is
/// empty afterwards.
pub proof fn lemma_single_cell_dies(grid: Seq<bool>, rule: GameRule, c: int)
    requires
        grid.len() == CELL_LOCATIONS_SIZE,
        forall|i: int| crate::grid::valid_index(i) ==> (grid[i] <==> i == c),
        crate::grid::valid_index(c),
        forall|n: int|
            0 <= n < 27 ==> (rule.neighbors_to_surive@[n] <==> crate::rule::default_survive(n)),
    ensures
        forall|i: int| crate::grid::valid_index(i) ==> !next_grid(grid, rule)[i],
{
    assert forall|i: int| crate::grid::valid_index(i) implies !next_grid(grid, rule)[i] by {
        crate::neighbors::lemma_single_cell_count(grid, c, i);
        let nc = neighbor_count(grid, i);
        assert(0 <= nc <= 1);
        assert(rule.neighbors_to_surive@[nc] <==> crate::rule::default_survive(nc));
        assert(!survive_holds(grid, rule, i));
    }
}

/// One tick of the automaton: a no-op when paused, otherwise one
/// synchronous step over 32 chunks, exactly as if the whole grid had been
/// evaluated at once against the pre-tick snapshot.
pub fn cell_location_updater(cell_locations: &mut Vec<bool>, game_rule: &GameRule, paused: bool)
    requires
        old(cell_locations)@.len() == CELL_LOCATIONS_SIZE,
    ensures
        final(cell_locations)@.len() == CELL_LOCATIONS_SIZE,
        paused ==> final(cell_locations)@ == old(cell_locations)@,
        !paused ==> final(cell_locations)@ == next_grid(old(cell_locations)@, *game_rule),
{
    if paused {
        return ;
    }
    step_with_chunk_size(cell_locations, game_rule, CELL_LOCATIONS_SIZE / 32);
}

} // verus!
