use vstd::prelude::*;
use std::collections::HashMap;
use crate::stages::{EnemyPlacement, EnemyType};
use crate::terrain::{Terrain, TerrainColumn, leveled_around};

verus! {

broadcast use vstd::std_specs::hash::group_hash_axioms;

/// How one placement of a stage is spawned.
///
/// `row` is the row the enemy starts on when the terrain decides it
/// (floor-mounted enemies and turrets); `None` leaves the height to the
/// caller. `alive` is false for a rocket that a fuel tank placed later
/// pushed out.
#[derive(Clone, Copy, Debug, PartialEq, Eq, Structural)]
pub struct SpawnPlan {
    pub world_col: usize,
    pub placement: EnemyPlacement,
    pub row: Option<usize>,
    pub alive: bool,
}

/// Floor columns taken so far, with the plan index and type of the enemy on
/// each.
pub type Occupied = Map<usize, (usize, EnemyType)>;

/// The scan of the columns `c..=hi` around a new floor enemy at `world_col`:
/// a rocket there is pushed out by a new fuel tank; a fuel tank there keeps
/// a new rocket out; any enemy on the same column keeps a new one out.
/// Gives the updated columns and plans, and whether the new enemy is kept
/// out.
pub open spec fn scan_floor(
    occ: Occupied,
    plans: Seq<SpawnPlan>,
    ty: EnemyType,
    world_col: int,
    c: int,
    hi: int,
) -> (Occupied, Seq<SpawnPlan>, bool)
    decreases hi + 1 - c,
{
    if c > hi || c < 0 {
        (occ, plans, false)
    } else if occ.contains_key(c as usize) {
        let (idx, other) = occ[c as usize];
        if ty == EnemyType::FuelTank && other == EnemyType::Rocket {
            let killed = if idx < plans.len() { plans.update(idx as int, SpawnPlan { alive: false, ..plans[idx as int] }) } else { plans };
            scan_floor(occ.remove(c as usize), killed, ty, world_col, c + 1, hi)
        } else if (ty == EnemyType::Rocket && other == EnemyType::FuelTank) || c == world_col {
            (occ, plans, true)
        } else {
            scan_floor(occ, plans, ty, world_col, c + 1, hi)
        }
    } else {
        scan_floor(occ, plans, ty, world_col, c + 1, hi)
    }
}

/// The world column a spawn reads the terrain at: its own, or the last
/// column when it lies past the end.
pub open spec fn terrain_col(world_col: int, width: int) -> int {
    let last = if width > 0 { width - 1 } else { 0 };
    if world_col < last { world_col } else { last }
}

/// The row a floor enemy starts on: just above the floor of its column,
/// three rows above the bottom where there is no terrain.
pub open spec fn floor_row(cols: Seq<TerrainColumn>, col: int, viewport_h: int) -> int {
    if col < cols.len() {
        let top = if viewport_h > cols[col].floor { viewport_h - cols[col].floor } else { 0 };
        if top > 0 { top - 1 } else { 0 }
    } else {
        viewport_h - 3
    }
}

/// One placement spawned: the state is the taken floor columns, the plans
/// so far and the terrain columns.
pub open spec fn spawn_step(
    st: (Occupied, Seq<SpawnPlan>, Seq<TerrainColumn>),
    p: EnemyPlacement,
    col_offset: int,
    viewport_h: int,
) -> (Occupied, Seq<SpawnPlan>, Seq<TerrainColumn>) {
    let (occ, plans, cols) = st;
    let wc = p.col_offset + col_offset;
    let col = terrain_col(wc, cols.len() as int);
    if p.on_floor {
        let lo = if wc >= 3 { wc - 3 } else { 0 };
        let (occ2, plans2, kept_out) = scan_floor(occ, plans, p.enemy_type, wc, lo, wc + 3);
        if kept_out {
            (occ2, plans2, cols)
        } else {
            let plan = SpawnPlan {
                world_col: wc as usize,
                placement: p,
                row: Some(floor_row(cols, col, viewport_h) as usize),
                alive: true,
            };
            let cols2 = if p.enemy_type == EnemyType::Rocket || p.enemy_type == EnemyType::FuelTank {
                leveled_around(cols, col)
            } else {
                cols
            };
            (occ2.insert(wc as usize, (plans2.len() as usize, p.enemy_type)), plans2.push(plan), cols2)
        }
    } else {
        let row = if p.enemy_type == EnemyType::Turret {
            Some(if col < cols.len() { cols[col].ceiling } else { 2usize })
        } else {
            None
        };
        (occ, plans.push(SpawnPlan { world_col: wc as usize, placement: p, row, alive: true }), cols)
    }
}

/// The state after spawning the first `n` placements.
pub open spec fn spawn_fold(
    ps: Seq<EnemyPlacement>,
    n: int,
    cols: Seq<TerrainColumn>,
    col_offset: int,
    viewport_h: int,
) -> (Occupied, Seq<SpawnPlan>, Seq<TerrainColumn>)
    decreases n,
{
    if n <= 0 {
        (Map::empty(), Seq::empty(), cols)
    } else {
        spawn_step(spawn_fold(ps, n - 1, cols, col_offset, viewport_h), ps[n - 1], col_offset, viewport_h)
    }
}

/// Plans the enemies of a stage whose columns start at `col_offset`, and
/// levels the floor around floor-mounted rockets and fuel tanks. Fuel is
/// favoured: a fuel tank within three columns of a rocket pushes the rocket
/// out, a rocket within three columns of a fuel tank is not placed, and no
/// two floor enemies share a column.
pub fn plan_spawns(terrain: &mut Terrain, placements: &Vec<EnemyPlacement>, col_offset: usize, viewport_h: usize)
    -> (plans: Vec<SpawnPlan>)
    requires
        old(terrain).columns@.len() > 0 || viewport_h >= 3,
        forall|i: int| 0 <= i < placements@.len() ==> #[trigger] placements@[i].col_offset + col_offset + 3 <= usize::MAX,
    ensures
        plans@ == spawn_fold(placements@, placements@.len() as int, old(terrain).columns@, col_offset as int,
            viewport_h as int).1,
        final(terrain).columns@ == spawn_fold(placements@, placements@.len() as int, old(terrain).columns@,
            col_offset as int, viewport_h as int).2,
{
    let ghost cols0 = terrain.columns@;
    let mut occupied: HashMap<usize, (usize, EnemyType)> = HashMap::new();
    let mut plans: Vec<SpawnPlan> = Vec::new();
    let n = placements.len();
    let mut i: usize = 0;
    assert(vstd::std_specs::hash::obeys_key_model::<usize>());
    assert(vstd::std_specs::hash::builds_valid_hashers::<std::hash::RandomState>());
    while i < n
        invariant
            n == placements@.len(),
            i <= n,
            cols0.len() > 0 || viewport_h >= 3,
            terrain.columns@.len() == cols0.len(),
            forall|k: int| 0 <= k < placements@.len() ==> #[trigger] placements@[k].col_offset + col_offset + 3 <= usize::MAX,
            vstd::std_specs::hash::obeys_key_model::<usize>(),
            vstd::std_specs::hash::builds_valid_hashers::<std::hash::RandomState>(),
            (occupied@, plans@, terrain.columns@) == spawn_fold(placements@, i as int, cols0, col_offset as int,
                viewport_h as int),
            forall|c: usize| #[trigger] occupied@.contains_key(c) ==> occupied@[c].0 < plans@.len(),
        decreases n - i,
    {
        let p = placements[i];
        let world_col = p.col_offset + col_offset;
        let ghost before = (occupied@, plans@, terrain.columns@);
        proof { lemma_leveled_len(terrain.columns@); }
        let width = terrain.total_width();
        let col = if world_col < (if width > 0 { width - 1 } else { 0 }) { world_col } else if width > 0 { width - 1 } else { 0 };
        if p.on_floor {
            let lo = if world_col >= 3 { world_col - 3 } else { 0 };
            let hi = world_col + 3;
            let mut c = lo;
            let mut kept_out = false;
            while c <= hi
                invariant_except_break
                    !kept_out,
                invariant
                    lo <= c <= hi,
                    hi == world_col + 3,
                    vstd::std_specs::hash::obeys_key_model::<usize>(),
                    vstd::std_specs::hash::builds_valid_hashers::<std::hash::RandomState>(),
                    scan_floor(before.0, before.1, p.enemy_type, world_col as int, lo as int, hi as int)
                        == scan_floor(occupied@, plans@, p.enemy_type, world_col as int, c as int, hi as int),
                    plans@.len() == before.1.len(),
                    forall|k: usize| #[trigger] occupied@.contains_key(k) ==> occupied@[k].0 < plans@.len(),
                    terrain.columns@ == before.2,
                ensures
                    kept_out ==> scan_floor(before.0, before.1, p.enemy_type, world_col as int, lo as int, hi as int)
                        == (occupied@, plans@, true),
                    !kept_out ==> scan_floor(before.0, before.1, p.enemy_type, world_col as int, lo as int, hi as int)
                        == (occupied@, plans@, false),
                    plans@.len() == before.1.len(),
                    forall|k: usize| #[trigger] occupied@.contains_key(k) ==> occupied@[k].0 < plans@.len(),
                    terrain.columns@ == before.2,
                decreases hi + 1 - c,
            {
                let found = match occupied.get(&c) {
                    Some(v) => Some(*v),
                    None => None,
                };
                match found {
                    Some((existing_idx, existing_type)) => {
                        if p.enemy_type == EnemyType::FuelTank && existing_type == EnemyType::Rocket {
                            let mut killed = plans[existing_idx];
                            killed.alive = false;
                            plans.set(existing_idx, killed);
                            occupied.remove(&c);
                        } else if p.enemy_type == EnemyType::Rocket && existing_type == EnemyType::FuelTank {
                            kept_out = true;
                        } else if c == world_col {
                            kept_out = true;
                        }
                    },
                    None => {},
                }
                if kept_out {
                    break;
                }
                if c == hi {
                    assert(scan_floor(before.0, before.1, p.enemy_type, world_col as int, lo as int, hi as int)
                        == scan_floor(occupied@, plans@, p.enemy_type, world_col as int, c + 1, hi as int));
                    assert(scan_floor(occupied@, plans@, p.enemy_type, world_col as int, c + 1, hi as int)
                        == (occupied@, plans@, false));
                    break;
                }
                c = c + 1;
            }
            if !kept_out {
                let row = match terrain.get_at(col) {
                    Some(tc) => viewport_h.saturating_sub(tc.floor).saturating_sub(1),
                    None => viewport_h - 3,
                };
                let idx = plans.len();
                plans.push(SpawnPlan { world_col, placement: p, row: Some(row), alive: true });
                occupied.insert(world_col, (idx, p.enemy_type));
                if p.enemy_type == EnemyType::Rocket || p.enemy_type == EnemyType::FuelTank {
                    terrain.level_floor_around(col);
                }
            }
        } else {
            let row = if p.enemy_type == EnemyType::Turret {
                match terrain.get_at(col) {
                    Some(tc) => Some(tc.ceiling),
                    None => Some(2usize),
                }
            } else {
                None
            };
            plans.push(SpawnPlan { world_col, placement: p, row, alive: true });
        }
        i = i + 1;
    }
    plans
}

/// A plan that stands on the floor in the finished stage.
pub open spec fn standing(p: SpawnPlan) -> bool {
    p.alive && p.placement.on_floor
}

/// What spawning keeps true: the taken columns are exactly those of the
/// standing plans, each with its plan's index and type, and no standing
/// rocket is within three columns of a standing fuel tank.
spec fn occupancy_ok(occ: Occupied, plans: Seq<SpawnPlan>) -> bool {
    &&& forall|c: usize| #[trigger] occ.contains_key(c) ==> {
        let (idx, ty) = occ[c];
        &&& idx < plans.len()
        &&& standing(plans[idx as int])
        &&& plans[idx as int].world_col == c
        &&& plans[idx as int].placement.enemy_type == ty
    }
    &&& forall|i: int| 0 <= i < plans.len() && #[trigger] standing(plans[i]) ==> {
        &&& occ.contains_key(plans[i].world_col)
        &&& occ[plans[i].world_col].0 == i
    }
    &&& forall|i: int, j: int| 0 <= i < plans.len() && 0 <= j < plans.len()
        && #[trigger] standing(plans[i]) && #[trigger] standing(plans[j])
        && plans[i].placement.enemy_type == EnemyType::Rocket
        && plans[j].placement.enemy_type == EnemyType::FuelTank
        ==> apart(plans[i].world_col as int, plans[j].world_col as int)
}

/// More than three columns apart.
pub open spec fn apart(a: int, b: int) -> bool {
    a + 3 < b || b + 3 < a
}

/// The scan of `c..=hi` keeps the invariant, only marks plans as no longer
/// standing, only forgets columns, and when it lets the new enemy in, leaves
/// no taken column in the range that would keep it out.
proof fn lemma_scan_floor(occ: Occupied, plans: Seq<SpawnPlan>, ty: EnemyType, world_col: int, c: int, hi: int)
    requires
        occupancy_ok(occ, plans),
        0 <= c,
        hi <= usize::MAX,
    ensures
        ({
            let (occ2, plans2, kept_out) = scan_floor(occ, plans, ty, world_col, c, hi);
            &&& occupancy_ok(occ2, plans2)
            &&& plans2.len() == plans.len()
            &&& forall|i: int| 0 <= i < plans.len() ==> (#[trigger] plans2[i]).world_col == plans[i].world_col
                && plans2[i].placement == plans[i].placement
                && (!plans[i].placement.on_floor ==> plans2[i] == plans[i])
            &&& forall|k: usize| #[trigger] occ2.contains_key(k) ==> occ.contains_key(k) && occ2[k] == occ[k]
            &&& !kept_out ==> forall|k: int| c <= k <= hi && #[trigger] occ2.contains_key(k as usize) ==> {
                &&& k != world_col
                &&& !(ty == EnemyType::FuelTank && occ2[k as usize].1 == EnemyType::Rocket)
                &&& !(ty == EnemyType::Rocket && occ2[k as usize].1 == EnemyType::FuelTank)
            }
        }),
    decreases hi + 1 - c,
{
    if c > hi {
    } else if occ.contains_key(c as usize) {
        let (idx, other) = occ[c as usize];
        if ty == EnemyType::FuelTank && other == EnemyType::Rocket {
            let killed = plans.update(idx as int, SpawnPlan { alive: false, ..plans[idx as int] });
            let occ1 = occ.remove(c as usize);
            assert(occupancy_ok(occ1, killed)) by {
                assert forall|k: usize| #[trigger] occ1.contains_key(k) implies ({
                    let (i2, t2) = occ1[k];
                    &&& i2 < killed.len()
                    &&& standing(killed[i2 as int])
                    &&& killed[i2 as int].world_col == k
                    &&& killed[i2 as int].placement.enemy_type == t2
                }) by {
                    assert(occ.contains_key(k));
                    assert(k != c as usize);
                    assert(occ[k].0 != idx);
                }
                assert forall|i: int| 0 <= i < killed.len() && #[trigger] standing(killed[i]) implies ({
                    &&& occ1.contains_key(killed[i].world_col)
                    &&& occ1[killed[i].world_col].0 == i
                }) by {
                    assert(i != idx);
                    assert(standing(plans[i]));
                }
                assert forall|i: int, j: int| 0 <= i < killed.len() && 0 <= j < killed.len()
                    && #[trigger] standing(killed[i]) && #[trigger] standing(killed[j])
                    && killed[i].placement.enemy_type == EnemyType::Rocket
                    && killed[j].placement.enemy_type == EnemyType::FuelTank
                    implies apart(killed[i].world_col as int, killed[j].world_col as int) by {
                    assert(i != idx && j != idx);
                    assert(standing(plans[i]) && standing(plans[j]));
                }
            }
            lemma_scan_floor(occ1, killed, ty, world_col, c + 1, hi);
        } else if (ty == EnemyType::Rocket && other == EnemyType::FuelTank) || c == world_col {
        } else {
            lemma_scan_floor(occ, plans, ty, world_col, c + 1, hi);
        }
    } else {
        lemma_scan_floor(occ, plans, ty, world_col, c + 1, hi);
    }
}

/// Spawning one placement keeps the invariant.
proof fn lemma_spawn_step(st: (Occupied, Seq<SpawnPlan>, Seq<TerrainColumn>), p: EnemyPlacement, col_offset: int,
    viewport_h: int)
    requires
        occupancy_ok(st.0, st.1),
        st.1.len() < usize::MAX,
        0 <= col_offset,
        p.col_offset + col_offset + 3 <= usize::MAX,
    ensures
        occupancy_ok(spawn_step(st, p, col_offset, viewport_h).0, spawn_step(st, p, col_offset, viewport_h).1),
        spawn_step(st, p, col_offset, viewport_h).1.len() <= st.1.len() + 1,
{
    let (occ, plans, cols) = st;
    let wc = p.col_offset + col_offset;
    if p.on_floor {
        let lo = if wc >= 3 { wc - 3 } else { 0 };
        lemma_scan_floor(occ, plans, p.enemy_type, wc, lo, wc + 3);
        let (occ2, plans2, kept_out) = scan_floor(occ, plans, p.enemy_type, wc, lo, wc + 3);
        if !kept_out {
            let col = terrain_col(wc, cols.len() as int);
            let plan = SpawnPlan {
                world_col: wc as usize,
                placement: p,
                row: Some(floor_row(cols, col, viewport_h) as usize),
                alive: true,
            };
            let n = plans2.len();
            let occ3 = occ2.insert(wc as usize, (n as usize, p.enemy_type));
            let plans3 = plans2.push(plan);
            assert(!occ2.contains_key(wc as usize));
            assert forall|k: usize| #[trigger] occ3.contains_key(k) implies ({
                let (i2, t2) = occ3[k];
                &&& i2 < plans3.len()
                &&& standing(plans3[i2 as int])
                &&& plans3[i2 as int].world_col == k
                &&& plans3[i2 as int].placement.enemy_type == t2
            }) by {
                if k != wc as usize {
                    assert(occ2.contains_key(k));
                }
            }
            assert forall|i: int| 0 <= i < plans3.len() && #[trigger] standing(plans3[i]) implies ({
                &&& occ3.contains_key(plans3[i].world_col)
                &&& occ3[plans3[i].world_col].0 == i
            }) by {
                if i < n {
                    assert(standing(plans2[i]));
                    assert(occ2.contains_key(plans2[i].world_col));
                }
            }
            assert forall|i: int, j: int| 0 <= i < plans3.len() && 0 <= j < plans3.len()
                && #[trigger] standing(plans3[i]) && #[trigger] standing(plans3[j])
                && plans3[i].placement.enemy_type == EnemyType::Rocket
                && plans3[j].placement.enemy_type == EnemyType::FuelTank
                implies apart(plans3[i].world_col as int, plans3[j].world_col as int) by {
                if i < n && j < n {
                    assert(standing(plans2[i]) && standing(plans2[j]));
                } else if i == n && j < n {
                    let f = plans2[j].world_col;
                    assert(standing(plans2[j]));
                    assert(occ2.contains_key(f));
                    assert(occ2[f].0 == j);
                    assert(occ2[f].1 == EnemyType::FuelTank);
                    assert((f as int) as usize == f);
                    if !apart(wc, f as int) {
                        assert(lo <= f as int <= wc + 3);
                        assert(occ2.contains_key((f as int) as usize));
                    }
                } else if j == n && i < n {
                    let r = plans2[i].world_col;
                    assert(standing(plans2[i]));
                    assert(occ2.contains_key(r));
                    assert(occ2[r].0 == i);
                    assert(occ2[r].1 == EnemyType::Rocket);
                    assert((r as int) as usize == r);
                    if !apart(r as int, wc) {
                        assert(lo <= r as int <= wc + 3);
                        assert(occ2.contains_key((r as int) as usize));
                    }
                }
            }
            assert(spawn_step(st, p, col_offset, viewport_h).0 == occ3);
            assert(spawn_step(st, p, col_offset, viewport_h).1 == plans3);
        }
    } else {
        let row = if p.enemy_type == EnemyType::Turret {
            Some(if terrain_col(wc, cols.len() as int) < cols.len() { cols[terrain_col(wc, cols.len() as int)].ceiling } else { 2usize })
        } else {
            None
        };
        let plans3 = plans.push(SpawnPlan { world_col: wc as usize, placement: p, row, alive: true });
        assert forall|i: int| 0 <= i < plans3.len() && #[trigger] standing(plans3[i]) implies ({
            &&& occ.contains_key(plans3[i].world_col)
            &&& occ[plans3[i].world_col].0 == i
        }) by {
            assert(i < plans.len());
            assert(standing(plans[i]));
        }
        assert forall|i: int, j: int| 0 <= i < plans3.len() && 0 <= j < plans3.len()
            && #[trigger] standing(plans3[i]) && #[trigger] standing(plans3[j])
            && plans3[i].placement.enemy_type == EnemyType::Rocket
            && plans3[j].placement.enemy_type == EnemyType::FuelTank
            implies apart(plans3[i].world_col as int, plans3[j].world_col as int) by {
            assert(standing(plans[i]) && standing(plans[j]));
        }
        assert(spawn_step(st, p, col_offset, viewport_h).1 == plans3);
    }
}

proof fn lemma_spawn_fold(ps: Seq<EnemyPlacement>, n: int, cols: Seq<TerrainColumn>, col_offset: int, viewport_h: int)
    requires
        0 <= n <= ps.len(),
        ps.len() <= usize::MAX,
        0 <= col_offset,
        forall|i: int| 0 <= i < ps.len() ==> #[trigger] ps[i].col_offset + col_offset + 3 <= usize::MAX,
    ensures
        occupancy_ok(spawn_fold(ps, n, cols, col_offset, viewport_h).0, spawn_fold(ps, n, cols, col_offset, viewport_h).1),
        spawn_fold(ps, n, cols, col_offset, viewport_h).1.len() <= n,
    decreases n,
{
    if n > 0 {
        lemma_spawn_fold(ps, n - 1, cols, col_offset, viewport_h);
        lemma_spawn_step(spawn_fold(ps, n - 1, cols, col_offset, viewport_h), ps[n - 1], col_offset, viewport_h);
    }
}

/// Floor enemies never share a column, and no rocket stands within three
/// columns of a fuel tank, whatever placements a stage gives.
pub proof fn lemma_floor_spawns_apart(
    placements: Seq<EnemyPlacement>,
    cols: Seq<TerrainColumn>,
    col_offset: int,
    viewport_h: int,
)
    requires
        placements.len() <= usize::MAX,
        0 <= col_offset,
        forall|i: int| 0 <= i < placements.len() ==> #[trigger] placements[i].col_offset + col_offset + 3 <= usize::MAX,
    ensures
        ({
            let plans = spawn_fold(placements, placements.len() as int, cols, col_offset, viewport_h).1;
            &&& forall|i: int, j: int| 0 <= i < j < plans.len() && #[trigger] standing(plans[i])
                && #[trigger] standing(plans[j]) ==> plans[i].world_col != plans[j].world_col
            &&& forall|i: int, j: int| 0 <= i < plans.len() && 0 <= j < plans.len()
                && #[trigger] standing(plans[i]) && #[trigger] standing(plans[j])
                && plans[i].placement.enemy_type == EnemyType::Rocket
                && plans[j].placement.enemy_type == EnemyType::FuelTank
                ==> apart(plans[i].world_col as int, plans[j].world_col as int)
        }),
{
    lemma_spawn_fold(placements, placements.len() as int, cols, col_offset, viewport_h);
}

/// The plans of placements that are not on the floor, in order, each as its
/// column, placement and whether it stands.
pub open spec fn airborne_plans(plans: Seq<SpawnPlan>) -> Seq<(int, EnemyPlacement, bool)>
    decreases plans.len(),
{
    if plans.len() == 0 {
        Seq::empty()
    } else {
        let q = plans.last();
        airborne_plans(plans.drop_last())
            + if q.placement.on_floor { Seq::empty() } else { seq![(q.world_col as int, q.placement, q.alive)] }
    }
}

/// What the first `n` placements that are not on the floor should give: one
/// standing plan each, at its column offset by the stage's.
pub open spec fn airborne_placed(ps: Seq<EnemyPlacement>, n: int, col_offset: int) -> Seq<(int, EnemyPlacement, bool)>
    decreases n,
{
    if n <= 0 {
        Seq::empty()
    } else {
        let p = ps[n - 1];
        airborne_placed(ps, n - 1, col_offset)
            + if p.on_floor { Seq::empty() } else { seq![(p.col_offset + col_offset, p, true)] }
    }
}

/// Plans that differ only in floor plans give the same airborne plans.
proof fn lemma_airborne_same(a: Seq<SpawnPlan>, b: Seq<SpawnPlan>)
    requires
        a.len() == b.len(),
        forall|i: int| 0 <= i < a.len() ==> (#[trigger] b[i]).placement == a[i].placement
            && (!a[i].placement.on_floor ==> b[i] == a[i]),
    ensures
        airborne_plans(a) == airborne_plans(b),
    decreases a.len(),
{
    if a.len() > 0 {
        assert(b.drop_last().len() == a.drop_last().len());
        assert forall|i: int| 0 <= i < a.drop_last().len() implies (#[trigger] b.drop_last()[i]).placement
            == a.drop_last()[i].placement && (!a.drop_last()[i].placement.on_floor ==> b.drop_last()[i] == a.drop_last()[i]) by {
            assert(b[i].placement == a[i].placement);
        }
        lemma_airborne_same(a.drop_last(), b.drop_last());
        assert(b.last().placement == a.last().placement);
    }
}

proof fn lemma_airborne_push(a: Seq<SpawnPlan>, q: SpawnPlan)
    ensures
        airborne_plans(a.push(q)) == airborne_plans(a)
            + if q.placement.on_floor { Seq::empty() } else { seq![(q.world_col as int, q.placement, q.alive)] },
{
    assert(a.push(q).drop_last() =~= a);
}

/// Spawning one placement adds its airborne plan, if it is not on the floor,
/// and leaves the other airborne plans.
proof fn lemma_airborne_step(st: (Occupied, Seq<SpawnPlan>, Seq<TerrainColumn>), p: EnemyPlacement, col_offset: int,
    viewport_h: int)
    requires
        occupancy_ok(st.0, st.1),
        0 <= col_offset,
        p.col_offset + col_offset + 3 <= usize::MAX,
    ensures
        airborne_plans(spawn_step(st, p, col_offset, viewport_h).1) == airborne_plans(st.1)
            + if p.on_floor { Seq::empty() } else { seq![(p.col_offset + col_offset, p, true)] },
{
    let (occ, plans, cols) = st;
    let wc = p.col_offset + col_offset;
    if p.on_floor {
        let lo = if wc >= 3 { wc - 3 } else { 0 };
        lemma_scan_floor(occ, plans, p.enemy_type, wc, lo, wc + 3);
        let (occ2, plans2, kept_out) = scan_floor(occ, plans, p.enemy_type, wc, lo, wc + 3);
        lemma_airborne_same(plans, plans2);
        if !kept_out {
            let col = terrain_col(wc, cols.len() as int);
            let plan = SpawnPlan {
                world_col: wc as usize,
                placement: p,
                row: Some(floor_row(cols, col, viewport_h) as usize),
                alive: true,
            };
            lemma_airborne_push(plans2, plan);
        }
        assert(airborne_plans(st.1) + Seq::<(int, EnemyPlacement, bool)>::empty() =~= airborne_plans(st.1));
    } else {
        let next = spawn_step(st, p, col_offset, viewport_h).1;
        assert(next.drop_last() =~= plans);
        assert(next.last().world_col as int == wc);
    }
}

proof fn lemma_airborne_fold(ps: Seq<EnemyPlacement>, n: int, cols: Seq<TerrainColumn>, col_offset: int, viewport_h: int)
    requires
        0 <= n <= ps.len(),
        ps.len() <= usize::MAX,
        0 <= col_offset,
        forall|i: int| 0 <= i < ps.len() ==> #[trigger] ps[i].col_offset + col_offset + 3 <= usize::MAX,
    ensures
        airborne_plans(spawn_fold(ps, n, cols, col_offset, viewport_h).1) == airborne_placed(ps, n, col_offset),
    decreases n,
{
    if n > 0 {
        lemma_airborne_fold(ps, n - 1, cols, col_offset, viewport_h);
        lemma_spawn_fold(ps, n - 1, cols, col_offset, viewport_h);
        lemma_airborne_step(spawn_fold(ps, n - 1, cols, col_offset, viewport_h), ps[n - 1], col_offset, viewport_h);
    }
}

/// Every placement that is not on the floor gives exactly one plan, in the
/// placements' order, standing, at its column offset by the stage's.
pub proof fn lemma_airborne_spawns(
    placements: Seq<EnemyPlacement>,
    cols: Seq<TerrainColumn>,
    col_offset: int,
    viewport_h: int,
)
    requires
        placements.len() <= usize::MAX,
        0 <= col_offset,
        forall|i: int| 0 <= i < placements.len() ==> #[trigger] placements[i].col_offset + col_offset + 3 <= usize::MAX,
    ensures
        airborne_plans(spawn_fold(placements, placements.len() as int, cols, col_offset, viewport_h).1)
            == airborne_placed(placements, placements.len() as int, col_offset),
{
    lemma_airborne_fold(placements, placements.len() as int, cols, col_offset, viewport_h);
}

/// A scan keeps the number of plans.
proof fn lemma_scan_len(occ: Occupied, plans: Seq<SpawnPlan>, ty: EnemyType, world_col: int, c: int, hi: int)
    ensures
        scan_floor(occ, plans, ty, world_col, c, hi).1.len() == plans.len(),
    decreases hi + 1 - c,
{
    if c > hi || c < 0 {
    } else if occ.contains_key(c as usize) {
        let (idx, other) = occ[c as usize];
        if ty == EnemyType::FuelTank && other == EnemyType::Rocket {
            let killed = if idx < plans.len() { plans.update(idx as int, SpawnPlan { alive: false, ..plans[idx as int] }) } else { plans };
            lemma_scan_len(occ.remove(c as usize), killed, ty, world_col, c + 1, hi);
        } else if (ty == EnemyType::Rocket && other == EnemyType::FuelTank) || c == world_col {
        } else {
            lemma_scan_len(occ, plans, ty, world_col, c + 1, hi);
        }
    } else {
        lemma_scan_len(occ, plans, ty, world_col, c + 1, hi);
    }
}

/// When a rocket or a fuel tank on the floor gets its plan, the floors of
/// the columns on either side of the terrain column it stands on are set to
/// the floor of that column, and no other column changes.
pub proof fn lemma_pad_levelled(ps: Seq<EnemyPlacement>, n: int, cols: Seq<TerrainColumn>, col_offset: int, viewport_h: int)
    requires
        0 < n <= ps.len(),
        ps[n - 1].on_floor,
        ps[n - 1].enemy_type == EnemyType::Rocket || ps[n - 1].enemy_type == EnemyType::FuelTank,
        spawn_fold(ps, n, cols, col_offset, viewport_h).1.len() > spawn_fold(ps, n - 1, cols, col_offset, viewport_h).1.len(),
    ensures
        ({
            let before = spawn_fold(ps, n - 1, cols, col_offset, viewport_h).2;
            let after = spawn_fold(ps, n, cols, col_offset, viewport_h).2;
            let col = terrain_col(ps[n - 1].col_offset + col_offset, before.len() as int);
            &&& after.len() == before.len()
            &&& 0 <= col < before.len() && col > 0 ==> after[col - 1].floor == before[col].floor
            &&& 0 <= col < before.len() && col + 1 < before.len() ==> after[col + 1].floor == before[col].floor
            &&& forall|i: int| 0 <= i < before.len() && i != col - 1 && i != col + 1 ==> #[trigger] after[i] == before[i]
            &&& forall|i: int| 0 <= i < before.len() ==> #[trigger] after[i].ceiling == before[i].ceiling
        }),
{
    let st = spawn_fold(ps, n - 1, cols, col_offset, viewport_h);
    let p = ps[n - 1];
    let wc = p.col_offset + col_offset;
    let lo = if wc >= 3 { wc - 3 } else { 0 };
    lemma_scan_len(st.0, st.1, p.enemy_type, wc, lo, wc + 3);
    let (occ2, plans2, kept_out) = scan_floor(st.0, st.1, p.enemy_type, wc, lo, wc + 3);
    assert(!kept_out);
    let col = terrain_col(wc, st.2.len() as int);
    lemma_leveled_len(st.2);
    if 0 <= col < st.2.len() {
        crate::terrain::lemma_level_then_floor(st.2, col);
    }
}

proof fn lemma_leveled_len(cols: Seq<TerrainColumn>)
    ensures
        forall|c: int| #[trigger] leveled_around(cols, c).len() == cols.len(),
{
}

} // verus!
