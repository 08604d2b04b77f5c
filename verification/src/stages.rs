use vstd::prelude::*;
use crate::color::Color;

verus! {

#[derive(Clone, Copy, Debug, PartialEq, Eq, Structural)]
pub enum UfoPattern {
    SineWave,
    Meteor,
    Bouncer,
    ZSweep,
    Charger,
    FormationWave,
}

#[derive(Clone, Copy, Debug, PartialEq, Eq, Structural)]
pub enum ZoneType {
    OpenSky,
    Mountains,
    CaveEntrance,
    NarrowCave,
    FuelDepot,
    RocketBase,
    BossApproach,
}

#[derive(Clone, Copy, Debug, PartialEq, Eq, Structural)]
pub enum EnemyType {
    Rocket,
    Ufo,
    FuelTank,
    Turret,
}

/// Where and what one enemy of a stage is.
///
/// `formation_slot` is the place (0 to 3) of a formation-wave member in its
/// group, which sets its starting phase to `slot * pi / 3`; it is 0 for
/// everything else. `near_top` marks enemies that spawn at 5% of the
/// viewport height instead of their usual height (meteors).
#[derive(Clone, Copy, Debug, PartialEq, Eq, Structural)]
pub struct EnemyPlacement {
    pub col_offset: usize,
    pub enemy_type: EnemyType,
    pub on_floor: bool,
    pub ufo_pattern: UfoPattern,
    pub formation_slot: usize,
    pub near_top: bool,
}

/// Points for destroying an enemy of this type and flight pattern.
pub open spec fn spec_score_value(enemy_type: EnemyType, ufo_pattern: UfoPattern) -> u32 {
    match enemy_type {
        EnemyType::Rocket => 50,
        EnemyType::Ufo => match ufo_pattern {
            UfoPattern::SineWave => 100,
            UfoPattern::Meteor => 80,
            UfoPattern::Bouncer => 100,
            UfoPattern::ZSweep => 120,
            UfoPattern::Charger => 200,
            UfoPattern::FormationWave => 150,
        },
        EnemyType::FuelTank => 150,
        EnemyType::Turret => 80,
    }
}

pub fn score_value(enemy_type: EnemyType, ufo_pattern: UfoPattern) -> (r: u32)
    ensures
        r == spec_score_value(enemy_type, ufo_pattern),
{
    match enemy_type {
        EnemyType::Rocket => 50,
        EnemyType::Ufo => match ufo_pattern {
            UfoPattern::SineWave => 100,
            UfoPattern::Meteor => 80,
            UfoPattern::Bouncer => 100,
            UfoPattern::ZSweep => 120,
            UfoPattern::Charger => 200,
            UfoPattern::FormationWave => 150,
        },
        EnemyType::FuelTank => 150,
        EnemyType::Turret => 80,
    }
}

// ---------------------------------------------------------------------------
// Single placements
// ---------------------------------------------------------------------------

pub open spec fn ufo_at(col: int, pattern: UfoPattern) -> EnemyPlacement {
    EnemyPlacement { col_offset: col as usize, enemy_type: EnemyType::Ufo, on_floor: false, ufo_pattern: pattern, formation_slot: 0, near_top: false }
}

pub open spec fn rocket_at(col: int) -> EnemyPlacement {
    EnemyPlacement { col_offset: col as usize, enemy_type: EnemyType::Rocket, on_floor: true, ufo_pattern: UfoPattern::SineWave, formation_slot: 0, near_top: false }
}

pub open spec fn turret_at(col: int) -> EnemyPlacement {
    EnemyPlacement { col_offset: col as usize, enemy_type: EnemyType::Turret, on_floor: false, ufo_pattern: UfoPattern::SineWave, formation_slot: 0, near_top: false }
}

pub open spec fn fuel_at(col: int) -> EnemyPlacement {
    EnemyPlacement { col_offset: col as usize, enemy_type: EnemyType::FuelTank, on_floor: true, ufo_pattern: UfoPattern::SineWave, formation_slot: 0, near_top: false }
}

pub open spec fn meteor_at(col: int) -> EnemyPlacement {
    EnemyPlacement { col_offset: col as usize, enemy_type: EnemyType::Ufo, on_floor: false, ufo_pattern: UfoPattern::Meteor, formation_slot: 0, near_top: true }
}

pub open spec fn wing_at(col: int, slot: int) -> EnemyPlacement {
    EnemyPlacement { col_offset: col as usize, enemy_type: EnemyType::Ufo, on_floor: false, ufo_pattern: UfoPattern::FormationWave, formation_slot: slot as usize, near_top: false }
}

impl EnemyPlacement {
    pub fn ufo(col: usize, pattern: UfoPattern) -> (p: Self)
        ensures
            p == ufo_at(col as int, pattern),
    {
        EnemyPlacement { col_offset: col, enemy_type: EnemyType::Ufo, on_floor: false, ufo_pattern: pattern, formation_slot: 0, near_top: false }
    }

    pub fn rocket(col: usize) -> (p: Self)
        ensures
            p == rocket_at(col as int),
    {
        EnemyPlacement { col_offset: col, enemy_type: EnemyType::Rocket, on_floor: true, ufo_pattern: UfoPattern::SineWave, formation_slot: 0, near_top: false }
    }

    pub fn turret(col: usize) -> (p: Self)
        ensures
            p == turret_at(col as int),
    {
        EnemyPlacement { col_offset: col, enemy_type: EnemyType::Turret, on_floor: false, ufo_pattern: UfoPattern::SineWave, formation_slot: 0, near_top: false }
    }

    pub fn fuel(col: usize) -> (p: Self)
        ensures
            p == fuel_at(col as int),
    {
        EnemyPlacement { col_offset: col, enemy_type: EnemyType::FuelTank, on_floor: true, ufo_pattern: UfoPattern::SineWave, formation_slot: 0, near_top: false }
    }

    pub fn meteor(col: usize) -> (p: Self)
        ensures
            p == meteor_at(col as int),
    {
        EnemyPlacement { col_offset: col, enemy_type: EnemyType::Ufo, on_floor: false, ufo_pattern: UfoPattern::Meteor, formation_slot: 0, near_top: true }
    }
}

// ---------------------------------------------------------------------------
// Stage numbering
// ---------------------------------------------------------------------------

/// Which of the six stage designs stage `stage_num` (counted from 1) uses.
pub fn stage_index(stage_num: usize) -> (r: usize)
    ensures
        r == (if stage_num == 0 { 0 } else { (stage_num - 1) % 6 }),
        r < 6,
{
    (if stage_num == 0 { 0 } else { stage_num - 1 }) % 6
}

/// How many times the six designs have been completed before this stage.
pub fn stage_difficulty(stage_num: usize) -> (r: usize)
    ensures
        r == (if stage_num == 0 { 0 } else { (stage_num - 1) / 6 }),
{
    (if stage_num == 0 { 0 } else { stage_num - 1 }) / 6
}

/// The stage number shown to the player (1 to 6).
pub fn display_stage(stage_num: usize) -> (r: usize)
    requires
        stage_num >= 1,
    ensures
        r == (stage_num - 1) % 6 + 1,
        1 <= r <= 6,
{
    (stage_num - 1) % 6 + 1
}

// ---------------------------------------------------------------------------
// Enemy layout of a stage
// ---------------------------------------------------------------------------

/// Where in the stage a column lies: 0 before 30%, 1 before 50%, 2 before
/// 75%, 3 from there on.
pub open spec fn section(col: int, total: int) -> int {
    if 10 * col < 3 * total { 0 }
    else if 2 * col < total { 1 }
    else if 4 * col < 3 * total { 2 }
    else { 3 }
}

/// The first column of the main enemy run and how many columns it leaves
/// unused, for each of the six designs.
pub open spec fn lead_col(stage: int) -> int {
    if stage == 1 || stage == 4 { 30 } else if stage == 2 { 60 } else { 20 }
}

pub open spec fn lead_margin(stage: int) -> int {
    if stage == 1 || stage == 4 { 60 } else if stage == 2 { 80 } else { 40 }
}

/// Column of the `i`-th enemy of the main run.
pub open spec fn main_col(stage: int, i: int, total: int, count: int) -> int {
    let c = lead_col(stage) + i * (total - lead_margin(stage)) / (if count > 1 { count } else { 1 });
    if c < total - 1 { c } else { total - 1 }
}

/// What the `i`-th slot of the main run holds, if anything, for design
/// `stage` (0 to 5).
pub open spec fn main_slot(stage: int, i: int, total: int, count: int) -> Option<EnemyPlacement> {
    let col = main_col(stage, i, total, count);
    let sec = section(col, total);
    if stage == 0 {
        if i % 3 != 0 {
            let meteor = (sec == 1 && i % 4 < 2) || (sec == 3 && i % 6 < 3);
            if meteor { Some(meteor_at(col)) } else { Some(ufo_at(col, UfoPattern::SineWave)) }
        } else {
            Some(rocket_at(col))
        }
    } else if stage == 1 {
        if i % 3 == 0 {
            let p = if sec == 0 {
                if i % 8 < 4 { UfoPattern::SineWave } else { UfoPattern::Bouncer }
            } else if sec == 1 { UfoPattern::Bouncer }
            else if sec == 2 { UfoPattern::SineWave }
            else { UfoPattern::Charger };
            Some(ufo_at(col, p))
        } else if i % 3 == 1 {
            let p = if sec == 0 {
                if i % 8 < 4 { UfoPattern::Bouncer } else { UfoPattern::SineWave }
            } else if sec == 1 { UfoPattern::SineWave }
            else { UfoPattern::Bouncer };
            Some(ufo_at(col, p))
        } else {
            Some(rocket_at(col))
        }
    } else if stage == 2 {
        if i % 3 == 0 {
            if sec == 0 { Some(ufo_at(col, UfoPattern::SineWave)) }
            else if sec == 2 { None }
            else { Some(ufo_at(col, UfoPattern::ZSweep)) }
        } else if i % 3 == 1 {
            Some(ufo_at(col, UfoPattern::SineWave))
        } else {
            Some(turret_at(col))
        }
    } else if stage == 3 {
        if i % 3 == 0 {
            if sec == 0 {
                Some(ufo_at(col, if i % 8 < 4 { UfoPattern::Charger } else { UfoPattern::Bouncer }))
            } else if sec == 1 { None }
            else if sec == 2 { Some(ufo_at(col, UfoPattern::ZSweep)) }
            else { Some(ufo_at(col, UfoPattern::Charger)) }
        } else if i % 3 == 1 {
            Some(ufo_at(col, UfoPattern::Bouncer))
        } else {
            Some(turret_at(col))
        }
    } else if stage == 4 {
        if i % 3 == 0 {
            if sec == 0 || sec == 3 { None }
            else if sec == 1 {
                if i % 6 < 3 { Some(ufo_at(col, UfoPattern::ZSweep)) } else { Some(meteor_at(col)) }
            } else { Some(ufo_at(col, UfoPattern::Charger)) }
        } else if i % 3 == 1 {
            if sec == 0 || sec == 3 { None } else { Some(ufo_at(col, UfoPattern::ZSweep)) }
        } else {
            Some(rocket_at(col))
        }
    } else {
        if i % 3 == 0 {
            Some(ufo_at(col, if i % 6 == 0 { UfoPattern::SineWave } else { UfoPattern::ZSweep }))
        } else if i % 3 == 1 {
            Some(ufo_at(col, UfoPattern::SineWave))
        } else {
            Some(turret_at(col))
        }
    }
}

pub open spec fn opt_seq(o: Option<EnemyPlacement>) -> Seq<EnemyPlacement> {
    match o {
        Some(p) => seq![p],
        None => Seq::empty(),
    }
}

/// The placements of the first `n` slots of the main run.
pub open spec fn main_run(stage: int, total: int, count: int, n: int) -> Seq<EnemyPlacement>
    decreases n,
{
    if n <= 0 {
        Seq::empty()
    } else {
        main_run(stage, total, count, n - 1) + opt_seq(main_slot(stage, n - 1, total, count))
    }
}

/// A formation wave: four wings four columns apart from `base`, none past
/// the last column.
pub open spec fn wing_group(base: int, total: int) -> Seq<EnemyPlacement> {
    Seq::new(4, |i: int| {
        let c = base + i * 4;
        let last = if total >= 1 { total - 1 } else { 0 };
        wing_at(if c < last { c } else { last }, i)
    })
}

/// How many formation groups a section from `start` to `end` holds.
pub open spec fn group_count(start: int, end: int) -> int {
    let g = (end - start) / 60;
    if g > 2 { g } else { 2 }
}

/// The first `n` formation groups spread over the section from `start` to `end`.
pub open spec fn wing_groups(start: int, end: int, total: int, n: int) -> Seq<EnemyPlacement>
    decreases n,
{
    if n <= 0 {
        Seq::empty()
    } else {
        wing_groups(start, end, total, n - 1)
            + wing_group(start + (n - 1) * (end - start) / group_count(start, end), total)
    }
}

/// All formation groups of a section.
pub open spec fn section_wings(start: int, end: int, total: int) -> Seq<EnemyPlacement> {
    wing_groups(start, end, total, group_count(start, end))
}

/// The formation groups of a design: in the 50-75% section of the cavern,
/// the 30-50% section of the narrow caves, and the 5-28% and 77-95%
/// sections of the fuel depot. Each fraction is taken of the stage length
/// and rounded down.
pub open spec fn stage_wings(stage: int, total: int) -> Seq<EnemyPlacement> {
    if stage == 2 {
        section_wings(total / 2, 3 * total / 4, total)
    } else if stage == 3 {
        section_wings(3 * total / 10, total / 2, total)
    } else if stage == 4 {
        section_wings(total / 20, 7 * total / 25, total) + section_wings(77 * total / 100, 19 * total / 20, total)
    } else {
        Seq::empty()
    }
}

/// How many fuel tanks a design places over `total` columns.
pub open spec fn fuel_count(stage: int, total: int) -> int {
    if stage == 4 {
        if total / 100 > 6 { total / 100 } else { 6 }
    } else {
        if total / 150 > 4 { total / 150 } else { 4 }
    }
}

/// Fuel tanks spread evenly over the stage.
pub open spec fn fuel_run(total: int, count: int) -> Seq<EnemyPlacement> {
    Seq::new(count as nat, |i: int| {
        let c = (i + 1) * total / (count + 1);
        fuel_at(if c < total - 1 { c } else { total - 1 })
    })
}

/// Every enemy of design `stage` (0 to 5) over `total` columns with a main
/// run of `count` slots: the main run, then the formation groups, then the
/// fuel tanks.
pub open spec fn stage_layout(stage: int, total: int, count: int) -> Seq<EnemyPlacement> {
    main_run(stage, total, count, count) + stage_wings(stage, total) + fuel_run(total, fuel_count(stage, total))
}

/// The sizes a layout may have without overflow.
pub open spec fn layout_fits(stage: int, total: int, count: int) -> bool {
    &&& lead_margin(stage) <= total
    &&& 100 * total <= usize::MAX
    &&& total * total <= usize::MAX
    &&& count * total <= usize::MAX
}

fn section_of(col: usize, total: usize) -> (r: u8)
    requires
        10 * total <= usize::MAX,
        col <= total,
    ensures
        r as int == section(col as int, total as int),
{
    if 10 * col < 3 * total { 0 }
    else if 2 * col < total { 1 }
    else if 4 * col < 3 * total { 2 }
    else { 3 }
}

fn main_slot_exec(stage: usize, i: usize, total: usize, count: usize) -> (r: Option<EnemyPlacement>)
    requires
        stage < 6,
        i < count,
        layout_fits(stage as int, total as int, count as int),
    ensures
        r == main_slot(stage as int, i as int, total as int, count as int),
{
    let lead: usize = if stage == 1 || stage == 4 { 30 } else if stage == 2 { 60 } else { 20 };
    let margin: usize = if stage == 1 || stage == 4 { 60 } else if stage == 2 { 80 } else { 40 };
    let div: usize = if count > 1 { count } else { 1 };
    assert(i * (total - margin) <= count * total) by (nonlinear_arith)
        requires i < count, margin <= total;
    assert((i * (total - margin)) as int / (div as int) <= total - margin) by (nonlinear_arith)
        requires div >= 1, i < div, total >= margin;
    let c = lead + i * (total - margin) / div;
    let col = if c < total - 1 { c } else { total - 1 };
    let sec = section_of(col, total);
    if stage == 0 {
        if i % 3 != 0 {
            let meteor = (sec == 1 && i % 4 < 2) || (sec == 3 && i % 6 < 3);
            if meteor { Some(EnemyPlacement::meteor(col)) } else { Some(EnemyPlacement::ufo(col, UfoPattern::SineWave)) }
        } else {
            Some(EnemyPlacement::rocket(col))
        }
    } else if stage == 1 {
        if i % 3 == 0 {
            let p = if sec == 0 {
                if i % 8 < 4 { UfoPattern::SineWave } else { UfoPattern::Bouncer }
            } else if sec == 1 { UfoPattern::Bouncer }
            else if sec == 2 { UfoPattern::SineWave }
            else { UfoPattern::Charger };
            Some(EnemyPlacement::ufo(col, p))
        } else if i % 3 == 1 {
            let p = if sec == 0 {
                if i % 8 < 4 { UfoPattern::Bouncer } else { UfoPattern::SineWave }
            } else if sec == 1 { UfoPattern::SineWave }
            else { UfoPattern::Bouncer };
            Some(EnemyPlacement::ufo(col, p))
        } else {
            Some(EnemyPlacement::rocket(col))
        }
    } else if stage == 2 {
        if i % 3 == 0 {
            if sec == 0 { Some(EnemyPlacement::ufo(col, UfoPattern::SineWave)) }
            else if sec == 2 { None }
            else { Some(EnemyPlacement::ufo(col, UfoPattern::ZSweep)) }
        } else if i % 3 == 1 {
            Some(EnemyPlacement::ufo(col, UfoPattern::SineWave))
        } else {
            Some(EnemyPlacement::turret(col))
        }
    } else if stage == 3 {
        if i % 3 == 0 {
            if sec == 0 {
                Some(EnemyPlacement::ufo(col, if i % 8 < 4 { UfoPattern::Charger } else { UfoPattern::Bouncer }))
            } else if sec == 1 { None }
            else if sec == 2 { Some(EnemyPlacement::ufo(col, UfoPattern::ZSweep)) }
            else { Some(EnemyPlacement::ufo(col, UfoPattern::Charger)) }
        } else if i % 3 == 1 {
            Some(EnemyPlacement::ufo(col, UfoPattern::Bouncer))
        } else {
            Some(EnemyPlacement::turret(col))
        }
    } else if stage == 4 {
        if i % 3 == 0 {
            if sec == 0 || sec == 3 { None }
            else if sec == 1 {
                if i % 6 < 3 { Some(EnemyPlacement::ufo(col, UfoPattern::ZSweep)) } else { Some(EnemyPlacement::meteor(col)) }
            } else { Some(EnemyPlacement::ufo(col, UfoPattern::Charger)) }
        } else if i % 3 == 1 {
            if sec == 0 || sec == 3 { None } else { Some(EnemyPlacement::ufo(col, UfoPattern::ZSweep)) }
        } else {
            Some(EnemyPlacement::rocket(col))
        }
    } else {
        if i % 3 == 0 {
            Some(EnemyPlacement::ufo(col, if i % 6 == 0 { UfoPattern::SineWave } else { UfoPattern::ZSweep }))
        } else if i % 3 == 1 {
            Some(EnemyPlacement::ufo(col, UfoPattern::SineWave))
        } else {
            Some(EnemyPlacement::turret(col))
        }
    }
}

/// A formation-wave group: four wings, four columns apart, starting at
/// `base_col`, none past the last column.
pub fn formation_wave_group(base_col: usize, total_len: usize) -> (r: Vec<EnemyPlacement>)
    requires
        base_col + 12 <= usize::MAX,
    ensures
        r@ == wing_group(base_col as int, total_len as int),
{
    let mut group: Vec<EnemyPlacement> = Vec::new();
    let last = if total_len >= 1 { total_len - 1 } else { 0 };
    let mut i: usize = 0;
    while i < 4
        invariant
            i <= 4,
            base_col + 12 <= usize::MAX,
            last == (if total_len >= 1 { total_len - 1 } else { 0 }),
            group@ == wing_group(base_col as int, total_len as int).take(i as int),
        decreases 4 - i,
    {
        let c = base_col + i * 4;
        let col = if c < last { c } else { last };
        group.push(EnemyPlacement { col_offset: col, enemy_type: EnemyType::Ufo, on_floor: false, ufo_pattern: UfoPattern::FormationWave, formation_slot: i, near_top: false });
        i = i + 1;
        assert(group@ =~= wing_group(base_col as int, total_len as int).take(i as int));
    }
    assert(group@ =~= wing_group(base_col as int, total_len as int));
    group
}

fn push_section_wings(out: &mut Vec<EnemyPlacement>, start: usize, end: usize, total: usize)
    requires
        start <= end <= total,
        total * total <= usize::MAX,
        total + 12 <= usize::MAX,
        total >= 40,
    ensures
        final(out)@ == old(out)@ + section_wings(start as int, end as int, total as int),
{
    let span = end - start;
    let groups: usize = if span / 60 > 2 { span / 60 } else { 2 };
    assert(groups as int == group_count(start as int, end as int));
    assert(groups <= total);
    let mut g: usize = 0;
    while g < groups
        invariant
            start <= end <= total,
            span == end - start,
            groups as int == group_count(start as int, end as int),
            groups <= total,
            total * total <= usize::MAX,
            total + 12 <= usize::MAX,
            g <= groups,
            out@ == old(out)@ + wing_groups(start as int, end as int, total as int, g as int),
        decreases groups - g,
    {
        assert(g * span <= total * total) by (nonlinear_arith)
            requires g <= total, span <= total;
        assert((g * span) as int / (groups as int) <= span) by (nonlinear_arith)
            requires g < groups, groups >= 1, span >= 0;
        let base = start + g * span / groups;
        let mut grp = formation_wave_group(base, total);
        out.append(&mut grp);
        g = g + 1;
        assert(out@ =~= old(out)@ + wing_groups(start as int, end as int, total as int, g as int));
    }
}

/// The enemies of design `stage` (0 to 5) over a stage `total_len` columns
/// long with a main run of `enemy_count` slots.
///
/// The fractions of the stage length at which sections start (30%, 50%,
/// 75% and the like) are computed in exact integer arithmetic; for stages
/// shorter than 2^40 columns this gives the same columns as multiplying in
/// `f64` and truncating.
pub fn stage_enemies(stage: usize, total_len: usize, enemy_count: usize) -> (r: Vec<EnemyPlacement>)
    requires
        stage < 6,
        layout_fits(stage as int, total_len as int, enemy_count as int),
    ensures
        r@ == stage_layout(stage as int, total_len as int, enemy_count as int),
{
    let total = total_len;
    let mut enemies: Vec<EnemyPlacement> = Vec::new();
    let mut i: usize = 0;
    while i < enemy_count
        invariant
            stage < 6,
            layout_fits(stage as int, total as int, enemy_count as int),
            i <= enemy_count,
            enemies@ == main_run(stage as int, total as int, enemy_count as int, i as int),
        decreases enemy_count - i,
    {
        let slot = main_slot_exec(stage, i, total, enemy_count);
        match slot {
            Some(p) => enemies.push(p),
            None => {},
        }
        i = i + 1;
        assert(enemies@ =~= main_run(stage as int, total as int, enemy_count as int, i as int));
    }
    let ghost after_main = enemies@;
    if stage == 2 {
        push_section_wings(&mut enemies, total / 2, 3 * total / 4, total);
    } else if stage == 3 {
        push_section_wings(&mut enemies, 3 * total / 10, total / 2, total);
    } else if stage == 4 {
        push_section_wings(&mut enemies, total / 20, 7 * total / 25, total);
        push_section_wings(&mut enemies, 77 * total / 100, 19 * total / 20, total);
    }
    assert(enemies@ =~= after_main + stage_wings(stage as int, total as int));
    let ghost after_wings = enemies@;
    let fuel_n: usize = if stage == 4 {
        if total / 100 > 6 { total / 100 } else { 6 }
    } else {
        if total / 150 > 4 { total / 150 } else { 4 }
    };
    assert(fuel_n as int == fuel_count(stage as int, total as int));
    let mut k: usize = 0;
    while k < fuel_n
        invariant
            total >= 40,
            total * total <= usize::MAX,
            fuel_n < total,
            k <= fuel_n,
            enemies@ == after_wings + fuel_run(total as int, fuel_n as int).take(k as int),
        decreases fuel_n - k,
    {
        assert((k + 1) * total <= total * total) by (nonlinear_arith)
            requires k + 1 <= total;
        let c = (k + 1) * total / (fuel_n + 1);
        let col = if c < total - 1 { c } else { total - 1 };
        enemies.push(EnemyPlacement::fuel(col));
        k = k + 1;
        assert(enemies@ =~= after_wings + fuel_run(total as int, fuel_n as int).take(k as int));
    }
    assert(fuel_run(total as int, fuel_n as int).take(k as int) =~= fuel_run(total as int, fuel_n as int));
    enemies
}

/// Every column of a main-run slot lies inside the stage.
proof fn lemma_main_run_in_stage(stage: int, total: int, count: int, n: int)
    requires
        0 <= stage < 6,
        lead_margin(stage) <= total,
        total <= usize::MAX,
    ensures
        forall|i: int| 0 <= i < main_run(stage, total, count, n).len()
            ==> (#[trigger] main_run(stage, total, count, n)[i]).col_offset < total,
    decreases n,
{
    if n > 0 {
        lemma_main_run_in_stage(stage, total, count, n - 1);
        let c = main_col(stage, n - 1, total, count);
        let prev = main_run(stage, total, count, n - 1);
        let all = main_run(stage, total, count, n);
        assert(c <= total - 1);
        if n - 1 >= 0 && (n - 1) * (total - lead_margin(stage)) >= 0 {
            let d = if count > 1 { count } else { 1 };
            assert((n - 1) * (total - lead_margin(stage)) / d >= 0) by (nonlinear_arith)
                requires (n - 1) * (total - lead_margin(stage)) >= 0, d >= 1;
        }
        assert forall|i: int| 0 <= i < all.len() implies (#[trigger] all[i]).col_offset < total by {
            if i < prev.len() {
                assert(all[i] == prev[i]);
            }
        }
    }
}

/// Every column of a formation group lies inside the stage.
proof fn lemma_wings_in_stage(start: int, end: int, total: int, n: int)
    requires
        0 <= start <= end <= total,
        1 <= total <= usize::MAX,
    ensures
        forall|i: int| 0 <= i < wing_groups(start, end, total, n).len()
            ==> (#[trigger] wing_groups(start, end, total, n)[i]).col_offset < total,
    decreases n,
{
    if n > 0 {
        lemma_wings_in_stage(start, end, total, n - 1);
        let prev = wing_groups(start, end, total, n - 1);
        let base = start + (n - 1) * (end - start) / group_count(start, end);
        assert((n - 1) * (end - start) / group_count(start, end) >= 0) by (nonlinear_arith)
            requires n - 1 >= 0, end - start >= 0, group_count(start, end) >= 2;
        let g = wing_group(base, total);
        let all = wing_groups(start, end, total, n);
        assert forall|i: int| 0 <= i < all.len() implies (#[trigger] all[i]).col_offset < total by {
            if i < prev.len() {
                assert(all[i] == prev[i]);
            } else {
                assert(all[i] == g[i - prev.len()]);
            }
        }
    }
}

/// A flying saucer of the main run at column `c`: meteors start near the
/// top of the screen, other saucers at their usual height.
pub open spec fn saucer(c: int, pattern: UfoPattern) -> EnemyPlacement {
    EnemyPlacement {
        col_offset: c as usize,
        enemy_type: EnemyType::Ufo,
        on_floor: false,
        ufo_pattern: pattern,
        formation_slot: 0,
        near_top: pattern == UfoPattern::Meteor,
    }
}

/// A floor rocket of the main run at column `c`.
pub open spec fn ground_rocket(c: int) -> EnemyPlacement {
    EnemyPlacement { col_offset: c as usize, enemy_type: EnemyType::Rocket, on_floor: true,
        ufo_pattern: UfoPattern::SineWave, formation_slot: 0, near_top: false }
}

/// A ceiling turret of the main run at column `c`.
pub open spec fn ceiling_turret(c: int) -> EnemyPlacement {
    EnemyPlacement { col_offset: c as usize, enemy_type: EnemyType::Turret, on_floor: false,
        ufo_pattern: UfoPattern::SineWave, formation_slot: 0, near_top: false }
}

/// The six saucer patterns in the order the base stage cycles through them.
pub open spec fn all_patterns() -> Seq<UfoPattern> {
    seq![UfoPattern::SineWave, UfoPattern::Meteor, UfoPattern::Bouncer, UfoPattern::ZSweep,
        UfoPattern::Charger, UfoPattern::FormationWave]
}

/// The design table of the main run: what slot `i` of design `stage` holds
/// at column `c` of a stage `total` columns long. `p` is the column's share
/// of the stage; the sections end at 30%, 50% and 75%. Every third slot
/// (from the first) is the first saucer slot, the next one the second
/// saucer slot, and the last one the ground or ceiling slot. Slots given to
/// formation groups stay empty.
pub open spec fn design_slot(stage: int, i: int, c: int, total: int) -> Option<EnemyPlacement> {
    let below30 = 10 * c < 3 * total;
    let below50 = 2 * c < total;
    let below75 = 4 * c < 3 * total;
    if stage == 0 {
        // Open sky: two saucer slots, then a rocket.
        if i % 3 == 0 {
            Some(ground_rocket(c))
        } else if below30 {
            Some(saucer(c, UfoPattern::SineWave))
        } else if below50 {
            Some(saucer(c, if i % 4 < 2 { UfoPattern::Meteor } else { UfoPattern::SineWave }))
        } else if below75 {
            Some(saucer(c, UfoPattern::SineWave))
        } else {
            Some(saucer(c, if i % 6 < 3 { UfoPattern::Meteor } else { UfoPattern::SineWave }))
        }
    } else if stage == 1 {
        // Mountains.
        if i % 3 == 0 {
            Some(saucer(c, if below30 { if i % 8 < 4 { UfoPattern::SineWave } else { UfoPattern::Bouncer } }
                else if below50 { UfoPattern::Bouncer }
                else if below75 { UfoPattern::SineWave }
                else { UfoPattern::Charger }))
        } else if i % 3 == 1 {
            Some(saucer(c, if below30 { if i % 8 < 4 { UfoPattern::Bouncer } else { UfoPattern::SineWave } }
                else if below50 { UfoPattern::SineWave }
                else { UfoPattern::Bouncer }))
        } else {
            Some(ground_rocket(c))
        }
    } else if stage == 2 {
        // Cavern: formation groups fill the first saucer slots from 50% to 75%.
        if i % 3 == 0 {
            if below30 { Some(saucer(c, UfoPattern::SineWave)) }
            else if below50 { Some(saucer(c, UfoPattern::ZSweep)) }
            else if below75 { None }
            else { Some(saucer(c, UfoPattern::ZSweep)) }
        } else if i % 3 == 1 {
            Some(saucer(c, UfoPattern::SineWave))
        } else {
            Some(ceiling_turret(c))
        }
    } else if stage == 3 {
        // Narrow caves: formation groups fill the first saucer slots from 30% to 50%.
        if i % 3 == 0 {
            if below30 { Some(saucer(c, if i % 8 < 4 { UfoPattern::Charger } else { UfoPattern::Bouncer })) }
            else if below50 { None }
            else if below75 { Some(saucer(c, UfoPattern::ZSweep)) }
            else { Some(saucer(c, UfoPattern::Charger)) }
        } else if i % 3 == 1 {
            Some(saucer(c, UfoPattern::Bouncer))
        } else {
            Some(ceiling_turret(c))
        }
    } else if stage == 4 {
        // Fuel depot: formation groups before 30% and from 75% on.
        if i % 3 == 2 {
            Some(ground_rocket(c))
        } else if below30 || !below75 {
            None
        } else if i % 3 == 1 {
            Some(saucer(c, UfoPattern::ZSweep))
        } else if below50 {
            Some(saucer(c, if i % 6 < 3 { UfoPattern::ZSweep } else { UfoPattern::Meteor }))
        } else {
            Some(saucer(c, UfoPattern::Charger))
        }
    } else {
        // The base: the first saucer slot cycles through all patterns.
        if i % 3 == 0 {
            Some(saucer(c, all_patterns()[i % 6]))
        } else if i % 3 == 1 {
            Some(saucer(c, UfoPattern::SineWave))
        } else {
            Some(ceiling_turret(c))
        }
    }
}

/// A placement that a slot of the main run holds is in the run.
proof fn lemma_main_run_has_slot(stage: int, total: int, count: int, n: int, i: int)
    requires
        0 <= i < n,
    ensures
        main_slot(stage, i, total, count) matches Some(p) ==> main_run(stage, total, count, n).contains(p),
    decreases n,
{
    if i < n - 1 {
        lemma_main_run_has_slot(stage, total, count, n - 1, i);
        if let Some(p) = main_slot(stage, i, total, count) {
            let prev = main_run(stage, total, count, n - 1);
            let k = choose|k: int| 0 <= k < prev.len() && prev[k] == p;
            assert(main_run(stage, total, count, n)[k] == p);
        }
    } else if let Some(p) = main_slot(stage, i, total, count) {
        let prev = main_run(stage, total, count, n - 1);
        assert(main_run(stage, total, count, n)[prev.len() as int] == p);
    }
}

/// Every slot of the main run holds what the design table gives for its
/// design, slot and section, and each placement it gives is in the stage's
/// layout.
pub proof fn lemma_main_run_follows_design(stage: int, total: int, count: int)
    requires
        0 <= stage < 6,
        0 <= total,
    ensures
        forall|i: int| 0 <= i < count ==>
            #[trigger] main_slot(stage, i, total, count) == design_slot(stage, i, main_col(stage, i, total, count), total),
        forall|i: int| #![trigger design_slot(stage, i, main_col(stage, i, total, count), total)] 0 <= i < count ==>
            (design_slot(stage, i, main_col(stage, i, total, count), total) matches Some(p)
                ==> stage_layout(stage, total, count).contains(p)),
{
    assert forall|i: int| 0 <= i < count implies
        #[trigger] main_slot(stage, i, total, count) == design_slot(stage, i, main_col(stage, i, total, count), total) by {
        if stage == 5 && i % 3 == 0 {
            assert(i % 6 == 0 || i % 6 == 3);
        }
    }
    assert forall|i: int| #![trigger design_slot(stage, i, main_col(stage, i, total, count), total)] 0 <= i < count implies
        (design_slot(stage, i, main_col(stage, i, total, count), total) matches Some(p)
            ==> stage_layout(stage, total, count).contains(p)) by {
        assert(main_slot(stage, i, total, count) == design_slot(stage, i, main_col(stage, i, total, count), total));
        lemma_main_run_has_slot(stage, total, count, count, i);
        if let Some(p) = main_slot(stage, i, total, count) {
            let run = main_run(stage, total, count, count);
            let k = choose|k: int| 0 <= k < run.len() && run[k] == p;
            assert(stage_layout(stage, total, count)[k] == p);
        }
    }
}

/// Every enemy a stage places stands on a column of the stage.
pub proof fn lemma_stage_layout_in_stage(stage: int, total: int, count: int)
    requires
        0 <= stage < 6,
        layout_fits(stage, total, count),
    ensures
        forall|i: int| 0 <= i < stage_layout(stage, total, count).len()
            ==> (#[trigger] stage_layout(stage, total, count)[i]).col_offset < total,
{
    lemma_main_run_in_stage(stage, total, count, count);
    let m = main_run(stage, total, count, count);
    let w = stage_wings(stage, total);
    let f = fuel_run(total, fuel_count(stage, total));
    if stage == 2 {
        lemma_wings_in_stage(total / 2, 3 * total / 4, total, group_count(total / 2, 3 * total / 4));
    } else if stage == 3 {
        lemma_wings_in_stage(3 * total / 10, total / 2, total, group_count(3 * total / 10, total / 2));
    } else if stage == 4 {
        lemma_wings_in_stage(total / 20, 7 * total / 25, total, group_count(total / 20, 7 * total / 25));
        lemma_wings_in_stage(77 * total / 100, 19 * total / 20, total, group_count(77 * total / 100, 19 * total / 20));
        let a = section_wings(total / 20, 7 * total / 25, total);
        let b = section_wings(77 * total / 100, 19 * total / 20, total);
        assert forall|i: int| 0 <= i < w.len() implies (#[trigger] w[i]).col_offset < total by {
            if i < a.len() {
                assert(w[i] == a[i]);
            } else {
                assert(w[i] == b[i - a.len()]);
            }
        }
    }
    assert forall|i: int| 0 <= i < f.len() implies (#[trigger] f[i]).col_offset < total by {
        let k = fuel_count(stage, total);
        assert((i + 1) * total / (k + 1) >= 0) by (nonlinear_arith) requires i + 1 >= 0, total >= 0, k + 1 >= 1;
    }
    let all = stage_layout(stage, total, count);
    assert forall|i: int| 0 <= i < all.len() implies (#[trigger] all[i]).col_offset < total by {
        if i < m.len() {
            assert(all[i] == m[i]);
        } else if i < m.len() + w.len() {
            assert(all[i] == w[i - m.len()]);
        } else {
            assert(all[i] == f[i - m.len() - w.len()]);
        }
    }
}

} // verus!
