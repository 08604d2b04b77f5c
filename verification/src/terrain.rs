use vstd::prelude::*;
use crate::color::Color;
use crate::stages::ZoneType;

verus! {

/// One column of terrain.
#[derive(Clone, Copy, Debug)]
pub struct TerrainColumn {
    /// Rows of rock from the top (0 = no ceiling).
    pub ceiling: usize,
    /// Rows of rock from the bottom (0 = no floor).
    pub floor: usize,
    pub surface_char: char,
    pub color: Color,
    /// Colour of the surface edge.
    pub highlight: Color,
    /// Characters that texture the body of the rock.
    pub surface_palette: [char; 3],
    /// Drives the edge decoration.
    pub zone_type: ZoneType,
}

impl Default for TerrainColumn {
    fn default() -> (c: Self)
        ensures
            c.ceiling == 0,
            c.floor == 3,
            c.surface_char == '\u{2593}',
            c.color == (Color::Rgb { r: 40, g: 120, b: 40 }),
            c.highlight == (Color::Rgb { r: 80, g: 180, b: 80 }),
            c.surface_palette@ == seq!['\u{2593}', '\u{2592}', '\u{2591}'],
            c.zone_type == ZoneType::OpenSky,
    {
        let c = TerrainColumn {
            ceiling: 0,
            floor: 3,
            surface_char: '\u{2593}',
            color: Color::Rgb { r: 40, g: 120, b: 40 },
            highlight: Color::Rgb { r: 80, g: 180, b: 80 },
            surface_palette: ['\u{2593}', '\u{2592}', '\u{2591}'],
            zone_type: ZoneType::OpenSky,
        };
        assert(c.surface_palette@ =~= seq!['\u{2593}', '\u{2592}', '\u{2591}']);
        c
    }
}

/// The 3-character texture palette of a zone type.
pub open spec fn surface_palette_of(zone_type: ZoneType) -> Seq<char> {
    match zone_type {
        ZoneType::OpenSky => seq!['\u{2593}', '\u{2592}', '\u{2591}'],
        ZoneType::Mountains => seq!['\u{2588}', '\u{2593}', '#'],
        ZoneType::CaveEntrance => seq!['\u{2592}', '\u{2591}', '\u{b7}'],
        ZoneType::NarrowCave => seq!['\u{2591}', '\u{2592}', ':'],
        ZoneType::FuelDepot => seq!['\u{2588}', '\u{2593}', '='],
        _ => seq!['\u{2593}', '\u{2588}', '#'],
    }
}

/// Get the 3-char surface texture palette for a zone type.
pub fn get_surface_palette(zone_type: ZoneType) -> (p: [char; 3])
    ensures
        p@ == surface_palette_of(zone_type),
{
    let p = match zone_type {
        ZoneType::OpenSky => ['\u{2593}', '\u{2592}', '\u{2591}'],
        ZoneType::Mountains => ['\u{2588}', '\u{2593}', '#'],
        ZoneType::CaveEntrance => ['\u{2592}', '\u{2591}', '\u{b7}'],
        ZoneType::NarrowCave => ['\u{2591}', '\u{2592}', ':'],
        ZoneType::FuelDepot => ['\u{2588}', '\u{2593}', '='],
        ZoneType::RocketBase | ZoneType::BossApproach => ['\u{2593}', '\u{2588}', '#'],
    };
    assert(p@ =~= surface_palette_of(zone_type));
    p
}

/// The decoration of a surface edge: it depends on the zone type, on
/// whether it is a ceiling or a floor, and on the column modulo 5.
pub open spec fn edge_decoration(zone_type: ZoneType, is_ceiling: bool, world_col: int) -> char {
    let slot = world_col % 5;
    match zone_type {
        ZoneType::OpenSky => if is_ceiling { '_' } else {
            if slot == 0 { '\u{2663}' } else if slot == 1 { '"' } else if slot == 2 { '\u{2191}' } else { '\u{203e}' }
        },
        ZoneType::Mountains => if is_ceiling { '_' } else {
            if slot == 0 { '^' } else if slot == 1 { '\u{2227}' } else if slot == 2 { '\u{203e}' } else if slot == 3 { '^' } else { '\u{203e}' }
        },
        ZoneType::CaveEntrance | ZoneType::NarrowCave => if is_ceiling {
            if slot == 0 { '\u{25bc}' } else if slot == 1 { '\u{2228}' } else if slot == 2 { 'v' } else { '_' }
        } else {
            if slot == 0 { '\u{25b2}' } else if slot == 1 { '\u{2227}' } else if slot == 2 { '^' } else { '\u{203e}' }
        },
        ZoneType::FuelDepot => {
            if slot == 0 { '\u{2503}' } else if slot == 1 { '\u{2551}' } else if slot == 2 { '\u{2502}' }
            else if is_ceiling { '_' } else { '\u{203e}' }
        },
        _ => {
            if slot == 0 { '\u{2550}' } else if slot == 1 { '\u{2500}' } else if slot == 2 { '\u{254c}' }
            else if is_ceiling { '_' } else { '\u{203e}' }
        },
    }
}

/// Get a themed edge decoration character for ceiling or floor surface edges.
pub fn get_edge_decoration(zone_type: ZoneType, is_ceiling: bool, world_col: usize) -> (c: char)
    ensures
        c == edge_decoration(zone_type, is_ceiling, world_col as int),
{
    let slot = world_col % 5;
    match zone_type {
        ZoneType::OpenSky => {
            if is_ceiling {
                '_'
            } else {
                match slot {
                    0 => '\u{2663}',
                    1 => '"',
                    2 => '\u{2191}',
                    3 => '\u{203e}',
                    _ => '\u{203e}',
                }
            }
        },
        ZoneType::Mountains => {
            if is_ceiling {
                '_'
            } else {
                match slot {
                    0 => '^',
                    1 => '\u{2227}',
                    2 => '\u{203e}',
                    3 => '^',
                    _ => '\u{203e}',
                }
            }
        },
        ZoneType::CaveEntrance | ZoneType::NarrowCave => {
            if is_ceiling {
                match slot {
                    0 => '\u{25bc}',
                    1 => '\u{2228}',
                    2 => 'v',
                    3 => '_',
                    _ => '_',
                }
            } else {
                match slot {
                    0 => '\u{25b2}',
                    1 => '\u{2227}',
                    2 => '^',
                    3 => '\u{203e}',
                    _ => '\u{203e}',
                }
            }
        },
        ZoneType::FuelDepot => {
            match slot {
                0 => '\u{2503}',
                1 => '\u{2551}',
                2 => '\u{2502}',
                3 if is_ceiling => '_',
                3 => '\u{203e}',
                _ if is_ceiling => '_',
                _ => '\u{203e}',
            }
        },
        ZoneType::RocketBase | ZoneType::BossApproach => {
            match slot {
                0 => '\u{2550}',
                1 => '\u{2500}',
                2 => '\u{254c}',
                3 if is_ceiling => '_',
                3 => '\u{203e}',
                _ if is_ceiling => '_',
                _ => '\u{203e}',
            }
        },
    }
}

/// The character of a zone's surface style.
pub open spec fn style_char(surface_style: int) -> char {
    let k = surface_style % 6;
    if k == 0 { '\u{2593}' } else if k == 1 { '\u{2588}' } else if k == 2 { '\u{2592}' }
    else if k == 3 { '\u{2591}' } else if k == 4 { '#' } else { '=' }
}

/// Ceiling and floor heights as the terrain generator settles them: each at
/// most half the viewport, and when the gap between them would be under four
/// rows, the larger one is cut back (the floor on a tie) by the shortfall,
/// down to zero.
pub open spec fn shaped(raw_ceiling: int, raw_floor: int, viewport_h: int) -> (int, int) {
    let half = viewport_h / 2;
    let c = if raw_ceiling < half { raw_ceiling } else { half };
    let f = if raw_floor < half { raw_floor } else { half };
    if c + f + 4 > viewport_h {
        let excess = c + f + 4 - viewport_h;
        if c > f {
            (if c > excess { c - excess } else { 0 }, f)
        } else {
            (c, if f > excess { f - excess } else { 0 })
        }
    } else {
        (c, f)
    }
}

/// Clamps one raw column to the viewport and keeps a corridor of four rows.
pub fn shape_column(raw_ceiling: usize, raw_floor: usize, viewport_h: usize) -> (r: (usize, usize))
    requires
        viewport_h + 4 <= usize::MAX,
    ensures
        r.0 as int == shaped(raw_ceiling as int, raw_floor as int, viewport_h as int).0,
        r.1 as int == shaped(raw_ceiling as int, raw_floor as int, viewport_h as int).1,
{
    let max_floor = viewport_h / 2;
    let max_ceil = viewport_h / 2;
    let min_corridor: usize = 4;
    let mut ceiling = if raw_ceiling < max_ceil { raw_ceiling } else { max_ceil };
    let mut floor = if raw_floor < max_floor { raw_floor } else { max_floor };
    if ceiling + floor + min_corridor > viewport_h {
        let excess = (ceiling + floor + min_corridor) - viewport_h;
        if ceiling > floor {
            ceiling = ceiling.saturating_sub(excess);
        } else {
            floor = floor.saturating_sub(excess);
        }
    }
    (ceiling, floor)
}

/// On a viewport of at least eight rows every shaped column leaves a gap of
/// at least four rows, and neither ceiling nor floor exceeds half the
/// viewport.
pub proof fn lemma_shaped_corridor(raw_ceiling: nat, raw_floor: nat, viewport_h: nat)
    requires
        viewport_h >= 8,
    ensures
        ({
            let (c, f) = shaped(raw_ceiling as int, raw_floor as int, viewport_h as int);
            &&& 0 <= c <= viewport_h / 2
            &&& 0 <= f <= viewport_h / 2
            &&& c + f + 4 <= viewport_h
        }),
{
}

/// Shaping first clamps each height to half the viewport; then, when the
/// corridor would be under four rows, only the larger clamped height is cut
/// (the floor when they are equal), by the shortfall and not below zero.
/// The smaller one is never cut.
pub proof fn lemma_shaped_cuts_larger(raw_ceiling: nat, raw_floor: nat, viewport_h: nat)
    ensures
        ({
            let half = viewport_h / 2;
            let c = if raw_ceiling < half { raw_ceiling as int } else { half as int };
            let f = if raw_floor < half { raw_floor as int } else { half as int };
            let (c2, f2) = shaped(raw_ceiling as int, raw_floor as int, viewport_h as int);
            let short = c + f + 4 - viewport_h;
            &&& 0 <= c2 <= c
            &&& 0 <= f2 <= f
            &&& f >= c ==> c2 == c
            &&& c > f ==> f2 == f
            &&& short <= 0 ==> c2 == c && f2 == f
            &&& short > 0 && f >= c ==> f2 == (if f > short { f - short } else { 0 })
            &&& short > 0 && c > f ==> c2 == (if c > short { c - short } else { 0 })
        }),
{
}

/// `col` is the column a zone makes from the raw heights `raw`.
pub open spec fn built_from(
    col: TerrainColumn,
    raw: (usize, usize),
    zone_type: ZoneType,
    color: Color,
    highlight: Color,
    surface_style: int,
    viewport_h: int,
) -> bool {
    let s = shaped(raw.0 as int, raw.1 as int, viewport_h);
    &&& col.ceiling as int == s.0
    &&& col.floor as int == s.1
    &&& col.surface_char == style_char(surface_style)
    &&& col.color == color
    &&& col.highlight == highlight
    &&& col.surface_palette@ == surface_palette_of(zone_type)
    &&& col.zone_type == zone_type
}

/// Finishes the columns of one zone from the raw ceiling and floor heights
/// its generator drew (one pair per column).
pub fn build_zone_columns(
    zone_type: ZoneType,
    color: Color,
    highlight: Color,
    surface_style: usize,
    raw: &Vec<(usize, usize)>,
    viewport_h: usize,
) -> (cols: Vec<TerrainColumn>)
    requires
        viewport_h + 4 <= usize::MAX,
    ensures
        cols@.len() == raw@.len(),
        forall|i: int| 0 <= i < raw@.len() ==> built_from(#[trigger] cols@[i], raw@[i], zone_type, color,
            highlight, surface_style as int, viewport_h as int),
{
    let palette = get_surface_palette(zone_type);
    let k = surface_style % 6;
    let sc = if k == 0 { '\u{2593}' } else if k == 1 { '\u{2588}' } else if k == 2 { '\u{2592}' }
        else if k == 3 { '\u{2591}' } else if k == 4 { '#' } else { '=' };
    let mut cols: Vec<TerrainColumn> = Vec::new();
    let mut i: usize = 0;
    while i < raw.len()
        invariant
            viewport_h + 4 <= usize::MAX,
            i <= raw@.len(),
            cols@.len() == i,
            palette@ == surface_palette_of(zone_type),
            sc == style_char(surface_style as int),
            forall|j: int| 0 <= j < i ==> built_from(#[trigger] cols@[j], raw@[j], zone_type, color,
                highlight, surface_style as int, viewport_h as int),
        decreases raw@.len() - i,
    {
        let (rc, rf) = raw[i];
        let (ceiling, floor) = shape_column(rc, rf, viewport_h);
        cols.push(TerrainColumn {
            ceiling,
            floor,
            surface_char: sc,
            color,
            highlight,
            surface_palette: palette,
            zone_type,
        });
        assert(built_from(cols@[i as int], raw@[i as int], zone_type, color, highlight, surface_style as int,
            viewport_h as int));
        i = i + 1;
    }
    cols
}

/// The terrain of the level, one column per world column.
pub struct Terrain {
    pub columns: Vec<TerrainColumn>,
}

impl Terrain {
    pub fn new() -> (t: Self)
        ensures
            t.columns@ == Seq::<TerrainColumn>::empty(),
    {
        Terrain { columns: Vec::new() }
    }

    /// The column at a world column, if the terrain reaches it.
    pub fn get_at(&self, world_col: usize) -> (r: Option<&TerrainColumn>)
        ensures
            world_col < self.columns@.len() ==> r == Some(&self.columns@[world_col as int]),
            world_col >= self.columns@.len() ==> r is None,
    {
        if world_col < self.columns.len() {
            Some(&self.columns[world_col])
        } else {
            None
        }
    }

    /// Levels the floor one column each side of `center_col` to the floor
    /// height at `center_col`, making a flat pad for ground objects.
    pub fn level_floor_around(&mut self, center_col: usize)
        ensures
            final(self).columns@ == leveled_around(old(self).columns@, center_col as int),
    {
        if center_col < self.columns.len() {
            let floor_val = self.columns[center_col].floor;
            if center_col > 0 {
                let mut left = self.columns[center_col - 1];
                left.floor = floor_val;
                self.columns.set(center_col - 1, left);
            }
            if center_col + 1 < self.columns.len() {
                let mut right = self.columns[center_col + 1];
                right.floor = floor_val;
                self.columns.set(center_col + 1, right);
            }
        }
        assert(self.columns@ =~= leveled_around(old(self).columns@, center_col as int));
    }

    /// Appends another terrain's columns to the end of this one.
    pub fn append(&mut self, other: Terrain)
        ensures
            final(self).columns@ == old(self).columns@ + other.columns@,
    {
        let mut other = other;
        self.columns.append(&mut other.columns);
    }

    /// Removes the first `count` columns (all of them if fewer).
    pub fn trim_front(&mut self, count: usize)
        ensures
            final(self).columns@ == old(self).columns@.skip(
                if count < old(self).columns@.len() { count as int } else { old(self).columns@.len() as int },
            ),
    {
        if count >= self.columns.len() {
            self.columns.clear();
            assert(self.columns@ =~= old(self).columns@.skip(old(self).columns@.len() as int));
        } else {
            let rest = self.columns.split_off(count);
            self.columns = rest;
        }
    }

    pub fn total_width(&self) -> (w: usize)
        ensures
            w == self.columns@.len(),
    {
        self.columns.len()
    }
}

/// `cols` with the floors beside `center` set to the floor at `center`.
pub open spec fn leveled_around(cols: Seq<TerrainColumn>, center: int) -> Seq<TerrainColumn> {
    if 0 <= center < cols.len() {
        let fv = cols[center].floor;
        Seq::new(cols.len(), |i: int|
            if (i == center - 1 || i == center + 1) { TerrainColumn { floor: fv, ..cols[i] } } else { cols[i] })
    } else {
        cols
    }
}

/// Levelling changes only the floors beside the centre, and only to the
/// centre's floor.
pub proof fn lemma_level_then_floor(cols: Seq<TerrainColumn>, center: int)
    requires
        0 <= center < cols.len(),
    ensures
        leveled_around(cols, center).len() == cols.len(),
        center > 0 ==> leveled_around(cols, center)[center - 1].floor == cols[center].floor,
        center + 1 < cols.len() ==> leveled_around(cols, center)[center + 1].floor == cols[center].floor,
        leveled_around(cols, center)[center] == cols[center],
        forall|i: int| 0 <= i < cols.len() && i != center - 1 && i != center + 1
            ==> #[trigger] leveled_around(cols, center)[i] == cols[i],
        forall|i: int| 0 <= i < cols.len() ==> #[trigger] leveled_around(cols, center)[i].ceiling == cols[i].ceiling,
{
}

/// Trimming what was appended before never loses appended columns: trimming
/// at most the old width from `a + b` leaves a suffix of `a` followed by all
/// of `b`.
pub proof fn lemma_trim_after_append(a: Seq<TerrainColumn>, b: Seq<TerrainColumn>, count: int)
    requires
        0 <= count <= a.len(),
    ensures
        (a + b).skip(count) == a.skip(count) + b,
{
    assert((a + b).skip(count) =~= a.skip(count) + b);
}

} // verus!
