//! The character sprites of the ship, the enemies and explosions, and
//! painting them onto the foreground layer.

use vstd::prelude::*;
use crate::color::Color;
use crate::renderer::{FgCell, HalfPixel, Renderer};
use crate::stages::{EnemyType, UfoPattern};

verus! {

/// One cell of a sprite on screen: column, row, character and colour.
pub type SpriteCell = (usize, usize, char, Color);

/// The foreground layer after painting `cells` in order, each over the left
/// half pixel beneath it; cells off the screen are left out.
pub open spec fn painted(fg: Seq<FgCell>, hb: Seq<HalfPixel>, width: int, height: int, cells: Seq<SpriteCell>)
    -> Seq<FgCell>
    decreases cells.len(),
{
    if cells.len() == 0 {
        fg
    } else {
        let prev = painted(fg, hb, width, height, cells.drop_last());
        let (x, y, ch, color) = cells.last();
        if x < width && y < height {
            prev.update(y * width + x, FgCell { ch, fg: color, bg: hb[2 * (y * width + x)].color, active: true })
        } else {
            prev
        }
    }
}

impl Renderer {
    /// Paints sprite cells in order, each over the left half pixel beneath
    /// it.
    pub fn paint(&mut self, cells: &Vec<SpriteCell>)
        requires
            old(self).wf(),
        ensures
            final(self).wf(),
            final(self).width == old(self).width,
            final(self).height == old(self).height,
            final(self).hb@ == old(self).hb@,
            final(self).shown() == old(self).shown(),
            final(self).redraw_pending() == old(self).redraw_pending(),
            final(self).fg@ == painted(old(self).fg@, old(self).hb@, old(self).width as int,
                old(self).height as int, cells@),
    {
        let mut i: usize = 0;
        while i < cells.len()
            invariant
                i <= cells@.len(),
                self.wf(),
                self.width == old(self).width,
                self.height == old(self).height,
                self.hb@ == old(self).hb@,
                self.shown() == old(self).shown(),
                self.redraw_pending() == old(self).redraw_pending(),
                self.fg@ == painted(old(self).fg@, old(self).hb@, old(self).width as int, old(self).height as int,
                    cells@.take(i as int)),
            decreases cells@.len() - i,
        {
            let (x, y, ch, color) = cells[i];
            self.set_fg_transparent(x, y, ch, color);
            assert(cells@.take(i + 1).drop_last() =~= cells@.take(i as int));
            i = i + 1;
        }
        assert(cells@.take(i as int) =~= cells@);
    }
}

// ---------------------------------------------------------------------------
// Enemies
// ---------------------------------------------------------------------------

/// The three characters of a flying saucer's sprite, and the colours of its
/// sides and of its middle.
pub open spec fn saucer_look(pattern: UfoPattern) -> (char, char, char, Color, Color) {
    match pattern {
        UfoPattern::SineWave => ('(', '=', ')', Color::Rgb { r: 200, g: 100, b: 255 }, Color::Rgb { r: 255, g: 255, b: 200 }),
        UfoPattern::Meteor => ('*', '@', '*', Color::Rgb { r: 255, g: 160, b: 40 }, Color::Rgb { r: 255, g: 255, b: 220 }),
        UfoPattern::Bouncer => ('<', 'O', '>', Color::Rgb { r: 255, g: 230, b: 50 }, Color::Rgb { r: 255, g: 255, b: 150 }),
        UfoPattern::ZSweep => ('<', '#', '>', Color::Rgb { r: 50, g: 255, b: 100 }, Color::Rgb { r: 200, g: 255, b: 150 }),
        UfoPattern::Charger => ('{', 'V', '}', Color::Rgb { r: 255, g: 60, b: 40 }, Color::Rgb { r: 255, g: 200, b: 60 }),
        UfoPattern::FormationWave => ('[', '~', ']', Color::Rgb { r: 60, g: 200, b: 255 }, Color::Rgb { r: 180, g: 255, b: 255 }),
    }
}

/// The cells of an enemy whose anchor is at column `sx`, row `sy`, on a
/// screen `width` by `height`:
/// - a rocket: its nose `^` above, then `A` on the ground or `|` in flight
///   with an exhaust `*` below;
/// - a saucer: its three characters, when they fit with a column to spare
///   on the left;
/// - a fuel tank: `[F]`, when it fits;
/// - a turret: `{}` with its gun `v` below, when it fits.
pub open spec fn enemy_cells(ty: EnemyType, pattern: UfoPattern, launched: bool, sx: int, sy: int, width: int,
    height: int) -> Seq<SpriteCell>
{
    let x = sx as usize;
    let y = sy as usize;
    match ty {
        EnemyType::Rocket => {
            let red = Color::Rgb { r: 255, g: 80, b: 80 };
            let nose = if sy > 0 { seq![(x, (sy - 1) as usize, '^', red)] } else { Seq::empty() };
            if launched {
                let flame = if sy + 1 < height {
                    seq![(x, (sy + 1) as usize, '*', Color::Rgb { r: 255, g: 200, b: 50 })]
                } else {
                    Seq::empty()
                };
                nose + seq![(x, y, '|', red)] + flame
            } else {
                nose + seq![(x, y, 'A', red)]
            }
        },
        EnemyType::Ufo => {
            let (a, b, c, side, middle) = saucer_look(pattern);
            if sx > 0 && sx + 2 < width {
                seq![(x, y, a, side), ((sx + 1) as usize, y, b, middle), ((sx + 2) as usize, y, c, side)]
            } else {
                Seq::empty()
            }
        },
        EnemyType::FuelTank => {
            let gold = Color::Rgb { r: 255, g: 200, b: 50 };
            if sx + 2 < width {
                seq![(x, y, '[', gold), ((sx + 1) as usize, y, 'F', Color::Rgb { r: 255, g: 100, b: 50 }),
                    ((sx + 2) as usize, y, ']', gold)]
            } else {
                Seq::empty()
            }
        },
        EnemyType::Turret => {
            let grey = Color::Rgb { r: 180, g: 180, b: 200 };
            if sx + 1 < width {
                let gun = if sy + 1 < height {
                    seq![(x, (sy + 1) as usize, 'v', Color::Rgb { r: 255, g: 50, b: 50 })]
                } else {
                    Seq::empty()
                };
                seq![(x, y, '{', grey), ((sx + 1) as usize, y, '}', grey)] + gun
            } else {
                Seq::empty()
            }
        },
    }
}

fn saucer_parts(pattern: UfoPattern) -> (r: (char, char, char, Color, Color))
    ensures
        r == saucer_look(pattern),
{
    match pattern {
        UfoPattern::SineWave => ('(', '=', ')', Color::Rgb { r: 200, g: 100, b: 255 }, Color::Rgb { r: 255, g: 255, b: 200 }),
        UfoPattern::Meteor => ('*', '@', '*', Color::Rgb { r: 255, g: 160, b: 40 }, Color::Rgb { r: 255, g: 255, b: 220 }),
        UfoPattern::Bouncer => ('<', 'O', '>', Color::Rgb { r: 255, g: 230, b: 50 }, Color::Rgb { r: 255, g: 255, b: 150 }),
        UfoPattern::ZSweep => ('<', '#', '>', Color::Rgb { r: 50, g: 255, b: 100 }, Color::Rgb { r: 200, g: 255, b: 150 }),
        UfoPattern::Charger => ('{', 'V', '}', Color::Rgb { r: 255, g: 60, b: 40 }, Color::Rgb { r: 255, g: 200, b: 60 }),
        UfoPattern::FormationWave => ('[', '~', ']', Color::Rgb { r: 60, g: 200, b: 255 }, Color::Rgb { r: 180, g: 255, b: 255 }),
    }
}

/// The cells of an enemy's sprite (see `enemy_cells`).
pub fn enemy_sprite(ty: EnemyType, pattern: UfoPattern, launched: bool, sx: usize, sy: usize, width: usize,
    height: usize) -> (r: Vec<SpriteCell>)
    requires
        sx + 2 <= usize::MAX,
        sy + 1 <= usize::MAX,
    ensures
        r@ == enemy_cells(ty, pattern, launched, sx as int, sy as int, width as int, height as int),
{
    let mut r: Vec<SpriteCell> = Vec::new();
    match ty {
        EnemyType::Rocket => {
            let red = Color::Rgb { r: 255, g: 80, b: 80 };
            if sy > 0 {
                r.push((sx, sy - 1, '^', red));
            }
            if launched {
                r.push((sx, sy, '|', red));
                if sy + 1 < height {
                    r.push((sx, sy + 1, '*', Color::Rgb { r: 255, g: 200, b: 50 }));
                }
            } else {
                r.push((sx, sy, 'A', red));
            }
        },
        EnemyType::Ufo => {
            let (a, b, c, side, middle) = saucer_parts(pattern);
            if sx > 0 && sx + 2 < width {
                r.push((sx, sy, a, side));
                r.push((sx + 1, sy, b, middle));
                r.push((sx + 2, sy, c, side));
            }
        },
        EnemyType::FuelTank => {
            let gold = Color::Rgb { r: 255, g: 200, b: 50 };
            if sx + 2 < width {
                r.push((sx, sy, '[', gold));
                r.push((sx + 1, sy, 'F', Color::Rgb { r: 255, g: 100, b: 50 }));
                r.push((sx + 2, sy, ']', gold));
            }
        },
        EnemyType::Turret => {
            let grey = Color::Rgb { r: 180, g: 180, b: 200 };
            if sx + 1 < width {
                r.push((sx, sy, '{', grey));
                r.push((sx + 1, sy, '}', grey));
                if sy + 1 < height {
                    r.push((sx, sy + 1, 'v', Color::Rgb { r: 255, g: 50, b: 50 }));
                }
            }
        },
    }
    assert(r@ =~= enemy_cells(ty, pattern, launched, sx as int, sy as int, width as int, height as int));
    r
}

// ---------------------------------------------------------------------------
// The ship and explosions
// ---------------------------------------------------------------------------

/// The cells of the ship whose middle row starts at column `sx`, row `sy`:
/// three rows, drawn only when the whole ship fits on the screen.
///
/// ```text
///  /=>
/// <===>
///  \=>
/// ```
pub open spec fn ship_cells(sx: int, sy: int, width: int, height: int) -> Seq<SpriteCell> {
    let hull = Color::Rgb { r: 220, g: 220, b: 255 };
    let engine = Color::Rgb { r: 255, g: 160, b: 40 };
    let cockpit = Color::Rgb { r: 100, g: 200, b: 255 };
    if sx >= 1 && sx + 4 < width && sy >= 1 && sy + 1 < height {
        let (x, y) = (sx as usize, sy as usize);
        let (up, down) = ((sy - 1) as usize, (sy + 1) as usize);
        seq![
            (x, up, '/', hull), ((sx + 1) as usize, up, '=', hull), ((sx + 2) as usize, up, '>', cockpit),
            ((sx - 1) as usize, y, '<', engine), (x, y, '=', hull), ((sx + 1) as usize, y, '=', hull),
            ((sx + 2) as usize, y, '=', hull), ((sx + 3) as usize, y, '>', cockpit),
            (x, down, '\\', hull), ((sx + 1) as usize, down, '=', hull), ((sx + 2) as usize, down, '>', cockpit),
        ]
    } else {
        Seq::empty()
    }
}

/// The cells of the ship's sprite (see `ship_cells`).
pub fn ship_sprite(sx: isize, sy: usize, width: usize, height: usize) -> (r: Vec<SpriteCell>)
    ensures
        r@ == ship_cells(sx as int, sy as int, width as int, height as int),
{
    let hull = Color::Rgb { r: 220, g: 220, b: 255 };
    let engine = Color::Rgb { r: 255, g: 160, b: 40 };
    let cockpit = Color::Rgb { r: 100, g: 200, b: 255 };
    if sx >= 1 && (sx as usize) < width && width - (sx as usize) > 4 && sy >= 1 && sy < height
        && height - sy > 1 {
        let x = sx as usize;
        let (up, down) = (sy - 1, sy + 1);
        let r = vec![
            (x, up, '/', hull), (x + 1, up, '=', hull), (x + 2, up, '>', cockpit),
            (x - 1, sy, '<', engine), (x, sy, '=', hull), (x + 1, sy, '=', hull),
            (x + 2, sy, '=', hull), (x + 3, sy, '>', cockpit),
            (x, down, '\\', hull), (x + 1, down, '=', hull), (x + 2, down, '>', cockpit),
        ];
        assert(r@ =~= ship_cells(sx as int, sy as int, width as int, height as int));
        r
    } else {
        let r: Vec<SpriteCell> = Vec::new();
        assert(r@ =~= ship_cells(sx as int, sy as int, width as int, height as int));
        r
    }
}

/// The characters and colour of an explosion in its phase: bright sparks
/// first, then flames, then embers.
pub open spec fn blast_look(phase: usize) -> (char, char, char, Color) {
    if phase == 0 {
        ('*', '+', '*', Color::Rgb { r: 255, g: 255, b: 200 })
    } else if phase == 1 {
        ('#', '@', '#', Color::Rgb { r: 255, g: 160, b: 50 })
    } else {
        ('.', ':', '.', Color::Rgb { r: 180, g: 80, b: 30 })
    }
}

/// The cells of an explosion centred at column `sx`, row `sy`: a cross of
/// five cells, those off the left, right, top or bottom edge left out.
pub open spec fn blast_cells(sx: int, sy: int, phase: usize, width: int, height: int) -> Seq<SpriteCell> {
    let (a, b, c, color) = blast_look(phase);
    let (x, y) = (sx as usize, sy as usize);
    let left = if sx > 0 { seq![((sx - 1) as usize, y, a, color)] } else { Seq::empty() };
    let right = if sx + 1 < width { seq![((sx + 1) as usize, y, c, color)] } else { Seq::empty() };
    let top = if sy > 0 { seq![(x, (sy - 1) as usize, a, color)] } else { Seq::empty() };
    let bottom = if sy + 1 < height { seq![(x, (sy + 1) as usize, c, color)] } else { Seq::empty() };
    left + seq![(x, y, b, color)] + right + top + bottom
}

/// The cells of an explosion's sprite (see `blast_cells`).
pub fn explosion_sprite(sx: usize, sy: usize, phase: usize, width: usize, height: usize) -> (r: Vec<SpriteCell>)
    requires
        sx + 1 <= usize::MAX,
        sy + 1 <= usize::MAX,
    ensures
        r@ == blast_cells(sx as int, sy as int, phase, width as int, height as int),
{
    let (a, b, c, color) = if phase == 0 {
        ('*', '+', '*', Color::Rgb { r: 255, g: 255, b: 200 })
    } else if phase == 1 {
        ('#', '@', '#', Color::Rgb { r: 255, g: 160, b: 50 })
    } else {
        ('.', ':', '.', Color::Rgb { r: 180, g: 80, b: 30 })
    };
    let mut r: Vec<SpriteCell> = Vec::new();
    if sx > 0 {
        r.push((sx - 1, sy, a, color));
    }
    r.push((sx, sy, b, color));
    if sx + 1 < width {
        r.push((sx + 1, sy, c, color));
    }
    if sy > 0 {
        r.push((sx, sy - 1, a, color));
    }
    if sy + 1 < height {
        r.push((sx, sy + 1, c, color));
    }
    assert(r@ =~= blast_cells(sx as int, sy as int, phase, width as int, height as int));
    r
}

} // verus!
