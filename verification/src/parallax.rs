use vstd::prelude::*;
use rand::rngs::StdRng;
use rand::Rng;
use rand::SeedableRng;
use crate::color::Color;
use crate::renderer::{Renderer, HalfPixel, FgCell};

verus! {

#[verifier::external_type_specification]
#[verifier::external_body]
pub struct ExStdRng(StdRng);

/// Calls `StdRng::seed_from_u64`. Nothing is stated of the generator it
/// makes.
#[verifier::external_body]
fn seeded_rng(seed: u64) -> StdRng {
    StdRng::seed_from_u64(seed)
}

/// Calls `Rng::gen_range(0..n)` on the generator: a number below `n`
/// (`gen_range` panics on an empty range, so `n` must be positive). Which
/// number comes out depends on the generator's state and is not stated.
#[verifier::external_body]
fn random_below(rng: &mut StdRng, n: usize) -> (r: usize)
    requires
        n > 0,
    ensures
        r < n,
{
    rng.gen_range(0..n)
}

/// The colours a star may have.
pub open spec fn star_palette() -> Seq<Color> {
    seq![
        Color::Rgb { r: 60, g: 60, b: 80 },
        Color::Rgb { r: 80, g: 80, b: 110 },
        Color::Rgb { r: 100, g: 100, b: 140 },
        Color::Rgb { r: 140, g: 140, b: 180 },
        Color::Rgb { r: 180, g: 170, b: 140 },
        Color::Rgb { r: 120, g: 140, b: 180 },
    ]
}

fn star_color(k: usize) -> (c: Color)
    requires
        k < 6,
    ensures
        c == star_palette()[k as int],
{
    if k == 0 { Color::Rgb { r: 60, g: 60, b: 80 } }
    else if k == 1 { Color::Rgb { r: 80, g: 80, b: 110 } }
    else if k == 2 { Color::Rgb { r: 100, g: 100, b: 140 } }
    else if k == 3 { Color::Rgb { r: 140, g: 140, b: 180 } }
    else if k == 4 { Color::Rgb { r: 180, g: 170, b: 140 } }
    else { Color::Rgb { r: 120, g: 140, b: 180 } }
}

/// Star field layer: sparse dots at various brightnesses.
pub struct StarField {
    /// Column, row and colour of each star.
    pub stars: Vec<(usize, usize, Color)>,
    /// Width of the field in terminal columns (it wraps).
    pub world_width: usize,
    pub scroll_divisor: usize,
}

/// Where a star at world column `x` appears on screen for a layer offset.
pub open spec fn star_screen_x(x: int, offset: int, world_width: int) -> int {
    let o = offset % world_width;
    if x >= o { x - o } else { x + world_width - o }
}

/// The foreground after drawing the first `n` stars: each star on screen
/// whose cell has a black background becomes a '.' in its colour.
pub open spec fn stars_drawn(
    fg: Seq<FgCell>,
    hb: Seq<HalfPixel>,
    width: int,
    height: int,
    stars: Seq<(usize, usize, Color)>,
    offset: int,
    world_width: int,
    n: int,
) -> Seq<FgCell>
    decreases n,
{
    if n <= 0 {
        fg
    } else {
        let prev = stars_drawn(fg, hb, width, height, stars, offset, world_width, n - 1);
        let (x, y, color) = stars[n - 1];
        let sx = star_screen_x(x as int, offset, world_width);
        let idx = y * width + sx;
        if y < height && sx < width && hb[2 * idx].color == Color::Black && hb[2 * idx + 1].color == Color::Black {
            prev.update(idx, FgCell { ch: '.', fg: color, bg: hb[2 * idx].color, active: true })
        } else {
            prev
        }
    }
}

/// Drawing stars changes only cells whose two half pixels are both black:
/// a star never covers a cell that a mountain layer has painted.
pub proof fn lemma_stars_only_on_black(
    fg: Seq<FgCell>,
    hb: Seq<HalfPixel>,
    width: int,
    height: int,
    stars: Seq<(usize, usize, Color)>,
    offset: int,
    world_width: int,
    n: int,
)
    requires
        width >= 0,
        height >= 0,
        fg.len() == width * height,
        hb.len() == 2 * fg.len(),
        world_width > 0,
        offset >= 0,
        0 <= n <= stars.len(),
    ensures
        stars_drawn(fg, hb, width, height, stars, offset, world_width, n).len() == fg.len(),
        forall|i: int| 0 <= i < fg.len()
            && #[trigger] stars_drawn(fg, hb, width, height, stars, offset, world_width, n)[i] != fg[i]
            ==> hb[2 * i].color == Color::Black && hb[2 * i + 1].color == Color::Black,
    decreases n,
{
    if n > 0 {
        lemma_stars_only_on_black(fg, hb, width, height, stars, offset, world_width, n - 1);
        let prev = stars_drawn(fg, hb, width, height, stars, offset, world_width, n - 1);
        let (x, y, color) = stars[n - 1];
        let sx = star_screen_x(x as int, offset, world_width);
        let idx = y * width + sx;
        assert(sx >= 0);
        if y < height && sx < width {
            assert(idx < fg.len()) by (nonlinear_arith)
                requires idx == y * width + sx, sx < width, y < height, fg.len() == width * height, y >= 0;
            assert(idx >= 0) by (nonlinear_arith)
                requires idx == y * width + sx, sx >= 0, y >= 0, width >= 0;
        }
    }
}

impl StarField {
    pub open spec fn wf(self) -> bool {
        &&& self.world_width > 0
        &&& self.world_width * 2 <= usize::MAX
        &&& forall|i: int| 0 <= i < self.stars@.len() ==> (#[trigger] self.stars@[i]).0 < self.world_width
    }

    /// `count` stars scattered at random over `world_width_cols` columns and
    /// `height` rows, from a generator seeded with `seed`.
    pub fn generate(world_width_cols: usize, height: usize, count: usize, seed: u64) -> (f: Self)
        requires
            count > 0 ==> world_width_cols > 0 && height > 0,
        ensures
            f.stars@.len() == count,
            f.world_width == world_width_cols,
            f.scroll_divisor == 12,
            forall|i: int| 0 <= i < count ==> {
                let s = #[trigger] f.stars@[i];
                &&& s.0 < world_width_cols
                &&& s.1 < height
                &&& star_palette().contains(s.2)
            },
    {
        let mut rng = seeded_rng(seed);
        let mut stars: Vec<(usize, usize, Color)> = Vec::new();
        let mut i: usize = 0;
        while i < count
            invariant
                count > 0 ==> world_width_cols > 0 && height > 0,
                i <= count,
                stars@.len() == i,
                forall|j: int| 0 <= j < i ==> {
                    let s = #[trigger] stars@[j];
                    &&& s.0 < world_width_cols
                    &&& s.1 < height
                    &&& star_palette().contains(s.2)
                },
            decreases count - i,
        {
            let x = random_below(&mut rng, world_width_cols);
            let y = random_below(&mut rng, height);
            let k = random_below(&mut rng, 6);
            let color = star_color(k);
            assert(star_palette()[k as int] == color);
            stars.push((x, y, color));
            i = i + 1;
        }
        StarField { stars, world_width: world_width_cols, scroll_divisor: 12 }
    }

    /// Draws the stars for a layer offset, skipping stars whose cell a
    /// mountain layer has already painted.
    pub fn render(&self, renderer: &mut Renderer, offset: usize)
        requires
            self.wf(),
            old(renderer).wf(),
        ensures
            final(renderer).wf(),
            final(renderer).width == old(renderer).width,
            final(renderer).height == old(renderer).height,
            final(renderer).hb@ == old(renderer).hb@,
            final(renderer).shown() == old(renderer).shown(),
            final(renderer).redraw_pending() == old(renderer).redraw_pending(),
            final(renderer).fg@ == stars_drawn(old(renderer).fg@, old(renderer).hb@, old(renderer).width as int,
                old(renderer).height as int, self.stars@, offset as int, self.world_width as int,
                self.stars@.len() as int),
    {
        let vw = renderer.width;
        let n = self.stars.len();
        let mut i: usize = 0;
        while i < n
            invariant
                self.wf(),
                n == self.stars@.len(),
                renderer.wf(),
                vw == renderer.width,
                renderer.width == old(renderer).width,
                renderer.height == old(renderer).height,
                renderer.hb@ == old(renderer).hb@,
                renderer.shown() == old(renderer).shown(),
                renderer.redraw_pending() == old(renderer).redraw_pending(),
                i <= n,
                renderer.fg@ == stars_drawn(old(renderer).fg@, old(renderer).hb@, old(renderer).width as int,
                    old(renderer).height as int, self.stars@, offset as int, self.world_width as int, i as int),
            decreases n - i,
        {
            let (x, y, color) = self.stars[i];
            let ghost star = self.stars@[i as int];
            assert(x < self.world_width);
            if y < renderer.height {
                let o = offset % self.world_width;
                let screen_x = if x >= o { x - o } else { x + self.world_width - o };
                assert(screen_x as int == star_screen_x(x as int, offset as int, self.world_width as int));
                if screen_x < vw {
                    proof {
                        let w = renderer.width;
                        let h = renderer.height;
                        assert(y * w + screen_x < (y + 1) * w) by (nonlinear_arith) requires screen_x < w;
                        assert((y + 1) * w <= h * w) by (nonlinear_arith) requires y < h;
                        assert(w * 2 * h == 2 * (h * w)) by (nonlinear_arith);
                        assert(y * w * 2 + screen_x * 2 == 2 * (y * w + screen_x)) by (nonlinear_arith);
                    }
                    let hx = screen_x * 2;
                    let idx_l = y * renderer.width * 2 + hx;
                    let idx_r = idx_l + 1;
                    let skip = renderer.hb[idx_l].color != Color::Black || renderer.hb[idx_r].color != Color::Black;
                    if !skip {
                        renderer.set_fg_transparent(screen_x, y, '.', color);
                    }
                }
            }
            i = i + 1;
        }
    }
}

/// Mountain silhouette layer: a height map filled from the bottom.
pub struct MountainLayer {
    /// Height of each column, in rows from the bottom.
    pub heights: Vec<usize>,
    pub color: Color,
    pub scroll_divisor: usize,
}

/// One pass of smoothing: every inner column becomes a quarter of its left
/// neighbour, twice itself and its right neighbour (rounded down); the two
/// end columns stay.
pub open spec fn smoothed(h: Seq<usize>) -> Seq<usize> {
    Seq::new(h.len(), |i: int|
        if 1 <= i < h.len() - 1 { ((h[i - 1] + 2 * h[i] + h[i + 1]) / 4) as usize } else { h[i] })
}

/// What a mountain layer paints at a half-pixel cell: its colour where the
/// cell lies under the height of its column and nothing nearer has painted
/// it yet.
pub open spec fn mountain_cell(
    old: HalfPixel,
    y: int,
    hx: int,
    heights: Seq<usize>,
    offset: int,
    height: int,
    color: Color,
) -> HalfPixel {
    let hh = heights[(hx + offset) % (heights.len() as int)] as int;
    let top = if hh < height { height - hh } else { 0 };
    if top <= y && old.color == Color::Black { HalfPixel { color } } else { old }
}

pub open spec fn mountains_drawn(
    hb: Seq<HalfPixel>,
    width: int,
    height: int,
    heights: Seq<usize>,
    offset: int,
    color: Color,
) -> Seq<HalfPixel> {
    Seq::new(hb.len(), |i: int| mountain_cell(hb[i], i / (2 * width), i % (2 * width), heights, offset, height, color))
}

impl MountainLayer {
    /// A layer from raw column heights, after one smoothing pass.
    pub fn from_heights(heights: Vec<usize>, color: Color, scroll_divisor: usize) -> (m: Self)
        requires
            heights@.len() >= 1,
            forall|i: int| 0 <= i < heights@.len() ==> 4 * #[trigger] heights@[i] <= usize::MAX,
        ensures
            m.heights@ == smoothed(heights@),
            m.color == color,
            m.scroll_divisor == scroll_divisor,
    {
        let n = heights.len();
        let mut out = heights.clone();
        assert(out@ =~= heights@);
        let mut i: usize = 1;
        while i < n - 1
            invariant
                n == heights@.len(),
                n >= 1,
                1 <= i <= n,
                out@.len() == n,
                forall|k: int| 0 <= k < heights@.len() ==> 4 * #[trigger] heights@[k] <= usize::MAX,
                forall|k: int| 0 <= k < n ==> #[trigger] out@[k] == if 1 <= k < i { smoothed(heights@)[k] } else { heights@[k] },
            decreases n - i,
        {
            let a = heights[i - 1];
            let b = heights[i];
            let c = heights[i + 1];
            out.set(i, (a + b * 2 + c) / 4);
            i = i + 1;
        }
        assert(out@ =~= smoothed(heights@));
        MountainLayer { heights: out, color, scroll_divisor }
    }

    /// Paints the silhouette for a half-pixel layer offset, filling from the
    /// bottom and leaving cells that a nearer layer has painted.
    pub fn render(&self, renderer: &mut Renderer, offset: usize)
        requires
            self.heights@.len() >= 1,
            old(renderer).wf(),
            offset + 2 * old(renderer).width <= usize::MAX,
        ensures
            final(renderer).wf(),
            final(renderer).width == old(renderer).width,
            final(renderer).height == old(renderer).height,
            final(renderer).fg@ == old(renderer).fg@,
            final(renderer).shown() == old(renderer).shown(),
            final(renderer).redraw_pending() == old(renderer).redraw_pending(),
            final(renderer).hb@ == mountains_drawn(old(renderer).hb@, old(renderer).width as int,
                old(renderer).height as int, self.heights@, offset as int, self.color),
    {
        let ghost old_hb = renderer.hb@;
        let w = renderer.width;
        let vw = renderer.width * 2;
        let vh = renderer.height;
        let world_w = self.heights.len();
        let ghost target = mountains_drawn(old_hb, w as int, vh as int, self.heights@, offset as int, self.color);
        proof {
            assert(w * 2 * vh == vh * vw) by (nonlinear_arith) requires vw == w * 2;
        }
        let mut screen_hx: usize = 0;
        while screen_hx < vw
            invariant
                renderer.wf(),
                renderer.width == w,
                renderer.height == vh,
                vw == w * 2,
                world_w == self.heights@.len(),
                world_w >= 1,
                offset + vw <= usize::MAX,
                renderer.fg@ == old(renderer).fg@,
                renderer.shown() == old(renderer).shown(),
                renderer.redraw_pending() == old(renderer).redraw_pending(),
                old_hb.len() == renderer.hb@.len(),
                renderer.hb@.len() == vh * vw,
                target == mountains_drawn(old_hb, w as int, vh as int, self.heights@, offset as int, self.color),
                screen_hx <= vw,
                forall|i: int| 0 <= i < renderer.hb@.len() ==> #[trigger] renderer.hb@[i]
                    == if i % (vw as int) < screen_hx { target[i] } else { old_hb[i] },
            decreases vw - screen_hx,
        {
            let world_col = (screen_hx + offset) % world_w;
            let h = self.heights[world_col];
            let rows = if h < vh { h } else { vh };
            proof {
                assert forall|i: int| 0 <= i < renderer.hb@.len() implies #[trigger] renderer.hb@[i]
                    == if i % (vw as int) < screen_hx || (i % (vw as int) == screen_hx && i / (vw as int) >= vh - 0) {
                        target[i]
                    } else {
                        old_hb[i]
                    } by {
                    assert(i / (vw as int) < vh) by (nonlinear_arith) requires i < vh * vw, vw > 0, i >= 0;
                }
            }
            let mut row: usize = 0;
            while row < rows
                invariant
                    renderer.wf(),
                    renderer.width == w,
                    renderer.height == vh,
                    vw == w * 2,
                    rows <= vh,
                    rows == (if h < vh { h } else { vh }),
                    h == self.heights@[((screen_hx + offset) % (world_w as int))],
                    world_w == self.heights@.len(),
                    screen_hx < vw,
                    renderer.fg@ == old(renderer).fg@,
                    renderer.shown() == old(renderer).shown(),
                    renderer.redraw_pending() == old(renderer).redraw_pending(),
                    old_hb.len() == renderer.hb@.len(),
                    renderer.hb@.len() == vh * vw,
                    target == mountains_drawn(old_hb, w as int, vh as int, self.heights@, offset as int, self.color),
                    row <= rows,
                    forall|i: int| 0 <= i < renderer.hb@.len() ==> #[trigger] renderer.hb@[i]
                        == if i % (vw as int) < screen_hx || (i % (vw as int) == screen_hx && i / (vw as int) >= vh - row) {
                            target[i]
                        } else {
                            old_hb[i]
                        },
                decreases rows - row,
            {
                let y = vh - 1 - row;
                proof {
                    assert(y * vw + screen_hx < (y + 1) * vw) by (nonlinear_arith) requires screen_hx < vw;
                    assert((y + 1) * vw <= vh * vw) by (nonlinear_arith) requires y < vh;
                    assert(y * w * 2 == y * vw) by (nonlinear_arith) requires vw == w * 2;
                    vstd::arithmetic::div_mod::lemma_fundamental_div_mod_converse(
                        (y * vw + screen_hx) as int, vw as int, y as int, screen_hx as int);
                }
                let idx = y * renderer.width * 2 + screen_hx;
                let ghost before = renderer.hb@;
                if renderer.hb[idx].color == Color::Black {
                    renderer.set_half_pixel(screen_hx, y, self.color);
                }
                proof {
                    assert forall|i: int| 0 <= i < renderer.hb@.len() implies #[trigger] renderer.hb@[i]
                        == if i % (vw as int) < screen_hx || (i % (vw as int) == screen_hx && i / (vw as int) >= vh - (row + 1)) {
                            target[i]
                        } else {
                            old_hb[i]
                        } by {
                        if i == idx {
                            assert(before[i] == old_hb[i]);
                        } else {
                            assert(renderer.hb@[i] == before[i]);
                            if i % (vw as int) == screen_hx && i / (vw as int) == y {
                                assert(i == (i / (vw as int)) * vw + i % (vw as int)) by (nonlinear_arith)
                                    requires vw > 0;
                            }
                        }
                    }
                }
                row = row + 1;
            }
            proof {
                assert forall|i: int| 0 <= i < renderer.hb@.len() implies #[trigger] renderer.hb@[i]
                    == if i % (vw as int) < screen_hx + 1 { target[i] } else { old_hb[i] } by {
                    if i % (vw as int) == screen_hx && i / (vw as int) < vh - rows {
                        assert(0 <= i % (vw as int) < vw) by (nonlinear_arith) requires vw > 0, i >= 0;
                    }
                }
            }
            screen_hx = screen_hx + 1;
        }
        proof {
            assert forall|i: int| 0 <= i < renderer.hb@.len() implies #[trigger] renderer.hb@[i] == target[i] by {
                assert(0 <= i % (vw as int) < vw) by (nonlinear_arith) requires vw > 0, i >= 0;
            }
        }
        assert(renderer.hb@ =~= target);
    }
}

} // verus!
