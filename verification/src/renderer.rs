use vstd::prelude::*;
use crate::color::Color;

verus! {

/// Left half block, drawn when the two half pixels of a cell differ.
pub const HALF_BLOCK: char = '\u{258C}';

/// One half of a terminal cell in the background layer.
#[derive(Clone, Copy, Debug, PartialEq, Eq, Structural)]
pub struct HalfPixel {
    pub color: Color,
}

impl Default for HalfPixel {
    fn default() -> (p: Self)
        ensures
            p == blank_half(),
    {
        HalfPixel { color: Color::Black }
    }
}

/// A cell in the foreground overlay (ASCII art layer).
#[derive(Clone, Copy, Debug, PartialEq, Eq, Structural)]
pub struct FgCell {
    pub ch: char,
    pub fg: Color,
    pub bg: Color,
    /// When set, this cell overrides the half-block background.
    pub active: bool,
}

impl Default for FgCell {
    fn default() -> (c: Self)
        ensures
            c == blank_fg(),
    {
        FgCell { ch: ' ', fg: Color::White, bg: Color::Black, active: false }
    }
}

/// A terminal cell after compositing: what gets written.
#[derive(Clone, Copy, Debug, PartialEq, Eq, Structural)]
pub struct TermCell {
    pub ch: char,
    pub fg: Color,
    pub bg: Color,
}

impl Default for TermCell {
    fn default() -> (c: Self)
        ensures
            c == (TermCell { ch: ' ', fg: Color::Black, bg: Color::Black }),
    {
        TermCell { ch: ' ', fg: Color::Black, bg: Color::Black }
    }
}

pub open spec fn blank_half() -> HalfPixel {
    HalfPixel { color: Color::Black }
}

pub open spec fn blank_fg() -> FgCell {
    FgCell { ch: ' ', fg: Color::White, bg: Color::Black, active: false }
}

/// A cell that matches no real cell, so that everything is drawn.
pub open spec fn unknown_cell() -> TermCell {
    TermCell { ch: '\x01', fg: Color::Reset, bg: Color::Reset }
}

/// What a terminal cell shows: the foreground cell when it is active, else
/// a blank in the colour of the two half pixels when they agree, else a
/// left half block in the left colour on the right colour.
pub open spec fn composed(fg: FgCell, left: Color, right: Color) -> TermCell {
    if fg.active {
        TermCell { ch: fg.ch, fg: fg.fg, bg: fg.bg }
    } else if left == right {
        TermCell { ch: ' ', fg: left, bg: left }
    } else {
        TermCell { ch: HALF_BLOCK, fg: left, bg: right }
    }
}

/// The frame that layers `hb` and `fg` make, cell by cell, in row order.
pub open spec fn frame_of(hb: Seq<HalfPixel>, fg: Seq<FgCell>) -> Seq<TermCell> {
    Seq::new(fg.len(), |i: int| composed(fg[i], hb[2 * i].color, hb[2 * i + 1].color))
}

/// The cells among the first `n` (in row order) that must be written: all of
/// them when `force`, else those that differ from what the terminal shows.
pub open spec fn changed_cells(frame: Seq<TermCell>, shown: Seq<TermCell>, width: int, force: bool, n: int)
    -> Seq<(usize, usize, TermCell)>
    decreases n,
{
    if n <= 0 {
        Seq::empty()
    } else {
        let k = n - 1;
        let rest = changed_cells(frame, shown, width, force, k);
        if force || frame[k] != shown[k] {
            rest.push(((k % width) as usize, (k / width) as usize, frame[k]))
        } else {
            rest
        }
    }
}

/// A character framebuffer: a background of half pixels (two per cell), a
/// foreground overlay, and a double buffer so that only changed cells are
/// written.
pub struct Renderer {
    /// Terminal columns.
    pub width: usize,
    /// Terminal rows of the play area.
    pub height: usize,
    /// Half-pixel background: `width * 2` by `height`.
    pub hb: Vec<HalfPixel>,
    /// Foreground overlay: `width` by `height`.
    pub fg: Vec<FgCell>,
    /// The frame being composited.
    pub current: Vec<TermCell>,
    /// What the terminal shows, as far as the renderer knows.
    pub previous: Vec<TermCell>,
    /// The next frame is written in full.
    pub first_frame: bool,
}

impl Renderer {
    /// The layers have the sizes of the screen.
    pub open spec fn layout_ok(self) -> bool {
        &&& self.width * 2 <= usize::MAX
        &&& self.width * 2 * self.height <= usize::MAX
        &&& self.hb@.len() == self.width * 2 * self.height
        &&& self.fg@.len() == self.width * self.height
    }

    pub open spec fn wf(self) -> bool {
        &&& self.layout_ok()
        &&& self.current@.len() == self.width * self.height
        &&& self.previous@.len() == self.width * self.height
    }

    /// What the terminal shows, as far as the renderer knows.
    pub open spec fn shown(self) -> Seq<TermCell> {
        self.previous@
    }

    /// The next frame is written in full.
    pub open spec fn redraw_pending(self) -> bool {
        self.first_frame
    }

    /// The frame that the layers make now.
    pub open spec fn frame(self) -> Seq<TermCell> {
        frame_of(self.hb@, self.fg@)
    }

    proof fn lemma_cells(width: usize, height: usize)
        requires
            width * 2 <= usize::MAX,
            width * 2 * height <= usize::MAX,
        ensures
            width * height <= width * 2 * height,
            width * 2 * height == 2 * (width * height),
    {
        assert(width * 2 * height == 2 * (width * height)) by (nonlinear_arith);
    }

    fn blank_layers(width: usize, height: usize) -> (r: (Vec<HalfPixel>, Vec<FgCell>, Vec<TermCell>, Vec<TermCell>))
        requires
            width * 2 <= usize::MAX,
            width * 2 * height <= usize::MAX,
        ensures
            r.0@ == Seq::new((width * 2 * height) as nat, |i: int| blank_half()),
            r.1@ == Seq::new((width * height) as nat, |i: int| blank_fg()),
            r.2@.len() == width * height,
            r.3@ == Seq::new((width * height) as nat, |i: int| unknown_cell()),
    {
        proof { Self::lemma_cells(width, height); }
        let hb_size = width * 2 * height;
        let cell_size = width * height;
        let mut hb: Vec<HalfPixel> = Vec::new();
        let mut i: usize = 0;
        while i < hb_size
            invariant
                i <= hb_size,
                hb@ == Seq::new(i as nat, |k: int| blank_half()),
            decreases hb_size - i,
        {
            hb.push(HalfPixel { color: Color::Black });
            i = i + 1;
            assert(hb@ =~= Seq::new(i as nat, |k: int| blank_half()));
        }
        let mut fg: Vec<FgCell> = Vec::new();
        let mut cur: Vec<TermCell> = Vec::new();
        let mut prev: Vec<TermCell> = Vec::new();
        let mut j: usize = 0;
        while j < cell_size
            invariant
                j <= cell_size,
                fg@ == Seq::new(j as nat, |k: int| blank_fg()),
                cur@.len() == j,
                prev@ == Seq::new(j as nat, |k: int| unknown_cell()),
            decreases cell_size - j,
        {
            fg.push(FgCell { ch: ' ', fg: Color::White, bg: Color::Black, active: false });
            cur.push(TermCell { ch: ' ', fg: Color::Black, bg: Color::Black });
            prev.push(TermCell { ch: '\x01', fg: Color::Reset, bg: Color::Reset });
            j = j + 1;
            assert(fg@ =~= Seq::new(j as nat, |k: int| blank_fg()));
            assert(prev@ =~= Seq::new(j as nat, |k: int| unknown_cell()));
        }
        (hb, fg, cur, prev)
    }

    /// A blank screen of `width` by `height` cells, to be drawn in full.
    pub fn new(width: usize, height: usize) -> (r: Self)
        requires
            width * 2 <= usize::MAX,
            width * 2 * height <= usize::MAX,
        ensures
            r.wf(),
            r.width == width,
            r.height == height,
            r.hb@ == Seq::new((width * 2 * height) as nat, |i: int| blank_half()),
            r.fg@ == Seq::new((width * height) as nat, |i: int| blank_fg()),
            r.shown() == Seq::new((width * height) as nat, |i: int| unknown_cell()),
            r.redraw_pending(),
    {
        let (hb, fg, current, previous) = Self::blank_layers(width, height);
        Renderer { width, height, hb, fg, current, previous, first_frame: true }
    }

    /// Starts over with a blank screen of the new size.
    pub fn resize(&mut self, width: usize, height: usize)
        requires
            width * 2 <= usize::MAX,
            width * 2 * height <= usize::MAX,
        ensures
            final(self).wf(),
            final(self).width == width,
            final(self).height == height,
            final(self).hb@ == Seq::new((width * 2 * height) as nat, |i: int| blank_half()),
            final(self).fg@ == Seq::new((width * height) as nat, |i: int| blank_fg()),
            final(self).shown() == Seq::new((width * height) as nat, |i: int| unknown_cell()),
            final(self).redraw_pending(),
    {
        let (hb, fg, current, previous) = Self::blank_layers(width, height);
        self.width = width;
        self.height = height;
        self.hb = hb;
        self.fg = fg;
        self.current = current;
        self.previous = previous;
        self.first_frame = true;
    }

    /// Forces a full redraw on the next render.
    pub fn force_redraw(&mut self)
        requires
            old(self).wf(),
        ensures
            final(self).wf(),
            final(self).redraw_pending(),
            final(self).width == old(self).width,
            final(self).height == old(self).height,
            final(self).hb@ == old(self).hb@,
            final(self).fg@ == old(self).fg@,
            final(self).shown() == old(self).shown(),
    {
        self.first_frame = true;
    }

    /// Clears both layers for a new frame.
    pub fn clear(&mut self)
        requires
            old(self).wf(),
        ensures
            final(self).wf(),
            final(self).width == old(self).width,
            final(self).height == old(self).height,
            final(self).hb@ == Seq::new(old(self).hb@.len(), |i: int| blank_half()),
            final(self).fg@ == Seq::new(old(self).fg@.len(), |i: int| blank_fg()),
            final(self).shown() == old(self).shown(),
            final(self).redraw_pending() == old(self).redraw_pending(),
    {
        let n = self.hb.len();
        let mut i: usize = 0;
        while i < n
            invariant
                self.wf(),
                n == self.hb@.len(),
                self.width == old(self).width,
                self.height == old(self).height,
                self.fg@ == old(self).fg@,
                self.previous@ == old(self).previous@,
                self.first_frame == old(self).first_frame,
                i <= n,
                forall|k: int| 0 <= k < i ==> #[trigger] self.hb@[k] == blank_half(),
            decreases n - i,
        {
            self.hb.set(i, HalfPixel { color: Color::Black });
            i = i + 1;
        }
        let m = self.fg.len();
        let mut j: usize = 0;
        while j < m
            invariant
                self.wf(),
                m == self.fg@.len(),
                n == self.hb@.len(),
                self.width == old(self).width,
                self.height == old(self).height,
                self.previous@ == old(self).previous@,
                self.first_frame == old(self).first_frame,
                forall|k: int| 0 <= k < n ==> #[trigger] self.hb@[k] == blank_half(),
                j <= m,
                forall|k: int| 0 <= k < j ==> #[trigger] self.fg@[k] == blank_fg(),
            decreases m - j,
        {
            self.fg.set(j, FgCell { ch: ' ', fg: Color::White, bg: Color::Black, active: false });
            j = j + 1;
        }
        assert(self.hb@ =~= Seq::new(old(self).hb@.len(), |i: int| blank_half()));
        assert(self.fg@ =~= Seq::new(old(self).fg@.len(), |i: int| blank_fg()));
    }

    /// Sets a half pixel of the background; `hx` counts half pixels
    /// (0 to `width * 2`). Outside the screen nothing changes.
    pub fn set_half_pixel(&mut self, hx: usize, y: usize, color: Color)
        requires
            old(self).wf(),
        ensures
            final(self).wf(),
            final(self).width == old(self).width,
            final(self).height == old(self).height,
            final(self).fg@ == old(self).fg@,
            final(self).shown() == old(self).shown(),
            final(self).redraw_pending() == old(self).redraw_pending(),
            final(self).hb@ == if hx < old(self).width * 2 && y < old(self).height {
                old(self).hb@.update(y * old(self).width * 2 + hx, HalfPixel { color })
            } else {
                old(self).hb@
            },
    {
        if hx < self.width * 2 && y < self.height {
            proof { self.lemma_half_index(hx, y); }
            let idx = y * self.width * 2 + hx;
            self.hb.set(idx, HalfPixel { color });
        }
    }

    proof fn lemma_half_index(&self, hx: usize, y: usize)
        requires
            self.wf(),
            hx < self.width * 2,
            y < self.height,
        ensures
            y * self.width * 2 + hx < self.hb@.len(),
    {
        let w2 = self.width * 2;
        let w = self.width;
        let h = self.height;
        assert(y * w * 2 == y * w2) by (nonlinear_arith) requires w2 == w * 2;
        assert(y * w2 + hx < (y + 1) * w2) by (nonlinear_arith) requires hx < w2;
        assert((y + 1) * w2 <= h * w2) by (nonlinear_arith) requires y < h, w2 >= 0;
        assert(w * 2 * h == h * w2) by (nonlinear_arith) requires w2 == w * 2;
    }

    proof fn lemma_cell_index(&self, x: usize, y: usize)
        requires
            self.wf(),
            x < self.width,
            y < self.height,
        ensures
            y * self.width + x < self.fg@.len(),
            2 * (y * self.width + x) + 1 < self.hb@.len(),
            y * self.width * 2 + x * 2 == 2 * (y * self.width + x),
    {
        let w = self.width;
        assert(y * w + x < (y + 1) * w) by (nonlinear_arith) requires x < w;
        assert((y + 1) * w <= self.height * w) by (nonlinear_arith) requires y < self.height;
        assert(w * self.height == self.height * w) by (nonlinear_arith);
        assert(y * w * 2 == 2 * (y * w)) by (nonlinear_arith);
        assert(w * 2 * self.height == 2 * (w * self.height)) by (nonlinear_arith);
    }

    /// Sets a foreground cell. Outside the screen nothing changes.
    pub fn set_fg(&mut self, x: usize, y: usize, ch: char, fg: Color, bg: Color)
        requires
            old(self).wf(),
        ensures
            final(self).wf(),
            final(self).width == old(self).width,
            final(self).height == old(self).height,
            final(self).hb@ == old(self).hb@,
            final(self).shown() == old(self).shown(),
            final(self).redraw_pending() == old(self).redraw_pending(),
            final(self).fg@ == if x < old(self).width && y < old(self).height {
                old(self).fg@.update(y * old(self).width + x, FgCell { ch, fg, bg, active: true })
            } else {
                old(self).fg@
            },
    {
        if x < self.width && y < self.height {
            proof { self.lemma_cell_index(x, y); }
            let idx = y * self.width + x;
            self.fg.set(idx, FgCell { ch, fg, bg, active: true });
        }
    }

    /// Sets a foreground cell whose background is the colour of the left
    /// half pixel beneath it. Outside the screen nothing changes.
    pub fn set_fg_transparent(&mut self, x: usize, y: usize, ch: char, fg: Color)
        requires
            old(self).wf(),
        ensures
            final(self).wf(),
            final(self).width == old(self).width,
            final(self).height == old(self).height,
            final(self).hb@ == old(self).hb@,
            final(self).shown() == old(self).shown(),
            final(self).redraw_pending() == old(self).redraw_pending(),
            final(self).fg@ == if x < old(self).width && y < old(self).height {
                old(self).fg@.update(
                    y * old(self).width + x,
                    FgCell { ch, fg, bg: old(self).hb@[2 * (y * old(self).width + x)].color, active: true },
                )
            } else {
                old(self).fg@
            },
    {
        if x < self.width && y < self.height {
            proof { self.lemma_cell_index(x, y); }
            let idx = y * self.width + x;
            let hx = x * 2;
            let left = self.hb[y * self.width * 2 + hx].color;
            let right = self.hb[y * self.width * 2 + hx + 1].color;
            let bg = if left == right { left } else { left };
            self.fg.set(idx, FgCell { ch, fg, bg, active: true });
        }
    }

    /// Composites background and foreground into the current frame.
    pub fn composite(&mut self)
        requires
            old(self).wf(),
        ensures
            final(self).wf(),
            final(self).current@ == old(self).frame(),
            final(self).width == old(self).width,
            final(self).height == old(self).height,
            final(self).hb@ == old(self).hb@,
            final(self).fg@ == old(self).fg@,
            final(self).previous@ == old(self).previous@,
            final(self).first_frame == old(self).first_frame,
    {
        proof { Self::lemma_cells(self.width, self.height); }
        let n = self.fg.len();
        let mut i: usize = 0;
        while i < n
            invariant
                self.wf(),
                n == self.fg@.len(),
                self.width == old(self).width,
                self.height == old(self).height,
                self.hb@ == old(self).hb@,
                self.fg@ == old(self).fg@,
                self.previous@ == old(self).previous@,
                self.first_frame == old(self).first_frame,
                self.hb@.len() == 2 * n,
                i <= n,
                forall|k: int| 0 <= k < i ==> #[trigger] self.current@[k] == old(self).frame()[k],
            decreases n - i,
        {
            let c = self.fg[i];
            let left = self.hb[2 * i].color;
            let right = self.hb[2 * i + 1].color;
            let cell = if c.active {
                TermCell { ch: c.ch, fg: c.fg, bg: c.bg }
            } else if left == right {
                TermCell { ch: ' ', fg: left, bg: left }
            } else {
                TermCell { ch: HALF_BLOCK, fg: left, bg: right }
            };
            self.current.set(i, cell);
            i = i + 1;
        }
        assert(self.current@ =~= old(self).frame());
    }

    /// Composites the layers and lists the cells to write, in row order:
    /// every cell after a forced redraw, else those that differ from what the
    /// terminal shows. Afterwards the terminal is taken to show the frame.
    pub fn render_diff(&mut self) -> (out: Vec<(usize, usize, TermCell)>)
        requires
            old(self).wf(),
        ensures
            final(self).wf(),
            out@ == changed_cells(old(self).frame(), old(self).shown(), old(self).width as int,
                old(self).redraw_pending(), old(self).fg@.len() as int),
            final(self).shown() == old(self).frame(),
            !final(self).redraw_pending(),
            final(self).width == old(self).width,
            final(self).height == old(self).height,
            final(self).hb@ == old(self).hb@,
            final(self).fg@ == old(self).fg@,
    {
        self.composite();
        let force_all = self.first_frame;
        self.first_frame = false;
        let ghost frame = old(self).frame();
        let ghost shown = old(self).shown();
        let w = self.width;
        let h = self.height;
        let mut out: Vec<(usize, usize, TermCell)> = Vec::new();
        let mut y: usize = 0;
        let mut idx: usize = 0;
        while y < h
            invariant
                self.wf(),
                w == self.width,
                h == self.height,
                self.current@ == frame,
                self.previous@ == shown,
                frame.len() == w * h,
                y <= h,
                idx == y * w,
                out@ == changed_cells(frame, shown, w as int, force_all, idx as int),
            decreases h - y,
        {
            let mut x: usize = 0;
            while x < w
                invariant
                    self.wf(),
                    w == self.width,
                    h == self.height,
                    self.current@ == frame,
                    self.previous@ == shown,
                    frame.len() == w * h,
                    y < h,
                    x <= w,
                    idx == y * w + x,
                    out@ == changed_cells(frame, shown, w as int, force_all, idx as int),
                decreases w - x,
            {
                proof {
                    Self::lemma_cells(w, h);
                    assert(y * w + x < (y + 1) * w) by (nonlinear_arith) requires x < w;
                    assert((y + 1) * w <= h * w) by (nonlinear_arith) requires y < h;
                    assert(w * h == h * w) by (nonlinear_arith);
                    vstd::arithmetic::div_mod::lemma_fundamental_div_mod_converse(idx as int, w as int, y as int, x as int);
                }
                let cell = self.current[idx];
                if force_all || cell != self.previous[idx] {
                    out.push((x, y, cell));
                }
                x = x + 1;
                idx = idx + 1;
            }
            assert((y + 1) * w == y * w + w) by (nonlinear_arith);
            y = y + 1;
        }
        assert(idx == w * h) by (nonlinear_arith) requires idx == y * w, y == h;
        std::mem::swap(&mut self.current, &mut self.previous);
        out
    }
}

/// Every cell that differs from what the terminal shows (every cell, when a
/// redraw is forced) is written, with its new content, at its column and
/// row.
pub proof fn lemma_diff_covers(frame: Seq<TermCell>, shown: Seq<TermCell>, width: int, force: bool, n: int, k: int)
    requires
        width > 0,
        0 <= k < n,
        n <= frame.len(),
        n <= shown.len(),
        force || frame[k] != shown[k],
        k <= usize::MAX,
    ensures
        changed_cells(frame, shown, width, force, n).contains(((k % width) as usize, (k / width) as usize, frame[k])),
    decreases n,
{
    let cells = changed_cells(frame, shown, width, force, n);
    if k == n - 1 {
        assert(cells.last() == ((k % width) as usize, (k / width) as usize, frame[k]));
        assert(cells[cells.len() - 1] == cells.last());
    } else {
        lemma_diff_covers(frame, shown, width, force, n - 1, k);
        let rest = changed_cells(frame, shown, width, force, n - 1);
        let e = ((k % width) as usize, (k / width) as usize, frame[k]);
        let i = choose|i: int| 0 <= i < rest.len() && rest[i] == e;
        assert(cells[i] == e);
    }
}

/// Every written cell carries the frame's content of its position, and no
/// unchanged cell is written unless a redraw was forced.
pub proof fn lemma_diff_exact(frame: Seq<TermCell>, shown: Seq<TermCell>, width: int, force: bool, n: int)
    requires
        width > 0,
        n <= usize::MAX,
        0 <= n <= frame.len(),
        n <= shown.len(),
    ensures
        forall|i: int| 0 <= i < changed_cells(frame, shown, width, force, n).len() ==> {
            let e = #[trigger] changed_cells(frame, shown, width, force, n)[i];
            let k = e.1 * width + e.0;
            &&& 0 <= k < n
            &&& e.2 == frame[k]
            &&& (force || frame[k] != shown[k])
        },
    decreases n,
{
    if n > 0 {
        lemma_diff_exact(frame, shown, width, force, n - 1);
        let k = n - 1;
        assert(k == (k / width) * width + (k % width)) by (nonlinear_arith) requires width > 0;
        assert(0 <= k % width < width) by (nonlinear_arith) requires width > 0, k >= 0;
        assert(0 <= k / width <= k) by (nonlinear_arith) requires width > 0, k >= 0;
        let cells = changed_cells(frame, shown, width, force, n);
        let rest = changed_cells(frame, shown, width, force, n - 1);
        assert forall|i: int| 0 <= i < cells.len() implies {
            let e = #[trigger] cells[i];
            let k2 = e.1 * width + e.0;
            &&& 0 <= k2 < n
            &&& e.2 == frame[k2]
            &&& (force || frame[k2] != shown[k2])
        } by {
            if i < rest.len() {
                assert(cells[i] == rest[i]);
            } else {
                assert(cells[i] == ((k % width) as usize, (k / width) as usize, frame[k]));
                assert((k % width) as usize as int == k % width);
                assert((k / width) as usize as int == k / width);
            }
        }
    }
}

/// Rendering a frame that the terminal already shows, with no redraw
/// pending, writes nothing.
pub proof fn lemma_diff_unchanged_empty(frame: Seq<TermCell>, width: int, n: int)
    ensures
        changed_cells(frame, frame, width, false, n) == Seq::<(usize, usize, TermCell)>::empty(),
    decreases n,
{
    if n > 0 {
        lemma_diff_unchanged_empty(frame, width, n - 1);
    }
}

/// A forced redraw writes every cell.
pub proof fn lemma_diff_forced_all(frame: Seq<TermCell>, shown: Seq<TermCell>, width: int, n: int)
    requires
        n >= 0,
    ensures
        changed_cells(frame, shown, width, true, n).len() == n,
    decreases n,
{
    if n > 0 {
        lemma_diff_forced_all(frame, shown, width, n - 1);
    }
}

} // verus!
