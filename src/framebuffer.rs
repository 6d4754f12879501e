//! A color buffer with a parallel depth buffer. Writes pass a depth test
//! (smaller is nearer); pixels outside the buffer are dropped silently.
use vstd::prelude::*;
use crate::geometry::Color;
use crate::raster::Fragment;

verus! {

/// The depth every pixel holds after a clear: farther than any fragment.
pub const FAR_DEPTH: i64 = 0x7fff_ffff_ffff_ffff;

/// The abstract state of a framebuffer.
pub struct FrameModel {
    pub width: nat,
    pub height: nat,
    pub colors: Seq<Color>,
    pub depths: Seq<i64>,
    pub background: Color,
}

pub open spec fn in_bounds(m: FrameModel, x: int, y: int) -> bool {
    0 <= x < m.width && 0 <= y < m.height
}

pub open spec fn pixel_index(m: FrameModel, x: int, y: int) -> int {
    y * m.width + x
}

/// The state after a depth-tested write of `color` at depth `depth` to `(x, y)`.
pub open spec fn write_model(m: FrameModel, x: int, y: int, color: Color, depth: i64) -> FrameModel {
    let i = pixel_index(m, x, y);
    if in_bounds(m, x, y) && depth < m.depths[i] {
        FrameModel { colors: m.colors.update(i, color), depths: m.depths.update(i, depth), ..m }
    } else {
        m
    }
}

pub open spec fn model_wf(m: FrameModel) -> bool {
    m.colors.len() == m.width * m.height && m.depths.len() == m.width * m.height
}

pub proof fn lemma_index_in_range(m: FrameModel, x: int, y: int)
    requires
        in_bounds(m, x, y),
    ensures
        0 <= pixel_index(m, x, y) < m.width * m.height,
{
    assert(0 <= y * m.width + x < m.width * m.height) by (nonlinear_arith)
        requires
            0 <= x < m.width,
            0 <= y < m.height,
    ;
}

/// Writing the same fragment twice leaves the buffer as writing it once.
pub proof fn lemma_write_idempotent(m: FrameModel, x: int, y: int, color: Color, depth: i64)
    requires
        model_wf(m),
    ensures
        write_model(write_model(m, x, y, color, depth), x, y, color, depth) == write_model(
            m,
            x,
            y,
            color,
            depth,
        ),
{
    if in_bounds(m, x, y) {
        lemma_index_in_range(m, x, y);
    }
}

/// Two fragments at one pixel with depths `d1 < d2`: whichever is written
/// first, the buffer ends in the same state, and where the nearer one passes
/// the test against what the pixel held, the pixel keeps its color and depth.
pub proof fn lemma_nearest_wins(
    m: FrameModel,
    x: int,
    y: int,
    c1: Color,
    d1: i64,
    c2: Color,
    d2: i64,
)
    requires
        model_wf(m),
        d1 < d2,
    ensures
        write_model(write_model(m, x, y, c1, d1), x, y, c2, d2) == write_model(
            write_model(m, x, y, c2, d2),
            x,
            y,
            c1,
            d1,
        ),
        in_bounds(m, x, y) && d1 < m.depths[pixel_index(m, x, y)] ==> write_model(
            write_model(m, x, y, c2, d2),
            x,
            y,
            c1,
            d1,
        ).colors[pixel_index(m, x, y)] == c1 && write_model(
            write_model(m, x, y, c1, d1),
            x,
            y,
            c2,
            d2,
        ).colors[pixel_index(m, x, y)] == c1,
{
    let i = pixel_index(m, x, y);
    if in_bounds(m, x, y) {
        lemma_index_in_range(m, x, y);
        let a = write_model(write_model(m, x, y, c1, d1), x, y, c2, d2);
        let b = write_model(write_model(m, x, y, c2, d2), x, y, c1, d1);
        assert(a.colors =~= b.colors);
        assert(a.depths =~= b.depths);
    }
}

/// A row-major color buffer with a depth per pixel.
pub struct Framebuffer {
    width: usize,
    height: usize,
    colors: Vec<Color>,
    depths: Vec<i64>,
    background: Color,
}

impl Framebuffer {
    pub closed spec fn view(&self) -> FrameModel {
        FrameModel {
            width: self.width as nat,
            height: self.height as nat,
            colors: self.colors@,
            depths: self.depths@,
            background: self.background,
        }
    }

    /// The buffers hold exactly one entry per pixel.
    pub open spec fn wf(&self) -> bool {
        model_wf(self.view())
    }

    pub fn width(&self) -> (w: usize)
        ensures
            w == self.view().width,
    {
        self.width
    }

    pub fn height(&self) -> (h: usize)
        ensures
            h == self.view().height,
    {
        self.height
    }

    /// A cleared buffer of `width * height` black pixels at `FAR_DEPTH`.
    pub fn new(width: usize, height: usize) -> (fb: Framebuffer)
        requires
            width * height <= usize::MAX,
        ensures
            fb.wf(),
            fb.view().width == width,
            fb.view().height == height,
            fb.view().background == Color::black(),
            forall|i: int|
                0 <= i < width * height ==> fb.view().colors[i] == Color::black()
                    && fb.view().depths[i] == FAR_DEPTH,
    {
        let n = width * height;
        let black = Color::black();
        let mut colors: Vec<Color> = Vec::new();
        let mut depths: Vec<i64> = Vec::new();
        let mut i: usize = 0;
        while i < n
            invariant
                i <= n,
                colors@.len() == i,
                depths@.len() == i,
                forall|j: int| 0 <= j < i ==> colors@[j] == black && depths@[j] == FAR_DEPTH,
            decreases n - i,
        {
            colors.push(black);
            depths.push(FAR_DEPTH);
            i = i + 1;
        }
        Framebuffer { width, height, colors, depths, background: black }
    }

    pub fn set_background_color(&mut self, color: Color)
        ensures
            final(self).view() == (FrameModel { background: color, ..old(self).view() }),
    {
        self.background = color;
    }

    /// Resets every pixel to the background color and every depth to `FAR_DEPTH`.
    pub fn clear(&mut self)
        requires
            old(self).wf(),
        ensures
            final(self).wf(),
            final(self).view().width == old(self).view().width,
            final(self).view().height == old(self).view().height,
            final(self).view().background == old(self).view().background,
            forall|i: int|
                #![trigger final(self).view().colors[i]]
                0 <= i < old(self).view().width * old(self).view().height
                    ==> final(self).view().colors[i] == old(self).view().background
                    && final(self).view().depths[i] == FAR_DEPTH,
    {
        let n = self.colors.len();
        let mut i: usize = 0;
        while i < n
            invariant
                i <= n,
                n == self.colors@.len(),
                self.wf(),
                self.width == old(self).width,
                self.height == old(self).height,
                self.background == old(self).background,
                forall|j: int|
                    0 <= j < i ==> self.colors@[j] == self.background && self.depths@[j]
                        == FAR_DEPTH,
            decreases n - i,
        {
            let bg = self.background;
            self.colors.set(i, bg);
            self.depths.set(i, FAR_DEPTH);
            i = i + 1;
        }
    }

    /// Depth-tested write: the pixel takes `color` and `depth` only when
    /// `(x, y)` lies in the buffer and `depth` is nearer than what it holds.
    pub fn point(&mut self, x: i64, y: i64, color: Color, depth: i64)
        requires
            old(self).wf(),
        ensures
            final(self).wf(),
            final(self).view() == write_model(old(self).view(), x as int, y as int, color, depth),
    {
        if x >= 0 && y >= 0 && (x as u64) < (self.width as u64) && (y as u64) < (
        self.height as u64) {
            let ux = x as usize;
            let uy = y as usize;
            let n = self.colors.len();
            proof {
                lemma_index_in_range(self.view(), x as int, y as int);
                assert(uy * self.width <= uy * self.width + ux < n);
            }
            let i = uy * self.width + ux;
            if depth < self.depths[i] {
                self.colors.set(i, color);
                self.depths.set(i, depth);
            }
        }
    }

    /// Writes a fragment's color at its depth, through the depth test.
    pub fn write_fragment(&mut self, f: &Fragment)
        requires
            old(self).wf(),
        ensures
            final(self).wf(),
            final(self).view() == write_model(
                old(self).view(),
                f.x as int,
                f.y as int,
                f.color,
                f.depth,
            ),
    {
        self.point(f.x, f.y, f.color, f.depth);
    }

    /// The color at `(x, y)`, or `None` outside the buffer.
    pub fn get_color(&self, x: i64, y: i64) -> (r: Option<Color>)
        requires
            self.wf(),
        ensures
            in_bounds(self.view(), x as int, y as int) ==> r == Some(
                self.view().colors[pixel_index(self.view(), x as int, y as int)],
            ),
            !in_bounds(self.view(), x as int, y as int) ==> r.is_none(),
    {
        if x >= 0 && y >= 0 && (x as u64) < (self.width as u64) && (y as u64) < (
        self.height as u64) {
            let n = self.colors.len();
            proof {
                lemma_index_in_range(self.view(), x as int, y as int);
            }
            let i = (y as usize) * self.width + (x as usize);
            Some(self.colors[i])
        } else {
            None
        }
    }

    /// The depth at `(x, y)`, or `None` outside the buffer.
    pub fn get_depth(&self, x: i64, y: i64) -> (r: Option<i64>)
        requires
            self.wf(),
        ensures
            in_bounds(self.view(), x as int, y as int) ==> r == Some(
                self.view().depths[pixel_index(self.view(), x as int, y as int)],
            ),
            !in_bounds(self.view(), x as int, y as int) ==> r.is_none(),
    {
        if x >= 0 && y >= 0 && (x as u64) < (self.width as u64) && (y as u64) < (
        self.height as u64) {
            let n = self.depths.len();
            proof {
                lemma_index_in_range(self.view(), x as int, y as int);
            }
            let i = (y as usize) * self.width + (x as usize);
            Some(self.depths[i])
        } else {
            None
        }
    }

    /// The color buffer in row-major order, as handed to a presentation layer.
    pub fn colors(&self) -> (r: &Vec<Color>)
        ensures
            r@ == self.view().colors,
    {
        &self.colors
    }
}

} // verus!
