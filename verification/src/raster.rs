//! The triangle rasteriser and the pixel buffer it fills.
//!
//! A triangle is filled by walking the whole pixels of its bounding box and
//! testing each against the triangle with whole-number areas: a point counts
//! as inside when the three triangles it spans with the edges add up to the
//! triangle's own area, give or take [`TOLERANCE`].

use vstd::prelude::*;
use vstd::arithmetic::div_mod::{
    lemma_fundamental_div_mod, lemma_fundamental_div_mod_converse, lemma_mod_bound,
};
use crate::fixed::{Fixed, ONE, magnitude, lemma_product_bound};
use crate::vector::Vec2;
use crate::color::{RGB, spec_pack, pack};

verus! {

/// How far the three partial areas may differ from the area of the
/// triangle for a point to count as inside, in whole square pixels.
pub const TOLERANCE: i64 = 5;

/// The raw shoelace sum of a triangle of area one: twice `ONE` squared.
pub const DOUBLE_UNIT_AREA: i64 = 0x2_0000_0000;

/// The largest width and height of a pixel buffer.
pub const MAX_DIMENSION: usize = 0xFFFF;

/// How a request to draw a triangle ended.
#[derive(Clone, Copy, Debug, PartialEq, Eq, Structural)]
pub enum DrawOutcome {
    /// The bounding box was walked.
    Drawn,
    /// The bounding box is less than one pixel wide or high.
    DegenerateGeometry,
    /// The bounding box ends left of and above the frame.
    OutOfFrame,
}

/// The smallest axis-aligned box around a triangle.
#[derive(Clone, Copy, Debug, PartialEq, Eq, Structural)]
pub struct BoundingBox {
    pub left: Fixed,
    pub top: Fixed,
    pub right: Fixed,
    pub bottom: Fixed,
}

/// The smaller of two numbers.
pub open spec fn spec_min(a: int, b: int) -> int {
    if a > b {
        b
    } else {
        a
    }
}

/// The larger of two numbers.
pub open spec fn spec_max(a: int, b: int) -> int {
    if a < b {
        b
    } else {
        a
    }
}

/// The bounding box of the triangle `a`, `b`, `c`.
pub open spec fn spec_bounding_box(a: Vec2, b: Vec2, c: Vec2) -> BoundingBox {
    BoundingBox {
        left: spec_min(a.x as int, spec_min(b.x as int, c.x as int)) as i32,
        top: spec_min(a.y as int, spec_min(b.y as int, c.y as int)) as i32,
        right: spec_max(a.x as int, spec_max(b.x as int, c.x as int)) as i32,
        bottom: spec_max(a.y as int, spec_max(b.y as int, c.y as int)) as i32,
    }
}

impl BoundingBox {
    /// Whether the box has its edges in order.
    pub open spec fn ordered(self) -> bool {
        self.left <= self.right && self.top <= self.bottom
    }

    /// The width in whole pixels.
    pub open spec fn columns(self) -> int {
        (self.right - self.left) / (ONE as int)
    }

    /// The height in whole pixels.
    pub open spec fn rows(self) -> int {
        (self.bottom - self.top) / (ONE as int)
    }

    /// The column of the box that the pixel column `x` of the screen falls
    /// in; column 0 holds the left edge.
    pub open spec fn local_x(self, x: int) -> int {
        x - (self.left as int) / (ONE as int)
    }

    /// The row of the box that the pixel row `y` of the screen falls in.
    pub open spec fn local_y(self, y: int) -> int {
        y - (self.top as int) / (ONE as int)
    }

    /// The point that is tested for column `lx` and row `ly` of the box:
    /// the top-left corner moved by whole pixels.
    pub open spec fn sample(self, lx: int, ly: int) -> Vec2 {
        Vec2 { x: (self.left + lx * ONE) as i32, y: (self.top + ly * ONE) as i32 }
    }

    /// Whether column `lx`, row `ly` is among the places that are tested:
    /// all of the box's whole pixels but the very first.
    pub open spec fn walked(self, lx: int, ly: int) -> bool {
        0 <= lx < self.columns() && 0 <= ly < self.rows() && !(lx == 0 && ly == 0)
    }

    /// Whether no point of the box lies in a frame of the given size.
    pub open spec fn misses_frame(self, width: int, height: int) -> bool {
        self.right < 0 || self.bottom < 0 || self.left >= width * ONE || self.top >= height * ONE
    }
}

/// Twice the signed area of a triangle, in raw units.
pub open spec fn spec_shoelace(a: Vec2, b: Vec2, c: Vec2) -> int {
    a.x * (b.y - c.y) + b.x * (c.y - a.y) + c.x * (a.y - b.y)
}

/// The area of a triangle without its sign, cut to whole square pixels.
pub open spec fn spec_triangle_area(a: Vec2, b: Vec2, c: Vec2) -> int {
    magnitude(spec_shoelace(a, b, c)) / (DOUBLE_UNIT_AREA as int)
}

/// The inside test: the areas that `p` spans with the three edges add up
/// to the area of the triangle, give or take the tolerance.
pub open spec fn spec_inside(a: Vec2, b: Vec2, c: Vec2, p: Vec2) -> bool {
    magnitude(
        spec_triangle_area(a, b, c) - (spec_triangle_area(p, b, c) + spec_triangle_area(a, p, c)
            + spec_triangle_area(a, b, p)),
    ) < TOLERANCE
}

/// Whether drawing the triangle `a`, `b`, `c` colours the pixel in column
/// `x` and row `y` of the screen, for a pixel that the frame holds.
pub open spec fn covers(a: Vec2, b: Vec2, c: Vec2, x: int, y: int) -> bool {
    let bounds = spec_bounding_box(a, b, c);
    let lx = bounds.local_x(x);
    let ly = bounds.local_y(y);
    bounds.walked(lx, ly) && spec_inside(a, b, c, bounds.sample(lx, ly))
}

/// How drawing the triangle `a`, `b`, `c` ends.
pub open spec fn spec_outcome(a: Vec2, b: Vec2, c: Vec2) -> DrawOutcome {
    let bounds = spec_bounding_box(a, b, c);
    if bounds.columns() == 0 || bounds.rows() == 0 {
        DrawOutcome::DegenerateGeometry
    } else if bounds.right < 0 && bounds.bottom < 0 {
        DrawOutcome::OutOfFrame
    } else {
        DrawOutcome::Drawn
    }
}

/// Whether a shader can be called for every place.
pub open spec fn shades_everywhere<F: Fn(u32, u32, u32) -> RGB>(shader: F) -> bool {
    forall|x: u32, y: u32, z: u32| call_requires(shader, (x, y, z))
}

/// What drawing a triangle does to one pixel of the screen: a covered
/// pixel takes a colour that the shader gives for its place in the
/// bounding box, packed; any other pixel keeps its value.
pub open spec fn pixel_painted<F: Fn(u32, u32, u32) -> RGB>(
    before: u32,
    after: u32,
    a: Vec2,
    b: Vec2,
    c: Vec2,
    x: int,
    y: int,
    shader: F,
) -> bool {
    let bounds = spec_bounding_box(a, b, c);
    if covers(a, b, c, x, y) {
        exists|color: RGB|
            call_ensures(
                shader,
                (bounds.local_x(x) as u32, bounds.local_y(y) as u32, 0u32),
                color,
            ) && after == spec_pack(color)
    } else {
        after == before
    }
}

/// What drawing a triangle does to a row-major screen of the given width.
pub open spec fn painted<F: Fn(u32, u32, u32) -> RGB>(
    before: Seq<u32>,
    after: Seq<u32>,
    width: int,
    a: Vec2,
    b: Vec2,
    c: Vec2,
    shader: F,
) -> bool {
    &&& after.len() == before.len()
    &&& forall|k: int|
        0 <= k < before.len() ==> pixel_painted(
            before[k],
            #[trigger] after[k],
            a,
            b,
            c,
            k % width,
            k / width,
            shader,
        )
}

fn min(a: Fixed, b: Fixed) -> (r: Fixed)
    ensures
        r == spec_min(a as int, b as int),
{
    if a > b {
        b
    } else {
        a
    }
}

fn max(a: Fixed, b: Fixed) -> (r: Fixed)
    ensures
        r == spec_max(a as int, b as int),
{
    if a < b {
        b
    } else {
        a
    }
}

/// The bounding box of the triangle `a`, `b`, `c`.
pub fn bounding_box(a: Vec2, b: Vec2, c: Vec2) -> (bounds: BoundingBox)
    ensures
        bounds == spec_bounding_box(a, b, c),
        bounds.ordered(),
{
    BoundingBox {
        left: min(a.x, min(b.x, c.x)),
        top: min(a.y, min(b.y, c.y)),
        right: max(a.x, max(b.x, c.x)),
        bottom: max(a.y, max(b.y, c.y)),
    }
}

/// The area of a triangle without its sign, cut to whole square pixels.
pub fn triangle_area(a: Vec2, b: Vec2, c: Vec2) -> (r: u32)
    ensures
        r == spec_triangle_area(a, b, c),
{
    let d1: i128 = b.y as i128 - c.y as i128;
    let d2: i128 = c.y as i128 - a.y as i128;
    let d3: i128 = a.y as i128 - b.y as i128;
    proof {
        lemma_product_bound(a.x as int, d1 as int, 0x8000_0000, 0x1_0000_0000);
        lemma_product_bound(b.x as int, d2 as int, 0x8000_0000, 0x1_0000_0000);
        lemma_product_bound(c.x as int, d3 as int, 0x8000_0000, 0x1_0000_0000);
    }
    let twice: i128 = (a.x as i128) * d1 + (b.x as i128) * d2 + (c.x as i128) * d3;
    let unsigned: i128 = if twice >= 0 {
        twice
    } else {
        -twice
    };
    (unsigned / (DOUBLE_UNIT_AREA as i128)) as u32
}

/// The inside test for the point `p` and the triangle `a`, `b`, `c`.
pub fn inside(a: Vec2, b: Vec2, c: Vec2, p: Vec2) -> (r: bool)
    ensures
        r == spec_inside(a, b, c, p),
{
    inside_given_area(triangle_area(a, b, c), a, b, c, p)
}

fn inside_given_area(abc: u32, a: Vec2, b: Vec2, c: Vec2, p: Vec2) -> (r: bool)
    requires
        abc == spec_triangle_area(a, b, c),
    ensures
        r == spec_inside(a, b, c, p),
{
    let pbc: i64 = triangle_area(p, b, c) as i64;
    let apc: i64 = triangle_area(a, p, c) as i64;
    let abp: i64 = triangle_area(a, b, p) as i64;
    let difference: i64 = abc as i64 - (pbc + apc + abp);
    -TOLERANCE < difference && difference < TOLERANCE
}

/// The place in a box of `w` columns that the `i`-th step of a row-major
/// walk reaches is the only place with that number.
proof fn lemma_walk_place(w: int, h: int, i: int)
    requires
        w > 0,
        0 <= i < w * h,
    ensures
        0 <= i % w < w,
        0 <= i / w < h,
        i == (i / w) * w + i % w,
        forall|lx: int, ly: int| 0 <= lx < w && #[trigger] (ly * w + lx) == i ==> lx == i % w && ly == i / w,
{
    lemma_fundamental_div_mod(i, w);
    lemma_mod_bound(i, w);
    assert(0 <= i / w < h) by (nonlinear_arith)
        requires
            w > 0,
            0 <= i < w * h,
            i == w * (i / w) + i % w,
            0 <= i % w < w,
    ;
    assert((i / w) * w == w * (i / w)) by (nonlinear_arith);
    assert forall|lx: int, ly: int| 0 <= lx < w && #[trigger] (ly * w + lx) == i implies lx == i % w
        && ly == i / w by {
        lemma_fundamental_div_mod_converse(i, w, ly, lx);
    }
}

/// A place inside a box of `w` columns and `h` rows has a number below
/// `w * h` in a row-major walk.
proof fn lemma_place_number(w: int, h: int, lx: int, ly: int)
    requires
        0 <= lx < w,
        0 <= ly < h,
    ensures
        0 <= ly * w + lx < w * h,
        (ly * w + lx == 0) <==> (lx == 0 && ly == 0),
{
    assert(0 <= ly * w && ly * w + w <= w * h) by (nonlinear_arith)
        requires
            0 <= lx < w,
            0 <= ly < h,
    ;
    assert(ly > 0 ==> ly * w >= w) by (nonlinear_arith)
        requires
            w > 0,
    ;
}

/// The pixel in column `x` and row `y` of a row-major screen is found
/// again from its index.
pub proof fn lemma_pixel_index(width: int, x: int, y: int)
    requires
        0 <= x < width,
    ensures
        (y * width + x) % width == x,
        (y * width + x) / width == y,
{
    lemma_fundamental_div_mod_converse(y * width + x, width, y, x);
}

/// A pixel buffer: a screen of packed colours, row by row from the top.
pub struct PixelBuffer {
    width: usize,
    height: usize,
    pixels: Vec<u32>,
}

impl View for PixelBuffer {
    type V = Seq<u32>;

    closed spec fn view(&self) -> Seq<u32> {
        self.pixels@
    }
}

impl PixelBuffer {
    /// Whether the buffer holds one pixel for each place of a screen that
    /// is at most `MAX_DIMENSION` wide and high.
    pub open spec fn wf(&self) -> bool {
        &&& 0 <= self.spec_width() <= MAX_DIMENSION
        &&& 0 <= self.spec_height() <= MAX_DIMENSION
        &&& self@.len() == self.spec_width() * self.spec_height()
    }

    /// The number of pixels in a row.
    pub closed spec fn spec_width(&self) -> int {
        self.width as int
    }

    /// The number of rows.
    pub closed spec fn spec_height(&self) -> int {
        self.height as int
    }

    /// A buffer of the given size with every pixel set to `background`.
    pub fn new(width: u16, height: u16, background: u32) -> (buffer: PixelBuffer)
        ensures
            buffer.wf(),
            buffer.spec_width() == width,
            buffer.spec_height() == height,
            buffer@.len() == width * height,
            forall|k: int| 0 <= k < buffer@.len() ==> buffer@[k] == background,
    {
        assert(width * height <= MAX_DIMENSION * MAX_DIMENSION) by (nonlinear_arith)
            requires
                width <= MAX_DIMENSION,
                height <= MAX_DIMENSION,
        ;
        let count: usize = (width as usize) * (height as usize);
        PixelBuffer { width: width as usize, height: height as usize, pixels: filled(count, background) }
    }

    pub fn width(&self) -> (w: usize)
        ensures
            w == self.spec_width(),
    {
        self.width
    }

    pub fn height(&self) -> (h: usize)
        ensures
            h == self.spec_height(),
    {
        self.height
    }

    /// The pixels, row by row.
    pub fn pixels(&self) -> (pixels: &Vec<u32>)
        ensures
            pixels@ == self@,
    {
        &self.pixels
    }

    /// Hands out the finished frame and starts a new one of the same size
    /// with every pixel set to `background`.
    pub fn reset(&mut self, background: u32) -> (frame: Vec<u32>)
        requires
            old(self).wf(),
        ensures
            frame@ == old(self)@,
            final(self).wf(),
            final(self).spec_width() == old(self).spec_width(),
            final(self).spec_height() == old(self).spec_height(),
            final(self)@.len() == old(self)@.len(),
            forall|k: int| 0 <= k < final(self)@.len() ==> final(self)@[k] == background,
    {
        let mut frame = filled(self.pixels.len(), background);
        std::mem::swap(&mut self.pixels, &mut frame);
        frame
    }

    /// Fills the triangle `a`, `b`, `c`.
    ///
    /// The bounding box is cut to whole pixels. A box less than one pixel
    /// wide or high, or one that ends left of and above the frame, is
    /// skipped. Otherwise its pixels are walked row by row, but for the
    /// first, and each walked place that passes the inside test and lies
    /// in the frame is overwritten with the packed colour that `shader`
    /// gives for the place's column and row in the box. Nothing else
    /// changes; a box that misses the frame changes nothing.
    pub fn draw_triangle<F: Fn(u32, u32, u32) -> RGB>(
        &mut self,
        a: Vec2,
        b: Vec2,
        c: Vec2,
        shader: &F,
    ) -> (outcome: DrawOutcome)
        requires
            old(self).wf(),
            shades_everywhere(*shader),
        ensures
            final(self).wf(),
            final(self).spec_width() == old(self).spec_width(),
            final(self).spec_height() == old(self).spec_height(),
            outcome == spec_outcome(a, b, c),
            painted(old(self)@, final(self)@, old(self).spec_width(), a, b, c, *shader),
            outcome != DrawOutcome::Drawn ==> final(self)@ == old(self)@,
            spec_bounding_box(a, b, c).misses_frame(old(self).spec_width(), old(self).spec_height())
                ==> final(self)@ == old(self)@,
    {
        let ghost before = self.pixels@;
        let width: i64 = self.width as i64;
        let height: i64 = self.height as i64;
        let bounds = bounding_box(a, b, c);
        let one: i64 = ONE as i64;
        let w: i64 = (bounds.right as i64 - bounds.left as i64) / one;
        let h: i64 = (bounds.bottom as i64 - bounds.top as i64) / one;
        let outcome = if w == 0 || h == 0 {
            DrawOutcome::DegenerateGeometry
        } else if bounds.right < 0 && bounds.bottom < 0 {
            DrawOutcome::OutOfFrame
        } else {
            let abc = triangle_area(a, b, c);
            assert(w * h <= MAX_DIMENSION * MAX_DIMENSION && w * h >= 1) by (nonlinear_arith)
                requires
                    1 <= w <= MAX_DIMENSION,
                    1 <= h <= MAX_DIMENSION,
            ;
            let n: i64 = w * h;
            let mut i: i64 = 1;
            proof {
                assert forall|k: int| 0 <= k < before.len() implies pixel_painted_before(
                    before[k],
                    #[trigger] self.pixels@[k],
                    a,
                    b,
                    c,
                    k % (width as int),
                    k / (width as int),
                    *shader,
                    1,
                ) by {
                    let lx = bounds.local_x(k % (width as int));
                    let ly = bounds.local_y(k / (width as int));
                    if bounds.walked(lx, ly) {
                        lemma_place_number(w as int, h as int, lx, ly);
                    }
                }
            }
            while i < n
                invariant
                    1 <= i <= n,
                    n == w * h,
                    one == ONE,
                    1 <= w <= MAX_DIMENSION,
                    1 <= h <= MAX_DIMENSION,
                    bounds == spec_bounding_box(a, b, c),
                    bounds.ordered(),
                    w == bounds.columns(),
                    h == bounds.rows(),
                    abc == spec_triangle_area(a, b, c),
                    width == self.width,
                    height == self.height,
                    self.width == old(self).width,
                    self.height == old(self).height,
                    self.width <= MAX_DIMENSION,
                    self.height <= MAX_DIMENSION,
                    before.len() == self.width * self.height,
                    self.pixels@.len() == before.len(),
                    shades_everywhere(*shader),
                    forall|k: int|
                        0 <= k < before.len() ==> pixel_painted_before(
                            before[k],
                            #[trigger] self.pixels@[k],
                            a,
                            b,
                            c,
                            k % (width as int),
                            k / (width as int),
                            *shader,
                            i as int,
                        ),
                decreases n - i,
            {
                let lx: i64 = i % w;
                let ly: i64 = i / w;
                proof {
                    lemma_walk_place(w as int, h as int, i as int);
                }
                let p = Vec2 {
                    x: (bounds.left as i64 + lx * one) as i32,
                    y: (bounds.top as i64 + ly * one) as i32,
                };
                assert(p == bounds.sample(lx as int, ly as int));
                let ghost earlier = self.pixels@;
                if inside_given_area(abc, a, b, c, p) && p.x >= 0 && (p.x as i64) < width * one
                    && p.y >= 0 && (p.y as i64) < height * one {
                    let color = shader(lx as u32, ly as u32, 0);
                    let px: i64 = (p.x / ONE) as i64;
                    let py: i64 = (p.y / ONE) as i64;
                    assert(0 <= width * py && width * py + px < width * height && width * height
                        <= MAX_DIMENSION * MAX_DIMENSION) by (nonlinear_arith)
                        requires
                            0 <= px < width,
                            0 <= py < height,
                            width <= MAX_DIMENSION,
                            height <= MAX_DIMENSION,
                    ;
                    let index: usize = (width * py + px) as usize;
                    self.pixels.set(index, pack(color));
                    proof {
                        lemma_pixel_index(width as int, px as int, py as int);
                        assert(width * py + px == py * width + px) by (nonlinear_arith);
                        assert(bounds.local_x(px as int) == lx);
                        assert(bounds.local_y(py as int) == ly);
                        lemma_place_number(w as int, h as int, lx as int, ly as int);
                        assert(bounds.walked(lx as int, ly as int));
                        assert(covers(a, b, c, px as int, py as int));
                        assert forall|k: int| 0 <= k < before.len() implies pixel_painted_before(
                            before[k],
                            #[trigger] self.pixels@[k],
                            a,
                            b,
                            c,
                            k % (width as int),
                            k / (width as int),
                            *shader,
                            i + 1,
                        ) by {
                            lemma_walked_once(bounds, width as int, k, i as int, index as int);
                            if k != index {
                                assert(self.pixels@[k] == earlier[k]);
                            }
                        }
                    }
                } else {
                    proof {
                        assert forall|k: int| 0 <= k < before.len() implies pixel_painted_before(
                            before[k],
                            #[trigger] self.pixels@[k],
                            a,
                            b,
                            c,
                            k % (width as int),
                            k / (width as int),
                            *shader,
                            i + 1,
                        ) by {
                            lemma_frame_holds_sample(bounds, width as int, height as int, k);
                        }
                    }
                }
                i += 1;
            }
            proof {
                assert forall|k: int| 0 <= k < before.len() implies pixel_painted(
                    before[k],
                    #[trigger] self.pixels@[k],
                    a,
                    b,
                    c,
                    k % (width as int),
                    k / (width as int),
                    *shader,
                ) by {
                    let x = k % (width as int);
                    let y = k / (width as int);
                    if covers(a, b, c, x, y) {
                        lemma_place_number(w as int, h as int, bounds.local_x(x), bounds.local_y(y));
                    }
                }
            }
            DrawOutcome::Drawn
        };
        proof {
            if outcome != DrawOutcome::Drawn || bounds.misses_frame(width as int, height as int) {
                assert forall|k: int| 0 <= k < before.len() implies #[trigger] self.pixels@[k]
                    == before[k] by {
                    lemma_frame_holds_sample(bounds, width as int, height as int, k);
                }
                assert(self.pixels@ =~= before);
            }
        }
        outcome
    }
}

/// What the walk has done to one pixel before its `i`-th step: the pixels
/// that it has reached are painted, the others are as they were.
spec fn pixel_painted_before<F: Fn(u32, u32, u32) -> RGB>(
    before: u32,
    after: u32,
    a: Vec2,
    b: Vec2,
    c: Vec2,
    x: int,
    y: int,
    shader: F,
    i: int,
) -> bool {
    let bounds = spec_bounding_box(a, b, c);
    if bounds.local_y(y) * bounds.columns() + bounds.local_x(x) < i {
        pixel_painted(before, after, a, b, c, x, y, shader)
    } else {
        after == before
    }
}

/// The pixel with index `k` of a frame holds the point that is tested for
/// it, and that point lies in the frame and in the box.
proof fn lemma_frame_holds_sample(bounds: BoundingBox, width: int, height: int, k: int)
    requires
        bounds.ordered(),
        0 < width,
        0 <= k < width * height,
    ensures
        ({
            let x = k % width;
            let y = k / width;
            let lx = bounds.local_x(x);
            let ly = bounds.local_y(y);
            &&& 0 <= x < width
            &&& 0 <= y < height
            &&& bounds.walked(lx, ly) ==> {
                &&& 0 <= bounds.left + lx * ONE < width * ONE
                &&& 0 <= bounds.top + ly * ONE < height * ONE
                &&& bounds.left + lx * ONE <= bounds.right
                &&& bounds.top + ly * ONE <= bounds.bottom
                &&& (bounds.left + lx * ONE) / (ONE as int) == x
                &&& (bounds.top + ly * ONE) / (ONE as int) == y
            }
        }),
{
    lemma_walk_place(width, height, k);
}

/// Two pixels of a frame that are tested at the same step of the walk are
/// one pixel.
proof fn lemma_walked_once(bounds: BoundingBox, width: int, k: int, i: int, index: int)
    requires
        bounds.columns() > 0,
        0 < width,
        0 <= k,
        0 <= index,
        bounds.walked(bounds.local_x(index % width), bounds.local_y(index / width)),
        bounds.local_y(index / width) * bounds.columns() + bounds.local_x(index % width) == i,
    ensures
        bounds.walked(bounds.local_x(k % width), bounds.local_y(k / width)) && bounds.local_y(
            k / width,
        ) * bounds.columns() + bounds.local_x(k % width) == i ==> k == index,
{
    let w = bounds.columns();
    let lx = bounds.local_x(k % width);
    let ly = bounds.local_y(k / width);
    if bounds.walked(lx, ly) && ly * w + lx == i {
        lemma_fundamental_div_mod_converse(i, w, ly, lx);
        lemma_fundamental_div_mod_converse(
            i,
            w,
            bounds.local_y(index / width),
            bounds.local_x(index % width),
        );
        lemma_fundamental_div_mod(k, width);
        lemma_fundamental_div_mod(index, width);
    }
}

/// Whether `p` lies in the triangle `a`, `b`, `c` or on its edge: none of
/// its three barycentric coordinates is negative. The coordinates are the
/// signed areas that `p` spans with the edges, over the signed area of the
/// triangle, so it is enough that no two of the three differ in sign.
pub open spec fn spec_within(a: Vec2, b: Vec2, c: Vec2, p: Vec2) -> bool {
    let pbc = spec_shoelace(p, b, c);
    let apc = spec_shoelace(a, p, c);
    let abp = spec_shoelace(a, b, p);
    (pbc >= 0 && apc >= 0 && abp >= 0) || (pbc <= 0 && apc <= 0 && abp <= 0)
}

/// The sum of the areas that `p` spans with the three edges of the
/// triangle `a`, `b`, `c`, each cut to a whole number.
pub open spec fn spec_partial_areas(a: Vec2, b: Vec2, c: Vec2, p: Vec2) -> int {
    spec_triangle_area(p, b, c) + spec_triangle_area(a, p, c) + spec_triangle_area(a, b, p)
}

/// The product of `x` with a difference is the difference of the
/// products.
proof fn lemma_distributes(x: int, u: int, v: int)
    ensures
        x * (u - v) == x * u - x * v,
{
    assert(x * (u - v) == x * u - x * v) by (nonlinear_arith);
}

/// The signed areas that a point spans with the three edges of a triangle
/// add up to the signed area of the triangle, wherever the point lies.
pub proof fn lemma_shoelace_splits(a: Vec2, b: Vec2, c: Vec2, p: Vec2)
    ensures
        spec_shoelace(p, b, c) + spec_shoelace(a, p, c) + spec_shoelace(a, b, p) == spec_shoelace(
            a,
            b,
            c,
        ),
{
    let (ax, ay) = (a.x as int, a.y as int);
    let (bx, by) = (b.x as int, b.y as int);
    let (cx, cy) = (c.x as int, c.y as int);
    let (px, py) = (p.x as int, p.y as int);
    lemma_distributes(px, by, cy);
    lemma_distributes(bx, cy, py);
    lemma_distributes(cx, py, by);
    lemma_distributes(ax, py, cy);
    lemma_distributes(px, cy, ay);
    lemma_distributes(cx, ay, py);
    lemma_distributes(ax, by, py);
    lemma_distributes(bx, py, ay);
    lemma_distributes(px, ay, by);
    lemma_distributes(ax, by, cy);
    lemma_distributes(bx, cy, ay);
    lemma_distributes(cx, ay, by);
}

/// A point in a triangle or on its edge passes the inside test: cutting
/// the four areas to whole numbers costs less than the tolerance allows.
pub proof fn lemma_point_within_is_inside(a: Vec2, b: Vec2, c: Vec2, p: Vec2)
    requires
        spec_within(a, b, c, p),
    ensures
        spec_inside(a, b, c, p),
{
    let pbc = spec_shoelace(p, b, c);
    let apc = spec_shoelace(a, p, c);
    let abp = spec_shoelace(a, b, p);
    lemma_shoelace_splits(a, b, c, p);
    assert(magnitude(spec_shoelace(a, b, c)) == magnitude(pbc) + magnitude(apc) + magnitude(abp));
}

/// Every pixel that the walk over the bounding box reaches, and whose
/// tested point lies in the triangle or on its edge, is covered: drawing
/// the triangle gives it the shader's colour if the frame holds it. The
/// walk reaches every whole pixel of the box but the first.
pub proof fn lemma_pixels_within_are_covered(a: Vec2, b: Vec2, c: Vec2, x: int, y: int)
    requires
        ({
            let bounds = spec_bounding_box(a, b, c);
            let lx = bounds.local_x(x);
            let ly = bounds.local_y(y);
            bounds.walked(lx, ly) && spec_within(a, b, c, bounds.sample(lx, ly))
        }),
    ensures
        covers(a, b, c, x, y),
{
    let bounds = spec_bounding_box(a, b, c);
    lemma_point_within_is_inside(a, b, c, bounds.sample(bounds.local_x(x), bounds.local_y(y)));
}

/// What drawing a triangle guarantees of the pixel with index `k`: if the
/// walk reaches it and its tested point lies in the triangle or on its
/// edge, it holds a colour that the shader gives for its place in the box;
/// if its tested point fails the inside test, it is as it was.
pub proof fn lemma_painted_by_the_tolerance<F: Fn(u32, u32, u32) -> RGB>(
    before: Seq<u32>,
    after: Seq<u32>,
    width: int,
    a: Vec2,
    b: Vec2,
    c: Vec2,
    shader: F,
    k: int,
)
    requires
        painted(before, after, width, a, b, c, shader),
        0 <= k < before.len(),
    ensures
        ({
            let bounds = spec_bounding_box(a, b, c);
            let lx = bounds.local_x(k % width);
            let ly = bounds.local_y(k / width);
            &&& bounds.walked(lx, ly) && spec_within(a, b, c, bounds.sample(lx, ly)) ==> exists|
                color: RGB,
            |
                call_ensures(shader, (lx as u32, ly as u32, 0u32), color) && after[k] == spec_pack(
                    color,
                )
            &&& !spec_inside(a, b, c, bounds.sample(lx, ly)) ==> after[k] == before[k]
        }),
{
    let bounds = spec_bounding_box(a, b, c);
    let lx = bounds.local_x(k % width);
    let ly = bounds.local_y(k / width);
    assert(pixel_painted(before[k], after[k], a, b, c, k % width, k / width, shader));
    if bounds.walked(lx, ly) && spec_within(a, b, c, bounds.sample(lx, ly)) {
        lemma_pixels_within_are_covered(a, b, c, k % width, k / width);
    }
}

/// Whether the pixel in column `x` and row `y` is a walked place at which
/// the partial areas fall short of the tolerance.
pub open spec fn near_edges(a: Vec2, b: Vec2, c: Vec2, x: int, y: int) -> bool {
    let bounds = spec_bounding_box(a, b, c);
    let lx = bounds.local_x(x);
    let ly = bounds.local_y(y);
    bounds.walked(lx, ly) && spec_partial_areas(a, b, c, bounds.sample(lx, ly)) < TOLERANCE
}

/// A triangle with two corners in one place has no area, and the pixels
/// it covers are the walked places whose partial areas fall short of the
/// tolerance: it covers nothing where no walked place lies that near to
/// the one edge that is left of it.
pub proof fn lemma_coincident_corners(a: Vec2, b: Vec2, c: Vec2, x: int, y: int)
    requires
        a == b || b == c || a == c,
    ensures
        spec_triangle_area(a, b, c) == 0,
        covers(a, b, c, x, y) <==> near_edges(a, b, c, x, y),
{
    assert(spec_shoelace(a, b, c) == 0) by (nonlinear_arith)
        requires
            a == b || b == c || a == c,
            spec_shoelace(a, b, c) == a.x * (b.y - c.y) + b.x * (c.y - a.y) + c.x * (a.y - b.y),
    ;
}

/// Drawing a triangle with two corners in one place leaves the screen as
/// it was, unless a walked place of the frame lies within the tolerance
/// of the one edge that is left of it.
pub proof fn lemma_coincident_corners_unpainted<F: Fn(u32, u32, u32) -> RGB>(
    before: Seq<u32>,
    after: Seq<u32>,
    width: int,
    a: Vec2,
    b: Vec2,
    c: Vec2,
    shader: F,
)
    requires
        a == b || b == c || a == c,
        painted(before, after, width, a, b, c, shader),
        forall|k: int|
            #![trigger before[k]]
            0 <= k < before.len() ==> !near_edges(a, b, c, k % width, k / width),
    ensures
        after == before,
{
    assert forall|k: int| 0 <= k < before.len() implies #[trigger] after[k] == before[k] by {
        lemma_coincident_corners(a, b, c, k % width, k / width);
        assert(!near_edges(a, b, c, k % width, k / width)) by {
            let _ = before[k];
        }
    }
    assert(after =~= before);
}

/// A triangle whose bounding box misses the frame covers no pixel of the
/// frame.
pub proof fn lemma_box_off_screen_uncovered(
    a: Vec2,
    b: Vec2,
    c: Vec2,
    width: int,
    height: int,
    x: int,
    y: int,
)
    requires
        spec_bounding_box(a, b, c).misses_frame(width, height),
        0 <= x < width,
        0 <= y < height,
    ensures
        !covers(a, b, c, x, y),
{
    lemma_pixel_index(width, x, y);
    assert(0 <= y * width + x < width * height) by (nonlinear_arith)
        requires
            0 <= x < width,
            0 <= y < height,
    ;
    lemma_frame_holds_sample(spec_bounding_box(a, b, c), width, height, y * width + x);
}

/// A vector of `count` copies of `value`.
fn filled(count: usize, value: u32) -> (pixels: Vec<u32>)
    ensures
        pixels@.len() == count,
        forall|k: int| 0 <= k < count ==> pixels@[k] == value,
{
    let mut pixels: Vec<u32> = Vec::with_capacity(count);
    let mut k: usize = 0;
    while k < count
        invariant
            k <= count,
            pixels@.len() == k,
            forall|j: int| 0 <= j < k ==> pixels@[j] == value,
        decreases count - k,
    {
        pixels.push(value);
        k += 1;
    }
    pixels
}

} // verus!
