//! The renderer's state and its passes over a scene: the flat shapes it
//! holds, the polygons it projects, the camera, and the frame it hands out.

use vstd::prelude::*;
use crate::vector::{Vec2, Vec3};
use crate::color::RGB;
use crate::raster::{
    PixelBuffer, DrawOutcome, painted, spec_outcome, spec_bounding_box, shades_everywhere,
};
use crate::camera::{
    Input, Orientation, spec_steered_translation, spec_steered_rotation, spec_project_polygon,
    spec_camera_space, steer_translation, steer_rotation, project_polygon,
};

verus! {

/// The width of the default screen, in pixels.
pub const WIDTH: u16 = 540;

/// The height of the default screen, in pixels.
pub const HEIGHT: u16 = 360;

/// The packed colour that the default screen is cleared to.
pub const BACKGROUND: u32 = 0x101010;

/// A flat shape on the screen.
pub enum Shape<F> {
    /// A triangle with its three corners and the function that colours it.
    Triangle { a: Vec2, b: Vec2, c: Vec2, shader: F },
}

/// A triangle in the world with the function that colours it.
pub struct Polygon3D<F> {
    pub a: Vec3,
    pub b: Vec3,
    pub c: Vec3,
    pub color: F,
}

/// The renderer: the frame that is being drawn, the flat shapes of the
/// scene, the camera's pose and the colour that a new frame starts from.
pub struct Window<F> {
    pub buffer: PixelBuffer,
    pub shapes: Vec<Shape<F>>,
    pub camera_translation: Vec3,
    pub camera_rotation: Vec3,
    pub background: u32,
}

impl<F: Fn(u32, u32, u32) -> RGB> Shape<F> {
    /// Whether the shape's shader can be called for every place.
    pub open spec fn shades_everywhere(self) -> bool {
        match self {
            Shape::Triangle { a, b, c, shader } => shades_everywhere(shader),
        }
    }

    /// How drawing the shape ends.
    pub open spec fn outcome(self) -> DrawOutcome {
        match self {
            Shape::Triangle { a, b, c, shader } => spec_outcome(a, b, c),
        }
    }

    /// What drawing the shape does to a screen of the given width.
    pub open spec fn painted(self, before: Seq<u32>, after: Seq<u32>, width: int) -> bool {
        match self {
            Shape::Triangle { a, b, c, shader } => painted(before, after, width, a, b, c, shader),
        }
    }
}

impl<F: Fn(u32, u32, u32) -> RGB> Polygon3D<F> {
    /// How projecting and drawing the polygon ends: `None` if a corner
    /// lies in the camera's plane or behind it, else the end of the draw.
    pub open spec fn outcome(
        self,
        translation: Vec3,
        orientation: Orientation,
        width: int,
        height: int,
    ) -> Option<DrawOutcome> {
        match spec_project_polygon(self.a, self.b, self.c, translation, orientation, width, height) {
            Some((a, b, c)) => Some(spec_outcome(a, b, c)),
            None => None,
        }
    }

    /// What projecting and drawing the polygon does to a screen: nothing
    /// if a corner lies in the camera's plane or behind it, else what
    /// drawing the projected triangle does.
    pub open spec fn painted(
        self,
        before: Seq<u32>,
        after: Seq<u32>,
        translation: Vec3,
        orientation: Orientation,
        width: int,
        height: int,
    ) -> bool {
        match spec_project_polygon(self.a, self.b, self.c, translation, orientation, width, height) {
            Some((a, b, c)) => painted(before, after, width, a, b, c, self.color),
            None => after == before,
        }
    }
}

/// Whether `frames` holds the screen before the first shape is drawn and
/// after each shape in turn.
pub open spec fn shapes_painted<F: Fn(u32, u32, u32) -> RGB>(
    shapes: Seq<Shape<F>>,
    frames: Seq<Seq<u32>>,
    width: int,
) -> bool {
    &&& frames.len() == shapes.len() + 1
    &&& forall|i: int|
        0 <= i < shapes.len() ==> (#[trigger] shapes[i]).painted(frames[i], frames[i + 1], width)
}

/// Whether `frames` holds the screen before the first polygon is
/// projected and after each polygon in turn.
pub open spec fn polygons_painted<F: Fn(u32, u32, u32) -> RGB>(
    polygons: Seq<Polygon3D<F>>,
    frames: Seq<Seq<u32>>,
    translation: Vec3,
    orientation: Orientation,
    width: int,
    height: int,
) -> bool {
    &&& frames.len() == polygons.len() + 1
    &&& forall|i: int|
        0 <= i < polygons.len() ==> (#[trigger] polygons[i]).painted(
            frames[i],
            frames[i + 1],
            translation,
            orientation,
            width,
            height,
        )
}

/// A polygon with a corner in the camera's plane or behind it is never
/// drawn: projecting it reports no draw and leaves the screen as it was.
pub proof fn lemma_behind_camera_unpainted<F: Fn(u32, u32, u32) -> RGB>(
    polygon: Polygon3D<F>,
    before: Seq<u32>,
    after: Seq<u32>,
    translation: Vec3,
    orientation: Orientation,
    width: int,
    height: int,
)
    requires
        spec_camera_space(polygon.a, translation, orientation).z <= 0 || spec_camera_space(
            polygon.b,
            translation,
            orientation,
        ).z <= 0 || spec_camera_space(polygon.c, translation, orientation).z <= 0,
        polygon.painted(before, after, translation, orientation, width, height),
    ensures
        polygon.outcome(translation, orientation, width, height) is None,
        after == before,
{
}

impl<F: Fn(u32, u32, u32) -> RGB> Window<F> {
    /// Whether the frame is well formed.
    pub open spec fn wf(&self) -> bool {
        self.buffer.wf()
    }

    /// A renderer with a cleared frame of the given size, no shapes, and
    /// the camera at the origin, not turned.
    pub fn new(width: u16, height: u16, background: u32) -> (window: Window<F>)
        ensures
            window.wf(),
            window.buffer.spec_width() == width,
            window.buffer.spec_height() == height,
            window.buffer@.len() == width * height,
            forall|k: int| 0 <= k < window.buffer@.len() ==> window.buffer@[k] == background,
            window.shapes@.len() == 0,
            window.camera_translation == (Vec3 { x: 0, y: 0, z: 0 }),
            window.camera_rotation == (Vec3 { x: 0, y: 0, z: 0 }),
            window.background == background,
    {
        Window {
            buffer: PixelBuffer::new(width, height, background),
            shapes: Vec::new(),
            camera_rotation: Vec3::new(0, 0, 0),
            camera_translation: Vec3::new(0, 0, 0),
            background,
        }
    }

    /// Fills the triangle `a`, `b`, `c` into the frame.
    pub fn draw_triangle<G: Fn(u32, u32, u32) -> RGB>(
        &mut self,
        a: Vec2,
        b: Vec2,
        c: Vec2,
        shader: &G,
    ) -> (outcome: DrawOutcome)
        requires
            old(self).wf(),
            shades_everywhere(*shader),
        ensures
            final(self).wf(),
            final(self).buffer.spec_width() == old(self).buffer.spec_width(),
            final(self).buffer.spec_height() == old(self).buffer.spec_height(),
            final(self).shapes == old(self).shapes,
            final(self).camera_translation == old(self).camera_translation,
            final(self).camera_rotation == old(self).camera_rotation,
            final(self).background == old(self).background,
            outcome == spec_outcome(a, b, c),
            painted(old(self).buffer@, final(self).buffer@, old(self).buffer.spec_width(), a, b, c, *shader),
            outcome != DrawOutcome::Drawn ==> final(self).buffer@ == old(self).buffer@,
            spec_bounding_box(a, b, c).misses_frame(
                old(self).buffer.spec_width(),
                old(self).buffer.spec_height(),
            ) ==> final(self).buffer@ == old(self).buffer@,
    {
        self.buffer.draw_triangle(a, b, c, shader)
    }

    /// Draws the shapes of the scene in their order, each over what is
    /// there, and reports how each draw ended.
    pub fn draw_polygons(&mut self) -> (outcomes: Vec<DrawOutcome>)
        requires
            old(self).wf(),
            forall|i: int| 0 <= i < old(self).shapes@.len() ==> (#[trigger] old(self).shapes@[i]).shades_everywhere(),
        ensures
            final(self).wf(),
            final(self).buffer.spec_width() == old(self).buffer.spec_width(),
            final(self).buffer.spec_height() == old(self).buffer.spec_height(),
            final(self).shapes == old(self).shapes,
            final(self).camera_translation == old(self).camera_translation,
            final(self).camera_rotation == old(self).camera_rotation,
            final(self).background == old(self).background,
            outcomes@.len() == old(self).shapes@.len(),
            forall|i: int| 0 <= i < outcomes@.len() ==> outcomes@[i] == (#[trigger] old(self).shapes@[i]).outcome(),
            exists|frames: Seq<Seq<u32>>|
                {
                    &&& shapes_painted(old(self).shapes@, frames, old(self).buffer.spec_width())
                    &&& frames[0] == old(self).buffer@
                    &&& frames[old(self).shapes@.len() as int] == final(self).buffer@
                },
    {
        let ghost width = self.buffer.spec_width();
        let ghost mut frames: Seq<Seq<u32>> = seq![self.buffer@];
        let mut outcomes: Vec<DrawOutcome> = Vec::new();
        let mut k: usize = 0;
        while k < self.shapes.len()
            invariant
                self.wf(),
                self.buffer.spec_width() == width,
                self.buffer.spec_height() == old(self).buffer.spec_height(),
                self.shapes == old(self).shapes,
                self.camera_translation == old(self).camera_translation,
                self.camera_rotation == old(self).camera_rotation,
                self.background == old(self).background,
                forall|i: int| 0 <= i < self.shapes@.len() ==> (#[trigger] self.shapes@[i]).shades_everywhere(),
                k <= self.shapes@.len(),
                outcomes@.len() == k,
                forall|i: int| 0 <= i < k ==> outcomes@[i] == (#[trigger] self.shapes@[i]).outcome(),
                frames.len() == k + 1,
                frames[0] == old(self).buffer@,
                frames[k as int] == self.buffer@,
                forall|i: int| 0 <= i < k ==> (#[trigger] self.shapes@[i]).painted(frames[i], frames[i + 1], width),
            decreases self.shapes@.len() - k,
        {
            let outcome = match &self.shapes[k] {
                Shape::Triangle { a, b, c, shader } => self.buffer.draw_triangle(*a, *b, *c, shader),
            };
            outcomes.push(outcome);
            proof {
                frames = frames.push(self.buffer@);
            }
            k += 1;
        }
        outcomes
    }

    /// Projects each polygon onto the screen and draws it, in the order
    /// given and each over what is there, as the camera sees it from its
    /// place and with the given orientation. A polygon with a corner in the
    /// camera's plane or behind it is not drawn. Reports for each polygon
    /// how its draw ended, or `None` if it was not drawn.
    pub fn projection<G: Fn(u32, u32, u32) -> RGB>(
        &mut self,
        polygons: &Vec<Polygon3D<G>>,
        orientation: &Orientation,
    ) -> (outcomes: Vec<Option<DrawOutcome>>)
        requires
            old(self).wf(),
            forall|i: int| 0 <= i < polygons@.len() ==> shades_everywhere((#[trigger] polygons@[i]).color),
        ensures
            final(self).wf(),
            final(self).buffer.spec_width() == old(self).buffer.spec_width(),
            final(self).buffer.spec_height() == old(self).buffer.spec_height(),
            final(self).shapes == old(self).shapes,
            final(self).camera_translation == old(self).camera_translation,
            final(self).camera_rotation == old(self).camera_rotation,
            final(self).background == old(self).background,
            outcomes@.len() == polygons@.len(),
            forall|i: int| 0 <= i < outcomes@.len() ==> outcomes@[i] == (#[trigger] polygons@[i]).outcome(
                old(self).camera_translation,
                *orientation,
                old(self).buffer.spec_width(),
                old(self).buffer.spec_height(),
            ),
            exists|frames: Seq<Seq<u32>>|
                {
                    &&& polygons_painted(
                        polygons@,
                        frames,
                        old(self).camera_translation,
                        *orientation,
                        old(self).buffer.spec_width(),
                        old(self).buffer.spec_height(),
                    )
                    &&& frames[0] == old(self).buffer@
                    &&& frames[polygons@.len() as int] == final(self).buffer@
                },
    {
        let width: u16 = self.buffer.width() as u16;
        let height: u16 = self.buffer.height() as u16;
        let ghost mut frames: Seq<Seq<u32>> = seq![self.buffer@];
        let mut outcomes: Vec<Option<DrawOutcome>> = Vec::new();
        let mut k: usize = 0;
        while k < polygons.len()
            invariant
                self.wf(),
                self.buffer.spec_width() == width,
                self.buffer.spec_height() == height,
                self.shapes == old(self).shapes,
                self.camera_translation == old(self).camera_translation,
                self.camera_rotation == old(self).camera_rotation,
                self.background == old(self).background,
                forall|i: int| 0 <= i < polygons@.len() ==> shades_everywhere((#[trigger] polygons@[i]).color),
                k <= polygons@.len(),
                outcomes@.len() == k,
                forall|i: int| 0 <= i < k ==> outcomes@[i] == (#[trigger] polygons@[i]).outcome(
                    self.camera_translation,
                    *orientation,
                    width as int,
                    height as int,
                ),
                frames.len() == k + 1,
                frames[0] == old(self).buffer@,
                frames[k as int] == self.buffer@,
                forall|i: int| 0 <= i < k ==> (#[trigger] polygons@[i]).painted(
                    frames[i],
                    frames[i + 1],
                    self.camera_translation,
                    *orientation,
                    width as int,
                    height as int,
                ),
            decreases polygons@.len() - k,
        {
            let polygon = &polygons[k];
            let corners = project_polygon(
                polygon.a,
                polygon.b,
                polygon.c,
                self.camera_translation,
                orientation,
                width,
                height,
            );
            let outcome = match corners {
                Some((a, b, c)) => Some(self.buffer.draw_triangle(a, b, c, &polygon.color)),
                None => None,
            };
            outcomes.push(outcome);
            proof {
                frames = frames.push(self.buffer@);
            }
            k += 1;
        }
        outcomes
    }

    /// Hands out the finished frame, for the caller to present, and clears
    /// the screen to the background colour for the next frame.
    pub fn update(&mut self) -> (frame: Vec<u32>)
        requires
            old(self).wf(),
        ensures
            frame@ == old(self).buffer@,
            final(self).wf(),
            final(self).buffer.spec_width() == old(self).buffer.spec_width(),
            final(self).buffer.spec_height() == old(self).buffer.spec_height(),
            final(self).buffer@.len() == old(self).buffer@.len(),
            forall|k: int| 0 <= k < final(self).buffer@.len() ==> final(self).buffer@[k] == old(self).background,
            final(self).shapes == old(self).shapes,
            final(self).camera_translation == old(self).camera_translation,
            final(self).camera_rotation == old(self).camera_rotation,
            final(self).background == old(self).background,
    {
        self.buffer.reset(self.background)
    }

    /// Moves and turns the camera by one frame of input.
    pub fn process(&mut self, input: &Input)
        ensures
            final(self).camera_translation == spec_steered_translation(old(self).camera_translation, *input),
            final(self).camera_rotation == spec_steered_rotation(old(self).camera_rotation, *input),
            final(self).buffer == old(self).buffer,
            final(self).shapes == old(self).shapes,
            final(self).background == old(self).background,
    {
        self.camera_translation = steer_translation(self.camera_translation, input);
        self.camera_rotation = steer_rotation(self.camera_rotation, input);
    }
}

} // verus!
