//! The camera: how keys move and turn it, and how it maps a point of the
//! world to a point of the screen.

use vstd::prelude::*;
use crate::fixed::{Fixed, ONE, saturate, spec_product, spec_quotient, plus, minus, times, over};
use crate::vector::{Vec2, Vec3, Basis3};

verus! {

/// How far a held movement key moves the camera in one frame: a tenth of a
/// unit, as near as sixteen fractional bits come to it.
pub const TRANSLATION_STEP: Fixed = 6554;

/// How far a rotation key turns the camera: five degrees.
pub const ROTATION_STEP: Fixed = 5 * ONE;

/// The focal factor of the perspective divide: one.
pub const FOCAL: Fixed = ONE;

/// The factor of the depth value: a hundred and one.
pub const DEPTH_FACTOR: Fixed = 101 * ONE;

/// The offset of the depth value: a hundred.
pub const DEPTH_OFFSET: Fixed = 100 * ONE;

/// How many pixels one unit of the projected plane spans: a hundred.
pub const SCREEN_SCALE: Fixed = 100 * ONE;

/// The sines and cosines of the camera's rotation about the x axis and
/// the y axis, as fixed-point numbers.
#[derive(Clone, Copy, Debug, PartialEq, Eq, Structural)]
pub struct Orientation {
    pub sin_x: Fixed,
    pub cos_x: Fixed,
    pub sin_y: Fixed,
    pub cos_y: Fixed,
}

/// The keys that steer the camera, as they stand in one frame.
#[derive(Clone, Copy, Debug, PartialEq, Eq, Structural)]
pub struct Input {
    /// Held: moves the camera up the x axis.
    pub a: bool,
    /// Held: moves the camera down the x axis.
    pub d: bool,
    /// Held: moves the camera up the z axis.
    pub w: bool,
    /// Held: moves the camera down the z axis.
    pub s: bool,
    /// Held: moves the camera up the y axis.
    pub q: bool,
    /// Held: moves the camera down the y axis.
    pub e: bool,
    /// Pressed: turns the camera back about the x axis.
    pub z: bool,
    /// Pressed: turns the camera on about the x axis.
    pub c: bool,
}

/// `v` moved by `delta` if `go` holds, saturated.
pub open spec fn spec_moved(v: Fixed, go: bool, delta: int) -> Fixed {
    if go {
        saturate(v + delta) as i32
    } else {
        v
    }
}

/// The camera's place after one frame of input: each held key moves it by
/// one step along its axis; of two opposite keys, the one that moves up
/// takes effect first.
pub open spec fn spec_steered_translation(t: Vec3, input: Input) -> Vec3 {
    Vec3 {
        x: spec_moved(spec_moved(t.x, input.a, TRANSLATION_STEP as int), input.d, -TRANSLATION_STEP),
        y: spec_moved(spec_moved(t.y, input.q, TRANSLATION_STEP as int), input.e, -TRANSLATION_STEP),
        z: spec_moved(spec_moved(t.z, input.w, TRANSLATION_STEP as int), input.s, -TRANSLATION_STEP),
    }
}

/// The camera's rotation, in degrees about each axis, after one frame of
/// input: each pressed key turns it by one step about the x axis, the key
/// that turns back first.
pub open spec fn spec_steered_rotation(r: Vec3, input: Input) -> Vec3 {
    Vec3 {
        x: spec_moved(spec_moved(r.x, input.z, -ROTATION_STEP), input.c, ROTATION_STEP as int),
        y: r.y,
        z: r.z,
    }
}

/// The rotation about the x axis by the angle with the given sine and
/// cosine.
pub open spec fn spec_rotation_x(sin: Fixed, cos: Fixed) -> Basis3 {
    (ONE, 0, 0, 0, cos, saturate(-sin) as i32, 0, sin, cos)
}

/// The rotation about the y axis by the angle with the given sine and
/// cosine.
pub open spec fn spec_rotation_y(sin: Fixed, cos: Fixed) -> Basis3 {
    (cos, 0, sin, 0, ONE, 0, saturate(-sin) as i32, 0, cos)
}

/// A point of the world as the camera sees it: moved by the camera's
/// place, then turned about the x axis, then about the y axis.
pub open spec fn spec_camera_space(point: Vec3, translation: Vec3, orientation: Orientation) -> Vec3 {
    point.spec_sub(translation).spec_transform(
        spec_rotation_x(orientation.sin_x, orientation.cos_x),
    ).spec_transform(spec_rotation_y(orientation.sin_y, orientation.cos_y))
}

/// The perspective divide of a point in front of the camera: x and y
/// times the focal factor over z, and the depth `(101 z - 100) / z`.
pub open spec fn spec_perspective(point: Vec3) -> Vec3
    recommends
        point.z > 0,
{
    Vec3 {
        x: saturate(spec_quotient(saturate(spec_product(FOCAL, point.x)) as i32, point.z)) as i32,
        y: saturate(spec_quotient(saturate(spec_product(FOCAL, point.y)) as i32, point.z)) as i32,
        z: saturate(
            spec_quotient(
                saturate(saturate(spec_product(DEPTH_FACTOR, point.z)) - DEPTH_OFFSET) as i32,
                point.z,
            ),
        ) as i32,
    }
}

/// The middle of a screen of the given width or height, in pixels.
pub open spec fn spec_center(extent: int) -> int {
    (extent / 2) * ONE
}

/// The pixel that a divided point falls on: the middle of the screen less
/// the point's x and y, a hundred pixels to the unit.
pub open spec fn spec_on_screen(divided: Vec3, width: int, height: int) -> Vec2 {
    Vec2 {
        x: saturate(spec_center(width) - saturate(spec_product(divided.x, SCREEN_SCALE))) as i32,
        y: saturate(spec_center(height) - saturate(spec_product(divided.y, SCREEN_SCALE))) as i32,
    }
}

/// Where a point of the world appears on a screen of the given size, or
/// `None` if it lies in the camera's plane or behind it.
pub open spec fn spec_project_point(
    point: Vec3,
    translation: Vec3,
    orientation: Orientation,
    width: int,
    height: int,
) -> Option<Vec2> {
    let seen = spec_camera_space(point, translation, orientation);
    if seen.z <= 0 {
        None
    } else {
        Some(spec_on_screen(spec_perspective(seen), width, height))
    }
}

/// Where the three corners of a polygon appear on the screen, or `None`
/// if any of them lies in the camera's plane or behind it.
pub open spec fn spec_project_polygon(
    a: Vec3,
    b: Vec3,
    c: Vec3,
    translation: Vec3,
    orientation: Orientation,
    width: int,
    height: int,
) -> Option<(Vec2, Vec2, Vec2)> {
    match (
        spec_project_point(a, translation, orientation, width, height),
        spec_project_point(b, translation, orientation, width, height),
        spec_project_point(c, translation, orientation, width, height),
    ) {
        (Some(pa), Some(pb), Some(pc)) => Some((pa, pb, pc)),
        _ => None,
    }
}

fn moved(v: Fixed, go: bool, delta: Fixed) -> (r: Fixed)
    ensures
        r == spec_moved(v, go, delta as int),
{
    if go {
        plus(v, delta)
    } else {
        v
    }
}

/// Moves the camera's place by one frame of input.
pub fn steer_translation(t: Vec3, input: &Input) -> (r: Vec3)
    ensures
        r == spec_steered_translation(t, *input),
{
    Vec3 {
        x: moved(moved(t.x, input.a, TRANSLATION_STEP), input.d, -TRANSLATION_STEP),
        y: moved(moved(t.y, input.q, TRANSLATION_STEP), input.e, -TRANSLATION_STEP),
        z: moved(moved(t.z, input.w, TRANSLATION_STEP), input.s, -TRANSLATION_STEP),
    }
}

/// Turns the camera by one frame of input.
pub fn steer_rotation(r: Vec3, input: &Input) -> (turned: Vec3)
    ensures
        turned == spec_steered_rotation(r, *input),
{
    Vec3 {
        x: moved(moved(r.x, input.z, -ROTATION_STEP), input.c, ROTATION_STEP),
        y: r.y,
        z: r.z,
    }
}

/// The rotation about the x axis by the angle with the given sine and
/// cosine.
pub fn rotation_x(sin: Fixed, cos: Fixed) -> (basis: Basis3)
    ensures
        basis == spec_rotation_x(sin, cos),
{
    (ONE, 0, 0, 0, cos, minus(0, sin), 0, sin, cos)
}

/// The rotation about the y axis by the angle with the given sine and
/// cosine.
pub fn rotation_y(sin: Fixed, cos: Fixed) -> (basis: Basis3)
    ensures
        basis == spec_rotation_y(sin, cos),
{
    (cos, 0, sin, 0, ONE, 0, minus(0, sin), 0, cos)
}

/// Brings a point of the world into camera space.
pub fn camera_space(point: Vec3, translation: Vec3, orientation: &Orientation) -> (seen: Vec3)
    ensures
        seen == spec_camera_space(point, translation, *orientation),
{
    let relative = point.sub(translation);
    let turned = relative.transform(rotation_x(orientation.sin_x, orientation.cos_x));
    turned.transform(rotation_y(orientation.sin_y, orientation.cos_y))
}

/// The perspective divide of a point of camera space, or `None` if the
/// point lies in the camera's plane or behind it. The third component of
/// the result is the point's depth value; no draw looks at it.
pub fn perspective(point: Vec3) -> (divided: Option<Vec3>)
    ensures
        divided == if point.z > 0 {
            Some(spec_perspective(point))
        } else {
            None
        },
{
    if point.z <= 0 {
        None
    } else {
        Some(
            Vec3 {
                x: over(times(FOCAL, point.x), point.z),
                y: over(times(FOCAL, point.y), point.z),
                z: over(minus(times(DEPTH_FACTOR, point.z), DEPTH_OFFSET), point.z),
            },
        )
    }
}

/// The pixel of a screen of the given size that a divided point falls on.
pub fn on_screen(divided: Vec3, width: u16, height: u16) -> (pixel: Vec2)
    ensures
        pixel == spec_on_screen(divided, width as int, height as int),
{
    let center_x: Fixed = ((width / 2) as i32) * ONE;
    let center_y: Fixed = ((height / 2) as i32) * ONE;
    Vec2 {
        x: minus(center_x, times(divided.x, SCREEN_SCALE)),
        y: minus(center_y, times(divided.y, SCREEN_SCALE)),
    }
}

/// Projects a point of the world onto a screen of the given size. The
/// result is `None` exactly when the point, seen from the camera, has a
/// depth of zero or less.
pub fn project_point(
    point: Vec3,
    translation: Vec3,
    orientation: &Orientation,
    width: u16,
    height: u16,
) -> (pixel: Option<Vec2>)
    ensures
        pixel == spec_project_point(point, translation, *orientation, width as int, height as int),
        pixel is None <==> spec_camera_space(point, translation, *orientation).z <= 0,
{
    match perspective(camera_space(point, translation, orientation)) {
        Some(divided) => Some(on_screen(divided, width, height)),
        None => None,
    }
}

/// Projects the three corners of a polygon. The result is `None` exactly
/// when a corner, seen from the camera, has a depth of zero or less.
pub fn project_polygon(
    a: Vec3,
    b: Vec3,
    c: Vec3,
    translation: Vec3,
    orientation: &Orientation,
    width: u16,
    height: u16,
) -> (corners: Option<(Vec2, Vec2, Vec2)>)
    ensures
        corners == spec_project_polygon(a, b, c, translation, *orientation, width as int, height as int),
        corners is None <==> (spec_camera_space(a, translation, *orientation).z <= 0
            || spec_camera_space(b, translation, *orientation).z <= 0
            || spec_camera_space(c, translation, *orientation).z <= 0),
{
    let pa = match project_point(a, translation, orientation, width, height) {
        Some(p) => p,
        None => { return None; },
    };
    let pb = match project_point(b, translation, orientation, width, height) {
        Some(p) => p,
        None => { return None; },
    };
    let pc = match project_point(c, translation, orientation, width, height) {
        Some(p) => p,
        None => { return None; },
    };
    Some((pa, pb, pc))
}

/// The orientation of a camera that is not turned.
pub open spec fn spec_level() -> Orientation {
    Orientation { sin_x: 0, cos_x: ONE, sin_y: 0, cos_y: ONE }
}

/// To a camera that is not turned, a point straight ahead of it appears
/// in the middle of the screen, however far away it is.
pub proof fn lemma_straight_ahead_is_centered(
    point: Vec3,
    translation: Vec3,
    width: int,
    height: int,
)
    requires
        point.x == translation.x,
        point.y == translation.y,
        point.z > translation.z,
        0 <= width <= 0xFFFF,
        0 <= height <= 0xFFFF,
    ensures
        spec_project_point(point, translation, spec_level(), width, height) == Some(
            Vec2 { x: spec_center(width) as i32, y: spec_center(height) as i32 },
        ),
{
    let relative = point.spec_sub(translation);
    assert(relative.x == 0 && relative.y == 0 && relative.z > 0);
    let depth = relative.z;
    let turned = relative.spec_transform(spec_rotation_x(0, ONE));
    assert(turned == relative);
    let seen = turned.spec_transform(spec_rotation_y(0, ONE));
    assert(seen == relative);
    assert(spec_product(FOCAL, 0) == 0);
    assert(spec_quotient(0, depth) == 0) by {
        vstd::arithmetic::div_mod::lemma_div_basics(depth as int);
    }
    let divided = spec_perspective(seen);
    assert(divided.x == 0 && divided.y == 0);
    assert(spec_product(0, SCREEN_SCALE) == 0);
}

} // verus!
