//! The camera: maps input gestures to a clamped viewport transform.
//!
//! Positions are microdegrees, the zoom factor is a millionth-resolution
//! fixed-point number, and pixel coordinates arrive in micro-pixels, so the
//! whole transform is exact integer arithmetic.  The viewport implied by
//! position and zoom is clamped to the world: its width never exceeds 360
//! degrees, its height never exceeds 170, its right edge stays at or left
//! of 180°E, its left edge at or right of 180°W, its top at or below 80°N
//! and its bottom at or above 90°S.  A `Translate` that would cross an edge
//! discards that axis's movement entirely rather than capping it.

use vstd::prelude::*;

use vstd::arithmetic::div_mod::{
    lemma_div_nonincreasing, lemma_div_pos_is_pos, lemma_fundamental_div_mod, lemma_mod_bound,
};

verus! {

/// Smallest zoom factor, in millionths: the epsilon a zoom that would go
/// negative is raised to.
pub const ZOOM_EPS: i64 = 1_000;

/// Largest zoom factor, in millionths: a million-fold magnification.
pub const ZOOM_MAX: i64 = 1_000_000_000_000;

/// One pixel at zoom one covers one degree: micro-pixels times this scale,
/// divided by the micro-zoom, give microdegrees.
pub const PX_SCALE: i64 = 1_000_000_000_000;

/// Largest window dimension the camera accepts, in pixels.
pub const MAX_DIM: u32 = 65_536;

/// The gestures and notifications that move the camera.
pub enum CameraEvent {
    Resize(u32, u32),
    Translate((i64, i64)),
    AspectRatio((u32, u32)),
    Zoom(i64, (i64, i64)),
    EntireView,
}

/// The viewport transform state.
#[derive(Clone, Copy, Debug, PartialEq)]
pub struct Camera {
    pub aspect: (u32, u32),
    pub width: u32,
    pub height: u32,
    pub zoom: i64,
    pub position: (i64, i64),
}

pub open spec fn camera_wf(c: Camera) -> bool {
    &&& 1 <= c.width <= MAX_DIM
    &&& 1 <= c.height <= MAX_DIM
    &&& ZOOM_EPS <= c.zoom <= ZOOM_MAX
    &&& -100_000_000_000_000_000 <= c.position.0 <= 100_000_000_000_000_000
    &&& -100_000_000_000_000_000 <= c.position.1 <= 100_000_000_000_000_000
}

/// Width of the viewport in world microdegrees.
pub open spec fn view_w(c: Camera) -> int {
    (c.width as int) * (PX_SCALE as int) / (c.zoom as int)
}

/// Height of the viewport in world microdegrees.
pub open spec fn view_h(c: Camera) -> int {
    (c.height as int) * (PX_SCALE as int) / (c.zoom as int)
}

/// The viewport is no larger than the world: at most 360° wide and 170°
/// tall.
pub open spec fn size_ok(c: Camera) -> bool {
    view_w(c) <= 360_000_000 && view_h(c) <= 170_000_000
}

/// The viewport lies inside the world: right edge ≤ 180°E, left edge ≥
/// 180°W, top ≤ 80°N, bottom ≥ 90°S.
pub open spec fn pos_ok(c: Camera) -> bool {
    &&& c.position.0 >= -180_000_000
    &&& c.position.0 + view_w(c) <= 180_000_000
    &&& c.position.1 <= 80_000_000
    &&& c.position.1 - view_h(c) >= -90_000_000
}

pub open spec fn clamped(c: Camera) -> bool {
    size_ok(c) && pos_ok(c)
}

/// Truncating division, the form the executable arithmetic uses: the
/// quotient of the magnitudes, with the numerator's sign.
pub open spec fn tdiv(a: int, b: int) -> int {
    if a >= 0 {
        a / b
    } else {
        -((-a) / b)
    }
}

/// Saturation of a mathematical integer into the `i64` range.
pub open spec fn sat64(x: int) -> int {
    if x > 0x7FFF_FFFF_FFFF_FFFF {
        0x7FFF_FFFF_FFFF_FFFF
    } else if x < -0x8000_0000_0000_0000 {
        -0x8000_0000_0000_0000
    } else {
        x
    }
}

/// The new x position after a `Translate` by `dx`: each bound check uses
/// the position as first moved by `dx`; a triggered clamp discards the
/// movement and pins the edge.
pub open spec fn translate_x(c: Camera, dx: int) -> int {
    let vw = view_w(c);
    let ux = c.position.0 + dx + vw;
    let lx = c.position.0 + dx;
    let x1 = if ux > 180_000_000 {
        180_000_000 - vw
    } else {
        c.position.0 as int
    };
    let d1 = if ux > 180_000_000 {
        0
    } else {
        dx
    };
    let x2 = if lx < -180_000_000 {
        -180_000_000
    } else {
        x1
    };
    let d2 = if lx < -180_000_000 {
        0
    } else {
        d1
    };
    x2 + d2
}

/// The new y position after a `Translate` by `dy`; y grows northward and
/// the viewport extends southward from the position.
pub open spec fn translate_y(c: Camera, dy: int) -> int {
    let vh = view_h(c);
    let uy = c.position.1 + dy - vh;
    let ly = c.position.1 + dy;
    let y1 = if uy < -90_000_000 {
        -90_000_000 + vh
    } else {
        c.position.1 as int
    };
    let d1 = if uy < -90_000_000 {
        0
    } else {
        dy
    };
    let y2 = if ly > 80_000_000 {
        80_000_000
    } else {
        y1
    };
    let d2 = if ly > 80_000_000 {
        0
    } else {
        d1
    };
    y2 + d2
}

pub open spec fn camera_translated(c: Camera, dx: int, dy: int) -> Camera {
    Camera {
        position: (translate_x(c, dx) as i64, translate_y(c, dy) as i64),
        ..c
    }
}

/// The ceiling of `a / b` for positive `b` and non-negative `a`.
pub open spec fn div_ceil(a: int, b: int) -> int {
    (a + b - 1) / b
}

/// The zoom factor a `Zoom` by `delta` lands on: the requested factor,
/// raised to the epsilon if it would go non-positive, raised further until
/// the viewport fits in 360°×170°, and capped at the maximum.
pub open spec fn zoom_target(c: Camera, delta: int) -> int {
    let cand = c.zoom + delta;
    let zx = div_ceil((c.width as int) * (PX_SCALE as int), 360_000_000);
    let zy = div_ceil((c.height as int) * (PX_SCALE as int), 170_000_000);
    let z1 = if cand < ZOOM_EPS {
        ZOOM_EPS as int
    } else {
        cand
    };
    let z2 = if z1 < zx {
        zx
    } else {
        z1
    };
    let z3 = if z2 < zy {
        zy
    } else {
        z2
    };
    if z3 > ZOOM_MAX {
        ZOOM_MAX as int
    } else {
        z3
    }
}

/// A screen offset in micro-pixels converted to world microdegrees:
/// negated horizontally and divided by the zoom factor.
pub open spec fn screen_to_world(zoom: int, v: (i64, i64)) -> (int, int) {
    (tdiv(-(v.0 as int) * 1_000_000, zoom), tdiv((v.1 as int) * 1_000_000, zoom))
}

/// The camera after a `Zoom`: the zoom factor moves to its clamped target,
/// then the view translates so the world point under the anchor stays put,
/// up to the fixed-point rounding of the correction.
pub open spec fn camera_zoomed(c: Camera, delta: int, anchor: (i64, i64)) -> Camera {
    let z = zoom_target(c, delta);
    let c1 = Camera { zoom: z as i64, ..c };
    let aw = screen_to_world(z, anchor);
    let tx = tdiv(aw.0 * z, c.zoom as int);
    let ty = tdiv(aw.1 * z, c.zoom as int);
    camera_translated(c1, sat64(aw.0 - tx), sat64(aw.1 - ty))
}

/// The canonical full-world framing used while weight statistics or an
/// export are computed.
pub open spec fn entire_view_camera() -> Camera {
    Camera {
        aspect: (1800, 900),
        width: 1800,
        height: 900,
        zoom: 5_000_000,
        position: (-180_000_000i64, 90_000_000i64),
    }
}

/// What each event does to the camera.
pub open spec fn camera_after(c: Camera, e: CameraEvent) -> Camera {
    match e {
        CameraEvent::Resize(w, h) => Camera { width: w, height: h, aspect: (w, h), ..c },
        CameraEvent::AspectRatio(a) => Camera { aspect: a, ..c },
        CameraEvent::Translate(d) => camera_translated(c, d.0 as int, d.1 as int),
        CameraEvent::Zoom(delta, anchor) => camera_zoomed(c, delta as int, anchor),
        CameraEvent::EntireView => entire_view_camera(),
    }
}

/// The inputs an event may carry: window dimensions within the texture
/// limit, and anchor coordinates within a million pixels of the origin.
pub open spec fn event_ok(e: CameraEvent) -> bool {
    match e {
        CameraEvent::Resize(w, h) => 1 <= w <= MAX_DIM && 1 <= h <= MAX_DIM,
        CameraEvent::AspectRatio(a) => true,
        CameraEvent::Translate(d) => true,
        CameraEvent::Zoom(delta, anchor) => -1_000_000_000_000 <= anchor.0 <= 1_000_000_000_000
            && -1_000_000_000_000 <= anchor.1 <= 1_000_000_000_000,
        CameraEvent::EntireView => true,
    }
}

/// `a / b <= c` whenever `a <= b * c`.
proof fn lemma_div_le_bound(a: int, b: int, c: int)
    requires
        0 <= a,
        1 <= b,
        0 <= c,
        a <= b * c,
    ensures
        a / b <= c,
{
    lemma_fundamental_div_mod(a, b);
    lemma_mod_bound(a, b);
    let q = a / b;
    if q > c {
        assert(b * q >= b * (c + 1)) by (nonlinear_arith)
            requires
                q >= c + 1,
                b >= 1,
        ;
        assert(b * (c + 1) == b * c + b) by (nonlinear_arith);
    }
}

/// Bounds on the viewport extent of a well-formed camera.
pub proof fn lemma_view_bounds(c: Camera)
    requires
        camera_wf(c),
    ensures
        0 <= view_w(c) <= 70_000_000_000_000_000,
        0 <= view_h(c) <= 70_000_000_000_000_000,
{
    lemma_div_pos_is_pos((c.width as int) * (PX_SCALE as int), c.zoom as int);
    lemma_div_pos_is_pos((c.height as int) * (PX_SCALE as int), c.zoom as int);
    lemma_div_le_bound((c.width as int) * (PX_SCALE as int), c.zoom as int,
        70_000_000_000_000_000);
    lemma_div_le_bound((c.height as int) * (PX_SCALE as int), c.zoom as int,
        70_000_000_000_000_000);
}

/// After a `Translate`, a camera whose viewport fits the world lies inside
/// it, and any camera stays well-formed.
pub proof fn lemma_translate_clamped(c: Camera, dx: int, dy: int)
    requires
        camera_wf(c),
    ensures
        camera_wf(camera_translated(c, dx, dy)),
        size_ok(c) ==> clamped(camera_translated(c, dx, dy)),
        camera_translated(c, dx, dy).zoom == c.zoom,
        camera_translated(c, dx, dy).width == c.width,
        camera_translated(c, dx, dy).height == c.height,
{
    lemma_view_bounds(c);
    let t = camera_translated(c, dx, dy);
    assert(view_w(t) == view_w(c));
    assert(view_h(t) == view_h(c));
    assert(-100_000_000_000_000_000 <= translate_x(c, dx) <= 100_000_000_000_000_000);
    assert(-100_000_000_000_000_000 <= translate_y(c, dy) <= 100_000_000_000_000_000);
    assert(t.position.0 == translate_x(c, dx));
    assert(t.position.1 == translate_y(c, dy));
}

/// The zoom target always yields a world-sized viewport.
pub proof fn lemma_zoom_size_ok(c: Camera, delta: int)
    requires
        camera_wf(c),
    ensures
        ZOOM_EPS <= zoom_target(c, delta) <= ZOOM_MAX,
        size_ok(Camera { zoom: zoom_target(c, delta) as i64, ..c }),
{
    let a = (c.width as int) * (PX_SCALE as int);
    let b = (c.height as int) * (PX_SCALE as int);
    let zx = div_ceil(a, 360_000_000);
    let zy = div_ceil(b, 170_000_000);
    let z = zoom_target(c, delta);
    // The ceilings themselves are well under the cap.
    lemma_div_pos_is_pos(a + 360_000_000 - 1, 360_000_000);
    lemma_div_pos_is_pos(b + 170_000_000 - 1, 170_000_000);
    lemma_div_le_bound(a + 360_000_000 - 1, 360_000_000, 1_000_000_000);
    lemma_div_le_bound(b + 170_000_000 - 1, 170_000_000, 1_000_000_000);
    // Multiplying the ceiling back recovers at least the numerator.
    lemma_fundamental_div_mod(a + 360_000_000 - 1, 360_000_000);
    lemma_mod_bound(a + 360_000_000 - 1, 360_000_000);
    assert(zx * 360_000_000 >= a);
    lemma_fundamental_div_mod(b + 170_000_000 - 1, 170_000_000);
    lemma_mod_bound(b + 170_000_000 - 1, 170_000_000);
    assert(zy * 170_000_000 >= b);
    assert(z >= zx && z >= zy && z >= ZOOM_EPS && z <= ZOOM_MAX);
    assert(z * 360_000_000 >= zx * 360_000_000) by (nonlinear_arith)
        requires
            z >= zx,
    ;
    assert(z * 170_000_000 >= zy * 170_000_000) by (nonlinear_arith)
        requires
            z >= zy,
    ;
    lemma_div_le_bound(a, z, 360_000_000);
    lemma_div_le_bound(b, z, 170_000_000);
}

/// Clamp invariant law: a `Zoom` leaves any well-formed camera with a
/// world-sized, world-contained viewport, and a `Translate` keeps a camera
/// whose viewport already fits the world contained in it.  So no sequence
/// of `Translate` and `Zoom` events ever produces a viewport that exceeds
/// the world bounds, once the first `Zoom` has clamped the viewport's size.
pub proof fn lemma_camera_clamp_invariant(c: Camera, e: CameraEvent)
    requires
        camera_wf(c),
        event_ok(e),
        match e {
            CameraEvent::Translate(d) => size_ok(c),
            CameraEvent::Zoom(delta, anchor) => true,
            _ => false,
        },
    ensures
        camera_wf(camera_after(c, e)),
        clamped(camera_after(c, e)),
{
    match e {
        CameraEvent::Translate(d) => {
            lemma_translate_clamped(c, d.0 as int, d.1 as int);
        }
        CameraEvent::Zoom(delta, anchor) => {
            lemma_zoom_size_ok(c, delta as int);
            let z = zoom_target(c, delta as int);
            let c1 = Camera { zoom: z as i64, ..c };
            let aw = screen_to_world(z, anchor);
            let tx = tdiv(aw.0 * z, c.zoom as int);
            let ty = tdiv(aw.1 * z, c.zoom as int);
            lemma_translate_clamped(c1, sat64(aw.0 - tx), sat64(aw.1 - ty));
        }
        _ => {}
    }
}

/// Executable truncating division on wide intermediates.
fn tdiv_i128(a: i128, b: i128) -> (r: i128)
    requires
        0 < b,
        -0x4000_0000_0000_0000_0000_0000_0000_0000 < a,
    ensures
        r as int == tdiv(a as int, b as int),
        a >= 0 ==> 0 <= r <= a,
        a < 0 ==> a <= r <= 0,
{
    if a >= 0 {
        let q = (a as u128) / (b as u128);
        proof {
            lemma_div_nonincreasing(a as int, b as int);
            lemma_div_pos_is_pos(a as int, b as int);
        }
        q as i128
    } else {
        let m = -a;
        let q = (m as u128) / (b as u128);
        proof {
            lemma_div_nonincreasing(m as int, b as int);
            lemma_div_pos_is_pos(m as int, b as int);
        }
        -(q as i128)
    }
}

/// Executable saturation into `i64`.
fn sat_to_i64(x: i128) -> (r: i64)
    ensures
        r as int == sat64(x as int),
{
    if x > 0x7FFF_FFFF_FFFF_FFFF {
        0x7FFF_FFFF_FFFF_FFFF
    } else if x < -0x8000_0000_0000_0000 {
        -0x8000_0000_0000_0000
    } else {
        x as i64
    }
}

impl Camera {
    /// Viewport width in microdegrees.
    pub fn view_width(&self) -> (r: i64)
        requires
            camera_wf(*self),
        ensures
            r as int == view_w(*self),
            0 <= r <= 70_000_000_000_000_000,
    {
        let a: u64 = (self.width as u64) * 1_000_000_000_000;
        let q = a / (self.zoom as u64);
        proof {
            lemma_div_nonincreasing(a as int, self.zoom as int);
            lemma_div_pos_is_pos(a as int, self.zoom as int);
        }
        q as i64
    }

    /// Viewport height in microdegrees.
    pub fn view_height(&self) -> (r: i64)
        requires
            camera_wf(*self),
        ensures
            r as int == view_h(*self),
            0 <= r <= 70_000_000_000_000_000,
    {
        let a: u64 = (self.height as u64) * 1_000_000_000_000;
        let q = a / (self.zoom as u64);
        proof {
            lemma_div_nonincreasing(a as int, self.zoom as int);
            lemma_div_pos_is_pos(a as int, self.zoom as int);
        }
        q as i64
    }

    /// A mouse offset in micro-pixels converted to world microdegrees.
    pub fn mouse_coordinate_convert(&self, coordinate: (i64, i64)) -> (r: (i64, i64))
        requires
            camera_wf(*self),
            -1_000_000_000_000 <= coordinate.0 <= 1_000_000_000_000,
            -1_000_000_000_000 <= coordinate.1 <= 1_000_000_000_000,
        ensures
            (r.0 as int, r.1 as int) == screen_to_world(self.zoom as int, coordinate),
    {
        let x = tdiv_i128(-(coordinate.0 as i128) * 1_000_000, self.zoom as i128);
        let y = tdiv_i128((coordinate.1 as i128) * 1_000_000, self.zoom as i128);
        (x as i64, y as i64)
    }

    fn translate(&mut self, dx: i64, dy: i64)
        requires
            camera_wf(*old(self)),
        ensures
            *final(self) == camera_translated(*old(self), dx as int, dy as int),
            camera_wf(*final(self)),
    {
        proof {
            lemma_translate_clamped(*self, dx as int, dy as int);
        }
        let vw = self.view_width() as i128;
        let vh = self.view_height() as i128;
        let px = self.position.0 as i128;
        let py = self.position.1 as i128;

        let ux = px + dx as i128 + vw;
        let lx = px + dx as i128;
        let mut nx: i128 = px;
        let mut ndx: i128 = dx as i128;
        if ux > 180_000_000 {
            ndx = 0;
            nx = 180_000_000 - vw;
        }
        if lx < -180_000_000 {
            ndx = 0;
            nx = -180_000_000;
        }
        let fx = nx + ndx;

        let uy = py + dy as i128 - vh;
        let ly = py + dy as i128;
        let mut ny: i128 = py;
        let mut ndy: i128 = dy as i128;
        if uy < -90_000_000 {
            ndy = 0;
            ny = -90_000_000 + vh;
        }
        if ly > 80_000_000 {
            ndy = 0;
            ny = 80_000_000;
        }
        let fy = ny + ndy;

        proof {
            assert(fx == translate_x(*self, dx as int));
            assert(fy == translate_y(*self, dy as int));
        }
        self.position = (fx as i64, fy as i64);
    }

    fn zoom_by(&mut self, delta: i64, anchor: (i64, i64))
        requires
            camera_wf(*old(self)),
            -1_000_000_000_000 <= anchor.0 <= 1_000_000_000_000,
            -1_000_000_000_000 <= anchor.1 <= 1_000_000_000_000,
        ensures
            *final(self) == camera_zoomed(*old(self), delta as int, anchor),
            camera_wf(*final(self)),
    {
        proof {
            lemma_zoom_size_ok(*self, delta as int);
        }
        let old_zoom = self.zoom;
        let cand: i128 = self.zoom as i128 + delta as i128;
        let a: u64 = (self.width as u64) * 1_000_000_000_000;
        let zx: u64 = (a + 359_999_999) / 360_000_000;
        let b: u64 = (self.height as u64) * 1_000_000_000_000;
        let zy: u64 = (b + 169_999_999) / 170_000_000;
        let z1: i128 = if cand < 1_000 {
            1_000
        } else {
            cand
        };
        let z2: i128 = if z1 < zx as i128 {
            zx as i128
        } else {
            z1
        };
        let z3: i128 = if z2 < zy as i128 {
            zy as i128
        } else {
            z2
        };
        let zt: i128 = if z3 > 1_000_000_000_000 {
            1_000_000_000_000
        } else {
            z3
        };
        proof {
            assert(zt as int == zoom_target(*self, delta as int));
        }
        let z = zt as i64;
        let ghost c0 = *self;
        self.zoom = z;
        proof {
            assert(*self == Camera { zoom: zoom_target(c0, delta as int) as i64, ..c0 });
            assert(camera_wf(*self));
        }
        let awx = tdiv_i128(-(anchor.0 as i128) * 1_000_000, z as i128);
        let awy = tdiv_i128((anchor.1 as i128) * 1_000_000, z as i128);
        proof {
            assert(-1_000_000_000_000_000_000 <= awx <= 1_000_000_000_000_000_000);
            assert(-1_000_000_000_000_000_000 <= awy <= 1_000_000_000_000_000_000);
            lemma_mul_i128_bound(awx, z as i128);
            lemma_mul_i128_bound(awy, z as i128);
        }
        let tx = tdiv_i128(awx * (z as i128), old_zoom as i128);
        let ty = tdiv_i128(awy * (z as i128), old_zoom as i128);
        let dx = sat_to_i64(awx - tx);
        let dy = sat_to_i64(awy - ty);
        self.translate(dx, dy);
    }

    /// Applies one camera event: resize, aspect change, clamped pan,
    /// clamped anchor-preserving zoom, or the canonical full-world framing.
    pub fn update_camera(&mut self, event: CameraEvent)
        requires
            camera_wf(*old(self)),
            event_ok(event),
        ensures
            *final(self) == camera_after(*old(self), event),
            camera_wf(*final(self)),
    {
        match event {
            CameraEvent::Resize(w, h) => {
                self.width = w;
                self.height = h;
                self.aspect = (w, h);
            }
            CameraEvent::AspectRatio(a) => {
                self.aspect = a;
            }
            CameraEvent::Translate(d) => {
                self.translate(d.0, d.1);
            }
            CameraEvent::Zoom(delta, anchor) => {
                self.zoom_by(delta, anchor);
            }
            CameraEvent::EntireView => {
                *self = Camera {
                    aspect: (1800, 900),
                    width: 1800,
                    height: 900,
                    zoom: 5_000_000,
                    position: (-180_000_000, 90_000_000),
                };
            }
        }
    }
}

/// Products of an anchor offset and a zoom factor stay far inside `i128`.
proof fn lemma_mul_i128_bound(x: i128, z: i128)
    requires
        -1_000_000_000_000_000_000 <= x <= 1_000_000_000_000_000_000,
        0 <= z <= 1_000_000_000_000,
    ensures
        -1_000_000_000_000_000_000_000_000_000_000 <= x * z
            <= 1_000_000_000_000_000_000_000_000_000_000,
{
    assert(-1_000_000_000_000_000_000_000_000_000_000 <= x * z
        <= 1_000_000_000_000_000_000_000_000_000_000) by (nonlinear_arith)
        requires
            -1_000_000_000_000_000_000 <= x <= 1_000_000_000_000_000_000,
            0 <= z <= 1_000_000_000_000,
    ;
}

/// Re-clamping law: a `Translate` by zero is a no-op on a camera whose
/// viewport already lies inside the world.
pub proof fn lemma_reclamp_noop(c: Camera)
    requires
        camera_wf(c),
        clamped(c),
    ensures
        camera_after(c, CameraEvent::Translate((0, 0))) == c,
{
    lemma_view_bounds(c);
    let t = camera_after(c, CameraEvent::Translate((0, 0)));
    assert(translate_x(c, 0) == c.position.0);
    assert(translate_y(c, 0) == c.position.1);
    assert(t == c);
}

} // verus!
