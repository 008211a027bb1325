//! Per-frame input accumulation. Mouse motion and scroll events arrive many
//! times per frame; motion must be frame-time-scaled exactly once, so the
//! raw deltas are summed here and applied to the camera in one step when the
//! frame ticks.

use crate::camera::{well_formed, CustomCamera, ANG_LIM, FOV_MAX, FOV_MIN};
use crate::fixed::{fpmul, iabs, LIM, ONE};
use vstd::prelude::*;

verus! {

/// Largest single or accumulated raw delta the accumulator accepts.
pub const DELTA_LIM: i64 = 1_000_000_000;

/// Raw input deltas gathered since the last frame tick.
#[derive(Clone, Copy, PartialEq, Eq, Structural, Debug)]
pub struct FrameInput {
    /// Summed horizontal mouse motion, in microunits.
    pub mouse_dx: i64,
    /// Summed vertical mouse motion, in microunits.
    pub mouse_dy: i64,
    /// Summed scroll motion, in microunits.
    pub scroll: i64,
}

impl FrameInput {
    /// An empty accumulator.
    pub fn new() -> (r: FrameInput)
        ensures
            r == (FrameInput { mouse_dx: 0i64, mouse_dy: 0i64, scroll: 0i64 }),
    {
        FrameInput { mouse_dx: 0, mouse_dy: 0, scroll: 0 }
    }

    /// Record one mouse motion event: add its delta to the running sums.
    pub fn add_mouse(&mut self, dx: i64, dy: i64)
        requires
            iabs(old(self).mouse_dx + dx) <= DELTA_LIM as int,
            iabs(old(self).mouse_dy + dy) <= DELTA_LIM as int,
        ensures
            final(self).mouse_dx == old(self).mouse_dx + dx,
            final(self).mouse_dy == old(self).mouse_dy + dy,
            final(self).scroll == old(self).scroll,
    {
        self.mouse_dx = self.mouse_dx + dx;
        self.mouse_dy = self.mouse_dy + dy;
    }

    /// Record one scroll event: add its delta to the running sum.
    pub fn add_scroll(&mut self, amount: i64)
        requires
            iabs(old(self).scroll + amount) <= DELTA_LIM as int,
        ensures
            final(self).scroll == old(self).scroll + amount,
            final(self).mouse_dx == old(self).mouse_dx,
            final(self).mouse_dy == old(self).mouse_dy,
    {
        self.scroll = self.scroll + amount;
    }

    /// End the frame: hand out the accumulated deltas and reset to zero.
    pub fn take(&mut self) -> (r: (i64, i64, i64))
        ensures
            r.0 == old(self).mouse_dx,
            r.1 == old(self).mouse_dy,
            r.2 == old(self).scroll,
            *final(self) == (FrameInput { mouse_dx: 0i64, mouse_dy: 0i64, scroll: 0i64 }),
    {
        let r = (self.mouse_dx, self.mouse_dy, self.scroll);
        self.mouse_dx = 0;
        self.mouse_dy = 0;
        self.scroll = 0;
        r
    }
}

/// One frame of mouse look, applied once: the accumulated mouse delta is
/// scaled by the sensitivity and the frame time, then added to yaw, and
/// subtracted from pitch (moving the mouse up pitches the view up). With no
/// mouse motion the camera does not turn at all.
pub fn apply_look(
    cam: &mut CustomCamera,
    mouse_dx: i64,
    mouse_dy: i64,
    sensitivity: i64,
    dt: i64,
)
    requires
        iabs(old(cam).yaw as int) <= ANG_LIM as int - DELTA_LIM as int,
        iabs(old(cam).pitch as int) <= ANG_LIM as int - DELTA_LIM as int,
        iabs(mouse_dx as int) <= DELTA_LIM as int,
        iabs(mouse_dy as int) <= DELTA_LIM as int,
        0 <= sensitivity <= ONE,
        0 <= dt <= ONE,
    ensures
        final(cam).yaw == old(cam).yaw + fpmul(fpmul(mouse_dx as int, sensitivity as int), dt as int),
        final(cam).pitch == old(cam).pitch - fpmul(
            fpmul(mouse_dy as int, sensitivity as int),
            dt as int,
        ),
        mouse_dx == 0 && mouse_dy == 0 ==> *final(cam) == *old(cam),
        final(cam).position == old(cam).position,
        final(cam).up == old(cam).up,
        final(cam).fov == old(cam).fov,
        final(cam).aspect_ratio == old(cam).aspect_ratio,
        final(cam).near == old(cam).near,
        final(cam).far == old(cam).far,
        well_formed(*old(cam)) ==> well_formed(*final(cam)),
{
    proof {
        crate::vec3::lemma_fpmul_bound(mouse_dx as int, sensitivity as int, 1_000_000_000, 1_000_000);
        crate::vec3::lemma_fpmul_bound(mouse_dy as int, sensitivity as int, 1_000_000_000, 1_000_000);
        crate::vec3::lemma_fpmul_bound(
            fpmul(mouse_dx as int, sensitivity as int),
            dt as int,
            1_000_000_000,
            1_000_000,
        );
        crate::vec3::lemma_fpmul_bound(
            fpmul(mouse_dy as int, sensitivity as int),
            dt as int,
            1_000_000_000,
            1_000_000,
        );
    }
    let sx: i64 = crate::fixed::mul_fp(crate::fixed::mul_fp(mouse_dx, sensitivity), dt);
    let sy: i64 = crate::fixed::mul_fp(crate::fixed::mul_fp(mouse_dy, sensitivity), dt);
    proof {
        assert(fpmul(0, sensitivity as int) == 0);
        assert(fpmul(0, dt as int) == 0);
    }
    cam.rotate(sx, -sy);
}

/// One frame of scroll zoom, applied once: the accumulated scroll delta is
/// scaled by the sensitivity and handed to `zoom`, which clamps the field
/// of view to its range. With no scrolling an in-range field of view does
/// not change.
pub fn apply_zoom(cam: &mut CustomCamera, scroll: i64, sensitivity: i64)
    requires
        -LIM <= scroll <= LIM,
        -LIM <= sensitivity <= LIM,
    ensures
        ({
            let t = old(cam).fov - fpmul(scroll as int, sensitivity as int);
            &&& (t < FOV_MIN ==> final(cam).fov == FOV_MIN)
            &&& (t > FOV_MAX ==> final(cam).fov == FOV_MAX)
            &&& (FOV_MIN <= t <= FOV_MAX ==> final(cam).fov == t)
        }),
        FOV_MIN <= final(cam).fov <= FOV_MAX,
        scroll == 0 && FOV_MIN <= old(cam).fov <= FOV_MAX ==> final(cam).fov == old(cam).fov,
        final(cam).position == old(cam).position,
        final(cam).yaw == old(cam).yaw,
        final(cam).pitch == old(cam).pitch,
        final(cam).up == old(cam).up,
        final(cam).aspect_ratio == old(cam).aspect_ratio,
        final(cam).near == old(cam).near,
        final(cam).far == old(cam).far,
        well_formed(*old(cam)) ==> well_formed(*final(cam)),
{
    let amount: i64 = crate::fixed::mul_fp(scroll, sensitivity);
    proof {
        assert(fpmul(0, sensitivity as int) == 0);
    }
    cam.zoom(amount);
}

} // verus!
