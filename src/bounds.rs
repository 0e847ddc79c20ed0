//! The play field's half extents and the toroidal wrap at its edges.
use vstd::prelude::*;

verus! {

/// Largest half extent the field may take: half of `u32::MAX` pixels, in millionths.
pub const MAX_HALF_EXTENT: i64 = 0x8_0000_0000_0000;

/// Millionths per half pixel of window size.
pub const MILLIONTHS_PER_HALF_PIXEL: i64 = 500_000;

/// Half the width and half the height of the play field, in millionths.
#[derive(Clone, Copy, Debug, PartialEq, Eq, Structural)]
pub struct ScreenBounds {
    pub half_width: i64,
    pub half_height: i64,
}

/// The bounds after a frame's window reading: those of the window where
/// there is one, else the bounds as they were.
pub open spec fn updated_bounds(b: ScreenBounds, window: Option<(u32, u32)>) -> ScreenBounds {
    match window {
        Some((w, h)) => ScreenBounds {
            half_width: (w * MILLIONTHS_PER_HALF_PIXEL) as i64,
            half_height: (h * MILLIONTHS_PER_HALF_PIXEL) as i64,
        },
        None => b,
    }
}

impl ScreenBounds {
    pub open spec fn wf(self) -> bool {
        &&& 0 <= self.half_width <= MAX_HALF_EXTENT
        &&& 0 <= self.half_height <= MAX_HALF_EXTENT
    }

    /// Takes the half extents of a window of `width` by `height` pixels;
    /// without a window the bounds stay as they were.
    pub fn update_screen_bounds(&mut self, window: Option<(u32, u32)>)
        ensures
            *final(self) == updated_bounds(*old(self), window),
            old(self).wf() ==> final(self).wf(),
    {
        if let Some((w, h)) = window {
            self.half_width = w as i64 * MILLIONTHS_PER_HALF_PIXEL;
            self.half_height = h as i64 * MILLIONTHS_PER_HALF_PIXEL;
        }
    }
}

impl Default for ScreenBounds {
    /// The bounds of a 1280 by 720 field, used until a window size is known.
    fn default() -> (r: ScreenBounds)
        ensures
            r.half_width == 640_000_000,
            r.half_height == 360_000_000,
            r.wf(),
    {
        ScreenBounds { half_width: 640_000_000, half_height: 360_000_000 }
    }
}

/// Where a coordinate lands after one step on an axis of half extent `half`,
/// for an entity of half size `half_scale`: past one edge it reappears just
/// beyond the opposite one.
pub open spec fn wrapped(p: int, half: int, half_scale: int) -> int {
    if p > half + half_scale {
        -half - half_scale
    } else if p < -half - half_scale {
        half + half_scale
    } else {
        p
    }
}

/// Wraps coordinate `p` at the edges of an axis of half extent `half`.
pub fn wrap_coordinate(p: i64, half: i64, half_scale: i64) -> (r: i64)
    requires
        0 <= half <= MAX_HALF_EXTENT,
        0 <= half_scale <= 0x1_0000_0000,
    ensures
        r == wrapped(p as int, half as int, half_scale as int),
        p > half + half_scale ==> r == -half - half_scale,
        p < -half - half_scale ==> r == half + half_scale,
        -half - half_scale <= r <= half + half_scale,
{
    let edge = half + half_scale;
    if p > edge {
        -edge
    } else if p < -edge {
        edge
    } else {
        p
    }
}

} // verus!
