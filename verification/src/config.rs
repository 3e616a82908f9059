//! Gesture configuration and the machine bounds within which the tracker's
//! arithmetic is proved free of overflow.

use vstd::prelude::*;

verus! {

/// Largest magnitude of a touch coordinate or per-touch displacement.
pub const COORD_LIMIT: i64 = 1048576;

/// Largest magnitude of a sensitivity, in thousandths.
pub const SENS_LIMIT: i64 = 65536;

/// Largest magnitude of the camera's zoom scale accepted as input, in
/// thousandths.
pub const SCALE_LIMIT: i64 = 1048576;

/// Largest magnitude of a camera translation coordinate accepted as input.
pub const TRANS_LIMIT: i64 = 0x1000_0000_0000;

/// Largest elapsed time, in milliseconds.
pub const TIME_LIMIT: i64 = 0x100_0000_0000;

/// Configuration, fixed at construction time. Sensitivities are fixed-point
/// values in thousandths (`1000` stands for `1.0`); the debounce window is in
/// milliseconds; the tolerance is a threshold on the raw dot product of the
/// two pinch deltas, in squared coordinate units.
#[derive(Clone, Copy, Debug, PartialEq, Eq, Structural)]
pub struct TouchCameraConfig {
    /// How far the camera moves relative to the touch drag distance, in
    /// thousandths. Higher is faster. Must be positive.
    pub drag_sensitivity: i64,
    /// How much the camera zooms relative to the pinch movement, in
    /// thousandths. Higher is faster. Must be positive.
    pub zoom_sensitivity: i64,
    /// Minimum time in milliseconds before a pan starts moving the camera;
    /// avoids panning on short taps. Never negative.
    pub touch_time_min: i64,
    /// Tolerance for pinch fingers moving in opposite directions: a pinch is
    /// rejected while the dot product of the two deltas exceeds it.
    pub opposites_tolerance: i64,
}

/// The bounds a configuration must satisfy for the tracker's arithmetic to
/// stay within machine integers.
pub open spec fn wf_config(c: TouchCameraConfig) -> bool {
    &&& 0 < c.drag_sensitivity <= SENS_LIMIT
    &&& 0 < c.zoom_sensitivity <= SENS_LIMIT
    &&& 0 <= c.touch_time_min <= TIME_LIMIT
}

impl Default for TouchCameraConfig {
    /// Drag at unit speed, gentle zoom, a ten-millisecond debounce, and a
    /// zero tolerance that rejects any pinch whose deltas point the same way.
    fn default() -> (r: Self)
        ensures
            r == (TouchCameraConfig {
                drag_sensitivity: 1000,
                zoom_sensitivity: 5,
                touch_time_min: 10,
                opposites_tolerance: 0,
            }),
            wf_config(r),
    {
        TouchCameraConfig {
            drag_sensitivity: 1000,
            zoom_sensitivity: 5,
            touch_time_min: 10,
            opposites_tolerance: 0,
        }
    }
}

} // verus!
