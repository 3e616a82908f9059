//! The gesture tracker: a four-phase state machine fed once per frame with
//! the active touch snapshot, and the exact transition it makes on the
//! tracker state and the bound camera.
//!
//! The per-frame rules, evaluated top-down with the first match winning:
//! zero touches reset to `Idle`; a release this frame cancels the gesture;
//! two touches pinch (overriding anything else); one touch pans when the
//! phase allows it; every other combination leaves the state untouched.

use crate::arith::{iabs, tdiv, MILLI, MILLI_SQ};
use crate::config::{
    COORD_LIMIT, SCALE_LIMIT, SENS_LIMIT, TIME_LIMIT, TRANS_LIMIT, TouchCameraConfig, wf_config,
};
use crate::geometry::{Vec2I, Vec3I, dist_sq, sqrt_floor, vec2_within, vec3_within};
use vstd::prelude::*;

verus! {

/// The gesture being tracked. `PinchCancelled` holds the frame a finger
/// lifts, so a stale two-finger delta is never applied while the touch
/// count catches up.
#[derive(Clone, Copy, Debug, PartialEq, Eq, Structural)]
pub enum GesturePhase {
    Idle,
    Panning,
    Pinching,
    PinchCancelled,
}

/// One active contact in the current frame's snapshot. The identifier is
/// stable while the finger stays down; `distance` is the total displacement
/// since touch-down, as the input layer reports it.
#[derive(Clone, Copy, Debug, PartialEq, Eq, Structural)]
pub struct TouchPoint {
    pub id: u64,
    pub position: Vec2I,
    pub previous_position: Vec2I,
    pub distance: Vec2I,
}

/// The tracker's state between frames. The last-seen positions are kept by
/// the tracker itself, since the input layer's previous positions only move
/// when the finger does.
#[derive(Clone, Copy, Debug)]
pub struct GestureState {
    pub phase: GesturePhase,
    pub pan_origin: Vec3I,
    pub pan_start_time: i64,
    pub last_primary: Option<Vec2I>,
    pub last_secondary: Option<Vec2I>,
}

/// The controllable parts of the bound camera: its translation and its
/// orthographic zoom scale in thousandths (`1000` stands for `1.0`).
#[derive(Clone, Copy, Debug, PartialEq, Eq, Structural)]
pub struct CameraState {
    pub translation: Vec3I,
    pub scale: i64,
}

/// A stored last-seen position, when present, lies within the coordinate
/// bound.
pub open spec fn wf_last(p: Option<Vec2I>) -> bool {
    match p {
        Some(v) => vec2_within(v, COORD_LIMIT as int),
        None => true,
    }
}

/// A touch snapshot within the coordinate bounds.
pub open spec fn wf_touch(t: TouchPoint) -> bool {
    &&& vec2_within(t.position, COORD_LIMIT as int)
    &&& vec2_within(t.previous_position, COORD_LIMIT as int)
    &&& vec2_within(t.distance, COORD_LIMIT as int)
}

/// Tracker state within the machine bounds.
pub open spec fn wf_state(s: GestureState) -> bool {
    &&& vec3_within(s.pan_origin, TRANS_LIMIT as int)
    &&& 0 <= s.pan_start_time <= TIME_LIMIT
    &&& wf_last(s.last_primary)
    &&& wf_last(s.last_secondary)
}

/// Camera state within the machine bounds.
pub open spec fn wf_camera(c: CameraState) -> bool {
    &&& vec3_within(c.translation, TRANS_LIMIT as int)
    &&& iabs(c.scale as int) <= SCALE_LIMIT as int
}

/// The state the tracker starts in: idle, with nothing remembered.
pub open spec fn initial_state() -> GestureState {
    GestureState {
        phase: GesturePhase::Idle,
        pan_origin: Vec3I { x: 0, y: 0, z: 0 },
        pan_start_time: 0,
        last_primary: None,
        last_secondary: None,
    }
}

impl Default for GestureState {
    /// The idle state the tracker holds before the first touch.
    fn default() -> (r: Self)
        ensures
            r == initial_state(),
            wf_state(r),
    {
        GestureState {
            phase: GesturePhase::Idle,
            pan_origin: Vec3I { x: 0, y: 0, z: 0 },
            pan_start_time: 0,
            last_primary: None,
            last_secondary: None,
        }
    }
}

/// Rule for an empty frame: back to `Idle` with both last positions
/// forgotten, so the next touch-down starts fresh.
pub open spec fn idle_reset(s: GestureState) -> GestureState {
    GestureState {
        phase: GesturePhase::Idle,
        last_primary: None,
        last_secondary: None,
        ..s
    }
}

/// Rule for a release this frame: the gesture is cancelled and both last
/// positions are forgotten.
pub open spec fn pinch_cancel(s: GestureState) -> GestureState {
    GestureState {
        phase: GesturePhase::PinchCancelled,
        last_primary: None,
        last_secondary: None,
        ..s
    }
}

/// The reference position a pinch delta is measured from. When no secondary
/// position was recorded last frame the pinch is just starting, and the
/// reference is seeded from the current position, making this frame's delta
/// zero; otherwise the stored position is used, falling back to the current
/// one if it was never set.
pub open spec fn pinch_ref(stored: Option<Vec2I>, secondary: Option<Vec2I>, current: Vec2I) -> Vec2I {
    match secondary {
        None => current,
        Some(_) => match stored {
            Some(p) => p,
            None => current,
        },
    }
}

/// The dot product of the two pinch deltas, used to tell whether the
/// fingers move in sufficiently opposite directions.
pub open spec fn pinch_dot(s: GestureState, a: TouchPoint, b: TouchPoint) -> int {
    let ra = pinch_ref(s.last_primary, s.last_secondary, a.position);
    let rb = pinch_ref(s.last_secondary, s.last_secondary, b.position);
    (a.position.x - ra.x) * (b.position.x - rb.x) + (a.position.y - ra.y) * (b.position.y - rb.y)
}

/// The magnitude of the sum of the two pinch deltas, rounded down to an
/// integer: the amount by which the zoom moves this frame.
pub open spec fn pinch_delta_total(s: GestureState, a: TouchPoint, b: TouchPoint) -> int {
    let ra = pinch_ref(s.last_primary, s.last_secondary, a.position);
    let rb = pinch_ref(s.last_secondary, s.last_secondary, b.position);
    let sx = (a.position.x - ra.x) + (b.position.x - rb.x);
    let sy = (a.position.y - ra.y) + (b.position.y - rb.y);
    sqrt_floor((sx * sx + sy * sy) as nat) as int
}

/// The zoom direction: `1` when the inter-finger distance did not grow
/// (zooming out), `-1` when it grew (zooming in). Compares each touch's own
/// previous and current position, not the tracker's stored references, and
/// compares squared distances, which orders the distances themselves.
pub open spec fn pinch_zoom_sign(a: TouchPoint, b: TouchPoint) -> int {
    if dist_sq(a.previous_position, b.previous_position) >= dist_sq(a.position, b.position) {
        1
    } else {
        -1
    }
}

/// The zoom scale after an accepted pinch frame, before narrowing to a
/// machine integer: the old scale moved by
/// `sign * delta * zoom_sensitivity * scale / 1000`, so the step is
/// proportional to the current scale and the zoom rate feels the same at
/// every zoom level.
pub open spec fn pinch_new_scale(
    s: GestureState,
    cam: CameraState,
    a: TouchPoint,
    b: TouchPoint,
    cfg: TouchCameraConfig,
) -> int {
    cam.scale + pinch_zoom_sign(a, b) * tdiv(
        pinch_delta_total(s, a, b) * cfg.zoom_sensitivity * cam.scale,
        MILLI as int,
    )
}

/// Rule for two touches. The phase becomes `Pinching` whatever it was. A
/// dot product above the tolerance rejects the pinch for this frame and
/// deliberately leaves the stored positions alone; otherwise the zoom scale
/// moves as `pinch_new_scale` says and both positions are recorded.
pub open spec fn step_pinch(
    s: GestureState,
    cam: CameraState,
    a: TouchPoint,
    b: TouchPoint,
    cfg: TouchCameraConfig,
) -> (GestureState, CameraState) {
    if pinch_dot(s, a, b) > cfg.opposites_tolerance {
        (GestureState { phase: GesturePhase::Pinching, ..s }, cam)
    } else {
        (
            GestureState {
                phase: GesturePhase::Pinching,
                last_primary: Some(a.position),
                last_secondary: Some(b.position),
                ..s
            },
            CameraState { scale: pinch_new_scale(s, cam, a, b, cfg) as i64, ..cam },
        )
    }
}

/// The translation a pan origin is captured from: the camera's position
/// when the pan starts, the stored origin while it continues.
pub open spec fn pan_origin_now(s: GestureState, cam: CameraState) -> Vec3I {
    if s.phase == GesturePhase::Idle {
        cam.translation
    } else {
        s.pan_origin
    }
}

/// The time the current pan began.
pub open spec fn pan_start(s: GestureState, now: int) -> int {
    if s.phase == GesturePhase::Idle {
        now
    } else {
        s.pan_start_time as int
    }
}

/// The camera translation an active pan moves to, before narrowing to
/// machine integers: the captured origin shifted against the touch's total
/// displacement, with the screen's y axis inverted to the world's, scaled
/// by the drag sensitivity and the current zoom so the apparent drag speed
/// does not depend on the zoom level. The z coordinate is untouched.
pub open spec fn pan_translation(
    origin: Vec3I,
    t: TouchPoint,
    scale: i64,
    cfg: TouchCameraConfig,
) -> Vec3I {
    Vec3I {
        x: (origin.x - tdiv(cfg.drag_sensitivity * t.distance.x * scale, MILLI_SQ as int)) as i64,
        y: (origin.y - tdiv(
            cfg.drag_sensitivity * (-(t.distance.y as int)) * scale,
            MILLI_SQ as int,
        )) as i64,
        z: origin.z,
    }
}

/// Rule for one touch while idle or already panning. A fresh pan captures
/// the origin and start time; within the debounce window the camera stays
/// put; afterwards the translation moves to `pan_translation`.
pub open spec fn step_pan(
    s: GestureState,
    cam: CameraState,
    t: TouchPoint,
    now: int,
    cfg: TouchCameraConfig,
) -> (GestureState, CameraState) {
    let origin = pan_origin_now(s, cam);
    let t0 = pan_start(s, now);
    let s1 = GestureState {
        phase: GesturePhase::Panning,
        pan_origin: origin,
        pan_start_time: t0 as i64,
        ..s
    };
    if now - t0 < cfg.touch_time_min {
        (s1, cam)
    } else {
        (
            GestureState { last_primary: Some(t.position), last_secondary: None, ..s1 },
            CameraState { translation: pan_translation(origin, t, cam.scale, cfg), ..cam },
        )
    }
}

/// One frame of the state machine: the transition `touch_pan_zoom` makes,
/// as a function of the old tracker state, the old camera, the touch
/// snapshot, the release signal, the elapsed time and the configuration.
pub open spec fn step(
    s: GestureState,
    cam: CameraState,
    touches: Seq<TouchPoint>,
    released: bool,
    now: int,
    cfg: TouchCameraConfig,
) -> (GestureState, CameraState) {
    if touches.len() == 0 {
        (idle_reset(s), cam)
    } else {
        let s1 = if released {
            pinch_cancel(s)
        } else {
            s
        };
        if touches.len() == 2 {
            step_pinch(s1, cam, touches[0], touches[1], cfg)
        } else if touches.len() == 1 && (s1.phase == GesturePhase::Idle || s1.phase
            == GesturePhase::Panning) {
            step_pan(s1, cam, touches[0], now, cfg)
        } else {
            (s1, cam)
        }
    }
}

/// One frame of gesture tracking: reads the touch snapshot, the release
/// signal and the elapsed time, and updates the tracker state and the bound
/// camera exactly as `step` describes. The host calls this once per frame
/// while a camera is bound, and not at all otherwise.
pub fn touch_pan_zoom(
    state: &mut GestureState,
    camera: &mut CameraState,
    touches: &Vec<TouchPoint>,
    any_just_released: bool,
    elapsed_ms: i64,
    config: &TouchCameraConfig,
)
    requires
        wf_state(*old(state)),
        wf_camera(*old(camera)),
        wf_config(*config),
        forall|i: int| 0 <= i < touches@.len() ==> wf_touch(#[trigger] touches@[i]),
        0 <= elapsed_ms <= TIME_LIMIT,
    ensures
        *final(state) == step(
            *old(state),
            *old(camera),
            touches@,
            any_just_released,
            elapsed_ms as int,
            *config,
        ).0,
        *final(camera) == step(
            *old(state),
            *old(camera),
            touches@,
            any_just_released,
            elapsed_ms as int,
            *config,
        ).1,
{
    let ghost s0 = *state;
    let ghost cam0 = *camera;
    let ghost expected = step(s0, cam0, touches@, any_just_released, elapsed_ms as int, *config);
    if touches.len() == 0 {
        state.phase = GesturePhase::Idle;
        state.last_primary = None;
        state.last_secondary = None;
        proof {
            assert(*state == expected.0);
        }
        return;
    }
    if any_just_released {
        state.phase = GesturePhase::PinchCancelled;
        state.last_primary = None;
        state.last_secondary = None;
    }
    let ghost s1 = *state;
    proof {
        assert(s1 == if any_just_released {
            pinch_cancel(s0)
        } else {
            s0
        });
    }
    if touches.len() == 2 {
        let a = touches[0];
        let b = touches[1];
        proof {
            assert(wf_touch(touches@[0]));
            assert(wf_touch(touches@[1]));
        }
        state.phase = GesturePhase::Pinching;
        let ref_a = match state.last_secondary {
            None => a.position,
            Some(_) => match state.last_primary {
                Some(p) => p,
                None => a.position,
            },
        };
        let ref_b = match state.last_secondary {
            Some(p) => p,
            None => b.position,
        };
        proof {
            assert(ref_a == pinch_ref(s1.last_primary, s1.last_secondary, a.position));
            assert(ref_b == pinch_ref(s1.last_secondary, s1.last_secondary, b.position));
        }
        let da = a.position.sub(ref_a);
        let db = b.position.sub(ref_b);
        let dot = da.dot(db);
        proof {
            crate::arith::lemma_mul_congruence(
                da.x as int,
                db.x as int,
                a.position.x - ref_a.x,
                b.position.x - ref_b.x,
            );
            crate::arith::lemma_mul_congruence(
                da.y as int,
                db.y as int,
                a.position.y - ref_a.y,
                b.position.y - ref_b.y,
            );
            assert(dot as int == pinch_dot(s1, a, b));
        }
        if dot > config.opposites_tolerance {
            proof {
                assert(*state == expected.0);
                assert(*camera == expected.1);
            }
            return;
        }
        let dsum = da.add(db);
        let dlen = dsum.len_sq();
        proof {
            crate::arith::lemma_mul_bound(dsum.x as int, dsum.x as int, 0x40_0000, 0x40_0000);
            crate::arith::lemma_mul_bound(dsum.y as int, dsum.y as int, 0x40_0000, 0x40_0000);
        }
        let delta_total = crate::geometry::isqrt(dlen as u64);
        proof {
            crate::geometry::lemma_sqrt_floor_below(dlen as nat, 0x80_0000);
            let gsx = (a.position.x - ref_a.x) + (b.position.x - ref_b.x);
            let gsy = (a.position.y - ref_a.y) + (b.position.y - ref_b.y);
            crate::arith::lemma_mul_congruence(dsum.x as int, dsum.x as int, gsx, gsx);
            crate::arith::lemma_mul_congruence(dsum.y as int, dsum.y as int, gsy, gsy);
            assert(delta_total as int == pinch_delta_total(s1, a, b));
        }
        let prev_diff = a.previous_position.sub(b.previous_position);
        let prev_sq = prev_diff.len_sq();
        let cur_diff = a.position.sub(b.position);
        let cur_sq = cur_diff.len_sq();
        proof {
            crate::arith::lemma_mul_congruence(
                prev_diff.x as int,
                prev_diff.x as int,
                a.previous_position.x - b.previous_position.x,
                a.previous_position.x - b.previous_position.x,
            );
            crate::arith::lemma_mul_congruence(
                prev_diff.y as int,
                prev_diff.y as int,
                a.previous_position.y - b.previous_position.y,
                a.previous_position.y - b.previous_position.y,
            );
            crate::arith::lemma_mul_congruence(
                cur_diff.x as int,
                cur_diff.x as int,
                a.position.x - b.position.x,
                a.position.x - b.position.x,
            );
            crate::arith::lemma_mul_congruence(
                cur_diff.y as int,
                cur_diff.y as int,
                a.position.y - b.position.y,
                a.position.y - b.position.y,
            );
            assert(prev_sq as int == dist_sq(a.previous_position, b.previous_position));
            assert(cur_sq as int == dist_sq(a.position, b.position));
        }
        proof {
            crate::arith::lemma_abs_mul3_bound(
                (delta_total as i64) as int,
                config.zoom_sensitivity as int,
                camera.scale as int,
                0x80_0000,
                SENS_LIMIT as int,
                SCALE_LIMIT as int,
            );
        }
        let magnitude = crate::arith::mul3_tdiv(
            delta_total as i64,
            config.zoom_sensitivity,
            camera.scale,
            1000,
        );
        let ghost spec_magnitude = tdiv(
            pinch_delta_total(s1, a, b) * config.zoom_sensitivity * cam0.scale,
            MILLI as int,
        );
        proof {
            crate::arith::lemma_mul3_congruence(
                (delta_total as i64) as int,
                config.zoom_sensitivity as int,
                camera.scale as int,
                pinch_delta_total(s1, a, b),
                config.zoom_sensitivity as int,
                cam0.scale as int,
            );
            assert(magnitude as int == spec_magnitude);
        }
        if prev_sq >= cur_sq {
            proof {
                assert(pinch_zoom_sign(a, b) == 1);
                assert(pinch_zoom_sign(a, b) * spec_magnitude == spec_magnitude)
                    by (nonlinear_arith)
                    requires
                        pinch_zoom_sign(a, b) == 1,
                ;
                assert(pinch_new_scale(s1, cam0, a, b, *config) == cam0.scale + magnitude as int);
            }
            camera.scale = camera.scale + magnitude;
        } else {
            proof {
                assert(pinch_zoom_sign(a, b) == -1);
                assert(pinch_zoom_sign(a, b) * spec_magnitude == -spec_magnitude)
                    by (nonlinear_arith)
                    requires
                        pinch_zoom_sign(a, b) == -1,
                ;
                assert(pinch_new_scale(s1, cam0, a, b, *config) == cam0.scale - magnitude as int);
            }
            camera.scale = camera.scale - magnitude;
        }
        state.last_primary = Some(a.position);
        state.last_secondary = Some(b.position);
        proof {
            assert(*state == expected.0);
            assert(*camera == expected.1);
        }
    } else if touches.len() == 1 {
        if state.phase == GesturePhase::Idle || state.phase == GesturePhase::Panning {
            let t = touches[0];
            proof {
                assert(wf_touch(touches@[0]));
            }
            if state.phase == GesturePhase::Idle {
                state.pan_origin = camera.translation;
                state.pan_start_time = elapsed_ms;
            }
            state.phase = GesturePhase::Panning;
            proof {
                assert(state.pan_origin == pan_origin_now(s1, cam0));
                assert(state.pan_start_time as int == pan_start(s1, elapsed_ms as int));
            }
            if elapsed_ms - state.pan_start_time < config.touch_time_min {
                proof {
                    assert(*state == expected.0);
                    assert(*camera == expected.1);
                }
                return;
            }
            proof {
                crate::arith::lemma_abs_mul3_bound(
                    config.drag_sensitivity as int,
                    t.distance.x as int,
                    camera.scale as int,
                    SENS_LIMIT as int,
                    COORD_LIMIT as int,
                    SCALE_LIMIT as int,
                );
                crate::arith::lemma_abs_mul3_bound(
                    config.drag_sensitivity as int,
                    (-t.distance.y) as int,
                    camera.scale as int,
                    SENS_LIMIT as int,
                    COORD_LIMIT as int,
                    SCALE_LIMIT as int,
                );
            }
            let tx_off = crate::arith::mul3_tdiv(
                config.drag_sensitivity,
                t.distance.x,
                camera.scale,
                1000000,
            );
            let ty_off = crate::arith::mul3_tdiv(
                config.drag_sensitivity,
                -t.distance.y,
                camera.scale,
                1000000,
            );
            proof {
                crate::arith::lemma_mul3_congruence(
                    config.drag_sensitivity as int,
                    t.distance.x as int,
                    camera.scale as int,
                    config.drag_sensitivity as int,
                    t.distance.x as int,
                    cam0.scale as int,
                );
                crate::arith::lemma_mul3_congruence(
                    config.drag_sensitivity as int,
                    (-t.distance.y) as int,
                    camera.scale as int,
                    config.drag_sensitivity as int,
                    -(t.distance.y as int),
                    cam0.scale as int,
                );
                assert(tx_off as int == tdiv(
                    config.drag_sensitivity * t.distance.x * cam0.scale,
                    MILLI_SQ as int,
                ));
                assert(ty_off as int == tdiv(
                    config.drag_sensitivity * (-(t.distance.y as int)) * cam0.scale,
                    MILLI_SQ as int,
                ));
            }
            camera.translation = Vec3I {
                x: state.pan_origin.x - tx_off,
                y: state.pan_origin.y - ty_off,
                z: state.pan_origin.z,
            };
            state.last_primary = Some(t.position);
            state.last_secondary = None;
            proof {
                assert(camera.translation == pan_translation(
                    pan_origin_now(s1, cam0),
                    t,
                    cam0.scale,
                    *config,
                ));
                assert(*state == expected.0);
                assert(*camera == expected.1);
            }
        } else {
            proof {
                assert(*state == expected.0);
                assert(*camera == expected.1);
            }
        }
    } else {
        proof {
            assert(*state == expected.0);
            assert(*camera == expected.1);
        }
    }
}

} // verus!
