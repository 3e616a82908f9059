//! The library's general guarantees, stated over the frame transition
//! `step` and the binder rule, and proved for every input the state machine
//! accepts.

use crate::arith::{MILLI, iabs, lemma_abs_mul3_bound, lemma_mul_bound, lemma_tdiv_bound, tdiv};
use crate::binder::{BindAction, bind_decision_spec, tags_after};
use crate::config::{COORD_LIMIT, SCALE_LIMIT, SENS_LIMIT, TouchCameraConfig, wf_config};
use crate::geometry::{dist_sq, lemma_sqrt_floor_below, sqrt_floor};
use crate::tracker::{
    CameraState, GesturePhase, GestureState, TouchPoint, pan_origin_now, pan_start, pinch_cancel,
    pinch_delta_total, pinch_dot, pinch_new_scale, pinch_ref, pinch_zoom_sign, step, wf_camera,
    wf_state, wf_touch,
};
use vstd::prelude::*;

verus! {

/// Idle reset: on a frame with no touches the phase returns to `Idle`,
/// both stored last positions are forgotten, and the camera is untouched,
/// whatever state the tracker was in.
pub proof fn lemma_idle_reset(
    s: GestureState,
    cam: CameraState,
    touches: Seq<TouchPoint>,
    released: bool,
    now: int,
    cfg: TouchCameraConfig,
)
    requires
        touches.len() == 0,
    ensures
        step(s, cam, touches, released, now, cfg).0.phase == GesturePhase::Idle,
        step(s, cam, touches, released, now, cfg).0.last_primary is None,
        step(s, cam, touches, released, now, cfg).0.last_secondary is None,
        step(s, cam, touches, released, now, cfg).1 == cam,
{
}

/// Pinch zero-jump: on the frame two touches first appear — no secondary
/// reference is stored, or a release this frame just cleared it — both
/// deltas are seeded from the current positions, the zoom delta is exactly
/// zero, and the camera is unchanged, wherever the touches sit.
pub proof fn lemma_pinch_zero_jump(
    s: GestureState,
    cam: CameraState,
    touches: Seq<TouchPoint>,
    released: bool,
    now: int,
    cfg: TouchCameraConfig,
)
    requires
        touches.len() == 2,
        released || s.last_secondary is None,
    ensures
        step(s, cam, touches, released, now, cfg).1 == cam,
{
    let s1 = if released {
        pinch_cancel(s)
    } else {
        s
    };
    let a = touches[0];
    let b = touches[1];
    assert(s1.last_secondary is None);
    assert(pinch_ref(s1.last_primary, s1.last_secondary, a.position) == a.position);
    assert(pinch_ref(s1.last_secondary, s1.last_secondary, b.position) == b.position);
    assert(pinch_dot(s1, a, b) == 0) by (nonlinear_arith)
        requires
            pinch_ref(s1.last_primary, s1.last_secondary, a.position) == a.position,
            pinch_ref(s1.last_secondary, s1.last_secondary, b.position) == b.position,
            pinch_dot(s1, a, b) == (a.position.x - pinch_ref(
                s1.last_primary,
                s1.last_secondary,
                a.position,
            ).x) * (b.position.x - pinch_ref(s1.last_secondary, s1.last_secondary, b.position).x) + (
            a.position.y - pinch_ref(s1.last_primary, s1.last_secondary, a.position).y) * (
            b.position.y - pinch_ref(s1.last_secondary, s1.last_secondary, b.position).y),
    ;
    if pinch_dot(s1, a, b) > cfg.opposites_tolerance {
    } else {
        assert(pinch_delta_total(s1, a, b) == sqrt_floor(0nat) as int) by (nonlinear_arith)
            requires
                pinch_ref(s1.last_primary, s1.last_secondary, a.position) == a.position,
                pinch_ref(s1.last_secondary, s1.last_secondary, b.position) == b.position,
                pinch_delta_total(s1, a, b) == sqrt_floor(
                    (((a.position.x - pinch_ref(s1.last_primary, s1.last_secondary, a.position).x)
                        + (b.position.x - pinch_ref(
                        s1.last_secondary,
                        s1.last_secondary,
                        b.position,
                    ).x)) * ((a.position.x - pinch_ref(
                        s1.last_primary,
                        s1.last_secondary,
                        a.position,
                    ).x) + (b.position.x - pinch_ref(
                        s1.last_secondary,
                        s1.last_secondary,
                        b.position,
                    ).x)) + ((a.position.y - pinch_ref(
                        s1.last_primary,
                        s1.last_secondary,
                        a.position,
                    ).y) + (b.position.y - pinch_ref(
                        s1.last_secondary,
                        s1.last_secondary,
                        b.position,
                    ).y)) * ((a.position.y - pinch_ref(
                        s1.last_primary,
                        s1.last_secondary,
                        a.position,
                    ).y) + (b.position.y - pinch_ref(
                        s1.last_secondary,
                        s1.last_secondary,
                        b.position,
                    ).y))) as nat,
                ) as int,
        ;
        assert(pinch_delta_total(s1, a, b) == 0);
        assert(pinch_delta_total(s1, a, b) * cfg.zoom_sensitivity * cam.scale == 0)
            by (nonlinear_arith)
            requires
                pinch_delta_total(s1, a, b) == 0,
        ;
        assert(tdiv(0, MILLI as int) == 0);
        assert(pinch_zoom_sign(a, b) * tdiv(
            pinch_delta_total(s1, a, b) * cfg.zoom_sensitivity * cam.scale,
            MILLI as int,
        ) == 0) by (nonlinear_arith)
            requires
                tdiv(
                    pinch_delta_total(s1, a, b) * cfg.zoom_sensitivity * cam.scale,
                    MILLI as int,
                ) == 0,
        ;
        assert(pinch_new_scale(s1, cam, a, b, cfg) == cam.scale);
    }
}

/// Pan debounce: with one touch, no release, and a phase that allows
/// panning, the camera does not move while the time since the pan began is
/// still within the debounce window; a pan starting this frame records the
/// camera's own translation as its origin, so the translation equals the
/// recorded origin throughout the window.
pub proof fn lemma_pan_debounce(
    s: GestureState,
    cam: CameraState,
    touches: Seq<TouchPoint>,
    now: int,
    cfg: TouchCameraConfig,
)
    requires
        touches.len() == 1,
        s.phase == GesturePhase::Idle || s.phase == GesturePhase::Panning,
        pan_start(s, now) + cfg.touch_time_min > now,
    ensures
        step(s, cam, touches, false, now, cfg).1 == cam,
        step(s, cam, touches, false, now, cfg).0.phase == GesturePhase::Panning,
        step(s, cam, touches, false, now, cfg).0.pan_origin == pan_origin_now(s, cam),
        s.phase == GesturePhase::Idle ==> step(
            s,
            cam,
            touches,
            false,
            now,
            cfg,
        ).0.pan_origin == cam.translation,
{
}

/// Zoom monotonic sign: with two touches strictly spreading — each touch's
/// own previous position shows the inter-finger distance growing — whose
/// deltas pass the opposite-direction test, the scale moves down by exactly
/// the zoom step, so spreading consistently zooms in; it strictly shrinks
/// as soon as the step's numerator reaches one whole unit.
pub proof fn lemma_zoom_sign(
    s: GestureState,
    cam: CameraState,
    touches: Seq<TouchPoint>,
    now: int,
    cfg: TouchCameraConfig,
)
    requires
        touches.len() == 2,
        wf_state(s),
        wf_camera(cam),
        wf_config(cfg),
        wf_touch(touches[0]),
        wf_touch(touches[1]),
        cam.scale >= 0,
        pinch_dot(s, touches[0], touches[1]) <= cfg.opposites_tolerance,
        dist_sq(touches[0].previous_position, touches[1].previous_position) < dist_sq(
            touches[0].position,
            touches[1].position,
        ),
    ensures
        step(s, cam, touches, false, now, cfg).1.scale as int == cam.scale - tdiv(
            pinch_delta_total(s, touches[0], touches[1]) * cfg.zoom_sensitivity * cam.scale,
            MILLI as int,
        ),
        step(s, cam, touches, false, now, cfg).1.scale <= cam.scale,
        pinch_delta_total(s, touches[0], touches[1]) * cfg.zoom_sensitivity * cam.scale
            >= MILLI as int ==> step(s, cam, touches, false, now, cfg).1.scale < cam.scale,
{
    let a = touches[0];
    let b = touches[1];
    let ra = pinch_ref(s.last_primary, s.last_secondary, a.position);
    let rb = pinch_ref(s.last_secondary, s.last_secondary, b.position);
    let sx = (a.position.x - ra.x) + (b.position.x - rb.x);
    let sy = (a.position.y - ra.y) + (b.position.y - rb.y);
    assert(iabs(sx) <= 0x40_0000 && iabs(sy) <= 0x40_0000);
    lemma_mul_bound(sx, sx, 0x40_0000, 0x40_0000);
    lemma_mul_bound(sy, sy, 0x40_0000, 0x40_0000);
    assert(sx * sx >= 0 && sy * sy >= 0) by (nonlinear_arith);
    lemma_sqrt_floor_below((sx * sx + sy * sy) as nat, 0x80_0000);
    let dt = pinch_delta_total(s, a, b);
    assert(dt == sqrt_floor((sx * sx + sy * sy) as nat) as int);
    assert(0 <= dt < 0x80_0000);
    let p = dt * cfg.zoom_sensitivity * cam.scale;
    lemma_abs_mul3_bound(
        dt,
        cfg.zoom_sensitivity as int,
        cam.scale as int,
        0x80_0000,
        SENS_LIMIT as int,
        SCALE_LIMIT as int,
    );
    assert(p >= 0) by (nonlinear_arith)
        requires
            dt >= 0,
            cfg.zoom_sensitivity >= 0,
            cam.scale >= 0,
            p == dt * cfg.zoom_sensitivity * cam.scale,
    ;
    assert(iabs(p) == p);
    assert(p <= 0x8000_0000_0000_0000) by (nonlinear_arith)
        requires
            0 <= dt <= 0x80_0000,
            0 <= cfg.zoom_sensitivity <= 0x1_0000,
            0 <= cam.scale <= 0x10_0000,
            p == dt * cfg.zoom_sensitivity * cam.scale,
    ;
    lemma_tdiv_bound(p, MILLI as int);
    let m = tdiv(p, MILLI as int);
    assert(0 <= m <= p);
    assert(pinch_zoom_sign(a, b) == -1);
    assert(pinch_zoom_sign(a, b) * m == -m) by (nonlinear_arith)
        requires
            pinch_zoom_sign(a, b) == -1,
    ;
    assert(pinch_new_scale(s, cam, a, b, cfg) == cam.scale - m);
    if p >= MILLI as int {
        assert(m >= 1);
    }
}

/// Pinch rejection: with two touches whose deltas fail the opposite-
/// direction test, the frame changes nothing but the phase, which becomes
/// `Pinching`: the camera keeps scale and translation, and the stored last
/// positions — deliberately — stay exactly as the release rule left them.
pub proof fn lemma_pinch_rejection(
    s: GestureState,
    cam: CameraState,
    touches: Seq<TouchPoint>,
    released: bool,
    now: int,
    cfg: TouchCameraConfig,
)
    requires
        touches.len() == 2,
        ({
            let s1 = if released {
                pinch_cancel(s)
            } else {
                s
            };
            pinch_dot(s1, touches[0], touches[1]) > cfg.opposites_tolerance
        }),
    ensures
        step(s, cam, touches, released, now, cfg).1 == cam,
        step(s, cam, touches, released, now, cfg).0 == (GestureState {
            phase: GesturePhase::Pinching,
            ..(if released {
                pinch_cancel(s)
            } else {
                s
            })
        }),
{
}

/// The tracker keeps a secondary position stored exactly while the phase
/// is `Pinching`, provided the tolerance is not negative. (A negative
/// tolerance can reject the very frame a pinch starts, keeping the phase
/// with no stored secondary; that corner is part of the rejection rule.)
pub open spec fn secondary_iff_pinching(s: GestureState) -> bool {
    s.last_secondary is Some <==> s.phase == GesturePhase::Pinching
}

/// The invariant above survives every frame, whatever the touches do.
pub proof fn lemma_secondary_invariant(
    s: GestureState,
    cam: CameraState,
    touches: Seq<TouchPoint>,
    released: bool,
    now: int,
    cfg: TouchCameraConfig,
)
    requires
        cfg.opposites_tolerance >= 0,
        secondary_iff_pinching(s),
    ensures
        secondary_iff_pinching(step(s, cam, touches, released, now, cfg).0),
{
    let s1 = if released {
        pinch_cancel(s)
    } else {
        s
    };
    if touches.len() == 2 {
        let a = touches[0];
        let b = touches[1];
        if s1.last_secondary is None {
            assert(pinch_ref(s1.last_primary, s1.last_secondary, a.position) == a.position);
            assert(pinch_ref(s1.last_secondary, s1.last_secondary, b.position) == b.position);
            assert(pinch_dot(s1, a, b) == 0) by (nonlinear_arith)
                requires
                    pinch_ref(s1.last_primary, s1.last_secondary, a.position) == a.position,
                    pinch_ref(s1.last_secondary, s1.last_secondary, b.position) == b.position,
                    pinch_dot(s1, a, b) == (a.position.x - pinch_ref(
                        s1.last_primary,
                        s1.last_secondary,
                        a.position,
                    ).x) * (b.position.x - pinch_ref(
                        s1.last_secondary,
                        s1.last_secondary,
                        b.position,
                    ).x) + (a.position.y - pinch_ref(
                        s1.last_primary,
                        s1.last_secondary,
                        a.position,
                    ).y) * (b.position.y - pinch_ref(
                        s1.last_secondary,
                        s1.last_secondary,
                        b.position,
                    ).y),
            ;
        }
    }
}

/// Binder single camera: with no tagged entity and exactly one camera, the
/// binder decides to attach the tag, and afterwards exactly one entity
/// carries it.
pub proof fn lemma_binder_single_camera()
    ensures
        bind_decision_spec(0, 1) == BindAction::Attach,
        tags_after(0, bind_decision_spec(0, 1)) == 1,
{
}

} // verus!
