use touch_camera::config::TouchCameraConfig;
use touch_camera::geometry::{Vec2I, Vec3I};
use touch_camera::tracker::{
    CameraState, GesturePhase, GestureState, TouchPoint, touch_pan_zoom,
};

fn config(touch_time_min: i64, opposites_tolerance: i64) -> TouchCameraConfig {
    TouchCameraConfig {
        drag_sensitivity: 1000,
        zoom_sensitivity: 5,
        touch_time_min,
        opposites_tolerance,
    }
}

fn camera() -> CameraState {
    CameraState { translation: Vec3I { x: 0, y: 0, z: 0 }, scale: 1000 }
}

fn touch(id: u64, pos: (i64, i64), prev: (i64, i64), dist: (i64, i64)) -> TouchPoint {
    TouchPoint {
        id,
        position: Vec2I { x: pos.0, y: pos.1 },
        previous_position: Vec2I { x: prev.0, y: prev.1 },
        distance: Vec2I { x: dist.0, y: dist.1 },
    }
}

#[test]
fn pan_moves_camera_against_screen_y() {
    // One touch appears at (100, 100) with no debounce; the next frame it
    // sits at (100, 150) in screen space (y down). World y must rise by 50.
    let cfg = config(0, 0);
    let mut state = GestureState::default();
    let mut cam = camera();
    let frame1 = vec![touch(1, (100, 100), (100, 100), (0, 0))];
    touch_pan_zoom(&mut state, &mut cam, &frame1, false, 0, &cfg);
    assert_eq!(state.phase, GesturePhase::Panning);
    assert_eq!(cam.translation.x, 0);
    assert_eq!(cam.translation.y, 0);
    let frame2 = vec![touch(1, (100, 150), (100, 100), (0, 50))];
    touch_pan_zoom(&mut state, &mut cam, &frame2, false, 16, &cfg);
    assert_eq!(cam.translation.x, 0);
    assert_eq!(cam.translation.y, 50);
    assert_eq!(cam.translation.z, 0);
    assert_eq!(state.last_primary, Some(Vec2I { x: 100, y: 150 }));
    assert_eq!(state.last_secondary, None);
}

#[test]
fn pinch_first_frame_has_zero_zoom_delta() {
    // Two touches at (0,0) and (100,0): entering the pinch seeds the
    // references from the current positions, so the scale cannot jump.
    let cfg = config(0, 0);
    let mut state = GestureState::default();
    let mut cam = camera();
    let frame = vec![
        touch(1, (0, 0), (0, 0), (0, 0)),
        touch(2, (100, 0), (100, 0), (0, 0)),
    ];
    touch_pan_zoom(&mut state, &mut cam, &frame, false, 0, &cfg);
    assert_eq!(state.phase, GesturePhase::Pinching);
    assert_eq!(cam.scale, 1000);
    assert_eq!(state.last_primary, Some(Vec2I { x: 0, y: 0 }));
    assert_eq!(state.last_secondary, Some(Vec2I { x: 100, y: 0 }));
}

#[test]
fn pinch_spreading_with_cancelling_deltas_leaves_scale() {
    // Frame two of the pinch above: touches move to (-10,0) and (110,0).
    // The deltas are exactly opposite, so their sum — and with it the zoom
    // step sign(direction) * |delta_a + delta_b| * sensitivity * scale —
    // is zero, although the fingers spread.
    let cfg = config(0, 0);
    let mut state = GestureState::default();
    let mut cam = camera();
    let frame1 = vec![
        touch(1, (0, 0), (0, 0), (0, 0)),
        touch(2, (100, 0), (100, 0), (0, 0)),
    ];
    touch_pan_zoom(&mut state, &mut cam, &frame1, false, 0, &cfg);
    let frame2 = vec![
        touch(1, (-10, 0), (0, 0), (-10, 0)),
        touch(2, (110, 0), (100, 0), (10, 0)),
    ];
    touch_pan_zoom(&mut state, &mut cam, &frame2, false, 16, &cfg);
    assert_eq!(state.phase, GesturePhase::Pinching);
    assert_eq!(cam.scale, 1000);
    assert_eq!(state.last_primary, Some(Vec2I { x: -10, y: 0 }));
    assert_eq!(state.last_secondary, Some(Vec2I { x: 110, y: 0 }));
}

#[test]
fn pinch_spreading_zooms_in() {
    // One finger rests while the other spreads: scale falls by
    // |delta| * zoom_sensitivity * scale / 1000 = 50 * 5 * 1000 / 1000.
    let cfg = config(0, 0);
    let mut state = GestureState::default();
    let mut cam = camera();
    let frame1 = vec![
        touch(1, (0, 0), (0, 0), (0, 0)),
        touch(2, (100, 0), (100, 0), (0, 0)),
    ];
    touch_pan_zoom(&mut state, &mut cam, &frame1, false, 0, &cfg);
    let frame2 = vec![
        touch(1, (0, 0), (0, 0), (0, 0)),
        touch(2, (150, 0), (100, 0), (50, 0)),
    ];
    touch_pan_zoom(&mut state, &mut cam, &frame2, false, 16, &cfg);
    assert_eq!(cam.scale, 750);
}

#[test]
fn pinch_closing_zooms_out_proportionally() {
    // Continuing from a scale of 750, closing by the same 50 units grows
    // the scale by 50 * 5 * 750 / 1000 = 187: the step follows the scale.
    let cfg = config(0, 0);
    let mut state = GestureState {
        phase: GesturePhase::Pinching,
        pan_origin: Vec3I { x: 0, y: 0, z: 0 },
        pan_start_time: 0,
        last_primary: Some(Vec2I { x: 0, y: 0 }),
        last_secondary: Some(Vec2I { x: 150, y: 0 }),
    };
    let mut cam = CameraState { translation: Vec3I { x: 0, y: 0, z: 0 }, scale: 750 };
    let frame = vec![
        touch(1, (0, 0), (0, 0), (0, 0)),
        touch(2, (100, 0), (150, 0), (0, 0)),
    ];
    touch_pan_zoom(&mut state, &mut cam, &frame, false, 32, &cfg);
    assert_eq!(cam.scale, 937);
}

#[test]
fn idle_reset_on_empty_frame() {
    // Whatever the tracker was doing, a frame without touches returns it to
    // idle and forgets both stored positions; the camera stays put.
    let cfg = config(0, 0);
    let mut state = GestureState {
        phase: GesturePhase::Pinching,
        pan_origin: Vec3I { x: 7, y: 8, z: 9 },
        pan_start_time: 42,
        last_primary: Some(Vec2I { x: 1, y: 2 }),
        last_secondary: Some(Vec2I { x: 3, y: 4 }),
    };
    let mut cam = CameraState { translation: Vec3I { x: 5, y: 6, z: 7 }, scale: 1234 };
    let frame: Vec<TouchPoint> = vec![];
    touch_pan_zoom(&mut state, &mut cam, &frame, false, 100, &cfg);
    assert_eq!(state.phase, GesturePhase::Idle);
    assert_eq!(state.last_primary, None);
    assert_eq!(state.last_secondary, None);
    assert_eq!(cam.translation, Vec3I { x: 5, y: 6, z: 7 });
    assert_eq!(cam.scale, 1234);
}

#[test]
fn pan_debounce_holds_camera_still() {
    // With a 100 ms debounce the camera must not move 0 ms or 50 ms after
    // touch-down, however far the finger travelled; at 150 ms it moves.
    let cfg = config(100, 0);
    let mut state = GestureState::default();
    let mut cam = camera();
    let frame1 = vec![touch(1, (10, 10), (5, 5), (5, 5))];
    touch_pan_zoom(&mut state, &mut cam, &frame1, false, 50, &cfg);
    assert_eq!(state.phase, GesturePhase::Panning);
    assert_eq!(cam.translation, Vec3I { x: 0, y: 0, z: 0 });
    touch_pan_zoom(&mut state, &mut cam, &frame1, false, 100, &cfg);
    assert_eq!(cam.translation, Vec3I { x: 0, y: 0, z: 0 });
    touch_pan_zoom(&mut state, &mut cam, &frame1, false, 200, &cfg);
    assert_eq!(cam.translation, Vec3I { x: -5, y: 5, z: 0 });
}

#[test]
fn pinch_rejection_changes_nothing_but_phase() {
    // Both fingers drift the same way: the dot product of the deltas is
    // positive, above the zero tolerance, so the zoom and the stored
    // positions stay exactly as they were.
    let cfg = config(0, 0);
    let mut state = GestureState {
        phase: GesturePhase::Pinching,
        pan_origin: Vec3I { x: 0, y: 0, z: 0 },
        pan_start_time: 0,
        last_primary: Some(Vec2I { x: 0, y: 0 }),
        last_secondary: Some(Vec2I { x: 100, y: 0 }),
    };
    let mut cam = camera();
    let frame = vec![
        touch(1, (10, 0), (0, 0), (10, 0)),
        touch(2, (110, 0), (100, 0), (10, 0)),
    ];
    touch_pan_zoom(&mut state, &mut cam, &frame, false, 16, &cfg);
    assert_eq!(state.phase, GesturePhase::Pinching);
    assert_eq!(cam.scale, 1000);
    assert_eq!(state.last_primary, Some(Vec2I { x: 0, y: 0 }));
    assert_eq!(state.last_secondary, Some(Vec2I { x: 100, y: 0 }));
}

#[test]
fn pinch_seed_rejected_under_negative_tolerance() {
    // A negative tolerance rejects even the seeding frame, whose deltas dot
    // to zero: the phase still becomes Pinching but nothing is recorded —
    // a documented corner of the rejection rule.
    let cfg = config(0, -1);
    let mut state = GestureState::default();
    let mut cam = camera();
    let frame = vec![
        touch(1, (0, 0), (0, 0), (0, 0)),
        touch(2, (100, 0), (100, 0), (0, 0)),
    ];
    touch_pan_zoom(&mut state, &mut cam, &frame, false, 0, &cfg);
    assert_eq!(state.phase, GesturePhase::Pinching);
    assert_eq!(cam.scale, 1000);
    assert_eq!(state.last_primary, None);
    assert_eq!(state.last_secondary, None);
}

#[test]
fn release_cancels_gesture() {
    // The frame a finger lifts, the gesture is cancelled and the single
    // remaining touch does not pan: the phase is not Idle or Panning.
    let cfg = config(0, 0);
    let mut state = GestureState {
        phase: GesturePhase::Pinching,
        pan_origin: Vec3I { x: 0, y: 0, z: 0 },
        pan_start_time: 0,
        last_primary: Some(Vec2I { x: 0, y: 0 }),
        last_secondary: Some(Vec2I { x: 100, y: 0 }),
    };
    let mut cam = camera();
    let frame = vec![touch(1, (30, 40), (20, 30), (30, 40))];
    touch_pan_zoom(&mut state, &mut cam, &frame, true, 16, &cfg);
    assert_eq!(state.phase, GesturePhase::PinchCancelled);
    assert_eq!(state.last_primary, None);
    assert_eq!(state.last_secondary, None);
    assert_eq!(cam.translation, Vec3I { x: 0, y: 0, z: 0 });
    assert_eq!(cam.scale, 1000);
}

#[test]
fn three_touches_change_nothing() {
    // Touch counts above two match no rule: the frame falls through and
    // the whole state survives unchanged.
    let cfg = config(0, 0);
    let mut state = GestureState {
        phase: GesturePhase::Panning,
        pan_origin: Vec3I { x: 1, y: 2, z: 3 },
        pan_start_time: 10,
        last_primary: Some(Vec2I { x: 4, y: 5 }),
        last_secondary: None,
    };
    let mut cam = CameraState { translation: Vec3I { x: 6, y: 7, z: 8 }, scale: 900 };
    let frame = vec![
        touch(1, (0, 0), (0, 0), (0, 0)),
        touch(2, (10, 0), (10, 0), (0, 0)),
        touch(3, (20, 0), (20, 0), (0, 0)),
    ];
    touch_pan_zoom(&mut state, &mut cam, &frame, false, 16, &cfg);
    assert_eq!(state.phase, GesturePhase::Panning);
    assert_eq!(state.pan_origin, Vec3I { x: 1, y: 2, z: 3 });
    assert_eq!(state.pan_start_time, 10);
    assert_eq!(state.last_primary, Some(Vec2I { x: 4, y: 5 }));
    assert_eq!(state.last_secondary, None);
    assert_eq!(cam.translation, Vec3I { x: 6, y: 7, z: 8 });
    assert_eq!(cam.scale, 900);
}

#[test]
fn one_touch_after_cancel_does_not_pan() {
    // After a cancellation the remaining touch must pass through Idle
    // before a new pan starts: while the phase is PinchCancelled, a single
    // touch is ignored.
    let cfg = config(0, 0);
    let mut state = GestureState {
        phase: GesturePhase::PinchCancelled,
        pan_origin: Vec3I { x: 0, y: 0, z: 0 },
        pan_start_time: 0,
        last_primary: None,
        last_secondary: None,
    };
    let mut cam = camera();
    let frame = vec![touch(1, (50, 50), (40, 40), (10, 10))];
    touch_pan_zoom(&mut state, &mut cam, &frame, false, 16, &cfg);
    assert_eq!(state.phase, GesturePhase::PinchCancelled);
    assert_eq!(cam.translation, Vec3I { x: 0, y: 0, z: 0 });
    assert_eq!(cam.scale, 1000);
}

#[test]
fn pan_speed_scales_with_zoom() {
    // At twice the scale the same drag moves the camera twice as far.
    let cfg = config(0, 0);
    let mut state = GestureState::default();
    let mut cam = CameraState { translation: Vec3I { x: 0, y: 0, z: 0 }, scale: 2000 };
    let frame1 = vec![touch(1, (0, 0), (0, 0), (0, 0))];
    touch_pan_zoom(&mut state, &mut cam, &frame1, false, 0, &cfg);
    let frame2 = vec![touch(1, (10, 0), (0, 0), (10, 0))];
    touch_pan_zoom(&mut state, &mut cam, &frame2, false, 16, &cfg);
    assert_eq!(cam.translation, Vec3I { x: -20, y: 0, z: 0 });
}
