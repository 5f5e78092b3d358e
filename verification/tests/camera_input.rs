//! The camera transform with its geographic clamping, and the
//! accumulate-then-drain input state.

use heatmap::camera::{Camera, CameraEvent};
use heatmap::input::{ElementState, InputState, MouseButton, MouseScrollDelta, WindowEvent};

fn small_camera() -> Camera {
    // 800x800 window at the default zoom: the viewport is far wider than
    // the world until the first zoom clamps it.
    Camera {
        aspect: (800, 800),
        width: 800,
        height: 800,
        zoom: 1_000_000,
        position: (0, 0),
    }
}

#[test]
fn zoom_clamps_viewport_to_world_size() {
    let mut c = small_camera();
    c.update_camera(CameraEvent::Zoom(0, (0, 0)));
    assert!(c.view_width() <= 360_000_000);
    assert!(c.view_height() <= 170_000_000);
    // Zooming far out again cannot widen it past the world.
    c.update_camera(CameraEvent::Zoom(-1_000_000_000_000, (0, 0)));
    assert!(c.view_width() <= 360_000_000);
    assert!(c.view_height() <= 170_000_000);
}

#[test]
fn zoom_never_goes_negative() {
    let mut c = small_camera();
    c.update_camera(CameraEvent::Zoom(i64::MIN + 1, (0, 0)));
    assert!(c.zoom > 0);
}

#[test]
fn translate_discards_movement_past_an_edge() {
    let mut c = small_camera();
    c.update_camera(CameraEvent::Zoom(0, (0, 0)));
    // A huge push to the east pins the right edge at 180 degrees.
    c.update_camera(CameraEvent::Translate((1_000_000_000, 0)));
    assert!(c.position.0 + c.view_width() <= 180_000_000);
    assert!(c.position.0 >= -180_000_000);
    // A huge push to the west pins the left edge at -180 degrees.
    c.update_camera(CameraEvent::Translate((-2_000_000_000, 0)));
    assert_eq!(c.position.0, -180_000_000);
    // North-south clamps: top at 80, bottom at -90.
    c.update_camera(CameraEvent::Translate((0, 1_000_000_000)));
    assert_eq!(c.position.1, 80_000_000);
    c.update_camera(CameraEvent::Translate((0, -2_000_000_000)));
    assert!(c.position.1 - c.view_height() >= -90_000_000);
}

#[test]
fn reclamping_a_clamped_camera_is_a_noop() {
    let mut c = small_camera();
    c.update_camera(CameraEvent::Zoom(0, (0, 0)));
    c.update_camera(CameraEvent::Translate((1_000_000_000, 500_000_000)));
    let before = c;
    c.update_camera(CameraEvent::Translate((0, 0)));
    assert_eq!(c, before);
}

#[test]
fn entire_view_is_the_canonical_framing() {
    let mut c = small_camera();
    c.update_camera(CameraEvent::EntireView);
    assert_eq!(c.position, (-180_000_000, 90_000_000));
    assert_eq!(c.zoom, 5_000_000);
    assert_eq!(c.width, 1800);
    assert_eq!(c.height, 900);
    // The canonical framing spans the whole world: 360 by 180 degrees.
    assert_eq!(c.view_width(), 360_000_000);
    assert_eq!(c.view_height(), 180_000_000);
}

#[test]
fn resize_updates_extents_and_aspect() {
    let mut c = small_camera();
    c.update_camera(CameraEvent::Resize(1600, 900));
    assert_eq!(c.width, 1600);
    assert_eq!(c.height, 900);
    assert_eq!(c.aspect, (1600, 900));
    assert_eq!(c.zoom, 1_000_000);
}

#[test]
fn mouse_conversion_negates_x_and_divides_by_zoom() {
    let mut c = small_camera();
    c.zoom = 2_000_000;
    let w = c.mouse_coordinate_convert((1_000_000, 2_000_000));
    assert_eq!(w, (-500_000, 1_000_000));
}

#[test]
fn drag_accumulates_only_while_left_button_is_held() {
    let mut s = InputState::new();
    s.eat_event(WindowEvent::CursorMoved { position: (1_000_000, 1_000_000) });
    assert_eq!(s.consume_drag_delta(), (0, 0));
    s.eat_event(WindowEvent::MouseInput {
        state: ElementState::Pressed,
        button: MouseButton::Left,
    });
    s.eat_event(WindowEvent::CursorMoved { position: (3_000_000, 2_000_000) });
    s.eat_event(WindowEvent::CursorMoved { position: (4_000_000, 2_000_000) });
    assert_eq!(s.consume_drag_delta(), (3_000_000, 1_000_000));
    // Drained: a second consume sees nothing.
    assert_eq!(s.consume_drag_delta(), (0, 0));
    s.eat_event(WindowEvent::MouseInput {
        state: ElementState::Released,
        button: MouseButton::Left,
    });
    s.eat_event(WindowEvent::CursorMoved { position: (9_000_000, 9_000_000) });
    assert_eq!(s.consume_drag_delta(), (0, 0));
}

#[test]
fn scroll_accumulates_lines_and_pixels() {
    let mut s = InputState::new();
    s.eat_event(WindowEvent::MouseWheel {
        delta: MouseScrollDelta::LineDelta(0, 1_000_000),
    });
    s.eat_event(WindowEvent::MouseWheel {
        delta: MouseScrollDelta::PixelDelta((0, 2_500_000)),
    });
    assert_eq!(s.consume_scroll_delta(), 12_500_000);
    assert_eq!(s.consume_scroll_delta(), 0);
}

#[test]
fn pressed_buttons_are_a_set() {
    let mut s = InputState::new();
    s.eat_event(WindowEvent::MouseInput {
        state: ElementState::Pressed,
        button: MouseButton::Right,
    });
    s.eat_event(WindowEvent::MouseInput {
        state: ElementState::Pressed,
        button: MouseButton::Right,
    });
    assert!(s.is_mouse_button_pressed(MouseButton::Right));
    s.eat_event(WindowEvent::MouseInput {
        state: ElementState::Released,
        button: MouseButton::Right,
    });
    assert!(!s.is_mouse_button_pressed(MouseButton::Right));
}

#[test]
fn keys_are_tracked_like_buttons() {
    let mut s = InputState::new();
    s.eat_event(WindowEvent::KeyboardInput { key: 32, state: ElementState::Pressed });
    assert!(s.is_key_pressed(32));
    s.eat_event(WindowEvent::KeyboardInput { key: 32, state: ElementState::Released });
    assert!(!s.is_key_pressed(32));
}
