use brumous::camera::CameraController;
use brumous::camera::ElementState;
use brumous::camera::VirtualKeyCode;
use brumous::camera::WindowEvent;

fn key(state: ElementState, code: VirtualKeyCode) -> WindowEvent {
    WindowEvent::KeyboardInput { state, virtual_keycode: Some(code) }
}

fn pressed(c: &CameraController) -> [bool; 4] {
    [c.is_forward_pressed(), c.is_backward_pressed(), c.is_left_pressed(), c.is_right_pressed()]
}

#[test]
fn a_new_controller_moves_nothing() {
    let c = CameraController::new(20_000);
    assert_eq!(c.speed(), 20_000);
    assert_eq!(pressed(&c), [false; 4]);
}

#[test]
fn keys_move_the_camera_while_they_are_down() {
    let mut c = CameraController::new(1);
    let keys = [
        (VirtualKeyCode::W, 0),
        (VirtualKeyCode::Up, 0),
        (VirtualKeyCode::S, 1),
        (VirtualKeyCode::Down, 1),
        (VirtualKeyCode::A, 2),
        (VirtualKeyCode::Left, 2),
        (VirtualKeyCode::D, 3),
        (VirtualKeyCode::Right, 3),
    ];
    for (code, direction) in keys {
        assert!(c.process_events(&key(ElementState::Pressed, code)));
        let mut expected = [false; 4];
        expected[direction] = true;
        assert_eq!(pressed(&c), expected);
        assert!(c.process_events(&key(ElementState::Released, code)));
        assert_eq!(pressed(&c), [false; 4]);
    }
    assert_eq!(c.speed(), 1);
}

#[test]
fn keys_are_held_together() {
    let mut c = CameraController::new(1);
    assert!(c.process_events(&key(ElementState::Pressed, VirtualKeyCode::W)));
    assert!(c.process_events(&key(ElementState::Pressed, VirtualKeyCode::Right)));
    assert_eq!(pressed(&c), [true, false, false, true]);
    assert!(c.process_events(&key(ElementState::Released, VirtualKeyCode::Up)));
    assert_eq!(pressed(&c), [false, false, false, true]);
}

#[test]
fn other_events_are_not_for_the_camera() {
    let mut c = CameraController::new(1);
    c.process_events(&key(ElementState::Pressed, VirtualKeyCode::A));
    let before = c;
    assert!(!c.process_events(&key(ElementState::Pressed, VirtualKeyCode::Other)));
    assert!(!c.process_events(&WindowEvent::Other));
    assert!(!c.process_events(&WindowEvent::KeyboardInput {
        state: ElementState::Pressed,
        virtual_keycode: None,
    }));
    assert_eq!(c, before);
}
