//! The keys that move the camera.

use vstd::prelude::*;

verus! {

/// Whether a key went down or up.
#[derive(Clone, Copy, Debug, PartialEq, Eq)]
pub enum ElementState {
    Pressed,
    Released,
}

/// The keys that the camera knows, and one for every other key.
#[derive(Clone, Copy, Debug, PartialEq, Eq)]
pub enum VirtualKeyCode {
    W,
    A,
    S,
    D,
    Up,
    Left,
    Down,
    Right,
    Other,
}

/// What the window reports of a key, and one for everything else that it
/// reports.
#[derive(Clone, Copy, Debug, PartialEq, Eq)]
pub enum WindowEvent {
    KeyboardInput { state: ElementState, virtual_keycode: Option<VirtualKeyCode> },
    Other,
}

/// The speed of the camera, and the directions in which it is being moved.
#[derive(Clone, Copy, Debug, PartialEq, Eq)]
pub struct CameraController {
    speed: i64,
    is_forward_pressed: bool,
    is_backward_pressed: bool,
    is_left_pressed: bool,
    is_right_pressed: bool,
}

/// A camera's controller as the contracts see it.
pub struct ControllerState {
    pub speed: i64,
    pub forward: bool,
    pub backward: bool,
    pub left: bool,
    pub right: bool,
}

impl View for CameraController {
    type V = ControllerState;

    closed spec fn view(&self) -> ControllerState {
        ControllerState {
            speed: self.speed,
            forward: self.is_forward_pressed,
            backward: self.is_backward_pressed,
            left: self.is_left_pressed,
            right: self.is_right_pressed,
        }
    }
}

impl ControllerState {
    /// The controller after `event`, and whether the event was one for it:
    /// `W` or up moves forward, `A` or left moves left, `S` or down moves
    /// backward, `D` or right moves right, for as long as the key is down.
    pub open spec fn after(self, event: WindowEvent) -> (ControllerState, bool) {
        match event {
            WindowEvent::KeyboardInput { state, virtual_keycode: Some(key) } => {
                let pressed = state == ElementState::Pressed;
                match key {
                    VirtualKeyCode::W | VirtualKeyCode::Up => (
                        ControllerState { forward: pressed, ..self },
                        true,
                    ),
                    VirtualKeyCode::A | VirtualKeyCode::Left => (
                        ControllerState { left: pressed, ..self },
                        true,
                    ),
                    VirtualKeyCode::S | VirtualKeyCode::Down => (
                        ControllerState { backward: pressed, ..self },
                        true,
                    ),
                    VirtualKeyCode::D | VirtualKeyCode::Right => (
                        ControllerState { right: pressed, ..self },
                        true,
                    ),
                    VirtualKeyCode::Other => (self, false),
                }
            },
            _ => (self, false),
        }
    }
}

impl CameraController {
    /// A controller of a camera of this speed that is not being moved.  The
    /// speed is a fixed-point number.
    pub fn new(speed: i64) -> (controller: Self)
        ensures
            controller@ == (ControllerState {
                speed,
                forward: false,
                backward: false,
                left: false,
                right: false,
            }),
    {
        Self {
            speed,
            is_forward_pressed: false,
            is_backward_pressed: false,
            is_left_pressed: false,
            is_right_pressed: false,
        }
    }

    /// Takes note of `event`, and returns whether the event was one for the
    /// camera.
    pub fn process_events(&mut self, event: &WindowEvent) -> (handled: bool)
        ensures
            (final(self)@, handled) == old(self)@.after(*event),
    {
        match event {
            WindowEvent::KeyboardInput { state, virtual_keycode: Some(keycode) } => {
                let is_pressed: bool = match state {
                    ElementState::Pressed => true,
                    ElementState::Released => false,
                };
                match keycode {
                    VirtualKeyCode::W | VirtualKeyCode::Up => {
                        self.is_forward_pressed = is_pressed;
                        true
                    },
                    VirtualKeyCode::A | VirtualKeyCode::Left => {
                        self.is_left_pressed = is_pressed;
                        true
                    },
                    VirtualKeyCode::S | VirtualKeyCode::Down => {
                        self.is_backward_pressed = is_pressed;
                        true
                    },
                    VirtualKeyCode::D | VirtualKeyCode::Right => {
                        self.is_right_pressed = is_pressed;
                        true
                    },
                    _ => false,
                }
            },
            _ => false,
        }
    }

    pub fn speed(&self) -> (speed: i64)
        ensures
            speed == self@.speed,
    {
        self.speed
    }

    pub fn is_forward_pressed(&self) -> (pressed: bool)
        ensures
            pressed == self@.forward,
    {
        self.is_forward_pressed
    }

    pub fn is_backward_pressed(&self) -> (pressed: bool)
        ensures
            pressed == self@.backward,
    {
        self.is_backward_pressed
    }

    pub fn is_left_pressed(&self) -> (pressed: bool)
        ensures
            pressed == self@.left,
    {
        self.is_left_pressed
    }

    pub fn is_right_pressed(&self) -> (pressed: bool)
        ensures
            pressed == self@.right,
    {
        self.is_right_pressed
    }
}

} // verus!
