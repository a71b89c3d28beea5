use vstd::prelude::*;

verus! {

/// Whether the overlay passes input to its target or accepts interaction.
#[derive(Clone, Copy, Debug, Default, Eq, PartialEq, Structural)]
pub enum InteractionMode {
    /// Mouse and keyboard input pass through to the target window.
    #[default]
    PassThrough,
    /// The overlay receives mouse and keyboard input.
    Interactive,
}

/// A mouse button reported by the overlay window.
#[derive(Clone, Copy, Debug, Eq, PartialEq, Structural)]
pub enum MouseButton {
    Left,
    Right,
    Middle,
    X1,
    X2,
}

/// A physical key transition identified by its Windows virtual-key code.
#[derive(Clone, Copy, Debug, Eq, PartialEq, Structural)]
pub enum KeyState {
    Pressed,
    Released,
}

/// An input or focus event as the overlay window reports it, in the window's own units:
/// client pixel coordinates and raw wheel steps (one notch is `WHEEL_DELTA`).
#[derive(Clone, Copy, Debug, Eq, PartialEq, Structural)]
#[allow(inconsistent_fields)]
pub enum WindowEvent {
    MouseMoved { x: i16, y: i16 },
    MouseButton { button: MouseButton, pressed: bool, x: i16, y: i16 },
    MouseWheel { delta: i16, x: i32, y: i32 },
    Key { virtual_key: u16, state: KeyState },
    Text(char),
    Focused(bool),
    CloseRequested,
}

impl WindowEvent {
    pub open spec fn is_mouse_move(self) -> bool {
        self is MouseMoved
    }
}

} // verus!
