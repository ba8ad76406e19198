//! Positioners: the policies that place the windows of a workspace.

use vstd::prelude::*;

use crate::desktop_layout::window::{Window, WindowKind};
use crate::framework::surface_data::{MoveAfterResizeState, SurfaceData};
use crate::geometry::Size;

pub mod floating;
pub mod tiling;
pub mod universal;

verus! {

/// A pointer button.
#[derive(Clone, Copy, Debug, PartialEq, Eq, Structural)]
pub enum MouseButton {
    Left,
    Right,
    Middle,
    Other(u16),
}

/// Whether a button went down or up.
#[derive(Clone, Copy, Debug, PartialEq, Eq, Structural)]
pub enum ButtonState {
    Pressed,
    Released,
}

/// The window is an xdg toplevel whose acknowledged state is maximized: a move takes it out
/// of that state.
pub open spec fn maximized_xdg(w: Window) -> bool {
    w.toplevel.kind == WindowKind::Xdg && w.toplevel.alive && w.toplevel.maximized
}

/// The size a window asks for again when a move takes it out of the maximized state: the size
/// it had before its last resize and move, if that one is current.
pub open spec fn size_before_maximize(s: MoveAfterResizeState) -> Option<Size> {
    match s {
        MoveAfterResizeState::Current(d) => Some(d.initial_size),
        _ => None,
    }
}

/// `w` after a move took it out of the maximized state: it is asked to leave that state with
/// the size it had before, and its move-after-resize state becomes `state`.
pub open spec fn unmaximized_for_move(w: Window, state: MoveAfterResizeState) -> Window {
    Window {
        data: SurfaceData { move_after_resize_state: state, ..w.data },
        toplevel: w.toplevel.spec_unmaximize(size_before_maximize(w.data.move_after_resize_state)),
        ..w
    }
}

} // verus!
