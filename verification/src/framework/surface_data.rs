//! Per-surface compositor data: the state of interactive resizes and of the
//! move-after-resize sequence used by maximize and unmaximize.

use vstd::prelude::*;

use crate::geometry::{Point, Rectangle, Size};

verus! {

/// The edges a surface is being resized by, as the bits of the xdg-shell `resize_edge` enum:
/// top 1, bottom 2, left 4, right 8.
#[derive(Clone, Copy, Debug, PartialEq, Eq, Structural)]
pub struct ResizeEdge {
    pub bits: u32,
}

impl ResizeEdge {
    pub const NONE: u32 = 0;
    pub const TOP: u32 = 1;
    pub const BOTTOM: u32 = 2;
    pub const LEFT: u32 = 4;
    pub const TOP_LEFT: u32 = 5;
    pub const BOTTOM_LEFT: u32 = 6;
    pub const RIGHT: u32 = 8;
    pub const TOP_RIGHT: u32 = 9;
    pub const BOTTOM_RIGHT: u32 = 10;

    pub open spec fn spec_intersects(self, bits: u32) -> bool {
        self.bits & bits != 0
    }

    /// Whether the edges share a flag with `bits`.
    pub fn intersects(&self, bits: u32) -> (b: bool)
        ensures
            b == self.spec_intersects(bits),
    {
        self.bits & bits != 0
    }
}

/// Information about the maximize and unmaximize operations.
#[derive(Clone, Copy, Debug, PartialEq, Eq, Structural)]
pub struct MoveAfterResizeData {
    /// The initial window location.
    pub initial_window_location: Point,
    /// The initial window geometry.
    pub initial_size: Size,
    /// The target window location.
    pub target_window_location: Point,
    /// The target window geometry.
    pub target_size: Size,
}

/// State of a resize that is followed by a move.
#[derive(Clone, Copy, Debug, PartialEq, Eq, Structural)]
pub enum MoveAfterResizeState {
    /// Idle
    Idle,
    /// The surface was resized and moved
    Current(MoveAfterResizeData),
    /// The resize and move was requested, and the surface needs to ack the configure
    WaitingForAck(MoveAfterResizeData),
    /// Waiting for commit
    WaitingForCommit(MoveAfterResizeData),
}

/// Information about the resize operation.
#[derive(Clone, Copy, Debug, PartialEq, Eq, Structural)]
pub struct ResizeData {
    /// The edges the surface is being resized with.
    pub edges: ResizeEdge,
    /// The initial window location.
    pub initial_window_location: Point,
    /// The initial window size (geometry width and height).
    pub initial_window_size: Size,
}

/// State of the resize operation.
#[derive(Clone, Copy, Debug, PartialEq, Eq, Structural)]
pub enum ResizeState {
    /// The surface is not being resized.
    NotResizing,
    /// The surface is currently being resized.
    Resizing(ResizeData),
    /// The resize has finished, and the surface needs to ack the final configure whose serial
    /// is the second field.
    WaitingForFinalAck(ResizeData, u32),
    /// The resize has finished, and the surface needs to commit its final state.
    WaitingForCommit(ResizeData),
}

/// The data the compositor keeps for every surface.
#[derive(Clone, Copy, Debug, PartialEq, Eq, Structural)]
pub struct SurfaceData {
    pub geometry: Option<Rectangle>,
    pub resize_state: ResizeState,
    pub move_after_resize_state: MoveAfterResizeState,
}

/// Whether serial `a` is at or after serial `b`, counting across a wrap-around of `u32`: two
/// serials more than half the range apart compare the other way round.
pub open spec fn serial_at_least(a: u32, b: u32) -> bool {
    let distance: int = if a > b {
        a - b
    } else {
        b - a
    };
    if distance < u32::MAX / 2 {
        a >= b
    } else {
        b >= a
    }
}

/// Whether serial `a` is at or after serial `b`, counting across a wrap-around.
pub fn serial_is_at_least(a: u32, b: u32) -> (r: bool)
    ensures
        r == serial_at_least(a, b),
{
    let distance = if a > b {
        a - b
    } else {
        b - a
    };
    if distance < u32::MAX / 2 {
        a >= b
    } else {
        b >= a
    }
}

/// A resize waiting for its final acknowledgement waits for the commit once the client
/// acknowledges the very configure it waits for while still resizing, and the commit that
/// follows ends it.
pub proof fn law_final_ack_then_commit_ends_resize(d: ResizeData, serial: u32)
    ensures
        resize_state_after_ack(ResizeState::WaitingForFinalAck(d, serial), serial, true)
            == ResizeState::WaitingForCommit(d),
        resize_state_after_commit(
            resize_state_after_ack(ResizeState::WaitingForFinalAck(d, serial), serial, true),
        ) == ResizeState::NotResizing,
{
}

/// The resize data of a resize that is still in progress.
pub open spec fn resize_data_of(s: ResizeState) -> Option<ResizeData> {
    match s {
        ResizeState::NotResizing => Option::None,
        ResizeState::Resizing(d) => Option::Some(d),
        ResizeState::WaitingForFinalAck(d, _) => Option::Some(d),
        ResizeState::WaitingForCommit(d) => Option::Some(d),
    }
}

/// The resize state after the client acknowledged configure `serial`.
pub open spec fn resize_state_after_ack(s: ResizeState, serial: u32, is_resizing: bool) -> ResizeState {
    match s {
        ResizeState::WaitingForFinalAck(d, waiting) => if serial_at_least(serial, waiting)
            && is_resizing {
            ResizeState::WaitingForCommit(d)
        } else {
            s
        },
        _ => s,
    }
}

/// The move-after-resize state after the client acknowledged a configure.
pub open spec fn move_state_after_ack(s: MoveAfterResizeState) -> MoveAfterResizeState {
    match s {
        MoveAfterResizeState::WaitingForAck(m) => MoveAfterResizeState::WaitingForCommit(m),
        _ => s,
    }
}

/// The resize state after a commit of the surface.
pub open spec fn resize_state_after_commit(s: ResizeState) -> ResizeState {
    match s {
        ResizeState::WaitingForCommit(_) => ResizeState::NotResizing,
        _ => s,
    }
}

/// The move-after-resize state after a commit of the surface.
pub open spec fn move_state_after_commit(s: MoveAfterResizeState) -> MoveAfterResizeState {
    match s {
        MoveAfterResizeState::WaitingForCommit(m) => MoveAfterResizeState::Current(m),
        _ => s,
    }
}

/// The location a commit moves the window to, if any.
pub open spec fn location_after_commit(s: MoveAfterResizeState) -> Option<Point> {
    match s {
        MoveAfterResizeState::WaitingForCommit(m) => Option::Some(m.target_window_location),
        _ => Option::None,
    }
}

impl SurfaceData {
    /// The data after the client acknowledged configure `serial`.
    pub open spec fn acked(self, serial: u32, is_resizing: bool) -> SurfaceData {
        SurfaceData {
            resize_state: resize_state_after_ack(self.resize_state, serial, is_resizing),
            move_after_resize_state: move_state_after_ack(self.move_after_resize_state),
            ..self
        }
    }

    /// The data after a commit of the surface.
    pub open spec fn committed(self) -> SurfaceData {
        SurfaceData {
            resize_state: resize_state_after_commit(self.resize_state),
            move_after_resize_state: move_state_after_commit(self.move_after_resize_state),
            ..self
        }
    }

    pub open spec fn spec_new() -> SurfaceData {
        SurfaceData {
            geometry: Option::None,
            resize_state: ResizeState::NotResizing,
            move_after_resize_state: MoveAfterResizeState::Idle,
        }
    }

    pub fn new() -> (d: SurfaceData)
        ensures
            d == SurfaceData::spec_new(),
    {
        SurfaceData {
            geometry: Option::None,
            resize_state: ResizeState::NotResizing,
            move_after_resize_state: MoveAfterResizeState::Idle,
        }
    }

    /// The client acknowledged the configure with serial `serial`; `is_resizing` tells whether
    /// the surface's current xdg state still holds the resizing flag.
    ///
    /// A resize waiting for its final acknowledgement waits for the commit once a serial at or
    /// after the one it waits for is acknowledged while resizing; a move-after-resize waiting
    /// for an acknowledgement waits for the commit.
    pub fn ack_configure(&mut self, serial: u32, is_resizing: bool)
        ensures
            *final(self) == old(self).acked(serial, is_resizing),
    {
        match self.resize_state {
            ResizeState::WaitingForFinalAck(d, waiting) => {
                if serial_is_at_least(serial, waiting) && is_resizing {
                    self.resize_state = ResizeState::WaitingForCommit(d);
                }
            },
            _ => {},
        }
        match self.move_after_resize_state {
            MoveAfterResizeState::WaitingForAck(m) => {
                self.move_after_resize_state = MoveAfterResizeState::WaitingForCommit(m);
            },
            _ => {},
        }
    }

    /// The surface committed: a finished resize ends, and a move-after-resize waiting for this
    /// commit becomes current; its target location is returned, as the window's new location.
    ///
    /// Moving a window that is resized by its top or left edge is not handled, so surfaces in
    /// that state are left out.
    pub fn commit(&mut self) -> (new_location: Option<Point>)
        requires
            match resize_data_of(old(self).resize_state) {
                Option::Some(d) => !d.edges.spec_intersects(ResizeEdge::TOP_LEFT),
                Option::None => true,
            },
        ensures
            *final(self) == old(self).committed(),
            new_location == location_after_commit(old(self).move_after_resize_state),
    {
        let mut new_location: Option<Point> = Option::None;
        match self.resize_state {
            ResizeState::WaitingForCommit(_) => {
                self.resize_state = ResizeState::NotResizing;
            },
            _ => {},
        }
        match self.move_after_resize_state {
            MoveAfterResizeState::WaitingForCommit(m) => {
                new_location = Option::Some(m.target_window_location);
                self.move_after_resize_state = MoveAfterResizeState::Current(m);
            },
            _ => {},
        }
        new_location
    }
}

} // verus!
