//! Toplevel windows and the ordered list of windows of a positioner.

use vstd::prelude::*;

use crate::framework::surface_data::{
    location_after_commit, MoveAfterResizeData, MoveAfterResizeState, SurfaceData,
};
use crate::geometry::{Point, Rectangle, Size};

verus! {

/// Identifies a `wl_surface` (the protocol object id the compositor gave it).
pub type SurfaceId = u64;

/// The shell a toplevel comes from.
#[derive(Clone, Copy, Debug, PartialEq, Eq, Structural)]
pub enum WindowKind {
    Xdg,
    X11,
}

/// The toplevel state that the next configure event will carry.
#[derive(Clone, Copy, Debug, PartialEq, Eq, Structural)]
pub struct ToplevelPending {
    pub activated: bool,
    pub maximized: bool,
    pub size: Option<Size>,
}

/// A toplevel surface: its identity, the state the client acknowledged, and the state the
/// compositor wants to send it.
#[derive(Clone, Copy, Debug, PartialEq, Eq, Structural)]
pub struct WindowSurface {
    pub id: SurfaceId,
    pub kind: WindowKind,
    /// Whether the protocol object is still alive.
    pub alive: bool,
    /// The acknowledged xdg state holds the maximized flag.
    pub maximized: bool,
    /// The acknowledged xdg state holds the fullscreen flag.
    pub fullscreen: bool,
    /// The pending state for the next configure.
    pub pending: ToplevelPending,
    /// A configure (for an X11 window: a resize) is to be sent to the client.
    pub configure_pending: bool,
}

impl WindowSurface {
    /// A toplevel as `new` makes it.
    pub open spec fn spec_new(id: SurfaceId, kind: WindowKind) -> WindowSurface {
        WindowSurface {
            id,
            kind,
            alive: true,
            maximized: false,
            fullscreen: false,
            pending: ToplevelPending { activated: false, maximized: false, size: None },
            configure_pending: false,
        }
    }

    pub fn new(id: SurfaceId, kind: WindowKind) -> (s: WindowSurface)
        ensures
            s == WindowSurface::spec_new(id, kind),
            s.id == id,
            s.kind == kind,
            s.alive,
            !s.maximized,
            !s.fullscreen,
            s.pending == (ToplevelPending { activated: false, maximized: false, size: None }),
            !s.configure_pending,
    {
        WindowSurface {
            id,
            kind,
            alive: true,
            maximized: false,
            fullscreen: false,
            pending: ToplevelPending { activated: false, maximized: false, size: None },
            configure_pending: false,
        }
    }

    pub fn alive(&self) -> (b: bool)
        ensures
            b == self.alive,
    {
        self.alive
    }

    /// The surface, while it is alive.
    pub fn get_surface(&self) -> (s: Option<SurfaceId>)
        ensures
            s == (if self.alive {
                Some(self.id)
            } else {
                None::<SurfaceId>
            }),
    {
        if self.alive {
            Some(self.id)
        } else {
            None
        }
    }

    pub open spec fn spec_set_activated(self, active: bool) -> WindowSurface {
        if self.kind == WindowKind::Xdg && self.alive {
            WindowSurface {
                pending: ToplevelPending { activated: active, ..self.pending },
                configure_pending: self.configure_pending || self.pending.activated != active,
                ..self
            }
        } else {
            self
        }
    }

    /// Activate or deactivate this window; a configure follows only when the flag changes.
    pub fn set_activated(&mut self, active: bool)
        ensures
            *final(self) == old(self).spec_set_activated(active),
    {
        if self.kind == WindowKind::Xdg && self.alive {
            if self.pending.activated != active {
                self.configure_pending = true;
            }
            self.pending.activated = active;
        }
    }

    pub open spec fn spec_maximize(self, size: Size) -> WindowSurface {
        if self.kind == WindowKind::Xdg && self.alive {
            WindowSurface {
                pending: ToplevelPending { maximized: true, size: Some(size), ..self.pending },
                configure_pending: true,
                ..self
            }
        } else {
            self
        }
    }

    /// Ask an xdg toplevel to be maximized at `size`.
    pub fn maximize(&mut self, size: Size)
        ensures
            *final(self) == old(self).spec_maximize(size),
    {
        if self.kind == WindowKind::Xdg && self.alive {
            self.pending.maximized = true;
            self.pending.size = Some(size);
            self.configure_pending = true;
        }
    }

    pub open spec fn spec_unmaximize(self, size: Option<Size>) -> WindowSurface {
        if self.kind == WindowKind::Xdg && self.alive {
            WindowSurface {
                pending: ToplevelPending { maximized: false, size: size, ..self.pending },
                configure_pending: true,
                ..self
            }
        } else {
            self
        }
    }

    /// Ask an xdg toplevel to leave the maximized state, with the given size (or none, to let
    /// the client choose).
    pub fn unmaximize(&mut self, size: Option<Size>)
        ensures
            *final(self) == old(self).spec_unmaximize(size),
    {
        if self.kind == WindowKind::Xdg && self.alive {
            self.pending.maximized = false;
            self.pending.size = size;
            self.configure_pending = true;
        }
    }

    pub open spec fn spec_resize(self, size: Size) -> WindowSurface {
        if self.kind == WindowKind::X11 || self.alive {
            WindowSurface {
                pending: ToplevelPending { size: Some(size), ..self.pending },
                configure_pending: true,
                ..self
            }
        } else {
            self
        }
    }

    /// Ask the window to take `size`: an xdg toplevel gets it in its next configure, an X11
    /// window is resized.
    pub fn resize(&mut self, size: Size)
        ensures
            *final(self) == old(self).spec_resize(size),
    {
        if self.kind == WindowKind::X11 || self.alive {
            self.pending.size = Some(size);
            self.configure_pending = true;
        }
    }
}

/// `loc` moved by `by`.
pub open spec fn translated(r: Rectangle, by: Point) -> Rectangle {
    Rectangle {
        loc: Point { x: (r.loc.x + by.x) as i32, y: (r.loc.y + by.y) as i32 },
        size: r.size,
    }
}

/// Whether `r` moved by `by` stays in the range of `i32`.
pub open spec fn translation_fits(r: Rectangle, by: Point) -> bool {
    &&& i32::MIN <= r.loc.x + by.x <= i32::MAX
    &&& i32::MIN <= r.loc.y + by.y <= i32::MAX
}

/// A mapped toplevel window.
#[derive(Clone, Copy, Debug, PartialEq, Eq, Structural)]
pub struct Window {
    /// Where the window's surface tree starts, in layout coordinates.
    pub location: Point,
    /// The bounding box of the window and its subsurfaces, in layout coordinates, as of the
    /// last update.
    pub bbox: Rectangle,
    /// The bounding box of the surface tree relative to the window's location, as measured on
    /// the surface tree.
    pub surface_bbox: Rectangle,
    /// The window geometry the client set, if any, as of the last read of its surface state.
    pub xdg_geometry: Option<Rectangle>,
    pub toplevel: WindowSurface,
    /// The compositor data of the window's surface.
    pub data: SurfaceData,
    /// The exit animation has started.
    pub exiting: bool,
    /// The exit animation has finished.
    pub exited: bool,
}

impl Window {
    /// The bounding box after an update: recomputed from the surface tree while the toplevel
    /// is alive, kept otherwise.
    pub open spec fn spec_self_update(self) -> Window {
        if self.toplevel.alive {
            Window { bbox: translated(self.surface_bbox, self.location), ..self }
        } else {
            self
        }
    }

    pub open spec fn update_fits(self) -> bool {
        translation_fits(self.surface_bbox, self.location)
    }

    /// The window geometry: the one the client set while its surface is alive, or else the
    /// bounding box moved to the origin.
    pub open spec fn spec_geometry(self) -> Rectangle {
        match self.xdg_geometry {
            Some(g) => if self.toplevel.alive {
                g
            } else {
                Rectangle { loc: Point { x: 0, y: 0 }, size: self.bbox.size }
            },
            None => Rectangle { loc: Point { x: 0, y: 0 }, size: self.bbox.size },
        }
    }

    /// A window as `new` makes it.
    pub open spec fn spec_new(toplevel: WindowSurface, location: Point) -> Window {
        Window {
            location,
            bbox: Rectangle { loc: location, size: Size { w: 0, h: 0 } },
            surface_bbox: Rectangle { loc: Point { x: 0, y: 0 }, size: Size { w: 0, h: 0 } },
            xdg_geometry: None,
            toplevel,
            data: SurfaceData::spec_new(),
            exiting: false,
            exited: false,
        }
    }

    pub fn new(toplevel: WindowSurface, location: Point) -> (w: Window)
        ensures
            w == Window::spec_new(toplevel, location),
            w.location == location,
            w.toplevel == toplevel,
            w.surface_bbox == (Rectangle { loc: Point { x: 0, y: 0 }, size: Size { w: 0, h: 0 } }),
            w.bbox == (Rectangle { loc: location, size: Size { w: 0, h: 0 } }),
            w.xdg_geometry is None,
            w.data == SurfaceData::spec_new(),
            !w.exiting,
            !w.exited,
    {
        Window {
            location,
            bbox: Rectangle { loc: location, size: Size { w: 0, h: 0 } },
            surface_bbox: Rectangle { loc: Point { x: 0, y: 0 }, size: Size { w: 0, h: 0 } },
            xdg_geometry: None,
            toplevel,
            data: SurfaceData::new(),
            exiting: false,
            exited: false,
        }
    }

    pub fn location(&self) -> (p: Point)
        ensures
            p == self.location,
    {
        self.location
    }

    pub fn bbox(&self) -> (r: Rectangle)
        ensures
            r == self.bbox,
    {
        self.bbox
    }

    pub fn toplevel(&self) -> (t: WindowSurface)
        ensures
            t == self.toplevel,
    {
        self.toplevel
    }

    /// The window's surface, while it is alive.
    pub fn surface(&self) -> (s: Option<SurfaceId>)
        ensures
            s == (if self.toplevel.alive {
                Some(self.toplevel.id)
            } else {
                None::<SurfaceId>
            }),
    {
        self.toplevel.get_surface()
    }

    /// Recompute the bounding box from the surface tree.
    pub fn self_update(&mut self)
        requires
            old(self).update_fits(),
        ensures
            *final(self) == old(self).spec_self_update(),
    {
        if self.toplevel.alive {
            self.bbox = Rectangle {
                loc: Point {
                    x: self.surface_bbox.loc.x + self.location.x,
                    y: self.surface_bbox.loc.y + self.location.y,
                },
                size: self.surface_bbox.size,
            };
        }
    }

    /// Move the window and update its bounding box.
    pub fn set_location(&mut self, location: Point)
        requires
            translation_fits(old(self).surface_bbox, location),
        ensures
            *final(self) == (Window { location, ..*old(self) }).spec_self_update(),
    {
        self.location = location;
        self.self_update();
    }

    /// The window geometry.
    pub fn geometry(&self) -> (g: Rectangle)
        ensures
            g == self.spec_geometry(),
    {
        match self.xdg_geometry {
            Some(g) => if self.toplevel.alive {
                g
            } else {
                Rectangle { loc: Point { x: 0, y: 0 }, size: self.bbox.size }
            },
            None => Rectangle { loc: Point { x: 0, y: 0 }, size: self.bbox.size },
        }
    }

    pub open spec fn spec_maximize(self, target: Rectangle) -> Window {
        Window {
            data: if self.toplevel.alive {
                SurfaceData {
                    move_after_resize_state: MoveAfterResizeState::WaitingForAck(
                        MoveAfterResizeData {
                            initial_window_location: self.location,
                            initial_size: self.spec_geometry().size,
                            target_window_location: target.loc,
                            target_size: target.size,
                        },
                    ),
                    ..self.data
                }
            } else {
                self.data
            },
            toplevel: self.toplevel.spec_maximize(target.size),
            ..self
        }
    }

    /// Maximize the window to `target_geometry`: the window is to move there once the client
    /// committed the maximized size.
    pub fn maximize(&mut self, target_geometry: Rectangle)
        ensures
            *final(self) == old(self).spec_maximize(target_geometry),
    {
        let initial_window_location = self.location;
        let initial_size = self.geometry().size;
        if self.toplevel.alive {
            self.data.move_after_resize_state =
                MoveAfterResizeState::WaitingForAck(
                MoveAfterResizeData {
                    initial_window_location,
                    initial_size,
                    target_window_location: target_geometry.loc,
                    target_size: target_geometry.size,
                },
            );
        }
        self.toplevel.maximize(target_geometry.size);
    }

    pub open spec fn spec_unmaximize(self) -> Window {
        let state = self.data.move_after_resize_state;
        let size = if self.toplevel.alive {
            match state {
                MoveAfterResizeState::Current(m) => Some(m.initial_size),
                _ => None::<Size>,
            }
        } else {
            None::<Size>
        };
        Window {
            data: if self.toplevel.alive {
                match state {
                    MoveAfterResizeState::Current(m) => SurfaceData {
                        move_after_resize_state: MoveAfterResizeState::WaitingForAck(
                            MoveAfterResizeData {
                                initial_window_location: self.location,
                                initial_size: self.spec_geometry().size,
                                target_window_location: m.initial_window_location,
                                target_size: m.initial_size,
                            },
                        ),
                        ..self.data
                    },
                    _ => self.data,
                }
            } else {
                self.data
            },
            toplevel: self.toplevel.spec_unmaximize(size),
            ..self
        }
    }

    /// Leave the maximized state: a window that was moved and resized by a maximize goes back
    /// to the location and size it had before.
    pub fn unmaximize(&mut self)
        ensures
            *final(self) == old(self).spec_unmaximize(),
    {
        let initial_window_location = self.location;
        let initial_size = self.geometry().size;
        let size = if self.toplevel.alive {
            let state = self.data.move_after_resize_state;
            match state {
                MoveAfterResizeState::Current(m) => {
                    self.data.move_after_resize_state =
                        MoveAfterResizeState::WaitingForAck(
                        MoveAfterResizeData {
                            initial_window_location,
                            initial_size,
                            target_window_location: m.initial_window_location,
                            target_size: m.initial_size,
                        },
                    );
                    Some(m.initial_size)
                },
                _ => None,
            }
        } else {
            None
        };
        self.toplevel.unmaximize(size);
    }
}

/// Maximizing a live xdg window and then unmaximizing it brings it back. The maximize asks the
/// client for the target's size; once the client acknowledged a configure and committed, the
/// window is moved to the target's location. The unmaximize that follows asks for the size the
/// window had before, and once that is acknowledged and committed the window goes back to the
/// location it had before.
pub proof fn law_maximize_then_unmaximize(
    w: Window,
    target: Rectangle,
    serial1: u32,
    resizing1: bool,
    serial2: u32,
    resizing2: bool,
)
    requires
        w.toplevel.alive,
        w.toplevel.kind == WindowKind::Xdg,
    ensures
        ({
            let m = w.spec_maximize(target);
            let d1 = m.data.acked(serial1, resizing1);
            let w2 = (Window { location: target.loc, data: d1.committed(), ..m }).spec_self_update();
            let u = w2.spec_unmaximize();
            let d2 = u.data.acked(serial2, resizing2);
            &&& m.toplevel.pending.maximized
            &&& m.toplevel.pending.size == Some(target.size)
            &&& location_after_commit(d1.move_after_resize_state) == Some(target.loc)
            &&& !u.toplevel.pending.maximized
            &&& u.toplevel.pending.size == Some(w.spec_geometry().size)
            &&& location_after_commit(d2.move_after_resize_state) == Some(w.location)
        }),
{
}

} // verus!
