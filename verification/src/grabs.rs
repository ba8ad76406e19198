//! Moving a window with the pointer: it follows the pointer while a button is held, then it is
//! dropped into the workspace it was let go over.

use vstd::prelude::*;

use crate::desktop_layout::output_map::covers;
use crate::desktop_layout::window::{translation_fits, SurfaceId, Window};
use crate::desktop_layout::{named, ws_index, Anodium, AnodiumView, WorkspaceView};
use crate::framework::surface_data::MoveAfterResizeState;
use crate::geometry::Point;
use crate::positioner::universal::mapped_in_place;
use crate::seqs::{first_where, lemma_first_where};

verus! {

/// A window may follow the pointer when no move-after-resize is waiting to happen.
pub open spec fn may_follow(s: MoveAfterResizeState) -> bool {
    s is Current || s is Idle
}

/// The grabbed window after the pointer moved so far that the window would be at `target`.
pub open spec fn followed(grabbed: Option<Window>, target: Point) -> Option<Window> {
    match grabbed {
        Some(w) => if w.toplevel.alive && may_follow(w.data.move_after_resize_state) {
            Some((Window { location: target, ..w }).spec_self_update())
        } else {
            Some(w)
        },
        None => None,
    }
}

/// Moving the pointer back to where a move started puts the window back where it was, its
/// bounding box recomputed there.
pub proof fn law_moving_back_restores_the_window(w: Window, target: Point)
    requires
        w.toplevel.alive,
        may_follow(w.data.move_after_resize_state),
    ensures
        followed(followed(Some(w), target), w.location) == Some(w.spec_self_update()),
{
}

/// While a move-after-resize waits to happen, the window does not follow the pointer.
pub proof fn law_waiting_window_stays(w: Window, target: Point)
    requires
        !may_follow(w.data.move_after_resize_state),
    ensures
        followed(Some(w), target) == Some(w),
{
}

/// Where a dropped window is considered to be: the corner of its geometry.
pub open spec fn drop_point(w: Window) -> Point {
    Point {
        x: (w.location.x + w.spec_geometry().loc.x) as i32,
        y: (w.location.y + w.spec_geometry().loc.y) as i32,
    }
}

/// The workspace a window dropped at `p` goes to: the one shown on the first output under
/// `p`, or else the active one.
pub open spec fn drop_target(v: AnodiumView, p: Point) -> Option<int> {
    match first_where(v.outputs, covers(p)) {
        Some(k) => ws_index(v.workspaces, v.outputs[k].active_workspace),
        None => match v.active_workspace {
            Some(a) => ws_index(v.workspaces, a),
            None => None,
        },
    }
}

/// The layout after `w` was dropped into workspace `j`, where it is.
pub open spec fn dropped(v: AnodiumView, j: int, w: Window) -> AnodiumView {
    AnodiumView {
        workspaces: v.workspaces.update(
            j,
            WorkspaceView { positioner: mapped_in_place(v.workspaces[j].positioner, w), ..v.workspaces[j] },
        ),
        ..v
    }
}

/// An interactive move of the window of a surface.
#[derive(Clone, Copy, Debug, PartialEq, Eq, Structural)]
pub struct MoveSurfaceGrab {
    pub toplevel: SurfaceId,
    /// Where the window was when the move started.
    pub initial_window_location: Point,
}

impl MoveSurfaceGrab {
    /// The pointer moved: `target` is where the window started plus how far the pointer went.
    /// The grabbed window follows it, unless its toplevel is gone or a move-after-resize is
    /// waiting to happen.
    pub fn motion(&self, grabbed: &mut Option<Window>, target: Point)
        requires
            match *old(grabbed) {
                Some(w) => translation_fits(w.surface_bbox, target),
                None => true,
            },
        ensures
            *final(grabbed) == followed(*old(grabbed), target),
    {
        match grabbed {
            Some(window) => {
                if window.toplevel.get_surface().is_some() {
                    let state = window.data.move_after_resize_state;
                    let started = match state {
                        MoveAfterResizeState::Current(_) | MoveAfterResizeState::Idle => true,
                        _ => false,
                    };
                    if started {
                        window.set_location(target);
                    }
                }
            },
            None => {},
        }
    }

    /// A button changed while moving; `buttons_held` tells whether some button is still
    /// down. Once none is, the window is dropped where it is into the workspace shown on the
    /// output under its geometry's corner, or else into the active workspace, and nothing is
    /// grabbed any more.
    pub fn button(&self, anodium: &mut Anodium, grabbed: Option<Window>, buttons_held: bool) -> (r:
        Option<Window>)
        requires
            !buttons_held ==> match grabbed {
                Some(w) => {
                    &&& i32::MIN <= w.location.x + w.spec_geometry().loc.x <= i32::MAX
                    &&& i32::MIN <= w.location.y + w.spec_geometry().loc.y <= i32::MAX
                    &&& w.update_fits()
                    &&& drop_target(old(anodium)@, drop_point(w)) is Some
                },
                None => false,
            },
        ensures
            buttons_held ==> r == grabbed && final(anodium)@ == old(anodium)@,
            !buttons_held ==> r is None && final(anodium)@ == dropped(
                old(anodium)@,
                drop_target(old(anodium)@, drop_point(grabbed->0))->0,
                grabbed->0,
            ),
    {
        if buttons_held {
            return grabbed;
        }
        let window = grabbed.unwrap();
        let g = window.geometry();
        let location = Point { x: window.location.x + g.loc.x, y: window.location.y + g.loc.y };
        let ghost v = anodium@;
        let j = match anodium.output_map.find_by_position(location) {
            Some(k) => {
                proof {
                    lemma_first_where(v.outputs, covers(location));
                }
                assert(v.outputs[k as int] == anodium.output_map.outputs@[k as int]@);
                let j = anodium.workspace_index(&anodium.output_map.outputs[k].active_workspace);
                j.unwrap()
            },
            None => {
                let key = anodium.active_workspace.as_ref().unwrap();
                let j = anodium.workspace_index(key);
                j.unwrap()
            },
        };
        proof {
            let key = match first_where(v.outputs, covers(location)) {
                Some(k) => v.outputs[k].active_workspace,
                None => v.active_workspace->0,
            };
            lemma_first_where(v.workspaces, named(key));
        }
        assert(v.workspaces[j as int] == anodium.workspaces@[j as int]@);
        anodium.workspaces[j].positioner.map_toplevel(window, false);
        assert(anodium@.workspaces =~= dropped(v, j as int, window).workspaces);
        None
    }
}

} // verus!
