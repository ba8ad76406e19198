//! The floating positioner: windows keep the place they are given, new ones are centered.

use vstd::prelude::*;

use crate::desktop_layout::window::{translation_fits, SurfaceId, Window, WindowKind};
use crate::desktop_layout::window_list::{
    has_match, is_first_match, raised, refreshed, under_candidates, window_is, WindowList,
};
use crate::framework::surface_data::{
    MoveAfterResizeData, MoveAfterResizeState, ResizeData, ResizeEdge, ResizeState,
};
use crate::geometry::{half, tdiv, Point, Rectangle, Size};
use crate::positioner::{
    maximized_xdg, size_before_maximize, unmaximized_for_move, ButtonState, MouseButton,
};

verus! {

/// Whether a newly mapped window keeps its place: a maximized or fullscreen xdg toplevel and
/// every X11 window do; otherwise the caller's choice holds.
pub open spec fn keeps_place(w: Window, reposition: bool) -> bool {
    if w.toplevel.kind == WindowKind::Xdg {
        !reposition || (w.toplevel.alive && (w.toplevel.maximized || w.toplevel.fullscreen))
    } else {
        true
    }
}

/// The location that centers the geometry of `w` in `area`.
pub open spec fn centered(area: Rectangle, w: Window) -> Point {
    let g = w.spec_geometry();
    Point {
        x: (area.loc.x + tdiv(area.size.w - g.size.w, 2)) as i32,
        y: (area.loc.y + tdiv(area.size.h - g.size.h, 2)) as i32,
    }
}

/// Every intermediate value of `centered(area, w)` is an `i32`.
pub open spec fn centering_fits(area: Rectangle, w: Window) -> bool {
    let g = w.spec_geometry();
    &&& i32::MIN <= area.size.w - g.size.w <= i32::MAX
    &&& i32::MIN <= area.size.h - g.size.h <= i32::MAX
    &&& i32::MIN <= area.loc.x + tdiv(area.size.w - g.size.w, 2) <= i32::MAX
    &&& i32::MIN <= area.loc.y + tdiv(area.size.h - g.size.h, 2) <= i32::MAX
}

/// `w` moved to `p`, with its bounding box updated.
pub open spec fn moved(w: Window, p: Point) -> Window {
    (Window { location: p, ..w }).spec_self_update()
}

/// The window as the floating positioner in `area` maps it.
pub open spec fn floating_placed(area: Rectangle, w: Window, reposition: bool) -> Window {
    if keeps_place(w, reposition) {
        w
    } else {
        moved(w, centered(area, w))
    }
}

/// An xdg toplevel that is neither maximized nor fullscreen, mapped with `reposition`, is
/// centered in the positioner's area: its geometry, placed at the new location, lies inside the
/// area, and the gaps it leaves on the left and on the right (above and below) differ by at
/// most one pixel, the extra pixel going right (down).
pub proof fn law_floating_map_centers_in_the_area(area: Rectangle, w: Window)
    requires
        w.toplevel.kind == WindowKind::Xdg,
        !(w.toplevel.alive && (w.toplevel.maximized || w.toplevel.fullscreen)),
        0 <= w.spec_geometry().size.w <= area.size.w,
        0 <= w.spec_geometry().size.h <= area.size.h,
        area.loc.x + area.size.w <= i32::MAX,
        area.loc.y + area.size.h <= i32::MAX,
    ensures
        ({
            let p = floating_placed(area, w, true).location;
            let g = w.spec_geometry().size;
            let left = p.x - area.loc.x;
            let right = area.loc.x + area.size.w - (p.x + g.w);
            let top = p.y - area.loc.y;
            let bottom = area.loc.y + area.size.h - (p.y + g.h);
            &&& 0 <= left <= right <= left + 1
            &&& 0 <= top <= bottom <= top + 1
        }),
{
}

/// A window that keeps its place when the floating positioner maps it is left exactly as it
/// was: every X11 window, a live maximized or fullscreen xdg toplevel, and any window mapped
/// without `reposition`.
pub proof fn law_floating_map_keeps_place(area: Rectangle, w: Window, reposition: bool)
    requires
        w.toplevel.kind == WindowKind::X11 || !reposition || (w.toplevel.alive && (
        w.toplevel.maximized || w.toplevel.fullscreen)),
    ensures
        floating_placed(area, w, reposition) == w,
{
}

/// The floating windows after a button event: a left press raises the window of `under`.
pub open spec fn floating_clicked(
    ws: Seq<Window>,
    button: MouseButton,
    state: ButtonState,
    under: Option<SurfaceId>,
) -> Seq<Window> {
    match (button, state, under) {
        (MouseButton::Left, ButtonState::Pressed, Some(id)) => raised(ws, id),
        _ => ws,
    }
}

/// Mapping a live window in the floating layer and then unmapping its surface gives back the
/// window as it was placed and leaves the other windows as they were.
pub proof fn law_map_then_unmap_restores(area: Rectangle, ws: Seq<Window>, w: Window, reposition: bool)
    requires
        w.toplevel.alive,
    ensures
        ({
            let placed = floating_placed(area, w, reposition).spec_self_update();
            let l = seq![placed] + ws;
            &&& is_first_match(l, w.toplevel.id, 0)
            &&& forall|k: int| is_first_match(l, w.toplevel.id, k) ==> k == 0
            &&& l.remove(0) == ws
        }),
{
    let p = floating_placed(area, w, reposition);
    assert(p.toplevel == w.toplevel);
    crate::desktop_layout::window_list::law_insert_then_remove(ws, p);
    let l = seq![p.spec_self_update()] + ws;
    assert forall|k: int| is_first_match(l, w.toplevel.id, k) implies k == 0 by {
        if k > 0 {
            assert(!window_is(l[0], w.toplevel.id));
        }
    }
}

/// The floating positioner.
#[derive(Debug)]
pub struct Floating {
    pub geometry: Rectangle,
    pub pointer_position: Point,
    pub windows: WindowList,
}

/// A floating move of `w` starts from `r` and leaves the window as `after`. A maximized xdg
/// toplevel leaves the maximized state; when both its acknowledged size and the size it had
/// before are known, it is placed at the `x` that `place_x` gives for its location and the two
/// sizes, and waits for the client to acknowledge the new size before it moves there. Any other
/// window starts from where it is.
pub open spec fn floating_move_start<F: FnOnce(Point, Size, Size) -> i32>(
    w: Window,
    acked_size: Option<Size>,
    place_x: F,
    r: Point,
    after: Window,
) -> bool {
    if maximized_xdg(w) {
        match (acked_size, size_before_maximize(w.data.move_after_resize_state)) {
            (Some(i), Some(t)) => {
                &&& call_ensures(place_x, (w.location, i, t), r.x)
                &&& r.y == w.location.y
                &&& after == unmaximized_for_move(
                    w,
                    MoveAfterResizeState::WaitingForAck(
                        MoveAfterResizeData {
                            initial_window_location: w.location,
                            initial_size: i,
                            target_window_location: r,
                            target_size: t,
                        },
                    ),
                )
            },
            _ => r == w.location && after == unmaximized_for_move(w, MoveAfterResizeState::Idle),
        }
    } else {
        r == w.location && after == w
    }
}

/// Start a floating move of `window` (see `floating_move_start`). `acked_size` is the size of
/// the toplevel's acknowledged state; `place_x` keeps the pointer over the same fraction of the
/// window's width when the width changes.
pub fn start_floating_move<F>(window: &mut Window, acked_size: Option<Size>, place_x: F) -> (r: Point)
    where
        F: FnOnce(Point, Size, Size) -> i32,
    requires
        forall|l: Point, a: Size, b: Size| call_requires(place_x, (l, a, b)),
    ensures
        floating_move_start(*old(window), acked_size, place_x, r, *final(window)),
{
    let loc = window.location;
    if window.toplevel.kind == WindowKind::Xdg && window.toplevel.alive
        && window.toplevel.maximized {
        let state = window.data.move_after_resize_state;
        window.data.move_after_resize_state = MoveAfterResizeState::Idle;
        let new_size = match state {
            MoveAfterResizeState::Current(d) => Some(d.initial_size),
            _ => None,
        };
        window.toplevel.unmaximize(new_size);
        match (acked_size, new_size) {
            (Some(i), Some(t)) => {
                let x = place_x(loc, i, t);
                let target = Point { x, y: loc.y };
                window.data.move_after_resize_state = MoveAfterResizeState::WaitingForAck(
                    MoveAfterResizeData {
                        initial_window_location: loc,
                        initial_size: i,
                        target_window_location: target,
                        target_size: t,
                    },
                );
                target
            },
            _ => loc,
        }
    } else {
        loc
    }
}

impl Floating {
    /// Start moving the window of surface `id`, giving where the move starts; `None`, with
    /// nothing changed, when the positioner has no window of that surface.
    pub fn move_request<F>(&mut self, id: SurfaceId, acked_size: Option<Size>, place_x: F) -> (r:
        Option<Point>)
        where
            F: FnOnce(Point, Size, Size) -> i32,
        requires
            forall|l: Point, a: Size, b: Size| call_requires(place_x, (l, a, b)),
        ensures
            final(self).geometry == old(self).geometry,
            final(self).pointer_position == old(self).pointer_position,
            match r {
                Some(p) => exists|k: int|
                    #[trigger] is_first_match(old(self).windows.windows@, id, k)
                        && final(self).windows.windows@ == old(self).windows.windows@.update(
                        k,
                        final(self).windows.windows@[k],
                    ) && floating_move_start(
                        old(self).windows.windows@[k],
                        acked_size,
                        place_x,
                        p,
                        final(self).windows.windows@[k],
                    ),
                None => !has_match(old(self).windows.windows@, id) && final(self).windows.windows@
                    == old(self).windows.windows@,
            },
    {
        match self.windows.find_mut(id) {
            Some(w) => {
                let p = start_floating_move(w, acked_size, place_x);
                Some(p)
            },
            None => None,
        }
    }

    pub fn new(pointer_position: Point, geometry: Rectangle) -> (f: Floating)
        ensures
            f.geometry == geometry,
            f.pointer_position == pointer_position,
            f.windows.windows@ == Seq::<Window>::empty(),
    {
        Floating { geometry, pointer_position, windows: WindowList::new() }
    }

    /// Map a window on top; unless it keeps its place it is centered in the positioner.
    pub fn map_toplevel(&mut self, window: Window, reposition: bool)
        requires
            !keeps_place(window, reposition) ==> centering_fits(old(self).geometry, window)
                && translation_fits(window.surface_bbox, centered(old(self).geometry, window)),
            floating_placed(old(self).geometry, window, reposition).update_fits(),
        ensures
            final(self).windows.windows@ == seq![
                floating_placed(old(self).geometry, window, reposition).spec_self_update(),
            ] + old(self).windows.windows@,
            final(self).geometry == old(self).geometry,
            final(self).pointer_position == old(self).pointer_position,
    {
        let mut window = window;
        let mut reposition = reposition;
        match window.toplevel.kind {
            WindowKind::Xdg => {
                if window.toplevel.alive && (window.toplevel.maximized
                    || window.toplevel.fullscreen) {
                    reposition = false;
                }
            },
            WindowKind::X11 => {
                reposition = false;
            },
        }
        if reposition {
            let geometry = window.geometry();
            let x = self.geometry.loc.x + half(self.geometry.size.w - geometry.size.w);
            let y = self.geometry.loc.y + half(self.geometry.size.h - geometry.size.h);
            window.set_location(Point { x, y });
        }
        self.windows.insert(window);
    }

    /// Remove the window of surface `id`.
    pub fn unmap_toplevel(&mut self, id: SurfaceId) -> (r: Option<Window>)
        ensures
            match r {
                Some(w) => exists|k: int|
                    is_first_match(old(self).windows.windows@, id, k) && w
                        == old(self).windows.windows@[k] && final(self).windows.windows@
                        == old(self).windows.windows@.remove(k),
                None => !has_match(old(self).windows.windows@, id) && final(self).windows.windows@
                    == old(self).windows.windows@,
            },
            final(self).geometry == old(self).geometry,
            final(self).pointer_position == old(self).pointer_position,
    {
        self.windows.remove(id)
    }

    /// Start an interactive resize of the window of surface `id` by `edges`: its surface data
    /// records where the resize started. Returns whether the window was found.
    pub fn resize_request(&mut self, id: SurfaceId, edges: ResizeEdge) -> (found: bool)
        ensures
            found == has_match(old(self).windows.windows@, id),
            found ==> exists|k: int|
                is_first_match(old(self).windows.windows@, id, k) && final(self).windows.windows@
                    == old(self).windows.windows@.update(
                    k,
                    resizing(old(self).windows.windows@[k], edges),
                ),
            !found ==> final(self).windows.windows@ == old(self).windows.windows@,
            final(self).geometry == old(self).geometry,
            final(self).pointer_position == old(self).pointer_position,
    {
        match self.windows.find_mut(id) {
            Some(window) => {
                let initial_window_location = window.location();
                let initial_window_size = window.geometry().size;
                window.data.resize_state =
                    ResizeState::Resizing(
                    ResizeData { edges, initial_window_location, initial_window_size },
                );
                true
            },
            None => false,
        }
    }

    /// Maximize the window of surface `id` to the positioner's area.
    pub fn maximize_request(&mut self, id: SurfaceId)
        ensures
            match old(self).windows.windows@ {
                ws => if has_match(ws, id) {
                    exists|k: int|
                        is_first_match(ws, id, k) && final(self).windows.windows@ == ws.update(
                            k,
                            ws[k].spec_maximize(old(self).geometry),
                        )
                } else {
                    final(self).windows.windows@ == ws
                },
            },
            final(self).geometry == old(self).geometry,
            final(self).pointer_position == old(self).pointer_position,
    {
        let geometry = self.geometry;
        match self.windows.find_mut(id) {
            Some(window) => window.maximize(geometry),
            None => {},
        }
    }

    /// Take the window of surface `id` out of the maximized state.
    pub fn unmaximize_request(&mut self, id: SurfaceId)
        ensures
            match old(self).windows.windows@ {
                ws => if has_match(ws, id) {
                    exists|k: int|
                        is_first_match(ws, id, k) && final(self).windows.windows@ == ws.update(
                            k,
                            ws[k].spec_unmaximize(),
                        )
                } else {
                    final(self).windows.windows@ == ws
                },
            },
            final(self).geometry == old(self).geometry,
            final(self).pointer_position == old(self).pointer_position,
    {
        match self.windows.find_mut(id) {
            Some(window) => window.unmaximize(),
            None => {},
        }
    }

    pub fn on_pointer_move(&mut self, pos: Point)
        ensures
            final(self).pointer_position == pos,
            final(self).geometry == old(self).geometry,
            final(self).windows.windows@ == old(self).windows.windows@,
    {
        self.pointer_position = pos;
    }

    /// A left press raises the window under the pointer, `under` being the surface the
    /// caller's hit test found there.
    pub fn on_pointer_button(
        &mut self,
        button: MouseButton,
        state: ButtonState,
        under: Option<SurfaceId>,
    )
        ensures
            final(self).geometry == old(self).geometry,
            final(self).pointer_position == old(self).pointer_position,
            final(self).windows.windows@ == floating_clicked(
                old(self).windows.windows@,
                button,
                state,
                under,
            ),
    {
        match (button, state, under) {
            (MouseButton::Left, ButtonState::Pressed, Some(id)) => {
                self.windows.bring_surface_to_top(id);
            },
            _ => {},
        }
    }

    pub fn set_geometry(&mut self, geometry: Rectangle)
        ensures
            final(self).geometry == geometry,
            final(self).pointer_position == old(self).pointer_position,
            final(self).windows.windows@ == old(self).windows.windows@,
    {
        self.geometry = geometry;
    }

    pub fn geometry(&self) -> (g: Rectangle)
        ensures
            g == self.geometry,
    {
        self.geometry
    }

    /// The surfaces that may lie under `point`, topmost first.
    pub fn surface_under(&self, point: Point) -> (r: Vec<SurfaceId>)
        ensures
            r@ == under_candidates(self.windows.windows@, point),
    {
        self.windows.surface_under(point)
    }

    pub fn find_window(&self, id: SurfaceId) -> (r: Option<&Window>)
        ensures
            match r {
                Some(w) => exists|k: int|
                    is_first_match(self.windows.windows@, id, k) && *w == self.windows.windows@[k],
                None => !has_match(self.windows.windows@, id),
            },
    {
        self.windows.find(id)
    }

    /// Drop the windows that finished exiting and update the others.
    pub fn update(&mut self)
        requires
            forall|i: int|
                0 <= i < old(self).windows.windows.len() ==> (
                #[trigger] old(self).windows.windows@[i]).update_fits(),
        ensures
            final(self).windows.windows@ == refreshed(old(self).windows.windows@),
            final(self).geometry == old(self).geometry,
            final(self).pointer_position == old(self).pointer_position,
    {
        self.windows.refresh();
    }
}

/// `w` with an interactive resize by `edges` started from its current place and size.
pub open spec fn resizing(w: Window, edges: ResizeEdge) -> Window {
    Window {
        data: crate::framework::surface_data::SurfaceData {
            resize_state: ResizeState::Resizing(
                ResizeData {
                    edges,
                    initial_window_location: w.location,
                    initial_window_size: w.spec_geometry().size,
                },
            ),
            ..w.data
        },
        ..w
    }
}

} // verus!
