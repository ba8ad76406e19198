//! The positioner of a workspace: a floating and a tiling layer, new windows going to the
//! one of the current mode.

use vstd::prelude::*;

use crate::desktop_layout::window::{SurfaceId, Window};
use crate::desktop_layout::window_list::{
    has_match, is_first_match, refreshed, under_candidates, WindowList,
};
use crate::framework::surface_data::ResizeEdge;
use crate::geometry::{Point, Rectangle, Size};
use crate::positioner::floating::{floating_move_start, Floating};
use crate::positioner::tiling::{
    lemma_tiled_all_twice, tiled_all, tiling_fits, tiling_move_start, Tiling,
};
use crate::positioner::{ButtonState, MouseButton};

verus! {

/// Which layer newly mapped windows go to.
#[derive(Clone, Copy, Debug, PartialEq, Eq, Structural)]
pub enum PositionerMode {
    Floating,
    Tiling,
}

/// The surfaces of `ws` from the bottom window to the top one.
pub open spec fn ids_rev(ws: Seq<Window>) -> Seq<SurfaceId> {
    Seq::new(ws.len(), |i: int| ws[ws.len() - 1 - i].toplevel.id)
}

/// The abstract state of a positioner.
pub struct UniversalView {
    pub floating_geometry: Rectangle,
    pub tiling_geometry: Rectangle,
    pub floating_pointer: Point,
    pub tiling_pointer: Point,
    pub floating: Seq<Window>,
    pub tiling: Seq<Window>,
    pub mode: PositionerMode,
}

/// The positioner of a workspace.
#[derive(Debug)]
pub struct Universal {
    pub floating: Floating,
    pub tiling: Tiling,
    pub mode: PositionerMode,
}

impl View for Universal {
    type V = UniversalView;

    open spec fn view(&self) -> UniversalView {
        UniversalView {
            floating_geometry: self.floating.geometry,
            tiling_geometry: self.tiling.geometry,
            floating_pointer: self.floating.pointer_position,
            tiling_pointer: self.tiling.pointer_position,
            floating: self.floating.windows.windows@,
            tiling: self.tiling.windows.windows@,
            mode: self.mode,
        }
    }
}

/// A positioner that was given the area `g`.
pub open spec fn with_geometry(u: UniversalView, g: Rectangle) -> UniversalView {
    UniversalView {
        floating_geometry: g,
        tiling_geometry: g,
        tiling: tiled_all(g, u.tiling),
        ..u
    }
}

/// Giving a positioner an area and then another is giving it the second one.
pub proof fn lemma_with_geometry_twice(u: UniversalView, a: Rectangle, b: Rectangle)
    ensures
        with_geometry(with_geometry(u, a), b) == with_geometry(u, b),
{
    lemma_tiled_all_twice(b, a, u.tiling);
}

/// A positioner after `w` was mapped where it is, on top of the layer of the current mode.
pub open spec fn mapped_in_place(u: UniversalView, w: Window) -> UniversalView {
    match u.mode {
        PositionerMode::Floating => UniversalView {
            floating: seq![w.spec_self_update()] + u.floating,
            ..u
        },
        PositionerMode::Tiling => UniversalView { tiling: seq![w.spec_self_update()] + u.tiling, ..u },
    }
}

/// A new positioner, as `Universal::new` makes it.
pub open spec fn fresh(pointer_position: Point, geometry: Rectangle) -> UniversalView {
    UniversalView {
        floating_geometry: geometry,
        tiling_geometry: geometry,
        floating_pointer: pointer_position,
        tiling_pointer: pointer_position,
        floating: Seq::empty(),
        tiling: Seq::empty(),
        mode: PositionerMode::Floating,
    }
}

impl Universal {
    /// A positioner with empty layers in `geometry`, in floating mode.
    pub fn new(pointer_position: Point, geometry: Rectangle) -> (u: Universal)
        ensures
            u@ == fresh(pointer_position, geometry),
            u.floating.geometry == geometry,
            u.tiling.geometry == geometry,
            u.floating.pointer_position == pointer_position,
            u.tiling.pointer_position == pointer_position,
            u.floating.windows.windows@ == Seq::<Window>::empty(),
            u.tiling.windows.windows@ == Seq::<Window>::empty(),
            u.mode == PositionerMode::Floating,
    {
        let u = Universal {
            floating: Floating::new(pointer_position, geometry),
            tiling: Tiling::new(pointer_position, geometry),
            mode: PositionerMode::Floating,
        };
        assert(u@.floating =~= Seq::<Window>::empty());
        assert(u@.tiling =~= Seq::<Window>::empty());
        u
    }

    /// Map a window in the layer of the current mode.
    pub fn map_toplevel(&mut self, window: Window, reposition: bool)
        requires
            old(self).mode == PositionerMode::Floating ==> {
                &&& !crate::positioner::floating::keeps_place(window, reposition) ==> (
                crate::positioner::floating::centering_fits(old(self).floating.geometry, window)
                    && crate::desktop_layout::window::translation_fits(
                    window.surface_bbox,
                    crate::positioner::floating::centered(old(self).floating.geometry, window),
                ))
                &&& crate::positioner::floating::floating_placed(
                    old(self).floating.geometry,
                    window,
                    reposition,
                ).update_fits()
            },
            old(self).mode == PositionerMode::Tiling ==> {
                &&& window.update_fits()
                &&& !crate::positioner::tiling::tiling_keeps_place(window, reposition)
                    ==> tiling_fits(
                    old(self).tiling.geometry,
                    seq![window.spec_self_update()] + old(self).tiling.windows.windows@,
                )
            },
        ensures
            final(self).mode == old(self).mode,
            old(self).mode == PositionerMode::Floating ==> {
                &&& final(self).floating.windows.windows@ == seq![
                    crate::positioner::floating::floating_placed(
                        old(self).floating.geometry,
                        window,
                        reposition,
                    ).spec_self_update(),
                ] + old(self).floating.windows.windows@
                &&& final(self).tiling.windows.windows@ == old(self).tiling.windows.windows@
            },
            old(self).mode == PositionerMode::Tiling ==> {
                &&& final(self).tiling.windows.windows@ == (if crate::positioner::tiling::tiling_keeps_place(
                    window,
                    reposition,
                ) {
                    seq![window.spec_self_update()] + old(self).tiling.windows.windows@
                } else {
                    tiled_all(
                        old(self).tiling.geometry,
                        seq![window.spec_self_update()] + old(self).tiling.windows.windows@,
                    )
                })
                &&& final(self).floating.windows.windows@ == old(self).floating.windows.windows@
            },
            final(self).floating.geometry == old(self).floating.geometry,
            final(self).tiling.geometry == old(self).tiling.geometry,
            final(self).floating.pointer_position == old(self).floating.pointer_position,
            final(self).tiling.pointer_position == old(self).tiling.pointer_position,
            !reposition ==> final(self)@ == mapped_in_place(old(self)@, window),
    {
        match self.mode {
            PositionerMode::Floating => self.floating.map_toplevel(window, reposition),
            PositionerMode::Tiling => self.tiling.map_toplevel(window, reposition),
        }
    }

    /// Remove the window of surface `id`, looking in the floating layer first.
    pub fn unmap_toplevel(&mut self, id: SurfaceId) -> (r: Option<Window>)
        ensures
            final(self).mode == old(self).mode,
            final(self).floating.geometry == old(self).floating.geometry,
            final(self).tiling.geometry == old(self).tiling.geometry,
            has_match(old(self).floating.windows.windows@, id) ==> {
                &&& final(self).tiling.windows.windows@ == old(self).tiling.windows.windows@
                &&& exists|k: int|
                    is_first_match(old(self).floating.windows.windows@, id, k) && r == Some(
                        old(self).floating.windows.windows@[k],
                    ) && final(self).floating.windows.windows@
                        == old(self).floating.windows.windows@.remove(k)
            },
            !has_match(old(self).floating.windows.windows@, id) ==> {
                &&& final(self).floating.windows.windows@ == old(self).floating.windows.windows@
                &&& match r {
                    Some(w) => exists|k: int|
                        is_first_match(old(self).tiling.windows.windows@, id, k) && w
                            == old(self).tiling.windows.windows@[k]
                            && final(self).tiling.windows.windows@
                            == old(self).tiling.windows.windows@.remove(k),
                    None => !has_match(old(self).tiling.windows.windows@, id)
                        && final(self).tiling.windows.windows@ == old(self).tiling.windows.windows@,
                }
            },
    {
        match self.floating.unmap_toplevel(id) {
            Some(win) => Some(win),
            None => self.tiling.unmap_toplevel(id),
        }
    }

    /// Start an interactive resize; only floating windows can be resized this way. Returns
    /// whether the window was found.
    pub fn resize_request(&mut self, id: SurfaceId, edges: ResizeEdge) -> (found: bool)
        ensures
            found == has_match(old(self).floating.windows.windows@, id),
            found ==> exists|k: int|
                is_first_match(old(self).floating.windows.windows@, id, k)
                    && final(self).floating.windows.windows@
                    == old(self).floating.windows.windows@.update(
                    k,
                    crate::positioner::floating::resizing(
                        old(self).floating.windows.windows@[k],
                        edges,
                    ),
                ),
            !found ==> final(self).floating.windows.windows@ == old(self).floating.windows.windows@,
            final(self).tiling.windows.windows@ == old(self).tiling.windows.windows@,
            final(self).mode == old(self).mode,
            final(self).floating.geometry == old(self).floating.geometry,
            final(self).tiling.geometry == old(self).tiling.geometry,
    {
        self.floating.resize_request(id, edges)
    }

    /// Maximize the window of surface `id`; only floating windows are maximized.
    pub fn maximize_request(&mut self, id: SurfaceId)
        ensures
            match old(self).floating.windows.windows@ {
                ws => if has_match(ws, id) {
                    exists|k: int|
                        is_first_match(ws, id, k) && final(self).floating.windows.windows@
                            == ws.update(k, ws[k].spec_maximize(old(self).floating.geometry))
                } else {
                    final(self).floating.windows.windows@ == ws
                },
            },
            final(self).tiling.windows.windows@ == old(self).tiling.windows.windows@,
            final(self).mode == old(self).mode,
            final(self).floating.geometry == old(self).floating.geometry,
            final(self).tiling.geometry == old(self).tiling.geometry,
    {
        self.floating.maximize_request(id);
    }

    /// Unmaximize the window of surface `id`; only floating windows are concerned.
    pub fn unmaximize_request(&mut self, id: SurfaceId)
        ensures
            match old(self).floating.windows.windows@ {
                ws => if has_match(ws, id) {
                    exists|k: int|
                        is_first_match(ws, id, k) && final(self).floating.windows.windows@
                            == ws.update(k, ws[k].spec_unmaximize())
                } else {
                    final(self).floating.windows.windows@ == ws
                },
            },
            final(self).tiling.windows.windows@ == old(self).tiling.windows.windows@,
            final(self).mode == old(self).mode,
            final(self).floating.geometry == old(self).floating.geometry,
            final(self).tiling.geometry == old(self).tiling.geometry,
    {
        self.floating.unmaximize_request(id);
    }

    /// The surfaces of all windows in drawing order: the tiled ones, then the floating ones,
    /// each from the bottom up.
    pub fn with_windows_rev(&self) -> (r: Vec<SurfaceId>)
        ensures
            r@ == ids_rev(self.tiling.windows.windows@) + ids_rev(self.floating.windows.windows@),
    {
        let mut r: Vec<SurfaceId> = Vec::new();
        let t = &self.tiling.windows.windows;
        let n = t.len();
        for i in 0..n
            invariant
                n == t.len(),
                r@ == ids_rev(t@).take(i as int),
        {
            r.push(t[n - 1 - i].toplevel.id);
            assert(r@ =~= ids_rev(t@).take(i + 1));
        }
        let f = &self.floating.windows.windows;
        let m = f.len();
        assert(r@ =~= ids_rev(t@));
        for i in 0..m
            invariant
                m == f.len(),
                r@ == ids_rev(t@) + ids_rev(f@).take(i as int),
        {
            r.push(f[m - 1 - i].toplevel.id);
            assert(r@ =~= ids_rev(t@) + ids_rev(f@).take(i + 1));
        }
        assert(ids_rev(f@).take(m as int) =~= ids_rev(f@));
        r
    }

    /// The surfaces that may lie under `point`, in the order they are tried: the floating
    /// candidates, then the tiled ones.
    pub fn surface_under(&self, point: Point) -> (r: Vec<SurfaceId>)
        ensures
            r@ == under_candidates(self.floating.windows.windows@, point) + under_candidates(
                self.tiling.windows.windows@,
                point,
            ),
    {
        let mut r = self.floating.surface_under(point);
        let mut t = self.tiling.surface_under(point);
        r.append(&mut t);
        r
    }

    /// The window of surface `id`, looked for in the floating layer first.
    pub fn find_window(&self, id: SurfaceId) -> (r: Option<&Window>)
        ensures
            has_match(self.floating.windows.windows@, id) ==> exists|k: int|
                is_first_match(self.floating.windows.windows@, id, k) && r == Some(
                    &self.floating.windows.windows@[k],
                ),
            !has_match(self.floating.windows.windows@, id) ==> match r {
                Some(w) => exists|k: int|
                    is_first_match(self.tiling.windows.windows@, id, k) && *w
                        == self.tiling.windows.windows@[k],
                None => !has_match(self.tiling.windows.windows@, id),
            },
    {
        match self.floating.find_window(id) {
            Some(w) => Some(w),
            None => self.tiling.find_window(id),
        }
    }

    /// The window of surface `id`, to change it in place, looked for in the floating layer
    /// first.
    pub fn find_window_mut(&mut self, id: SurfaceId) -> (r: Option<&mut Window>)
        ensures
            final(self).mode == old(self).mode,
            final(self).floating.geometry == old(self).floating.geometry,
            final(self).tiling.geometry == old(self).tiling.geometry,
            final(self).floating.pointer_position == old(self).floating.pointer_position,
            final(self).tiling.pointer_position == old(self).tiling.pointer_position,
            match r {
                Some(w) => if has_match(old(self).floating.windows.windows@, id) {
                    exists|k: int|
                        is_first_match(old(self).floating.windows.windows@, id, k) && *w
                            == old(self).floating.windows.windows@[k]
                            && final(self).floating.windows.windows@
                            == old(self).floating.windows.windows@.update(k, *final(w))
                            && final(self).tiling.windows.windows@ == old(self).tiling.windows.windows@
                } else {
                    exists|k: int|
                        is_first_match(old(self).tiling.windows.windows@, id, k) && *w
                            == old(self).tiling.windows.windows@[k]
                            && final(self).tiling.windows.windows@
                            == old(self).tiling.windows.windows@.update(k, *final(w))
                            && final(self).floating.windows.windows@
                            == old(self).floating.windows.windows@
                },
                None => !has_match(old(self).floating.windows.windows@, id) && !has_match(
                    old(self).tiling.windows.windows@,
                    id,
                ) && final(self).floating.windows.windows@ == old(self).floating.windows.windows@
                    && final(self).tiling.windows.windows@ == old(self).tiling.windows.windows@,
            },
    {
        match self.floating.windows.position(id) {
            Some(k) => Some(&mut self.floating.windows.windows[k]),
            None => self.tiling.windows.find_mut(id),
        }
    }

    pub fn on_pointer_move(&mut self, pos: Point)
        ensures
            final(self).floating.pointer_position == pos,
            final(self).tiling.pointer_position == pos,
            final(self).floating.windows.windows@ == old(self).floating.windows.windows@,
            final(self).tiling.windows.windows@ == old(self).tiling.windows.windows@,
            final(self).mode == old(self).mode,
            final(self).floating.geometry == old(self).floating.geometry,
            final(self).tiling.geometry == old(self).tiling.geometry,
    {
        self.floating.on_pointer_move(pos);
        self.tiling.on_pointer_move(pos);
    }

    /// Pass a button event to both layers.
    pub fn on_pointer_button(
        &mut self,
        button: MouseButton,
        state: ButtonState,
        under: Option<SurfaceId>,
    )
        ensures
            final(self).mode == old(self).mode,
            final(self).floating.geometry == old(self).floating.geometry,
            final(self).tiling.geometry == old(self).tiling.geometry,
            final(self).floating.windows.windows@ == crate::positioner::floating::floating_clicked(
                old(self).floating.windows.windows@,
                button,
                state,
                under,
            ),
            final(self).tiling.windows.windows@ == crate::positioner::tiling::tiling_clicked(
                old(self).tiling.windows.windows@,
                button,
                state,
                under,
            ),
    {
        self.floating.on_pointer_button(button, state, under);
        self.tiling.on_pointer_button(button, state, under);
    }

    /// Start moving the window of surface `id`: the floating layer's move when it holds that
    /// window, the tiling layer's otherwise; `None`, with nothing changed, when neither does.
    pub fn move_request<F>(
        &mut self,
        id: SurfaceId,
        acked_size: Option<Size>,
        place_x: F,
        pointer: Point,
    ) -> (r: Option<Point>)
        where
            F: FnOnce(Point, Size, Size) -> i32,
        requires
            forall|l: Point, a: Size, b: Size| call_requires(place_x, (l, a, b)),
        ensures
            final(self).mode == old(self).mode,
            final(self).floating.geometry == old(self).floating.geometry,
            final(self).tiling.geometry == old(self).tiling.geometry,
            final(self).floating.pointer_position == old(self).floating.pointer_position,
            final(self).tiling.pointer_position == old(self).tiling.pointer_position,
            has_match(old(self).floating.windows.windows@, id) ==> {
                &&& final(self).tiling.windows.windows@ == old(self).tiling.windows.windows@
                &&& r matches Some(p) && exists|k: int|
                    #[trigger] is_first_match(old(self).floating.windows.windows@, id, k)
                        && final(self).floating.windows.windows@
                        == old(self).floating.windows.windows@.update(
                        k,
                        final(self).floating.windows.windows@[k],
                    ) && floating_move_start(
                        old(self).floating.windows.windows@[k],
                        acked_size,
                        place_x,
                        p,
                        final(self).floating.windows.windows@[k],
                    )
            },
            !has_match(old(self).floating.windows.windows@, id) ==> {
                &&& final(self).floating.windows.windows@ == old(self).floating.windows.windows@
                &&& match r {
                    Some(p) => exists|k: int|
                        #[trigger] is_first_match(old(self).tiling.windows.windows@, id, k)
                            && final(self).tiling.windows.windows@
                            == old(self).tiling.windows.windows@.update(
                            k,
                            final(self).tiling.windows.windows@[k],
                        ) && tiling_move_start(
                            old(self).tiling.windows.windows@[k],
                            acked_size,
                            place_x,
                            pointer,
                            p,
                            final(self).tiling.windows.windows@[k],
                        ),
                    None => !has_match(old(self).tiling.windows.windows@, id)
                        && final(self).tiling.windows.windows@ == old(self).tiling.windows.windows@,
                }
            },
    {
        match self.floating.windows.position(id) {
            Some(_) => self.floating.move_request(id, acked_size, place_x),
            None => self.tiling.move_request(id, acked_size, place_x, pointer),
        }
    }

    /// Give both layers a new area; the tiled windows are laid out in it.
    pub fn set_geometry(&mut self, geometry: Rectangle)
        requires
            tiling_fits(geometry, old(self).tiling.windows.windows@),
        ensures
            final(self)@ == with_geometry(old(self)@, geometry),
            final(self).floating.geometry == geometry,
            final(self).tiling.geometry == geometry,
            final(self).floating.windows.windows@ == old(self).floating.windows.windows@,
            final(self).tiling.windows.windows@ == tiled_all(
                geometry,
                old(self).tiling.windows.windows@,
            ),
            final(self).mode == old(self).mode,
    {
        self.floating.set_geometry(geometry);
        self.tiling.set_geometry(geometry);
    }

    /// The area of the positioner.
    pub fn geometry(&self) -> (g: Rectangle)
        ensures
            g == self.floating.geometry,
    {
        self.floating.geometry()
    }

    /// Drop the windows that finished exiting in both layers and lay the tiled ones out again.
    pub fn update(&mut self)
        requires
            forall|i: int|
                0 <= i < old(self).floating.windows.windows.len() ==> (
                #[trigger] old(self).floating.windows.windows@[i]).update_fits(),
            forall|i: int|
                0 <= i < old(self).tiling.windows.windows.len() ==> (
                #[trigger] old(self).tiling.windows.windows@[i]).update_fits(),
            tiling_fits(old(self).tiling.geometry, refreshed(old(self).tiling.windows.windows@)),
        ensures
            final(self).floating.windows.windows@ == refreshed(old(self).floating.windows.windows@),
            final(self).tiling.windows.windows@ == tiled_all(
                old(self).tiling.geometry,
                refreshed(old(self).tiling.windows.windows@),
            ),
            final(self).mode == old(self).mode,
            final(self).floating.geometry == old(self).floating.geometry,
            final(self).tiling.geometry == old(self).tiling.geometry,
    {
        self.floating.update();
        self.tiling.update();
    }
}

} // verus!
