//! The tiling positioner: the oldest window takes the left column, the others share the
//! right one.

use vstd::prelude::*;

use crate::desktop_layout::window::{translation_fits, SurfaceId, Window, WindowKind};
use crate::desktop_layout::window_list::{
    deactivated, first_match, has_match, lemma_first_match, is_first_match, refreshed, under_candidates, window_is,
    with_activation, WindowList,
};
use crate::geometry::{div_trunc, tdiv, Point, Rectangle, Size};
use crate::positioner::floating::moved;
use crate::framework::surface_data::MoveAfterResizeState;
use crate::positioner::{
    maximized_xdg, size_before_maximize, unmaximized_for_move, ButtonState, MouseButton,
};

verus! {

pub open spec fn in_i32(v: int) -> bool {
    i32::MIN <= v <= i32::MAX
}

/// The window at position `r` counted from the bottom (oldest) of the list.
pub open spec fn rev_at(ws: Seq<Window>, r: int) -> Window {
    ws[ws.len() - 1 - r]
}

/// The number of columns: one for a single window, two otherwise.
pub open spec fn columns(n: int) -> int {
    if n < 2 {
        n
    } else {
        2
    }
}

/// The width of a column.
pub open spec fn tile_w(g: Rectangle, n: int) -> int {
    tdiv(g.size.w as int, columns(n))
}

/// The height of the tile of the window at position `r` from the bottom: the full height for
/// the oldest one, a share of it for the others.
pub open spec fn tile_h(g: Rectangle, n: int, r: int) -> int {
    if r == 0 {
        g.size.h as int
    } else {
        tdiv(g.size.h as int, n - 1)
    }
}

/// The left edge of the tile of the window at position `r`: the right column starts one
/// column width in, when the oldest window is not exiting.
pub open spec fn tile_x(g: Rectangle, ws: Seq<Window>, r: int) -> int {
    if r >= 1 && !rev_at(ws, 0).exiting {
        g.loc.x + tile_w(g, ws.len() as int)
    } else {
        g.loc.x as int
    }
}

/// The top edge of the tile of the window at position `r`: the tiles of the right column are
/// stacked, skipping the exiting windows.
pub open spec fn tile_y(g: Rectangle, ws: Seq<Window>, r: int) -> int
    decreases r,
{
    if r <= 1 {
        g.loc.y as int
    } else {
        tile_y(g, ws, r - 1) + (if !rev_at(ws, r - 1).exiting {
            tile_h(g, ws.len() as int, r - 1)
        } else {
            0
        })
    }
}

/// The size the window at position `r` is asked to take: its tile less a margin.
pub open spec fn tile_size(g: Rectangle, n: int, r: int) -> Size {
    Size { w: (tile_w(g, n) - 20) as i32, h: (tile_h(g, n, r) - 20) as i32 }
}

/// Where the window at position `r` is moved: its tile, with a margin, less its geometry's
/// offset (its horizontal offset, on both axes).
pub open spec fn tile_location(g: Rectangle, ws: Seq<Window>, r: int) -> Point {
    let geo = rev_at(ws, r).spec_geometry();
    Point {
        x: (tile_x(g, ws, r) - geo.loc.x + 10) as i32,
        y: (tile_y(g, ws, r) - geo.loc.x + 10) as i32,
    }
}

/// The window at position `r` after tiling; an exiting window is left alone.
pub open spec fn tiled(g: Rectangle, ws: Seq<Window>, r: int) -> Window {
    let w = rev_at(ws, r);
    if w.exiting {
        w
    } else {
        moved(
            Window { toplevel: w.toplevel.spec_resize(tile_size(g, ws.len() as int, r)), ..w },
            tile_location(g, ws, r),
        )
    }
}

/// The windows after tiling them in `g`.
pub open spec fn tiled_all(g: Rectangle, ws: Seq<Window>) -> Seq<Window> {
    Seq::new(ws.len(), |i: int| tiled(g, ws, ws.len() - 1 - i))
}

/// Every value the tiling of `ws` in `g` computes is an `i32`.
pub open spec fn tiling_fits(g: Rectangle, ws: Seq<Window>) -> bool {
    &&& ws.len() <= i32::MAX
    &&& forall|r: int|
        0 <= r < ws.len() && !(#[trigger] rev_at(ws, r)).exiting ==> {
            let geo = rev_at(ws, r).spec_geometry();
            &&& in_i32(tile_w(g, ws.len() as int) - 20)
            &&& in_i32(tile_h(g, ws.len() as int, r) - 20)
            &&& in_i32(tile_x(g, ws, r) - geo.loc.x)
            &&& in_i32(tile_x(g, ws, r) - geo.loc.x + 10)
            &&& in_i32(tile_y(g, ws, r) - geo.loc.x)
            &&& in_i32(tile_y(g, ws, r) - geo.loc.x + 10)
            &&& (r == 0 ==> in_i32(g.loc.x + tile_w(g, ws.len() as int)))
            &&& (r >= 1 ==> in_i32(tile_y(g, ws, r) + tile_h(g, ws.len() as int, r)))
            &&& translation_fits(rev_at(ws, r).surface_bbox, tile_location(g, ws, r))
        }
}

/// Whether a newly mapped window is left where it is: a maximized or fullscreen xdg toplevel.
pub open spec fn tiling_keeps_place(w: Window, reposition: bool) -> bool {
    !reposition || (w.toplevel.kind == WindowKind::Xdg && w.toplevel.alive && (
    w.toplevel.maximized || w.toplevel.fullscreen))
}

/// The tiled windows `ws` in `g` after `w` was mapped: on top, updated, and all of them laid
/// out again unless the window keeps its place.
pub open spec fn tiling_mapped(g: Rectangle, ws: Seq<Window>, w: Window, reposition: bool) -> Seq<
    Window,
> {
    if tiling_keeps_place(w, reposition) {
        seq![w.spec_self_update()] + ws
    } else {
        tiled_all(g, seq![w.spec_self_update()] + ws)
    }
}

/// Mapping a live maximized or fullscreen xdg toplevel in the tiling positioner, whatever
/// `reposition` says, puts it on top as it is (only updated) and leaves the other windows as
/// they were: nothing is laid out again.
pub proof fn law_tiling_map_keeps_maximized_in_place(
    g: Rectangle,
    ws: Seq<Window>,
    w: Window,
    reposition: bool,
)
    requires
        w.toplevel.kind == WindowKind::Xdg,
        w.toplevel.alive,
        w.toplevel.maximized || w.toplevel.fullscreen,
    ensures
        tiling_mapped(g, ws, w, reposition).len() == ws.len() + 1,
        tiling_mapped(g, ws, w, reposition)[0] == w.spec_self_update(),
        forall|i: int| 0 <= i < ws.len() ==> #[trigger] tiling_mapped(g, ws, w, reposition)[i + 1] == ws[i],
{
}

/// The tiled windows after a button event: a left press deactivates them all and activates
/// the one of `under`.
pub open spec fn tiling_clicked(
    ws: Seq<Window>,
    button: MouseButton,
    state: ButtonState,
    under: Option<SurfaceId>,
) -> Seq<Window> {
    match (button, state) {
        (MouseButton::Left, ButtonState::Pressed) => {
            let ds = deactivated(ws);
            match under {
                Some(id) => if has_match(ds, id) {
                    ds.update(first_match(ds, id), with_activation(ds[first_match(ds, id)], true))
                } else {
                    ds
                },
                None => ds,
            }
        },
        _ => ws,
    }
}

/// Tiling keeps, at every position, whether the window is exiting and where its geometry
/// starts.
pub proof fn lemma_tiled_keeps_shape(g: Rectangle, ws: Seq<Window>, r: int)
    requires
        0 <= r < ws.len(),
    ensures
        rev_at(tiled_all(g, ws), r) == tiled(g, ws, r),
        tiled(g, ws, r).exiting == rev_at(ws, r).exiting,
        tiled(g, ws, r).spec_geometry().loc == rev_at(ws, r).spec_geometry().loc,
        tiled(g, ws, r).surface_bbox == rev_at(ws, r).surface_bbox,
{
}

/// The top edges of the tiles depend only on which windows are exiting.
pub proof fn lemma_tile_y_same(g: Rectangle, a: Seq<Window>, b: Seq<Window>, r: int)
    requires
        a.len() == b.len(),
        0 <= r <= a.len(),
        forall|k: int| 0 <= k < a.len() ==> (#[trigger] rev_at(a, k)).exiting == rev_at(b, k).exiting,
    ensures
        tile_y(g, a, r) == tile_y(g, b, r),
    decreases r,
{
    if r > 1 {
        lemma_tile_y_same(g, a, b, r - 1);
        assert(rev_at(a, r - 1).exiting == rev_at(b, r - 1).exiting);
    }
}

/// Tiling again forgets the earlier tiling: tiling tiled windows in `g1` is tiling the
/// windows in `g1`.
pub proof fn lemma_tiled_all_twice(g1: Rectangle, g2: Rectangle, ws: Seq<Window>)
    ensures
        tiled_all(g1, tiled_all(g2, ws)) == tiled_all(g1, ws),
{
    let t = tiled_all(g2, ws);
    let n = ws.len() as int;
    assert forall|k: int| 0 <= k < n implies (#[trigger] rev_at(t, k)).exiting == rev_at(ws, k).exiting by {
        lemma_tiled_keeps_shape(g2, ws, k);
    }
    assert forall|i: int| 0 <= i < n implies #[trigger] tiled_all(g1, t)[i] == tiled_all(g1, ws)[i] by {
        let r = n - 1 - i;
        lemma_tiled_keeps_shape(g2, ws, r);
        lemma_tile_y_same(g1, t, ws, r);
        if r >= 1 {
            assert(rev_at(t, 0).exiting == rev_at(ws, 0).exiting);
        }
        assert(tile_x(g1, t, r) == tile_x(g1, ws, r));
        assert(tile_location(g1, t, r) == tile_location(g1, ws, r));
        assert(tiled(g1, t, r) == tiled(g1, ws, r));
    }
    assert(tiled_all(g1, t) =~= tiled_all(g1, ws));
}

/// Whether tiling computes in range does not depend on an earlier tiling of the windows.
pub proof fn lemma_tiling_fits_retiled(g: Rectangle, g2: Rectangle, ws: Seq<Window>)
    ensures
        tiling_fits(g, tiled_all(g2, ws)) == tiling_fits(g, ws),
{
    let t = tiled_all(g2, ws);
    let n = ws.len() as int;
    assert forall|k: int| 0 <= k < n implies (#[trigger] rev_at(t, k)).exiting == rev_at(ws, k).exiting by {
        lemma_tiled_keeps_shape(g2, ws, k);
    }
    assert forall|r: int| 0 <= r < n implies {
        &&& tile_x(g, t, r) == tile_x(g, ws, r)
        &&& tile_y(g, t, r) == tile_y(g, ws, r)
        &&& tile_location(g, t, r) == tile_location(g, ws, r)
        &&& (#[trigger] rev_at(t, r)).surface_bbox == rev_at(ws, r).surface_bbox
        &&& rev_at(t, r).spec_geometry().loc == rev_at(ws, r).spec_geometry().loc
    } by {
        lemma_tiled_keeps_shape(g2, ws, r);
        lemma_tile_y_same(g, t, ws, r);
        if r >= 1 {
            assert(rev_at(t, 0).exiting == rev_at(ws, 0).exiting);
        }
    }
    if tiling_fits(g, ws) {
        assert forall|r: int| 0 <= r < t.len() && !(#[trigger] rev_at(t, r)).exiting implies {
            let geo = rev_at(t, r).spec_geometry();
            &&& in_i32(tile_w(g, t.len() as int) - 20)
            &&& in_i32(tile_h(g, t.len() as int, r) - 20)
            &&& in_i32(tile_x(g, t, r) - geo.loc.x)
            &&& in_i32(tile_x(g, t, r) - geo.loc.x + 10)
            &&& in_i32(tile_y(g, t, r) - geo.loc.x)
            &&& in_i32(tile_y(g, t, r) - geo.loc.x + 10)
            &&& (r == 0 ==> in_i32(g.loc.x + tile_w(g, t.len() as int)))
            &&& (r >= 1 ==> in_i32(tile_y(g, t, r) + tile_h(g, t.len() as int, r)))
            &&& translation_fits(rev_at(t, r).surface_bbox, tile_location(g, t, r))
        } by {
            assert(!rev_at(ws, r).exiting);
        }
    }
    if tiling_fits(g, t) {
        assert forall|r: int| 0 <= r < ws.len() && !(#[trigger] rev_at(ws, r)).exiting implies {
            let geo = rev_at(ws, r).spec_geometry();
            &&& in_i32(tile_w(g, ws.len() as int) - 20)
            &&& in_i32(tile_h(g, ws.len() as int, r) - 20)
            &&& in_i32(tile_x(g, ws, r) - geo.loc.x)
            &&& in_i32(tile_x(g, ws, r) - geo.loc.x + 10)
            &&& in_i32(tile_y(g, ws, r) - geo.loc.x)
            &&& in_i32(tile_y(g, ws, r) - geo.loc.x + 10)
            &&& (r == 0 ==> in_i32(g.loc.x + tile_w(g, ws.len() as int)))
            &&& (r >= 1 ==> in_i32(tile_y(g, ws, r) + tile_h(g, ws.len() as int, r)))
            &&& translation_fits(rev_at(ws, r).surface_bbox, tile_location(g, ws, r))
        } by {
            assert(!rev_at(t, r).exiting);
        }
    }
}

/// No window of `ws` is exiting.
pub open spec fn none_exiting(ws: Seq<Window>) -> bool {
    forall|i: int| 0 <= i < ws.len() ==> !(#[trigger] ws[i]).exiting
}

/// Without exiting windows, the tiles of the right column follow each other at equal steps.
pub proof fn lemma_tile_y_steps(g: Rectangle, ws: Seq<Window>, r: int)
    requires
        1 <= r <= ws.len(),
        none_exiting(ws),
    ensures
        tile_y(g, ws, r) == g.loc.y + (r - 1) * tdiv(g.size.h as int, ws.len() - 1),
    decreases r,
{
    if r > 1 {
        lemma_tile_y_steps(g, ws, r - 1);
        let w = rev_at(ws, r - 1);
        assert(w == ws[ws.len() - 1 - (r - 1)]);
        assert(!w.exiting);
        assert((r - 2) * tdiv(g.size.h as int, ws.len() - 1) + tdiv(g.size.h as int, ws.len() - 1)
            == (r - 1) * tdiv(g.size.h as int, ws.len() - 1)) by (nonlinear_arith);
    } else {
        assert((r - 1) * tdiv(g.size.h as int, ws.len() - 1) == 0) by (nonlinear_arith)
            requires
                r == 1,
        ;
    }
}

/// When no window is exiting and the area has no negative size, every tile lies inside the
/// area, and the tiles do not overlap: the oldest window's tile is the left column, the tiles
/// of the others are stacked in the right column.
pub proof fn law_tiles_inside_area_and_apart(g: Rectangle, ws: Seq<Window>, r: int, s: int)
    requires
        none_exiting(ws),
        g.size.w >= 0,
        g.size.h >= 0,
        0 <= r < s < ws.len(),
    ensures
        g.loc.x <= tile_x(g, ws, r),
        tile_x(g, ws, r) + tile_w(g, ws.len() as int) <= g.loc.x + g.size.w,
        g.loc.y <= tile_y(g, ws, r),
        tile_y(g, ws, r) + tile_h(g, ws.len() as int, r) <= g.loc.y + g.size.h,
        r == 0 ==> tile_x(g, ws, r) + tile_w(g, ws.len() as int) <= tile_x(g, ws, s),
        r >= 1 ==> tile_y(g, ws, r) + tile_h(g, ws.len() as int, r) <= tile_y(g, ws, s),
{
    let n = ws.len() as int;
    let w = g.size.w as int;
    let h = g.size.h as int;
    assert(!rev_at(ws, 0).exiting);
    assert(n >= 2);
    assert(tile_w(g, n) == w / 2);
    assert(w / 2 + w / 2 <= w) by (nonlinear_arith)
        requires
            w >= 0,
    ;
    let q = h / (n - 1);
    assert(tdiv(h, n - 1) == q);
    assert(0 <= q) by (nonlinear_arith)
        requires
            h >= 0,
            n - 1 >= 1,
            q == h / (n - 1),
    ;
    assert((n - 1) * q <= h) by (nonlinear_arith)
        requires
            h >= 0,
            n - 1 >= 1,
            q == h / (n - 1),
    ;
    if r >= 1 {
        lemma_tile_y_steps(g, ws, r);
        lemma_tile_y_steps(g, ws, s);
        assert((r - 1) * q + q == r * q) by (nonlinear_arith);
        assert(r * q <= (n - 1) * q) by (nonlinear_arith)
            requires
                r <= n - 1,
                q >= 0,
        ;
        assert(r * q <= (s - 1) * q) by (nonlinear_arith)
            requires
                r <= s - 1,
                q >= 0,
        ;
        assert(0 <= (r - 1) * q) by (nonlinear_arith)
            requires
                r >= 1,
                q >= 0,
        ;
    }
}

/// The tiling positioner.
#[derive(Debug)]
pub struct Tiling {
    pub geometry: Rectangle,
    pub pointer_position: Point,
    pub windows: WindowList,
}

/// A tiled move of `w` starts from `r` and leaves the window as `after`. A maximized xdg
/// toplevel leaves the maximized state; when both its acknowledged size and the size it had
/// before are known, the move starts at the `x` that `place_x` gives for its location and the
/// two sizes, and otherwise at `pointer`, the pixel nearest to the pointer. Any other window
/// starts from where it is.
pub open spec fn tiling_move_start<F: FnOnce(Point, Size, Size) -> i32>(
    w: Window,
    acked_size: Option<Size>,
    place_x: F,
    pointer: Point,
    r: Point,
    after: Window,
) -> bool {
    if maximized_xdg(w) {
        &&& after == unmaximized_for_move(w, MoveAfterResizeState::Idle)
        &&& match (acked_size, size_before_maximize(w.data.move_after_resize_state)) {
            (Some(i), Some(t)) => call_ensures(place_x, (w.location, i, t), r.x) && r.y
                == w.location.y,
            _ => r == pointer,
        }
    } else {
        r == w.location && after == w
    }
}

/// Start a tiled move of `window` (see `tiling_move_start`).
pub fn start_tiling_move<F>(
    window: &mut Window,
    acked_size: Option<Size>,
    place_x: F,
    pointer: Point,
) -> (r: Point)
    where
        F: FnOnce(Point, Size, Size) -> i32,
    requires
        forall|l: Point, a: Size, b: Size| call_requires(place_x, (l, a, b)),
    ensures
        tiling_move_start(*old(window), acked_size, place_x, pointer, r, *final(window)),
{
    let loc = window.location;
    if window.toplevel.kind == WindowKind::Xdg && window.toplevel.alive
        && window.toplevel.maximized {
        let state = window.data.move_after_resize_state;
        window.data.move_after_resize_state = MoveAfterResizeState::Idle;
        let new_size = match state {
            MoveAfterResizeState::Current(d) => Some(d.initial_size),
            _ => None,
        };
        window.toplevel.unmaximize(new_size);
        match (acked_size, new_size) {
            (Some(i), Some(t)) => {
                let x = place_x(loc, i, t);
                Point { x, y: loc.y }
            },
            _ => pointer,
        }
    } else {
        loc
    }
}

impl Tiling {
    /// Start moving the window of surface `id`, giving where the move starts; `None`, with
    /// nothing changed, when the positioner has no window of that surface.
    pub fn move_request<F>(
        &mut self,
        id: SurfaceId,
        acked_size: Option<Size>,
        place_x: F,
        pointer: Point,
    ) -> (r: Option<Point>)
        where
            F: FnOnce(Point, Size, Size) -> i32,
        requires
            forall|l: Point, a: Size, b: Size| call_requires(place_x, (l, a, b)),
        ensures
            final(self).geometry == old(self).geometry,
            final(self).pointer_position == old(self).pointer_position,
            match r {
                Some(p) => exists|k: int|
                    #[trigger] is_first_match(old(self).windows.windows@, id, k)
                        && final(self).windows.windows@ == old(self).windows.windows@.update(
                        k,
                        final(self).windows.windows@[k],
                    ) && tiling_move_start(
                        old(self).windows.windows@[k],
                        acked_size,
                        place_x,
                        pointer,
                        p,
                        final(self).windows.windows@[k],
                    ),
                None => !has_match(old(self).windows.windows@, id) && final(self).windows.windows@
                    == old(self).windows.windows@,
            },
    {
        match self.windows.find_mut(id) {
            Some(w) => {
                let p = start_tiling_move(w, acked_size, place_x, pointer);
                Some(p)
            },
            None => None,
        }
    }

    pub fn new(pointer_position: Point, geometry: Rectangle) -> (t: Tiling)
        ensures
            t.geometry == geometry,
            t.pointer_position == pointer_position,
            t.windows.windows@ == Seq::<Window>::empty(),
    {
        Tiling { geometry, pointer_position, windows: WindowList::new() }
    }

    /// Lay the windows out in two columns: the oldest window fills the left one, the others
    /// are stacked in the right one; each is asked to take its tile less a margin.
    #[verifier::spinoff_prover]
    #[verifier::rlimit(40)]
    pub fn arange_windows(&mut self)
        requires
            tiling_fits(old(self).geometry, old(self).windows.windows@),
        ensures
            final(self).windows.windows@ == tiled_all(old(self).geometry, old(self).windows.windows@),
            final(self).geometry == old(self).geometry,
            final(self).pointer_position == old(self).pointer_position,
    {
        let n = self.windows.windows.len();
        let ghost ws = self.windows.windows@;
        let ghost g = self.geometry;
        let ghost pointer = self.pointer_position;
        if n == 0 {
            assert(self.windows.windows@ =~= tiled_all(g, ws));
            return ;
        }
        let count: i32 = if n < 2 {
            1
        } else {
            2
        };
        let w = div_trunc(self.geometry.size.w, count);
        let mut loc = self.geometry.loc;
        let mut r: usize = 0;
        while r < n
            invariant
                n == ws.len(),
                n > 0,
                g == self.geometry,
                pointer == self.pointer_position,
                w == tile_w(g, n as int),
                tiling_fits(g, ws),
                r <= n,
                self.windows.windows@.len() == n,
                loc.x == tile_x(g, ws, r as int),
                loc.y == tile_y(g, ws, r as int),
                forall|j: int|
                    n - r <= j < n ==> self.windows.windows@[j] == tiled(
                        g,
                        ws,
                        n - 1 - j,
                    ),
                forall|j: int| 0 <= j < n - r ==> self.windows.windows@[j] == ws[j],
            decreases n - r,
        {
            let i = n - 1 - r;
            assert(rev_at(ws, r as int) == ws[i as int]);
            if !self.windows.windows[i].exiting {
                let h = if r == 0 {
                    self.geometry.size.h
                } else {
                    div_trunc(self.geometry.size.h, (n - 1) as i32)
                };
                self.windows.windows[i].toplevel.resize(Size { w: w - 20, h: h - 20 });
                let geo = self.windows.windows[i].geometry();
                self.windows.windows[i].set_location(
                    Point { x: loc.x - geo.loc.x + 10, y: loc.y - geo.loc.x + 10 },
                );
                if r < 1 {
                    loc.x = loc.x + w;
                } else {
                    loc.y = loc.y + h;
                }
            }
            r = r + 1;
        }
        assert(self.windows.windows@ =~= tiled_all(g, ws));
    }

    /// Map a window on top and lay the windows out again, unless the window is to keep its
    /// place.
    pub fn map_toplevel(&mut self, window: Window, reposition: bool)
        requires
            window.update_fits(),
            !tiling_keeps_place(window, reposition) ==> tiling_fits(
                old(self).geometry,
                seq![window.spec_self_update()] + old(self).windows.windows@,
            ),
        ensures
            final(self).windows.windows@ == tiling_mapped(
                old(self).geometry,
                old(self).windows.windows@,
                window,
                reposition,
            ),
            final(self).geometry == old(self).geometry,
            final(self).pointer_position == old(self).pointer_position,
    {
        let mut reposition = reposition;
        match window.toplevel.kind {
            WindowKind::Xdg => {
                if window.toplevel.alive && (window.toplevel.maximized
                    || window.toplevel.fullscreen) {
                    reposition = false;
                }
            },
            WindowKind::X11 => {},
        }
        self.windows.insert(window);
        if reposition {
            self.arange_windows();
        }
    }

    /// Remove the window of surface `id`.
    pub fn unmap_toplevel(&mut self, id: SurfaceId) -> (r: Option<Window>)
        ensures
            match r {
                Some(w) => exists|k: int|
                    is_first_match(old(self).windows.windows@, id, k) && w
                        == old(self).windows.windows@[k] && final(self).windows.windows@
                        == old(self).windows.windows@.remove(k),
                None => !has_match(old(self).windows.windows@, id) && final(self).windows.windows@
                    == old(self).windows.windows@,
            },
            final(self).geometry == old(self).geometry,
            final(self).pointer_position == old(self).pointer_position,
    {
        self.windows.remove(id)
    }

    pub fn on_pointer_move(&mut self, pos: Point)
        ensures
            final(self).pointer_position == pos,
            final(self).geometry == old(self).geometry,
            final(self).windows.windows@ == old(self).windows.windows@,
    {
        self.pointer_position = pos;
    }

    /// A left press deactivates every window, then activates the one of surface `under`, the
    /// surface the caller's hit test found under the pointer.
    pub fn on_pointer_button(
        &mut self,
        button: MouseButton,
        state: ButtonState,
        under: Option<SurfaceId>,
    )
        ensures
            final(self).geometry == old(self).geometry,
            final(self).pointer_position == old(self).pointer_position,
            final(self).windows.windows@ == tiling_clicked(
                old(self).windows.windows@,
                button,
                state,
                under,
            ),
    {
        match (button, state) {
            (MouseButton::Left, ButtonState::Pressed) => {
                let n = self.windows.windows.len();
                let ghost ws = self.windows.windows@;
                let ghost g = self.geometry;
                let ghost pointer = self.pointer_position;
                for i in 0..n
                    invariant
                        n == ws.len(),
                        g == self.geometry,
                        pointer == self.pointer_position,
                        self.windows.windows@.len() == n,
                        forall|j: int|
                            0 <= j < i ==> self.windows.windows@[j] == with_activation(
                                #[trigger] ws[j],
                                false,
                            ),
                        forall|j: int| i <= j < n ==> self.windows.windows@[j] == ws[j],
                {
                    self.windows.windows[i].toplevel.set_activated(false);
                }
                assert(self.windows.windows@ =~= deactivated(ws));
                match under {
                    Some(id) => {
                        let ghost ds = self.windows.windows@;
                        match self.windows.find_mut(id) {
                            Some(window) => {
                                window.toplevel.set_activated(true);
                            },
                            None => {},
                        }
                        proof {
                            if has_match(ds, id) {
                                let k = choose|k: int| is_first_match(ds, id, k);
                                lemma_first_match(ds, id, k);
                            }
                        }
                    },
                    None => {},
                }
            },
            _ => {},
        }
    }

    /// Take a new area and lay the windows out in it.
    pub fn set_geometry(&mut self, geometry: Rectangle)
        requires
            tiling_fits(geometry, old(self).windows.windows@),
        ensures
            final(self).geometry == geometry,
            final(self).pointer_position == old(self).pointer_position,
            final(self).windows.windows@ == tiled_all(geometry, old(self).windows.windows@),
    {
        self.geometry = geometry;
        self.arange_windows();
    }

    pub fn geometry(&self) -> (g: Rectangle)
        ensures
            g == self.geometry,
    {
        self.geometry
    }

    /// The surfaces that may lie under `point`, topmost first.
    pub fn surface_under(&self, point: Point) -> (r: Vec<SurfaceId>)
        ensures
            r@ == under_candidates(self.windows.windows@, point),
    {
        self.windows.surface_under(point)
    }

    pub fn find_window(&self, id: SurfaceId) -> (r: Option<&Window>)
        ensures
            match r {
                Some(w) => exists|k: int|
                    is_first_match(self.windows.windows@, id, k) && *w == self.windows.windows@[k],
                None => !has_match(self.windows.windows@, id),
            },
    {
        self.windows.find(id)
    }

    /// Drop the windows that finished exiting, update the others and lay them out again.
    pub fn update(&mut self)
        requires
            forall|i: int|
                0 <= i < old(self).windows.windows.len() ==> (
                #[trigger] old(self).windows.windows@[i]).update_fits(),
            tiling_fits(old(self).geometry, refreshed(old(self).windows.windows@)),
        ensures
            final(self).windows.windows@ == tiled_all(
                old(self).geometry,
                refreshed(old(self).windows.windows@),
            ),
            final(self).geometry == old(self).geometry,
            final(self).pointer_position == old(self).pointer_position,
    {
        self.windows.refresh();
        self.arange_windows();
    }
}

} // verus!
