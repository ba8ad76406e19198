//! The ordered list of windows of a positioner, topmost first.

use vstd::prelude::*;

use crate::desktop_layout::window::{SurfaceId, Window, WindowKind};
use crate::geometry::{Point, Rectangle};

verus! {

/// Whether `w` is the live window of surface `id`.
pub open spec fn window_is(w: Window, id: SurfaceId) -> bool {
    w.toplevel.alive && w.toplevel.id == id
}

/// `k` is the first index of the live window of surface `id`.
pub open spec fn is_first_match(ws: Seq<Window>, id: SurfaceId, k: int) -> bool {
    &&& 0 <= k < ws.len()
    &&& window_is(ws[k], id)
    &&& forall|j: int| 0 <= j < k ==> !window_is(#[trigger] ws[j], id)
}

/// Some live window has surface `id`.
pub open spec fn has_match(ws: Seq<Window>, id: SurfaceId) -> bool {
    exists|k: int| 0 <= k < ws.len() && window_is(#[trigger] ws[k], id)
}

/// The windows left after a refresh: exited windows are dropped and the others updated.
pub open spec fn refreshed(ws: Seq<Window>) -> Seq<Window>
    decreases ws.len(),
{
    if ws.len() == 0 {
        ws
    } else {
        let rest = refreshed(ws.drop_last());
        if ws.last().exited {
            rest
        } else {
            rest.push(ws.last().spec_self_update())
        }
    }
}

/// The surfaces, in order, of the windows that may lie under `p`: live windows whose bounding
/// box holds `p`. Which of them is hit depends on the surface trees.
pub open spec fn under_candidates(ws: Seq<Window>, p: Point) -> Seq<SurfaceId>
    decreases ws.len(),
{
    if ws.len() == 0 {
        Seq::empty()
    } else {
        let rest = under_candidates(ws.drop_last(), p);
        if ws.last().toplevel.alive && ws.last().bbox.spec_contains(p) {
            rest.push(ws.last().toplevel.id)
        } else {
            rest
        }
    }
}

/// `w` with its pending activation set to `active`.
pub open spec fn with_activation(w: Window, active: bool) -> Window {
    Window { toplevel: w.toplevel.spec_set_activated(active), ..w }
}

/// All windows of `ws` deactivated.
pub open spec fn deactivated(ws: Seq<Window>) -> Seq<Window> {
    ws.map_values(|w: Window| with_activation(w, false))
}

/// The first index of the live window of surface `id`.
pub open spec fn first_match(ws: Seq<Window>, id: SurfaceId) -> int {
    choose|k: int| is_first_match(ws, id, k)
}

/// There is only one first index.
pub proof fn lemma_first_match(ws: Seq<Window>, id: SurfaceId, k: int)
    requires
        is_first_match(ws, id, k),
    ensures
        first_match(ws, id) == k,
{
    let c = first_match(ws, id);
    assert(is_first_match(ws, id, c));
    if c < k {
        assert(!window_is(ws[c], id));
    } else if k < c {
        assert(!window_is(ws[k], id));
    }
}

/// When some live window has surface `id`, there is a first one.
pub proof fn lemma_first_match_exists(ws: Seq<Window>, id: SurfaceId)
    requires
        has_match(ws, id),
    ensures
        is_first_match(ws, id, first_match(ws, id)),
    decreases ws.len(),
{
    if window_is(ws[0], id) {
        assert(is_first_match(ws, id, 0));
    } else {
        let t = ws.drop_first();
        let j = choose|j: int| 0 <= j < ws.len() && window_is(#[trigger] ws[j], id);
        assert(t[j - 1] == ws[j]);
        lemma_first_match_exists(t, id);
        let k = first_match(t, id);
        assert forall|i: int| 0 <= i < k + 1 implies !window_is(#[trigger] ws[i], id) by {
            if i > 0 {
                assert(ws[i] == t[i - 1]);
            }
        }
        assert(is_first_match(ws, id, k + 1));
    }
}

/// The windows after the one of surface `id` was raised: it goes on top as the only activated
/// window.
pub open spec fn raised(ws: Seq<Window>, id: SurfaceId) -> Seq<Window> {
    if has_match(ws, id) {
        let k = first_match(ws, id);
        seq![with_activation(ws[k], true)] + deactivated(ws.remove(k))
    } else {
        ws
    }
}

/// The surfaces of the windows `ws`, in order.
pub open spec fn surface_ids(ws: Seq<Window>) -> Seq<SurfaceId> {
    ws.map_values(|w: Window| w.toplevel.id)
}

/// Raising a window keeps the same windows (the surfaces are a permutation of those before),
/// puts the raised one on top, activates it if it is an xdg toplevel and deactivates every
/// other live xdg toplevel.
pub proof fn law_raise_puts_window_on_top(ws: Seq<Window>, id: SurfaceId)
    requires
        has_match(ws, id),
    ensures
        raised(ws, id).len() == ws.len(),
        window_is(raised(ws, id)[0], id),
        raised(ws, id)[0].toplevel.kind == WindowKind::Xdg ==> raised(ws, id)[0].toplevel.pending.activated,
        forall|j: int|
            1 <= j < ws.len() && (#[trigger] raised(ws, id)[j]).toplevel.kind == WindowKind::Xdg
                && raised(ws, id)[j].toplevel.alive ==> !raised(ws, id)[j].toplevel.pending.activated,
        surface_ids(raised(ws, id)).to_multiset() == surface_ids(ws).to_multiset(),
{
    lemma_first_match_exists(ws, id);
    let k = first_match(ws, id);
    let r = raised(ws, id);
    let rest = ws.remove(k);
    assert(r == seq![with_activation(ws[k], true)] + deactivated(rest));
    assert forall|j: int|
        1 <= j < ws.len() && (#[trigger] r[j]).toplevel.kind == WindowKind::Xdg && r[j].toplevel.alive
            implies !r[j].toplevel.pending.activated by {
        assert(r[j] == with_activation(rest[j - 1], false));
    }
    let ids = surface_ids(ws);
    let a = ids[k];
    let m = ids.to_multiset();
    assert(surface_ids(r) =~= seq![a] + ids.remove(k));
    broadcast use vstd::multiset::group_multiset_axioms, vstd::seq_lib::group_to_multiset_ensures;
    vstd::seq_lib::to_multiset_remove(ids, k);
    vstd::seq_lib::lemma_multiset_commutative(seq![a], ids.remove(k));
    assert(seq![a] =~= Seq::<SurfaceId>::empty().push(a));
    vstd::seq_lib::to_multiset_build(Seq::<SurfaceId>::empty(), a);
    assert(Seq::<SurfaceId>::empty().to_multiset() =~= vstd::multiset::Multiset::<SurfaceId>::empty());
    assert(seq![a].to_multiset() =~= vstd::multiset::Multiset::<SurfaceId>::empty().insert(a));
    assert(m.count(a) > 0) by {
        assert(ids.contains(a));
    }
    assert(vstd::multiset::Multiset::<SurfaceId>::empty().insert(a).add(m.remove(a)) =~= m);
    assert(surface_ids(r).to_multiset() =~= m);
}

/// Raising the window that is already on top changes nothing: a second raise of the same
/// surface leaves the windows as the first one did.
pub proof fn law_raise_twice_is_raise_once(ws: Seq<Window>, id: SurfaceId)
    ensures
        raised(raised(ws, id), id) == raised(ws, id),
{
    if has_match(ws, id) {
        lemma_first_match_exists(ws, id);
        let k = first_match(ws, id);
        let r = raised(ws, id);
        assert(is_first_match(r, id, 0));
        lemma_first_match(r, id, 0);
        let rest = ws.remove(k);
        assert(r.remove(0) =~= deactivated(rest));
        assert(raised(r, id) =~= r);
    }
}

/// Inserting a live window and then removing its surface gives the inserted window back and
/// leaves the list as it was.
pub proof fn law_insert_then_remove(ws: Seq<Window>, w: Window)
    requires
        w.toplevel.alive,
    ensures
        ({
            let l = seq![w.spec_self_update()] + ws;
            &&& is_first_match(l, w.toplevel.id, 0)
            &&& first_match(l, w.toplevel.id) == 0
            &&& l[0] == w.spec_self_update()
            &&& l.remove(0) == ws
        }),
{
    let l = seq![w.spec_self_update()] + ws;
    assert(is_first_match(l, w.toplevel.id, 0));
    lemma_first_match(l, w.toplevel.id, 0);
    assert(l.remove(0) =~= ws);
}

/// The windows of a positioner, topmost first.
#[derive(Debug)]
pub struct WindowList {
    pub windows: Vec<Window>,
}

impl WindowList {
    pub fn new() -> (l: WindowList)
        ensures
            l.windows@ == Seq::<Window>::empty(),
    {
        WindowList { windows: Vec::new() }
    }

    /// Place `window` on top, after updating its bounding box.
    pub fn insert(&mut self, window: Window)
        requires
            window.update_fits(),
        ensures
            final(self).windows@ == seq![window.spec_self_update()] + old(self).windows@,
    {
        let mut window = window;
        window.self_update();
        self.windows.insert(0, window);
        assert(self.windows@ =~= seq![window] + old(self).windows@);
    }

    /// Drop the windows whose exit animation finished and update the others.
    pub fn refresh(&mut self)
        requires
            forall|i: int|
                0 <= i < old(self).windows.len() ==> (#[trigger] old(self).windows@[i]).update_fits(),
        ensures
            final(self).windows@ == refreshed(old(self).windows@),
    {
        let mut kept: Vec<Window> = Vec::new();
        let n = self.windows.len();
        for i in 0..n
            invariant
                n == self.windows.len(),
                self.windows@ == old(self).windows@,
                forall|j: int|
                    0 <= j < self.windows.len() ==> (#[trigger] self.windows@[j]).update_fits(),
                kept@ == refreshed(self.windows@.take(i as int)),
        {
            let mut w = self.windows[i];
            assert(self.windows@.take(i + 1).drop_last() =~= self.windows@.take(i as int));
            if !w.exited {
                w.self_update();
                kept.push(w);
            }
        }
        assert(self.windows@.take(n as int) =~= self.windows@);
        self.windows = kept;
    }

    /// The surfaces of the windows that may lie under `point`, topmost first; the surface
    /// trees decide which of them is hit.
    pub fn surface_under(&self, point: Point) -> (r: Vec<SurfaceId>)
        ensures
            r@ == under_candidates(self.windows@, point),
    {
        let mut r: Vec<SurfaceId> = Vec::new();
        let n = self.windows.len();
        for i in 0..n
            invariant
                n == self.windows.len(),
                r@ == under_candidates(self.windows@.take(i as int), point),
        {
            assert(self.windows@.take(i + 1).drop_last() =~= self.windows@.take(i as int));
            let w = &self.windows[i];
            if w.toplevel.alive && w.bbox.contains(point) {
                r.push(w.toplevel.id);
            }
        }
        assert(self.windows@.take(n as int) =~= self.windows@);
        r
    }

    /// The index of the live window of surface `id`, the topmost one if there are several.
    pub fn position(&self, id: SurfaceId) -> (r: Option<usize>)
        ensures
            match r {
                Some(k) => is_first_match(self.windows@, id, k as int),
                None => !has_match(self.windows@, id),
            },
    {
        let n = self.windows.len();
        for i in 0..n
            invariant
                n == self.windows.len(),
                forall|j: int| 0 <= j < i ==> !window_is(#[trigger] self.windows@[j], id),
        {
            if self.windows[i].toplevel.alive && self.windows[i].toplevel.id == id {
                return Some(i);
            }
        }
        None
    }

    /// Raise the window of surface `id` to the top and make it the only activated window.
    pub fn bring_surface_to_top(&mut self, id: SurfaceId)
        ensures
            final(self).windows@ == raised(old(self).windows@, id),
    {
        match self.position(id) {
            Some(k) => {
                let ghost ws = self.windows@;
                let winner = self.windows.remove(k);
                let n = self.windows.len();
                for i in 0..n
                    invariant
                        n == self.windows.len(),
                        forall|j: int|
                            0 <= j < i ==> self.windows@[j] == with_activation(
                                #[trigger] ws.remove(k as int)[j],
                                false,
                            ),
                        forall|j: int|
                            i <= j < n ==> self.windows@[j] == #[trigger] ws.remove(k as int)[j],
                {
                    self.windows[i].toplevel.set_activated(false);
                }
                let mut winner = winner;
                winner.toplevel.set_activated(true);
                self.windows.insert(0, winner);
                assert(self.windows@ =~= seq![with_activation(ws[k as int], true)] + deactivated(
                    ws.remove(k as int),
                ));
                proof {
                    lemma_first_match(ws, id, k as int);
                }
            },
            None => {},
        }
    }

    /// What a pointer button does to the windows and the keyboard focus. A press while the
    /// pointer is not grabbed raises the window of `under` (the surface the caller's hit test
    /// found under the pointer), activates it alone and asks to focus it; a press over no
    /// window of the list deactivates every window and asks to clear the focus. The result is
    /// `None` when the focus stays, `Some(None)` to clear it, `Some(Some(id))` to give it to
    /// `id`. Anything else changes nothing.
    pub fn focus_on_button(&mut self, pressed: bool, grabbed: bool, under: Option<SurfaceId>) -> (r:
        Option<Option<SurfaceId>>)
        ensures
            !pressed || grabbed ==> r is None && final(self).windows@ == old(self).windows@,
            pressed && !grabbed ==> match under {
                Some(id) => if has_match(old(self).windows@, id) {
                    r == Some(Some(id)) && final(self).windows@ == raised(old(self).windows@, id)
                } else {
                    r == Some(None::<SurfaceId>) && final(self).windows@ == deactivated(
                        old(self).windows@,
                    )
                },
                None => r == Some(None::<SurfaceId>) && final(self).windows@ == deactivated(
                    old(self).windows@,
                ),
            },
    {
        if !pressed || grabbed {
            return None;
        }
        if let Some(id) = under {
            if self.position(id).is_some() {
                self.bring_surface_to_top(id);
                return Some(Some(id));
            }
        }
        let ghost ws = self.windows@;
        let n = self.windows.len();
        for i in 0..n
            invariant
                n == ws.len(),
                self.windows@.len() == n,
                forall|j: int| 0 <= j < i ==> self.windows@[j] == with_activation(#[trigger] ws[j], false),
                forall|j: int| i <= j < n ==> self.windows@[j] == ws[j],
        {
            self.windows[i].toplevel.set_activated(false);
        }
        assert(self.windows@ =~= deactivated(ws));
        Some(None)
    }

    /// The live window of surface `id`, the topmost one if there are several.
    pub fn find(&self, id: SurfaceId) -> (r: Option<&Window>)
        ensures
            match r {
                Some(w) => exists|k: int| is_first_match(self.windows@, id, k) && *w == self.windows@[k],
                None => !has_match(self.windows@, id),
            },
    {
        match self.position(id) {
            Some(k) => Some(&self.windows[k]),
            None => None,
        }
    }

    /// The live window of surface `id`, to change it in place.
    pub fn find_mut(&mut self, id: SurfaceId) -> (r: Option<&mut Window>)
        ensures
            match r {
                Some(w) => exists|k: int|
                    is_first_match(old(self).windows@, id, k) && *w == old(self).windows@[k]
                        && final(self).windows@ == old(self).windows@.update(k, *final(w)),
                None => !has_match(old(self).windows@, id) && final(self).windows@
                    == old(self).windows@,
            },
    {
        match self.position(id) {
            Some(k) => Some(&mut self.windows[k]),
            None => None,
        }
    }

    /// Remove and return the live window of surface `id`.
    pub fn remove(&mut self, id: SurfaceId) -> (r: Option<Window>)
        ensures
            match r {
                Some(w) => exists|k: int|
                    is_first_match(old(self).windows@, id, k) && w == old(self).windows@[k]
                        && final(self).windows@ == old(self).windows@.remove(k),
                None => !has_match(old(self).windows@, id) && final(self).windows@
                    == old(self).windows@,
            },
    {
        match self.position(id) {
            Some(k) => Some(self.windows.remove(k)),
            None => None,
        }
    }

    pub fn len(&self) -> (n: usize)
        ensures
            n == self.windows.len(),
    {
        self.windows.len()
    }
}

} // verus!
