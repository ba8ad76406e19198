//! Popups: the list of popup surfaces and the order in which the popups attached to a
//! surface, and theirs in turn, are visited.

use vstd::prelude::*;

use crate::desktop_layout::window::{SurfaceId, Window};
use crate::desktop_layout::window_list::WindowList;
use crate::geometry::Point;

verus! {

/// A popup surface.
#[derive(Clone, Copy, Debug, PartialEq, Eq, Structural)]
pub struct Popup {
    pub id: SurfaceId,
    /// The surface the popup is attached to.
    pub parent: Option<SurfaceId>,
    /// Whether the popup's surface is alive.
    pub alive: bool,
    /// Where the popup is, relative to the place of its parent.
    pub location: Point,
}

/// Popup `j` of `ps` is attached to `base`: it is alive and `base` is its parent.
pub open spec fn child(ps: Seq<Popup>, j: int, base: SurfaceId) -> bool {
    ps[j].alive && ps[j].parent == Some(base)
}

/// `rank` orders the popups so that every popup attached to a live popup comes after it.
pub open spec fn rank_ok(ps: Seq<Popup>, rank: spec_fn(int) -> int) -> bool {
    &&& forall|i: int| 0 <= i < ps.len() ==> 0 <= #[trigger] rank(i) < ps.len()
    &&& forall|i: int, j: int|
        #![trigger rank(i), rank(j)]
        0 <= i < ps.len() && 0 <= j < ps.len() && ps[i].alive && child(ps, j, ps[i].id) ==> rank(i)
            < rank(j)
}

/// No popup is attached, directly or through others, to itself.
pub open spec fn acyclic(ps: Seq<Popup>) -> bool {
    exists|rank: spec_fn(int) -> int| rank_ok(ps, rank)
}

/// A ranking of acyclic popups.
pub open spec fn popup_rank(ps: Seq<Popup>) -> spec_fn(int) -> int {
    choose|rank: spec_fn(int) -> int| rank_ok(ps, rank)
}

/// `p` moved by `by`.
pub open spec fn offset(p: Point, by: Point) -> Point {
    Point { x: (p.x + by.x) as i32, y: (p.y + by.y) as i32 }
}

/// `p` moved by `by` stays in the range of `i32`.
pub open spec fn offset_fits(p: Point, by: Point) -> bool {
    &&& i32::MIN <= p.x + by.x <= i32::MAX
    &&& i32::MIN <= p.y + by.y <= i32::MAX
}

/// The popups attached to `base`, and theirs in turn, in the order they are visited, each
/// with its place: the popups before index `k` are scanned from the last one down; each one
/// attached to `base` is visited at `place`, then the popups attached to it, at `place` moved
/// by its location. At most `depth` levels are visited.
pub open spec fn visit(ps: Seq<Popup>, base: SurfaceId, place: Point, k: int, depth: nat) -> Seq<
    (usize, Point),
>
    decreases depth, k,
{
    if k <= 0 || depth == 0 {
        Seq::empty()
    } else {
        let j = k - 1;
        let rest = visit(ps, base, place, k - 1, depth);
        if child(ps, j, base) {
            seq![(j as usize, place)] + visit(
                ps,
                ps[j].id,
                offset(place, ps[j].location),
                ps.len() as int,
                (depth - 1) as nat,
            ) + rest
        } else {
            rest
        }
    }
}

/// Every place `visit` computes is in the range of `i32`.
pub open spec fn visit_fits(ps: Seq<Popup>, base: SurfaceId, place: Point, k: int, depth: nat) -> bool
    decreases depth, k,
{
    if k <= 0 || depth == 0 {
        true
    } else {
        let j = k - 1;
        let rest = visit_fits(ps, base, place, k - 1, depth);
        if child(ps, j, base) {
            offset_fits(place, ps[j].location) && visit_fits(
                ps,
                ps[j].id,
                offset(place, ps[j].location),
                ps.len() as int,
                (depth - 1) as nat,
            ) && rest
        } else {
            rest
        }
    }
}

/// The popups attached to `base` rank at least `lo`.
pub open spec fn children_from(ps: Seq<Popup>, rank: spec_fn(int) -> int, base: SurfaceId, lo: int) -> bool {
    forall|j: int| 0 <= j < ps.len() && child(ps, j, base) ==> #[trigger] rank(j) >= lo
}

/// When the popups are ranked, any depth that covers the ranks left gives the same visit:
/// the depth never cuts it short.
pub proof fn lemma_visit_depth(
    ps: Seq<Popup>,
    rank: spec_fn(int) -> int,
    base: SurfaceId,
    place: Point,
    k: int,
    lo: int,
    d1: nat,
    d2: nat,
)
    requires
        rank_ok(ps, rank),
        0 <= lo,
        k <= ps.len(),
        children_from(ps, rank, base, lo),
        d1 >= ps.len() - lo,
        d2 >= ps.len() - lo,
    ensures
        visit(ps, base, place, k, d1) == visit(ps, base, place, k, d2),
        visit_fits(ps, base, place, k, d1) == visit_fits(ps, base, place, k, d2),
    decreases ps.len() - lo, k,
{
    if k > 0 {
        lemma_visit_depth(ps, rank, base, place, k - 1, lo, d1, d2);
        let j = k - 1;
        if child(ps, j, base) {
            assert(rank(j) >= lo);
            assert(rank(j) < ps.len());
            let lo2 = rank(j) + 1;
            assert forall|m: int| 0 <= m < ps.len() && child(ps, m, ps[j].id) implies #[trigger] rank(
                m,
            ) >= lo2 by {
                assert(rank(j) < rank(m));
            }
            lemma_visit_depth(
                ps,
                rank,
                ps[j].id,
                offset(place, ps[j].location),
                ps.len() as int,
                lo2,
                (d1 - 1) as nat,
                (d2 - 1) as nat,
            );
        }
    }
}

/// Entry `t` of a visit from `base` at `place` is a live popup, attached either to `base`,
/// and then placed at `place`, or to a popup visited before it, and then placed at that
/// popup's place moved by its location.
pub open spec fn placed_after_parent(
    ps: Seq<Popup>,
    base: SurfaceId,
    place: Point,
    v: Seq<(usize, Point)>,
    t: int,
) -> bool {
    let e = v[t];
    &&& 0 <= e.0 < ps.len()
    &&& ps[e.0 as int].alive
    &&& (child(ps, e.0 as int, base) && e.1 == place) || exists|s: int|
        #![trigger v[s]]
        0 <= s < t && child(ps, e.0 as int, ps[v[s].0 as int].id) && e.1 == offset(
            v[s].1,
            ps[v[s].0 as int].location,
        )
}

/// Every popup the visit reaches comes after the popup it is attached to, at that popup's
/// place moved by its location; those attached to the base come at the starting place.
pub proof fn law_popups_follow_their_parents(
    ps: Seq<Popup>,
    base: SurfaceId,
    place: Point,
    k: int,
    depth: nat,
)
    requires
        k <= ps.len() <= usize::MAX,
    ensures
        forall|t: int|
            0 <= t < visit(ps, base, place, k, depth).len() ==> placed_after_parent(
                ps,
                base,
                place,
                visit(ps, base, place, k, depth),
                t,
            ),
    decreases depth, k,
{
    let v = visit(ps, base, place, k, depth);
    if k > 0 && depth > 0 {
        let j = k - 1;
        let rest = visit(ps, base, place, k - 1, depth);
        law_popups_follow_their_parents(ps, base, place, k - 1, depth);
        if child(ps, j, base) {
            let p2 = offset(place, ps[j].location);
            let sub = visit(ps, ps[j].id, p2, ps.len() as int, (depth - 1) as nat);
            law_popups_follow_their_parents(ps, ps[j].id, p2, ps.len() as int, (depth - 1) as nat);
            let head = seq![(j as usize, place)];
            assert(v == head + sub + rest);
            assert forall|t: int| 0 <= t < v.len() implies placed_after_parent(ps, base, place, v, t) by {
                if t == 0 {
                    assert(v[0] == (j as usize, place));
                } else if t < 1 + sub.len() {
                    let u = t - 1;
                    assert(v[t] == sub[u]);
                    assert(placed_after_parent(ps, ps[j].id, p2, sub, u));
                    if child(ps, sub[u].0 as int, ps[j].id) && sub[u].1 == p2 {
                        assert(v[0].0 == j as usize);
                        assert(0 <= 0 < t && child(ps, v[t].0 as int, ps[v[0].0 as int].id)
                            && v[t].1 == offset(v[0].1, ps[v[0].0 as int].location));
                    } else {
                        let s = choose|s: int|
                            #![trigger sub[s]]
                            0 <= s < u && child(ps, sub[u].0 as int, ps[sub[s].0 as int].id)
                                && sub[u].1 == offset(sub[s].1, ps[sub[s].0 as int].location);
                        assert(v[s + 1] == sub[s]);
                    }
                } else {
                    let u = t - 1 - sub.len();
                    assert(v[t] == rest[u]);
                    assert(placed_after_parent(ps, base, place, rest, u));
                    if child(ps, rest[u].0 as int, base) && rest[u].1 == place {
                    } else {
                        let s = choose|s: int|
                            #![trigger rest[s]]
                            0 <= s < u && child(ps, rest[u].0 as int, ps[rest[s].0 as int].id)
                                && rest[u].1 == offset(rest[s].1, ps[rest[s].0 as int].location);
                        assert(v[s + 1 + sub.len()] == rest[s]);
                    }
                }
            }
        } else {
            assert(v == rest);
        }
    }
}

/// The popups.
#[derive(Debug)]
pub struct PopupList {
    pub popups: Vec<Popup>,
}

impl PopupList {
    pub fn new() -> (l: PopupList)
        ensures
            l.popups@ == Seq::<Popup>::empty(),
    {
        PopupList { popups: Vec::new() }
    }

    pub fn insert(&mut self, popup: Popup)
        ensures
            final(self).popups@ == old(self).popups@.push(popup),
    {
        self.popups.push(popup);
    }

    /// Visit the popups attached to `base`, among the first `k`, at `place`.
    fn visit_from(
        &self,
        base: SurfaceId,
        place: Point,
        k: usize,
        Ghost(lo): Ghost<int>,
        out: &mut Vec<(usize, Point)>,
    )
        requires
            acyclic(self.popups@),
            0 <= lo,
            k <= self.popups@.len(),
            children_from(self.popups@, popup_rank(self.popups@), base, lo),
            visit_fits(self.popups@, base, place, k as int, (self.popups@.len() - lo) as nat),
        ensures
            final(out)@ == old(out)@ + visit(
                self.popups@,
                base,
                place,
                k as int,
                (self.popups@.len() - lo) as nat,
            ),
        decreases self.popups@.len() - lo, k,
    {
        let ghost ps = self.popups@;
        let ghost rank = popup_rank(ps);
        let ghost depth = (ps.len() - lo) as nat;
        if k == 0 {
            assert(old(out)@ + Seq::<(usize, Point)>::empty() =~= old(out)@);
            return ;
        }
        let j = k - 1;
        let p = self.popups[j];
        if p.alive && p.parent == Some(base) {
            assert(child(ps, j as int, base));
            assert(rank(j as int) >= lo);
            assert(rank(j as int) < ps.len());
            let ghost lo2 = rank(j as int) + 1;
            assert forall|m: int| 0 <= m < ps.len() && child(ps, m, ps[j as int].id) implies #[trigger] rank(
                m,
            ) >= lo2 by {
                assert(rank(j as int) < rank(m));
            }
            assert(depth > 0);
            let next = Point { x: place.x + p.location.x, y: place.y + p.location.y };
            out.push((j, place));
            let ghost mid = out@;
            proof {
                lemma_visit_depth(
                    ps,
                    rank,
                    p.id,
                    next,
                    ps.len() as int,
                    lo2,
                    (depth - 1) as nat,
                    (ps.len() - lo2) as nat,
                );
            }
            self.visit_from(p.id, next, self.popups.len(), Ghost(lo2), out);
            let ghost mid2 = out@;
            self.visit_from(base, place, j, Ghost(lo), out);
            assert(out@ =~= old(out)@ + visit(ps, base, place, k as int, depth));
        } else {
            self.visit_from(base, place, j, Ghost(lo), out);
        }
    }

    /// The popups attached to `base`, and theirs in turn, in the order they are visited, each
    /// with its place: those attached to `base` at `initial_place`, the ones attached to a
    /// popup at its place moved by its location.
    pub fn with_child_popups(&self, base: SurfaceId, initial_place: Point) -> (r: Vec<(usize, Point)>)
        requires
            acyclic(self.popups@),
            visit_fits(
                self.popups@,
                base,
                initial_place,
                self.popups@.len() as int,
                self.popups@.len() as nat,
            ),
        ensures
            r@ == visit(
                self.popups@,
                base,
                initial_place,
                self.popups@.len() as int,
                self.popups@.len() as nat,
            ),
    {
        let mut out: Vec<(usize, Point)> = Vec::new();
        proof {
            let rank = popup_rank(self.popups@);
            assert(rank_ok(self.popups@, rank));
        }
        self.visit_from(base, initial_place, self.popups.len(), Ghost(0), &mut out);
        assert(out@ =~= Seq::<(usize, Point)>::empty() + visit(
            self.popups@,
            base,
            initial_place,
            self.popups@.len() as int,
            self.popups@.len() as nat,
        ));
        out
    }

    /// The live popup of surface `surface`.
    pub fn find(&self, surface: SurfaceId) -> (r: Option<Popup>)
        ensures
            match r {
                Some(p) => exists|k: int|
                    0 <= k < self.popups@.len() && self.popups@[k] == p && p.alive && p.id == surface
                        && forall|j: int|
                        0 <= j < k ==> !(#[trigger] self.popups@[j].alive && self.popups@[j].id
                            == surface),
                None => forall|j: int|
                    0 <= j < self.popups@.len() ==> !(#[trigger] self.popups@[j].alive
                        && self.popups@[j].id == surface),
            },
    {
        let n = self.popups.len();
        for i in 0..n
            invariant
                n == self.popups.len(),
                forall|j: int|
                    0 <= j < i ==> !(#[trigger] self.popups@[j].alive && self.popups@[j].id
                        == surface),
        {
            if self.popups[i].alive && self.popups[i].id == surface {
                return Some(self.popups[i]);
            }
        }
        None
    }

    /// Forget the popups that are gone.
    pub fn refresh(&mut self)
        ensures
            final(self).popups@ == alive_popups(old(self).popups@),
    {
        let mut kept: Vec<Popup> = Vec::new();
        let n = self.popups.len();
        for i in 0..n
            invariant
                n == self.popups.len(),
                self.popups@ == old(self).popups@,
                kept@ == alive_popups(self.popups@.take(i as int)),
        {
            assert(self.popups@.take(i + 1).drop_last() =~= self.popups@.take(i as int));
            if self.popups[i].alive {
                kept.push(self.popups[i]);
            }
        }
        assert(self.popups@.take(n as int) =~= self.popups@);
        self.popups = kept;
    }

    pub fn clear(&mut self)
        ensures
            final(self).popups@ == Seq::<Popup>::empty(),
    {
        self.popups.clear();
    }

    /// The popups that may lie under the pointer, in the order they are tried, each with its
    /// place: for each live window, topmost first, the popups attached to it as
    /// `with_child_popups` visits them from the corner of the window's geometry. Which of them
    /// is hit depends on the surface trees.
    pub fn surface_under(&self, windows: &WindowList) -> (r: Vec<(usize, Point)>)
        requires
            acyclic(self.popups@),
            forall|i: int|
                0 <= i < windows.windows@.len() && (#[trigger] windows.windows@[i]).toplevel.alive
                    ==> offset_fits(windows.windows@[i].location, windows.windows@[i].spec_geometry().loc)
                    && visit_fits(
                    self.popups@,
                    windows.windows@[i].toplevel.id,
                    offset(windows.windows@[i].location, windows.windows@[i].spec_geometry().loc),
                    self.popups@.len() as int,
                    self.popups@.len() as nat,
                ),
        ensures
            r@ == popup_candidates(self.popups@, windows.windows@),
    {
        let mut r: Vec<(usize, Point)> = Vec::new();
        let n = windows.windows.len();
        for i in 0..n
            invariant
                n == windows.windows.len(),
                acyclic(self.popups@),
                forall|i: int|
                    0 <= i < windows.windows@.len() && (#[trigger] windows.windows@[i]).toplevel.alive
                        ==> offset_fits(windows.windows@[i].location, windows.windows@[i].spec_geometry().loc)
                        && visit_fits(
                        self.popups@,
                        windows.windows@[i].toplevel.id,
                        offset(windows.windows@[i].location, windows.windows@[i].spec_geometry().loc),
                        self.popups@.len() as int,
                        self.popups@.len() as nat,
                    ),
                r@ == popup_candidates(self.popups@, windows.windows@.take(i as int)),
        {
            let w = windows.windows[i];
            assert(windows.windows@.take(i + 1).drop_last() =~= windows.windows@.take(i as int));
            assert(windows.windows@.take(i + 1).last() == w);
            match w.surface() {
                Some(parent) => {
                    let g = w.geometry();
                    let place = Point { x: w.location.x + g.loc.x, y: w.location.y + g.loc.y };
                    let mut found = self.with_child_popups(parent, place);
                    r.append(&mut found);
                },
                None => {},
            }
        }
        assert(windows.windows@.take(n as int) =~= windows.windows@);
        r
    }
}

/// The live popups of `ps`, in order.
pub open spec fn alive_popups(ps: Seq<Popup>) -> Seq<Popup>
    decreases ps.len(),
{
    if ps.len() == 0 {
        ps
    } else if ps.last().alive {
        alive_popups(ps.drop_last()).push(ps.last())
    } else {
        alive_popups(ps.drop_last())
    }
}

/// The popups of the windows `ws`, in the order they are tried, each with its place.
pub open spec fn popup_candidates(ps: Seq<Popup>, ws: Seq<Window>) -> Seq<(usize, Point)>
    decreases ws.len(),
{
    if ws.len() == 0 {
        Seq::empty()
    } else {
        let rest = popup_candidates(ps, ws.drop_last());
        let w = ws.last();
        if w.toplevel.alive {
            rest + visit(
                ps,
                w.toplevel.id,
                offset(w.location, w.spec_geometry().loc),
                ps.len() as int,
                ps.len() as nat,
            )
        } else {
            rest
        }
    }
}

} // verus!
