//! wlr-layer-shell surfaces of an output: placement on the output and the exclusive zones
//! they reserve at its edges.

use vstd::prelude::*;

use crate::desktop_layout::window::{translated, translation_fits, SurfaceId};
use crate::geometry::{half, tdiv, Point, Rectangle, Size};

verus! {

/// The layer a layer surface is rendered in.
#[derive(Clone, Copy, Debug, PartialEq, Eq, Structural)]
pub enum Layer {
    Background,
    Bottom,
    Top,
    Overlay,
}

/// The edges a layer surface is anchored to, as the bits of the wlr-layer-shell `anchor` enum.
#[derive(Clone, Copy, Debug, PartialEq, Eq, Structural)]
pub struct Anchor {
    pub bits: u32,
}

impl Anchor {
    pub const TOP: u32 = 1;
    pub const BOTTOM: u32 = 2;
    pub const LEFT: u32 = 4;
    pub const RIGHT: u32 = 8;

    pub open spec fn spec_contains(self, flags: u32) -> bool {
        self.bits & flags == flags
    }

    /// Whether every flag of `flags` is set.
    pub fn contains(&self, flags: u32) -> (b: bool)
        ensures
            b == self.spec_contains(flags),
    {
        self.bits & flags == flags
    }
}

/// How a layer surface wants its edge of the output to be reserved.
#[derive(Clone, Copy, Debug, PartialEq, Eq, Structural)]
pub enum ExclusiveZone {
    /// Reserve this many pixels.
    Exclusive(u32),
    /// Do not reserve, but do not overlap the zones of others either.
    Neutral,
    /// Ignore the zones.
    DontCare,
}

/// The double-buffered state the client committed for a layer surface.
#[derive(Clone, Copy, Debug, PartialEq, Eq, Structural)]
pub struct LayerSurfaceCachedState {
    pub size: Size,
    pub anchor: Anchor,
    pub exclusive_zone: ExclusiveZone,
    pub layer: Layer,
}

/// The space reserved by layer surfaces at each edge of an output.
#[derive(Clone, Copy, Debug, PartialEq, Eq, Structural)]
pub struct LayerExclusiveZone {
    pub top: u32,
    pub bottom: u32,
    pub left: u32,
    pub right: u32,
}

impl LayerExclusiveZone {
    pub fn new() -> (z: LayerExclusiveZone)
        ensures
            z == (LayerExclusiveZone { top: 0, bottom: 0, left: 0, right: 0 }),
    {
        LayerExclusiveZone { top: 0, bottom: 0, left: 0, right: 0 }
    }
}

/// A layer surface mapped on an output.
#[derive(Clone, Copy, Debug, PartialEq, Eq, Structural)]
pub struct LayerSurface {
    pub id: SurfaceId,
    pub location: Point,
    pub bbox: Rectangle,
    /// The bounding box of the surface tree relative to the location, as measured on the tree.
    pub surface_bbox: Rectangle,
    pub layer: Layer,
    /// The committed state, while the surface is alive.
    pub state: Option<LayerSurfaceCachedState>,
    /// The size of the next configure.
    pub pending_size: Option<Size>,
    /// A configure is to be sent.
    pub configure_pending: bool,
}

impl LayerSurface {
    pub fn new(id: SurfaceId, state: LayerSurfaceCachedState, layer: Layer) -> (l: LayerSurface)
        ensures
            l.id == id,
            l.state == Some(state),
            l.layer == layer,
            l.location == (Point { x: 0, y: 0 }),
            l.bbox == (Rectangle { loc: Point { x: 0, y: 0 }, size: Size { w: 0, h: 0 } }),
            l.surface_bbox == l.bbox,
            l.pending_size is None,
            !l.configure_pending,
    {
        let zero = Rectangle { loc: Point { x: 0, y: 0 }, size: Size { w: 0, h: 0 } };
        LayerSurface {
            id,
            location: Point { x: 0, y: 0 },
            bbox: zero,
            surface_bbox: zero,
            layer,
            state: Some(state),
            pending_size: None,
            configure_pending: false,
        }
    }

    pub fn location(&self) -> (p: Point)
        ensures
            p == self.location,
    {
        self.location
    }

    pub fn set_location(&mut self, location: Point)
        ensures
            *final(self) == (LayerSurface { location, ..*old(self) }),
    {
        self.location = location;
    }

    pub fn bbox(&self) -> (r: Rectangle)
        ensures
            r == self.bbox,
    {
        self.bbox
    }

    pub fn layer(&self) -> (l: Layer)
        ensures
            l == self.layer,
    {
        self.layer
    }

    /// The surface, while it is alive.
    pub fn surface(&self) -> (s: Option<SurfaceId>)
        ensures
            s == (if self.state is Some {
                Some(self.id)
            } else {
                None::<SurfaceId>
            }),
    {
        if self.state.is_some() {
            Some(self.id)
        } else {
            None
        }
    }

    pub open spec fn update_fits(self) -> bool {
        translation_fits(self.surface_bbox, self.location)
    }

    /// A live surface gets its bounding box from its tree at its location, and the layer it
    /// committed; a dead one is reduced to an empty box at its location.
    pub open spec fn spec_self_update(self) -> LayerSurface {
        match self.state {
            Some(st) => LayerSurface {
                bbox: translated(self.surface_bbox, self.location),
                layer: st.layer,
                ..self
            },
            None => LayerSurface {
                bbox: Rectangle { loc: self.location, size: Size { w: 0, h: 0 } },
                ..self
            },
        }
    }

    pub fn self_update(&mut self)
        requires
            old(self).update_fits(),
        ensures
            *final(self) == old(self).spec_self_update(),
    {
        match self.state {
            Some(st) => {
                self.bbox = Rectangle {
                    loc: Point {
                        x: self.surface_bbox.loc.x + self.location.x,
                        y: self.surface_bbox.loc.y + self.location.y,
                    },
                    size: self.surface_bbox.size,
                };
                self.layer = st.layer;
            },
            None => {
                self.bbox = Rectangle { loc: self.location, size: Size { w: 0, h: 0 } };
            },
        }
    }
}

/// The horizontal position of a layer surface on the output `out`: at the left edge when it
/// has no width or is anchored left, at the right edge when anchored right, centered otherwise.
pub open spec fn layer_x(out: Rectangle, st: LayerSurfaceCachedState) -> int {
    if st.size.w == 0 || st.anchor.spec_contains(Anchor::LEFT) {
        out.loc.x as int
    } else if st.anchor.spec_contains(Anchor::RIGHT) {
        out.loc.x + (out.size.w - st.size.w)
    } else {
        out.loc.x + (tdiv(out.size.w as int, 2) - tdiv(st.size.w as int, 2))
    }
}

/// The vertical position of a layer surface on the output `out`, as `layer_x` with top and
/// bottom.
pub open spec fn layer_y(out: Rectangle, st: LayerSurfaceCachedState) -> int {
    if st.size.h == 0 || st.anchor.spec_contains(Anchor::TOP) {
        out.loc.y as int
    } else if st.anchor.spec_contains(Anchor::BOTTOM) {
        out.loc.y + (out.size.h - st.size.h)
    } else {
        out.loc.y + (tdiv(out.size.h as int, 2) - tdiv(st.size.h as int, 2))
    }
}

pub open spec fn in_i32(v: int) -> bool {
    i32::MIN <= v <= i32::MAX
}

/// Every intermediate value of the placement of `st` on `out` is an `i32`.
pub open spec fn placement_fits(out: Rectangle, st: LayerSurfaceCachedState) -> bool {
    &&& in_i32(out.size.w - st.size.w)
    &&& in_i32(out.size.h - st.size.h)
    &&& in_i32(out.loc.x + (out.size.w - st.size.w))
    &&& in_i32(out.loc.y + (out.size.h - st.size.h))
    &&& in_i32(tdiv(out.size.w as int, 2) - tdiv(st.size.w as int, 2))
    &&& in_i32(tdiv(out.size.h as int, 2) - tdiv(st.size.h as int, 2))
    &&& in_i32(out.loc.x + (tdiv(out.size.w as int, 2) - tdiv(st.size.w as int, 2)))
    &&& in_i32(out.loc.y + (tdiv(out.size.h as int, 2) - tdiv(st.size.h as int, 2)))
}

/// A layer surface after its output `out` was arranged: a live surface is placed and gets a
/// configure with the output's size; a dead one is left as it is.
pub open spec fn arranged(l: LayerSurface, out: Rectangle) -> LayerSurface {
    match l.state {
        Some(st) => LayerSurface {
            location: Point { x: layer_x(out, st) as i32, y: layer_y(out, st) as i32 },
            pending_size: Some(out.size),
            configure_pending: true,
            ..l
        },
        None => l,
    }
}

/// A live layer surface is placed by its anchors on the output `out`: anchored left (or of no
/// width) at the left edge, anchored right only at the right edge, and likewise top and
/// bottom; anchored to neither side of an axis, it is centered on that axis (both halves
/// rounded down).
pub proof fn law_layers_are_placed_by_their_anchors(l: LayerSurface, out: Rectangle)
    requires
        l.state is Some,
        placement_fits(out, l.state->0),
    ensures
        ({
            let st = l.state->0;
            let p = arranged(l, out).location;
            &&& (st.anchor.spec_contains(Anchor::LEFT) || st.size.w == 0) ==> p.x == out.loc.x
            &&& (st.anchor.spec_contains(Anchor::TOP) || st.size.h == 0) ==> p.y == out.loc.y
            &&& (!st.anchor.spec_contains(Anchor::LEFT) && st.anchor.spec_contains(Anchor::RIGHT)
                && st.size.w != 0) ==> p.x + st.size.w == out.loc.x + out.size.w
            &&& (!st.anchor.spec_contains(Anchor::TOP) && st.anchor.spec_contains(Anchor::BOTTOM)
                && st.size.h != 0) ==> p.y + st.size.h == out.loc.y + out.size.h
            &&& (!st.anchor.spec_contains(Anchor::LEFT) && !st.anchor.spec_contains(Anchor::RIGHT)
                && st.size.w > 0 && out.size.w >= 0) ==> p.x - out.loc.x == out.size.w / 2
                - st.size.w / 2
            &&& (!st.anchor.spec_contains(Anchor::TOP) && !st.anchor.spec_contains(Anchor::BOTTOM)
                && st.size.h > 0 && out.size.h >= 0) ==> p.y - out.loc.y == out.size.h / 2
                - st.size.h / 2
        }),
{
}

/// An edge of an output.
#[derive(Clone, Copy, Debug, PartialEq, Eq, Structural)]
pub enum Edge {
    Top,
    Bottom,
    Left,
    Right,
}

/// The anchors whose exclusive zone is reserved at `edge`: the edge alone, or the edge and
/// both edges next to it.
pub open spec fn reserves(anchor: Anchor, edge: Edge) -> bool {
    match edge {
        Edge::Top => anchor.bits == Anchor::TOP || anchor.bits == (Anchor::TOP | Anchor::LEFT
            | Anchor::RIGHT),
        Edge::Bottom => anchor.bits == Anchor::BOTTOM || anchor.bits == (Anchor::BOTTOM
            | Anchor::LEFT | Anchor::RIGHT),
        Edge::Left => anchor.bits == Anchor::LEFT || anchor.bits == (Anchor::LEFT
            | Anchor::BOTTOM | Anchor::TOP),
        Edge::Right => anchor.bits == Anchor::RIGHT || anchor.bits == (Anchor::RIGHT
            | Anchor::BOTTOM | Anchor::TOP),
    }
}

/// The values of the anchor combinations that reserve a zone.
pub proof fn lemma_anchor_combinations()
    ensures
        (Anchor::TOP | Anchor::LEFT | Anchor::RIGHT) == 13u32,
        (Anchor::BOTTOM | Anchor::LEFT | Anchor::RIGHT) == 14u32,
        (Anchor::LEFT | Anchor::BOTTOM | Anchor::TOP) == 7u32,
        (Anchor::RIGHT | Anchor::BOTTOM | Anchor::TOP) == 11u32,
{
    assert((1u32 | 4u32 | 8u32) == 13u32) by (bit_vector);
    assert((2u32 | 4u32 | 8u32) == 14u32) by (bit_vector);
    assert((4u32 | 2u32 | 1u32) == 7u32) by (bit_vector);
    assert((8u32 | 2u32 | 1u32) == 11u32) by (bit_vector);
}

/// What `l` reserves at `edge`.
pub open spec fn zone_of(l: LayerSurface, edge: Edge) -> nat {
    match l.state {
        Some(st) => match st.exclusive_zone {
            ExclusiveZone::Exclusive(v) => if reserves(st.anchor, edge) {
                v as nat
            } else {
                0
            },
            _ => 0,
        },
        None => 0,
    }
}

/// What the surfaces `ls` reserve together at `edge`.
pub open spec fn zone_sum(ls: Seq<LayerSurface>, edge: Edge) -> nat
    decreases ls.len(),
{
    if ls.len() == 0 {
        0
    } else {
        zone_sum(ls.drop_last(), edge) + zone_of(ls.last(), edge)
    }
}

/// A prefix reserves no more than the whole.
pub proof fn lemma_zone_sum_prefix(ls: Seq<LayerSurface>, edge: Edge, i: int)
    requires
        0 <= i <= ls.len(),
    ensures
        zone_sum(ls.take(i), edge) <= zone_sum(ls, edge),
    decreases ls.len(),
{
    if i < ls.len() {
        lemma_zone_sum_prefix(ls.drop_last(), edge, i);
        assert(ls.drop_last().take(i) =~= ls.take(i));
    } else {
        assert(ls.take(i) =~= ls);
    }
}

/// The surfaces `ls` after their output `out` was arranged.
pub open spec fn arranged_all(ls: Seq<LayerSurface>, out: Rectangle) -> Seq<LayerSurface> {
    ls.map_values(|l: LayerSurface| arranged(l, out))
}

/// Arranging again on the same output changes nothing: the places and configures depend only
/// on the surfaces' states and the output, and so do the reserved zones. Arranging keeps the
/// surfaces, their order and their states, and leaves a surface without a live state where it
/// is and unconfigured.
pub proof fn law_arange_twice_is_arange_once(ls: Seq<LayerSurface>, out: Rectangle, edge: Edge)
    ensures
        arranged_all(arranged_all(ls, out), out) == arranged_all(ls, out),
        zone_sum(arranged_all(ls, out), edge) == zone_sum(ls, edge),
        arranged_all(ls, out).len() == ls.len(),
        forall|i: int|
            0 <= i < ls.len() ==> (#[trigger] arranged_all(ls, out)[i]).state == ls[i].state
                && arranged_all(ls, out)[i].id == ls[i].id,
        forall|i: int|
            0 <= i < ls.len() && ls[i].state is None ==> (#[trigger] arranged_all(ls, out)[i]) == ls[i],
    decreases ls.len(),
{
    let a = arranged_all(ls, out);
    assert(arranged_all(a, out) =~= a);
    if ls.len() > 0 {
        law_arange_twice_is_arange_once(ls.drop_last(), out, edge);
        assert(a.drop_last() =~= arranged_all(ls.drop_last(), out));
        assert(a.last() == arranged(ls.last(), out));
    }
}

/// The surfaces, in order, of `layer` that may lie under `p`: live surfaces of that layer whose
/// bounding box holds `p`.
pub open spec fn layer_candidates(ls: Seq<LayerSurface>, layer: Layer, p: Point) -> Seq<SurfaceId>
    decreases ls.len(),
{
    if ls.len() == 0 {
        Seq::empty()
    } else {
        let rest = layer_candidates(ls.drop_last(), layer, p);
        let l = ls.last();
        if l.layer == layer && l.bbox.spec_contains(p) && l.state is Some {
            rest.push(l.id)
        } else {
            rest
        }
    }
}

/// The indices, bottom to top, of the surfaces of `layer` among the first `n` of `ls`.
pub open spec fn bottom_to_top(ls: Seq<LayerSurface>, layer: Layer, n: int) -> Seq<usize>
    decreases n,
{
    if n <= 0 {
        Seq::empty()
    } else if ls[n - 1].layer == layer {
        seq![(n - 1) as usize] + bottom_to_top(ls, layer, n - 1)
    } else {
        bottom_to_top(ls, layer, n - 1)
    }
}

/// The live surfaces of `ls`, in order.
pub open spec fn alive_only(ls: Seq<LayerSurface>) -> Seq<LayerSurface>
    decreases ls.len(),
{
    if ls.len() == 0 {
        ls
    } else if ls.last().state is Some {
        alive_only(ls.drop_last()).push(ls.last())
    } else {
        alive_only(ls.drop_last())
    }
}

/// The layer surfaces of an output, the most recently mapped first.
#[derive(Debug)]
pub struct LayerMap {
    pub surfaces: Vec<LayerSurface>,
    pub exclusive_zone: LayerExclusiveZone,
}

impl LayerMap {
    pub fn new() -> (m: LayerMap)
        ensures
            m.surfaces@ == Seq::<LayerSurface>::empty(),
            m.exclusive_zone == (LayerExclusiveZone { top: 0, bottom: 0, left: 0, right: 0 }),
    {
        LayerMap { surfaces: Vec::new(), exclusive_zone: LayerExclusiveZone::new() }
    }

    pub fn exclusive_zone(&self) -> (z: &LayerExclusiveZone)
        ensures
            *z == self.exclusive_zone,
    {
        &self.exclusive_zone
    }

    /// Map `layer` in front of the others, after updating it.
    pub fn insert(&mut self, layer: LayerSurface)
        requires
            layer.update_fits(),
        ensures
            final(self).surfaces@ == seq![layer.spec_self_update()] + old(self).surfaces@,
            final(self).exclusive_zone == old(self).exclusive_zone,
    {
        let mut layer = layer;
        layer.self_update();
        self.surfaces.insert(0, layer);
        assert(self.surfaces@ =~= seq![layer] + old(self).surfaces@);
    }

    /// The surfaces of `layer` that may lie under `point`, in the order they are tried; the
    /// surface trees decide which of them is hit.
    pub fn get_surface_under(&self, layer: Layer, point: Point) -> (r: Vec<SurfaceId>)
        ensures
            r@ == layer_candidates(self.surfaces@, layer, point),
    {
        let mut r: Vec<SurfaceId> = Vec::new();
        let n = self.surfaces.len();
        for i in 0..n
            invariant
                n == self.surfaces.len(),
                r@ == layer_candidates(self.surfaces@.take(i as int), layer, point),
        {
            assert(self.surfaces@.take(i + 1).drop_last() =~= self.surfaces@.take(i as int));
            let l = &self.surfaces[i];
            if l.layer == layer && l.bbox.contains(point) && l.state.is_some() {
                r.push(l.id);
            }
        }
        assert(self.surfaces@.take(n as int) =~= self.surfaces@);
        r
    }

    /// The indices of the surfaces of `layer`, from the bottom one to the top one.
    pub fn with_layers_from_bottom_to_top(&self, layer: Layer) -> (r: Vec<usize>)
        ensures
            r@ == bottom_to_top(self.surfaces@, layer, self.surfaces@.len() as int),
    {
        let mut r: Vec<usize> = Vec::new();
        let mut i = self.surfaces.len();
        while i > 0
            invariant
                i <= self.surfaces.len(),
                r@ + bottom_to_top(self.surfaces@, layer, i as int) == bottom_to_top(
                    self.surfaces@,
                    layer,
                    self.surfaces@.len() as int,
                ),
            decreases i,
        {
            let ghost before = r@;
            if self.surfaces[i - 1].layer == layer {
                r.push(i - 1);
                assert(before + bottom_to_top(self.surfaces@, layer, i as int) =~= r@
                    + bottom_to_top(self.surfaces@, layer, i - 1));
            }
            i = i - 1;
        }
        assert(r@ + bottom_to_top(self.surfaces@, layer, 0) =~= r@);
        r
    }

    /// Forget the surfaces that are gone.
    pub fn refresh(&mut self)
        ensures
            final(self).surfaces@ == alive_only(old(self).surfaces@),
            final(self).exclusive_zone == old(self).exclusive_zone,
    {
        let mut kept: Vec<LayerSurface> = Vec::new();
        let n = self.surfaces.len();
        for i in 0..n
            invariant
                n == self.surfaces.len(),
                self.surfaces@ == old(self).surfaces@,
                kept@ == alive_only(self.surfaces@.take(i as int)),
        {
            assert(self.surfaces@.take(i + 1).drop_last() =~= self.surfaces@.take(i as int));
            if self.surfaces[i].state.is_some() {
                kept.push(self.surfaces[i]);
            }
        }
        assert(self.surfaces@.take(n as int) =~= self.surfaces@);
        self.surfaces = kept;
    }

    /// The live layer surface of surface `id`, the front one if there are several.
    pub fn find(&self, id: SurfaceId) -> (r: Option<&LayerSurface>)
        ensures
            match r {
                Some(l) => exists|k: int|
                    0 <= k < self.surfaces.len() && *l == self.surfaces@[k] && l.id == id
                        && l.state is Some && forall|j: int|
                        0 <= j < k ==> !((#[trigger] self.surfaces@[j]).id == id
                            && self.surfaces@[j].state is Some),
                None => forall|j: int|
                    0 <= j < self.surfaces.len() ==> !((#[trigger] self.surfaces@[j]).id == id
                        && self.surfaces@[j].state is Some),
            },
    {
        let n = self.surfaces.len();
        for i in 0..n
            invariant
                n == self.surfaces.len(),
                forall|j: int|
                    0 <= j < i ==> !((#[trigger] self.surfaces@[j]).id == id
                        && self.surfaces@[j].state is Some),
        {
            if self.surfaces[i].id == id && self.surfaces[i].state.is_some() {
                return Some(&self.surfaces[i]);
            }
        }
        None
    }

    /// Place every live surface on the output `output_rect`, configure it with the output's
    /// size, and recompute the zones reserved at the output's edges.
    pub fn arange(&mut self, output_rect: Rectangle)
        requires
            forall|i: int|
                0 <= i < old(self).surfaces.len() ==> match (#[trigger] old(self).surfaces@[i]).state {
                    Some(st) => placement_fits(output_rect, st),
                    None => true,
                },
            zone_sum(old(self).surfaces@, Edge::Top) <= u32::MAX,
            zone_sum(old(self).surfaces@, Edge::Bottom) <= u32::MAX,
            zone_sum(old(self).surfaces@, Edge::Left) <= u32::MAX,
            zone_sum(old(self).surfaces@, Edge::Right) <= u32::MAX,
        ensures
            final(self).surfaces@ == old(self).surfaces@.map_values(
                |l: LayerSurface| arranged(l, output_rect),
            ),
            final(self).exclusive_zone == (LayerExclusiveZone {
                top: zone_sum(old(self).surfaces@, Edge::Top) as u32,
                bottom: zone_sum(old(self).surfaces@, Edge::Bottom) as u32,
                left: zone_sum(old(self).surfaces@, Edge::Left) as u32,
                right: zone_sum(old(self).surfaces@, Edge::Right) as u32,
            }),
    {
        let ghost ls = self.surfaces@;
        self.exclusive_zone = LayerExclusiveZone::new();
        let n = self.surfaces.len();
        for i in 0..n
            invariant
                n == self.surfaces.len(),
                n == ls.len(),
                forall|j: int|
                    0 <= j < n ==> match (#[trigger] ls[j]).state {
                        Some(st) => placement_fits(output_rect, st),
                        None => true,
                    },
                zone_sum(ls, Edge::Top) <= u32::MAX,
                zone_sum(ls, Edge::Bottom) <= u32::MAX,
                zone_sum(ls, Edge::Left) <= u32::MAX,
                zone_sum(ls, Edge::Right) <= u32::MAX,
                forall|j: int| 0 <= j < i ==> self.surfaces@[j] == arranged(#[trigger] ls[j], output_rect),
                forall|j: int| i <= j < n ==> self.surfaces@[j] == #[trigger] ls[j],
                self.exclusive_zone.top == zone_sum(ls.take(i as int), Edge::Top),
                self.exclusive_zone.bottom == zone_sum(ls.take(i as int), Edge::Bottom),
                self.exclusive_zone.left == zone_sum(ls.take(i as int), Edge::Left),
                self.exclusive_zone.right == zone_sum(ls.take(i as int), Edge::Right),
        {
            assert(ls.take(i + 1).drop_last() =~= ls.take(i as int));
            proof {
                lemma_anchor_combinations();
                lemma_zone_sum_prefix(ls, Edge::Top, i + 1);
                lemma_zone_sum_prefix(ls, Edge::Bottom, i + 1);
                lemma_zone_sum_prefix(ls, Edge::Left, i + 1);
                lemma_zone_sum_prefix(ls, Edge::Right, i + 1);
                assert(ls.take(i + 1).last() == ls[i as int]);
                assert(zone_sum(ls.take(i + 1), Edge::Top) == zone_sum(ls.take(i as int), Edge::Top)
                    + zone_of(ls[i as int], Edge::Top));
                assert(zone_sum(ls.take(i + 1), Edge::Bottom) == zone_sum(ls.take(i as int), Edge::Bottom)
                    + zone_of(ls[i as int], Edge::Bottom));
                assert(zone_sum(ls.take(i + 1), Edge::Left) == zone_sum(ls.take(i as int), Edge::Left)
                    + zone_of(ls[i as int], Edge::Left));
                assert(zone_sum(ls.take(i + 1), Edge::Right) == zone_sum(ls.take(i as int), Edge::Right)
                    + zone_of(ls[i as int], Edge::Right));
            }
            let state = self.surfaces[i].state;
            match state {
                Some(data) => {
                    let x = if data.size.w == 0 || data.anchor.contains(Anchor::LEFT) {
                        output_rect.loc.x
                    } else if data.anchor.contains(Anchor::RIGHT) {
                        output_rect.loc.x + (output_rect.size.w - data.size.w)
                    } else {
                        output_rect.loc.x + (half(output_rect.size.w) - half(data.size.w))
                    };
                    let y = if data.size.h == 0 || data.anchor.contains(Anchor::TOP) {
                        output_rect.loc.y
                    } else if data.anchor.contains(Anchor::BOTTOM) {
                        output_rect.loc.y + (output_rect.size.h - data.size.h)
                    } else {
                        output_rect.loc.y + (half(output_rect.size.h) - half(data.size.h))
                    };
                    self.surfaces[i].pending_size = Some(output_rect.size);
                    self.surfaces[i].configure_pending = true;
                    self.surfaces[i].location = Point { x, y };
                    match data.exclusive_zone {
                        ExclusiveZone::Exclusive(v) => {
                            let anchor = data.anchor.bits;
                            if anchor == Anchor::TOP {
                                self.exclusive_zone.top = self.exclusive_zone.top + v;
                            }
                            if anchor == (Anchor::TOP | Anchor::LEFT | Anchor::RIGHT) {
                                self.exclusive_zone.top = self.exclusive_zone.top + v;
                            }
                            if anchor == Anchor::BOTTOM {
                                self.exclusive_zone.bottom = self.exclusive_zone.bottom + v;
                            }
                            if anchor == (Anchor::BOTTOM | Anchor::LEFT | Anchor::RIGHT) {
                                self.exclusive_zone.bottom = self.exclusive_zone.bottom + v;
                            }
                            if anchor == Anchor::LEFT {
                                self.exclusive_zone.left = self.exclusive_zone.left + v;
                            }
                            if anchor == (Anchor::LEFT | Anchor::BOTTOM | Anchor::TOP) {
                                self.exclusive_zone.left = self.exclusive_zone.left + v;
                            }
                            if anchor == Anchor::RIGHT {
                                self.exclusive_zone.right = self.exclusive_zone.right + v;
                            }
                            if anchor == (Anchor::RIGHT | Anchor::BOTTOM | Anchor::TOP) {
                                self.exclusive_zone.right = self.exclusive_zone.right + v;
                            }
                        },
                        _ => {},
                    }
                },
                None => {},
            }
        }
        assert(ls.take(n as int) =~= ls);
        assert(self.surfaces@ =~= ls.map_values(|l: LayerSurface| arranged(l, output_rect)));
    }
}

} // verus!
