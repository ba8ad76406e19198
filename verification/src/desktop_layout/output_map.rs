//! The outputs of the layout, placed side by side.

use vstd::prelude::*;

use crate::desktop_layout::layer_map::{
    alive_only, arranged, placement_fits, zone_sum, Edge, LayerExclusiveZone, LayerSurface,
};
use crate::desktop_layout::output::{output_geometry, Mode, Output, OutputView};
use crate::geometry::{Point, Rectangle, Size};
use crate::seqs::{first_where, lemma_first_where, lemma_first_where_found, lemma_first_where_none};

verus! {

/// Where the configuration places the output with index `id`.
#[derive(Clone, Copy, Debug, PartialEq, Eq, Structural)]
pub struct OutputConfiguration {
    pub id: usize,
    pub location: Point,
}

/// The layer surfaces `ls` can be arranged on `rect` without leaving the range of the integers
/// the arrangement computes with.
pub open spec fn layers_fit(ls: Seq<LayerSurface>, rect: Rectangle) -> bool {
    &&& forall|i: int|
        0 <= i < ls.len() ==> match (#[trigger] ls[i]).state {
            Some(st) => placement_fits(rect, st),
            None => true,
        }
    &&& zone_sum(ls, Edge::Top) <= u32::MAX
    &&& zone_sum(ls, Edge::Bottom) <= u32::MAX
    &&& zone_sum(ls, Edge::Left) <= u32::MAX
    &&& zone_sum(ls, Edge::Right) <= u32::MAX
}

/// An output after its layer surfaces were arranged on `rect`.
pub open spec fn arranged_view(v: OutputView, rect: Rectangle) -> OutputView {
    OutputView {
        layers: v.layers.map_values(|l: LayerSurface| arranged(l, rect)),
        zone: LayerExclusiveZone {
            top: zone_sum(v.layers, Edge::Top) as u32,
            bottom: zone_sum(v.layers, Edge::Bottom) as u32,
            left: zone_sum(v.layers, Edge::Left) as u32,
            right: zone_sum(v.layers, Edge::Right) as u32,
        },
        ..v
    }
}

/// An output moved to `loc`, with its layer surfaces arranged there.
pub open spec fn configured(v: OutputView, loc: Point) -> OutputView {
    arranged_view(OutputView { location: loc, ..v }, Rectangle { loc, size: v.size })
}

/// The outputs after configuration `c` was applied; a configuration for a missing output is
/// ignored.
pub open spec fn apply_config(vs: Seq<OutputView>, c: OutputConfiguration) -> Seq<OutputView> {
    if c.id < vs.len() {
        vs.update(c.id as int, configured(vs[c.id as int], c.location))
    } else {
        vs
    }
}

/// The outputs after the configurations `cs` were applied in order.
pub open spec fn apply_configs(vs: Seq<OutputView>, cs: Seq<OutputConfiguration>) -> Seq<OutputView>
    decreases cs.len(),
{
    if cs.len() == 0 {
        vs
    } else {
        apply_config(apply_configs(vs, cs.drop_last()), cs.last())
    }
}

/// Each configuration can be applied to the output it names.
pub open spec fn configs_fit(vs: Seq<OutputView>, cs: Seq<OutputConfiguration>) -> bool {
    forall|j: int|
        0 <= j < cs.len() && (#[trigger] cs[j]).id < vs.len() ==> layers_fit(
            vs[cs[j].id as int].layers,
            Rectangle { loc: cs[j].location, size: vs[cs[j].id as int].size },
        )
}

/// Two lists of layer surfaces whose surfaces hold the same committed states.
pub open spec fn same_states(a: Seq<LayerSurface>, b: Seq<LayerSurface>) -> bool {
    a.len() == b.len() && forall|i: int| 0 <= i < a.len() ==> (#[trigger] a[i]).state == b[i].state
}

/// Two lists of outputs that differ at most in locations and in what the layer surfaces were
/// told.
pub open spec fn same_outputs(a: Seq<OutputView>, b: Seq<OutputView>) -> bool {
    a.len() == b.len() && forall|i: int|
        0 <= i < a.len() ==> (#[trigger] a[i]).size == b[i].size && a[i].name == b[i].name
            && a[i].id == b[i].id && same_states(a[i].layers, b[i].layers)
}

/// The reserved zones depend only on the committed states.
pub proof fn lemma_zone_sum_same_states(a: Seq<LayerSurface>, b: Seq<LayerSurface>, e: Edge)
    requires
        same_states(a, b),
    ensures
        zone_sum(a, e) == zone_sum(b, e),
    decreases a.len(),
{
    if a.len() > 0 {
        assert(a.last().state == b.last().state);
        lemma_zone_sum_same_states(a.drop_last(), b.drop_last(), e);
    }
}

/// Whether the layers fit is decided by the committed states.
pub proof fn lemma_layers_fit_same_states(a: Seq<LayerSurface>, b: Seq<LayerSurface>, r: Rectangle)
    requires
        same_states(a, b),
        layers_fit(b, r),
    ensures
        layers_fit(a, r),
{
    lemma_zone_sum_same_states(a, b, Edge::Top);
    lemma_zone_sum_same_states(a, b, Edge::Bottom);
    lemma_zone_sum_same_states(a, b, Edge::Left);
    lemma_zone_sum_same_states(a, b, Edge::Right);
    assert forall|i: int| 0 <= i < a.len() implies match (#[trigger] a[i]).state {
        Some(st) => placement_fits(r, st),
        None => true,
    } by {
        assert(a[i].state == b[i].state);
    }
}

/// The sum of the widths of the outputs `vs`.
pub open spec fn total_width(vs: Seq<OutputView>) -> int
    decreases vs.len(),
{
    if vs.len() == 0 {
        0
    } else {
        total_width(vs.drop_last()) + vs.last().size.w
    }
}

/// Every partial sum of the widths is an `i32`.
pub open spec fn widths_fit(vs: Seq<OutputView>) -> bool {
    forall|i: int| 0 <= i <= vs.len() ==> i32::MIN <= #[trigger] total_width(vs.take(i)) <= i32::MAX
}

/// The output spans the column `x`.
pub open spec fn spans_x(v: OutputView, x: i32) -> bool {
    v.location.x <= x < v.location.x + v.size.w
}

pub open spec fn spans(x: i32) -> spec_fn(OutputView) -> bool {
    |v: OutputView| spans_x(v, x)
}

/// The output is named `name`.
pub open spec fn has_name(name: Seq<char>) -> spec_fn(OutputView) -> bool {
    |v: OutputView| v.name == name
}

/// The output is the one of the `wl_output` global `id`.
pub open spec fn has_id(id: u64) -> spec_fn(OutputView) -> bool {
    |v: OutputView| v.id == id
}

/// The output covers the point `p`.
pub open spec fn covers(p: Point) -> spec_fn(OutputView) -> bool {
    |v: OutputView| output_geometry(v).spec_contains(p)
}

/// Applying configurations keeps the outputs.
pub proof fn lemma_apply_configs_len(vs: Seq<OutputView>, cs: Seq<OutputConfiguration>)
    ensures
        apply_configs(vs, cs).len() == vs.len(),
    decreases cs.len(),
{
    if cs.len() > 0 {
        lemma_apply_configs_len(vs, cs.drop_last());
    }
}

/// Every output's right edge is an `i32`.
pub open spec fn right_edges_fit(vs: Seq<OutputView>) -> bool {
    forall|i: int|
        0 <= i < vs.len() ==> i32::MIN <= (#[trigger] vs[i]).location.x + vs[i].size.w <= i32::MAX
}

/// The outputs are laid out from the origin to the right, each one starting where the ones
/// before it end.
pub open spec fn side_by_side(vs: Seq<OutputView>) -> bool {
    forall|i: int|
        0 <= i < vs.len() ==> (#[trigger] vs[i]).location == (Point {
            x: total_width(vs.take(i)) as i32,
            y: 0,
        })
}

/// The width of one more output.
pub proof fn lemma_total_width_take(vs: Seq<OutputView>, i: int)
    requires
        0 <= i < vs.len(),
    ensures
        total_width(vs.take(i + 1)) == total_width(vs.take(i)) + vs[i].size.w,
{
    assert(vs.take(i + 1).drop_last() =~= vs.take(i));
}

/// With no negative width, the outputs before another end no further right than it starts.
pub proof fn lemma_total_width_monotonic(vs: Seq<OutputView>, a: int, b: int)
    requires
        0 <= a <= b <= vs.len(),
        forall|k: int| 0 <= k < vs.len() ==> (#[trigger] vs[k]).size.w >= 0,
    ensures
        total_width(vs.take(a)) <= total_width(vs.take(b)),
    decreases b - a,
{
    if a < b {
        lemma_total_width_take(vs, b - 1);
        lemma_total_width_monotonic(vs, a, b - 1);
    }
}

/// Adding an output without configurations keeps the outputs side by side: the new one starts
/// where the others end.
pub proof fn law_add_keeps_outputs_side_by_side(vs: Seq<OutputView>, v: OutputView)
    requires
        side_by_side(vs),
    ensures
        side_by_side(apply_configs(vs.push(placed(v, vs)), Seq::<OutputConfiguration>::empty())),
{
    let ws = vs.push(placed(v, vs));
    assert(apply_configs(ws, Seq::<OutputConfiguration>::empty()) == ws);
    assert forall|i: int| 0 <= i < ws.len() implies (#[trigger] ws[i]).location == (Point {
        x: total_width(ws.take(i)) as i32,
        y: 0,
    }) by {
        assert(ws.take(i) =~= vs.take(i));
        if i == vs.len() {
            assert(vs.take(i) =~= vs);
        }
    }
}

/// Outputs side by side, none of negative width, do not overlap: no column is spanned by two
/// of them.
pub proof fn law_side_by_side_outputs_do_not_overlap(vs: Seq<OutputView>, i: int, j: int, x: i32)
    requires
        side_by_side(vs),
        widths_fit(vs),
        forall|k: int| 0 <= k < vs.len() ==> (#[trigger] vs[k]).size.w >= 0,
        0 <= i < vs.len(),
        0 <= j < vs.len(),
        i != j,
        spans_x(vs[i], x),
    ensures
        !spans_x(vs[j], x),
{
    let (a, b) = if i < j { (i, j) } else { (j, i) };
    lemma_total_width_take(vs, a);
    lemma_total_width_monotonic(vs, a + 1, b);
    assert(i32::MIN <= total_width(vs.take(a)) <= i32::MAX);
    assert(i32::MIN <= total_width(vs.take(b)) <= i32::MAX);
}

/// The output the layout places the next one after: at the current total width, on the top
/// edge.
pub open spec fn placed(v: OutputView, vs: Seq<OutputView>) -> OutputView {
    OutputView { location: Point { x: total_width(vs) as i32, y: 0 }, ..v }
}

/// The outputs after the first one named `name` took `mode` and the logical size `size`.
pub open spec fn updated(
    vs: Seq<OutputView>,
    name: Seq<char>,
    mode: Option<Mode>,
    size: Option<Size>,
) -> Seq<OutputView> {
    match first_where(vs, has_name(name)) {
        Some(k) => vs.update(
            k,
            OutputView {
                mode: match mode {
                    Some(m) => m,
                    None => vs[k].mode,
                },
                size: match size {
                    Some(s) => s,
                    None => vs[k].size,
                },
                ..vs[k]
            },
        ),
        None => vs,
    }
}

/// The output a new layer surface goes to: the one of the `wl_output` it asked for, or else the
/// first one.
pub open spec fn layer_target(vs: Seq<OutputView>, output: Option<u64>) -> Option<int> {
    let asked = match output {
        Some(id) => first_where(vs, has_id(id)),
        None => None,
    };
    match asked {
        Some(k) => Some(k),
        None => if vs.len() > 0 {
            Some(0)
        } else {
            None
        },
    }
}

/// An output after the layer surfaces that are gone were forgotten.
pub open spec fn refreshed_view(v: OutputView) -> OutputView {
    OutputView { layers: alive_only(v.layers), ..v }
}

/// The outputs after a new layer surface was mapped on the output it goes to and that output's
/// layer surfaces were arranged.
pub open spec fn with_layer(vs: Seq<OutputView>, output: Option<u64>, layer: LayerSurface) -> Seq<
    OutputView,
> {
    match layer_target(vs, output) {
        Some(k) => vs.update(
            k,
            arranged_view(
                OutputView { layers: seq![layer.spec_self_update()] + vs[k].layers, ..vs[k] },
                output_geometry(vs[k]),
            ),
        ),
        None => vs,
    }
}

/// The outputs of the layout.
#[derive(Debug)]
pub struct OutputMap {
    pub outputs: Vec<Output>,
}

impl View for OutputMap {
    type V = Seq<OutputView>;

    open spec fn view(&self) -> Seq<OutputView> {
        self.outputs@.map_values(|o: Output| o@)
    }
}

impl OutputMap {
    pub fn new() -> (m: OutputMap)
        ensures
            m@ == Seq::<OutputView>::empty(),
    {
        let m = OutputMap { outputs: Vec::new() };
        assert(m@ =~= Seq::<OutputView>::empty());
        m
    }

    /// Apply the configurations in order: each moves the output it names and arranges that
    /// output's layer surfaces at the new place.
    pub fn arrange(&mut self, configs: &Vec<OutputConfiguration>)
        requires
            configs_fit(old(self)@, configs@),
        ensures
            final(self)@ == apply_configs(old(self)@, configs@),
    {
        let ghost vs = self@;
        let n = configs.len();
        for i in 0..n
            invariant
                n == configs.len(),
                configs_fit(vs, configs@),
                self@ == apply_configs(vs, configs@.take(i as int)),
                same_outputs(self@, vs),
        {
            let c = configs[i];
            assert(configs@.take(i + 1).drop_last() =~= configs@.take(i as int));
            assert(configs@.take(i + 1).last() == c);
            if c.id < self.outputs.len() {
                let ghost before = self@;
                proof {
                    let j = c.id as int;
                    assert(configs@[i as int] == c);
                    assert(same_states(before[j].layers, vs[j].layers));
                    lemma_layers_fit_same_states(
                        before[j].layers,
                        vs[j].layers,
                        Rectangle { loc: c.location, size: vs[j].size },
                    );
                }
                self.outputs[c.id].location = c.location;
                let g = self.outputs[c.id].geometry();
                self.outputs[c.id].layer_map.arange(g);
                assert(self@ =~= before.update(
                    c.id as int,
                    configured(before[c.id as int], c.location),
                ));
                assert forall|k: int| 0 <= k < self@.len() implies (#[trigger] self@[k]).size
                    == vs[k].size && self@[k].name == vs[k].name && self@[k].id == vs[k].id
                    && same_states(self@[k].layers, vs[k].layers) by {
                    if k == c.id {
                        assert(same_states(before[k].layers, vs[k].layers));
                    }
                }
            }
        }
        assert(configs@.take(n as int) =~= configs@);
    }

    /// Append `output` to the right of the others, then apply the configurations.
    pub fn add(&mut self, output: Output, configs: &Vec<OutputConfiguration>) -> (r: &Output)
        requires
            widths_fit(old(self)@),
            configs_fit(old(self)@.push(placed(output@, old(self)@)), configs@),
        ensures
            final(self)@ == apply_configs(old(self)@.push(placed(output@, old(self)@)), configs@),
            r@ == final(self)@.last(),
    {
        let mut output = output;
        let x = self.width();
        output.location = Point { x, y: 0 };
        self.outputs.push(output);
        assert(self@ =~= old(self)@.push(placed(output@, old(self)@)));
        self.arrange(configs);
        proof {
            lemma_apply_configs_len(old(self)@.push(placed(output@, old(self)@)), configs@);
            assert(self@.len() == self.outputs@.len());
        }
        let last = self.outputs.len() - 1;
        &self.outputs[last]
    }

    /// The sum of the widths of the outputs.
    pub fn width(&self) -> (w: i32)
        requires
            widths_fit(self@),
        ensures
            w == total_width(self@),
    {
        let mut w: i32 = 0;
        let n = self.outputs.len();
        for i in 0..n
            invariant
                n == self.outputs.len(),
                n == self@.len(),
                widths_fit(self@),
                w == total_width(self@.take(i as int)),
        {
            assert(self@.take(i + 1).drop_last() =~= self@.take(i as int));
            assert(self@.take(i + 1).last() == self.outputs@[i as int]@);
            assert(i32::MIN <= total_width(self@.take(i + 1)) <= i32::MAX);
            w = w + self.outputs[i].size.w;
        }
        assert(self@.take(n as int) =~= self@);
        w
    }

    /// The height of the first output that spans the column `x`.
    pub fn height(&self, x: i32) -> (h: Option<i32>)
        requires
            right_edges_fit(self@),
        ensures
            h == (match first_where(self@, spans(x)) {
                Some(k) => Some(self@[k].size.h),
                None => None::<i32>,
            }),
    {
        let ghost pred = spans(x);
        let n = self.outputs.len();
        for i in 0..n
            invariant
                pred == spans(x),
                n == self.outputs.len(),
                n == self@.len(),
                right_edges_fit(self@),
                forall|j: int| 0 <= j < i ==> !pred(#[trigger] self@[j]),
        {
            let g = self.outputs[i].geometry();
            assert(self@[i as int] == self.outputs@[i as int]@);
            if x >= g.loc.x && x < g.loc.x + g.size.w {
                proof {
                    assert(pred(self@[i as int]));
                    lemma_first_where_found(self@, pred, i as int);
                }
                return Some(self.outputs[i].size.h);
            }
        }
        proof {
            lemma_first_where_none(self@, pred);
        }
        None
    }

    pub fn is_empty(&self) -> (b: bool)
        ensures
            b == (self@.len() == 0),
    {
        self.outputs.len() == 0
    }

    /// The first output.
    pub fn with_primary(&self) -> (r: Option<&Output>)
        ensures
            match r {
                Some(o) => self@.len() > 0 && o@ == self@[0],
                None => self@.len() == 0,
            },
    {
        if self.outputs.len() > 0 {
            Some(&self.outputs[0])
        } else {
            None
        }
    }

    /// The output with index `index`.
    pub fn find_by_index(&self, index: usize) -> (r: Option<&Output>)
        ensures
            match r {
                Some(o) => index < self@.len() && o@ == self@[index as int],
                None => index >= self@.len(),
            },
    {
        if index < self.outputs.len() {
            Some(&self.outputs[index])
        } else {
            None
        }
    }

    /// The first output of the `wl_output` global `id`.
    pub fn find_by_output(&self, id: u64) -> (r: Option<usize>)
        ensures
            r matches Some(k) ==> first_where(self@, has_id(id)) == Some(k as int),
            r is None ==> first_where(self@, has_id(id)) is None,
    {
        let ghost pred = has_id(id);
        let n = self.outputs.len();
        for i in 0..n
            invariant
                pred == has_id(id),
                n == self.outputs.len(),
                n == self@.len(),
                forall|j: int| 0 <= j < i ==> !pred(#[trigger] self@[j]),
        {
            assert(self@[i as int] == self.outputs@[i as int]@);
            if self.outputs[i].id == id {
                proof {
                    assert(pred(self@[i as int]));
                    lemma_first_where_found(self@, pred, i as int);
                }
                return Some(i);
            }
        }
        proof {
            lemma_first_where_none(self@, pred);
        }
        None
    }

    /// The index of the first output named `name`.
    pub fn position_by_name(&self, name: &str) -> (r: Option<usize>)
        ensures
            r matches Some(k) ==> first_where(self@, has_name(name@)) == Some(
                k as int,
            ),
            r is None ==> first_where(self@, has_name(name@)) is None,
    {
        let ghost pred = has_name(name@);
        let key = name.to_owned();
        let n = self.outputs.len();
        for i in 0..n
            invariant
                pred == has_name(name@),
                n == self.outputs.len(),
                n == self@.len(),
                key@ == name@,
                forall|j: int| 0 <= j < i ==> !pred(#[trigger] self@[j]),
        {
            assert(self@[i as int] == self.outputs@[i as int]@);
            if self.outputs[i].name == key {
                proof {
                    assert(pred(self@[i as int]));
                    lemma_first_where_found(self@, pred, i as int);
                }
                return Some(i);
            }
        }
        proof {
            lemma_first_where_none(self@, pred);
        }
        None
    }

    /// The first output named `name`.
    pub fn find_by_name(&self, name: &str) -> (r: Option<&Output>)
        ensures
            match first_where(self@, has_name(name@)) {
                Some(k) => r matches Some(o) && o@ == self@[k],
                None => r is None,
            },
    {
        let r = self.position_by_name(name);
        proof {
            lemma_first_where(self@, has_name(name@));
        }
        match r {
            Some(k) => Some(&self.outputs[k]),
            None => None,
        }
    }

    /// The first output that covers `position`.
    pub fn find_by_position(&self, position: Point) -> (r: Option<usize>)
        ensures
            r matches Some(k) ==> first_where(
                self@,
                covers(position),
            ) == Some(k as int),
            r is None ==> first_where(
                self@,
                covers(position),
            ) is None,
    {
        let ghost pred = covers(position);
        let n = self.outputs.len();
        for i in 0..n
            invariant
                pred == covers(position),
                n == self.outputs.len(),
                n == self@.len(),
                forall|j: int| 0 <= j < i ==> !pred(#[trigger] self@[j]),
        {
            assert(self@[i as int] == self.outputs@[i as int]@);
            if self.outputs[i].geometry().contains(position) {
                proof {
                    assert(pred(self@[i as int]));
                    lemma_first_where_found(self@, pred, i as int);
                }
                return Some(i);
            }
        }
        proof {
            lemma_first_where_none(self@, pred);
        }
        None
    }

    /// Give the first output named `name` the mode `mode` and the logical size `size` where
    /// they are given, then apply the configurations.
    pub fn update_by_name(
        &mut self,
        mode: Option<Mode>,
        size: Option<Size>,
        name: &str,
        configs: &Vec<OutputConfiguration>,
    )
        requires
            configs_fit(updated(old(self)@, name@, mode, size), configs@),
        ensures
            final(self)@ == apply_configs(updated(old(self)@, name@, mode, size), configs@),
    {
        let r = self.position_by_name(name);
        proof {
            lemma_first_where(self@, has_name(name@));
        }
        match r {
            Some(k) => {
                let ghost before = self@;
                match mode {
                    Some(m) => {
                        self.outputs[k].current_mode = m;
                    },
                    None => {},
                }
                match size {
                    Some(s) => {
                        self.outputs[k].size = s;
                    },
                    None => {},
                }
                assert(self@ =~= updated(before, name@, mode, size));
            },
            None => {},
        }
        self.arrange(configs);
    }

    /// Forget the layer surfaces that are gone.
    pub fn refresh(&mut self)
        ensures
            final(self)@.len() == old(self)@.len(),
            forall|k: int|
                0 <= k < old(self)@.len() ==> (#[trigger] final(self)@[k]) == refreshed_view(old(self)@[k]),
    {
        let n = self.outputs.len();
        for i in 0..n
            invariant
                n == self.outputs.len(),
                n == old(self)@.len(),
                forall|k: int|
                    0 <= k < i ==> (#[trigger] self@[k]) == refreshed_view(old(self)@[k]),
                forall|k: int| i <= k < n ==> (#[trigger] self@[k]) == old(self)@[k],
        {
            let ghost before = self@;
            self.outputs[i].layer_map.refresh();
            assert(self@ =~= before.update(i as int, refreshed_view(before[i as int])));
        }
    }

    /// Arrange the layer surfaces of every output on that output.
    pub fn arrange_layers(&mut self)
        requires
            forall|k: int|
                0 <= k < old(self)@.len() ==> layers_fit(
                    (#[trigger] old(self)@[k]).layers,
                    output_geometry(old(self)@[k]),
                ),
        ensures
            final(self)@ == old(self)@.map_values(
                |v: OutputView| arranged_view(v, output_geometry(v)),
            ),
    {
        let n = self.outputs.len();
        for i in 0..n
            invariant
                n == self.outputs.len(),
                n == old(self)@.len(),
                forall|k: int|
                    0 <= k < n ==> layers_fit(
                        (#[trigger] old(self)@[k]).layers,
                        output_geometry(old(self)@[k]),
                    ),
                forall|k: int|
                    0 <= k < i ==> (#[trigger] self@[k]) == arranged_view(
                        old(self)@[k],
                        output_geometry(old(self)@[k]),
                    ),
                forall|k: int| i <= k < n ==> (#[trigger] self@[k]) == old(self)@[k],
        {
            assert(self@[i as int] == old(self)@[i as int]);
            let ghost before = self@;
            let g = self.outputs[i].geometry();
            self.outputs[i].layer_map.arange(g);
            assert(self@ =~= before.update(
                i as int,
                arranged_view(before[i as int], output_geometry(before[i as int])),
            ));
        }
        assert(self@ =~= old(self)@.map_values(
            |v: OutputView| arranged_view(v, output_geometry(v)),
        ));
    }

    /// Map a new layer surface on the output it asked for, or else on the first output, and
    /// arrange that output's layer surfaces.
    pub fn insert_layer(&mut self, output: Option<u64>, layer: LayerSurface)
        requires
            layer.update_fits(),
            match layer_target(old(self)@, output) {
                Some(k) => layers_fit(
                    seq![layer.spec_self_update()] + old(self)@[k].layers,
                    output_geometry(old(self)@[k]),
                ),
                None => true,
            },
        ensures
            final(self)@ == with_layer(old(self)@, output, layer),
    {
        let asked = match output {
            Some(id) => self.find_by_output(id),
            None => None,
        };
        proof {
            match output {
                Some(id) => lemma_first_where(self@, has_id(id)),
                None => {},
            }
        }
        let target = match asked {
            Some(k) => Some(k),
            None => if self.outputs.len() > 0 {
                Some(0)
            } else {
                None
            },
        };
        match target {
            Some(k) => {
                let ghost before = self@;
                let g = self.outputs[k].geometry();
                self.outputs[k].layer_map.insert(layer);
                self.outputs[k].layer_map.arange(g);
                assert(self@ =~= before.update(
                    k as int,
                    arranged_view(
                        OutputView {
                            layers: seq![layer.spec_self_update()] + before[k as int].layers,
                            ..before[k as int]
                        },
                        output_geometry(before[k as int]),
                    ),
                ));
            },
            None => {},
        }
    }
}

} // verus!
