//! Outputs, layer surfaces, windows and the workspaces shown on the outputs.

pub mod layer_map;
pub mod output;
pub mod output_map;
pub mod window;
pub mod window_list;

use vstd::prelude::*;

use crate::decimal::{decimal, to_decimal};
use crate::desktop_layout::layer_map::{
    arranged_all, law_arange_twice_is_arange_once, layer_candidates, placement_fits, Edge, Layer,
    LayerSurface,
};
use crate::desktop_layout::window::{SurfaceId, Window};
use crate::desktop_layout::window_list::{has_match, under_candidates};
use crate::desktop_layout::output::{
    output_geometry, output_usable, usable_fits, Mode, Output, OutputView,
};
use crate::desktop_layout::output_map::{
    apply_configs, arranged_view, configs_fit, covers, has_name, layer_target, layers_fit,
    lemma_apply_configs_len, placed, updated, widths_fit, with_layer, OutputConfiguration,
    OutputMap,
};
use crate::geometry::{half, tdiv, Point, Rectangle, Size};
use crate::positioner::tiling::{lemma_tiling_fits_retiled, tiling_fits};
use crate::positioner::universal::{
    fresh, lemma_with_geometry_twice, with_geometry, Universal, UniversalView,
};
use crate::seqs::{
    first_where, lemma_first_where, lemma_first_where_agree, lemma_first_where_found,
    lemma_first_where_none,
};

verus! {

/// A named workspace and the positioner of its windows.
#[derive(Debug)]
pub struct Workspace {
    pub name: String,
    pub positioner: Universal,
}

/// The abstract state of a workspace.
pub struct WorkspaceView {
    pub name: Seq<char>,
    pub positioner: UniversalView,
}

impl View for Workspace {
    type V = WorkspaceView;

    open spec fn view(&self) -> WorkspaceView {
        WorkspaceView { name: self.name@, positioner: self.positioner@ }
    }
}

/// The workspace is named `name`.
pub open spec fn named(name: Seq<char>) -> spec_fn(WorkspaceView) -> bool {
    |w: WorkspaceView| w.name == name
}

/// The index of the workspace named `name`.
pub open spec fn ws_index(ws: Seq<WorkspaceView>, name: Seq<char>) -> Option<int> {
    first_where(ws, named(name))
}

/// The abstract state of the layout.
pub struct AnodiumView {
    pub outputs: Seq<OutputView>,
    pub workspaces: Seq<WorkspaceView>,
    pub active_workspace: Option<Seq<char>>,
    pub pointer_location: Point,
}

/// The workspaces after the one shown on output `o` was given the output's usable area.
pub open spec fn fitted_to(ws: Seq<WorkspaceView>, o: OutputView) -> Seq<WorkspaceView> {
    match ws_index(ws, o.active_workspace) {
        Some(j) => ws.update(
            j,
            WorkspaceView { positioner: with_geometry(ws[j].positioner, output_usable(o)), ..ws[j] },
        ),
        None => ws,
    }
}

/// Fitting the workspace shown on `o` computes in range.
pub open spec fn fitted_to_fits(ws: Seq<WorkspaceView>, o: OutputView) -> bool {
    match ws_index(ws, o.active_workspace) {
        Some(j) => usable_fits(output_geometry(o), o.zone) && tiling_fits(
            output_usable(o),
            ws[j].positioner.tiling,
        ),
        None => true,
    }
}

/// The workspaces after each output in turn gave its usable area to the workspace it shows.
pub open spec fn fitted(ws: Seq<WorkspaceView>, outs: Seq<OutputView>) -> Seq<WorkspaceView>
    decreases outs.len(),
{
    if outs.len() == 0 {
        ws
    } else {
        fitted_to(fitted(ws, outs.drop_last()), outs.last())
    }
}

/// Every step of `fitted(ws, outs)` computes in range.
pub open spec fn fitting_fits(ws: Seq<WorkspaceView>, outs: Seq<OutputView>) -> bool
    decreases outs.len(),
{
    if outs.len() == 0 {
        true
    } else {
        fitting_fits(ws, outs.drop_last()) && fitted_to_fits(
            fitted(ws, outs.drop_last()),
            outs.last(),
        )
    }
}

/// The steps of a prefix compute in range when all steps do.
pub proof fn lemma_fitting_fits_prefix(ws: Seq<WorkspaceView>, outs: Seq<OutputView>, i: int)
    requires
        0 <= i <= outs.len(),
        fitting_fits(ws, outs),
    ensures
        fitting_fits(ws, outs.take(i)),
    decreases outs.len(),
{
    if i < outs.len() {
        assert(outs.drop_last().take(i) =~= outs.take(i));
        lemma_fitting_fits_prefix(ws, outs.drop_last(), i);
    } else {
        assert(outs.take(i) =~= outs);
    }
}

/// The outputs after each one arranged its layer surfaces on the area it covers.
pub open spec fn arranged_outputs(outs: Seq<OutputView>) -> Seq<OutputView> {
    outs.map_values(|v: OutputView| arranged_view(v, output_geometry(v)))
}

/// The layer surfaces of every output can be arranged on it in range.
pub open spec fn all_layers_fit(outs: Seq<OutputView>) -> bool {
    forall|k: int|
        0 <= k < outs.len() ==> layers_fit(
            (#[trigger] outs[k]).layers,
            output_geometry(outs[k]),
        )
}

/// The workspace that a switch creates.
pub open spec fn new_workspace(name: Seq<char>) -> WorkspaceView {
    WorkspaceView {
        name,
        positioner: fresh(
            Point { x: 0, y: 0 },
            Rectangle { loc: Point { x: 0, y: 0 }, size: Size { w: 0, h: 0 } },
        ),
    }
}

/// The workspaces after `name` was bound to a new positioner, replacing the one it had.
pub open spec fn bound(ws: Seq<WorkspaceView>, name: Seq<char>) -> Seq<WorkspaceView> {
    match ws_index(ws, name) {
        Some(j) => ws.update(j, new_workspace(name)),
        None => ws.push(new_workspace(name)),
    }
}

/// Some output shows the workspace `key`.
pub open spec fn shown(outs: Seq<OutputView>, key: Seq<char>) -> bool {
    exists|k: int| 0 <= k < outs.len() && (#[trigger] outs[k]).active_workspace == key
}

/// The center of `g`.
pub open spec fn center(g: Rectangle) -> Point {
    Point {
        x: (g.loc.x + tdiv(g.size.w as int, 2)) as i32,
        y: (g.loc.y + tdiv(g.size.h as int, 2)) as i32,
    }
}

pub open spec fn center_fits(g: Rectangle) -> bool {
    &&& i32::MIN <= g.loc.x + tdiv(g.size.w as int, 2) <= i32::MAX
    &&& i32::MIN <= g.loc.y + tdiv(g.size.h as int, 2) <= i32::MAX
}

/// The center of a rectangle of positive size lies inside it.
pub proof fn law_center_is_inside(g: Rectangle)
    requires
        g.size.w >= 1,
        g.size.h >= 1,
        g.loc.x + g.size.w <= i32::MAX,
        g.loc.y + g.size.h <= i32::MAX,
    ensures
        g.spec_contains(center(g)),
        center(g).x - g.loc.x == g.size.w / 2,
        center(g).y - g.loc.y == g.size.h / 2,
{
}

/// The outputs after a switch to a workspace that no output shows: the first output under the
/// pointer shows it.
pub open spec fn switched_outputs(outs: Seq<OutputView>, key: Seq<char>, p: Point) -> Seq<
    OutputView,
> {
    match first_where(outs, covers(p)) {
        Some(k) => outs.update(k, OutputView { active_workspace: key, ..outs[k] }),
        None => outs,
    }
}

/// The workspaces after a switch to a workspace that no output shows: it is created if an
/// output under the pointer is to show it and it does not exist.
pub open spec fn switched_workspaces(
    ws: Seq<WorkspaceView>,
    outs: Seq<OutputView>,
    key: Seq<char>,
    p: Point,
) -> Seq<WorkspaceView> {
    match first_where(outs, covers(p)) {
        Some(_) => if ws_index(ws, key) is None {
            ws.push(new_workspace(key))
        } else {
            ws
        },
        None => ws,
    }
}

/// The layout after a switch to the workspace `key`: when an output shows it, the pointer
/// moves to the center of its area; otherwise the first output under the pointer shows it (it
/// is made when missing), it becomes the active workspace, and the workspaces are fitted.
pub open spec fn switched(s: AnodiumView, key: Seq<char>) -> AnodiumView {
    if shown(s.outputs, key) {
        AnodiumView {
            pointer_location: match ws_index(s.workspaces, key) {
                Some(j) => center(s.workspaces[j].positioner.floating_geometry),
                None => s.pointer_location,
            },
            ..s
        }
    } else {
        AnodiumView {
            outputs: switched_outputs(s.outputs, key, s.pointer_location),
            workspaces: fitted(
                switched_workspaces(s.workspaces, s.outputs, key, s.pointer_location),
                switched_outputs(s.outputs, key, s.pointer_location),
            ),
            active_workspace: Some(key),
            pointer_location: s.pointer_location,
        }
    }
}

/// Fitting workspaces to outputs keeps their names, in order.
pub proof fn lemma_fitted_keeps_names(ws: Seq<WorkspaceView>, outs: Seq<OutputView>)
    ensures
        fitted(ws, outs).len() == ws.len(),
        forall|i: int| 0 <= i < ws.len() ==> (#[trigger] fitted(ws, outs)[i]).name == ws[i].name,
    decreases outs.len(),
{
    if outs.len() > 0 {
        let prev = fitted(ws, outs.drop_last());
        lemma_fitted_keeps_names(ws, outs.drop_last());
        lemma_first_where(prev, named(outs.last().active_workspace));
        assert forall|i: int| 0 <= i < ws.len() implies (#[trigger] fitted(ws, outs)[i]).name
            == ws[i].name by {
            assert(prev[i].name == ws[i].name);
        }
    }
}

/// The workspaces `a` and `b` have the same names, in order.
pub open spec fn same_names(a: Seq<WorkspaceView>, b: Seq<WorkspaceView>) -> bool {
    &&& a.len() == b.len()
    &&& forall|i: int| 0 <= i < a.len() ==> (#[trigger] a[i]).name == b[i].name
}

/// The workspaces `a` and `b` have the same names, and tiling the windows of each pair in any
/// area computes in range for both or for neither.
pub open spec fn alike(a: Seq<WorkspaceView>, b: Seq<WorkspaceView>) -> bool {
    &&& same_names(a, b)
    &&& forall|i: int, g: Rectangle|
        #![trigger tiling_fits(g, a[i].positioner.tiling)]
        0 <= i < a.len() ==> tiling_fits(g, a[i].positioner.tiling) == tiling_fits(
            g,
            b[i].positioner.tiling,
        )
}

/// The area the last of `outs` that shows workspace `j` of `ws` gives it, if one shows it.
pub open spec fn last_fit(ws: Seq<WorkspaceView>, outs: Seq<OutputView>, j: int) -> Option<
    Rectangle,
>
    decreases outs.len(),
{
    if outs.len() == 0 {
        None
    } else if ws_index(ws, outs.last().active_workspace) == Some(j) {
        Some(output_usable(outs.last()))
    } else {
        last_fit(ws, outs.drop_last(), j)
    }
}

/// The workspace `w` given the area `g`, if there is one.
pub open spec fn fit_at(w: WorkspaceView, g: Option<Rectangle>) -> WorkspaceView {
    match g {
        Some(r) => WorkspaceView { positioner: with_geometry(w.positioner, r), ..w },
        None => w,
    }
}

/// Workspaces with the same names are found at the same index.
pub proof fn lemma_ws_index_same_names(a: Seq<WorkspaceView>, b: Seq<WorkspaceView>, name: Seq<char>)
    requires
        same_names(a, b),
    ensures
        ws_index(a, name) == ws_index(b, name),
{
    assert forall|i: int| 0 <= i < a.len() implies named(name)(#[trigger] a[i]) == named(name)(
        b[i],
    ) by {
        assert(a[i].name == b[i].name);
    }
    lemma_first_where_agree(a, named(name), b, named(name));
}

/// Which output fits a workspace last depends only on the names of the workspaces.
pub proof fn lemma_last_fit_same_names(
    a: Seq<WorkspaceView>,
    b: Seq<WorkspaceView>,
    outs: Seq<OutputView>,
    j: int,
)
    requires
        same_names(a, b),
    ensures
        last_fit(a, outs, j) == last_fit(b, outs, j),
    decreases outs.len(),
{
    if outs.len() > 0 {
        lemma_ws_index_same_names(a, b, outs.last().active_workspace);
        lemma_last_fit_same_names(a, b, outs.drop_last(), j);
    }
}

/// Each workspace, after the fitting, has the area of the last output that shows it; the
/// areas that earlier outputs gave it are forgotten.
pub proof fn lemma_fitted_at(ws: Seq<WorkspaceView>, outs: Seq<OutputView>)
    ensures
        fitted(ws, outs).len() == ws.len(),
        forall|j: int|
            0 <= j < ws.len() ==> (#[trigger] fitted(ws, outs)[j]) == fit_at(
                ws[j],
                last_fit(ws, outs, j),
            ),
    decreases outs.len(),
{
    lemma_fitted_keeps_names(ws, outs);
    if outs.len() > 0 {
        let prev = fitted(ws, outs.drop_last());
        let o = outs.last();
        lemma_fitted_at(ws, outs.drop_last());
        lemma_fitted_keeps_names(ws, outs.drop_last());
        lemma_ws_index_same_names(prev, ws, o.active_workspace);
        lemma_first_where(prev, named(o.active_workspace));
        assert forall|j: int| 0 <= j < ws.len() implies (#[trigger] fitted(ws, outs)[j]) == fit_at(
            ws[j],
            last_fit(ws, outs, j),
        ) by {
            assert(prev[j] == fit_at(ws[j], last_fit(ws, outs.drop_last(), j)));
            if ws_index(ws, o.active_workspace) == Some(j) {
                match last_fit(ws, outs.drop_last(), j) {
                    Some(g0) => {
                        lemma_with_geometry_twice(ws[j].positioner, g0, output_usable(o));
                    },
                    None => {},
                }
            }
        }
    }
}

/// Fitting keeps the names of the workspaces and whether their tilings compute in range.
pub proof fn lemma_fitted_alike(ws: Seq<WorkspaceView>, outs: Seq<OutputView>)
    ensures
        alike(fitted(ws, outs), ws),
{
    let f = fitted(ws, outs);
    lemma_fitted_at(ws, outs);
    lemma_fitted_keeps_names(ws, outs);
    assert forall|i: int, g: Rectangle| 0 <= i < f.len() implies #[trigger] tiling_fits(
        g,
        f[i].positioner.tiling,
    ) == tiling_fits(g, ws[i].positioner.tiling) by {
        match last_fit(ws, outs, i) {
            Some(r) => {
                lemma_tiling_fits_retiled(g, r, ws[i].positioner.tiling);
            },
            None => {},
        }
    }
}

/// Alike workspaces can be fitted to the same outputs in range, or neither can.
pub proof fn lemma_fitting_fits_alike(
    a: Seq<WorkspaceView>,
    b: Seq<WorkspaceView>,
    outs: Seq<OutputView>,
)
    requires
        alike(a, b),
    ensures
        fitting_fits(a, outs) == fitting_fits(b, outs),
    decreases outs.len(),
{
    if outs.len() > 0 {
        let d = outs.drop_last();
        let o = outs.last();
        lemma_fitting_fits_alike(a, b, d);
        let pa = fitted(a, d);
        let pb = fitted(b, d);
        lemma_fitted_alike(a, d);
        lemma_fitted_alike(b, d);
        assert(same_names(pa, pb)) by {
            assert forall|i: int| 0 <= i < pa.len() implies (#[trigger] pa[i]).name == pb[i].name by {
                assert(pa[i].name == a[i].name);
                assert(a[i].name == b[i].name);
                assert(b[i].name == pb[i].name);
            }
        }
        lemma_ws_index_same_names(pa, pb, o.active_workspace);
        lemma_first_where(pa, named(o.active_workspace));
        match ws_index(pa, o.active_workspace) {
            Some(j) => {
                let g = output_usable(o);
                assert(tiling_fits(g, pa[j].positioner.tiling) == tiling_fits(g, a[j].positioner.tiling));
                assert(tiling_fits(g, a[j].positioner.tiling) == tiling_fits(g, b[j].positioner.tiling));
                assert(tiling_fits(g, pb[j].positioner.tiling) == tiling_fits(g, b[j].positioner.tiling));
            },
            None => {},
        }
    }
}

/// Giving every shown workspace the usable area of its output a second time, with nothing
/// changed in between, changes nothing (so `update_workspaces_geometry` called twice does what
/// one call does); and when the first fitting computes in range, so does the second.
pub proof fn law_fitting_twice_is_fitting_once(ws: Seq<WorkspaceView>, outs: Seq<OutputView>)
    ensures
        fitted(fitted(ws, outs), outs) == fitted(ws, outs),
        fitting_fits(ws, outs) ==> fitting_fits(fitted(ws, outs), outs),
{
    let f = fitted(ws, outs);
    lemma_fitted_at(ws, outs);
    lemma_fitted_at(f, outs);
    lemma_fitted_keeps_names(ws, outs);
    assert(same_names(f, ws));
    assert forall|j: int| 0 <= j < ws.len() implies #[trigger] fitted(f, outs)[j] == f[j] by {
        lemma_last_fit_same_names(f, ws, outs, j);
        match last_fit(ws, outs, j) {
            Some(g) => {
                lemma_with_geometry_twice(ws[j].positioner, g, g);
            },
            None => {},
        }
    }
    assert(fitted(f, outs) =~= f);
    lemma_fitted_alike(ws, outs);
    lemma_fitting_fits_alike(f, ws, outs);
}

/// Arranging the layer surfaces a second time, with no commit in between, changes nothing:
/// every output keeps its surfaces where the first arrangement put them and its exclusive
/// zone, and every workspace keeps the area it was fitted to. When the first arrangement
/// computes in range, so does the second.
pub proof fn law_arrange_layers_twice_is_once(outs: Seq<OutputView>, ws: Seq<WorkspaceView>)
    ensures
        arranged_outputs(arranged_outputs(outs)) == arranged_outputs(outs),
        fitted(fitted(ws, arranged_outputs(outs)), arranged_outputs(arranged_outputs(outs)))
            == fitted(ws, arranged_outputs(outs)),
        all_layers_fit(outs) ==> all_layers_fit(arranged_outputs(outs)),
        fitting_fits(ws, arranged_outputs(outs)) ==> fitting_fits(
            fitted(ws, arranged_outputs(outs)),
            arranged_outputs(arranged_outputs(outs)),
        ),
{
    let a = arranged_outputs(outs);
    assert forall|k: int| 0 <= k < outs.len() implies {
        &&& (#[trigger] a[k]).layers == arranged_all(outs[k].layers, output_geometry(outs[k]))
        &&& output_geometry(a[k]) == output_geometry(outs[k])
        &&& arranged_view(a[k], output_geometry(a[k])) == a[k]
    } by {
        let v = outs[k];
        let g = output_geometry(v);
        assert(a[k].layers =~= arranged_all(v.layers, g));
        law_arange_twice_is_arange_once(v.layers, g, Edge::Top);
        law_arange_twice_is_arange_once(v.layers, g, Edge::Bottom);
        law_arange_twice_is_arange_once(v.layers, g, Edge::Left);
        law_arange_twice_is_arange_once(v.layers, g, Edge::Right);
        assert(arranged_view(a[k], g).layers =~= a[k].layers);
    }
    assert(arranged_outputs(a) =~= a);
    if all_layers_fit(outs) {
        assert forall|k: int| 0 <= k < a.len() implies layers_fit(
            (#[trigger] a[k]).layers,
            output_geometry(a[k]),
        ) by {
            let v = outs[k];
            let g = output_geometry(v);
            law_arange_twice_is_arange_once(v.layers, g, Edge::Top);
            law_arange_twice_is_arange_once(v.layers, g, Edge::Bottom);
            law_arange_twice_is_arange_once(v.layers, g, Edge::Left);
            law_arange_twice_is_arange_once(v.layers, g, Edge::Right);
            assert(layers_fit(v.layers, g));
            assert forall|i: int| 0 <= i < a[k].layers.len() implies match (#[trigger] a[k].layers[i]).state {
                Some(st) => placement_fits(g, st),
                None => true,
            } by {
                assert(a[k].layers[i].state == v.layers[i].state);
            }
        }
    }
    law_fitting_twice_is_fitting_once(ws, a);
}


/// Switching to a workspace that no output shows, with the pointer over an output, makes the
/// first output under the pointer show it; afterwards a workspace of that name exists and is
/// the active one.
pub proof fn law_switch_shows_workspace(
    ws: Seq<WorkspaceView>,
    outs: Seq<OutputView>,
    key: Seq<char>,
    p: Point,
)
    requires
        exists|k: int| 0 <= k < outs.len() && covers(p)(#[trigger] outs[k]),
    ensures
        shown(switched_outputs(outs, key, p), key),
        exists|j: int|
            0 <= j < switched_workspaces(ws, outs, key, p).len() && (#[trigger] fitted(
                switched_workspaces(ws, outs, key, p),
                switched_outputs(outs, key, p),
            )[j]).name == key,
{
    lemma_first_where(outs, covers(p));
    let k = first_where(outs, covers(p))->0;
    let so = switched_outputs(outs, key, p);
    assert(so[k].active_workspace == key);
    let sw = switched_workspaces(ws, outs, key, p);
    lemma_first_where(ws, named(key));
    let j = match ws_index(ws, key) {
        Some(j) => j,
        None => ws.len() as int,
    };
    assert(sw[j].name == key);
    lemma_fitted_keeps_names(sw, so);
    assert(fitted(sw, so)[j].name == key);
}

/// Switching to a workspace that an output shows puts the pointer inside that workspace's
/// area, half its width right of and half its height below its corner, when the area has a
/// positive size.
pub proof fn law_switch_to_shown_puts_pointer_inside(s: AnodiumView, key: Seq<char>, j: int)
    requires
        shown(s.outputs, key),
        ws_index(s.workspaces, key) == Some(j),
        s.workspaces[j].positioner.floating_geometry.size.w >= 1,
        s.workspaces[j].positioner.floating_geometry.size.h >= 1,
        s.workspaces[j].positioner.floating_geometry.loc.x
            + s.workspaces[j].positioner.floating_geometry.size.w <= i32::MAX,
        s.workspaces[j].positioner.floating_geometry.loc.y
            + s.workspaces[j].positioner.floating_geometry.size.h <= i32::MAX,
    ensures
        ({
            let g = s.workspaces[j].positioner.floating_geometry;
            let p = switched(s, key).pointer_location;
            &&& g.spec_contains(p)
            &&& p.x - g.loc.x == g.size.w / 2
            &&& p.y - g.loc.y == g.size.h / 2
        }),
{
    law_center_is_inside(s.workspaces[j].positioner.floating_geometry);
}

/// Switching to a workspace that no output shows, with the pointer over an output, and then
/// switching to it again: the second switch finds it shown and only moves the pointer to the
/// center of that workspace's area; the outputs, the workspaces and the active workspace stay
/// as the first switch left them.
pub proof fn law_switch_again_moves_pointer(s: AnodiumView, key: Seq<char>)
    requires
        !shown(s.outputs, key),
        exists|k: int| 0 <= k < s.outputs.len() && covers(s.pointer_location)(#[trigger] s.outputs[k]),
    ensures
        ({
            let s1 = switched(s, key);
            &&& shown(s1.outputs, key)
            &&& ws_index(s1.workspaces, key) is Some
            &&& switched(s1, key) == (AnodiumView {
                pointer_location: center(
                    s1.workspaces[ws_index(s1.workspaces, key)->0].positioner.floating_geometry,
                ),
                ..s1
            })
        }),
{
    let p = s.pointer_location;
    law_switch_shows_workspace(s.workspaces, s.outputs, key, p);
    let so = switched_outputs(s.outputs, key, p);
    let sw = switched_workspaces(s.workspaces, s.outputs, key, p);
    let s1 = switched(s, key);
    assert(s1.outputs == so);
    assert(s1.workspaces == fitted(sw, so));
    lemma_fitted_keeps_names(sw, so);
    lemma_first_where(s1.workspaces, named(key));
    let j = choose|j: int| 0 <= j < sw.len() && (#[trigger] fitted(sw, so)[j]).name == key;
    assert(named(key)(s1.workspaces[j]));
}

/// No two workspaces share a name.
pub open spec fn distinct_names(ws: Seq<WorkspaceView>) -> bool {
    forall|i: int, j: int|
        #![trigger ws[i], ws[j]]
        0 <= i < j < ws.len() ==> ws[i].name != ws[j].name
}

/// Binding a name to a new workspace, or switching to a workspace, keeps the workspace names
/// distinct, and so does fitting the workspaces to the outputs afterwards: adding an output and
/// switching workspaces never make two workspaces of one name.
pub proof fn law_workspace_names_stay_distinct(
    ws: Seq<WorkspaceView>,
    outs: Seq<OutputView>,
    later_outs: Seq<OutputView>,
    key: Seq<char>,
    p: Point,
)
    requires
        distinct_names(ws),
    ensures
        distinct_names(fitted(bound(ws, key), later_outs)),
        distinct_names(fitted(switched_workspaces(ws, outs, key, p), later_outs)),
{
    lemma_first_where(ws, named(key));
    let b = bound(ws, key);
    assert(distinct_names(b)) by {
        assert forall|i: int, j: int| 0 <= i < j < b.len() implies #[trigger] b[i].name != #[trigger] b[j].name by {
            match ws_index(ws, key) {
                Some(k) => {
                    assert(ws[k].name == key);
                    assert(b[i].name == ws[i].name);
                    assert(b[j].name == ws[j].name);
                },
                None => {
                    if j == ws.len() {
                        assert(!named(key)(ws[i]));
                    } else {
                        assert(b[i] == ws[i] && b[j] == ws[j]);
                    }
                },
            }
        }
    }
    let sw = switched_workspaces(ws, outs, key, p);
    assert(distinct_names(sw)) by {
        assert forall|i: int, j: int| 0 <= i < j < sw.len() implies #[trigger] sw[i].name != #[trigger] sw[j].name by {
            if j == ws.len() {
                assert(!named(key)(ws[i]));
            } else {
                assert(sw[i] == ws[i] && sw[j] == ws[j]);
            }
        }
    }
    lemma_fitted_keeps_names(b, later_outs);
    lemma_fitted_keeps_names(sw, later_outs);
    let fb = fitted(b, later_outs);
    let fs = fitted(sw, later_outs);
    assert forall|i: int, j: int| 0 <= i < j < fb.len() implies #[trigger] fb[i].name != #[trigger] fb[j].name by {
        assert(fb[i].name == b[i].name && fb[j].name == b[j].name);
    }
    assert forall|i: int, j: int| 0 <= i < j < fs.len() implies #[trigger] fs[i].name != #[trigger] fs[j].name by {
        assert(fs[i].name == sw[i].name && fs[j].name == sw[j].name);
    }
}

/// The indices of the workspaces the outputs show, output after output; an output whose
/// workspace does not exist shows none.
pub open spec fn visible(outs: Seq<OutputView>, ws: Seq<WorkspaceView>) -> Seq<usize>
    decreases outs.len(),
{
    if outs.len() == 0 {
        Seq::empty()
    } else {
        let r = visible(outs.drop_last(), ws);
        match ws_index(ws, outs.last().active_workspace) {
            Some(j) => r.push(j as usize),
            None => r,
        }
    }
}

/// Every index `visible` gives is of a workspace.
pub proof fn lemma_visible_in_range(outs: Seq<OutputView>, ws: Seq<WorkspaceView>)
    requires
        ws.len() <= usize::MAX,
    ensures
        forall|t: int| 0 <= t < visible(outs, ws).len() ==> (#[trigger] visible(outs, ws)[t]) < ws.len(),
    decreases outs.len(),
{
    if outs.len() > 0 {
        lemma_visible_in_range(outs.drop_last(), ws);
        lemma_first_where(ws, named(outs.last().active_workspace));
        let r = visible(outs.drop_last(), ws);
        let v = visible(outs, ws);
        assert forall|t: int| 0 <= t < v.len() implies (#[trigger] v[t]) < ws.len() by {
            if t < r.len() {
                assert(v[t] == r[t]);
            }
        }
    }
}

/// The layer surfaces above the windows that may lie under `p`, in the order they are tried:
/// output after output, its overlay surfaces then its top ones.
pub open spec fn layers_above(outs: Seq<OutputView>, p: Point) -> Seq<SurfaceId>
    decreases outs.len(),
{
    if outs.len() == 0 {
        Seq::empty()
    } else {
        layers_above(outs.drop_last(), p) + layer_candidates(outs.last().layers, Layer::Overlay, p)
            + layer_candidates(outs.last().layers, Layer::Top, p)
    }
}

/// The layer surface at position `m` of output `k` is `id` and lies on `layer`.
pub open spec fn is_layer_surface(
    outs: Seq<OutputView>,
    k: int,
    m: int,
    id: SurfaceId,
    layer: Layer,
) -> bool {
    &&& 0 <= k < outs.len()
    &&& 0 <= m < outs[k].layers.len()
    &&& outs[k].layers[m].id == id
    &&& outs[k].layers[m].layer == layer
}

/// No two layer surfaces of the outputs share an id.
pub open spec fn distinct_layer_ids(outs: Seq<OutputView>) -> bool {
    forall|k1: int, m1: int, k2: int, m2: int|
        #![trigger outs[k1].layers[m1].id, outs[k2].layers[m2].id]
        0 <= k1 < outs.len() && 0 <= m1 < outs[k1].layers.len() && 0 <= k2 < outs.len() && 0
            <= m2 < outs[k2].layers.len() && outs[k1].layers[m1].id == outs[k2].layers[m2].id
            ==> k1 == k2 && m1 == m2
}

/// Every candidate of `layer` is the id of a surface of `ls` on that layer.
proof fn lemma_candidate_source(ls: Seq<LayerSurface>, layer: Layer, p: Point, i: int) -> (m: int)
    requires
        0 <= i < layer_candidates(ls, layer, p).len(),
    ensures
        0 <= m < ls.len(),
        ls[m].id == layer_candidates(ls, layer, p)[i],
        ls[m].layer == layer,
    decreases ls.len(),
{
    let rest = layer_candidates(ls.drop_last(), layer, p);
    if i < rest.len() {
        let m = lemma_candidate_source(ls.drop_last(), layer, p, i);
        assert(ls.drop_last()[m] == ls[m]);
        m
    } else {
        (ls.len() - 1) as int
    }
}

/// Every surface tried above the windows is an overlay or top surface of one of the outputs.
proof fn lemma_above_source(outs: Seq<OutputView>, p: Point, i: int) -> (km: (int, int))
    requires
        0 <= i < layers_above(outs, p).len(),
    ensures
        0 <= km.0 < outs.len(),
        0 <= km.1 < outs[km.0].layers.len(),
        outs[km.0].layers[km.1].id == layers_above(outs, p)[i],
        is_above_layer(outs[km.0].layers[km.1].layer),
    decreases outs.len(),
{
    let a = layers_above(outs.drop_last(), p);
    let o = layer_candidates(outs.last().layers, Layer::Overlay, p);
    let t = layer_candidates(outs.last().layers, Layer::Top, p);
    let n = outs.len() - 1;
    if i < a.len() {
        let km = lemma_above_source(outs.drop_last(), p, i);
        assert(outs.drop_last()[km.0] == outs[km.0]);
        km
    } else if i < a.len() + o.len() {
        let m = lemma_candidate_source(outs.last().layers, Layer::Overlay, p, i - a.len());
        (n, m)
    } else {
        let m = lemma_candidate_source(outs.last().layers, Layer::Top, p, i - a.len() - o.len());
        (n, m)
    }
}

/// The layers above the windows are tried from the highest down: on every output, each
/// overlay surface that may lie under `p` is tried before each top surface of that output, so
/// an overlay surface takes the click before a panel beneath it.
pub proof fn law_overlay_is_tried_before_top(outs: Seq<OutputView>, p: Point)
    requires
        distinct_layer_ids(outs),
    ensures
        forall|i: int, j: int, k: int, m1: int, m2: int|
            #![trigger is_layer_surface(outs, k, m1, layers_above(outs, p)[i], Layer::Top), is_layer_surface(outs, k, m2, layers_above(outs, p)[j], Layer::Overlay)]
            0 <= i < layers_above(outs, p).len() && 0 <= j < layers_above(outs, p).len()
                && is_layer_surface(outs, k, m1, layers_above(outs, p)[i], Layer::Top)
                && is_layer_surface(outs, k, m2, layers_above(outs, p)[j], Layer::Overlay)
                ==> j < i,
    decreases outs.len(),
{
    if outs.len() > 0 {
        let d = outs.drop_last();
        let n = outs.len() - 1;
        let above = layers_above(outs, p);
        let a = layers_above(d, p);
        let o = layer_candidates(outs.last().layers, Layer::Overlay, p);
        let t = layer_candidates(outs.last().layers, Layer::Top, p);
        assert(above == a + o + t);
        assert(distinct_layer_ids(d)) by {
            assert forall|k1: int, m1: int, k2: int, m2: int|
                0 <= k1 < d.len() && 0 <= m1 < d[k1].layers.len() && 0 <= k2 < d.len() && 0
                    <= m2 < d[k2].layers.len() && #[trigger] d[k1].layers[m1].id
                    == #[trigger] d[k2].layers[m2].id implies k1 == k2 && m1 == m2 by {
                assert(d[k1] == outs[k1]);
                assert(d[k2] == outs[k2]);
            }
        }
        law_overlay_is_tried_before_top(d, p);
        assert forall|i: int, j: int, k: int, m1: int, m2: int|
            0 <= i < above.len() && 0 <= j < above.len()
                && #[trigger] is_layer_surface(outs, k, m1, above[i], Layer::Top)
                && #[trigger] is_layer_surface(outs, k, m2, above[j], Layer::Overlay)
                implies j < i by {
            if i <= j {
                if j < a.len() {
                    if k < n {
                        assert(d[k] == outs[k]);
                        assert(a[i] == above[i]);
                        assert(a[j] == above[j]);
                        assert(is_layer_surface(d, k, m1, a[i], Layer::Top));
                        assert(is_layer_surface(d, k, m2, a[j], Layer::Overlay));
                    } else {
                        let km = lemma_above_source(d, p, i);
                        assert(d[km.0] == outs[km.0]);
                        assert(a[i] == above[i]);
                        assert(outs[km.0].layers[km.1].id == outs[k].layers[m1].id);
                    }
                } else {
                    // The surface tried at `j` belongs to the last output.
                    let (l, m) = if j < a.len() + o.len() {
                        (Layer::Overlay, lemma_candidate_source(outs.last().layers, Layer::Overlay, p, j - a.len()))
                    } else {
                        (Layer::Top, lemma_candidate_source(outs.last().layers, Layer::Top, p, j - a.len() - o.len()))
                    };
                    assert(outs[n].layers[m].id == above[j]);
                    assert(outs[n].layers[m].id == outs[k].layers[m2].id);
                    assert(k == n && m == m2);
                    assert(j < a.len() + o.len());
                    if i < a.len() {
                        let km = lemma_above_source(d, p, i);
                        assert(d[km.0] == outs[km.0]);
                        assert(a[i] == above[i]);
                        assert(outs[km.0].layers[km.1].id == outs[k].layers[m1].id);
                    } else {
                        let mi = lemma_candidate_source(outs.last().layers, Layer::Overlay, p, i - a.len());
                        assert(outs[n].layers[mi].id == above[i]);
                        assert(outs[n].layers[mi].id == outs[k].layers[m1].id);
                    }
                }
            }
        }
    }
}

/// Every surface tried below the windows is a bottom or background surface of one of the
/// outputs.
proof fn lemma_below_source(outs: Seq<OutputView>, p: Point, i: int) -> (km: (int, int))
    requires
        0 <= i < layers_below(outs, p).len(),
    ensures
        0 <= km.0 < outs.len(),
        0 <= km.1 < outs[km.0].layers.len(),
        outs[km.0].layers[km.1].id == layers_below(outs, p)[i],
        !is_above_layer(outs[km.0].layers[km.1].layer),
    decreases outs.len(),
{
    let a = layers_below(outs.drop_last(), p);
    let o = layer_candidates(outs.last().layers, Layer::Bottom, p);
    let t = layer_candidates(outs.last().layers, Layer::Background, p);
    let n = outs.len() - 1;
    if i < a.len() {
        let km = lemma_below_source(outs.drop_last(), p, i);
        assert(outs.drop_last()[km.0] == outs[km.0]);
        km
    } else if i < a.len() + o.len() {
        let m = lemma_candidate_source(outs.last().layers, Layer::Bottom, p, i - a.len());
        (n, m)
    } else {
        let m = lemma_candidate_source(outs.last().layers, Layer::Background, p, i - a.len() - o.len());
        (n, m)
    }
}

/// The layers below the windows are tried from the highest down too: on every output, each
/// bottom surface that may lie under `p` is tried before each background surface of that
/// output.
pub proof fn law_bottom_is_tried_before_background(outs: Seq<OutputView>, p: Point)
    requires
        distinct_layer_ids(outs),
    ensures
        forall|i: int, j: int, k: int, m1: int, m2: int|
            #![trigger is_layer_surface(outs, k, m1, layers_below(outs, p)[i], Layer::Background), is_layer_surface(outs, k, m2, layers_below(outs, p)[j], Layer::Bottom)]
            0 <= i < layers_below(outs, p).len() && 0 <= j < layers_below(outs, p).len()
                && is_layer_surface(outs, k, m1, layers_below(outs, p)[i], Layer::Background)
                && is_layer_surface(outs, k, m2, layers_below(outs, p)[j], Layer::Bottom)
                ==> j < i,
    decreases outs.len(),
{
    if outs.len() > 0 {
        let d = outs.drop_last();
        let n = outs.len() - 1;
        let above = layers_below(outs, p);
        let a = layers_below(d, p);
        let o = layer_candidates(outs.last().layers, Layer::Bottom, p);
        let t = layer_candidates(outs.last().layers, Layer::Background, p);
        assert(above == a + o + t);
        assert(distinct_layer_ids(d)) by {
            assert forall|k1: int, m1: int, k2: int, m2: int|
                0 <= k1 < d.len() && 0 <= m1 < d[k1].layers.len() && 0 <= k2 < d.len() && 0
                    <= m2 < d[k2].layers.len() && #[trigger] d[k1].layers[m1].id
                    == #[trigger] d[k2].layers[m2].id implies k1 == k2 && m1 == m2 by {
                assert(d[k1] == outs[k1]);
                assert(d[k2] == outs[k2]);
            }
        }
        law_bottom_is_tried_before_background(d, p);
        assert forall|i: int, j: int, k: int, m1: int, m2: int|
            0 <= i < above.len() && 0 <= j < above.len()
                && #[trigger] is_layer_surface(outs, k, m1, above[i], Layer::Background)
                && #[trigger] is_layer_surface(outs, k, m2, above[j], Layer::Bottom)
                implies j < i by {
            if i <= j {
                if j < a.len() {
                    if k < n {
                        assert(d[k] == outs[k]);
                        assert(a[i] == above[i]);
                        assert(a[j] == above[j]);
                        assert(is_layer_surface(d, k, m1, a[i], Layer::Background));
                        assert(is_layer_surface(d, k, m2, a[j], Layer::Bottom));
                    } else {
                        let km = lemma_below_source(d, p, i);
                        assert(d[km.0] == outs[km.0]);
                        assert(a[i] == above[i]);
                        assert(outs[km.0].layers[km.1].id == outs[k].layers[m1].id);
                    }
                } else {
                    // The surface tried at `j` belongs to the last output.
                    let (l, m) = if j < a.len() + o.len() {
                        (Layer::Bottom, lemma_candidate_source(outs.last().layers, Layer::Bottom, p, j - a.len()))
                    } else {
                        (Layer::Background, lemma_candidate_source(outs.last().layers, Layer::Background, p, j - a.len() - o.len()))
                    };
                    assert(outs[n].layers[m].id == above[j]);
                    assert(outs[n].layers[m].id == outs[k].layers[m2].id);
                    assert(k == n && m == m2);
                    assert(j < a.len() + o.len());
                    if i < a.len() {
                        let km = lemma_below_source(d, p, i);
                        assert(d[km.0] == outs[km.0]);
                        assert(a[i] == above[i]);
                        assert(outs[km.0].layers[km.1].id == outs[k].layers[m1].id);
                    } else {
                        let mi = lemma_candidate_source(outs.last().layers, Layer::Bottom, p, i - a.len());
                        assert(outs[n].layers[mi].id == above[i]);
                        assert(outs[n].layers[mi].id == outs[k].layers[m1].id);
                    }
                }
            }
        }
    }
}

/// The layer is drawn above the windows.
pub open spec fn is_above_layer(l: Layer) -> bool {
    l == Layer::Overlay || l == Layer::Top
}

/// The surfaces that may lie under `p`, in the order they are tried.
pub open spec fn hit_list(outs: Seq<OutputView>, ws: Seq<WorkspaceView>, p: Point) -> Seq<
    SurfaceId,
> {
    layers_above(outs, p) + windows_under(ws, visible(outs, ws), p) + layers_below(outs, p)
}

/// `x` is the surface of a window of one of the workspaces.
pub open spec fn is_window_id(ws: Seq<WorkspaceView>, x: SurfaceId) -> bool {
    exists|j: int, i: int|
        #![trigger ws[j].positioner.floating[i]]
        0 <= j < ws.len() && 0 <= i < ws[j].positioner.floating.len()
            && ws[j].positioner.floating[i].toplevel.id == x
    || exists|j: int, i: int|
        #![trigger ws[j].positioner.tiling[i]]
        0 <= j < ws.len() && 0 <= i < ws[j].positioner.tiling.len()
            && ws[j].positioner.tiling[i].toplevel.id == x
}

/// No layer surface shares its id with a window.
pub open spec fn layers_apart_from_windows(outs: Seq<OutputView>, ws: Seq<WorkspaceView>) -> bool {
    forall|k: int, m: int|
        0 <= k < outs.len() && 0 <= m < outs[k].layers.len() ==> !is_window_id(
            ws,
            #[trigger] outs[k].layers[m].id,
        )
}

/// Every window candidate is the surface of a window of one of the listed workspaces.
proof fn lemma_under_source(ws: Seq<Window>, p: Point, i: int) -> (m: int)
    requires
        0 <= i < under_candidates(ws, p).len(),
    ensures
        0 <= m < ws.len(),
        ws[m].toplevel.id == under_candidates(ws, p)[i],
    decreases ws.len(),
{
    let rest = under_candidates(ws.drop_last(), p);
    if i < rest.len() {
        let m = lemma_under_source(ws.drop_last(), p, i);
        assert(ws.drop_last()[m] == ws[m]);
        m
    } else {
        (ws.len() - 1) as int
    }
}

proof fn lemma_windows_source(ws: Seq<WorkspaceView>, idx: Seq<usize>, p: Point, i: int)
    requires
        0 <= i < windows_under(ws, idx, p).len(),
        forall|t: int| 0 <= t < idx.len() ==> (#[trigger] idx[t]) < ws.len(),
    ensures
        is_window_id(ws, windows_under(ws, idx, p)[i]),
    decreases idx.len(),
{
    let rest = windows_under(ws, idx.drop_last(), p);
    let j = idx.last() as int;
    let u = ws[j].positioner;
    let f = under_candidates(u.floating, p);
    let t = under_candidates(u.tiling, p);
    let x = windows_under(ws, idx, p)[i];
    assert(windows_under(ws, idx, p) == rest + f + t);
    assert(idx[idx.len() - 1] < ws.len());
    if i < rest.len() {
        assert forall|q: int| 0 <= q < idx.drop_last().len() implies (#[trigger] idx.drop_last()[q])
            < ws.len() by {
            assert(idx.drop_last()[q] == idx[q]);
        }
        lemma_windows_source(ws, idx.drop_last(), p, i);
        assert(rest[i] == x);
    } else if i < rest.len() + f.len() {
        let m = lemma_under_source(u.floating, p, i - rest.len());
        assert(ws[j].positioner.floating[m].toplevel.id == x);
    } else {
        let m = lemma_under_source(u.tiling, p, i - rest.len() - f.len());
        assert(ws[j].positioner.tiling[m].toplevel.id == x);
    }
}

/// The surfaces that may lie under a point are tried layer group by layer group, from the top
/// down: every overlay or top layer surface before every window, and every window before every
/// bottom or background layer surface.
pub proof fn law_hit_list_goes_from_top_to_bottom(
    outs: Seq<OutputView>,
    ws: Seq<WorkspaceView>,
    p: Point,
)
    requires
        distinct_layer_ids(outs),
        layers_apart_from_windows(outs, ws),
        ws.len() <= usize::MAX,
    ensures
        forall|i: int, j: int, k: int, m: int|
            #![trigger hit_list(outs, ws, p)[i], hit_list(outs, ws, p)[j], outs[k].layers[m]]
            0 <= i < j < hit_list(outs, ws, p).len() && 0 <= k < outs.len() && 0 <= m
                < outs[k].layers.len() && outs[k].layers[m].id == hit_list(outs, ws, p)[j]
                && is_above_layer(outs[k].layers[m].layer) ==> !is_window_id(
                ws,
                hit_list(outs, ws, p)[i],
            ),
        forall|i: int, j: int, k: int, m: int|
            #![trigger hit_list(outs, ws, p)[i], hit_list(outs, ws, p)[j], outs[k].layers[m]]
            0 <= i < j < hit_list(outs, ws, p).len() && 0 <= k < outs.len() && 0 <= m
                < outs[k].layers.len() && outs[k].layers[m].id == hit_list(outs, ws, p)[i]
                && !is_above_layer(outs[k].layers[m].layer) ==> !is_window_id(
                ws,
                hit_list(outs, ws, p)[j],
            ),
        forall|i: int, j: int, k1: int, m1: int, k2: int, m2: int|
            #![trigger hit_list(outs, ws, p)[i], hit_list(outs, ws, p)[j], outs[k1].layers[m1], outs[k2].layers[m2]]
            0 <= i < j < hit_list(outs, ws, p).len() && 0 <= k1 < outs.len() && 0 <= m1
                < outs[k1].layers.len() && 0 <= k2 < outs.len() && 0 <= m2 < outs[k2].layers.len()
                && outs[k1].layers[m1].id == hit_list(outs, ws, p)[i]
                && outs[k2].layers[m2].id == hit_list(outs, ws, p)[j] && is_above_layer(
                outs[k2].layers[m2].layer,
            ) ==> is_above_layer(outs[k1].layers[m1].layer),
{
    let a = layers_above(outs, p);
    let idx = visible(outs, ws);
    let w = windows_under(ws, idx, p);
    let b = layers_below(outs, p);
    let r = hit_list(outs, ws, p);
    assert(r == a + w + b);
    lemma_visible_in_range(outs, ws);
    // Which group a position of the list lies in tells what its surface is.
    assert forall|q: int| 0 <= q < a.len() implies exists|k: int, m: int|
        0 <= k < outs.len() && 0 <= m < outs[k].layers.len() && #[trigger] outs[k].layers[m].id
            == #[trigger] r[q] && is_above_layer(outs[k].layers[m].layer) by {
        let km = lemma_above_source(outs, p, q);
        assert(r[q] == a[q]);
        assert(outs[km.0].layers[km.1].id == r[q]);
    }
    assert forall|q: int| a.len() <= q < a.len() + w.len() implies is_window_id(ws, #[trigger] r[q]) by {
        lemma_windows_source(ws, idx, p, q - a.len());
        assert(r[q] == w[q - a.len()]);
    }
    assert forall|q: int| a.len() + w.len() <= q < r.len() implies exists|k: int, m: int|
        0 <= k < outs.len() && 0 <= m < outs[k].layers.len() && #[trigger] outs[k].layers[m].id
            == #[trigger] r[q] && !is_above_layer(outs[k].layers[m].layer) by {
        let km = lemma_below_source(outs, p, q - a.len() - w.len());
        assert(r[q] == b[q - a.len() - w.len()]);
        assert(outs[km.0].layers[km.1].id == r[q]);
    }
}

/// The layer surfaces below the windows that may lie under `p`, in the order they are tried:
/// output after output, its bottom surfaces then its background ones.
pub open spec fn layers_below(outs: Seq<OutputView>, p: Point) -> Seq<SurfaceId>
    decreases outs.len(),
{
    if outs.len() == 0 {
        Seq::empty()
    } else {
        layers_below(outs.drop_last(), p) + layer_candidates(outs.last().layers, Layer::Bottom, p)
            + layer_candidates(outs.last().layers, Layer::Background, p)
    }
}

/// The windows of the workspaces `idx` that may lie under `p`, workspace after workspace.
pub open spec fn windows_under(ws: Seq<WorkspaceView>, idx: Seq<usize>, p: Point) -> Seq<SurfaceId>
    decreases idx.len(),
{
    if idx.len() == 0 {
        Seq::empty()
    } else {
        let u = ws[idx.last() as int].positioner;
        windows_under(ws, idx.drop_last(), p) + under_candidates(u.floating, p) + under_candidates(
            u.tiling,
            p,
        )
    }
}

/// The positioner has a live window of surface `id`.
pub open spec fn holds_window(u: UniversalView, id: SurfaceId) -> bool {
    has_match(u.floating, id) || has_match(u.tiling, id)
}

/// The workspace layout of the compositor: the outputs, the workspaces, which one is
/// active, and where the pointer is.
#[derive(Debug)]
pub struct Anodium {
    pub output_map: OutputMap,
    pub workspaces: Vec<Workspace>,
    pub active_workspace: Option<String>,
    /// The pixel the pointer is in: its logical position rounded down on both axes. Since
    /// every rectangle of the layout has whole coordinates, a rectangle holds this pixel
    /// exactly when it holds the pointer's position.
    pub pointer_location: Point,
}

impl View for Anodium {
    type V = AnodiumView;

    open spec fn view(&self) -> AnodiumView {
        AnodiumView {
            outputs: self.output_map@,
            workspaces: self.workspaces@.map_values(|w: Workspace| w@),
            active_workspace: match self.active_workspace {
                Some(s) => Some(s@),
                None => None,
            },
            pointer_location: self.pointer_location,
        }
    }
}

impl Anodium {
    pub fn new() -> (a: Anodium)
        ensures
            a@.outputs == Seq::<OutputView>::empty(),
            a@.workspaces == Seq::<WorkspaceView>::empty(),
            a@.active_workspace is None,
            a@.pointer_location == (Point { x: 0, y: 0 }),
    {
        let a = Anodium {
            output_map: OutputMap::new(),
            workspaces: Vec::new(),
            active_workspace: None,
            pointer_location: Point { x: 0, y: 0 },
        };
        assert(a@.workspaces =~= Seq::<WorkspaceView>::empty());
        a
    }

    /// The index of the workspace named `name`.
    pub fn workspace_index(&self, name: &String) -> (r: Option<usize>)
        ensures
            r matches Some(j) ==> ws_index(self@.workspaces, name@) == Some(j as int),
            r is None ==> ws_index(self@.workspaces, name@) is None,
    {
        let ghost pred = named(name@);
        let n = self.workspaces.len();
        for i in 0..n
            invariant
                pred == named(name@),
                n == self.workspaces.len(),
                n == self@.workspaces.len(),
                forall|j: int| 0 <= j < i ==> !pred(#[trigger] self@.workspaces[j]),
        {
            assert(self@.workspaces[i as int] == self.workspaces@[i as int]@);
            if self.workspaces[i].name == *name {
                proof {
                    assert(pred(self@.workspaces[i as int]));
                    lemma_first_where_found(self@.workspaces, pred, i as int);
                }
                return Some(i);
            }
        }
        proof {
            lemma_first_where_none(self@.workspaces, pred);
        }
        None
    }

    /// The indices of the workspaces the outputs show, output after output.
    pub fn visible_workspaces(&self) -> (r: Vec<usize>)
        ensures
            r@ == visible(self@.outputs, self@.workspaces),
    {
        let ghost outs = self@.outputs;
        let ghost ws = self@.workspaces;
        let mut r: Vec<usize> = Vec::new();
        let n = self.output_map.outputs.len();
        for i in 0..n
            invariant
                n == self.output_map.outputs.len(),
                outs == self@.outputs,
                ws == self@.workspaces,
                n == outs.len(),
                r@ == visible(outs.take(i as int), ws),
        {
            assert(outs.take(i + 1).drop_last() =~= outs.take(i as int));
            assert(outs.take(i + 1).last() == outs[i as int]);
            assert(outs[i as int] == self.output_map.outputs@[i as int]@);
            match self.workspace_index(&self.output_map.outputs[i].active_workspace) {
                Some(j) => r.push(j),
                None => {},
            }
        }
        assert(outs.take(n as int) =~= outs);
        r
    }

    /// The first workspace shown on an output that has a window of surface `id`.
    pub fn find_workspace_by_surface(&self, id: SurfaceId) -> (r: Option<usize>)
        ensures
            match r {
                Some(j) => exists|t: int|
                    0 <= t < visible(self@.outputs, self@.workspaces).len() && visible(
                        self@.outputs,
                        self@.workspaces,
                    )[t] == j && holds_window(self@.workspaces[j as int].positioner, id)
                        && forall|s: int|
                        0 <= s < t ==> !holds_window(
                            self@.workspaces[#[trigger] visible(self@.outputs, self@.workspaces)[s] as int].positioner,
                            id,
                        ),
                None => forall|s: int|
                    0 <= s < visible(self@.outputs, self@.workspaces).len() ==> !holds_window(
                        self@.workspaces[#[trigger] visible(self@.outputs, self@.workspaces)[s] as int].positioner,
                        id,
                    ),
            },
    {
        let vis = self.visible_workspaces();
        let ghost ws = self@.workspaces;
        let nw = self.workspaces.len();
        proof {
            assert(ws.len() == nw);
            lemma_visible_in_range(self@.outputs, ws);
        }
        let m = vis.len();
        for t in 0..m
            invariant
                m == vis.len(),
                vis@ == visible(self@.outputs, self@.workspaces),
                ws == self@.workspaces,
                forall|q: int| 0 <= q < m ==> (#[trigger] vis@[q]) < ws.len(),
                forall|s: int|
                    0 <= s < t ==> !holds_window(ws[#[trigger] vis@[s] as int].positioner, id),
        {
            let j = vis[t];
            assert(vis@[t as int] == j);
            assert(ws[j as int] == self.workspaces@[j as int]@);
            let p = &self.workspaces[j].positioner;
            let found = match p.floating.find_window(id) {
                Some(_) => true,
                None => match p.tiling.find_window(id) {
                    Some(_) => true,
                    None => false,
                },
            };
            if found {
                return Some(j);
            }
        }
        None
    }

    /// The surfaces that may lie under `point`, in the order they are tried: the overlay and
    /// top layer surfaces of each output, then the windows of the workspaces the outputs show,
    /// then the bottom and background layer surfaces of each output. Which of them is hit
    /// depends on the surface trees.
    pub fn surface_under(&self, point: Point) -> (r: Vec<SurfaceId>)
        ensures
            r@ == hit_list(self@.outputs, self@.workspaces, point),
    {
        let ghost outs = self@.outputs;
        let ghost ws = self@.workspaces;
        let n = self.output_map.outputs.len();
        let mut above: Vec<SurfaceId> = Vec::new();
        let mut below: Vec<SurfaceId> = Vec::new();
        for i in 0..n
            invariant
                n == self.output_map.outputs.len(),
                outs == self@.outputs,
                n == outs.len(),
                above@ == layers_above(outs.take(i as int), point),
                below@ == layers_below(outs.take(i as int), point),
        {
            assert(outs.take(i + 1).drop_last() =~= outs.take(i as int));
            assert(outs.take(i + 1).last() == outs[i as int]);
            assert(outs[i as int] == self.output_map.outputs@[i as int]@);
            let lm = self.output_map.outputs[i].layer_map();
            let mut overlay = lm.get_surface_under(Layer::Overlay, point);
            let mut top = lm.get_surface_under(Layer::Top, point);
            let mut bottom = lm.get_surface_under(Layer::Bottom, point);
            let mut background = lm.get_surface_under(Layer::Background, point);
            above.append(&mut overlay);
            above.append(&mut top);
            below.append(&mut bottom);
            below.append(&mut background);
        }
        assert(outs.take(n as int) =~= outs);
        let vis = self.visible_workspaces();
        let nw = self.workspaces.len();
        proof {
            assert(ws.len() == nw);
            lemma_visible_in_range(outs, ws);
        }
        let m = vis.len();
        let mut wins: Vec<SurfaceId> = Vec::new();
        for t in 0..m
            invariant
                m == vis.len(),
                vis@ == visible(outs, ws),
                ws == self@.workspaces,
                forall|q: int| 0 <= q < m ==> (#[trigger] vis@[q]) < ws.len(),
                wins@ == windows_under(ws, vis@.take(t as int), point),
        {
            assert(vis@.take(t + 1).drop_last() =~= vis@.take(t as int));
            assert(vis@.take(t + 1).last() == vis@[t as int]);
            let j = vis[t];
            assert(ws[j as int] == self.workspaces@[j as int]@);
            let mut under = self.workspaces[j].positioner.surface_under(point);
            wins.append(&mut under);
        }
        assert(vis@.take(m as int) =~= vis@);
        let mut r = above;
        r.append(&mut wins);
        r.append(&mut below);
        r
    }

    /// The positioner of the active workspace.
    pub fn active_workspace(&mut self) -> (p: &mut Universal)
        requires
            old(self)@.active_workspace matches Some(key) && ws_index(
                old(self)@.workspaces,
                key,
            ) is Some,
        ensures
            ({
                let j = ws_index(old(self)@.workspaces, old(self)@.active_workspace->0)->0;
                &&& *p == old(self).workspaces@[j].positioner
                &&& final(self)@.workspaces.len() == old(self)@.workspaces.len()
                &&& final(self)@.workspaces[j].name == old(self)@.workspaces[j].name
                &&& final(self)@.workspaces[j].positioner == final(p)@
                &&& forall|k: int|
                    0 <= k < old(self)@.workspaces.len() && k != j ==> final(self)@.workspaces[k]
                        == old(self)@.workspaces[k]
                &&& final(self)@.outputs == old(self)@.outputs
                &&& final(self)@.active_workspace == old(self)@.active_workspace
                &&& final(self)@.pointer_location == old(self)@.pointer_location
            }),
    {
        let key = self.active_workspace.as_ref().unwrap();
        let j = self.workspace_index(key).unwrap();
        let ghost before = self@;
        proof {
            lemma_first_where(before.workspaces, named(before.active_workspace->0));
        }
        &mut self.workspaces[j].positioner
    }

    /// Give every workspace shown on an output the part of that output the layer surfaces
    /// leave free, output after output.
    pub fn update_workspaces_geometry(&mut self)
        requires
            fitting_fits(old(self)@.workspaces, old(self)@.outputs),
        ensures
            final(self)@ == (AnodiumView {
                workspaces: fitted(old(self)@.workspaces, old(self)@.outputs),
                ..old(self)@
            }),
    {
        let ghost ws0 = self@.workspaces;
        let ghost outs = self@.outputs;
        let n = self.output_map.outputs.len();
        for i in 0..n
            invariant
                n == self.output_map.outputs.len(),
                n == outs.len(),
                outs == self@.outputs,
                fitting_fits(ws0, outs),
                self@ == (AnodiumView {
                    workspaces: fitted(ws0, outs.take(i as int)),
                    ..old(self)@
                }),
        {
            assert(outs.take(i + 1).drop_last() =~= outs.take(i as int));
            assert(outs.take(i + 1).last() == outs[i as int]);
            assert(outs[i as int] == self.output_map.outputs@[i as int]@);
            proof {
                lemma_fitting_fits_prefix(ws0, outs, i + 1);
            }
            let ghost before = self@;
            match self.workspace_index(&self.output_map.outputs[i].active_workspace) {
                Some(j) => {
                    proof {
                        lemma_first_where(before.workspaces, named(outs[i as int].active_workspace));
                        assert(fitted_to_fits(before.workspaces, outs[i as int]));
                        assert(before.workspaces[j as int] == self.workspaces@[j as int]@);
                    }
                    let g = self.output_map.outputs[i].usable_geometry();
                    self.workspaces[j].positioner.set_geometry(g);
                    assert(self@.workspaces =~= fitted_to(before.workspaces, outs[i as int]));
                },
                None => {},
            }
        }
        assert(outs.take(n as int) =~= outs);
    }

    /// Switch to the workspace `key`. When an output shows it already, the pointer moves to
    /// the center of that workspace. Otherwise the first output under the pointer shows it
    /// (an empty workspace is made when none has that name), it becomes the active workspace,
    /// and the workspaces are fitted to their outputs.
    pub fn switch_workspace(&mut self, key: &str)
        requires
            shown(old(self)@.outputs, key@) ==> match ws_index(old(self)@.workspaces, key@) {
                Some(j) => center_fits(old(self)@.workspaces[j].positioner.floating_geometry),
                None => true,
            },
            !shown(old(self)@.outputs, key@) ==> fitting_fits(
                switched_workspaces(
                    old(self)@.workspaces,
                    old(self)@.outputs,
                    key@,
                    old(self)@.pointer_location,
                ),
                switched_outputs(old(self)@.outputs, key@, old(self)@.pointer_location),
            ),
        ensures
            final(self)@ == switched(old(self)@, key@),
    {
        let key_string = key.to_owned();
        let ghost v0 = self@;
        let n = self.output_map.outputs.len();
        let mut already_active = false;
        for i in 0..n
            invariant
                n == self.output_map.outputs.len(),
                n == v0.outputs.len(),
                self@ == v0,
                key_string@ == key@,
                already_active == exists|k: int|
                    0 <= k < i && (#[trigger] v0.outputs[k]).active_workspace == key@,
        {
            assert(v0.outputs[i as int] == self.output_map.outputs@[i as int]@);
            if self.output_map.outputs[i].active_workspace == key_string {
                already_active = true;
            }
        }
        assert(already_active == shown(v0.outputs, key@));
        if already_active {
            match self.workspace_index(&key_string) {
                Some(j) => {
                    proof {
                        lemma_first_where(v0.workspaces, named(key@));
                    }
                    assert(v0.workspaces[j as int] == self.workspaces@[j as int]@);
                    let geometry = self.workspaces[j].positioner.geometry();
                    let loc = geometry.loc;
                    let size = geometry.size;
                    self.pointer_location = Point {
                        x: loc.x + half(size.w),
                        y: loc.y + half(size.h),
                    };
                },
                None => {},
            }
        } else {
            let pointer = self.pointer_location;
            match self.output_map.find_by_position(pointer) {
                Some(k) => {
                    proof {
                        lemma_first_where(v0.outputs, covers(pointer));
                    }
                    match self.workspace_index(&key_string) {
                        Some(_) => {},
                        None => {
                            let positioner = Universal::new(
                                Point { x: 0, y: 0 },
                                Rectangle { loc: Point { x: 0, y: 0 }, size: Size { w: 0, h: 0 } },
                            );
                            self.workspaces.push(
                                Workspace { name: key_string.clone(), positioner },
                            );
                        },
                    }
                    self.output_map.outputs[k].set_active_workspace(key_string.clone());
                },
                None => {},
            }
            assert(self@.outputs =~= switched_outputs(v0.outputs, key@, pointer));
            assert(self@.workspaces =~= switched_workspaces(
                v0.workspaces,
                v0.outputs,
                key@,
                pointer,
            ));
            self.active_workspace = Some(key_string);
            self.update_workspaces_geometry();
        }
    }

    /// Add an output: it shows a new workspace named after the number of workspaces plus one
    /// (which becomes the active workspace when there is none), it is placed right of the
    /// others and the configurations are applied, then the workspaces are fitted to their
    /// outputs.
    pub fn add_output(&mut self, output: Output, configs: &Vec<OutputConfiguration>)
        requires
            old(self)@.workspaces.len() + 1 <= usize::MAX,
            widths_fit(old(self)@.outputs),
            configs_fit(
                old(self)@.outputs.push(
                    placed(
                        OutputView {
                            active_workspace: decimal((old(self)@.workspaces.len() + 1) as nat),
                            ..output@
                        },
                        old(self)@.outputs,
                    ),
                ),
                configs@,
            ),
            fitting_fits(
                bound(old(self)@.workspaces, decimal((old(self)@.workspaces.len() + 1) as nat)),
                apply_configs(
                    old(self)@.outputs.push(
                        placed(
                            OutputView {
                                active_workspace: decimal(
                                    (old(self)@.workspaces.len() + 1) as nat,
                                ),
                                ..output@
                            },
                            old(self)@.outputs,
                        ),
                    ),
                    configs@,
                ),
            ),
        ensures
            ({
                let key = decimal((old(self)@.workspaces.len() + 1) as nat);
                let outs = apply_configs(
                    old(self)@.outputs.push(
                        placed(OutputView { active_workspace: key, ..output@ }, old(self)@.outputs),
                    ),
                    configs@,
                );
                final(self)@ == (AnodiumView {
                    outputs: outs,
                    workspaces: fitted(bound(old(self)@.workspaces, key), outs),
                    active_workspace: match old(self)@.active_workspace {
                        Some(a) => Some(a),
                        None => Some(key),
                    },
                    pointer_location: old(self)@.pointer_location,
                })
            }),
    {
        let id = to_decimal(self.workspaces.len() + 1);
        if self.active_workspace.is_none() {
            self.active_workspace = Some(id.clone());
        }
        let mut output = output;
        output.set_active_workspace(id.clone());
        self.output_map.add(output, configs);
        let positioner = Universal::new(
            Point { x: 0, y: 0 },
            Rectangle { loc: Point { x: 0, y: 0 }, size: Size { w: 0, h: 0 } },
        );
        let ghost before = self@;
        match self.workspace_index(&id) {
            Some(j) => {
                proof {
                    lemma_first_where(before.workspaces, named(id@));
                }
                self.workspaces.set(j, Workspace { name: id, positioner });
            },
            None => {
                self.workspaces.push(Workspace { name: id, positioner });
            },
        }
        assert(self@.workspaces =~= bound(before.workspaces, decimal((old(self)@.workspaces.len() + 1) as nat)));
        self.update_workspaces_geometry();
    }

    /// Give the output named `name` the mode `mode` and the logical size `size`, apply the
    /// configurations, and fit the workspace it shows to it.
    pub fn update_output_mode_by_name(
        &mut self,
        mode: Mode,
        size: Size,
        name: &str,
        configs: &Vec<OutputConfiguration>,
    )
        requires
            configs_fit(updated(old(self)@.outputs, name@, Some(mode), Some(size)), configs@),
            ({
                let outs = apply_configs(
                    updated(old(self)@.outputs, name@, Some(mode), Some(size)),
                    configs@,
                );
                match first_where(outs, has_name(name@)) {
                    Some(k) => match ws_index(old(self)@.workspaces, outs[k].active_workspace) {
                        Some(j) => usable_fits(output_geometry(outs[k]), outs[k].zone)
                            && tiling_fits(
                            output_usable(outs[k]),
                            old(self)@.workspaces[j].positioner.tiling,
                        ),
                        None => false,
                    },
                    None => false,
                }
            }),
        ensures
            ({
                let outs = apply_configs(
                    updated(old(self)@.outputs, name@, Some(mode), Some(size)),
                    configs@,
                );
                let k = first_where(outs, has_name(name@))->0;
                let j = ws_index(old(self)@.workspaces, outs[k].active_workspace)->0;
                final(self)@ == (AnodiumView {
                    outputs: outs,
                    workspaces: old(self)@.workspaces.update(
                        j,
                        WorkspaceView {
                            positioner: with_geometry(
                                old(self)@.workspaces[j].positioner,
                                output_usable(outs[k]),
                            ),
                            ..old(self)@.workspaces[j]
                        },
                    ),
                    ..old(self)@
                })
            }),
    {
        self.output_map.update_by_name(Some(mode), Some(size), name, configs);
        let ghost outs = self@.outputs;
        let k = self.output_map.position_by_name(name).unwrap();
        proof {
            lemma_first_where(outs, has_name(name@));
        }
        assert(outs[k as int] == self.output_map.outputs@[k as int]@);
        let j = self.workspace_index(&self.output_map.outputs[k].active_workspace).unwrap();
        let ghost before = self@;
        proof {
            lemma_first_where(before.workspaces, named(outs[k as int].active_workspace));
        }
        assert(before.workspaces[j as int] == self.workspaces@[j as int]@);
        let g = self.output_map.outputs[k].usable_geometry();
        self.workspaces[j].positioner.set_geometry(g);
        assert(self@.workspaces =~= before.workspaces.update(
            j as int,
            WorkspaceView {
                positioner: with_geometry(before.workspaces[j as int].positioner, g),
                ..before.workspaces[j as int]
            },
        ));
    }

    /// Arrange the layer surfaces of every output and fit the workspaces to what they leave.
    pub fn arrange_wlr_layers(&mut self)
        requires
            all_layers_fit(old(self)@.outputs),
            fitting_fits(old(self)@.workspaces, arranged_outputs(old(self)@.outputs)),
        ensures
            final(self)@ == (AnodiumView {
                outputs: arranged_outputs(old(self)@.outputs),
                workspaces: fitted(old(self)@.workspaces, arranged_outputs(old(self)@.outputs)),
                ..old(self)@
            }),
    {
        self.output_map.arrange_layers();
        self.update_workspaces_geometry();
    }

    /// Map a layer surface on the output it asked for (or the first one) and fit the
    /// workspaces to what the layer surfaces leave.
    pub fn insert_wlr_layer(&mut self, output: Option<u64>, layer: LayerSurface)
        requires
            layer.update_fits(),
            match layer_target(old(self)@.outputs, output) {
                Some(k) => layers_fit(
                    seq![layer.spec_self_update()] + old(self)@.outputs[k].layers,
                    output_geometry(old(self)@.outputs[k]),
                ),
                None => true,
            },
            fitting_fits(old(self)@.workspaces, with_layer(old(self)@.outputs, output, layer)),
        ensures
            final(self)@ == (AnodiumView {
                outputs: with_layer(old(self)@.outputs, output, layer),
                workspaces: fitted(
                    old(self)@.workspaces,
                    with_layer(old(self)@.outputs, output, layer),
                ),
                ..old(self)@
            }),
    {
        self.output_map.insert_layer(output, layer);
        self.update_workspaces_geometry();
    }
}

} // verus!
