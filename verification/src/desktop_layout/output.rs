//! An output (a monitor) in the layout: its place, its mode and its layer surfaces.

use vstd::prelude::*;

use crate::desktop_layout::layer_map::{LayerExclusiveZone, LayerMap, LayerSurface};
use crate::geometry::{Point, Rectangle, Size};

verus! {

/// A video mode of an output, in physical pixels.
#[derive(Clone, Copy, Debug, PartialEq, Eq, Structural)]
pub struct Mode {
    pub size: Size,
    /// Refresh rate in millihertz.
    pub refresh: i32,
}

/// The abstract state of an output.
pub struct OutputView {
    pub name: Seq<char>,
    pub id: u64,
    pub mode: Mode,
    pub size: Size,
    pub location: Point,
    pub active_workspace: Seq<char>,
    pub layers: Seq<LayerSurface>,
    pub zone: LayerExclusiveZone,
}

/// An output of the layout.
#[derive(Debug)]
pub struct Output {
    pub name: String,
    /// Identifies the output's `wl_output` global.
    pub id: u64,
    pub current_mode: Mode,
    /// The logical size: the mode's size divided by the output scale, rounded.
    pub size: Size,
    pub location: Point,
    /// The name of the workspace shown on the output.
    pub active_workspace: String,
    pub layer_map: LayerMap,
}

impl View for Output {
    type V = OutputView;

    open spec fn view(&self) -> OutputView {
        OutputView {
            name: self.name@,
            id: self.id,
            mode: self.current_mode,
            size: self.size,
            location: self.location,
            active_workspace: self.active_workspace@,
            layers: self.layer_map.surfaces@,
            zone: self.layer_map.exclusive_zone,
        }
    }
}

/// The rectangle an output covers in the layout.
pub open spec fn output_geometry(o: OutputView) -> Rectangle {
    Rectangle { loc: o.location, size: o.size }
}

/// The part of `g` that the zones `z` leave free. The width loses the left zone twice and never
/// the right one.
pub open spec fn usable(g: Rectangle, z: LayerExclusiveZone) -> Rectangle {
    let left = (z.left as i32) as int;
    let top = (z.top as i32) as int;
    let bottom = (z.bottom as i32) as int;
    Rectangle {
        loc: Point { x: (g.loc.x + left) as i32, y: (g.loc.y + top) as i32 },
        size: Size { w: (g.size.w - left - left) as i32, h: (g.size.h - top - bottom) as i32 },
    }
}

/// Every intermediate value of `usable(g, z)` is an `i32`.
pub open spec fn usable_fits(g: Rectangle, z: LayerExclusiveZone) -> bool {
    let left = (z.left as i32) as int;
    let top = (z.top as i32) as int;
    let bottom = (z.bottom as i32) as int;
    &&& i32::MIN <= g.loc.x + left <= i32::MAX
    &&& i32::MIN <= g.loc.y + top <= i32::MAX
    &&& i32::MIN <= g.size.w - left <= i32::MAX
    &&& i32::MIN <= g.size.w - left - left <= i32::MAX
    &&& i32::MIN <= g.size.h - top <= i32::MAX
    &&& i32::MIN <= g.size.h - top - bottom <= i32::MAX
}

/// The usable geometry of an output.
pub open spec fn output_usable(o: OutputView) -> Rectangle {
    usable(output_geometry(o), o.zone)
}

impl Output {
    pub fn new(
        name: String,
        id: u64,
        location: Point,
        mode: Mode,
        size: Size,
        active_workspace: String,
    ) -> (o: Output)
        ensures
            o@.name == name@,
            o@.id == id,
            o@.location == location,
            o@.mode == mode,
            o@.size == size,
            o@.active_workspace == active_workspace@,
            o@.layers == Seq::<LayerSurface>::empty(),
            o@.zone == (LayerExclusiveZone { top: 0, bottom: 0, left: 0, right: 0 }),
    {
        Output {
            name,
            id,
            current_mode: mode,
            size,
            location,
            active_workspace,
            layer_map: LayerMap::new(),
        }
    }

    pub fn active_workspace(&self) -> (s: &str)
        ensures
            s@ == self@.active_workspace,
    {
        self.active_workspace.as_str()
    }

    pub fn set_active_workspace(&mut self, key: String)
        ensures
            final(self)@ == (OutputView { active_workspace: key@, ..old(self)@ }),
    {
        self.active_workspace = key;
    }

    pub fn geometry(&self) -> (r: Rectangle)
        ensures
            r == output_geometry(self@),
    {
        Rectangle { loc: self.location, size: self.size }
    }

    /// The part of the output that the layer surfaces' exclusive zones leave free.
    pub fn usable_geometry(&self) -> (r: Rectangle)
        requires
            usable_fits(output_geometry(self@), self@.zone),
        ensures
            r == output_usable(self@),
    {
        let mut ret = self.geometry();
        let zone = self.layer_map.exclusive_zone();
        ret.loc.x = ret.loc.x + zone.left as i32;
        ret.size.w = ret.size.w - zone.left as i32;
        ret.loc.y = ret.loc.y + zone.top as i32;
        ret.size.h = ret.size.h - zone.top as i32;
        ret.size.w = ret.size.w - zone.left as i32;
        ret.size.h = ret.size.h - zone.bottom as i32;
        ret
    }

    pub fn size(&self) -> (s: Size)
        ensures
            s == self@.size,
    {
        self.size
    }

    pub fn location(&self) -> (p: Point)
        ensures
            p == self@.location,
    {
        self.location
    }

    pub fn name(&self) -> (s: &str)
        ensures
            s@ == self@.name,
    {
        self.name.as_str()
    }

    pub fn current_mode(&self) -> (m: Mode)
        ensures
            m == self@.mode,
    {
        self.current_mode
    }

    pub fn layer_map(&self) -> (m: &LayerMap)
        ensures
            m.surfaces@ == self@.layers,
            m.exclusive_zone == self@.zone,
    {
        &self.layer_map
    }
}

} // verus!
