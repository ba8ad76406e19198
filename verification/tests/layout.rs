use anodium::desktop_layout::layer_map::{
    Anchor, ExclusiveZone, Layer, LayerExclusiveZone, LayerMap, LayerSurface,
    LayerSurfaceCachedState,
};
use anodium::desktop_layout::output::{Mode, Output};
use anodium::desktop_layout::output_map::{OutputConfiguration, OutputMap};
use anodium::desktop_layout::window::{Window, WindowKind, WindowSurface};
use anodium::desktop_layout::Anodium;
use anodium::geometry::{Point, Rectangle, Size};
use anodium::positioner::universal::PositionerMode;

fn state(w: i32, h: i32, anchor: u32, zone: ExclusiveZone) -> LayerSurfaceCachedState {
    LayerSurfaceCachedState {
        size: Size::new(w, h),
        anchor: Anchor { bits: anchor },
        exclusive_zone: zone,
        layer: Layer::Top,
    }
}

fn output(name: &str, id: u64, w: i32, h: i32) -> Output {
    Output::new(
        name.to_string(),
        id,
        Point::new(0, 0),
        Mode { size: Size::new(w, h), refresh: 60000 },
        Size::new(w, h),
        String::new(),
    )
}

fn rect(x: i32, y: i32, w: i32, h: i32) -> Rectangle {
    Rectangle::from_loc_and_size(Point::new(x, y), Size::new(w, h))
}

#[test]
fn layer_surfaces_are_placed_by_their_anchors() {
    let mut m = LayerMap::new();
    m.insert(LayerSurface::new(1, state(100, 30, Anchor::TOP, ExclusiveZone::Exclusive(30)), Layer::Top));
    m.insert(LayerSurface::new(2, state(50, 40, Anchor::BOTTOM | Anchor::RIGHT, ExclusiveZone::Neutral), Layer::Top));
    m.insert(LayerSurface::new(3, state(200, 100, 0, ExclusiveZone::DontCare), Layer::Overlay));
    let out = rect(1000, 0, 1920, 1080);
    m.arange(out);
    let by_id = |id: u64| m.find(id).unwrap().location;
    assert_eq!(by_id(1), Point::new(1000 + 960 - 50, 0));
    assert_eq!(by_id(2), Point::new(1000 + 1920 - 50, 1080 - 40));
    assert_eq!(by_id(3), Point::new(1000 + 960 - 100, 540 - 50));
    assert_eq!(m.exclusive_zone, LayerExclusiveZone { top: 30, bottom: 0, left: 0, right: 0 });
    for l in m.surfaces.iter() {
        assert_eq!(l.pending_size, Some(Size::new(1920, 1080)));
        assert!(l.configure_pending);
    }
}

#[test]
fn zones_add_up_for_full_edge_anchors_only() {
    let mut m = LayerMap::new();
    let top_bar = Anchor::TOP | Anchor::LEFT | Anchor::RIGHT;
    let left_bar = Anchor::LEFT | Anchor::TOP | Anchor::BOTTOM;
    m.insert(LayerSurface::new(1, state(0, 20, top_bar, ExclusiveZone::Exclusive(20)), Layer::Top));
    m.insert(LayerSurface::new(2, state(0, 10, Anchor::TOP, ExclusiveZone::Exclusive(10)), Layer::Top));
    m.insert(LayerSurface::new(3, state(40, 0, left_bar, ExclusiveZone::Exclusive(40)), Layer::Top));
    m.insert(LayerSurface::new(4, state(40, 0, Anchor::LEFT | Anchor::TOP, ExclusiveZone::Exclusive(99)), Layer::Top));
    m.arange(rect(0, 0, 800, 600));
    assert_eq!(m.exclusive_zone, LayerExclusiveZone { top: 30, bottom: 0, left: 40, right: 0 });
}

#[test]
fn arranging_twice_is_arranging_once() {
    let mut m = LayerMap::new();
    m.insert(LayerSurface::new(1, state(100, 30, Anchor::TOP, ExclusiveZone::Exclusive(30)), Layer::Top));
    m.insert(LayerSurface::new(2, state(60, 60, Anchor::RIGHT, ExclusiveZone::Exclusive(60)), Layer::Bottom));
    let out = rect(0, 0, 640, 480);
    m.arange(out);
    let once = m.surfaces.clone();
    let zone = m.exclusive_zone;
    m.arange(out);
    assert_eq!(m.surfaces, once);
    assert_eq!(m.exclusive_zone, zone);
}

#[test]
fn dead_layer_surfaces_are_forgotten() {
    let mut m = LayerMap::new();
    m.insert(LayerSurface::new(1, state(10, 10, 0, ExclusiveZone::Neutral), Layer::Top));
    m.insert(LayerSurface::new(2, state(10, 10, 0, ExclusiveZone::Neutral), Layer::Top));
    m.surfaces[0].state = None;
    m.refresh();
    assert_eq!(m.surfaces.len(), 1);
    assert_eq!(m.surfaces[0].id, 1);
    assert!(m.find(2).is_none());
}

fn on_layer(id: u64, layer: Layer) -> LayerSurface {
    let mut st = state(10, 10, 0, ExclusiveZone::Neutral);
    st.layer = layer;
    LayerSurface::new(id, st, Layer::Background)
}

#[test]
fn layers_are_listed_from_bottom_to_top() {
    let mut m = LayerMap::new();
    m.insert(on_layer(1, Layer::Top));
    m.insert(on_layer(2, Layer::Bottom));
    m.insert(on_layer(3, Layer::Top));
    assert_eq!(m.surfaces[1].layer(), Layer::Bottom);
    assert_eq!(m.with_layers_from_bottom_to_top(Layer::Top), vec![2, 0]);
    assert_eq!(m.with_layers_from_bottom_to_top(Layer::Overlay), Vec::<usize>::new());
}

#[test]
fn outputs_are_added_side_by_side() {
    let mut map = OutputMap::new();
    let none: Vec<OutputConfiguration> = Vec::new();
    let a = map.add(output("A", 1, 1920, 1080), &none).location();
    assert_eq!(a, Point::new(0, 0));
    let b = map.add(output("B", 2, 1280, 1024), &none).location();
    assert_eq!(b, Point::new(1920, 0));
    assert_eq!(map.width(), 3200);
    assert_eq!(map.height(100), Some(1080));
    assert_eq!(map.height(2000), Some(1024));
    assert_eq!(map.height(3200), None);
    assert_eq!(map.find_by_position(Point::new(1919, 5)), Some(0));
    assert_eq!(map.find_by_position(Point::new(1920, 5)), Some(1));
    assert_eq!(map.find_by_position(Point::new(100, 1080)), None);
    assert_eq!(map.find_by_name("B").unwrap().location(), Point::new(1920, 0));
    assert_eq!(map.find_by_output(2), Some(1));
    assert!(map.find_by_output(3).is_none());
}

#[test]
fn configurations_move_outputs() {
    let mut map = OutputMap::new();
    let none: Vec<OutputConfiguration> = Vec::new();
    map.add(output("A", 1, 100, 100), &none);
    let configs = vec![
        OutputConfiguration { id: 0, location: Point::new(500, 50) },
        OutputConfiguration { id: 7, location: Point::new(1, 1) },
    ];
    let b = map.add(output("B", 2, 100, 100), &configs).location();
    assert_eq!(b, Point::new(100, 0));
    assert_eq!(map.find_by_index(0).unwrap().location(), Point::new(500, 50));
}

#[test]
fn usable_geometry_leaves_the_zones_out() {
    let mut map = OutputMap::new();
    let none: Vec<OutputConfiguration> = Vec::new();
    map.add(output("A", 1, 1000, 800), &none);
    let top_bar = Anchor::TOP | Anchor::LEFT | Anchor::RIGHT;
    let left_bar = Anchor::LEFT | Anchor::TOP | Anchor::BOTTOM;
    map.insert_layer(Some(1), LayerSurface::new(5, state(0, 30, top_bar, ExclusiveZone::Exclusive(30)), Layer::Top));
    map.insert_layer(None, LayerSurface::new(6, state(20, 0, left_bar, ExclusiveZone::Exclusive(20)), Layer::Top));
    let o = map.find_by_index(0).unwrap();
    assert_eq!(o.layer_map().exclusive_zone, LayerExclusiveZone { top: 30, bottom: 0, left: 20, right: 0 });
    // The width loses the left zone twice.
    assert_eq!(o.usable_geometry(), rect(20, 30, 960, 770));
}

#[test]
fn a_new_output_shows_a_new_numbered_workspace() {
    let mut a = Anodium::new();
    let none: Vec<OutputConfiguration> = Vec::new();
    a.add_output(output("A", 1, 800, 600), &none);
    a.add_output(output("B", 2, 640, 480), &none);
    assert_eq!(a.output_map.find_by_index(0).unwrap().active_workspace(), "1");
    assert_eq!(a.output_map.find_by_index(1).unwrap().active_workspace(), "2");
    assert_eq!(a.active_workspace, Some("1".to_string()));
    assert_eq!(a.workspaces.len(), 2);
    assert_eq!(a.workspaces[1].positioner.geometry(), rect(800, 0, 640, 480));
}

#[test]
fn switching_to_a_hidden_workspace_shows_it_under_the_pointer() {
    let mut a = Anodium::new();
    let none: Vec<OutputConfiguration> = Vec::new();
    a.add_output(output("A", 1, 800, 600), &none);
    a.add_output(output("B", 2, 640, 480), &none);
    a.pointer_location = Point::new(900, 100);
    a.switch_workspace("7");
    assert_eq!(a.output_map.find_by_index(1).unwrap().active_workspace(), "7");
    assert_eq!(a.output_map.find_by_index(0).unwrap().active_workspace(), "1");
    assert_eq!(a.active_workspace, Some("7".to_string()));
    let j = a.workspace_index(&"7".to_string()).unwrap();
    assert_eq!(a.workspaces[j].positioner.geometry(), rect(800, 0, 640, 480));
    assert_eq!(a.pointer_location, Point::new(900, 100));
}

#[test]
fn switching_to_a_shown_workspace_moves_the_pointer_to_its_center() {
    let mut a = Anodium::new();
    let none: Vec<OutputConfiguration> = Vec::new();
    a.add_output(output("A", 1, 800, 600), &none);
    a.add_output(output("B", 2, 640, 480), &none);
    a.switch_workspace("2");
    assert_eq!(a.pointer_location, Point::new(800 + 320, 240));
    assert_eq!(a.active_workspace, Some("1".to_string()));
}

#[test]
fn switching_with_the_pointer_off_every_output_only_activates() {
    let mut a = Anodium::new();
    let none: Vec<OutputConfiguration> = Vec::new();
    a.add_output(output("A", 1, 800, 600), &none);
    a.pointer_location = Point::new(-5, -5);
    a.switch_workspace("3");
    assert_eq!(a.active_workspace, Some("3".to_string()));
    assert!(a.workspace_index(&"3".to_string()).is_none());
    assert_eq!(a.output_map.find_by_index(0).unwrap().active_workspace(), "1");
}

#[test]
fn an_output_mode_change_refits_its_workspace() {
    let mut a = Anodium::new();
    let none: Vec<OutputConfiguration> = Vec::new();
    a.add_output(output("A", 1, 800, 600), &none);
    a.update_output_mode_by_name(Mode { size: Size::new(1024, 768), refresh: 60000 }, Size::new(1024, 768), "A", &none);
    let o = a.output_map.find_by_name("A").unwrap();
    assert_eq!(o.current_mode().size, Size::new(1024, 768));
    assert_eq!(a.workspaces[0].positioner.geometry(), rect(0, 0, 1024, 768));
}

#[test]
fn a_layer_surface_shrinks_the_workspace_of_its_output() {
    let mut a = Anodium::new();
    let none: Vec<OutputConfiguration> = Vec::new();
    a.add_output(output("A", 1, 800, 600), &none);
    let bottom_bar = Anchor::BOTTOM | Anchor::LEFT | Anchor::RIGHT;
    a.insert_wlr_layer(None, LayerSurface::new(9, state(0, 25, bottom_bar, ExclusiveZone::Exclusive(25)), Layer::Top));
    assert_eq!(a.workspaces[0].positioner.geometry(), rect(0, 0, 800, 575));
    a.arrange_wlr_layers();
    assert_eq!(a.workspaces[0].positioner.geometry(), rect(0, 0, 800, 575));
}

#[test]
fn visible_workspaces_and_hit_test_order() {
    let mut a = Anodium::new();
    let none: Vec<OutputConfiguration> = Vec::new();
    a.add_output(output("A", 1, 800, 600), &none);
    a.add_output(output("B", 2, 640, 480), &none);
    assert_eq!(a.visible_workspaces(), vec![0, 1]);

    let mut w = Window::new(WindowSurface::new(40, WindowKind::Xdg), Point::new(0, 0));
    w.surface_bbox = rect(0, 0, 100, 100);
    w.self_update();
    a.workspaces[1].positioner.map_toplevel(w, false);
    assert_eq!(a.find_workspace_by_surface(40), Some(1));
    assert_eq!(a.find_workspace_by_surface(41), None);

    let mut bg = state(0, 0, 0, ExclusiveZone::Neutral);
    bg.layer = Layer::Background;
    a.insert_wlr_layer(Some(1), LayerSurface::new(50, bg, Layer::Background));
    let mut top = state(0, 0, 0, ExclusiveZone::Neutral);
    top.layer = Layer::Top;
    a.insert_wlr_layer(Some(1), LayerSurface::new(51, top, Layer::Top));
    for l in a.output_map.outputs[0].layer_map.surfaces.iter_mut() {
        l.surface_bbox = rect(0, 0, 800, 600);
        l.self_update();
    }
    assert_eq!(a.surface_under(Point::new(10, 10)), vec![51, 40, 50]);
    assert_eq!(a.surface_under(Point::new(700, 10)), vec![51, 50]);
}

#[test]
fn the_primary_output_is_the_first() {
    let mut map = OutputMap::new();
    assert!(map.with_primary().is_none());
    assert!(map.is_empty());
    let none: Vec<OutputConfiguration> = Vec::new();
    map.add(output("A", 1, 100, 100), &none);
    map.add(output("B", 2, 100, 100), &none);
    assert_eq!(map.with_primary().unwrap().name(), "A");
    assert_eq!(map.position_by_name("B"), Some(1));
    assert!(map.find_by_name("C").is_none());
}

#[test]
fn a_dead_layer_surface_shrinks_to_its_location() {
    let mut l = LayerSurface::new(1, state(10, 10, 0, ExclusiveZone::Neutral), Layer::Top);
    l.set_location(Point::new(5, 6));
    l.surface_bbox = rect(0, 0, 10, 10);
    l.self_update();
    assert_eq!(l.bbox(), rect(5, 6, 10, 10));
    l.state = None;
    l.self_update();
    assert_eq!(l.bbox(), rect(5, 6, 0, 0));
    assert!(l.surface().is_none());
}

fn tiled_window(id: u64) -> Window {
    let mut w = Window::new(WindowSurface::new(id, WindowKind::Xdg), Point::new(0, 0));
    w.surface_bbox = rect(0, 0, 100, 100);
    w.self_update();
    w
}

fn snapshot(a: &Anodium) -> Vec<(Rectangle, Vec<Window>, Vec<Window>)> {
    a.workspaces
        .iter()
        .map(|w| {
            (
                w.positioner.geometry(),
                w.positioner.floating.windows.windows.clone(),
                w.positioner.tiling.windows.windows.clone(),
            )
        })
        .collect()
}

#[test]
fn fitting_the_workspaces_twice_is_fitting_them_once() {
    let mut a = Anodium::new();
    let none: Vec<OutputConfiguration> = Vec::new();
    a.add_output(output("A", 1, 800, 600), &none);
    a.add_output(output("B", 2, 640, 480), &none);
    a.workspaces[1].positioner.mode = PositionerMode::Tiling;
    a.workspaces[1].positioner.map_toplevel(tiled_window(1), true);
    a.workspaces[1].positioner.map_toplevel(tiled_window(2), true);
    a.update_workspaces_geometry();
    let once = snapshot(&a);
    assert_eq!(once[1].0, rect(800, 0, 640, 480));
    a.update_workspaces_geometry();
    assert_eq!(snapshot(&a), once);
}

#[test]
fn arranging_the_layers_twice_is_arranging_them_once() {
    let mut a = Anodium::new();
    let none: Vec<OutputConfiguration> = Vec::new();
    a.add_output(output("A", 1, 800, 600), &none);
    let bottom_bar = Anchor::BOTTOM | Anchor::LEFT | Anchor::RIGHT;
    a.insert_wlr_layer(None, LayerSurface::new(9, state(0, 25, bottom_bar, ExclusiveZone::Exclusive(25)), Layer::Top));
    a.insert_wlr_layer(None, LayerSurface::new(8, state(50, 50, Anchor::RIGHT, ExclusiveZone::Neutral), Layer::Overlay));
    a.arrange_wlr_layers();
    let layers = a.output_map.find_by_index(0).unwrap().layer_map().surfaces.clone();
    let zone = *a.output_map.find_by_index(0).unwrap().layer_map().exclusive_zone();
    let workspaces = snapshot(&a);
    a.arrange_wlr_layers();
    assert_eq!(a.output_map.find_by_index(0).unwrap().layer_map().surfaces, layers);
    assert_eq!(*a.output_map.find_by_index(0).unwrap().layer_map().exclusive_zone(), zone);
    assert_eq!(snapshot(&a), workspaces);
    assert_eq!(zone, LayerExclusiveZone { top: 0, bottom: 25, left: 0, right: 0 });
}

#[test]
fn switching_again_only_moves_the_pointer_to_the_center() {
    let mut a = Anodium::new();
    let none: Vec<OutputConfiguration> = Vec::new();
    a.add_output(output("A", 1, 800, 600), &none);
    a.add_output(output("B", 2, 640, 480), &none);
    a.pointer_location = Point::new(900, 100);
    a.switch_workspace("7");
    let shown: Vec<String> = (0..2)
        .map(|i| a.output_map.find_by_index(i).unwrap().active_workspace().to_string())
        .collect();
    let workspaces = snapshot(&a);
    a.switch_workspace("7");
    assert_eq!(a.pointer_location, Point::new(800 + 320, 240));
    assert_eq!(a.active_workspace, Some("7".to_string()));
    assert_eq!(snapshot(&a), workspaces);
    for i in 0..2 {
        assert_eq!(a.output_map.find_by_index(i).unwrap().active_workspace(), shown[i]);
    }
}

#[test]
fn arranging_leaves_dead_layer_surfaces_alone() {
    let mut m = LayerMap::new();
    m.insert(LayerSurface::new(1, state(100, 30, Anchor::TOP, ExclusiveZone::Exclusive(30)), Layer::Top));
    m.insert(LayerSurface::new(2, state(60, 60, Anchor::RIGHT, ExclusiveZone::Exclusive(60)), Layer::Bottom));
    m.surfaces[0].state = None;
    let dead = m.surfaces[0];
    m.arange(rect(0, 0, 640, 480));
    assert_eq!(m.surfaces[0], dead);
    assert!(!m.surfaces[0].configure_pending);
    assert_eq!(m.surfaces[1].id, 1);
    assert_eq!(m.exclusive_zone, LayerExclusiveZone { top: 30, bottom: 0, left: 0, right: 0 });
}
