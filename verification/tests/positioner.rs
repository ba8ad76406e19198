use anodium::desktop_layout::window::{Window, WindowKind, WindowSurface};
use anodium::framework::surface_data::{
    MoveAfterResizeData, MoveAfterResizeState, ResizeEdge, ResizeState,
};
use anodium::geometry::{Point, Rectangle, Size};
use anodium::positioner::floating::Floating;
use anodium::positioner::tiling::Tiling;
use anodium::positioner::universal::{PositionerMode, Universal};
use anodium::positioner::{ButtonState, MouseButton};

fn rect(x: i32, y: i32, w: i32, h: i32) -> Rectangle {
    Rectangle::from_loc_and_size(Point::new(x, y), Size::new(w, h))
}

fn window(id: u64, kind: WindowKind, w: i32, h: i32) -> Window {
    let mut win = Window::new(WindowSurface::new(id, kind), Point::new(0, 0));
    win.surface_bbox = rect(0, 0, w, h);
    win.self_update();
    win
}

#[test]
fn floating_centers_new_windows() {
    let mut f = Floating::new(Point::new(0, 0), rect(0, 0, 1000, 800));
    f.map_toplevel(window(1, WindowKind::Xdg, 200, 100), true);
    let w = f.find_window(1).unwrap();
    assert_eq!(w.location, Point::new(400, 350));
    assert_eq!(w.bbox, rect(400, 350, 200, 100));
}

#[test]
fn floating_keeps_x11_and_maximized_windows_in_place() {
    let mut f = Floating::new(Point::new(0, 0), rect(0, 0, 1000, 800));
    let mut x = window(1, WindowKind::X11, 200, 100);
    x.set_location(Point::new(5, 6));
    f.map_toplevel(x, true);
    let mut m = window(2, WindowKind::Xdg, 200, 100);
    m.toplevel.maximized = true;
    m.set_location(Point::new(7, 8));
    f.map_toplevel(m, true);
    f.map_toplevel(window(3, WindowKind::Xdg, 10, 10), false);
    assert_eq!(f.find_window(1).unwrap().location, Point::new(5, 6));
    assert_eq!(f.find_window(2).unwrap().location, Point::new(7, 8));
    assert_eq!(f.find_window(3).unwrap().location, Point::new(0, 0));
}

#[test]
fn a_left_click_raises_the_floating_window() {
    let mut f = Floating::new(Point::new(0, 0), rect(0, 0, 1000, 800));
    f.map_toplevel(window(1, WindowKind::Xdg, 10, 10), false);
    f.map_toplevel(window(2, WindowKind::Xdg, 10, 10), false);
    f.on_pointer_button(MouseButton::Right, ButtonState::Pressed, Some(1));
    assert_eq!(f.windows.windows[0].toplevel.id, 2);
    f.on_pointer_button(MouseButton::Left, ButtonState::Pressed, Some(1));
    assert_eq!(f.windows.windows[0].toplevel.id, 1);
    assert!(f.windows.windows[0].toplevel.pending.activated);
}

#[test]
fn a_resize_request_records_where_it_started() {
    let mut f = Floating::new(Point::new(0, 0), rect(0, 0, 1000, 800));
    f.map_toplevel(window(1, WindowKind::Xdg, 200, 100), true);
    assert!(f.resize_request(1, ResizeEdge { bits: ResizeEdge::BOTTOM_RIGHT }));
    match f.find_window(1).unwrap().data.resize_state {
        ResizeState::Resizing(d) => {
            assert_eq!(d.initial_window_location, Point::new(400, 350));
            assert_eq!(d.initial_window_size, Size::new(200, 100));
        }
        other => panic!("unexpected resize state {:?}", other),
    }
    assert!(!f.resize_request(9, ResizeEdge { bits: ResizeEdge::TOP }));
}

#[test]
fn tiling_puts_the_oldest_window_left_and_stacks_the_others() {
    let mut t = Tiling::new(Point::new(0, 0), rect(0, 0, 1000, 600));
    t.map_toplevel(window(1, WindowKind::Xdg, 10, 10), true);
    let only = t.find_window(1).unwrap();
    assert_eq!(only.location, Point::new(10, 10));
    assert_eq!(only.toplevel.pending.size, Some(Size::new(980, 580)));
    t.map_toplevel(window(2, WindowKind::Xdg, 10, 10), true);
    t.map_toplevel(window(3, WindowKind::Xdg, 10, 10), true);
    let w1 = t.find_window(1).unwrap();
    let w2 = t.find_window(2).unwrap();
    let w3 = t.find_window(3).unwrap();
    assert_eq!(w1.location, Point::new(10, 10));
    assert_eq!(w1.toplevel.pending.size, Some(Size::new(480, 580)));
    assert_eq!(w2.location, Point::new(510, 10));
    assert_eq!(w2.toplevel.pending.size, Some(Size::new(480, 280)));
    assert_eq!(w3.location, Point::new(510, 310));
    assert_eq!(w3.toplevel.pending.size, Some(Size::new(480, 280)));
}

#[test]
fn tiling_moves_with_its_area() {
    let mut t = Tiling::new(Point::new(0, 0), rect(0, 0, 1000, 600));
    t.map_toplevel(window(1, WindowKind::Xdg, 10, 10), true);
    t.map_toplevel(window(2, WindowKind::Xdg, 10, 10), true);
    t.set_geometry(rect(100, 100, 400, 200));
    assert_eq!(t.find_window(1).unwrap().location, Point::new(110, 110));
    assert_eq!(t.find_window(2).unwrap().location, Point::new(310, 110));
}

#[test]
fn a_left_click_activates_only_the_tiled_window_under_the_pointer() {
    let mut t = Tiling::new(Point::new(0, 0), rect(0, 0, 1000, 600));
    t.map_toplevel(window(1, WindowKind::Xdg, 10, 10), true);
    t.map_toplevel(window(2, WindowKind::Xdg, 10, 10), true);
    t.on_pointer_button(MouseButton::Left, ButtonState::Pressed, Some(1));
    assert!(t.find_window(1).unwrap().toplevel.pending.activated);
    assert!(!t.find_window(2).unwrap().toplevel.pending.activated);
    t.on_pointer_button(MouseButton::Left, ButtonState::Pressed, None);
    assert!(!t.find_window(1).unwrap().toplevel.pending.activated);
}

#[test]
fn universal_maps_in_the_layer_of_its_mode_and_unmaps_from_both() {
    let mut u = Universal::new(Point::new(0, 0), rect(0, 0, 1000, 600));
    u.map_toplevel(window(1, WindowKind::Xdg, 100, 100), true);
    u.mode = PositionerMode::Tiling;
    u.map_toplevel(window(2, WindowKind::Xdg, 100, 100), true);
    assert_eq!(u.floating.windows.windows.len(), 1);
    assert_eq!(u.tiling.windows.windows.len(), 1);
    assert_eq!(u.with_windows_rev(), vec![2, 1]);
    assert_eq!(u.unmap_toplevel(2).unwrap().toplevel.id, 2);
    assert_eq!(u.unmap_toplevel(1).unwrap().toplevel.id, 1);
    assert!(u.unmap_toplevel(1).is_none());
}

#[test]
fn universal_maximizes_floating_windows_to_its_area() {
    let mut u = Universal::new(Point::new(0, 0), rect(0, 0, 1000, 600));
    u.map_toplevel(window(1, WindowKind::Xdg, 100, 100), true);
    u.maximize_request(1);
    let w = u.find_window(1).unwrap();
    assert!(w.toplevel.pending.maximized);
    assert_eq!(w.toplevel.pending.size, Some(Size::new(1000, 600)));
    u.set_geometry(rect(0, 0, 800, 600));
    assert_eq!(u.geometry(), rect(0, 0, 800, 600));
}

#[test]
fn universal_finds_windows_to_change_in_either_layer() {
    let mut u = Universal::new(Point::new(0, 0), rect(0, 0, 1000, 600));
    u.map_toplevel(window(1, WindowKind::Xdg, 100, 100), false);
    u.mode = PositionerMode::Tiling;
    u.map_toplevel(window(2, WindowKind::Xdg, 100, 100), false);
    u.find_window_mut(2).unwrap().exiting = true;
    assert!(u.tiling.windows.windows[0].exiting);
    u.find_window_mut(1).unwrap().exiting = true;
    assert!(u.floating.windows.windows[0].exiting);
    assert!(u.find_window_mut(3).is_none());
}

fn maximized_after_resize(id: u64, before: Size) -> Window {
    let mut m = window(id, WindowKind::Xdg, 800, 600);
    m.toplevel.maximized = true;
    m.set_location(Point::new(100, 50));
    m.data.move_after_resize_state = MoveAfterResizeState::Current(MoveAfterResizeData {
        initial_window_location: Point::new(10, 20),
        initial_size: before,
        target_window_location: Point::new(100, 50),
        target_size: Size::new(800, 600),
    });
    m
}

#[test]
fn a_floating_move_takes_a_maximized_window_back_to_its_size() {
    let mut f = Floating::new(Point::new(0, 0), rect(0, 0, 1000, 800));
    f.map_toplevel(maximized_after_resize(4, Size::new(400, 300)), false);
    let start = f.move_request(4, Some(Size::new(800, 600)), |loc: Point, i: Size, t: Size| {
        loc.x + i.w / 8 + t.w / 16
    }, );
    assert_eq!(start, Some(Point::new(100 + 100 + 25, 50)));
    let w = f.find_window(4).unwrap();
    assert!(!w.toplevel.pending.maximized);
    assert_eq!(w.toplevel.pending.size, Some(Size::new(400, 300)));
    assert!(w.toplevel.configure_pending);
    assert_eq!(
        w.data.move_after_resize_state,
        MoveAfterResizeState::WaitingForAck(MoveAfterResizeData {
            initial_window_location: Point::new(100, 50),
            initial_size: Size::new(800, 600),
            target_window_location: Point::new(225, 50),
            target_size: Size::new(400, 300),
        })
    );
    assert_eq!(f.move_request(9, None, |_: Point, _: Size, _: Size| 0), None);
}

#[test]
fn a_floating_move_without_sizes_starts_where_the_window_is() {
    let mut f = Floating::new(Point::new(0, 0), rect(0, 0, 1000, 800));
    f.map_toplevel(maximized_after_resize(4, Size::new(400, 300)), false);
    let start = f.move_request(4, None, |_: Point, _: Size, _: Size| 0);
    assert_eq!(start, Some(Point::new(100, 50)));
    let w = f.find_window(4).unwrap();
    assert_eq!(w.data.move_after_resize_state, MoveAfterResizeState::Idle);
    assert!(!w.toplevel.pending.maximized);
    let mut plain = Floating::new(Point::new(0, 0), rect(0, 0, 1000, 800));
    plain.map_toplevel(window(5, WindowKind::Xdg, 10, 10), false);
    let before = *plain.find_window(5).unwrap();
    assert_eq!(plain.move_request(5, Some(Size::new(10, 10)), |_: Point, _: Size, _: Size| 7), Some(before.location));
    assert_eq!(*plain.find_window(5).unwrap(), before);
}

#[test]
fn a_tiled_move_starts_at_the_pointer_without_sizes() {
    let mut t = Tiling::new(Point::new(0, 0), rect(0, 0, 1000, 800));
    t.windows.insert(maximized_after_resize(6, Size::new(400, 300)));
    let start = t.move_request(6, None, |_: Point, _: Size, _: Size| 0, Point::new(33, 44));
    assert_eq!(start, Some(Point::new(33, 44)));
    let w = t.find_window(6).unwrap();
    assert_eq!(w.data.move_after_resize_state, MoveAfterResizeState::Idle);
    assert_eq!(w.toplevel.pending.size, Some(Size::new(400, 300)));
    let mut u = Universal::new(Point::new(0, 0), rect(0, 0, 1000, 800));
    u.tiling.windows.insert(maximized_after_resize(7, Size::new(400, 300)));
    let start = u.move_request(7, Some(Size::new(800, 600)), |_: Point, _: Size, _: Size| 12, Point::new(1, 2));
    assert_eq!(start, Some(Point::new(12, 50)));
    assert_eq!(u.find_window(7).unwrap().data.move_after_resize_state, MoveAfterResizeState::Idle);
    assert_eq!(u.move_request(8, None, |_: Point, _: Size, _: Size| 0, Point::new(1, 2)), None);
}
