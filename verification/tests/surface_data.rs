use anodium::desktop_layout::window::{Window, WindowKind, WindowSurface};
use anodium::framework::surface_data::{
    MoveAfterResizeState, ResizeData, ResizeEdge, ResizeState, SurfaceData,
};
use anodium::geometry::{Point, Rectangle, Size};

fn xdg_window(x: i32, y: i32, w: i32, h: i32) -> Window {
    let mut win = Window::new(WindowSurface::new(4, WindowKind::Xdg), Point::new(x, y));
    win.surface_bbox = Rectangle::from_loc_and_size(Point::new(0, 0), Size::new(w, h));
    win.self_update();
    win
}

fn resize_data(edges: u32) -> ResizeData {
    ResizeData {
        edges: ResizeEdge { bits: edges },
        initial_window_location: Point::new(1, 2),
        initial_window_size: Size::new(3, 4),
    }
}

#[test]
fn maximize_then_unmaximize_brings_the_window_back() {
    let mut w = xdg_window(30, 40, 200, 100);
    let target = Rectangle::from_loc_and_size(Point::new(0, 20), Size::new(1920, 1060));
    w.maximize(target);
    assert!(w.toplevel.pending.maximized);
    assert_eq!(w.toplevel.pending.size, Some(Size::new(1920, 1060)));
    assert!(w.data.commit().is_none());

    w.data.ack_configure(5, false);
    let moved_to = w.data.commit();
    assert_eq!(moved_to, Some(Point::new(0, 20)));
    w.set_location(moved_to.unwrap());

    w.unmaximize();
    assert!(!w.toplevel.pending.maximized);
    assert_eq!(w.toplevel.pending.size, Some(Size::new(200, 100)));
    w.data.ack_configure(6, false);
    assert_eq!(w.data.commit(), Some(Point::new(30, 40)));
}

#[test]
fn unmaximize_without_maximize_lets_the_client_choose_the_size() {
    let mut w = xdg_window(0, 0, 10, 10);
    w.unmaximize();
    assert_eq!(w.toplevel.pending.size, None);
    assert_eq!(w.data.move_after_resize_state, MoveAfterResizeState::Idle);
}

#[test]
fn maximize_asks_nothing_of_an_x11_window() {
    let mut w = Window::new(WindowSurface::new(4, WindowKind::X11), Point::new(0, 0));
    w.maximize(Rectangle::from_loc_and_size(Point::new(0, 0), Size::new(10, 10)));
    assert!(!w.toplevel.pending.maximized);
    assert!(!w.toplevel.configure_pending);
}

#[test]
fn final_ack_then_commit_ends_the_resize() {
    let mut d = SurfaceData::new();
    d.resize_state = ResizeState::WaitingForFinalAck(resize_data(ResizeEdge::BOTTOM_RIGHT), 10);
    d.ack_configure(9, true);
    assert_eq!(d.resize_state, ResizeState::WaitingForFinalAck(resize_data(ResizeEdge::BOTTOM_RIGHT), 10));
    d.ack_configure(10, false);
    assert_eq!(d.resize_state, ResizeState::WaitingForFinalAck(resize_data(ResizeEdge::BOTTOM_RIGHT), 10));
    d.ack_configure(10, true);
    assert_eq!(d.resize_state, ResizeState::WaitingForCommit(resize_data(ResizeEdge::BOTTOM_RIGHT)));
    assert_eq!(d.commit(), None);
    assert_eq!(d.resize_state, ResizeState::NotResizing);
}

#[test]
fn serials_compare_across_the_wrap_around() {
    let mut d = SurfaceData::new();
    d.resize_state = ResizeState::WaitingForFinalAck(resize_data(ResizeEdge::RIGHT), u32::MAX - 1);
    d.ack_configure(3, true);
    assert_eq!(d.resize_state, ResizeState::WaitingForCommit(resize_data(ResizeEdge::RIGHT)));

    let mut e = SurfaceData::new();
    e.resize_state = ResizeState::WaitingForFinalAck(resize_data(ResizeEdge::RIGHT), 3);
    e.ack_configure(u32::MAX - 1, true);
    assert_eq!(e.resize_state, ResizeState::WaitingForFinalAck(resize_data(ResizeEdge::RIGHT), 3));
}

#[test]
fn resize_edges_intersect_by_bits() {
    let e = ResizeEdge { bits: ResizeEdge::TOP_RIGHT };
    assert!(e.intersects(ResizeEdge::TOP));
    assert!(e.intersects(ResizeEdge::TOP_LEFT));
    assert!(!e.intersects(ResizeEdge::BOTTOM_LEFT));
}
