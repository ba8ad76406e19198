use anodium::desktop_layout::window::{Window, WindowKind, WindowSurface};
use anodium::desktop_layout::window_list::WindowList;
use anodium::geometry::{Point, Rectangle, Size};
use anodium::popup::{Popup, PopupList};

fn popup(id: u64, parent: u64, x: i32, y: i32) -> Popup {
    Popup { id, parent: Some(parent), alive: true, location: Point::new(x, y) }
}

#[test]
fn child_popups_are_visited_depth_first_newest_first() {
    let mut l = PopupList::new();
    l.insert(popup(10, 1, 5, 5));
    l.insert(popup(11, 10, 1, 2));
    l.insert(popup(12, 1, 100, 0));
    l.insert(popup(13, 2, 0, 0));
    let v = l.with_child_popups(1, Point::new(1000, 1000));
    assert_eq!(
        v,
        vec![(2, Point::new(1000, 1000)), (0, Point::new(1000, 1000)), (1, Point::new(1005, 1005))]
    );
    assert_eq!(l.with_child_popups(11, Point::new(0, 0)), Vec::new());
}

#[test]
fn dead_popups_are_not_visited_nor_found() {
    let mut l = PopupList::new();
    l.insert(popup(10, 1, 5, 5));
    l.insert(popup(11, 10, 1, 2));
    l.popups[0].alive = false;
    assert_eq!(l.with_child_popups(1, Point::new(0, 0)), Vec::new());
    assert!(l.find(10).is_none());
    assert_eq!(l.find(11).unwrap().id, 11);
    l.refresh();
    assert_eq!(l.popups.len(), 1);
    l.clear();
    assert!(l.popups.is_empty());
}

#[test]
fn popups_under_the_pointer_are_tried_window_by_window() {
    let mut windows = WindowList::new();
    let mut w1 = Window::new(WindowSurface::new(1, WindowKind::Xdg), Point::new(10, 20));
    w1.xdg_geometry = Some(Rectangle::from_loc_and_size(Point::new(3, 4), Size::new(50, 50)));
    let w2 = Window::new(WindowSurface::new(2, WindowKind::Xdg), Point::new(200, 0));
    windows.insert(w1);
    windows.insert(w2);
    let mut l = PopupList::new();
    l.insert(popup(10, 1, 5, 5));
    l.insert(popup(20, 2, 0, 0));
    assert_eq!(l.surface_under(&windows), vec![(1, Point::new(200, 0)), (0, Point::new(13, 24))]);
}
