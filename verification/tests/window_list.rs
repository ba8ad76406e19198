use anodium::desktop_layout::window::{Window, WindowKind, WindowSurface};
use anodium::desktop_layout::window_list::WindowList;
use anodium::geometry::{Point, Rectangle, Size};

fn window(id: u64, kind: WindowKind, x: i32, y: i32, w: i32, h: i32) -> Window {
    let mut win = Window::new(WindowSurface::new(id, kind), Point::new(x, y));
    win.surface_bbox = Rectangle::from_loc_and_size(Point::new(0, 0), Size::new(w, h));
    win
}

fn list(ws: Vec<Window>) -> WindowList {
    let mut l = WindowList::new();
    for w in ws.into_iter().rev() {
        l.insert(w);
    }
    l
}

fn ids(l: &WindowList) -> Vec<u64> {
    l.windows.iter().map(|w| w.toplevel.id).collect()
}

#[test]
fn insert_puts_the_window_on_top_with_its_box_updated() {
    let mut l = WindowList::new();
    l.insert(window(1, WindowKind::Xdg, 5, 6, 10, 20));
    l.insert(window(2, WindowKind::Xdg, 0, 0, 3, 3));
    assert_eq!(ids(&l), vec![2, 1]);
    let w1 = l.find(1).unwrap();
    assert_eq!(w1.bbox, Rectangle::from_loc_and_size(Point::new(5, 6), Size::new(10, 20)));
}

#[test]
fn raising_puts_the_window_on_top_and_only_it_active() {
    let mut l = list(vec![
        window(1, WindowKind::Xdg, 0, 0, 10, 10),
        window(2, WindowKind::Xdg, 0, 0, 10, 10),
        window(3, WindowKind::Xdg, 0, 0, 10, 10),
    ]);
    l.windows[0].toplevel.set_activated(true);
    l.bring_surface_to_top(3);
    assert_eq!(ids(&l), vec![3, 1, 2]);
    assert!(l.windows[0].toplevel.pending.activated);
    assert!(!l.windows[1].toplevel.pending.activated);
    assert!(!l.windows[2].toplevel.pending.activated);
    assert!(l.windows[0].toplevel.configure_pending);
    assert!(l.windows[1].toplevel.configure_pending);
    assert!(!l.windows[2].toplevel.configure_pending);
}

#[test]
fn raising_twice_is_raising_once() {
    let mut l = list(vec![
        window(1, WindowKind::Xdg, 0, 0, 10, 10),
        window(2, WindowKind::X11, 0, 0, 10, 10),
    ]);
    l.bring_surface_to_top(2);
    let once = l.windows.clone();
    l.bring_surface_to_top(2);
    assert_eq!(l.windows, once);
    assert_eq!(ids(&l), vec![2, 1]);
    assert!(!l.windows[0].toplevel.pending.activated);
}

#[test]
fn raising_an_unknown_surface_changes_nothing() {
    let mut l = list(vec![window(1, WindowKind::Xdg, 0, 0, 10, 10)]);
    let before = l.windows.clone();
    l.bring_surface_to_top(9);
    assert_eq!(l.windows, before);
}

#[test]
fn removing_after_inserting_gives_the_list_back() {
    let mut l = list(vec![
        window(1, WindowKind::Xdg, 0, 0, 10, 10),
        window(2, WindowKind::Xdg, 4, 4, 10, 10),
    ]);
    let before = l.windows.clone();
    let w = window(7, WindowKind::Xdg, 1, 2, 3, 4);
    l.insert(w);
    let removed = l.remove(7).unwrap();
    assert_eq!(removed.bbox, Rectangle::from_loc_and_size(Point::new(1, 2), Size::new(3, 4)));
    assert_eq!(l.windows, before);
    assert!(l.remove(7).is_none());
}

#[test]
fn dead_windows_are_not_found() {
    let mut l = list(vec![window(1, WindowKind::Xdg, 0, 0, 10, 10)]);
    l.windows[0].toplevel.alive = false;
    assert!(l.find(1).is_none());
    assert!(l.position(1).is_none());
}

#[test]
fn refresh_drops_exited_windows_and_updates_the_others() {
    let mut l = list(vec![
        window(1, WindowKind::Xdg, 0, 0, 10, 10),
        window(2, WindowKind::Xdg, 0, 0, 10, 10),
    ]);
    l.windows[1].exited = true;
    l.windows[0].location = Point::new(50, 60);
    l.refresh();
    assert_eq!(ids(&l), vec![1]);
    assert_eq!(l.windows[0].bbox.loc, Point::new(50, 60));
}

#[test]
fn surface_under_lists_the_boxes_holding_the_point_topmost_first() {
    let l = list(vec![
        window(1, WindowKind::Xdg, 0, 0, 100, 100),
        window(2, WindowKind::Xdg, 200, 0, 100, 100),
        window(3, WindowKind::Xdg, 50, 50, 100, 100),
    ]);
    assert_eq!(l.surface_under(Point::new(60, 60)), vec![1, 3]);
    assert_eq!(l.surface_under(Point::new(250, 10)), vec![2]);
    assert_eq!(l.surface_under(Point::new(180, 10)), Vec::<u64>::new());
}

#[test]
fn a_press_raises_and_focuses_the_window_under_the_pointer() {
    let mut l = list(vec![
        window(1, WindowKind::Xdg, 0, 0, 5, 5),
        window(2, WindowKind::Xdg, 0, 0, 5, 5),
        window(3, WindowKind::Xdg, 0, 0, 5, 5),
    ]);
    assert_eq!(l.focus_on_button(true, false, Some(3)), Some(Some(3)));
    assert_eq!(ids(&l), vec![3, 1, 2]);
    assert!(l.find(3).unwrap().toplevel.pending.activated);
    assert!(!l.find(1).unwrap().toplevel.pending.activated);

    assert_eq!(l.focus_on_button(false, false, Some(2)), None);
    assert_eq!(l.focus_on_button(true, true, Some(2)), None);
    assert_eq!(ids(&l), vec![3, 1, 2]);

    assert_eq!(l.focus_on_button(true, false, None), Some(None));
    assert_eq!(ids(&l), vec![3, 1, 2]);
    assert!(l.windows.iter().all(|w| !w.toplevel.pending.activated));
    assert!(l.find(3).unwrap().toplevel.configure_pending);
}
