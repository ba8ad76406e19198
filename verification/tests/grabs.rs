use anodium::desktop_layout::output::{Mode, Output};
use anodium::desktop_layout::output_map::OutputConfiguration;
use anodium::desktop_layout::window::{Window, WindowKind, WindowSurface};
use anodium::desktop_layout::Anodium;
use anodium::framework::surface_data::{MoveAfterResizeData, MoveAfterResizeState};
use anodium::geometry::{Point, Rectangle, Size};
use anodium::grabs::MoveSurfaceGrab;

fn window(id: u64, x: i32, y: i32) -> Window {
    let mut w = Window::new(WindowSurface::new(id, WindowKind::Xdg), Point::new(x, y));
    w.surface_bbox = Rectangle::from_loc_and_size(Point::new(0, 0), Size::new(50, 40));
    w.self_update();
    w
}

fn two_outputs() -> Anodium {
    let mut a = Anodium::new();
    let none: Vec<OutputConfiguration> = Vec::new();
    for (name, id) in [("A", 1u64), ("B", 2u64)] {
        a.add_output(
            Output::new(
                name.to_string(),
                id,
                Point::new(0, 0),
                Mode { size: Size::new(800, 600), refresh: 60000 },
                Size::new(800, 600),
                String::new(),
            ),
            &none,
        );
    }
    a
}

#[test]
fn the_grabbed_window_follows_the_pointer() {
    let grab = MoveSurfaceGrab { toplevel: 1, initial_window_location: Point::new(10, 10) };
    let mut grabbed = Some(window(1, 10, 10));
    grab.motion(&mut grabbed, Point::new(30, 15));
    let w = grabbed.unwrap();
    assert_eq!(w.location, Point::new(30, 15));
    assert_eq!(w.bbox, Rectangle::from_loc_and_size(Point::new(30, 15), Size::new(50, 40)));
    grab.motion(&mut grabbed, Point::new(10, 10));
    assert_eq!(grabbed.unwrap(), window(1, 10, 10));
}

#[test]
fn a_window_waiting_to_move_after_a_resize_stays() {
    let grab = MoveSurfaceGrab { toplevel: 1, initial_window_location: Point::new(10, 10) };
    let mut w = window(1, 10, 10);
    w.data.move_after_resize_state = MoveAfterResizeState::WaitingForAck(MoveAfterResizeData {
        initial_window_location: Point::new(0, 0),
        initial_size: Size::new(1, 1),
        target_window_location: Point::new(0, 0),
        target_size: Size::new(1, 1),
    });
    let mut grabbed = Some(w);
    grab.motion(&mut grabbed, Point::new(99, 99));
    assert_eq!(grabbed.unwrap().location, Point::new(10, 10));
}

#[test]
fn the_window_is_dropped_into_the_workspace_under_it() {
    let mut a = two_outputs();
    let grab = MoveSurfaceGrab { toplevel: 1, initial_window_location: Point::new(0, 0) };
    let held = grab.button(&mut a, Some(window(1, 900, 100)), true);
    assert!(held.is_some());
    assert!(a.workspaces[1].positioner.find_window(1).is_none());
    let released = grab.button(&mut a, held, false);
    assert!(released.is_none());
    let w = a.workspaces[1].positioner.find_window(1).unwrap();
    assert_eq!(w.location, Point::new(900, 100));
    assert!(a.workspaces[0].positioner.find_window(1).is_none());
}

#[test]
fn a_window_dropped_off_every_output_goes_to_the_active_workspace() {
    let mut a = two_outputs();
    let grab = MoveSurfaceGrab { toplevel: 1, initial_window_location: Point::new(0, 0) };
    grab.button(&mut a, Some(window(1, 5000, 100)), false);
    assert!(a.workspaces[0].positioner.find_window(1).is_some());
}
