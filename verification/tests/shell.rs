use anodium::desktop_layout::layer_map::Layer;
use anodium::desktop_layout::window::{WindowKind, WindowSurface};
use anodium::framework::shell::{
    check_grab, PointerGrabInfo,
    LayerShellRequest, NotMappedList, ShellEvent, ShellManager, XdgRequest, XdgToplevelState,
};
use anodium::framework::surface_data::{MoveAfterResizeState, ResizeEdge};
use anodium::geometry::{Point, Rectangle, Size};
use anodium::on_commit::OnCommitDispatcher;

const FRESH: XdgToplevelState = XdgToplevelState { initial_configure_sent: false, configured: false };
const SENT: XdgToplevelState = XdgToplevelState { initial_configure_sent: true, configured: false };
const CONFIGURED: XdgToplevelState = XdgToplevelState { initial_configure_sent: true, configured: true };

#[test]
fn a_toplevel_is_configured_then_mapped() {
    let mut shell = ShellManager::init_shell();
    assert_eq!(shell.xdg_shell_request(5, XdgRequest::NewToplevel), None);
    assert_eq!(shell.not_mapped_list.windows.len(), 1);

    let first = shell.surface_commit(5, FRESH, false, None);
    assert!(first.send_toplevel_configure);
    assert!(first.created.is_none());
    assert!(!first.send_popup_configure);
    assert_eq!(first.events, vec![ShellEvent::SurfaceCommit { surface: 5 }]);
    let second = shell.surface_commit(5, SENT, false, None);
    assert!(!second.send_toplevel_configure);
    assert!(second.created.is_none());

    let third = shell.surface_commit(5, CONFIGURED, false, None);
    assert!(!third.send_toplevel_configure);
    let window = third.created.unwrap();
    assert_eq!(window.toplevel.id, 5);
    assert!(shell.not_mapped_list.windows.is_empty());
    assert_eq!(shell.windows.windows.len(), 1);
    assert!(third.resized.is_none());
    assert_eq!(
        third.events,
        vec![ShellEvent::WindowCreated { window }, ShellEvent::SurfaceCommit { surface: 5 }]
    );
}

#[test]
fn an_x11_window_is_mapped_at_once() {
    let mut l = NotMappedList::new();
    l.insert_window(WindowSurface::new(8, WindowKind::X11));
    let (send, mapped) = l.try_window_map(8, FRESH);
    assert!(!send);
    assert_eq!(mapped.unwrap().toplevel.id, 8);
    assert!(l.windows.is_empty());
    let (send, mapped) = l.try_window_map(8, FRESH);
    assert!(!send);
    assert!(mapped.is_none());
}

#[test]
fn dead_toplevels_are_dropped_by_refresh() {
    let mut l = NotMappedList::new();
    l.insert_window(WindowSurface::new(1, WindowKind::Xdg));
    l.insert_window(WindowSurface::new(2, WindowKind::Xdg));
    l.windows[0].toplevel.alive = false;
    assert!(l.find_window(1).is_none());
    l.refresh();
    assert_eq!(l.windows.len(), 1);
    assert_eq!(l.find_window(2).unwrap().toplevel.id, 2);
    assert!(l.remove_window(WindowSurface::new(3, WindowKind::Xdg)).is_none());
}

#[test]
fn requests_give_their_events() {
    let mut shell = ShellManager::init_shell();
    assert_eq!(
        shell.xdg_shell_request(3, XdgRequest::Move { serial: 11, grab_matches: true }),
        Some(ShellEvent::WindowMove { surface: 3, serial: 11 })
    );
    assert_eq!(shell.xdg_shell_request(3, XdgRequest::Move { serial: 11, grab_matches: false }), None);
    let edges = ResizeEdge { bits: ResizeEdge::BOTTOM_LEFT };
    assert_eq!(
        shell.xdg_shell_request(3, XdgRequest::Resize { serial: 2, edges, grab_matches: true }),
        Some(ShellEvent::WindowResize { surface: 3, serial: 2, edges })
    );
    assert_eq!(shell.xdg_shell_request(3, XdgRequest::Maximize), Some(ShellEvent::WindowMaximize { surface: 3 }));
    assert_eq!(shell.xdg_shell_request(3, XdgRequest::UnMaximize), Some(ShellEvent::WindowUnMaximize { surface: 3 }));
    assert_eq!(
        shell.xdg_shell_request(3, XdgRequest::Fullscreen { output: Some(4) }),
        Some(ShellEvent::WindowFullscreen { surface: 3, output: Some(4) })
    );
    assert_eq!(shell.xdg_shell_request(3, XdgRequest::UnFullscreen), Some(ShellEvent::WindowUnFullscreen { surface: 3 }));
    assert_eq!(shell.xdg_shell_request(3, XdgRequest::Minimize), Some(ShellEvent::WindowMinimize { surface: 3 }));
    assert_eq!(
        shell.xdg_shell_request(3, XdgRequest::ShowWindowMenu { serial: 9, location: Point::new(4, 5) }),
        Some(ShellEvent::ShowWindowMenu { surface: 3, serial: 9, location: Point::new(4, 5) })
    );
    assert_eq!(shell.xdg_shell_request(3, XdgRequest::NewPopup), None);
    assert_eq!(shell.xdg_shell_request(3, XdgRequest::Other), None);
}

#[test]
fn an_acknowledged_maximize_moves_the_window_at_the_next_commit() {
    let mut shell = ShellManager::init_shell();
    shell.xdg_shell_request(5, XdgRequest::NewToplevel);
    shell.surface_commit(5, CONFIGURED, false, None);
    let target = Rectangle::from_loc_and_size(Point::new(0, 30), Size::new(800, 570));
    shell.windows.find_mut(5).unwrap().maximize(target);
    shell.xdg_shell_request(5, XdgRequest::AckConfigure { serial: 1, is_resizing: false });
    let w = shell.windows.find_mut(5).unwrap();
    assert!(matches!(w.data.move_after_resize_state, MoveAfterResizeState::WaitingForCommit(_)));
    let out = shell.surface_commit(5, CONFIGURED, false, None);
    let (window, location) = out.resized.unwrap();
    assert_eq!(location, Point::new(0, 30));
    assert!(matches!(window.data.move_after_resize_state, MoveAfterResizeState::Current(_)));
    assert_eq!(
        out.events,
        vec![
            ShellEvent::WindowGotResized { window, new_location: Point::new(0, 30) },
            ShellEvent::SurfaceCommit { surface: 5 },
        ]
    );
}

#[test]
fn layer_surfaces_get_their_initial_configure() {
    let mut shell = ShellManager::init_shell();
    let e = shell.wlr_layer_shell_request(LayerShellRequest::NewLayerSurface {
        surface: 12,
        output: None,
        layer: Layer::Top,
        namespace: "panel".to_string(),
    });
    assert_eq!(
        e,
        ShellEvent::LayerCreated { surface: 12, output: None, layer: Layer::Top, namespace: "panel".to_string() }
    );
    assert!(shell.surface_commit(12, FRESH, false, None).send_layer_configure);
    assert!(!shell.surface_commit(12, FRESH, true, None).send_layer_configure);
    assert!(!shell.surface_commit(13, FRESH, false, None).send_layer_configure);
    assert_eq!(
        shell.wlr_layer_shell_request(LayerShellRequest::AckConfigure { surface: 12 }),
        ShellEvent::LayerAckConfigure { surface: 12 }
    );
    shell.layers[0].alive = false;
    shell.refresh();
    assert!(shell.layers.is_empty());
}

#[test]
fn commit_callbacks_run_in_order_for_their_surface_only() {
    let mut d: OnCommitDispatcher<&str> = OnCommitDispatcher::new();
    d.on_next_commit(1, "a");
    d.on_next_commit(2, "b");
    d.on_next_commit(1, "c");
    assert_eq!(d.handle_commit(1), vec!["a", "c"]);
    assert_eq!(d.cbs, vec![(2, "b")]);
    assert!(d.handle_commit(1).is_empty());
    assert_eq!(d.handle_commit(2), vec!["b"]);
    assert!(d.cbs.is_empty());
}

#[test]
fn commit_callbacks_are_run_on_the_state_in_order() {
    let mut d: OnCommitDispatcher<Box<dyn FnOnce(Vec<u64>, u64) -> Vec<u64>>> =
        OnCommitDispatcher::new();
    d.on_next_commit(1, Box::new(|mut v: Vec<u64>, s: u64| {
        v.push(10 + s);
        v
    }));
    d.on_next_commit(2, Box::new(|mut v: Vec<u64>, s: u64| {
        v.push(20 + s);
        v
    }));
    d.on_next_commit(1, Box::new(|mut v: Vec<u64>, s: u64| {
        v.push(30 + s);
        v
    }));
    let state = d.run_commit(1, vec![0]);
    assert_eq!(state, vec![0, 11, 31]);
    assert_eq!(d.cbs.len(), 1);
    assert_eq!(d.cbs[0].0, 2);
    let state = d.run_commit(1, state);
    assert_eq!(state, vec![0, 11, 31]);
    let state = d.run_commit(2, state);
    assert_eq!(state, vec![0, 11, 31, 22]);
    assert!(d.cbs.is_empty());
}

#[test]
fn a_popup_gets_its_initial_configure_once() {
    let mut shell = ShellManager::init_shell();
    let first = shell.surface_commit(20, FRESH, false, Some(false));
    assert!(first.send_popup_configure);
    assert!(!first.send_toplevel_configure);
    assert_eq!(first.events, vec![ShellEvent::SurfaceCommit { surface: 20 }]);
    assert!(!shell.surface_commit(20, FRESH, false, Some(true)).send_popup_configure);
    assert!(!shell.surface_commit(20, FRESH, false, None).send_popup_configure);
}

#[test]
fn a_grab_matches_only_its_serial_and_client() {
    let p = PointerGrabInfo { active_serial: Some(7), start_focus_client: Some(3) };
    assert!(check_grab(Some(p), 7, Some(3)));
    assert!(!check_grab(Some(p), 8, Some(3)));
    assert!(!check_grab(Some(p), 7, Some(4)));
    assert!(!check_grab(Some(p), 7, None));
    assert!(!check_grab(None, 7, Some(3)));
    let idle = PointerGrabInfo { active_serial: None, start_focus_client: Some(3) };
    assert!(!check_grab(Some(idle), 7, Some(3)));
    let unfocused = PointerGrabInfo { active_serial: Some(7), start_focus_client: None };
    assert!(!check_grab(Some(unfocused), 7, Some(3)));
}
