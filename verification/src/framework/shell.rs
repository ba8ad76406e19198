//! The shell side of the compositor: toplevels wait in a list until their first configure is
//! acknowledged, then they are mapped; xdg-shell and layer-shell requests and surface commits
//! turn into the events the compositor acts on.

use vstd::prelude::*;

use crate::desktop_layout::layer_map::Layer;
use crate::desktop_layout::window::{SurfaceId, Window, WindowKind, WindowSurface};
use crate::desktop_layout::window_list::{first_match, has_match, is_first_match, window_is};
use crate::framework::surface_data::{
    location_after_commit, resize_data_of, ResizeEdge, SurfaceData,
};
use crate::geometry::Point;

verus! {

/// What the xdg-shell role state of a toplevel says at a commit.
#[derive(Clone, Copy, Debug, PartialEq, Eq, Structural)]
pub struct XdgToplevelState {
    /// The initial configure was sent.
    pub initial_configure_sent: bool,
    /// The client acknowledged a configure.
    pub configured: bool,
}

/// The index of the first entry of `ws` whose toplevel is `t`.
pub open spec fn toplevel_index(ws: Seq<Window>, t: WindowSurface) -> Option<int> {
    if exists|k: int| 0 <= k < ws.len() && (#[trigger] ws[k]).toplevel == t {
        Some(
            choose|k: int|
                0 <= k < ws.len() && (#[trigger] ws[k]).toplevel == t && forall|j: int|
                    0 <= j < k ==> (#[trigger] ws[j]).toplevel != t,
        )
    } else {
        None
    }
}

/// What trying to map the toplevel of `surface` does to the waiting windows `ws`: whether the
/// initial configure is to be sent, the window that gets mapped, and the windows left
/// waiting. An xdg toplevel is mapped once it is configured, an X11 one at once.
pub open spec fn map_attempt(ws: Seq<Window>, surface: SurfaceId, st: XdgToplevelState) -> (
    bool,
    Option<Window>,
    Seq<Window>,
) {
    if has_match(ws, surface) {
        let k = first_match(ws, surface);
        let w = ws[k];
        let send = w.toplevel.kind == WindowKind::Xdg && !st.initial_configure_sent;
        if w.toplevel.kind == WindowKind::X11 || st.configured {
            (send, Some(w), ws.remove(k))
        } else {
            (send, None, ws)
        }
    } else {
        (false, None, ws)
    }
}

/// The windows of `ws` whose toplevel is alive, in order.
pub open spec fn alive_windows(ws: Seq<Window>) -> Seq<Window>
    decreases ws.len(),
{
    if ws.len() == 0 {
        ws
    } else if ws.last().toplevel.alive {
        alive_windows(ws.drop_last()).push(ws.last())
    } else {
        alive_windows(ws.drop_last())
    }
}

/// The index of the first live window of `surface`, searching the exec list.
fn first_window_of(ws: &Vec<Window>, surface: SurfaceId) -> (r: Option<usize>)
    ensures
        match r {
            Some(k) => is_first_match(ws@, surface, k as int),
            None => !has_match(ws@, surface),
        },
{
    let n = ws.len();
    for i in 0..n
        invariant
            n == ws.len(),
            forall|j: int| 0 <= j < i ==> !window_is(#[trigger] ws@[j], surface),
    {
        if ws[i].toplevel.alive && ws[i].toplevel.id == surface {
            return Some(i);
        }
    }
    None
}

/// A new xdg toplevel gets its initial configure at its first commit and waits; once the
/// client acknowledged a configure, the next commit maps it and it stops waiting.
pub proof fn law_new_toplevel_maps_once_configured(waiting: Seq<Window>, surface: SurfaceId)
    requires
        !has_match(waiting, surface),
    ensures
        ({
            let w = Window::spec_new(
                WindowSurface::spec_new(surface, WindowKind::Xdg),
                Point { x: 0, y: 0 },
            );
            let ws = waiting.push(w);
            let first = XdgToplevelState { initial_configure_sent: false, configured: false };
            let later = XdgToplevelState { initial_configure_sent: true, configured: true };
            &&& map_attempt(ws, surface, first) == (true, None::<Window>, ws)
            &&& map_attempt(ws, surface, later) == (false, Some(w), waiting)
        }),
{
    let w = Window::spec_new(
        WindowSurface::spec_new(surface, WindowKind::Xdg),
        Point { x: 0, y: 0 },
    );
    let ws = waiting.push(w);
    let k = waiting.len() as int;
    assert(ws[k] == w);
    assert forall|j: int| 0 <= j < k implies !window_is(#[trigger] ws[j], surface) by {
        assert(ws[j] == waiting[j]);
    }
    assert(is_first_match(ws, surface, k));
    crate::desktop_layout::window_list::lemma_first_match(ws, surface, k);
    assert(ws.remove(k) =~= waiting);
}

/// The live windows of `ws`, in order.
fn keep_alive(ws: Vec<Window>) -> (r: Vec<Window>)
    ensures
        r@ == alive_windows(ws@),
{
    let mut r: Vec<Window> = Vec::new();
    let n = ws.len();
    for i in 0..n
        invariant
            n == ws.len(),
            r@ == alive_windows(ws@.take(i as int)),
    {
        assert(ws@.take(i + 1).drop_last() =~= ws@.take(i as int));
        if ws[i].toplevel.alive {
            r.push(ws[i]);
        }
    }
    assert(ws@.take(n as int) =~= ws@);
    r
}

/// The toplevels that have no buffer mapped yet.
#[derive(Debug)]
pub struct NotMappedList {
    pub windows: Vec<Window>,
}

impl NotMappedList {
    pub fn new() -> (l: NotMappedList)
        ensures
            l.windows@ == Seq::<Window>::empty(),
    {
        NotMappedList { windows: Vec::new() }
    }

    /// A new toplevel waits for its first configure, at the origin.
    pub fn insert_window(&mut self, toplevel: WindowSurface)
        ensures
            final(self).windows@ == old(self).windows@.push(
                Window::spec_new(toplevel, Point { x: 0, y: 0 }),
            ),
    {
        self.windows.push(Window::new(toplevel, Point { x: 0, y: 0 }));
    }

    /// The waiting window of the live toplevel of `surface`.
    pub fn find_window(&self, surface: SurfaceId) -> (r: Option<&Window>)
        ensures
            match r {
                Some(w) => exists|k: int| is_first_match(self.windows@, surface, k) && *w == self.windows@[k],
                None => !has_match(self.windows@, surface),
            },
    {
        match first_window_of(&self.windows, surface) {
            Some(k) => Some(&self.windows[k]),
            None => None,
        }
    }

    /// The waiting window of the live toplevel of `surface`, to change it in place.
    pub fn find_window_mut(&mut self, surface: SurfaceId) -> (r: Option<&mut Window>)
        ensures
            match r {
                Some(w) => exists|k: int|
                    is_first_match(old(self).windows@, surface, k) && *w == old(self).windows@[k]
                        && final(self).windows@ == old(self).windows@.update(k, *final(w)),
                None => !has_match(old(self).windows@, surface) && final(self).windows@
                    == old(self).windows@,
            },
    {
        match first_window_of(&self.windows, surface) {
            Some(k) => Some(&mut self.windows[k]),
            None => None,
        }
    }

    /// Try to map the toplevel of `surface`, given what its xdg role state says: the result
    /// tells whether the initial configure is to be sent now, and holds the window when it is
    /// mapped, which leaves the list.
    pub fn try_window_map(&mut self, surface: SurfaceId, state: XdgToplevelState) -> (r: (
        bool,
        Option<Window>,
    ))
        ensures
            ({
                let m = map_attempt(old(self).windows@, surface, state);
                r.0 == m.0 && r.1 == m.1 && final(self).windows@ == m.2
            }),
    {
        match first_window_of(&self.windows, surface) {
            Some(k) => {
                proof {
                    crate::desktop_layout::window_list::lemma_first_match(
                        self.windows@,
                        surface,
                        k as int,
                    );
                }
                let toplevel = self.windows[k].toplevel;
                let send = match toplevel.kind {
                    WindowKind::Xdg => !state.initial_configure_sent,
                    WindowKind::X11 => false,
                };
                let mapped = match toplevel.kind {
                    WindowKind::Xdg => state.configured,
                    WindowKind::X11 => true,
                };
                if mapped {
                    let ghost ws = self.windows@;
                    let w = self.remove_window(toplevel);
                    proof {
                        let j = toplevel_index(ws, toplevel)->0;
                        assert(ws[k as int].toplevel == toplevel);
                        if j < k {
                            assert(!window_is(ws[j], surface));
                        }
                        assert(j == k);
                    }
                    (send, w)
                } else {
                    (send, None)
                }
            },
            None => (false, None),
        }
    }

    /// Remove the first waiting window of `toplevel`.
    pub fn remove_window(&mut self, toplevel: WindowSurface) -> (r: Option<Window>)
        ensures
            match toplevel_index(old(self).windows@, toplevel) {
                Some(k) => r == Some(old(self).windows@[k]) && final(self).windows@ == old(
                    self,
                ).windows@.remove(k),
                None => r is None && final(self).windows@ == old(self).windows@,
            },
    {
        let n = self.windows.len();
        for i in 0..n
            invariant
                n == self.windows.len(),
                self.windows@ == old(self).windows@,
                forall|j: int| 0 <= j < i ==> (#[trigger] self.windows@[j]).toplevel != toplevel,
        {
            if self.windows[i].toplevel == toplevel {
                proof {
                    let ws = self.windows@;
                    assert(ws[i as int].toplevel == toplevel);
                    let c = toplevel_index(ws, toplevel)->0;
                    assert(0 <= c < ws.len() && ws[c].toplevel == toplevel && forall|j: int|
                        0 <= j < c ==> (#[trigger] ws[j]).toplevel != toplevel);
                    if c < i {
                        assert(ws[c].toplevel != toplevel);
                    } else if i < c {
                        assert(ws[i as int].toplevel != toplevel);
                    }
                }
                return Some(self.windows.remove(i));
            }
        }
        None
    }

    /// Forget the toplevels that are gone.
    pub fn refresh(&mut self)
        ensures
            final(self).windows@ == alive_windows(old(self).windows@),
    {
        let mut ws: Vec<Window> = Vec::new();
        std::mem::swap(&mut ws, &mut self.windows);
        self.windows = keep_alive(ws);
    }
}

/// The mapped toplevels of the shell.
#[derive(Debug)]
pub struct ShellWindowList {
    pub windows: Vec<Window>,
}

impl ShellWindowList {
    pub fn new() -> (l: ShellWindowList)
        ensures
            l.windows@ == Seq::<Window>::empty(),
    {
        ShellWindowList { windows: Vec::new() }
    }

    pub fn push(&mut self, window: Window)
        ensures
            final(self).windows@ == old(self).windows@.push(window),
    {
        self.windows.push(window);
    }

    /// The window of the live toplevel of `surface`, to change it in place.
    pub fn find_mut(&mut self, surface: SurfaceId) -> (r: Option<&mut Window>)
        ensures
            match r {
                Some(w) => exists|k: int|
                    is_first_match(old(self).windows@, surface, k) && *w == old(self).windows@[k]
                        && final(self).windows@ == old(self).windows@.update(k, *final(w)),
                None => !has_match(old(self).windows@, surface) && final(self).windows@
                    == old(self).windows@,
            },
    {
        match first_window_of(&self.windows, surface) {
            Some(k) => Some(&mut self.windows[k]),
            None => None,
        }
    }

    /// Forget the windows whose toplevel is gone and update the others.
    pub fn refresh(&mut self)
        requires
            forall|i: int|
                0 <= i < old(self).windows.len() ==> (#[trigger] old(self).windows@[i]).update_fits(),
        ensures
            final(self).windows@ == alive_windows(old(self).windows@).map_values(
                |w: Window| w.spec_self_update(),
            ),
    {
        let ghost kept = alive_windows(old(self).windows@);
        proof {
            lemma_alive_windows_from(old(self).windows@);
            assert forall|j: int| 0 <= j < kept.len() implies (#[trigger] kept[j]).update_fits() by {
                let i = choose|i: int|
                    0 <= i < old(self).windows@.len() && old(self).windows@[i] == kept[j];
                assert(old(self).windows@[i].update_fits());
            }
        }
        let mut all: Vec<Window> = Vec::new();
        std::mem::swap(&mut all, &mut self.windows);
        let mut ws = keep_alive(all);
        let n = ws.len();
        for i in 0..n
            invariant
                n == ws.len(),
                n == kept.len(),
                forall|j: int| 0 <= j < kept.len() ==> (#[trigger] kept[j]).update_fits(),
                forall|j: int| 0 <= j < i ==> ws@[j] == (#[trigger] kept[j]).spec_self_update(),
                forall|j: int| i <= j < n ==> ws@[j] == #[trigger] kept[j],
        {
            let mut w = ws[i];
            assert(w == kept[i as int]);
            w.self_update();
            ws.set(i, w);
        }
        assert(ws@ =~= kept.map_values(|w: Window| w.spec_self_update()));
        self.windows = ws;
    }
}

/// Every window kept alive comes from the list, so it keeps whatever holds of all of them.
pub proof fn lemma_alive_windows_from(ws: Seq<Window>)
    ensures
        forall|j: int|
            0 <= j < alive_windows(ws).len() ==> exists|i: int|
                0 <= i < ws.len() && ws[i] == #[trigger] alive_windows(ws)[j],
    decreases ws.len(),
{
    if ws.len() > 0 {
        lemma_alive_windows_from(ws.drop_last());
        let prev = alive_windows(ws.drop_last());
        assert forall|j: int| 0 <= j < alive_windows(ws).len() implies exists|i: int|
            0 <= i < ws.len() && ws[i] == #[trigger] alive_windows(ws)[j] by {
            if j < prev.len() {
                let i = choose|i: int| 0 <= i < ws.drop_last().len() && ws.drop_last()[i] == prev[j];
                assert(ws[i] == alive_windows(ws)[j]);
            } else {
                assert(ws[ws.len() - 1] == alive_windows(ws)[j]);
            }
        }
    }
}

/// A layer surface the shell knows.
#[derive(Clone, Copy, Debug, PartialEq, Eq, Structural)]
pub struct ShellLayer {
    pub id: SurfaceId,
    pub alive: bool,
}

/// An xdg-shell request about the toplevel of a surface, with what the compositor found out
/// about it.
#[derive(Clone, Copy, Debug, PartialEq, Eq, Structural)]
pub enum XdgRequest {
    NewToplevel,
    /// An interactive move; `grab_matches` tells whether the pointer holds a click grab of
    /// that serial on a surface of the same client, as `check_grab` computes it.
    Move { serial: u32, grab_matches: bool },
    /// An interactive resize, with the same check as a move.
    Resize { serial: u32, edges: ResizeEdge, grab_matches: bool },
    Maximize,
    UnMaximize,
    /// Go fullscreen, on the output of that id if the client named one.
    Fullscreen { output: Option<u64> },
    UnFullscreen,
    Minimize,
    NewPopup,
    PopupGrab,
    PopupReposition,
    ShowWindowMenu { serial: u32, location: Point },
    /// The toplevel acknowledged the configure `serial`; `is_resizing` tells whether its
    /// current state holds the resizing flag.
    AckConfigure { serial: u32, is_resizing: bool },
    /// Any other request, such as a popup's acknowledgement.
    Other,
}

/// What the seat's pointer tells of its grab: the serial of the grab in progress, if one is,
/// and the client of the surface that had the pointer focus when that grab started, if any.
#[derive(Clone, Copy, Debug, PartialEq, Eq, Structural)]
pub struct PointerGrabInfo {
    pub active_serial: Option<u32>,
    pub start_focus_client: Option<u64>,
}

/// A move or resize request made with `serial` by client `client` (`None` once the surface is
/// gone) may start: the seat has a pointer, it holds a grab of that serial, and the surface
/// focused when the grab started belongs to the same client.
pub open spec fn grab_matches(pointer: Option<PointerGrabInfo>, serial: u32, client: Option<u64>) -> bool {
    match (pointer, client) {
        (Some(p), Some(c)) => p.active_serial == Some(serial) && p.start_focus_client == Some(c),
        _ => false,
    }
}

/// Whether a move or resize request made with `serial` by client `client` may start (see
/// `grab_matches`); the answer is the `grab_matches` flag of the request.
pub fn check_grab(pointer: Option<PointerGrabInfo>, serial: u32, client: Option<u64>) -> (r: bool)
    ensures
        r == grab_matches(pointer, serial, client),
{
    match (pointer, client) {
        (Some(p), Some(c)) => {
            let serial_matches = match p.active_serial {
                Some(s) => s == serial,
                None => false,
            };
            let client_matches = match p.start_focus_client {
                Some(f) => f == c,
                None => false,
            };
            serial_matches && client_matches
        },
        _ => false,
    }
}

/// A layer-shell request.
#[derive(Debug, PartialEq, Eq)]
pub enum LayerShellRequest {
    NewLayerSurface { surface: SurfaceId, output: Option<u64>, layer: Layer, namespace: String },
    AckConfigure { surface: SurfaceId },
}

/// What the shell tells the compositor.
#[derive(Debug, PartialEq, Eq)]
pub enum ShellEvent {
    WindowCreated { window: Window },
    WindowMove { surface: SurfaceId, serial: u32 },
    WindowResize { surface: SurfaceId, serial: u32, edges: ResizeEdge },
    WindowGotResized { window: Window, new_location: Point },
    WindowMaximize { surface: SurfaceId },
    WindowUnMaximize { surface: SurfaceId },
    WindowFullscreen { surface: SurfaceId, output: Option<u64> },
    WindowUnFullscreen { surface: SurfaceId },
    WindowMinimize { surface: SurfaceId },
    ShowWindowMenu { surface: SurfaceId, serial: u32, location: Point },
    SurfaceCommit { surface: SurfaceId },
    LayerCreated { surface: SurfaceId, output: Option<u64>, layer: Layer, namespace: String },
    LayerAckConfigure { surface: SurfaceId },
}

/// The events a commit of `surface` gives, in order: the window that got mapped, the move of
/// the mapped window, and last the commit itself.
pub open spec fn commit_events(
    surface: SurfaceId,
    created: Option<Window>,
    resized: Option<(Window, Point)>,
) -> Seq<ShellEvent> {
    let a = match created {
        Some(w) => seq![ShellEvent::WindowCreated { window: w }],
        None => Seq::empty(),
    };
    let b = match resized {
        Some(r) => a.push(ShellEvent::WindowGotResized { window: r.0, new_location: r.1 }),
        None => a,
    };
    b.push(ShellEvent::SurfaceCommit { surface })
}

/// A commit gives its `SurfaceCommit` event exactly once, as the last event, after the events
/// of the window it mapped or moved.
pub proof fn law_surface_commit_comes_last(
    surface: SurfaceId,
    created: Option<Window>,
    resized: Option<(Window, Point)>,
)
    ensures
        ({
            let e = commit_events(surface, created, resized);
            &&& e.len() >= 1
            &&& e.last() == ShellEvent::SurfaceCommit { surface }
            &&& forall|i: int| 0 <= i < e.len() - 1 ==> !(#[trigger] e[i] is SurfaceCommit)
            &&& created matches Some(w) ==> e[0] == ShellEvent::WindowCreated { window: w }
            &&& resized matches Some(r) ==> e[e.len() - 2] == ShellEvent::WindowGotResized {
                window: r.0,
                new_location: r.1,
            }
        }),
{
}

/// What a commit of a surface asks of the compositor.
#[derive(Debug, PartialEq, Eq)]
pub struct CommitOutcome {
    /// The events to hand to the compositor, in order.
    pub events: Vec<ShellEvent>,
    /// Send the initial configure of the toplevel.
    pub send_toplevel_configure: bool,
    /// The toplevel got mapped as this window (a `WindowCreated` event).
    pub created: Option<Window>,
    /// The mapped window is to move to this location (a `WindowGotResized` event).
    pub resized: Option<(Window, Point)>,
    /// Send the initial configure of the layer surface.
    pub send_layer_configure: bool,
    /// Send the initial configure of the popup.
    pub send_popup_configure: bool,
}

/// `ws` after the live window of `surface` took the acknowledgement of configure `serial`.
pub open spec fn acked_in(ws: Seq<Window>, surface: SurfaceId, serial: u32, is_resizing: bool) -> Seq<
    Window,
> {
    if has_match(ws, surface) {
        let k = first_match(ws, surface);
        ws.update(k, Window { data: ws[k].data.acked(serial, is_resizing), ..ws[k] })
    } else {
        ws
    }
}

/// The event an xdg-shell request gives, if any.
pub open spec fn xdg_event(surface: SurfaceId, request: XdgRequest) -> Option<ShellEvent> {
    match request {
        XdgRequest::Move { serial, grab_matches } => if grab_matches {
            Some(ShellEvent::WindowMove { surface, serial })
        } else {
            None
        },
        XdgRequest::Resize { serial, edges, grab_matches } => if grab_matches {
            Some(ShellEvent::WindowResize { surface, serial, edges })
        } else {
            None
        },
        XdgRequest::Maximize => Some(ShellEvent::WindowMaximize { surface }),
        XdgRequest::UnMaximize => Some(ShellEvent::WindowUnMaximize { surface }),
        XdgRequest::Fullscreen { output } => Some(ShellEvent::WindowFullscreen { surface, output }),
        XdgRequest::UnFullscreen => Some(ShellEvent::WindowUnFullscreen { surface }),
        XdgRequest::Minimize => Some(ShellEvent::WindowMinimize { surface }),
        XdgRequest::ShowWindowMenu { serial, location } => Some(
            ShellEvent::ShowWindowMenu { surface, serial, location },
        ),
        _ => None,
    }
}

/// The mapped windows after the toplevel of `surface` was tried for mapping.
pub open spec fn mapped_after(ws: Seq<Window>, m: (bool, Option<Window>, Seq<Window>)) -> Seq<Window> {
    match m.1 {
        Some(w) => ws.push(w),
        None => ws,
    }
}

/// The window of `surface` after a commit: updated, and its surface data committed.
pub open spec fn after_commit(w: Window) -> Window {
    let u = w.spec_self_update();
    Window { data: u.data.committed(), ..u }
}

/// The window can take a commit: its box can be updated, and it is not being resized by its
/// top or left edge.
pub open spec fn commit_fits(w: Window) -> bool {
    &&& w.update_fits()
    &&& match resize_data_of(w.data.resize_state) {
        Some(d) => !d.edges.spec_intersects(ResizeEdge::TOP_LEFT),
        None => true,
    }
}

/// Some live layer surface is `surface`.
pub open spec fn has_layer(ls: Seq<ShellLayer>, surface: SurfaceId) -> bool {
    exists|k: int| 0 <= k < ls.len() && (#[trigger] ls[k]).alive && ls[k].id == surface
}

/// The live layer surfaces of `ls`, in order.
pub open spec fn alive_layers(ls: Seq<ShellLayer>) -> Seq<ShellLayer>
    decreases ls.len(),
{
    if ls.len() == 0 {
        ls
    } else if ls.last().alive {
        alive_layers(ls.drop_last()).push(ls.last())
    } else {
        alive_layers(ls.drop_last())
    }
}

/// The shell state: the toplevels waiting to be mapped, the mapped ones and the layer
/// surfaces.
#[derive(Debug)]
pub struct ShellManager {
    pub not_mapped_list: NotMappedList,
    pub windows: ShellWindowList,
    pub layers: Vec<ShellLayer>,
}

impl ShellManager {
    pub fn init_shell() -> (s: ShellManager)
        ensures
            s.not_mapped_list.windows@ == Seq::<Window>::empty(),
            s.windows.windows@ == Seq::<Window>::empty(),
            s.layers@ == Seq::<ShellLayer>::empty(),
    {
        ShellManager {
            not_mapped_list: NotMappedList::new(),
            windows: ShellWindowList::new(),
            layers: Vec::new(),
        }
    }

    /// Handle an xdg-shell request about the toplevel of `surface`: a new toplevel waits to
    /// be mapped; an acknowledgement moves the surface's resize and move-after-resize states
    /// on; a move or resize with a matching grab, and the other toplevel requests, give the
    /// event the compositor acts on; popup requests are not handled.
    pub fn xdg_shell_request(&mut self, surface: SurfaceId, request: XdgRequest) -> (r: Option<
        ShellEvent,
    >)
        requires
            request is AckConfigure ==> has_match(old(self).windows.windows@, surface) || has_match(
                old(self).not_mapped_list.windows@,
                surface,
            ),
        ensures
            r == xdg_event(surface, request),
            final(self).layers@ == old(self).layers@,
            match request {
                XdgRequest::NewToplevel => {
                    &&& final(self).not_mapped_list.windows@ == old(self).not_mapped_list.windows@.push(
                        Window::spec_new(
                            WindowSurface::spec_new(surface, WindowKind::Xdg),
                            Point { x: 0, y: 0 },
                        ),
                    )
                    &&& final(self).windows.windows@ == old(self).windows.windows@
                },
                XdgRequest::AckConfigure { serial, is_resizing } => if has_match(
                    old(self).windows.windows@,
                    surface,
                ) {
                    &&& final(self).windows.windows@ == acked_in(
                        old(self).windows.windows@,
                        surface,
                        serial,
                        is_resizing,
                    )
                    &&& final(self).not_mapped_list.windows@ == old(self).not_mapped_list.windows@
                } else {
                    &&& final(self).windows.windows@ == old(self).windows.windows@
                    &&& final(self).not_mapped_list.windows@ == acked_in(
                        old(self).not_mapped_list.windows@,
                        surface,
                        serial,
                        is_resizing,
                    )
                },
                _ => {
                    &&& final(self).windows.windows@ == old(self).windows.windows@
                    &&& final(self).not_mapped_list.windows@ == old(self).not_mapped_list.windows@
                },
            },
    {
        match request {
            XdgRequest::NewToplevel => {
                self.not_mapped_list.insert_window(WindowSurface::new(surface, WindowKind::Xdg));
                None
            },
            XdgRequest::Move { serial, grab_matches } => {
                if grab_matches {
                    Some(ShellEvent::WindowMove { surface, serial })
                } else {
                    None
                }
            },
            XdgRequest::Resize { serial, edges, grab_matches } => {
                if grab_matches {
                    Some(ShellEvent::WindowResize { surface, serial, edges })
                } else {
                    None
                }
            },
            XdgRequest::Maximize => Some(ShellEvent::WindowMaximize { surface }),
            XdgRequest::UnMaximize => Some(ShellEvent::WindowUnMaximize { surface }),
            XdgRequest::Fullscreen { output } => Some(ShellEvent::WindowFullscreen { surface, output }),
            XdgRequest::UnFullscreen => Some(ShellEvent::WindowUnFullscreen { surface }),
            XdgRequest::Minimize => Some(ShellEvent::WindowMinimize { surface }),
            XdgRequest::NewPopup | XdgRequest::PopupGrab | XdgRequest::PopupReposition => None,
            XdgRequest::ShowWindowMenu { serial, location } => Some(
                ShellEvent::ShowWindowMenu { surface, serial, location },
            ),
            XdgRequest::AckConfigure { serial, is_resizing } => {
                match self.windows.find_mut(surface) {
                    Some(w) => {
                        proof {
                            let k = choose|k: int|
                                is_first_match(old(self).windows.windows@, surface, k);
                            crate::desktop_layout::window_list::lemma_first_match(
                                old(self).windows.windows@,
                                surface,
                                k,
                            );
                        }
                        w.data.ack_configure(serial, is_resizing);
                    },
                    None => {
                        match self.not_mapped_list.find_window_mut(surface) {
                            Some(w) => {
                                proof {
                                    let k = choose|k: int|
                                        is_first_match(old(self).not_mapped_list.windows@, surface, k);
                                    crate::desktop_layout::window_list::lemma_first_match(
                                        old(self).not_mapped_list.windows@,
                                        surface,
                                        k,
                                    );
                                }
                                w.data.ack_configure(serial, is_resizing);
                            },
                            None => {},
                        }
                    },
                }
                None
            },
            XdgRequest::Other => None,
        }
    }

    /// Handle a layer-shell request: a new layer surface is recorded and announced, an
    /// acknowledgement is passed on.
    pub fn wlr_layer_shell_request(&mut self, request: LayerShellRequest) -> (e: ShellEvent)
        ensures
            final(self).windows.windows@ == old(self).windows.windows@,
            final(self).not_mapped_list.windows@ == old(self).not_mapped_list.windows@,
            match request {
                LayerShellRequest::NewLayerSurface { surface, output, layer, namespace } => {
                    &&& final(self).layers@ == old(self).layers@.push(
                        ShellLayer { id: surface, alive: true },
                    )
                    &&& e == ShellEvent::LayerCreated { surface, output, layer, namespace }
                },
                LayerShellRequest::AckConfigure { surface } => {
                    &&& final(self).layers@ == old(self).layers@
                    &&& e == ShellEvent::LayerAckConfigure { surface }
                },
            },
    {
        match request {
            LayerShellRequest::NewLayerSurface { surface, output, layer, namespace } => {
                self.layers.push(ShellLayer { id: surface, alive: true });
                ShellEvent::LayerCreated { surface, output, layer, namespace }
            },
            LayerShellRequest::AckConfigure { surface } => ShellEvent::LayerAckConfigure { surface },
        }
    }

    /// Whether some live layer surface is `surface`.
    fn find_layer(&self, surface: SurfaceId) -> (b: bool)
        ensures
            b == has_layer(self.layers@, surface),
    {
        let n = self.layers.len();
        for i in 0..n
            invariant
                n == self.layers.len(),
                forall|j: int| 0 <= j < i ==> !((#[trigger] self.layers@[j]).alive && self.layers@[j].id == surface),
        {
            if self.layers[i].alive && self.layers[i].id == surface {
                return true;
            }
        }
        false
    }

    /// `surface` committed. A waiting toplevel gets its initial configure if it had none, and
    /// is mapped once configured; a popup gets its initial configure if it had none; the
    /// mapped window of the surface is updated and its resize and move-after-resize states
    /// move on, which may move it; a layer surface gets its initial configure if it had none.
    /// The events come out in that order, the commit's own event last. `popup_configure_sent`
    /// is `None` when the surface is no popup that the popup manager tracks, and otherwise
    /// tells whether the popup's initial configure went out.
    pub fn surface_commit(
        &mut self,
        surface: SurfaceId,
        toplevel_state: XdgToplevelState,
        layer_configure_sent: bool,
        popup_configure_sent: Option<bool>,
    ) -> (r: CommitOutcome)
        requires
            ({
                let ws = mapped_after(
                    old(self).windows.windows@,
                    map_attempt(old(self).not_mapped_list.windows@, surface, toplevel_state),
                );
                has_match(ws, surface) ==> commit_fits(ws[first_match(ws, surface)])
            }),
        ensures
            ({
                let m = map_attempt(old(self).not_mapped_list.windows@, surface, toplevel_state);
                let ws = mapped_after(old(self).windows.windows@, m);
                &&& r.send_toplevel_configure == m.0
                &&& r.created == m.1
                &&& final(self).not_mapped_list.windows@ == m.2
                &&& if has_match(ws, surface) {
                    let k = first_match(ws, surface);
                    let w = after_commit(ws[k]);
                    &&& final(self).windows.windows@ == ws.update(k, w)
                    &&& r.resized == match location_after_commit(
                        ws[k].data.move_after_resize_state,
                    ) {
                        Some(p) => Some((w, p)),
                        None => None,
                    }
                } else {
                    &&& final(self).windows.windows@ == ws
                    &&& r.resized is None
                }
                &&& r.events@ == commit_events(surface, r.created, r.resized)
                &&& r.send_layer_configure == (has_layer(old(self).layers@, surface)
                    && !layer_configure_sent)
                &&& final(self).layers@ == old(self).layers@
                &&& r.send_popup_configure == (popup_configure_sent == Some(false))
            }),
    {
        let (send_toplevel_configure, created) = self.not_mapped_list.try_window_map(
            surface,
            toplevel_state,
        );
        match created {
            Some(w) => self.windows.push(w),
            None => {},
        }
        let ghost ws = self.windows.windows@;
        let resized = match self.windows.find_mut(surface) {
            Some(window) => {
                proof {
                    let k = choose|k: int| is_first_match(ws, surface, k);
                    crate::desktop_layout::window_list::lemma_first_match(ws, surface, k);
                }
                window.self_update();
                let new_location = window.data.commit();
                match new_location {
                    Some(p) => Some((*window, p)),
                    None => None,
                }
            },
            None => None,
        };
        let send_popup_configure = match popup_configure_sent {
            Some(sent) => !sent,
            None => false,
        };
        let send_layer_configure = self.find_layer(surface) && !layer_configure_sent;
        let mut events: Vec<ShellEvent> = Vec::new();
        match created {
            Some(w) => events.push(ShellEvent::WindowCreated { window: w }),
            None => {},
        }
        match resized {
            Some((w, p)) => events.push(ShellEvent::WindowGotResized { window: w, new_location: p }),
            None => {},
        }
        events.push(ShellEvent::SurfaceCommit { surface });
        assert(events@ =~= commit_events(surface, created, resized));
        CommitOutcome {
            events,
            send_toplevel_configure,
            created,
            resized,
            send_layer_configure,
            send_popup_configure,
        }
    }

    /// Forget the windows, layer surfaces and waiting toplevels that are gone, and update the
    /// mapped windows.
    pub fn refresh(&mut self)
        requires
            forall|i: int|
                0 <= i < old(self).windows.windows.len() ==> (
                #[trigger] old(self).windows.windows@[i]).update_fits(),
        ensures
            final(self).windows.windows@ == alive_windows(old(self).windows.windows@).map_values(
                |w: Window| w.spec_self_update(),
            ),
            final(self).layers@ == alive_layers(old(self).layers@),
            final(self).not_mapped_list.windows@ == alive_windows(
                old(self).not_mapped_list.windows@,
            ),
    {
        self.windows.refresh();
        let mut kept: Vec<ShellLayer> = Vec::new();
        let n = self.layers.len();
        for i in 0..n
            invariant
                n == self.layers.len(),
                self.layers@ == old(self).layers@,
                kept@ == alive_layers(self.layers@.take(i as int)),
        {
            assert(self.layers@.take(i + 1).drop_last() =~= self.layers@.take(i as int));
            if self.layers[i].alive {
                kept.push(self.layers[i]);
            }
        }
        assert(self.layers@.take(n as int) =~= self.layers@);
        self.layers = kept;
        self.not_mapped_list.refresh();
    }
}

} // verus!
