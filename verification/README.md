# anodium

The layout core of the Anodium Wayland compositor, written in Verus: every function of the
library carries a contract that Verus proves.

- `src/desktop_layout`: outputs placed side by side and their layer-shell surfaces (placement
  and exclusive zones), the workspaces shown on the outputs, window lists and windows
  (maximize and unmaximize through the move-after-resize state).
- `src/positioner`: the floating and tiling policies and the positioner that combines them,
  including where an interactive move starts when it takes a window out of the maximized state.
- `src/framework`: per-surface resize state, the shell (toplevels waiting for their first
  configure, xdg-shell and layer-shell requests, commits and the events they give), cursor
  images and their animation, and the names, CRTCs and modes of DRM connectors.
- `src/grabs.rs`, `src/popup.rs`, `src/on_commit.rs`, `src/input_handler.rs`: moving windows
  with the pointer, the popup tree, callbacks waiting for a commit (and running them on a
  state), keyboard shortcuts.
- `tests/`: tests of the library on concrete values.
- `app/`: a small driver that reads the cursor theme from disk and input events from standard
  input, and the floating-point pointer computations.

The hit tests on surface trees, rendering and the backends are outside the library: the
library gives the candidates in the order they are tried.
