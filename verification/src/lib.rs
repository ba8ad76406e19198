//! The layout core of the Anodium Wayland compositor: outputs and their layer-shell zones,
//! workspaces, window lists and positioners, keyboard shortcuts and cursor animation.

pub mod decimal;
pub mod framework;
pub mod geometry;
pub mod seqs;
pub mod desktop_layout;
pub mod positioner;
pub mod grabs;
pub mod input_handler;
pub mod on_commit;
pub mod popup;
