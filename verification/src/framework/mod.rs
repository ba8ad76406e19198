//! Compositor framework pieces: surface data, cursor images and backend requests.

pub mod backend;
pub mod connectors;
pub mod cursor;
pub mod shell;
pub mod surface_data;
