//! What the dashboard shows.

pub mod map_renderer;
pub mod rolling;
pub mod tally;
pub mod app;
pub mod gui;
pub mod canvas;
pub mod lines;
pub mod markers;
pub mod arcs;
pub mod polygons;
pub mod labels;
pub mod layout;
pub mod panels;
pub mod outlines;
pub mod fallback;
