//! Component-tree primitives for a terminal user interface: rectangles and
//! their partitioning, a line primitive that joins box-drawing glyphs, unique
//! component identifiers, and the layout of the main view.

pub mod access;
pub mod geometry;
pub mod ids;
pub mod layout;
pub mod line;
pub mod main_view;
