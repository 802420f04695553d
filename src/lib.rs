//! Procedural ASCII-art rocket generator: a fixed catalog of parts, a
//! constrained random assembler, and a centering renderer.

pub mod catalog;
pub mod chooser;
pub mod render;
pub mod rocket;
