//! A docking layout engine: rectangular frames on a fixed-point canvas whose
//! shared boundaries can be dragged without breaking the tiling.

pub mod data;
pub mod drag;
pub mod expansion;
pub mod frame;
pub mod geometry;
pub mod handles;
pub mod ident;
pub mod interval;
pub mod layout;
pub mod limits;
pub mod screen;
pub mod seams;
pub mod selector;
pub mod tiling;
