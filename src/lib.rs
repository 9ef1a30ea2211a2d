//! A text-grid layout engine: measures cells, composes their lines under
//! padding and alignment, and draws borders around them.

pub mod color;
pub mod compose;
pub mod config;
pub mod entity;
pub mod estimate;
pub mod grid;
pub mod render;
pub mod span;
pub mod text;
pub mod width;

pub use color::Color;
pub use config::{AlignmentHorizontal, AlignmentVertical, GridConfig, Line, Padding, Style};
pub use entity::Entity;
pub use grid::Grid;
pub use render::render;
