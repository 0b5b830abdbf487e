//! The terrain data model: homogeneous conductivity segments, the
//! ground and sea presets, and paths built from ordered segments.

pub mod defaults;
pub mod line;
pub mod line_segment;

pub use line::Line;
pub use line_segment::LineSegment;
