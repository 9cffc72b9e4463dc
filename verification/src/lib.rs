//! Retro vector-graphics tessellation engine.
//!
//! Converts display lists of draw commands into flat triangle meshes plus
//! per-pass statistics: a stack of composable transforms, stroke expansion
//! of lines and polylines with round caps and joins, and text runs stroked
//! from vector-font glyph outlines.  Coordinates, transforms and stroke
//! widths are carried in a fixed-point encoding with a 16-bit fraction so that every
//! geometric step has an exact arithmetic meaning.

pub mod draw;
pub mod fixed;
pub mod geometry;
pub mod renderer;
pub mod state;
pub mod stats;
pub mod tessellate;
pub mod text;
pub mod transform;

pub use draw::Color;
pub use draw::DrawCmd;
pub use draw::Line2;
pub use draw::Stroke;
pub use geometry::Geometry;
pub use geometry::Vertex;
pub use renderer::NullRenderer;
pub use renderer::Renderer;
pub use renderer::VectorRenderer;
pub use stats::RenderStats;
pub use transform::Point;
pub use transform::Transform;
