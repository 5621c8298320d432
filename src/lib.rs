//! Common types for touch screen drivers (and mice): touch events, their
//! phases and tools, a pixel-space point type, and a wrapping angle held in
//! fixed point.

mod fixed_point;

pub mod angle;
pub mod point;
pub mod touch;

pub use angle::UnitAngle;
pub use point::TouchPoint;
pub use touch::{follows_lifecycle, Phase, PointerButton, Tool, Touch};
