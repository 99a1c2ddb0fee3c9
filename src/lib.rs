//! The verified core of a WebGL scene that draws one rotating colored quad:
//! the lookups and the ordered calls of each frame, the canvas aspect ratio,
//! and the render loop's states.

pub mod bindings;
pub mod driver;
pub mod scene;
pub mod viewport;
