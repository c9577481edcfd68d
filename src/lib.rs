//! The integer and control logic of a path-tracing renderer: the per-pixel
//! sampler configuration, choice of intersection roots and of the nearest hit,
//! bounded bouncing of a light path, and assembly of the RGB frame.

pub mod anti_aliasing;
pub mod code_profiler;
pub mod intersection;
pub mod path;
pub mod renderer;
