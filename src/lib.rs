//! Discrete core of a stochastic path tracer: the colour-channel tags that
//! dispersive materials split rays into, the depth budget that bounds the
//! recursive radiance estimate, the static assignment of image rows to render
//! workers, and the framebuffer that the workers' rows fill.

pub mod chroma;
pub mod framebuffer;
pub mod integrator;
pub mod schedule;
