//! Integer side of a Monte-Carlo ray tracer: render settings, the order in
//! which pixels are written and the seeds of their sample tasks, the
//! depth-bounded evaluation of a ray as a state machine, and the ASCII PPM
//! encoding of the result.

pub mod integrator;
pub mod ppm;
pub mod raster;
pub mod settings;
