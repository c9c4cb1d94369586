//! Discrete core of a recursive ray tracer: batching of work items, the
//! enumeration of per-pixel samples, the integrator's decision step and
//! ordered selection of values and nearest hits.

pub mod chunks;
pub mod extrema;
pub mod integrator;
pub mod light;
pub mod sampling;

pub use chunks::{ChunkIter, Chunks};
pub use extrema::{max_of, min_of, nearest};
pub use integrator::{
    depth_decreases, energy_cutoff, trace_action, trace_step, TraceAction, TraceEvent,
};
pub use light::SkyLight;
pub use sampling::{pixel_index, pixel_of, SampleGrid};
