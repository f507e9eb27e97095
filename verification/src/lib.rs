//! Verified core of a CPU voxel ray tracer.
//!
//! The library holds the discrete logic of the renderer: block kinds and
//! their cell codes, the voxel-layer text parser and surface extraction,
//! dense voxel-grid construction, the cell/face/cutout decisions of the
//! grid traversal, material-slot selection and texel access, the night-sky
//! star hash, and the strip partition and reassembly of the parallel frame
//! renderer. The floating-point arithmetic around it (vector math, slab
//! intersection, shading) lives outside the verified core and drives these
//! functions.

pub mod frame;
pub mod grid;
pub mod kinds;
pub mod materials;
pub mod shading;
pub mod sky;
pub mod traverse;
pub mod world;

pub use kinds::{BlockKind, WaterMode};
pub use world::Block;
