//! Core of a mesh measuring service: recognising the format of a byte buffer,
//! decoding it into triangles, clipping polygons into triangles, and planning
//! the reduction of a triangle list to a volume.
//!
//! Coordinates are carried as IEEE-754 single-precision bit patterns and are
//! never interpreted here; every decision this crate takes is over bytes,
//! indices and counts, and is proved against its contract.
//!
//! - [`model`]: the formats, their sniffers and their decoders.
//! - [`calculate`]: ear clipping, and the plan by which volumes are summed.
//! - [`intake`]: from a downloaded buffer and its hints to a mesh.
//! - [`cache`]: a cache for a token of limited life.
//! - [`scan`]: searching bytes.
//! - [`error`]: what can go wrong.

pub mod cache;
pub mod calculate;
pub mod error;
pub mod intake;
pub mod model;
pub mod scan;
