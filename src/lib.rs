//! Codec and transform pipeline for lidar point clouds: decodes a flat
//! little-endian buffer of fixed 26-byte points, filters the points by a
//! vertical window, flattens them into a bird's-eye view, and encodes the
//! result back into one buffer with its field layout and frame metadata.

pub mod encode;
pub mod float;
pub mod frame;
pub mod pipeline;
pub mod project;
pub mod record;
pub mod summary;
