//! A protocol-layer data model: layers of raw bytes with bit-addressed
//! attributes whose values are decoded on demand by casts.

pub mod attr;
pub mod bytes;
pub mod cast;
pub mod layer;
pub mod laws;
pub mod stack;
pub mod token;
pub mod variant;
