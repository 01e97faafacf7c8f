//! The decision logic of the morphogen render pipeline, verified: seeded
//! hashes, the binary feedback-state and flow-frame formats, cache manifests
//! and their checks, grain and tile grid geometry, the datamosh policy and
//! block remix, the tile, particle and trail stamping with its paint order,
//! the block-collage composite, effect settings checks over `f32` bit
//! patterns, and the modulation route grammar.
//!
//! Every `f32` the pipeline carries is held here as its IEEE-754 bit
//! pattern; the predicates in [`float_bits`] state what the checks compare.

// Text, bytes and shared values.
pub mod bytes;
pub mod error;
pub mod float_bits;
pub mod float_round;
pub mod hashing;
pub mod image;
pub mod scan;
pub mod text;

// Formats and caches.
pub mod feedback_state;
pub mod flow_cache;
pub mod grain_cache;

// Effects.
pub mod block_collage;
pub mod cascade;
pub mod channel_shift;
pub mod coagulate;
pub mod conv_blend;
pub mod cpu_reference;
pub mod datamosh;
pub mod disperse;
pub mod field_particles;
pub mod fluid_advect;
pub mod fluid_mosaic;
pub mod generators;
pub mod granular;
pub mod matte;
pub mod stamp;
pub mod trails;

// Modulation.
pub mod modulation;
pub mod route_text;
