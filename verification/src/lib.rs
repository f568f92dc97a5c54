//! Estimates the information content of a raster image: per-channel
//! histogram entropy, an order-3 context-model size predictor, a
//! run-length size simulator, and a reconciler that turns the entropy
//! figures into a theoretical minimum size and a compression percentage.

pub mod channels;
pub mod errors;
pub mod formats;
pub mod histogram;
pub mod ppm;
pub mod reconcile;
pub mod rle;
pub mod webp_size;
