//! Reconstructs the `docker run` command line that would recreate a
//! container, from the JSON documents produced by inspecting that
//! container and (optionally) its source image.
//!
//! The crate is split in two stages, composed linearly: the inspect
//! model (`json`, `model`, `decode`) turns raw JSON bytes into typed
//! records, normalizing the inspection tool's quirks on the way; the
//! reconstruction engine (`options`, and the renderers on the model
//! types) maps those records to an ordered command line.

pub mod decode;
pub mod json;
pub mod model;
pub mod laws;
pub mod options;
pub mod util;
