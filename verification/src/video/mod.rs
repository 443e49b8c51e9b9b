//! Video frames: source pixel formats to RGBA8, and PNG encoding of RGBA8 frames.

pub mod pixel_format;
pub mod png_encoder;
