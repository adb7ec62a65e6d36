//! Remote camera images: their file names, and the interval at which a camera takes them.

pub mod camera;
pub mod image;
