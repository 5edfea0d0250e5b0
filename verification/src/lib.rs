//! Verified core of an OpenCV camera plugin: camera frames and their pixel
//! operations, capture configuration, the capture worker's decisions,
//! driver selection, textures for the viewer, and the naming shared by
//! plugin objects.
pub mod core_trait;
pub mod error;
pub mod frame;
pub mod camera;
pub mod config;
pub mod worker;
pub mod drivers;
pub mod image;
