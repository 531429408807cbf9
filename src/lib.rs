pub mod background;
pub mod config;
pub mod cutout;
pub mod cycle;
pub mod image;
pub mod slider;
pub mod stitch;
pub mod url;
