//! Conversion of images into drawing programs.
pub mod svg;
