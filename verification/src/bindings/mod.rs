//! The calls into other crates. What each contract claims is believed, not
//! proved.
pub mod charmap;
pub mod raster;
pub mod subset;
pub mod symbols;
pub mod ttf;
pub mod zlib;
