//! Compiles a paginated document description into the objects and drawing
//! programs of a page-description file.
pub mod bindings;
pub mod elements;
pub mod error;
pub mod font_file;
pub mod glyph_names;
pub mod layout;
pub mod measure;
pub mod pdf;
pub mod raster;
pub mod resources;
pub mod sorted;
pub mod text;
pub mod types;
