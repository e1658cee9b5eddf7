//! The object compiler: font embedding and page content.
pub mod content;
pub mod fonts;
pub mod images;
pub mod page;
pub mod shapes;
pub mod streams;
pub mod symbols;
pub mod textual;
pub mod usage;
pub mod writer;

pub use fonts::FontEmbedder;
pub use writer::{render_pdf, PdfGenerator};
