//! The one error type of the library.
use crate::measure::Micro;
use crate::text::{measure_text, push_measure};
use vstd::prelude::*;
use vstd::string::StringExecFns;

verus! {

/// Everything that can make a compilation fail.
#[derive(Debug, Clone, PartialEq, Eq)]
pub enum RupdfError {
    /// An element names a font that the resources do not hold.
    MissingFont(String),
    /// An element names an image that the resources do not hold.
    MissingImage(String),
    /// A character has no glyph in the font used to set it.
    MissingGlyph { glyph: char, font: String },
    /// A font program could not be read, parsed or subsetted: name and detail.
    InvalidFont(String, String),
    /// An image could not be read, decoded or encoded: name and detail.
    InvalidImage(String, String),
    /// A page has a width or height that is not positive.
    InvalidPageSize { width: Micro, height: Micro },
    /// A value could not be encoded as a bar or matrix symbol.
    InvalidBarcode { value: String, reason: String },
    /// An element of a kind the library does not know.
    UnknownElementType(String),
    /// The document description is malformed.
    InvalidDocument(String),
    /// A resource names no source, or more than one.
    ResourceError(String),
    /// Reading a source failed.
    IoError(String),
    /// The file could not be laid out.
    PdfError(String),
}

pub type Result<T> = std::result::Result<T, RupdfError>;

impl RupdfError {
    /// The text of `message`.
    pub open spec fn message_spec(self) -> Seq<char> {
        match self {
            RupdfError::MissingFont(name) => "Missing font: '"@ + name@ + "'"@,
            RupdfError::MissingImage(name) => "Missing image: '"@ + name@ + "'"@,
            RupdfError::MissingGlyph { glyph, font } => "Missing glyph '"@.push(glyph)
                + "' in font '"@ + font@ + "'"@,
            RupdfError::InvalidFont(name, detail) => "Invalid font data for '"@ + name@ + "': "@
                + detail@,
            RupdfError::InvalidImage(name, detail) => "Invalid image data for '"@ + name@ + "': "@
                + detail@,
            RupdfError::InvalidPageSize { width, height } => "Invalid page size: width="@
                + measure_text(width as int) + ", height="@ + measure_text(height as int),
            RupdfError::InvalidBarcode { value, reason } => "Invalid barcode value '"@ + value@
                + "': "@ + reason@,
            RupdfError::UnknownElementType(name) => "Unknown element type: '"@ + name@ + "'"@,
            RupdfError::InvalidDocument(detail) => "Invalid document structure: "@ + detail@,
            RupdfError::ResourceError(detail) => "Resource error: "@ + detail@,
            RupdfError::IoError(detail) => "IO error: "@ + detail@,
            RupdfError::PdfError(detail) => "PDF generation error: "@ + detail@,
        }
    }

    /// The human-readable message of the error.
    pub fn message(&self) -> (s: String)
        ensures
            s@ == self.message_spec(),
    {
        match self {
            RupdfError::MissingFont(name) => {
                let mut s = String::from_str("Missing font: '");
                s.append(name.as_str());
                s.append("'");
                s
            },
            RupdfError::MissingImage(name) => {
                let mut s = String::from_str("Missing image: '");
                s.append(name.as_str());
                s.append("'");
                s
            },
            RupdfError::MissingGlyph { glyph, font } => {
                let mut s = String::from_str("Missing glyph '");
                s.push(*glyph);
                s.append("' in font '");
                s.append(font.as_str());
                s.append("'");
                s
            },
            RupdfError::InvalidFont(name, detail) => {
                let mut s = String::from_str("Invalid font data for '");
                s.append(name.as_str());
                s.append("': ");
                s.append(detail.as_str());
                s
            },
            RupdfError::InvalidImage(name, detail) => {
                let mut s = String::from_str("Invalid image data for '");
                s.append(name.as_str());
                s.append("': ");
                s.append(detail.as_str());
                s
            },
            RupdfError::InvalidPageSize { width, height } => {
                let mut s = String::from_str("Invalid page size: width=");
                push_measure(&mut s, *width);
                s.append(", height=");
                push_measure(&mut s, *height);
                s
            },
            RupdfError::InvalidBarcode { value, reason } => {
                let mut s = String::from_str("Invalid barcode value '");
                s.append(value.as_str());
                s.append("': ");
                s.append(reason.as_str());
                s
            },
            RupdfError::UnknownElementType(name) => {
                let mut s = String::from_str("Unknown element type: '");
                s.append(name.as_str());
                s.append("'");
                s
            },
            RupdfError::InvalidDocument(detail) => {
                let mut s = String::from_str("Invalid document structure: ");
                s.append(detail.as_str());
                s
            },
            RupdfError::ResourceError(detail) => {
                let mut s = String::from_str("Resource error: ");
                s.append(detail.as_str());
                s
            },
            RupdfError::IoError(detail) => {
                let mut s = String::from_str("IO error: ");
                s.append(detail.as_str());
                s
            },
            RupdfError::PdfError(detail) => {
                let mut s = String::from_str("PDF generation error: ");
                s.append(detail.as_str());
                s
            },
        }
    }
}

} // verus!
