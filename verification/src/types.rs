//! The document model: pages, positioned elements and named resources.
//!
//! All geometry is in millionths of a point, measured from the top-left
//! corner of the page, with `y` growing downwards.
use crate::error::RupdfError;
use crate::measure::{in_range, is_in_range, MEASURE_MAX, Micro};
use vstd::prelude::*;
use vstd::string::StringExecFns;

verus! {

/// A colour with red, green, blue and alpha channels, each 0 to 255.
#[derive(Debug, Clone, Copy, PartialEq, Eq, Structural)]
pub struct Color {
    pub r: u8,
    pub g: u8,
    pub b: u8,
    pub a: u8,
}

impl Color {
    /// Opaque black.
    pub fn black() -> (c: Color)
        ensures
            c == (Color { r: 0, g: 0, b: 0, a: 255 }),
    {
        Color { r: 0, g: 0, b: 0, a: 255 }
    }

    /// Opaque white.
    pub fn white() -> (c: Color)
        ensures
            c == (Color { r: 255, g: 255, b: 255, a: 255 }),
    {
        Color { r: 255, g: 255, b: 255, a: 255 }
    }

    /// Whether the colour is opaque white.
    pub open spec fn is_opaque_white(self) -> bool {
        self.r == 255 && self.g == 255 && self.b == 255 && self.a == 255
    }

    /// Whether the colour is white, whatever its alpha.
    pub open spec fn is_white(self) -> bool {
        self.r == 255 && self.g == 255 && self.b == 255
    }
}

/// Horizontal alignment of text and images about their anchor.
#[derive(Debug, Clone, Copy, PartialEq, Eq, Structural)]
pub enum TextAlign {
    Left,
    Center,
    Right,
}

impl Default for TextAlign {
    fn default() -> (r: TextAlign)
        ensures
            r == TextAlign::Left,
    {
        TextAlign::Left
    }
}

/// What the `y` of a text element refers to.
#[derive(Debug, Clone, Copy, PartialEq, Eq, Structural)]
pub enum VerticalAnchor {
    /// The baseline.
    Baseline,
    /// The top of capital letters.
    Capline,
    /// Midway between baseline and capline.
    Center,
}

impl Default for VerticalAnchor {
    fn default() -> (r: VerticalAnchor)
        ensures
            r == VerticalAnchor::Baseline,
    {
        VerticalAnchor::Baseline
    }
}

/// Which edge of a text box its anchor `x` names.
#[derive(Debug, Clone, Copy, PartialEq, Eq, Structural)]
pub enum BoxAlignX {
    Left,
    Center,
    Right,
}

impl Default for BoxAlignX {
    fn default() -> (r: BoxAlignX)
        ensures
            r == BoxAlignX::Left,
    {
        BoxAlignX::Left
    }
}

/// Which edge of a text box its anchor `y` names.
#[derive(Debug, Clone, Copy, PartialEq, Eq, Structural)]
pub enum BoxAlignY {
    Top,
    Center,
    Bottom,
}

impl Default for BoxAlignY {
    fn default() -> (r: BoxAlignY)
        ensures
            r == BoxAlignY::Top,
    {
        BoxAlignY::Top
    }
}

/// Where the lines of a text box sit vertically.
#[derive(Debug, Clone, Copy, PartialEq, Eq, Structural)]
pub enum TextAlignY {
    /// Ascender of the first line at the box top.
    Top,
    /// Capline of the first line at the box top.
    Capline,
    /// The block of lines centred in the box.
    Center,
    /// Baseline of the last line at the box bottom.
    Baseline,
    /// Descender of the last line at the box bottom.
    Bottom,
}

impl Default for TextAlignY {
    fn default() -> (r: TextAlignY)
        ensures
            r == TextAlignY::Baseline,
    {
        TextAlignY::Baseline
    }
}

/// A single line of text.
#[derive(Debug, Clone)]
pub struct TextElement {
    pub x: Micro,
    pub y: Micro,
    pub text: String,
    pub font: String,
    pub size: Micro,
    pub color: Color,
    pub align: TextAlign,
    pub vertical_anchor: VerticalAnchor,
}

/// A rectangle, optionally filled, stroked and with rounded corners.
#[derive(Debug, Clone)]
pub struct RectElement {
    pub x: Micro,
    pub y: Micro,
    pub w: Micro,
    pub h: Micro,
    pub stroke: Micro,
    pub stroke_color: Color,
    pub fill_color: Option<Color>,
    pub corner_radius: Micro,
}

/// A stroked segment.
#[derive(Debug, Clone)]
pub struct LineElement {
    pub x1: Micro,
    pub y1: Micro,
    pub x2: Micro,
    pub y2: Micro,
    pub stroke: Micro,
    pub color: Color,
}

/// A placed image. With one of `w` and `h` the other follows from the
/// source's aspect ratio; with neither the image has its native size.
#[derive(Debug, Clone)]
pub struct ImageElement {
    pub x: Micro,
    pub y: Micro,
    pub w: Option<Micro>,
    pub h: Option<Micro>,
    pub image_ref: String,
    pub align: TextAlign,
}

/// A one-dimensional bar symbol, optionally with its value printed below.
#[derive(Debug, Clone)]
pub struct BarcodeElement {
    pub x: Micro,
    pub y: Micro,
    pub w: Micro,
    pub h: Micro,
    pub value: String,
    pub human_readable: bool,
    pub font: String,
    pub font_size: Micro,
}

/// A square matrix symbol.
#[derive(Debug, Clone)]
pub struct QRCodeElement {
    pub x: Micro,
    pub y: Micro,
    pub size: Micro,
    pub value: String,
    pub color: Color,
    pub background: Color,
}

/// Text wrapped into a box.
#[derive(Debug, Clone)]
pub struct TextBoxElement {
    pub x: Micro,
    pub y: Micro,
    pub w: Micro,
    pub h: Micro,
    pub box_align_x: BoxAlignX,
    pub box_align_y: BoxAlignY,
    pub text_align_x: TextAlign,
    pub text_align_y: TextAlignY,
    pub text: String,
    pub font: String,
    pub size: Micro,
    pub line_height: Micro,
    pub color: Color,
}

impl TextElement {
    /// All measures are representable.
    pub open spec fn wf(&self) -> bool {
        in_range(self.x as int) && in_range(self.y as int) && in_range(self.size as int)
    }

    /// Whether the element is well formed.
    pub fn is_wf(&self) -> (r: bool)
        ensures
            r == self.wf(),
    {
        is_in_range(self.x) && is_in_range(self.y) && is_in_range(self.size)
    }
}

impl RectElement {
    /// All measures are representable.
    pub open spec fn wf(&self) -> bool {
        &&& in_range(self.x as int)
        &&& in_range(self.y as int)
        &&& in_range(self.w as int)
        &&& in_range(self.h as int)
        &&& in_range(self.stroke as int)
        &&& in_range(self.corner_radius as int)
    }

    /// Whether the element is well formed.
    pub fn is_wf(&self) -> (r: bool)
        ensures
            r == self.wf(),
    {
        is_in_range(self.x) && is_in_range(self.y) && is_in_range(self.w) && is_in_range(self.h)
            && is_in_range(self.stroke) && is_in_range(self.corner_radius)
    }
}

impl LineElement {
    /// All measures are representable.
    pub open spec fn wf(&self) -> bool {
        &&& in_range(self.x1 as int)
        &&& in_range(self.y1 as int)
        &&& in_range(self.x2 as int)
        &&& in_range(self.y2 as int)
        &&& in_range(self.stroke as int)
    }

    /// Whether the element is well formed.
    pub fn is_wf(&self) -> (r: bool)
        ensures
            r == self.wf(),
    {
        is_in_range(self.x1) && is_in_range(self.y1) && is_in_range(self.x2) && is_in_range(
            self.y2,
        ) && is_in_range(self.stroke)
    }
}

impl ImageElement {
    /// All measures are representable.
    pub open spec fn wf(&self) -> bool {
        &&& in_range(self.x as int)
        &&& in_range(self.y as int)
        &&& self.w matches Some(w) ==> in_range(w as int)
        &&& self.h matches Some(h) ==> in_range(h as int)
    }

    /// Whether the element is well formed.
    pub fn is_wf(&self) -> (r: bool)
        ensures
            r == self.wf(),
    {
        let w_ok = match self.w {
            Some(w) => is_in_range(w),
            None => true,
        };
        let h_ok = match self.h {
            Some(h) => is_in_range(h),
            None => true,
        };
        is_in_range(self.x) && is_in_range(self.y) && w_ok && h_ok
    }
}

impl BarcodeElement {
    /// All measures are representable.
    pub open spec fn wf(&self) -> bool {
        &&& in_range(self.x as int)
        &&& in_range(self.y as int)
        &&& in_range(self.w as int)
        &&& in_range(self.h as int)
        &&& in_range(self.font_size as int)
    }

    /// Whether the element is well formed.
    pub fn is_wf(&self) -> (r: bool)
        ensures
            r == self.wf(),
    {
        is_in_range(self.x) && is_in_range(self.y) && is_in_range(self.w) && is_in_range(self.h)
            && is_in_range(self.font_size)
    }
}

impl QRCodeElement {
    /// All measures are representable.
    pub open spec fn wf(&self) -> bool {
        in_range(self.x as int) && in_range(self.y as int) && in_range(self.size as int)
    }

    /// Whether the element is well formed.
    pub fn is_wf(&self) -> (r: bool)
        ensures
            r == self.wf(),
    {
        is_in_range(self.x) && is_in_range(self.y) && is_in_range(self.size)
    }
}

impl TextBoxElement {
    /// All measures are representable.
    pub open spec fn wf(&self) -> bool {
        &&& in_range(self.x as int)
        &&& in_range(self.y as int)
        &&& in_range(self.w as int)
        &&& in_range(self.h as int)
        &&& in_range(self.size as int)
        &&& in_range(self.line_height as int)
    }

    /// Whether the element is well formed.
    pub fn is_wf(&self) -> (r: bool)
        ensures
            r == self.wf(),
    {
        is_in_range(self.x) && is_in_range(self.y) && is_in_range(self.w) && is_in_range(self.h)
            && is_in_range(self.size) && is_in_range(self.line_height)
    }
}

/// The closed set of things that can be drawn on a page.
#[derive(Debug, Clone)]
pub enum Element {
    Text(TextElement),
    TextBox(TextBoxElement),
    Rect(RectElement),
    Line(LineElement),
    Image(ImageElement),
    Barcode(BarcodeElement),
    QRCode(QRCodeElement),
}

impl Element {
    /// All measures of the element are representable.
    pub open spec fn wf(&self) -> bool {
        match self {
            Element::Text(t) => t.wf(),
            Element::TextBox(t) => t.wf(),
            Element::Rect(r) => r.wf(),
            Element::Line(l) => l.wf(),
            Element::Image(i) => i.wf(),
            Element::Barcode(b) => b.wf(),
            Element::QRCode(q) => q.wf(),
        }
    }

    /// Whether the element is well formed.
    pub fn is_wf(&self) -> (r: bool)
        ensures
            r == self.wf(),
    {
        match self {
            Element::Text(t) => t.is_wf(),
            Element::TextBox(t) => t.is_wf(),
            Element::Rect(r) => r.is_wf(),
            Element::Line(l) => l.is_wf(),
            Element::Image(i) => i.is_wf(),
            Element::Barcode(b) => b.is_wf(),
            Element::QRCode(q) => q.is_wf(),
        }
    }
}

/// A page: its size, background and elements in paint order.
#[derive(Debug, Clone)]
pub struct Page {
    pub width: Micro,
    pub height: Micro,
    pub background: Color,
    pub elements: Vec<Element>,
}

impl Page {
    /// The page has a positive, representable size and well-formed elements.
    pub open spec fn wf(&self) -> bool {
        &&& 0 < self.width <= MEASURE_MAX
        &&& 0 < self.height <= MEASURE_MAX
        &&& forall|i: int| 0 <= i < self.elements@.len() ==> (#[trigger] self.elements@[i]).wf()
    }

    /// Whether `e` is the error for this page: a width or height that is
    /// not positive is a page-size error that holds both; a measure beyond
    /// the representable range makes the document invalid.
    pub open spec fn rejected_with(&self, e: RupdfError) -> bool {
        if self.width <= 0 || self.height <= 0 {
            e matches RupdfError::InvalidPageSize { width, height } && width == self.width
                && height == self.height
        } else if !in_range(self.width as int) || !in_range(self.height as int) {
            e matches RupdfError::InvalidDocument(detail) && detail@ == "Page size out of range"@
        } else {
            e matches RupdfError::InvalidDocument(detail) && detail@
                == "Element measure out of range"@
        }
    }

    /// Checks the page.
    pub fn validate(&self) -> (r: Result<(), RupdfError>)
        ensures
            r is Ok <==> self.wf(),
            r matches Err(e) ==> self.rejected_with(e),
    {
        if self.width <= 0 || self.height <= 0 {
            return Err(RupdfError::InvalidPageSize { width: self.width, height: self.height });
        }
        if !is_in_range(self.width) || !is_in_range(self.height) {
            return Err(RupdfError::InvalidDocument(String::from_str("Page size out of range")));
        }
        let mut i: usize = 0;
        while i < self.elements.len()
            invariant
                i <= self.elements.len(),
                0 < self.width <= MEASURE_MAX,
                0 < self.height <= MEASURE_MAX,
                forall|j: int| 0 <= j < i ==> (#[trigger] self.elements@[j]).wf(),
            decreases self.elements.len() - i,
        {
            if !self.elements[i].is_wf() {
                return Err(
                    RupdfError::InvalidDocument(String::from_str("Element measure out of range")),
                );
            }
            i += 1;
        }
        Ok(())
    }
}

/// Descriptive strings of a document.
#[derive(Debug, Clone)]
pub struct Metadata {
    pub title: Option<String>,
    pub author: Option<String>,
    pub subject: Option<String>,
    pub creator: Option<String>,
    pub creation_date: Option<String>,
}

impl Default for Metadata {
    fn default() -> (m: Metadata)
        ensures
            m.title is None,
            m.author is None,
            m.subject is None,
            m.creator is None,
            m.creation_date is None,
    {
        Metadata { title: None, author: None, subject: None, creator: None, creation_date: None }
    }
}

impl Metadata {
    /// Whether any of title, author, subject and creator is set: only then
    /// does a document carry an information object.
    pub open spec fn has_info(self) -> bool {
        self.title is Some || self.author is Some || self.subject is Some || self.creator is Some
    }
}

/// Where a font program comes from.
#[derive(Debug, Clone)]
pub enum FontSource {
    Path(String),
    Bytes(Vec<u8>),
}

/// Where an image comes from.
#[derive(Debug, Clone)]
pub enum ImageSource {
    Path(String),
    Bytes(Vec<u8>),
}

/// The text of the error for a resource that names both a path and bytes.
pub open spec fn both_sources_text(kind: Seq<char>, name: Seq<char>) -> Seq<char> {
    kind + " '"@ + name + "' has both 'path' and 'bytes'; only one is allowed"@
}

/// The text of the error for a resource that names neither a path nor bytes.
pub open spec fn no_source_text(kind: Seq<char>, name: Seq<char>) -> Seq<char> {
    kind + " '"@ + name + "' must have either 'path' or 'bytes'"@
}

fn both_sources_error(kind: &str, name: &str) -> (e: RupdfError)
    ensures
        e matches RupdfError::ResourceError(d) && d@ == both_sources_text(kind@, name@),
{
    let mut s = String::from_str(kind);
    s.append(" '");
    s.append(name);
    s.append("' has both 'path' and 'bytes'; only one is allowed");
    RupdfError::ResourceError(s)
}

fn no_source_error(kind: &str, name: &str) -> (e: RupdfError)
    ensures
        e matches RupdfError::ResourceError(d) && d@ == no_source_text(kind@, name@),
{
    let mut s = String::from_str(kind);
    s.append(" '");
    s.append(name);
    s.append("' must have either 'path' or 'bytes'");
    RupdfError::ResourceError(s)
}

impl FontSource {
    /// The source of the font `name`, given the path and the bytes that its
    /// description holds: exactly one of them must be there.
    pub fn from_parts(name: &str, path: Option<String>, bytes: Option<Vec<u8>>) -> (r: Result<
        FontSource,
        RupdfError,
    >)
        ensures
            match (path, bytes) {
                (Some(p), None) => r == Ok::<FontSource, RupdfError>(FontSource::Path(p)),
                (None, Some(b)) => r == Ok::<FontSource, RupdfError>(FontSource::Bytes(b)),
                (Some(_), Some(_)) => r matches Err(RupdfError::ResourceError(d)) && d@
                    == both_sources_text("Font"@, name@),
                (None, None) => r matches Err(RupdfError::ResourceError(d)) && d@
                    == no_source_text("Font"@, name@),
            },
    {
        match (path, bytes) {
            (Some(p), None) => Ok(FontSource::Path(p)),
            (None, Some(b)) => Ok(FontSource::Bytes(b)),
            (Some(_), Some(_)) => Err(both_sources_error("Font", name)),
            (None, None) => Err(no_source_error("Font", name)),
        }
    }
}

impl ImageSource {
    /// The source of the image `name`, given the path and the bytes that its
    /// description holds: exactly one of them must be there.
    pub fn from_parts(name: &str, path: Option<String>, bytes: Option<Vec<u8>>) -> (r: Result<
        ImageSource,
        RupdfError,
    >)
        ensures
            match (path, bytes) {
                (Some(p), None) => r == Ok::<ImageSource, RupdfError>(ImageSource::Path(p)),
                (None, Some(b)) => r == Ok::<ImageSource, RupdfError>(ImageSource::Bytes(b)),
                (Some(_), Some(_)) => r matches Err(RupdfError::ResourceError(d)) && d@
                    == both_sources_text("Image"@, name@),
                (None, None) => r matches Err(RupdfError::ResourceError(d)) && d@
                    == no_source_text("Image"@, name@),
            },
    {
        match (path, bytes) {
            (Some(p), None) => Ok(ImageSource::Path(p)),
            (None, Some(b)) => Ok(ImageSource::Bytes(b)),
            (Some(_), Some(_)) => Err(both_sources_error("Image", name)),
            (None, None) => Err(no_source_error("Image", name)),
        }
    }
}

/// The named fonts and images of a document, each name at most once.
#[derive(Debug, Clone)]
pub struct Resources {
    pub fonts: Vec<(String, FontSource)>,
    pub images: Vec<(String, ImageSource)>,
}

impl Default for Resources {
    fn default() -> (r: Resources)
        ensures
            r.fonts@.len() == 0,
            r.images@.len() == 0,
    {
        Resources { fonts: Vec::new(), images: Vec::new() }
    }
}

/// A whole document.
#[derive(Debug, Clone)]
pub struct Document {
    pub metadata: Metadata,
    pub pages: Vec<Page>,
    pub resources: Resources,
}

impl Document {
    /// Every page is well formed.
    pub open spec fn wf(&self) -> bool {
        forall|i: int| 0 <= i < self.pages@.len() ==> (#[trigger] self.pages@[i]).wf()
    }

    /// The index of the first page from `p` on that is not well formed.
    pub open spec fn first_bad_page(&self, p: int) -> Option<int>
        decreases self.pages@.len() - p,
    {
        if p < 0 || p >= self.pages@.len() {
            None
        } else if !self.pages@[p].wf() {
            Some(p)
        } else {
            self.first_bad_page(p + 1)
        }
    }

    /// Checks every page, in order, and reports the first failure.
    pub fn validate(&self) -> (r: Result<(), RupdfError>)
        ensures
            r is Ok <==> self.wf(),
            match self.first_bad_page(0) {
                Some(p) => r matches Err(e) && self.pages@[p].rejected_with(e),
                None => r is Ok,
            },
    {
        let mut i: usize = 0;
        while i < self.pages.len()
            invariant
                i <= self.pages.len(),
                forall|j: int| 0 <= j < i ==> (#[trigger] self.pages@[j]).wf(),
                self.first_bad_page(0) == self.first_bad_page(i as int),
            decreases self.pages.len() - i,
        {
            match self.pages[i].validate() {
                Ok(()) => {},
                Err(e) => {
                    return Err(e);
                },
            }
            i += 1;
        }
        Ok(())
    }
}

} // verus!
