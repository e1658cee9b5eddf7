//! Usage discovery: which fonts a document sets which characters in, and
//! which images it shows at which sizes.
use crate::error::RupdfError;
use crate::measure::{in_range, Micro};
use crate::pdf::fonts::{printable_before, FontEmbedder};
use crate::pdf::images::{compute_image_dimensions, image_dimensions_spec, usage_key, usage_key_spec};
use crate::resources::{LoadedFont, LoadedResources};
use crate::types::{Document, Element, ImageElement, Page};
use vstd::prelude::*;
use vstd::string::StringExecFns;

verus! {

/// Why a compilation fails, as a mathematical value.
pub enum Failure {
    /// An element names a font that is not among the resources.
    MissingFont(Seq<char>),
    /// An element names an image that is not among the resources.
    MissingImage(Seq<char>),
    /// The character has no glyph in the font of that name.
    MissingGlyph(char, Seq<char>),
    /// The value cannot be encoded as a bar symbol, for the reason named.
    BarcodeRefused(Seq<char>, Seq<char>),
    /// The value cannot be encoded as a matrix symbol.
    MatrixRefused(Seq<char>),
    /// The font of that name cannot be subsetted.
    FontRejected(Seq<char>),
    /// The image of that name cannot be decoded or encoded.
    ImageRejected(Seq<char>),
    /// A font is set in without having been registered.
    NotCollected(Seq<char>),
    /// The document needs more objects than identifiers exist.
    TooManyObjects,
}

/// Whether the error `e` reports the failure `f`.
pub open spec fn reports(e: RupdfError, f: Failure) -> bool {
    match f {
        Failure::MissingFont(name) => e matches RupdfError::MissingFont(n) && n@ == name,
        Failure::MissingImage(name) => e matches RupdfError::MissingImage(n) && n@ == name,
        Failure::MissingGlyph(c, name) => e matches RupdfError::MissingGlyph { glyph, font }
            && glyph == c && font@ == name,
        Failure::BarcodeRefused(v, why) => e matches RupdfError::InvalidBarcode { value, reason }
            && value@ == v && reason@ == why,
        Failure::MatrixRefused(v) => e matches RupdfError::InvalidBarcode { value, reason }
            && value@ == v && "QR code generation failed: "@.is_prefix_of(reason@),
        Failure::FontRejected(name) => e matches RupdfError::InvalidFont(n, detail) && n@ == name
            && "Failed to subset font: "@.is_prefix_of(detail@),
        Failure::ImageRejected(name) => e matches RupdfError::InvalidImage(n, _) && n@ == name,
        Failure::NotCollected(name) => e matches RupdfError::PdfError(detail) && detail@
            == "Font was not collected: "@ + name,
        Failure::TooManyObjects => e matches RupdfError::PdfError(detail) && detail@
            == "Too many objects"@,
    }
}

/// The use of one font: the name the document gives it, its place among
/// the resources, and the characters set in it.
pub struct FontUse {
    pub alias: Seq<char>,
    pub font_index: int,
    pub registered: Set<char>,
}

/// The use of one image at one size: the name it is embedded under, the
/// name and place of the image, and the displayed size.
pub struct ImageUse {
    pub key: Seq<char>,
    pub image_ref: Seq<char>,
    pub image_index: int,
    pub width: int,
    pub height: int,
}

/// What a document uses, in the order of first use.
pub struct UsageModel {
    pub fonts: Seq<FontUse>,
    pub images: Seq<ImageUse>,
}

/// A font in use, with the embedder that collects its characters.
#[derive(Debug)]
pub struct FontUsage<'a> {
    pub alias: String,
    pub font_index: usize,
    pub embedder: FontEmbedder<'a>,
}

/// An image in use at one size.
#[derive(Debug)]
pub struct ImageUsage {
    pub key: String,
    pub image_ref: String,
    pub image_index: usize,
    pub width: Micro,
    pub height: Micro,
}

/// The fonts and images that a document uses.
#[derive(Debug)]
pub struct Usage<'a> {
    pub fonts: Vec<FontUsage<'a>>,
    pub images: Vec<ImageUsage>,
}

impl<'a> View for FontUsage<'a> {
    type V = FontUse;

    open spec fn view(&self) -> FontUse {
        FontUse {
            alias: self.alias@,
            font_index: self.font_index as int,
            registered: self.embedder.registered(),
        }
    }
}

impl View for ImageUsage {
    type V = ImageUse;

    open spec fn view(&self) -> ImageUse {
        ImageUse {
            key: self.key@,
            image_ref: self.image_ref@,
            image_index: self.image_index as int,
            width: self.width as int,
            height: self.height as int,
        }
    }
}

impl<'a> View for Usage<'a> {
    type V = UsageModel;

    open spec fn view(&self) -> UsageModel {
        UsageModel {
            fonts: Seq::new(self.fonts@.len(), |i: int| self.fonts@[i]@),
            images: Seq::new(self.images@.len(), |i: int| self.images@[i]@),
        }
    }
}

/// The index of the first font use from `i` on with the name `alias`.
pub open spec fn alias_index(fonts: Seq<FontUse>, alias: Seq<char>, i: int) -> Option<int>
    decreases fonts.len() - i,
{
    if i < 0 || i >= fonts.len() {
        None
    } else if fonts[i].alias == alias {
        Some(i)
    } else {
        alias_index(fonts, alias, i + 1)
    }
}

/// The index of the first image use from `i` on with the name `key`.
pub open spec fn key_index(images: Seq<ImageUse>, key: Seq<char>, i: int) -> Option<int>
    decreases images.len() - i,
{
    if i < 0 || i >= images.len() {
        None
    } else if images[i].key == key {
        Some(i)
    } else {
        key_index(images, key, i + 1)
    }
}

/// The usage after `text` has been set in the font `alias`, which is font
/// `font_index` of the resources: the characters of the text that are no
/// control characters are registered for the font, which joins the fonts in
/// use if it is not among them. A character without a glyph is a failure.
pub open spec fn register_spec(
    usage: UsageModel,
    alias: Seq<char>,
    font_index: int,
    font: &LoadedFont,
    text: Seq<char>,
) -> Result<UsageModel, Failure> {
    let stop = FontEmbedder::stop_index(font, text, 0);
    if stop < text.len() {
        Err(Failure::MissingGlyph(text[stop], alias))
    } else {
        let added = printable_before(text, text.len() as int);
        match alias_index(usage.fonts, alias, 0) {
            Some(k) => Ok(
                UsageModel {
                    fonts: usage.fonts.update(
                        k,
                        FontUse {
                            alias: usage.fonts[k].alias,
                            font_index: usage.fonts[k].font_index,
                            registered: usage.fonts[k].registered.union(added),
                        },
                    ),
                    images: usage.images,
                },
            ),
            None => Ok(
                UsageModel {
                    fonts: usage.fonts.push(FontUse { alias, font_index, registered: added }),
                    images: usage.images,
                },
            ),
        }
    }
}

/// The usage after text has been set in the font that the document calls
/// `alias`.
pub open spec fn use_font_spec(
    res: &LoadedResources,
    usage: UsageModel,
    alias: Seq<char>,
    text: Seq<char>,
) -> Result<UsageModel, Failure> {
    match res.font_index(alias) {
        Some(fi) => register_spec(usage, alias, fi, &res.fonts@[fi].1, text),
        None => Err(Failure::MissingFont(alias)),
    }
}

/// The usage after an image element: the image joins the images in use
/// under the name for its displayed size, unless that name is in use.
pub open spec fn use_image_spec(res: &LoadedResources, usage: UsageModel, img: ImageElement) -> Result<
    UsageModel,
    Failure,
> {
    match res.image_index(img.image_ref@) {
        Some(ii) => {
            let image = res.images@[ii].1;
            let native = image.dimensions_spec();
            let size = image_dimensions_spec(native.0, native.1, img.w, img.h);
            let key = usage_key_spec(image, img.image_ref@, size.0, size.1);
            match key_index(usage.images, key, 0) {
                Some(_) => Ok(usage),
                None => Ok(
                    UsageModel {
                        fonts: usage.fonts,
                        images: usage.images.push(
                            ImageUse {
                                key,
                                image_ref: img.image_ref@,
                                image_index: ii,
                                width: size.0,
                                height: size.1,
                            },
                        ),
                    },
                ),
            }
        },
        None => Err(Failure::MissingImage(img.image_ref@)),
    }
}

/// The usage after one element: text, text boxes and bar symbols with a
/// printed value use a font; images use an image; nothing else uses
/// anything.
pub open spec fn use_element_spec(res: &LoadedResources, usage: UsageModel, element: Element) -> Result<
    UsageModel,
    Failure,
> {
    match element {
        Element::Text(t) => use_font_spec(res, usage, t.font@, t.text@),
        Element::TextBox(tb) => use_font_spec(res, usage, tb.font@, tb.text@),
        Element::Barcode(b) => if b.human_readable {
            use_font_spec(res, usage, b.font@, b.value@)
        } else {
            Ok(usage)
        },
        Element::Image(img) => use_image_spec(res, usage, img),
        _ => Ok(usage),
    }
}

/// The usage after the elements from `i` on.
pub open spec fn use_elements_spec(
    res: &LoadedResources,
    usage: UsageModel,
    elements: Seq<Element>,
    i: int,
) -> Result<UsageModel, Failure>
    decreases elements.len() - i,
{
    if i < 0 || i >= elements.len() {
        Ok(usage)
    } else {
        match use_element_spec(res, usage, elements[i]) {
            Ok(next) => use_elements_spec(res, next, elements, i + 1),
            Err(f) => Err(f),
        }
    }
}

/// The usage after the pages from `p` on.
pub open spec fn use_pages_spec(res: &LoadedResources, usage: UsageModel, pages: Seq<Page>, p: int) -> Result<
    UsageModel,
    Failure,
>
    decreases pages.len() - p,
{
    if p < 0 || p >= pages.len() {
        Ok(usage)
    } else {
        match use_elements_spec(res, usage, pages[p].elements@, 0) {
            Ok(next) => use_pages_spec(res, next, pages, p + 1),
            Err(f) => Err(f),
        }
    }
}

/// What the document uses, or the first failure met: scanning every page
/// and element in order.
pub open spec fn discover_spec(doc: &Document, res: &LoadedResources) -> Result<UsageModel, Failure> {
    use_pages_spec(res, UsageModel { fonts: Seq::empty(), images: Seq::empty() }, doc.pages@, 0)
}

impl<'a> Usage<'a> {
    /// Every font in use has an embedder for the font of that name among
    /// the resources, and every image in use is among the resources, with a
    /// representable size.
    pub open spec fn wf(&self, res: &LoadedResources) -> bool {
        &&& forall|k: int|
            0 <= k < self.fonts@.len() ==> {
                let f = #[trigger] self.fonts@[k];
                &&& f.embedder.wf()
                &&& f.font_index < res.fonts@.len()
                &&& res.font_index(f.alias@) == Some(f.font_index as int)
                &&& f.embedder.font() == &res.fonts@[f.font_index as int].1
                &&& f.embedder.font_name() == f.alias@
            }
        &&& forall|m: int|
            0 <= m < self.images@.len() ==> {
                let u = #[trigger] self.images@[m];
                &&& u.image_index < res.images@.len()
                &&& in_range(u.width as int)
                &&& in_range(u.height as int)
            }
    }

    /// Nothing is in use.
    pub fn new() -> (usage: Usage<'a>)
        ensures
            usage@.fonts.len() == 0,
            usage@.images.len() == 0,
            usage.fonts@.len() == 0,
            usage.images@.len() == 0,
    {
        Usage { fonts: Vec::new(), images: Vec::new() }
    }

    /// The place of the font `alias` among the fonts in use.
    pub fn find_font(&self, alias: &str) -> (r: Option<usize>)
        ensures
            match alias_index(self@.fonts, alias@, 0) {
                Some(k) => (r matches Some(j) && j == k) && 0 <= k < self.fonts@.len()
                    && self.fonts@[k].alias@ == alias@,
                None => r is None,
            },
    {
        let wanted = String::from_str(alias);
        let mut k: usize = 0;
        while k < self.fonts.len()
            invariant
                k <= self.fonts.len(),
                wanted@ == alias@,
                alias_index(self@.fonts, alias@, 0) == alias_index(self@.fonts, alias@, k as int),
            decreases self.fonts.len() - k,
        {
            if self.fonts[k].alias == wanted {
                return Some(k);
            }
            k += 1;
        }
        None
    }

    /// The place of the image use `key` among the images in use.
    pub fn find_image(&self, key: &String) -> (r: Option<usize>)
        ensures
            match key_index(self@.images, key@, 0) {
                Some(k) => (r matches Some(j) && j == k) && 0 <= k < self.images@.len(),
                None => r is None,
            },
    {
        let mut k: usize = 0;
        while k < self.images.len()
            invariant
                k <= self.images.len(),
                key_index(self@.images, key@, 0) == key_index(self@.images, key@, k as int),
            decreases self.images.len() - k,
        {
            if self.images[k].key == *key {
                return Some(k);
            }
            k += 1;
        }
        None
    }

    /// Registers `text` for the font that the document calls `alias`.
    pub fn use_font(&mut self, res: &'a LoadedResources, alias: &'a str, text: &str) -> (r: Result<
        (),
        RupdfError,
    >)
        requires
            old(self).wf(res),
        ensures
            match use_font_spec(res, old(self)@, alias@, text@) {
                Ok(next) => r is Ok && final(self)@ == next && final(self).wf(res),
                Err(f) => r matches Err(e) && reports(e, f),
            },
    {
        let fi = match res.find_font(alias) {
            Some(fi) => fi,
            None => {
                return Err(RupdfError::MissingFont(String::from_str(alias)));
            },
        };
        let font: &'a LoadedFont = &res.fonts[fi].1;
        let ghost before = self@;
        match self.find_font(alias) {
            Some(k) => {
                let ghost old_fonts = self.fonts@;
                let ghost old_entry = old_fonts[k as int];
                assert(old_entry.embedder.wf() && old_entry.embedder.font() == font
                    && old_entry.embedder.font_name() == alias@);
                let mut entry = self.fonts.remove(k);
                assert(entry == old_entry);
                let outcome = entry.embedder.use_text(text);
                proof {
                    lemma_stop_is_end(font, text@);
                }
                self.fonts.insert(k, entry);
                proof {
                    assert(self.fonts@ =~= old_fonts.update(k as int, entry));
                    assert forall|j: int| 0 <= j < self.fonts@.len() implies {
                        let f = #[trigger] self.fonts@[j];
                        &&& f.embedder.wf()
                        &&& f.font_index < res.fonts@.len()
                        &&& f.embedder.font() == &res.fonts@[f.font_index as int].1
                        &&& f.embedder.font_name() == f.alias@
                    } by {
                        if j != k {
                            assert(self.fonts@[j] == old_fonts[j]);
                        }
                    }
                }
                match outcome {
                    Ok(()) => {
                        proof {
                            assert(self@.fonts =~= before.fonts.update(k as int, entry@));
                            assert(self@.images =~= before.images);
                            assert(entry@.alias == before.fonts[k as int].alias);
                            assert(entry@.font_index == before.fonts[k as int].font_index);
                        }
                        Ok(())
                    },
                    Err(e) => Err(e),
                }
            },
            None => {
                let mut embedder = FontEmbedder::new(font, alias);
                let outcome = embedder.use_text(text);
                proof {
                    lemma_stop_is_end(font, text@);
                }
                match outcome {
                    Ok(()) => {
                        let entry = FontUsage {
                            alias: String::from_str(alias),
                            font_index: fi,
                            embedder,
                        };
                        let ghost old_fonts = self.fonts@;
                        self.fonts.push(entry);
                        proof {
                            assert(entry@.registered =~= printable_before(
                                text@,
                                text@.len() as int,
                            ));
                            assert(self@.fonts =~= before.fonts.push(entry@));
                            assert(self@.images =~= before.images);
                            assert forall|j: int| 0 <= j < self.fonts@.len() implies {
                                let f = #[trigger] self.fonts@[j];
                                &&& f.embedder.wf()
                                &&& f.font_index < res.fonts@.len()
                                &&& f.embedder.font() == &res.fonts@[f.font_index as int].1
                                &&& f.embedder.font_name() == f.alias@
                            } by {
                                if j < old_fonts.len() {
                                    assert(self.fonts@[j] == old_fonts[j]);
                                }
                            }
                        }
                        Ok(())
                    },
                    Err(e) => Err(e),
                }
            },
        }
    }

    /// Registers the use of the image that an image element shows.
    pub fn use_image(&mut self, res: &LoadedResources, img: &ImageElement) -> (r: Result<
        (),
        RupdfError,
    >)
        requires
            old(self).wf(res),
            res.wf(),
            img.wf(),
        ensures
            match use_image_spec(res, old(self)@, *img) {
                Ok(next) => r is Ok && final(self)@ == next && final(self).wf(res),
                Err(f) => r matches Err(e) && reports(e, f),
            },
    {
        let ii = match res.find_image(img.image_ref.as_str()) {
            Some(ii) => ii,
            None => {
                return Err(RupdfError::MissingImage(img.image_ref.clone()));
            },
        };
        let image = &res.images[ii].1;
        let (src_w, src_h) = image.dimensions();
        let (width, height) = compute_image_dimensions(src_w, src_h, img.w, img.h);
        let key = usage_key(image, img.image_ref.as_str(), width, height);
        let ghost before = self@;
        match self.find_image(&key) {
            Some(_) => Ok(()),
            None => {
                let entry = ImageUsage {
                    key,
                    image_ref: img.image_ref.clone(),
                    image_index: ii,
                    width,
                    height,
                };
                self.images.push(entry);
                proof {
                    assert(self@.images =~= before.images.push(entry@));
                    assert(self@.fonts =~= before.fonts);
                }
                Ok(())
            },
        }
    }

    /// Registers what one element uses.
    pub fn use_element(&mut self, res: &'a LoadedResources, element: &'a Element) -> (r: Result<
        (),
        RupdfError,
    >)
        requires
            old(self).wf(res),
            res.wf(),
            element.wf(),
        ensures
            match use_element_spec(res, old(self)@, *element) {
                Ok(next) => r is Ok && final(self)@ == next && final(self).wf(res),
                Err(f) => r matches Err(e) && reports(e, f),
            },
    {
        match element {
            Element::Text(t) => self.use_font(res, t.font.as_str(), t.text.as_str()),
            Element::TextBox(tb) => self.use_font(res, tb.font.as_str(), tb.text.as_str()),
            Element::Barcode(b) => {
                if b.human_readable {
                    self.use_font(res, b.font.as_str(), b.value.as_str())
                } else {
                    Ok(())
                }
            },
            Element::Image(img) => self.use_image(res, img),
            _ => Ok(()),
        }
    }
}

/// Where registering stops is the end of the text, or a character
/// within it.
proof fn lemma_stop_is_end(font: &LoadedFont, text: Seq<char>)
    ensures
        0 <= FontEmbedder::stop_index(font, text, 0) <= text.len(),
{
    lemma_stop_bounds(font, text, 0);
}

proof fn lemma_stop_bounds(font: &LoadedFont, text: Seq<char>, from: int)
    requires
        0 <= from,
    ensures
        from <= FontEmbedder::stop_index(font, text, from) || FontEmbedder::stop_index(
            font,
            text,
            from,
        ) == text.len(),
        FontEmbedder::stop_index(font, text, from) <= text.len(),
    decreases text.len() - from,
{
    if from < text.len() {
        lemma_stop_bounds(font, text, from + 1);
    }
}

/// Scans every page and element of the document, in order, and collects
/// what it uses. Fails on the first font or image that is not among the
/// resources, and on the first character that its font has no glyph for.
pub fn discover<'a>(doc: &'a Document, res: &'a LoadedResources) -> (r: Result<Usage<'a>, RupdfError>)
    requires
        doc.wf(),
        res.wf(),
    ensures
        match discover_spec(doc, res) {
            Ok(usage) => r matches Ok(u) && u@ == usage && u.wf(res),
            Err(f) => r matches Err(e) && reports(e, f),
        },
{
    let mut usage = Usage::new();
    let ghost start = usage@;
    assert(start.fonts =~= Seq::<FontUse>::empty() && start.images =~= Seq::<ImageUse>::empty());
    let mut p: usize = 0;
    while p < doc.pages.len()
        invariant
            p <= doc.pages.len(),
            doc.wf(),
            res.wf(),
            usage.wf(res),
            discover_spec(doc, res) == use_pages_spec(res, usage@, doc.pages@, p as int),
        decreases doc.pages.len() - p,
    {
        let page = &doc.pages[p];
        assert(doc.pages@[p as int].wf());
        let ghost page_start = usage@;
        let mut i: usize = 0;
        while i < page.elements.len()
            invariant
                i <= page.elements.len(),
                page.wf(),
                res.wf(),
                usage.wf(res),
                p < doc.pages.len(),
                *page == doc.pages@[p as int],
                discover_spec(doc, res) == use_pages_spec(res, page_start, doc.pages@, p as int),
                use_elements_spec(res, page_start, page.elements@, 0) == use_elements_spec(
                    res,
                    usage@,
                    page.elements@,
                    i as int,
                ),
            decreases page.elements.len() - i,
        {
            assert(page.elements@[i as int].wf());
            match usage.use_element(res, &page.elements[i]) {
                Ok(()) => {},
                Err(e) => {
                    return Err(e);
                },
            }
            i += 1;
        }
        p += 1;
    }
    Ok(usage)
}

/// Whether the font `alias` is among the fonts in use.
pub open spec fn collected(usage: UsageModel, alias: Seq<char>) -> bool {
    alias_index(usage.fonts, alias, 0) is Some
}

/// Whether every font in use in `usage` is in use in `next`.
pub open spec fn extends(usage: UsageModel, next: UsageModel) -> bool {
    forall|alias: Seq<char>| #[trigger] collected(usage, alias) ==> collected(next, alias)
}

/// The font that an element sets text in, if it sets any.
pub open spec fn element_font(element: Element) -> Option<Seq<char>> {
    match element {
        Element::Text(t) => Some(t.font@),
        Element::TextBox(tb) => Some(tb.font@),
        Element::Barcode(b) => if b.human_readable {
            Some(b.font@)
        } else {
            None
        },
        _ => None,
    }
}

/// Whether the fonts of the elements from `i` on are in use.
pub open spec fn elements_collected(usage: UsageModel, elements: Seq<Element>, i: int) -> bool
    decreases elements.len() - i,
{
    if i < 0 || i >= elements.len() {
        true
    } else {
        &&& element_font(elements[i]) matches Some(alias) ==> collected(usage, alias)
        &&& elements_collected(usage, elements, i + 1)
    }
}

/// Whether the fonts of the elements of the pages from `p` on are in use.
pub open spec fn pages_collected(usage: UsageModel, pages: Seq<Page>, p: int) -> bool
    decreases pages.len() - p,
{
    if p < 0 || p >= pages.len() {
        true
    } else {
        elements_collected(usage, pages[p].elements@, 0) && pages_collected(usage, pages, p + 1)
    }
}

/// A font has an index among the fonts in use exactly if it is among them.
proof fn lemma_alias_index(fonts: Seq<FontUse>, alias: Seq<char>, from: int)
    requires
        0 <= from,
    ensures
        match alias_index(fonts, alias, from) {
            Some(k) => from <= k < fonts.len() && fonts[k].alias == alias,
            None => forall|k: int| from <= k < fonts.len() ==> fonts[k].alias != alias,
        },
    decreases fonts.len() - from,
{
    if from < fonts.len() && fonts[from].alias != alias {
        lemma_alias_index(fonts, alias, from + 1);
    }
}

/// Registering text for a font puts the font in use and takes none out.
proof fn lemma_register_collects(
    usage: UsageModel,
    alias: Seq<char>,
    font_index: int,
    font: &LoadedFont,
    text: Seq<char>,
)
    ensures
        register_spec(usage, alias, font_index, font, text) matches Ok(next) ==> collected(
            next,
            alias,
        ) && extends(usage, next),
{
    if let Ok(next) = register_spec(usage, alias, font_index, font, text) {
        lemma_alias_index(usage.fonts, alias, 0);
        lemma_alias_index(next.fonts, alias, 0);
        match alias_index(usage.fonts, alias, 0) {
            Some(k) => {
                assert(next.fonts[k].alias == alias);
            },
            None => {
                assert(next.fonts[usage.fonts.len() as int].alias == alias);
            },
        }
        assert forall|other: Seq<char>| #[trigger] collected(usage, other) implies collected(
            next,
            other,
        ) by {
            lemma_alias_index(usage.fonts, other, 0);
            lemma_alias_index(next.fonts, other, 0);
            let j = alias_index(usage.fonts, other, 0)->0;
            assert(next.fonts[j].alias == other);
        }
    }
}

/// An element puts its font in use and takes none out.
proof fn lemma_use_element_collects(res: &LoadedResources, usage: UsageModel, element: Element)
    ensures
        use_element_spec(res, usage, element) matches Ok(next) ==> extends(usage, next) && (
        element_font(element) matches Some(alias) ==> collected(next, alias)),
{
    match element {
        Element::Text(t) => {
            if let Some(fi) = res.font_index(t.font@) {
                lemma_register_collects(usage, t.font@, fi, &res.fonts@[fi].1, t.text@);
            }
        },
        Element::TextBox(tb) => {
            if let Some(fi) = res.font_index(tb.font@) {
                lemma_register_collects(usage, tb.font@, fi, &res.fonts@[fi].1, tb.text@);
            }
        },
        Element::Barcode(b) => {
            if b.human_readable {
                if let Some(fi) = res.font_index(b.font@) {
                    lemma_register_collects(usage, b.font@, fi, &res.fonts@[fi].1, b.value@);
                }
            }
        },
        _ => {},
    }
}

/// What is in use stays in use where more is.
proof fn lemma_extends_elements(
    usage: UsageModel,
    next: UsageModel,
    elements: Seq<Element>,
    i: int,
)
    requires
        extends(usage, next),
        elements_collected(usage, elements, i),
    ensures
        elements_collected(next, elements, i),
    decreases elements.len() - i,
{
    if 0 <= i < elements.len() {
        if let Some(alias) = element_font(elements[i]) {
            assert(collected(usage, alias));
        }
        lemma_extends_elements(usage, next, elements, i + 1);
    }
}

/// After the elements from `i` on have been scanned, their fonts are in
/// use, and so is every font that was.
proof fn lemma_elements_collect(
    res: &LoadedResources,
    usage: UsageModel,
    elements: Seq<Element>,
    i: int,
)
    requires
        0 <= i,
    ensures
        use_elements_spec(res, usage, elements, i) matches Ok(last) ==> extends(usage, last)
            && elements_collected(last, elements, i),
    decreases elements.len() - i,
{
    if i < elements.len() {
        lemma_use_element_collects(res, usage, elements[i]);
        if let Ok(next) = use_element_spec(res, usage, elements[i]) {
            lemma_elements_collect(res, next, elements, i + 1);
            if let Ok(last) = use_elements_spec(res, next, elements, i + 1) {
                assert forall|alias: Seq<char>| #[trigger] collected(usage, alias) implies collected(
                    last,
                    alias,
                ) by {
                    assert(collected(next, alias));
                }
                if let Some(alias) = element_font(elements[i]) {
                    assert(collected(next, alias));
                }
            }
        }
    }
}

proof fn lemma_pages_collect(res: &LoadedResources, usage: UsageModel, pages: Seq<Page>, p: int)
    requires
        0 <= p,
    ensures
        use_pages_spec(res, usage, pages, p) matches Ok(last) ==> extends(usage, last)
            && pages_collected(last, pages, p),
    decreases pages.len() - p,
{
    if p < pages.len() {
        lemma_elements_collect(res, usage, pages[p].elements@, 0);
        if let Ok(next) = use_elements_spec(res, usage, pages[p].elements@, 0) {
            lemma_pages_collect(res, next, pages, p + 1);
            if let Ok(last) = use_pages_spec(res, next, pages, p + 1) {
                assert forall|alias: Seq<char>| #[trigger] collected(usage, alias) implies collected(
                    last,
                    alias,
                ) by {
                    assert(collected(next, alias));
                }
                lemma_extends_elements(next, last, pages[p].elements@, 0);
            }
        }
    }
}

/// Usage discovery collects the font of every element that sets text: the
/// compilation of a page never meets a font that was not registered.
pub proof fn lemma_discovery_collects_fonts(doc: &Document, res: &LoadedResources)
    ensures
        discover_spec(doc, res) matches Ok(usage) ==> pages_collected(usage, doc.pages@, 0),
{
    lemma_pages_collect(res, UsageModel { fonts: Seq::empty(), images: Seq::empty() }, doc.pages@, 0);
}

} // verus!
