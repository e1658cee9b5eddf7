//! The compiler: discovers what a document uses, numbers the objects of
//! the output, and compiles every font, image and page.
//!
//! The three passes are kept apart because an object must have its
//! identifier before anything can refer to it.
use crate::bindings::raster::decoded_image;
use crate::elements::svg::{node_converted, write_svg_form, FormObject};
use crate::error::RupdfError;
use crate::measure::Micro;
use crate::pdf::content::{ops_view, Op, OpModel};
use crate::pdf::fonts::{embedded_as, subset_of, EmbeddedFont};
use crate::pdf::streams::stored_stream;
use crate::pdf::page::{element_program, elements_program, page_program, render_page_content};
use crate::pdf::shapes::background_ops;
use crate::pdf::usage::{
    discover, discover_spec, elements_collected, lemma_discovery_collects_fonts, pages_collected,
    reports, Failure, FontUse, ImageUse, Usage, UsageModel,
};
use crate::raster::{embeds, raster_verdict, write_raster_image, RasterObject};
use crate::resources::{LoadedImage, LoadedResources};
use crate::types::{Document, Element, Metadata, Page};
use std::collections::HashMap;
use vstd::prelude::*;
use vstd::string::StringExecFns;

verus! {

/// The information object of a document.
#[derive(Debug)]
pub struct DocumentInfo {
    pub info_ref: i32,
    pub title: Option<String>,
    pub author: Option<String>,
    pub subject: Option<String>,
    pub creator: Option<String>,
}

/// An embedded image: a raster image or a form.
#[derive(Debug)]
pub enum ImageObject {
    Raster(RasterObject),
    Form(FormObject),
}

/// An image as the pages name it.
#[derive(Debug)]
pub struct EmbeddedImage {
    pub key: String,
    pub object: ImageObject,
}

/// A page: its content stream and its page object.
#[derive(Debug)]
pub struct CompiledPage {
    pub page_ref: i32,
    pub content_ref: i32,
    pub width: Micro,
    pub height: Micro,
    /// The drawing program of the page.
    pub content: Vec<Op>,
    /// Whether the content is stored as a zlib stream.
    pub compress: bool,
}

/// Every object of the output, ready to be written. The resources of a
/// page are the fonts, images and graphics states listed here, and no
/// others. `alpha_states` gives the identifier of the graphics state of
/// each transparency level.
#[derive(Debug)]
pub struct CompiledDocument {
    pub catalog_ref: i32,
    pub page_tree_ref: i32,
    pub info: Option<DocumentInfo>,
    pub alpha_states: HashMap<u8, i32>,
    pub fonts: Vec<EmbeddedFont>,
    pub images: Vec<EmbeddedImage>,
    pub pages: Vec<CompiledPage>,
    pub compress: bool,
}

/// How many objects of each kind a document has.
pub struct Layout {
    pub has_info: bool,
    pub fonts: int,
    pub images: int,
    pub pages: int,
}

/// An object of the output.
pub enum Slot {
    Catalog,
    PageTree,
    Info,
    /// The graphics state of the level with this index.
    Alpha(int),
    /// Part 0 to 4 of the font with this index: the composite font, its
    /// descendant, the descriptor, the character map, the font program.
    Font(int, int),
    Image(int),
    /// The content stream of the page with this index.
    Content(int),
    /// The page object of the page with this index.
    PageObject(int),
}

impl Layout {
    /// Whether the counts are counts.
    pub open spec fn wf(self) -> bool {
        self.fonts >= 0 && self.images >= 0 && self.pages >= 0
    }

    /// The identifier of the first graphics state.
    pub open spec fn first_alpha(self) -> int {
        if self.has_info {
            4
        } else {
            3
        }
    }

    /// The identifier of the first object of the first font.
    pub open spec fn first_font(self) -> int {
        self.first_alpha() + 4
    }

    /// The identifier of the first image.
    pub open spec fn first_image(self) -> int {
        self.first_font() + 5 * self.fonts
    }

    /// The identifier of the first page's content stream.
    pub open spec fn first_page(self) -> int {
        self.first_image() + self.images
    }

    /// The number of objects: the catalog, the page tree, the information
    /// object if there is one, four graphics states, five objects for every
    /// font, one for every image and two for every page.
    pub open spec fn object_count(self) -> int {
        self.first_page() + 2 * self.pages - 1
    }

    /// Whether the layout has the object.
    pub open spec fn has(self, slot: Slot) -> bool {
        match slot {
            Slot::Catalog => true,
            Slot::PageTree => true,
            Slot::Info => self.has_info,
            Slot::Alpha(j) => 0 <= j < 4,
            Slot::Font(k, part) => 0 <= k < self.fonts && 0 <= part < 5,
            Slot::Image(m) => 0 <= m < self.images,
            Slot::Content(p) => 0 <= p < self.pages,
            Slot::PageObject(p) => 0 <= p < self.pages,
        }
    }

    /// The identifier of an object. Identifiers are given out in a fixed
    /// order, each the successor of the one before.
    pub open spec fn id(self, slot: Slot) -> int {
        match slot {
            Slot::Catalog => 1,
            Slot::PageTree => 2,
            Slot::Info => 3,
            Slot::Alpha(j) => self.first_alpha() + j,
            Slot::Font(k, part) => self.first_font() + 5 * k + part,
            Slot::Image(m) => self.first_image() + m,
            Slot::Content(p) => self.first_page() + 2 * p,
            Slot::PageObject(p) => self.first_page() + 2 * p + 1,
        }
    }

    /// No identifier is given out twice, and every identifier lies between
    /// one and the number of objects.
    pub proof fn lemma_ids_distinct(self, a: Slot, b: Slot)
        requires
            self.wf(),
            self.has(a),
            self.has(b),
        ensures
            1 <= self.id(a) <= self.object_count(),
            a != b ==> self.id(a) != self.id(b),
    {
    }
}

/// The identifiers of the four graphics states, by transparency level,
/// when they are numbered from `first` on.
pub open spec fn alpha_states_from(first: int) -> Map<u8, i32> {
    Map::<u8, i32>::empty().insert(255u8, first as i32).insert(191u8, (first + 1) as i32).insert(
        127u8,
        (first + 2) as i32,
    ).insert(63u8, (first + 3) as i32)
}

/// The text of an optional string.
pub open spec fn text_of(s: Option<String>) -> Option<Seq<char>> {
    match s {
        Some(t) => Some(t@),
        None => None,
    }
}

/// Whether `f` is the embedding of a font in use under the identifiers
/// from `first` on, its font program and character map stored as the
/// compression flag says.
pub open spec fn font_matches(
    f: EmbeddedFont,
    res: &LoadedResources,
    used: FontUse,
    first: int,
    compress: bool,
) -> bool {
    let font = &res.fonts@[used.font_index].1;
    &&& subset_of(font, used.registered) matches Some(program) && f.font_file@ == stored_stream(
        program,
        compress,
    )
    &&& embedded_as(
        f,
        font,
        used.registered,
        first as i32,
        (first + 1) as i32,
        (first + 2) as i32,
        (first + 3) as i32,
        (first + 4) as i32,
        compress,
    )
}

/// The first font from `k` on that cannot be subsetted.
pub open spec fn first_font_failure(res: &LoadedResources, fonts: Seq<FontUse>, k: int) -> Option<
    Failure,
>
    decreases fonts.len() - k,
{
    if k < 0 || k >= fonts.len() {
        None
    } else {
        let font = &res.fonts@[fonts[k].font_index].1;
        if subset_of(font, fonts[k].registered) is None {
            Some(Failure::FontRejected(fonts[k].alias))
        } else {
            first_font_failure(res, fonts, k + 1)
        }
    }
}

/// Whether `e` is the embedding of an image in use under the identifier
/// `id`: a vector image as a form with the program of its tree, stored as
/// the compression flag says; a raster image as what embedding its decoded
/// samples for the displayed size gives.
pub open spec fn image_matches(
    e: EmbeddedImage,
    res: &LoadedResources,
    used: ImageUse,
    id: int,
    compress: bool,
) -> bool {
    &&& e.key@ == used.key
    &&& match res.images@[used.image_index].1 {
        LoadedImage::Svg { tree, width, height } => e.object matches ImageObject::Form(form)
            && form.form_ref == id && form.compress == compress && form.width == tree.width
            && form.height == tree.height
            && ops_view(form.ops@) == node_converted(tree.root, tree.height as int).ops
            && form.skipped@ == node_converted(tree.root, tree.height as int).skipped,
        LoadedImage::Raster { data, width, height } => e.object matches ImageObject::Raster(object)
            && (decoded_image(data@) matches Some((w, h, rgba)) && w > 0 && h > 0 && embeds(
            object,
            rgba,
            w,
            h,
            used.width,
            used.height,
            id as i32,
        )),
    }
}

/// Whether embedding an image in use succeeds, where that can be told
/// beforehand: a vector image always does; for a raster image see
/// `raster_verdict`.
pub open spec fn image_verdict(res: &LoadedResources, used: ImageUse) -> Option<bool> {
    match res.images@[used.image_index].1 {
        LoadedImage::Svg { .. } => Some(true),
        LoadedImage::Raster { data, width, height } => raster_verdict(
            data@,
            used.width,
            used.height,
        ),
    }
}

/// Whether every image in use is sure to be embedded.
pub open spec fn images_sure(res: &LoadedResources, images: Seq<ImageUse>) -> bool {
    forall|m: int| 0 <= m < images.len() ==> image_verdict(res, #[trigger] images[m]) == Some(true)
}

/// Whether no image in use is sure to fail.
pub open spec fn images_possible(res: &LoadedResources, images: Seq<ImageUse>) -> bool {
    forall|m: int| 0 <= m < images.len() ==> image_verdict(res, #[trigger] images[m]) != Some(false)
}

/// Whether `e` reports that the image in use `used`, a raster image that
/// is not sure to be embedded, was rejected.
pub open spec fn image_rejected(res: &LoadedResources, used: ImageUse, e: RupdfError) -> bool {
    is_raster_use(res, used) && image_verdict(res, used) != Some(true) && reports(
        e,
        Failure::ImageRejected(used.image_ref),
    )
}

/// Whether the image use is of a raster image.
pub open spec fn is_raster_use(res: &LoadedResources, used: ImageUse) -> bool {
    res.images@[used.image_index].1 is Raster
}

/// Whether `page` compiled to `c` as page `p`.
pub open spec fn page_matches(
    c: CompiledPage,
    page: Page,
    res: &LoadedResources,
    usage: UsageModel,
    layout: Layout,
    p: int,
    compress: bool,
) -> bool {
    &&& c.content_ref == layout.id(Slot::Content(p))
    &&& c.page_ref == layout.id(Slot::PageObject(p))
    &&& c.width == page.width
    &&& c.height == page.height
    &&& c.compress == compress
    &&& page_program(page, res, usage) == Ok::<Seq<OpModel>, Failure>(
        ops_view(c.content@),
    )
}

/// The first failure among the pages from `p` on.
pub open spec fn first_page_failure(
    pages: Seq<Page>,
    res: &LoadedResources,
    usage: UsageModel,
    p: int,
) -> Option<Failure>
    decreases pages.len() - p,
{
    if p < 0 || p >= pages.len() {
        None
    } else {
        match page_program(pages[p], res, usage) {
            Err(f) => Some(f),
            Ok(_) => first_page_failure(pages, res, usage, p + 1),
        }
    }
}

/// The layout of a document with this usage.
pub open spec fn layout_of(doc: &Document, usage: UsageModel) -> Layout {
    Layout {
        has_info: doc.metadata.has_info(),
        fonts: usage.fonts.len() as int,
        images: usage.images.len() as int,
        pages: doc.pages@.len() as int,
    }
}

/// Whether `info` is the information object of a document with this
/// metadata: there if any of title, author, subject and creator is set,
/// and holding those.
pub open spec fn info_matches(info: Option<DocumentInfo>, metadata: Metadata) -> bool {
    if metadata.has_info() {
        info matches Some(i) && i.info_ref == 3 && text_of(i.title) == text_of(metadata.title)
            && text_of(i.author) == text_of(metadata.author) && text_of(i.subject) == text_of(
            metadata.subject,
        ) && text_of(i.creator) == text_of(metadata.creator)
    } else {
        info is None
    }
}

/// Whether `plan` is the compilation of the document with this usage.
pub open spec fn plan_matches(
    plan: CompiledDocument,
    doc: &Document,
    res: &LoadedResources,
    usage: UsageModel,
    compress: bool,
) -> bool {
    let layout = layout_of(doc, usage);
    &&& plan.catalog_ref == 1
    &&& plan.page_tree_ref == 2
    &&& plan.compress == compress
    &&& info_matches(plan.info, doc.metadata)
    &&& plan.alpha_states@ == alpha_states_from(layout.id(Slot::Alpha(0)))
    &&& plan.fonts@.len() == usage.fonts.len()
    &&& forall|k: int|
        0 <= k < usage.fonts.len() ==> font_matches(
            #[trigger] plan.fonts@[k],
            res,
            usage.fonts[k],
            layout.id(Slot::Font(k, 0)),
            compress,
        )
    &&& plan.images@.len() == usage.images.len()
    &&& forall|m: int|
        0 <= m < usage.images.len() ==> image_matches(
            #[trigger] plan.images@[m],
            res,
            usage.images[m],
            layout.id(Slot::Image(m)),
            compress,
        )
    &&& plan.pages@.len() == doc.pages@.len()
    &&& forall|p: int|
        0 <= p < doc.pages@.len() ==> page_matches(
            #[trigger] plan.pages@[p],
            doc.pages@[p],
            res,
            usage,
            layout,
            p,
            compress,
        )
}

/// Compression never affects geometry: compiled with and without
/// compression, a document has the same drawing program on every page.
pub proof fn lemma_compression_keeps_programs(
    with: CompiledDocument,
    without: CompiledDocument,
    doc: &Document,
    res: &LoadedResources,
    usage: UsageModel,
    p: int,
)
    requires
        plan_matches(with, doc, res, usage, true),
        plan_matches(without, doc, res, usage, false),
        0 <= p < doc.pages@.len(),
    ensures
        ops_view(with.pages@[p].content@) == ops_view(without.pages@[p].content@),
        with.pages@[p].width == without.pages@[p].width,
        with.pages@[p].height == without.pages@[p].height,
        with.pages@[p].compress && !without.pages@[p].compress,
{
    assert(page_matches(with.pages@[p], doc.pages@[p], res, usage, layout_of(doc, usage), p, true));
    assert(page_matches(
        without.pages@[p],
        doc.pages@[p],
        res,
        usage,
        layout_of(doc, usage),
        p,
        false,
    ));
}

/// The compression flag governs every stream alike: in a compiled
/// document every font, every form and every page says of its streams what
/// the flag says, and with the flag off a font program is stored as the
/// subsetter made it.
pub proof fn lemma_flag_governs_streams(
    plan: CompiledDocument,
    doc: &Document,
    res: &LoadedResources,
    usage: UsageModel,
    compress: bool,
)
    requires
        plan_matches(plan, doc, res, usage, compress),
    ensures
        forall|k: int| 0 <= k < plan.fonts@.len() ==> (#[trigger] plan.fonts@[k]).compress == compress,
        forall|p: int| 0 <= p < plan.pages@.len() ==> (#[trigger] plan.pages@[p]).compress == compress,
        forall|m: int|
            0 <= m < plan.images@.len() ==> ((#[trigger] plan.images@[m]).object matches ImageObject::Form(
                form,
            ) ==> form.compress == compress),
        !compress ==> forall|k: int|
            0 <= k < plan.fonts@.len() ==> Some((#[trigger] plan.fonts@[k]).font_file@) == subset_of(
                &res.fonts@[usage.fonts[k].font_index].1,
                usage.fonts[k].registered,
            ),
{
    assert forall|k: int| 0 <= k < plan.fonts@.len() implies (#[trigger] plan.fonts@[k]).compress
        == compress && (!compress ==> Some(plan.fonts@[k].font_file@) == subset_of(
        &res.fonts@[usage.fonts[k].font_index].1,
        usage.fonts[k].registered,
    )) by {
        assert(font_matches(
            plan.fonts@[k],
            res,
            usage.fonts[k],
            layout_of(doc, usage).id(Slot::Font(k, 0)),
            compress,
        ));
    }
    assert forall|p: int| 0 <= p < plan.pages@.len() implies (#[trigger] plan.pages@[p]).compress
        == compress by {
        assert(page_matches(
            plan.pages@[p],
            doc.pages@[p],
            res,
            usage,
            layout_of(doc, usage),
            p,
            compress,
        ));
    }
    assert forall|m: int| 0 <= m < plan.images@.len() implies ((
    #[trigger] plan.images@[m]).object matches ImageObject::Form(form) ==> form.compress
        == compress) by {
        assert(image_matches(
            plan.images@[m],
            res,
            usage.images[m],
            layout_of(doc, usage).id(Slot::Image(m)),
            compress,
        ));
    }
}

/// A compiled document has one page for every page of the document, and
/// no two of its objects share an identifier.
pub proof fn lemma_plan_counts(
    plan: CompiledDocument,
    doc: &Document,
    res: &LoadedResources,
    usage: UsageModel,
    compress: bool,
    a: Slot,
    b: Slot,
)
    requires
        plan_matches(plan, doc, res, usage, compress),
        layout_of(doc, usage).has(a),
        layout_of(doc, usage).has(b),
        a != b,
    ensures
        plan.pages@.len() == doc.pages@.len(),
        layout_of(doc, usage).id(a) != layout_of(doc, usage).id(b),
{
    layout_of(doc, usage).lemma_ids_distinct(a, b);
}

/// A page whose fonts are all in use never fails for a font that was not
/// collected.
proof fn lemma_page_fonts_collected(
    elements: Seq<Element>,
    i: int,
    done: Seq<OpModel>,
    page_height: int,
    res: &LoadedResources,
    usage: UsageModel,
)
    requires
        0 <= i,
        elements_collected(usage, elements, i),
    ensures
        !(elements_program(elements, i, done, page_height, res, usage) matches Err(
            Failure::NotCollected(_),
        )),
    decreases elements.len() - i,
{
    if i < elements.len() {
        match element_program(elements[i], page_height, res, usage) {
            Ok(ops) => {
                lemma_page_fonts_collected(elements, i + 1, done + ops, page_height, res, usage);
            },
            Err(_) => {},
        }
    }
}

/// The three passes agree: what the first pass collects is all that the
/// third pass asks for, so a document whose usage was discovered never
/// fails to compile for want of a registered font.
pub proof fn lemma_passes_agree(doc: &Document, res: &LoadedResources, p: int)
    requires
        0 <= p,
    ensures
        discover_spec(doc, res) matches Ok(usage) ==> !(first_page_failure(
            doc.pages@,
            res,
            usage,
            p,
        ) matches Some(Failure::NotCollected(_))),
    decreases doc.pages@.len() - p,
{
    if let Ok(usage) = discover_spec(doc, res) {
        lemma_discovery_collects_fonts(doc, res);
        lemma_pages_from(doc.pages@, res, usage, 0, p);
        if p < doc.pages@.len() {
            let page = doc.pages@[p];
            lemma_page_fonts_collected(
                page.elements@,
                0,
                background_ops(
                    page.background,
                    page.width as int,
                    page.height as int,
                ),
                page.height as int,
                res,
                usage,
            );
            lemma_passes_agree(doc, res, p + 1);
        }
    }
}

/// If the fonts of the pages from `from` on are in use, so are those of
/// the pages from `p` on, for every later `p`.
proof fn lemma_pages_from(
    pages: Seq<Page>,
    res: &LoadedResources,
    usage: UsageModel,
    from: int,
    p: int,
)
    requires
        0 <= from <= p,
        pages_collected(usage, pages, from),
    ensures
        pages_collected(usage, pages, p),
        p < pages.len() ==> elements_collected(usage, pages[p].elements@, 0),
    decreases p - from,
{
    if from < p && from < pages.len() {
        lemma_pages_from(pages, res, usage, from + 1, p);
    }
}

fn clone_text(s: &Option<String>) -> (r: Option<String>)
    ensures
        text_of(r) == text_of(*s),
{
    match s {
        Some(t) => Some(t.clone()),
        None => None,
    }
}

/// The information object of a document, if it has one.
pub fn document_info(metadata: &Metadata) -> (info: Option<DocumentInfo>)
    ensures
        info_matches(info, *metadata),
{
    if metadata.title.is_some() || metadata.author.is_some() || metadata.subject.is_some()
        || metadata.creator.is_some() {
        Some(
            DocumentInfo {
                info_ref: 3,
                title: clone_text(&metadata.title),
                author: clone_text(&metadata.author),
                subject: clone_text(&metadata.subject),
                creator: clone_text(&metadata.creator),
            },
        )
    } else {
        None
    }
}

/// The four graphics states, numbered from `first` on.
fn alpha_states(first: i32) -> (states: HashMap<u8, i32>)
    requires
        first <= i32::MAX - 4,
    ensures
        states@ == alpha_states_from(first as int),
{
    let mut states: HashMap<u8, i32> = HashMap::new();
    states.insert(255, first);
    states.insert(191, first + 1);
    states.insert(127, first + 2);
    states.insert(63, first + 3);
    states
}

/// Embeds every font in use, the first under the identifiers from `first`
/// on.
fn emit_fonts(usage: &Usage, res: &LoadedResources, first: i32, compress: bool) -> (r: Result<
    Vec<EmbeddedFont>,
    RupdfError,
>)
    requires
        res.wf(),
        usage.wf(res),
        first + 5 * usage.fonts@.len() <= i32::MAX,
        first >= 1,
    ensures
        match first_font_failure(res, usage@.fonts, 0) {
            Some(f) => r matches Err(e) && reports(e, f),
            None => r matches Ok(fonts) && fonts@.len() == usage@.fonts.len() && forall|k: int|
                0 <= k < fonts@.len() ==> font_matches(
                    #[trigger] fonts@[k],
                    res,
                    usage@.fonts[k],
                    first + 5 * k,
                    compress,
                ),
        },
{
    let mut fonts: Vec<EmbeddedFont> = Vec::new();
    let mut k: usize = 0;
    while k < usage.fonts.len()
        invariant
            k <= usage.fonts.len(),
            res.wf(),
            usage.wf(res),
            first + 5 * usage.fonts@.len() <= i32::MAX,
            first >= 1,
            fonts@.len() == k,
            first_font_failure(res, usage@.fonts, 0) == first_font_failure(
                res,
                usage@.fonts,
                k as int,
            ),
            forall|j: int|
                0 <= j < k ==> font_matches(
                    #[trigger] fonts@[j],
                    res,
                    usage@.fonts[j],
                    first + 5 * j,
                    compress,
                ),
        decreases usage.fonts.len() - k,
    {
        let used = &usage.fonts[k];
        assert(usage@.fonts[k as int] == used@);
        assert(res.fonts@[used.font_index as int].1.wf());
        let base: i32 = first + 5 * (k as i32);
        match used.embedder.embed(base, base + 1, base + 2, base + 3, base + 4, compress) {
            Ok(f) => {
                fonts.push(f);
            },
            Err(e) => {
                return Err(e);
            },
        }
        k += 1;
    }
    Ok(fonts)
}

/// Embeds every image in use, the first under the identifier `first`.
/// Succeeds if every image is sure to be embedded; fails if one is sure
/// not to be.
fn emit_images(usage: &Usage, res: &LoadedResources, first: i32, compress: bool) -> (r: Result<
    Vec<EmbeddedImage>,
    RupdfError,
>)
    requires
        res.wf(),
        usage.wf(res),
        first + usage.images@.len() <= i32::MAX,
        first >= 1,
    ensures
        match r {
            Ok(images) => images@.len() == usage@.images.len() && images_possible(
                res,
                usage@.images,
            ) && forall|m: int|
                0 <= m < images@.len() ==> image_matches(
                    #[trigger] images@[m],
                    res,
                    usage@.images[m],
                    first + m,
                    compress,
                ),
            Err(e) => exists|m: int|
                0 <= m < usage@.images.len() && image_rejected(res, #[trigger] usage@.images[m], e),
        },
        images_sure(res, usage@.images) ==> r is Ok,
{
    let mut images: Vec<EmbeddedImage> = Vec::new();
    let mut m: usize = 0;
    while m < usage.images.len()
        invariant
            m <= usage.images.len(),
            res.wf(),
            usage.wf(res),
            first + usage.images@.len() <= i32::MAX,
            first >= 1,
            images@.len() == m,
            forall|j: int|
                0 <= j < m ==> image_verdict(res, #[trigger] usage@.images[j]) != Some(false),
            forall|j: int|
                0 <= j < m ==> image_matches(
                    #[trigger] images@[j],
                    res,
                    usage@.images[j],
                    first + j,
                    compress,
                ),
        decreases usage.images.len() - m,
    {
        let used = &usage.images[m];
        assert(usage@.images[m as int] == used@);
        let id: i32 = first + (m as i32);
        let object = match &res.images[used.image_index].1 {
            LoadedImage::Svg { tree, width, height } => {
                assert(res.images@[used.image_index as int].1.wf());
                ImageObject::Form(write_svg_form(id, tree, compress))
            },
            LoadedImage::Raster { data, width, height } => {
                match write_raster_image(
                    data.as_slice(),
                    used.image_ref.as_str(),
                    used.width,
                    used.height,
                    id,
                ) {
                    Ok(object) => ImageObject::Raster(object),
                    Err(e) => {
                        assert(image_rejected(res, usage@.images[m as int], e));
                        return Err(e);
                    },
                }
            },
        };
        images.push(EmbeddedImage { key: used.key.clone(), object });
        m += 1;
    }
    Ok(images)
}

/// Compiles every page, the first with the identifiers `first` and
/// `first + 1`.
fn emit_pages(
    doc: &Document,
    res: &LoadedResources,
    usage: &Usage,
    layout: Ghost<Layout>,
    first: i32,
    compress: bool,
) -> (r: Result<Vec<CompiledPage>, RupdfError>)
    requires
        doc.wf(),
        res.wf(),
        usage.wf(res),
        first == layout@.first_page(),
        first + 2 * doc.pages@.len() - 1 <= i32::MAX,
        first >= 1,
    ensures
        match first_page_failure(doc.pages@, res, usage@, 0) {
            Some(f) => r matches Err(e) && reports(e, f),
            None => r matches Ok(pages) && pages@.len() == doc.pages@.len() && forall|p: int|
                0 <= p < pages@.len() ==> page_matches(
                    #[trigger] pages@[p],
                    doc.pages@[p],
                    res,
                    usage@,
                    layout@,
                    p,
                    compress,
                ),
        },
{
    let mut pages: Vec<CompiledPage> = Vec::new();
    let mut p: usize = 0;
    while p < doc.pages.len()
        invariant
            p <= doc.pages.len(),
            doc.wf(),
            res.wf(),
            usage.wf(res),
            first == layout@.first_page(),
            first + 2 * doc.pages@.len() - 1 <= i32::MAX,
            first >= 1,
            pages@.len() == p,
            first_page_failure(doc.pages@, res, usage@, 0) == first_page_failure(
                doc.pages@,
                res,
                usage@,
                p as int,
            ),
            forall|j: int|
                0 <= j < p ==> page_matches(
                    #[trigger] pages@[j],
                    doc.pages@[j],
                    res,
                    usage@,
                    layout@,
                    j,
                    compress,
                ),
        decreases doc.pages.len() - p,
    {
        let page = &doc.pages[p];
        assert(doc.pages@[p as int].wf());
        let content = match render_page_content(page, res, usage) {
            Ok(content) => content,
            Err(e) => {
                return Err(e);
            },
        };
        let content_ref: i32 = first + 2 * (p as i32);
        pages.push(
            CompiledPage {
                page_ref: content_ref + 1,
                content_ref,
                width: page.width,
                height: page.height,
                content,
                compress,
            },
        );
        p += 1;
    }
    Ok(pages)
}

/// Compiles documents.
#[derive(Debug)]
pub struct PdfGenerator<'a> {
    doc: &'a Document,
    resources: &'a LoadedResources,
    compress: bool,
}

impl<'a> PdfGenerator<'a> {
    /// The document to compile.
    pub closed spec fn doc(&self) -> &Document {
        self.doc
    }

    /// The loaded resources of the document.
    pub closed spec fn resources(&self) -> &LoadedResources {
        self.resources
    }

    /// Whether streams are compressed.
    pub closed spec fn compress(&self) -> bool {
        self.compress
    }

    /// The generator that `new` returns.
    pub closed spec fn new_spec(
        doc: &'a Document,
        resources: &'a LoadedResources,
        compress: bool,
    ) -> Self {
        PdfGenerator { doc, resources, compress }
    }

    /// A generator for `doc` with its loaded resources.
    pub fn new(doc: &'a Document, resources: &'a LoadedResources, compress: bool) -> (r: Self)
        ensures
            r == Self::new_spec(doc, resources, compress),
            r.doc() == doc,
            r.resources() == resources,
            r.compress() == compress,
    {
        PdfGenerator { doc, resources, compress }
    }

    /// What `generate` returns for a document with the usage `usage`: the
    /// failure to number the objects, else the first font that cannot be
    /// embedded, else a raster image that cannot be embedded, else the first
    /// page that cannot be compiled, else the compiled document. The
    /// compilation succeeds whenever no font is refused, every image is sure
    /// to be embedded and no page fails.
    pub open spec fn generated(
        &self,
        r: Result<CompiledDocument, RupdfError>,
        usage: UsageModel,
    ) -> bool {
        let layout = layout_of(self.doc(), usage);
        if layout.object_count() > i32::MAX {
            r matches Err(e) && reports(e, Failure::TooManyObjects)
        } else {
            match first_font_failure(self.resources(), usage.fonts, 0) {
                Some(f) => r matches Err(e) && reports(e, f),
                None => {
                    let failure = first_page_failure(self.doc().pages@, self.resources(), usage, 0);
                    &&& match r {
                        Ok(plan) => failure is None && images_possible(
                            self.resources(),
                            usage.images,
                        ) && plan_matches(
                            plan,
                            self.doc(),
                            self.resources(),
                            usage,
                            self.compress(),
                        ),
                        Err(e) => (exists|m: int|
                            0 <= m < usage.images.len() && image_rejected(
                                self.resources(),
                                #[trigger] usage.images[m],
                                e,
                            )) || (images_possible(self.resources(), usage.images) && (
                        failure matches Some(f) && reports(e, f))),
                    }
                    &&& images_sure(self.resources(), usage.images) && failure is None ==> r is Ok
                },
            }
        }
    }

    /// Compiles the document: discovers what it uses, numbers the objects,
    /// and compiles every font, image and page. Any failure fails the whole
    /// compilation.
    pub fn generate(&self) -> (r: Result<CompiledDocument, RupdfError>)
        requires
            self.doc().wf(),
            self.resources().wf(),
        ensures
            match discover_spec(self.doc(), self.resources()) {
                Err(f) => r matches Err(e) && reports(e, f),
                Ok(usage) => self.generated(r, usage),
            },
    {
        let usage = match discover(self.doc, self.resources) {
            Ok(usage) => usage,
            Err(e) => {
                return Err(e);
            },
        };
        let ghost layout = layout_of(self.doc, usage@);
        let info = document_info(&self.doc.metadata);
        let info_count: u128 = if info.is_some() {
            1
        } else {
            0
        };
        let font_count = usage.fonts.len();
        let image_count = usage.images.len();
        let page_count = self.doc.pages.len();
        let total: u128 = 6 + info_count + 5 * (font_count as u128) + (image_count as u128) + 2 * (
        page_count as u128);
        assert(total == layout.object_count());
        if total > 0x7fff_ffff {
            return Err(RupdfError::PdfError(String::from_str("Too many objects")));
        }
        let first_alpha: i32 = 3 + info_count as i32;
        let first_font: i32 = first_alpha + 4;
        let first_image: i32 = first_font + 5 * (font_count as i32);
        let first_page: i32 = first_image + image_count as i32;
        let states = alpha_states(first_alpha);
        let fonts = match emit_fonts(&usage, self.resources, first_font, self.compress) {
            Ok(fonts) => fonts,
            Err(e) => {
                return Err(e);
            },
        };
        let images = match emit_images(&usage, self.resources, first_image, self.compress) {
            Ok(images) => images,
            Err(e) => {
                return Err(e);
            },
        };
        let pages = match emit_pages(
            self.doc,
            self.resources,
            &usage,
            Ghost(layout),
            first_page,
            self.compress,
        ) {
            Ok(pages) => pages,
            Err(e) => {
                return Err(e);
            },
        };
        Ok(
            CompiledDocument {
                catalog_ref: 1,
                page_tree_ref: 2,
                info,
                alpha_states: states,
                fonts,
                images,
                pages,
                compress: self.compress,
            },
        )
    }
}

/// Compiles a document after checking it: a page that is not well formed
/// is reported as `Document::validate` reports it, resources that are not
/// well formed are a resource error, and a document that passes both checks
/// is compiled as `PdfGenerator::generate` compiles it.
pub fn render_pdf(doc: &Document, resources: &LoadedResources, compress: bool) -> (r: Result<
    CompiledDocument,
    RupdfError,
>)
    ensures
        match doc.first_bad_page(0) {
            Some(p) => r matches Err(e) && doc.pages@[p].rejected_with(e),
            None => if !resources.wf() {
                r matches Err(RupdfError::ResourceError(detail)) && detail@
                    == "A resource is not usable"@
            } else {
                match discover_spec(doc, resources) {
                    Err(f) => r matches Err(e) && reports(e, f),
                    Ok(usage) => PdfGenerator::new_spec(doc, resources, compress).generated(
                        r,
                        usage,
                    ),
                }
            },
        },
{
    match doc.validate() {
        Ok(()) => {},
        Err(e) => {
            return Err(e);
        },
    }
    if !resources.is_wf() {
        return Err(RupdfError::ResourceError(String::from_str("A resource is not usable")));
    }
    PdfGenerator::new(doc, resources, compress).generate()
}

} // verus!
