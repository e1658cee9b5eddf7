//! The drawing program of a page.
use crate::error::RupdfError;
use crate::measure::{in_range, Micro};
use crate::pdf::content::{ops_view, Content, Op, OpModel};
use crate::pdf::images::{image_ops, render_image};
use crate::pdf::streams::{store_stream, stored_stream};
use crate::pdf::shapes::{
    background_ops, line_ops, rect_ops, render_background, render_line, render_rect,
};
use crate::pdf::symbols::{
    barcode_bars_ops, barcode_modules, barcode_outcome, label_ops, qrcode_ops,
    render_barcode_bars, render_barcode_label, render_qrcode,
};
use crate::pdf::textual::{render_text, render_textbox, text_ops, textbox_ops};
use crate::pdf::usage::{alias_index, reports, Failure, Usage, UsageModel};
use crate::resources::LoadedResources;
use crate::types::{BarcodeElement, Element, Page, TextBoxElement, TextElement};
use vstd::prelude::*;
use vstd::string::StringExecFns;

verus! {

/// The program of a line of text, or why there is none.
pub open spec fn text_program(
    text: TextElement,
    page_height: int,
    res: &LoadedResources,
    usage: UsageModel,
) -> Result<Seq<OpModel>, Failure> {
    match res.font_index(text.font@) {
        None => Err(Failure::MissingFont(text.font@)),
        Some(fi) => match alias_index(usage.fonts, text.font@, 0) {
            None => Err(Failure::NotCollected(text.font@)),
            Some(k) => {
                let font = &res.fonts@[fi].1;
                match font.first_unmapped(text.text@) {
                    Some(c) => Err(Failure::MissingGlyph(c, text.font@)),
                    None => Ok(
                        text_ops(
                            text,
                            page_height,
                            font,
                            usage.fonts[k].registered,
                            font.postscript_name@,
                        ),
                    ),
                }
            },
        },
    }
}

/// The program of a text box, or why there is none.
pub open spec fn textbox_program(
    textbox: TextBoxElement,
    page_height: int,
    res: &LoadedResources,
    usage: UsageModel,
) -> Result<Seq<OpModel>, Failure> {
    match res.font_index(textbox.font@) {
        None => Err(Failure::MissingFont(textbox.font@)),
        Some(fi) => match alias_index(usage.fonts, textbox.font@, 0) {
            None => Err(Failure::NotCollected(textbox.font@)),
            Some(k) => {
                let font = &res.fonts@[fi].1;
                match textbox_ops(
                    textbox,
                    page_height,
                    font,
                    usage.fonts[k].registered,
                    font.postscript_name@,
                ) {
                    Ok(ops) => Ok(ops),
                    Err(c) => Err(Failure::MissingGlyph(c, textbox.font@)),
                }
            },
        },
    }
}

/// The printed value of a bar symbol, or why there is none.
pub open spec fn label_program(
    barcode: BarcodeElement,
    page_height: int,
    res: &LoadedResources,
    usage: UsageModel,
) -> Result<Seq<OpModel>, Failure> {
    if !barcode.human_readable {
        Ok(Seq::empty())
    } else {
        match res.font_index(barcode.font@) {
            None => Err(Failure::MissingFont(barcode.font@)),
            Some(fi) => match alias_index(usage.fonts, barcode.font@, 0) {
                None => Err(Failure::NotCollected(barcode.font@)),
                Some(k) => {
                    let font = &res.fonts@[fi].1;
                    match font.first_unmapped(barcode.value@) {
                        Some(c) => Err(Failure::MissingGlyph(c, barcode.font@)),
                        None => Ok(
                            label_ops(
                                barcode,
                                page_height,
                                font,
                                usage.fonts[k].registered,
                                font.postscript_name@,
                            ),
                        ),
                    }
                },
            },
        }
    }
}

/// The program of a bar symbol, or why there is none: the value is
/// encoded first, then its bars are drawn, then the value is printed if
/// that is asked for.
pub open spec fn barcode_program(
    barcode: BarcodeElement,
    page_height: int,
    res: &LoadedResources,
    usage: UsageModel,
) -> Result<Seq<OpModel>, Failure> {
    match barcode_outcome(barcode.value@) {
        Err(reason) => Err(Failure::BarcodeRefused(barcode.value@, reason)),
        Ok(modules) => match label_program(barcode, page_height, res, usage) {
            Err(f) => Err(f),
            Ok(label) => Ok(
                barcode_bars_ops(barcode, page_height, modules) + label + seq![
                    OpModel::RestoreState,
                ],
            ),
        },
    }
}

/// The program of one element, or why there is none. Each element is
/// bracketed so that nothing it sets leaks into the next.
pub open spec fn element_program(
    element: Element,
    page_height: int,
    res: &LoadedResources,
    usage: UsageModel,
) -> Result<Seq<OpModel>, Failure> {
    match element {
        Element::Text(t) => text_program(t, page_height, res, usage),
        Element::TextBox(tb) => textbox_program(tb, page_height, res, usage),
        Element::Rect(r) => Ok(rect_ops(r, page_height)),
        Element::Line(l) => Ok(line_ops(l, page_height)),
        Element::Image(img) => match res.image_index(img.image_ref@) {
            Some(ii) => Ok(image_ops(img, page_height, res.images@[ii].1)),
            None => Err(Failure::MissingImage(img.image_ref@)),
        },
        Element::Barcode(b) => barcode_program(b, page_height, res, usage),
        Element::QRCode(qr) => match qrcode_ops(qr, page_height) {
            Some(ops) => Ok(ops),
            None => Err(Failure::MatrixRefused(qr.value@)),
        },
    }
}

/// The program `done` followed by the programs of the elements from `i`
/// on, in paint order; or the first failure.
pub open spec fn elements_program(
    elements: Seq<Element>,
    i: int,
    done: Seq<OpModel>,
    page_height: int,
    res: &LoadedResources,
    usage: UsageModel,
) -> Result<Seq<OpModel>, Failure>
    decreases elements.len() - i,
{
    if i < 0 || i >= elements.len() {
        Ok(done)
    } else {
        match element_program(elements[i], page_height, res, usage) {
            Ok(ops) => elements_program(elements, i + 1, done + ops, page_height, res, usage),
            Err(f) => Err(f),
        }
    }
}

/// The program of a page: its background, then its elements in order.
pub open spec fn page_program(page: Page, res: &LoadedResources, usage: UsageModel) -> Result<
    Seq<OpModel>,
    Failure,
> {
    elements_program(
        page.elements@,
        0,
        background_ops(page.background, page.width as int, page.height as int),
        page.height as int,
        res,
        usage,
    )
}

fn not_collected(alias: &str) -> (e: RupdfError)
    ensures
        reports(e, Failure::NotCollected(alias@)),
{
    let mut detail = String::from_str("Font was not collected: ");
    detail.append(alias);
    RupdfError::PdfError(detail)
}

fn render_text_element(
    content: &mut Content,
    text: &TextElement,
    page_height: Micro,
    res: &LoadedResources,
    usage: &Usage,
) -> (r: Result<(), RupdfError>)
    requires
        text.wf(),
        in_range(page_height as int),
        res.wf(),
        usage.wf(res),
    ensures
        match text_program(*text, page_height as int, res, usage@) {
            Ok(ops) => r is Ok && final(content)@ == old(content)@ + ops,
            Err(f) => r matches Err(e) && reports(e, f),
        },
{
    let fi = match res.find_font(text.font.as_str()) {
        Some(fi) => fi,
        None => {
            return Err(RupdfError::MissingFont(text.font.clone()));
        },
    };
    let k = match usage.find_font(text.font.as_str()) {
        Some(k) => k,
        None => {
            return Err(not_collected(text.font.as_str()));
        },
    };
    let font = &res.fonts[fi].1;
    let used = &usage.fonts[k];
    assert(usage@.fonts[k as int] == used@);
    render_text(content, text, page_height, font, &used.embedder, font.postscript_name.as_str())
}

fn render_textbox_element(
    content: &mut Content,
    textbox: &TextBoxElement,
    page_height: Micro,
    res: &LoadedResources,
    usage: &Usage,
) -> (r: Result<(), RupdfError>)
    requires
        textbox.wf(),
        in_range(page_height as int),
        res.wf(),
        usage.wf(res),
    ensures
        match textbox_program(*textbox, page_height as int, res, usage@) {
            Ok(ops) => r is Ok && final(content)@ == old(content)@ + ops,
            Err(f) => r matches Err(e) && reports(e, f),
        },
{
    let fi = match res.find_font(textbox.font.as_str()) {
        Some(fi) => fi,
        None => {
            return Err(RupdfError::MissingFont(textbox.font.clone()));
        },
    };
    let k = match usage.find_font(textbox.font.as_str()) {
        Some(k) => k,
        None => {
            return Err(not_collected(textbox.font.as_str()));
        },
    };
    let font = &res.fonts[fi].1;
    let used = &usage.fonts[k];
    assert(usage@.fonts[k as int] == used@);
    render_textbox(
        content,
        textbox,
        page_height,
        font,
        &used.embedder,
        font.postscript_name.as_str(),
    )
}

fn render_label_element(
    content: &mut Content,
    barcode: &BarcodeElement,
    page_height: Micro,
    res: &LoadedResources,
    usage: &Usage,
) -> (r: Result<(), RupdfError>)
    requires
        barcode.wf(),
        in_range(page_height as int),
        res.wf(),
        usage.wf(res),
    ensures
        match label_program(*barcode, page_height as int, res, usage@) {
            Ok(ops) => r is Ok && final(content)@ == old(content)@ + ops,
            Err(f) => r matches Err(e) && reports(e, f),
        },
{
    if !barcode.human_readable {
        assert(content@ =~= old(content)@ + Seq::<OpModel>::empty());
        return Ok(());
    }
    let fi = match res.find_font(barcode.font.as_str()) {
        Some(fi) => fi,
        None => {
            return Err(RupdfError::MissingFont(barcode.font.clone()));
        },
    };
    let k = match usage.find_font(barcode.font.as_str()) {
        Some(k) => k,
        None => {
            return Err(not_collected(barcode.font.as_str()));
        },
    };
    let font = &res.fonts[fi].1;
    let used = &usage.fonts[k];
    assert(usage@.fonts[k as int] == used@);
    render_barcode_label(
        content,
        barcode,
        page_height,
        font,
        &used.embedder,
        font.postscript_name.as_str(),
    )
}

/// Appends the program of a bar symbol. Where the value is refused the
/// program is left as it was.
pub fn render_barcode(
    content: &mut Content,
    barcode: &BarcodeElement,
    page_height: Micro,
    res: &LoadedResources,
    usage: &Usage,
) -> (r: Result<(), RupdfError>)
    requires
        barcode.wf(),
        in_range(page_height as int),
        res.wf(),
        usage.wf(res),
    ensures
        match barcode_program(*barcode, page_height as int, res, usage@) {
            Ok(ops) => r is Ok && final(content)@ == old(content)@ + ops,
            Err(f) => r matches Err(e) && reports(e, f),
        },
        barcode_outcome(barcode.value@) is Err ==> final(content)@ == old(content)@,
{
    let modules = match barcode_modules(barcode.value.as_str()) {
        Ok(modules) => modules,
        Err(e) => {
            return Err(e);
        },
    };
    render_barcode_bars(content, barcode, page_height, &modules);
    let ghost c1 = content@;
    match render_label_element(content, barcode, page_height, res, usage) {
        Ok(()) => {},
        Err(e) => {
            return Err(e);
        },
    }
    content.push(Op::RestoreState);
    proof {
        let bars = barcode_bars_ops(*barcode, page_height as int, modules@);
        let label = label_program(*barcode, page_height as int, res, usage@)->Ok_0;
        assert(content@ =~= old(content)@ + (bars + label + seq![OpModel::RestoreState]));
    }
    Ok(())
}

/// Appends the program of one element.
pub fn render_element(
    content: &mut Content,
    element: &Element,
    page_height: Micro,
    res: &LoadedResources,
    usage: &Usage,
) -> (r: Result<(), RupdfError>)
    requires
        element.wf(),
        in_range(page_height as int),
        res.wf(),
        usage.wf(res),
    ensures
        match element_program(*element, page_height as int, res, usage@) {
            Ok(ops) => r is Ok && final(content)@ == old(content)@ + ops,
            Err(f) => r matches Err(e) && reports(e, f),
        },
{
    match element {
        Element::Text(t) => render_text_element(content, t, page_height, res, usage),
        Element::TextBox(tb) => render_textbox_element(content, tb, page_height, res, usage),
        Element::Rect(r) => {
            render_rect(content, r, page_height);
            Ok(())
        },
        Element::Line(l) => {
            render_line(content, l, page_height);
            Ok(())
        },
        Element::Image(img) => {
            match res.find_image(img.image_ref.as_str()) {
                Some(ii) => {
                    assert(res.images@[ii as int].1.wf());
                    render_image(content, img, page_height, &res.images[ii].1);
                    Ok(())
                },
                None => Err(RupdfError::MissingImage(img.image_ref.clone())),
            }
        },
        Element::Barcode(b) => render_barcode(content, b, page_height, res, usage),
        Element::QRCode(qr) => render_qrcode(content, qr, page_height),
    }
}

/// The drawing program of a page: the background first, unless it is
/// opaque white, then every element in order. Fails on the first element
/// that cannot be drawn.
pub fn render_page_content(page: &Page, res: &LoadedResources, usage: &Usage) -> (r: Result<
    Vec<Op>,
    RupdfError,
>)
    requires
        page.wf(),
        res.wf(),
        usage.wf(res),
    ensures
        match page_program(*page, res, usage@) {
            Ok(ops) => r matches Ok(v) && ops_view(v@) == ops,
            Err(f) => r matches Err(e) && reports(e, f),
        },
{
    let mut content = Content::new();
    render_background(&mut content, page.background, page.width, page.height);
    assert(content@ =~= background_ops(page.background, page.width as int, page.height as int));
    let mut i: usize = 0;
    while i < page.elements.len()
        invariant
            i <= page.elements.len(),
            page.wf(),
            res.wf(),
            usage.wf(res),
            page_program(*page, res, usage@) == elements_program(
                page.elements@,
                i as int,
                content@,
                page.height as int,
                res,
                usage@,
            ),
        decreases page.elements.len() - i,
    {
        assert(page.elements@[i as int].wf());
        match render_element(&mut content, &page.elements[i], page.height, res, usage) {
            Ok(()) => {},
            Err(e) => {
                return Err(e);
            },
        }
        i += 1;
    }
    Ok(content.finish())
}

/// Compresses the bytes of a drawing program if compression is on.
pub fn finish_content(data: Vec<u8>, compress: bool) -> (r: Vec<u8>)
    ensures
        r@ == stored_stream(data@, compress),
{
    store_stream(data, compress)
}

} // verus!
