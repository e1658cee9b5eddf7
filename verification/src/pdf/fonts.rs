//! Font embedding: which glyphs a font needs, and the objects that carry
//! them.
use crate::bindings::charmap::{unicode_cmap, unicode_cmap_stream};
use crate::bindings::subset::{subset_error_text, subset_for_pdf, subset_program};
use crate::error::RupdfError;
use crate::glyph_names::{check_glyph_names, glyph_names_fit};
use crate::measure::Micro;
use crate::pdf::streams::{store_stream, stored_stream};
use crate::resources::LoadedFont;
use crate::sorted::{lemma_increasing_glyphs, lemma_increasing_keys};
use crate::text::{chars_of, is_control, is_control_spec};
use std::collections::{BTreeMap, BTreeSet, HashSet};
use vstd::prelude::*;
use vstd::std_specs::iter::IteratorSpec;
use vstd::string::{StringExecFns, StringSliceAdditionalSpecFns};

verus! {

/// The five objects of an embedded font, ready to be written.
#[derive(Debug)]
pub struct EmbeddedFont {
    /// Identifiers of the composite font, its descendant, the descriptor,
    /// the character map and the font program.
    pub font_ref: i32,
    pub cid_font_ref: i32,
    pub descriptor_ref: i32,
    pub cmap_ref: i32,
    pub font_file_ref: i32,
    /// The font's own name, by which all five objects identify it.
    pub base_font: String,
    /// Whether the font program and the character map are stored as zlib
    /// streams.
    pub compress: bool,
    /// The subsetted font program, as it is stored.
    pub font_file: Vec<u8>,
    /// The stream that maps glyph ids back to characters, as it is stored.
    pub to_unicode: Vec<u8>,
    /// Glyph id and advance in thousandths of an em, ascending by glyph id.
    pub widths: Vec<(u16, u16)>,
    /// Descriptor values, in font units as measures.
    pub ascent: Micro,
    pub descent: Micro,
    /// A nominal four fifths of the ascender. The measured capital height
    /// of the font serves to place text, and is not written here.
    pub cap_height: Micro,
    pub bbox: (Micro, Micro, Micro, Micro),
    pub italic_angle: Micro,
    pub stem_v: Micro,
    pub default_width: Micro,
    /// Whether the descriptor flags the font as symbolic.
    pub symbolic: bool,
}

/// Collects the characters set in one font and embeds the font.
#[derive(Debug)]
pub struct FontEmbedder<'a> {
    font: &'a LoadedFont,
    font_name: &'a str,
    /// The glyphs of the registered characters.
    used_glyphs: HashSet<u16>,
    /// The registered characters with their glyphs, by code point.
    char_to_glyph: BTreeMap<u32, (char, u16)>,
}

/// The non-control characters among the first `n` of `text`.
pub open spec fn printable_before(text: Seq<char>, n: int) -> Set<char> {
    Set::new(|c: char| exists|j: int| 0 <= j < n && j < text.len() && text[j] == c && !is_control_spec(c))
}

/// An advance of `width` font units in thousandths of an em of `upem`
/// units, rounded down and limited to 65535.
pub open spec fn scaled_width(width: u16, upem: u16) -> u16 {
    let w = (width * 1000) / (upem as int);
    if w > 0xffff {
        0xffffu16
    } else {
        w as u16
    }
}

/// Two bytes per character that is in `registered`, the glyph id with its
/// high byte first; nothing for the other characters.
pub open spec fn encode_spec(font: &LoadedFont, registered: Set<char>, text: Seq<char>) -> Seq<u8>
    decreases text.len(),
{
    if text.len() == 0 {
        Seq::empty()
    } else {
        let c = text.last();
        let head = encode_spec(font, registered, text.drop_last());
        if registered.contains(c) && font.glyph_of(c) is Some {
            let g = font.glyph_of(c)->0;
            head.push((g / 256) as u8).push((g % 256) as u8)
        } else {
            head
        }
    }
}

/// Characters with equal code points are equal.
proof fn lemma_code_is_char(a: char, b: char)
    requires
        a as u32 == b as u32,
    ensures
        a == b,
{
}

/// The glyphs of the characters in `registered`.
pub open spec fn glyph_set(font: &LoadedFont, registered: Set<char>) -> Set<u16> {
    Set::new(|g: u16| exists|c: char| registered.contains(c) && font.glyph_of(c) == Some(g))
}

/// Registering a character adds its glyph to the glyphs in use.
proof fn lemma_glyph_set_insert(font: &LoadedFont, registered: Set<char>, ch: char, g: u16)
    requires
        font.glyph_of(ch) == Some(g),
    ensures
        glyph_set(font, registered.insert(ch)) == glyph_set(font, registered).insert(g),
{
    let before = glyph_set(font, registered);
    let after = glyph_set(font, registered.insert(ch));
    assert forall|h: u16| after.contains(h) <==> before.insert(g).contains(h) by {
        if after.contains(h) {
            let c = choose|c: char|
                registered.insert(ch).contains(c) && font.glyph_of(c) == Some(h);
            if c != ch {
                assert(registered.contains(c));
            }
        }
        if before.contains(h) {
            let c = choose|c: char| registered.contains(c) && font.glyph_of(c) == Some(h);
            assert(registered.insert(ch).contains(c));
        }
        if h == g {
            assert(registered.insert(ch).contains(ch));
        }
    }
    assert(after =~= before.insert(g));
}

/// Whether `q` lists the characters of `s`, each once, in ascending order
/// of their code points.
pub open spec fn is_listing(q: Seq<char>, s: Set<char>) -> bool {
    &&& forall|i: int, j: int| 0 <= i < j < q.len() ==> (q[i] as u32) < (q[j] as u32)
    &&& forall|c: char| q.contains(c) <==> s.contains(c)
}

/// The characters of `s` in ascending order; for a finite set there is
/// exactly one such listing.
pub open spec fn sorted_chars(s: Set<char>) -> Seq<char> {
    choose|q: Seq<char>| is_listing(q, s)
}

/// A set has at most one ascending listing.
pub proof fn lemma_listing_unique(a: Seq<char>, b: Seq<char>, s: Set<char>)
    requires
        is_listing(a, s),
        is_listing(b, s),
    ensures
        a == b,
    decreases a.len(),
{
    if a.len() == 0 {
        if b.len() > 0 {
            assert(b.contains(b[0]));
            assert(a.contains(b[0]));
        }
        assert(a =~= b);
    } else {
        let la = a.last();
        assert(a.contains(la));
        assert(b.contains(la));
        assert(b.len() > 0);
        let lb = b.last();
        assert(b.contains(lb));
        assert(a.contains(lb));
        let ia = choose|i: int| 0 <= i < a.len() && a[i] == lb;
        let ib = choose|i: int| 0 <= i < b.len() && b[i] == la;
        assert(lb as u32 <= la as u32) by {
            if ia < a.len() - 1 {
                assert((a[ia] as u32) < (a[a.len() - 1] as u32));
            }
        }
        assert(la as u32 <= lb as u32) by {
            if ib < b.len() - 1 {
                assert((b[ib] as u32) < (b[b.len() - 1] as u32));
            }
        }
        lemma_code_is_char(la, lb);
        let s2 = s.remove(la);
        let a2 = a.drop_last();
        let b2 = b.drop_last();
        assert forall|c: char| a2.contains(c) <==> s2.contains(c) by {
            if a2.contains(c) {
                let i = choose|i: int| 0 <= i < a2.len() && a2[i] == c;
                assert(a[i] == c);
                assert(a.contains(c));
                assert((a[i] as u32) < (a[a.len() - 1] as u32));
            }
            if s2.contains(c) {
                assert(a.contains(c));
                let i = choose|i: int| 0 <= i < a.len() && a[i] == c;
                assert(i < a.len() - 1);
                assert(a2[i] == c);
            }
        }
        assert forall|c: char| b2.contains(c) <==> s2.contains(c) by {
            if b2.contains(c) {
                let i = choose|i: int| 0 <= i < b2.len() && b2[i] == c;
                assert(b[i] == c);
                assert(b.contains(c));
                assert((b[i] as u32) < (b[b.len() - 1] as u32));
            }
            if s2.contains(c) {
                assert(b.contains(c));
                let i = choose|i: int| 0 <= i < b.len() && b[i] == c;
                assert(i < b.len() - 1);
                assert(b2[i] == c);
            }
        }
        assert forall|i: int, j: int| 0 <= i < j < a2.len() implies (a2[i] as u32) < (
        a2[j] as u32) by {
            assert((a[i] as u32) < (a[j] as u32));
        }
        assert forall|i: int, j: int| 0 <= i < j < b2.len() implies (b2[i] as u32) < (
        b2[j] as u32) by {
            assert((b[i] as u32) < (b[j] as u32));
        }
        lemma_listing_unique(a2, b2, s2);
        assert(a =~= a2.push(la));
        assert(b =~= b2.push(lb));
    }
}

/// The pairs of the character map: each registered character with its
/// glyph, in ascending order of the characters.
pub open spec fn cmap_pairs_of(font: &LoadedFont, registered: Set<char>) -> Seq<(u16, char)> {
    let chars = sorted_chars(registered);
    Seq::new(chars.len(), |i: int| (font.glyph_of(chars[i])->0, chars[i]))
}

/// The stream that maps the glyphs of `registered` back to characters.
pub open spec fn to_unicode_of(font: &LoadedFont, registered: Set<char>) -> Seq<u8> {
    unicode_cmap_stream(
        "Adobe-Identity-UCS".spec_bytes(),
        "Adobe".spec_bytes(),
        "UCS".spec_bytes(),
        0,
        cmap_pairs_of(font, registered),
    )
}

/// Whether `y` is among the first `n` glyphs that the set of glyphs in use
/// hands out.
pub open spec fn handed_out(glyphs: Seq<&u16>, n: int, y: u16) -> bool {
    exists|i: int| 0 <= i < n && i < glyphs.len() && *glyphs[i] == y
}

/// The face of a font program that is embedded: the first.
pub const SUBSET_FACE: u32 = 0;

/// The font program reduced to the glyphs of `registered`; nothing where
/// the font names more glyphs than can be counted, or where the subsetter
/// rejects it.
pub open spec fn subset_of(font: &LoadedFont, registered: Set<char>) -> Option<Seq<u8>> {
    if glyph_names_fit(font.data@, SUBSET_FACE) {
        subset_program(font.data@, SUBSET_FACE, glyph_set(font, registered))
    } else {
        None
    }
}

/// Whether `detail` says why a font could not be subsetted: that it names
/// too many glyphs, or what the subsetter reports.
pub open spec fn subset_failure(font: &LoadedFont, detail: Seq<char>) -> bool {
    if glyph_names_fit(font.data@, SUBSET_FACE) {
        "Failed to subset font: "@.is_prefix_of(detail)
    } else {
        detail == "Failed to subset font: "@ + "too many glyph names"@
    }
}

/// Whether `f` is the embedding of `font` with the characters `registered`
/// under the five identifiers given, leaving aside its font program. The
/// character map is stored as the compression flag says.
pub open spec fn embedded_as(
    f: EmbeddedFont,
    font: &LoadedFont,
    registered: Set<char>,
    font_ref: i32,
    cid_font_ref: i32,
    descriptor_ref: i32,
    cmap_ref: i32,
    font_file_ref: i32,
    compress: bool,
) -> bool {
    &&& f.compress == compress
    &&& f.font_ref == font_ref
    &&& f.cid_font_ref == cid_font_ref
    &&& f.descriptor_ref == descriptor_ref
    &&& f.cmap_ref == cmap_ref
    &&& f.font_file_ref == font_file_ref
    &&& f.base_font@ == font.postscript_name@
    &&& f.to_unicode@ == stored_stream(to_unicode_of(font, registered), compress)
    &&& forall|i: int, j: int| 0 <= i < j < f.widths@.len() ==> f.widths@[i].0 < f.widths@[j].0
    &&& forall|i: int|
        0 <= i < f.widths@.len() ==> (#[trigger] f.widths@[i]).1 == scaled_width(
            font.advance_of(f.widths@[i].0),
            font.units_per_em,
        )
    &&& forall|g: u16|
        glyph_set(font, registered).contains(g) <==> exists|i: int|
            0 <= i < f.widths@.len() && f.widths@[i].0 == g
    &&& f.ascent == font.ascender * 1_000_000
    &&& f.descent == font.descender * 1_000_000
    &&& f.cap_height == font.ascender * 800_000
    &&& f.bbox == (-500_000_000i64, -300_000_000i64, 1_500_000_000i64, 1_000_000_000i64)
    &&& f.italic_angle == 0
    &&& f.stem_v == 80_000_000
    &&& f.default_width == 1_000_000_000
    &&& f.symbolic
}

impl<'a> FontEmbedder<'a> {
    /// The font being embedded.
    pub closed spec fn font(&self) -> &LoadedFont {
        self.font
    }

    /// The name under which the document refers to the font.
    pub closed spec fn font_name(&self) -> Seq<char> {
        self.font_name@
    }

    /// The characters registered so far.
    pub closed spec fn registered(&self) -> Set<char> {
        Set::new(|c: char| self.char_to_glyph@.contains_key(c as u32))
    }

    /// The glyphs in use: those of the registered characters.
    pub open spec fn glyphs(&self) -> Set<u16> {
        glyph_set(self.font(), self.registered())
    }

    /// Every registered character stands under its code point with the
    /// glyph that the font gives it, and the glyphs in use are those of the
    /// registered characters.
    pub closed spec fn wf(&self) -> bool {
        &&& forall|k: u32| #[trigger]
            self.char_to_glyph@.contains_key(k) ==> self.char_to_glyph@[k].0 as u32 == k
                && self.font.glyph_of(self.char_to_glyph@[k].0) == Some(self.char_to_glyph@[k].1)
        &&& self.used_glyphs@ == glyph_set(self.font, self.registered())
    }

    /// Every registered character has a glyph in the font.
    pub proof fn lemma_lists(&self)
        requires
            self.wf(),
        ensures
            forall|c: char| self.registered().contains(c) ==> self.font().glyph_of(c) is Some,
    {
        assert forall|c: char| self.registered().contains(c) implies self.font().glyph_of(
            c,
        ) is Some by {
            assert(self.char_to_glyph@.contains_key(c as u32));
            lemma_code_is_char(self.char_to_glyph@[c as u32].0, c);
        }
    }

    /// An embedder for `font`, known to the document as `font_name`, with
    /// nothing registered.
    pub fn new(font: &'a LoadedFont, font_name: &'a str) -> (r: Self)
        ensures
            r.wf(),
            r.font() == font,
            r.font_name() == font_name@,
            r.registered() == Set::<char>::empty(),
    {
        let r = FontEmbedder {
            font,
            font_name,
            used_glyphs: HashSet::new(),
            char_to_glyph: BTreeMap::new(),
        };
        assert(r.registered() =~= Set::<char>::empty());
        assert(glyph_set(font, Set::<char>::empty()) =~= Set::<u16>::empty());
        r
    }

    /// Registers `ch` and returns its glyph id. A character that the font
    /// has no glyph for is an error and registers nothing.
    pub fn use_char(&mut self, ch: char) -> (r: Result<u16, RupdfError>)
        requires
            old(self).wf(),
        ensures
            final(self).wf(),
            final(self).font() == old(self).font(),
            final(self).font_name() == old(self).font_name(),
            match old(self).font().glyph_of(ch) {
                Some(g) => r == Ok::<u16, RupdfError>(g) && final(self).registered() == old(
                    self,
                ).registered().insert(ch),
                None => final(self).registered() == old(self).registered() && (r matches Err(
                    RupdfError::MissingGlyph { glyph, font },
                ) && glyph == ch && font@ == old(self).font_name()),
            },
    {
        let glyph_id = match self.font.glyph_id(ch, self.font_name) {
            Ok(g) => g,
            Err(e) => {
                return Err(e);
            },
        };
        let ghost before = *self;
        self.used_glyphs.insert(glyph_id);
        self.char_to_glyph.insert(ch as u32, (ch, glyph_id));
        proof {
            assert forall|c: char| self.registered().contains(c) <==> before.registered().insert(
                ch,
            ).contains(c) by {
                if c as u32 == ch as u32 {
                    lemma_code_is_char(c, ch);
                }
            }
            assert(self.registered() =~= before.registered().insert(ch));
            assert forall|k: u32| #[trigger] self.char_to_glyph@.contains_key(k) implies
                self.char_to_glyph@[k].0 as u32 == k && self.font.glyph_of(
                self.char_to_glyph@[k].0,
            ) == Some(self.char_to_glyph@[k].1) by {
                if k != ch as u32 {
                    assert(before.char_to_glyph@.contains_key(k));
                }
            }
            lemma_glyph_set_insert(self.font, before.registered(), ch, glyph_id);
        }
        Ok(glyph_id)
    }

    /// The first index at or after `from` of a character of `text` that is
    /// no control character and has no glyph; the length of `text` if there
    /// is none.
    pub open spec fn stop_index(font: &LoadedFont, text: Seq<char>, from: int) -> int
        decreases text.len() - from,
    {
        if from < 0 || from >= text.len() {
            text.len() as int
        } else if !is_control_spec(text[from]) && font.glyph_of(text[from]) is None {
            from
        } else {
            Self::stop_index(font, text, from + 1)
        }
    }

    /// Registers the characters of `text` in order, passing over control
    /// characters, up to the first one that the font has no glyph for, which
    /// is an error.
    pub fn use_text(&mut self, text: &str) -> (r: Result<(), RupdfError>)
        requires
            old(self).wf(),
        ensures
            final(self).wf(),
            final(self).font() == old(self).font(),
            final(self).font_name() == old(self).font_name(),
            ({
                let stop = Self::stop_index(old(self).font(), text@, 0);
                &&& 0 <= stop <= text@.len()
                &&& final(self).registered() == old(self).registered().union(
                    printable_before(text@, stop),
                )
                &&& stop == text@.len() ==> r is Ok
                &&& stop < text@.len() ==> (r matches Err(RupdfError::MissingGlyph { glyph, font })
                    && glyph == text@[stop] && font@ == old(self).font_name())
            }),
    {
        let chars = chars_of(text);
        let ghost font = self.font();
        let ghost start = self.registered();
        let mut i: usize = 0;
        assert(self.registered() =~= start.union(printable_before(text@, 0)));
        while i < chars.len()
            invariant
                i <= chars.len(),
                chars@ == text@,
                self.wf(),
                self.font() == font,
                font == old(self).font(),
                start == old(self).registered(),
                self.font_name() == old(self).font_name(),
                Self::stop_index(font, text@, 0) == Self::stop_index(font, text@, i as int),
                self.registered() == start.union(printable_before(text@, i as int)),
            decreases chars.len() - i,
        {
            let ch = chars[i];
            if is_control(ch) {
                assert(printable_before(text@, i + 1) =~= printable_before(text@, i as int));
            } else {
                match self.use_char(ch) {
                    Ok(_) => {
                        assert(printable_before(text@, i + 1) =~= printable_before(
                            text@,
                            i as int,
                        ).insert(ch)) by {
                            assert(text@[i as int] == ch);
                        }
                        assert(self.registered() =~= start.union(
                            printable_before(text@, i + 1),
                        ));
                    },
                    Err(e) => {
                        assert(text@[i as int] == ch);
                        assert(Self::stop_index(font, text@, i as int) == i);
                        return Err(e);
                    },
                }
            }
            i += 1;
        }
        Ok(())
    }

    /// The text as glyph ids, two bytes each with the high byte first.
    /// Characters that were not registered are left out.
    pub fn encode_text(&self, text: &str) -> (bytes: Vec<u8>)
        requires
            self.wf(),
        ensures
            bytes@ == encode_spec(self.font(), self.registered(), text@),
    {
        let chars = chars_of(text);
        let mut bytes: Vec<u8> = Vec::new();
        let mut i: usize = 0;
        while i < chars.len()
            invariant
                i <= chars.len(),
                chars@ == text@,
                self.wf(),
                bytes@ == encode_spec(self.font(), self.registered(), text@.take(i as int)),
            decreases chars.len() - i,
        {
            let ch = chars[i];
            let code: u32 = ch as u32;
            assert(text@.take(i + 1).drop_last() =~= text@.take(i as int));
            assert(text@.take(i + 1).last() == ch);
            match self.char_to_glyph.get(&code) {
                Some(entry) => {
                    let g: u16 = entry.1;
                    proof {
                        assert(self.char_to_glyph@.contains_key(code));
                        lemma_code_is_char(self.char_to_glyph@[code].0, ch);
                    }
                    bytes.push((g / 256) as u8);
                    bytes.push((g % 256) as u8);
                },
                None => {
                    assert(!self.registered().contains(ch));
                },
            }
            i += 1;
        }
        assert(text@.take(text@.len() as int) =~= text@);
        bytes
    }

    /// The glyph ids in use, ascending, each once.
    pub fn glyph_list(&self) -> (r: Vec<u16>)
        requires
            self.wf(),
        ensures
            forall|i: int, j: int| 0 <= i < j < r@.len() ==> r@[i] < r@[j],
            forall|g: u16| r@.contains(g) <==> self.glyphs().contains(g),
            r@.to_set() == self.glyphs(),
    {
        let mut ordered: BTreeSet<u16> = BTreeSet::new();
        for g in it: self.used_glyphs.iter()
            invariant
                forall|y: u16| #[trigger] ordered@.contains(y) <==> handed_out(it.seq(), it.index(), y),
        {
            let ghost before = ordered@;
            let ghost n = it.index();
            ordered.insert(*g);
            assert forall|y: u16| #[trigger] ordered@.contains(y) <==> handed_out(
                it.seq(),
                n + 1,
                y,
            ) by {
                if handed_out(it.seq(), n + 1, y) {
                    let i = choose|i: int| 0 <= i < n + 1 && i < it.seq().len() && *it.seq()[i] == y;
                    if i < n {
                        assert(handed_out(it.seq(), n, y));
                    }
                }
                if before.contains(y) {
                    let i = choose|i: int| 0 <= i < n && i < it.seq().len() && *it.seq()[i] == y;
                    assert(handed_out(it.seq(), n + 1, y));
                }
                if y == *g {
                    assert(*it.seq()[n] == y);
                    assert(handed_out(it.seq(), n + 1, y));
                }
            }
        }
        proof {
            let s = self.used_glyphs.iter().remaining();
            assert forall|g: u16| ordered@.contains(g) <==> self.glyphs().contains(g) by {
                if ordered@.contains(g) {
                    let i = choose|i: int| 0 <= i < s.len() && *s[i] == g;
                    assert(s.unref()[i] == g);
                    assert(s.unref().to_set().contains(g));
                }
                if self.glyphs().contains(g) {
                    assert(s.unref().to_set().contains(g));
                    let i = choose|i: int| 0 <= i < s.unref().len() && s.unref()[i] == g;
                    assert(*s[i] == g);
                    assert(handed_out(s, s.len() as int, g));
                }
            }
            assert(ordered@ =~= self.glyphs());
        }
        let mut list: Vec<u16> = Vec::new();
        for g in it: ordered.iter()
            invariant
                list@.len() == it.index(),
                forall|i: int| 0 <= i < list@.len() ==> list@[i] == *it.seq()[i],
        {
            list.push(*g);
        }
        proof {
            let s = ordered.iter().remaining();
            assert(list@ =~= s.unref());
            lemma_increasing_glyphs(s);
        }
        list
    }

    /// The advance of every glyph in use, in thousandths of an em, ascending
    /// by glyph id.
    pub fn build_widths(&self) -> (r: Vec<(u16, u16)>)
        requires
            self.wf(),
            self.font().wf(),
        ensures
            forall|i: int, j: int| 0 <= i < j < r@.len() ==> r@[i].0 < r@[j].0,
            forall|i: int|
                0 <= i < r@.len() ==> (#[trigger] r@[i]).1 == scaled_width(
                    self.font().advance_of(r@[i].0),
                    self.font().units_per_em,
                ),
            forall|g: u16|
                self.glyphs().contains(g) <==> exists|i: int| 0 <= i < r@.len() && r@[i].0 == g,
    {
        let glyphs = self.glyph_list();
        let mut widths: Vec<(u16, u16)> = Vec::new();
        let mut i: usize = 0;
        while i < glyphs.len()
            invariant
                i <= glyphs.len(),
                self.font().wf(),
                self.font() == self.font,
                widths@.len() == i,
                forall|j: int| 0 <= j < i ==> (#[trigger] widths@[j]).0 == glyphs@[j],
                forall|j: int|
                    0 <= j < i ==> (#[trigger] widths@[j]).1 == scaled_width(
                        self.font().advance_of(widths@[j].0),
                        self.font().units_per_em,
                    ),
            decreases glyphs.len() - i,
        {
            let gid = glyphs[i];
            let width = self.font.advance_width(gid);
            let scaled: u32 = (width as u32 * 1000) / (self.font.units_per_em as u32);
            let w: u16 = if scaled > 0xffff {
                0xffff
            } else {
                scaled as u16
            };
            widths.push((gid, w));
            i += 1;
        }
        proof {
            assert forall|g: u16| self.glyphs().contains(g) <==> exists|i: int|
                0 <= i < widths@.len() && widths@[i].0 == g by {
                if self.glyphs().contains(g) {
                    assert(glyphs@.contains(g));
                    let j = choose|j: int| 0 <= j < glyphs@.len() && glyphs@[j] == g;
                    assert(widths@[j].0 == g);
                }
                if exists|i: int| 0 <= i < widths@.len() && widths@[i].0 == g {
                    let j = choose|j: int| 0 <= j < widths@.len() && widths@[j].0 == g;
                    assert(glyphs@[j] == g);
                    assert(glyphs@.contains(g));
                }
            }
        }
        widths
    }

    /// The pairs of the character map.
    pub open spec fn cmap_pairs(&self) -> Seq<(u16, char)> {
        cmap_pairs_of(self.font(), self.registered())
    }

    /// The stream that maps the glyph ids in use back to characters.
    pub open spec fn to_unicode_spec(&self) -> Seq<u8> {
        to_unicode_of(self.font(), self.registered())
    }

    /// Builds the stream that maps the glyph ids in use back to characters.
    pub fn build_to_unicode_cmap(&self) -> (r: Vec<u8>)
        requires
            self.wf(),
        ensures
            r@ == self.to_unicode_spec(),
    {
        let mut pairs: Vec<(u16, char)> = Vec::new();
        for code in it: self.char_to_glyph.keys()
            invariant
                self.wf(),
                it.seq() == self.char_to_glyph.keys().remaining(),
                pairs@.len() == it.index(),
                forall|i: int|
                    0 <= i < pairs@.len() ==> pairs@[i] == (
                        self.char_to_glyph@[*it.seq()[i]].1,
                        self.char_to_glyph@[*it.seq()[i]].0,
                    ),
        {
            proof {
                let n = it.index();
                assert(it.seq().unref()[n] == *code);
                assert(it.seq().unref().to_set().contains(*code));
            }
            match self.char_to_glyph.get(code) {
                Some(entry) => {
                    pairs.push((entry.1, entry.0));
                },
                None => {
                    assert(false);
                },
            }
        }
        proof {
            self.lemma_pairs(pairs@);
        }
        unicode_cmap(
            "Adobe-Identity-UCS".as_bytes(),
            "Adobe".as_bytes(),
            "UCS".as_bytes(),
            0,
            &pairs,
        )
    }

    /// The glyphs and characters listed in the order of the map's keys are
    /// the pairs of the character map.
    proof fn lemma_pairs(&self, pairs: Seq<(u16, char)>)
        requires
            self.wf(),
            pairs.len() == self.char_to_glyph.keys().remaining().len(),
            forall|i: int|
                0 <= i < pairs.len() ==> pairs[i] == (
                    self.char_to_glyph@[*self.char_to_glyph.keys().remaining()[i]].1,
                    self.char_to_glyph@[*self.char_to_glyph.keys().remaining()[i]].0,
                ),
        ensures
            pairs == self.cmap_pairs(),
    {
        let keys = self.char_to_glyph.keys().remaining();
        let chars = Seq::new(pairs.len(), |i: int| pairs[i].1);
        lemma_increasing_keys(keys);
        assert forall|i: int| 0 <= i < keys.len() implies self.char_to_glyph@.contains_key(
            *keys[i],
        ) by {
            assert(keys.unref()[i] == *keys[i]);
            assert(keys.unref().to_set().contains(*keys[i]));
        }
        assert forall|i: int, j: int| 0 <= i < j < chars.len() implies (chars[i] as u32) < (
        chars[j] as u32) by {
            assert(self.char_to_glyph@.contains_key(*keys[i]));
            assert(self.char_to_glyph@.contains_key(*keys[j]));
        }
        assert forall|c: char| chars.contains(c) <==> self.registered().contains(c) by {
            if chars.contains(c) {
                let i = choose|i: int| 0 <= i < chars.len() && chars[i] == c;
                assert(self.char_to_glyph@.contains_key(*keys[i]));
            }
            if self.registered().contains(c) {
                assert(keys.unref().to_set().contains(c as u32));
                let i = choose|i: int| 0 <= i < keys.unref().len() && keys.unref()[i] == c as u32;
                assert(*keys[i] == c as u32);
                assert(self.char_to_glyph@.contains_key(*keys[i]));
                lemma_code_is_char(chars[i], c);
            }
        }
        assert(is_listing(chars, self.registered()));
        lemma_listing_unique(chars, sorted_chars(self.registered()), self.registered());
        assert forall|i: int| 0 <= i < pairs.len() implies pairs[i] == self.cmap_pairs()[i] by {
            assert(self.char_to_glyph@.contains_key(*keys[i]));
        }
        assert(pairs =~= self.cmap_pairs());
    }

    /// The subsetted font program, stored as the compression flag says.
    /// Fails where the font names too many glyphs and where the subsetter
    /// rejects the font.
    pub fn subset_font(&self, compress: bool) -> (r: Result<Vec<u8>, RupdfError>)
        requires
            self.wf(),
        ensures
            match subset_of(self.font(), self.registered()) {
                Some(program) => r matches Ok(v) && v@ == stored_stream(program, compress),
                None => r matches Err(RupdfError::InvalidFont(name, detail)) && name@
                    == self.font_name() && subset_failure(self.font(), detail@),
            },
    {
        if !check_glyph_names(self.font.data.as_slice(), SUBSET_FACE) {
            let mut detail = String::from_str("Failed to subset font: ");
            detail.append("too many glyph names");
            return Err(RupdfError::InvalidFont(String::from_str(self.font_name), detail));
        }
        let glyph_ids = self.glyph_list();
        match subset_for_pdf(self.font.data.as_slice(), SUBSET_FACE, glyph_ids.as_slice()) {
            Ok(subset) => Ok(store_stream(subset, compress)),
            Err(e) => {
                let mut detail = String::from_str("Failed to subset font: ");
                let text = subset_error_text(&e);
                detail.append(text.as_str());
                Err(RupdfError::InvalidFont(String::from_str(self.font_name), detail))
            },
        }
    }

    /// What `embed` returns, leaving aside the font program.
    pub open spec fn embedded_spec(
        &self,
        f: EmbeddedFont,
        font_ref: i32,
        cid_font_ref: i32,
        descriptor_ref: i32,
        cmap_ref: i32,
        font_file_ref: i32,
        compress: bool,
    ) -> bool {
        embedded_as(
            f,
            self.font(),
            self.registered(),
            font_ref,
            cid_font_ref,
            descriptor_ref,
            cmap_ref,
            font_file_ref,
            compress,
        )
    }

    /// Embeds the font: the subsetted font program, the width table, the
    /// descriptor values and the character map, under the five identifiers
    /// given. The font program and the character map are stored as zlib
    /// streams if `compress` is on, and plain if it is off. All objects name
    /// the font by its own name, not by the name the document uses.
    pub fn embed(
        &self,
        font_ref: i32,
        cid_font_ref: i32,
        descriptor_ref: i32,
        cmap_ref: i32,
        font_file_ref: i32,
        compress: bool,
    ) -> (r: Result<EmbeddedFont, RupdfError>)
        requires
            self.wf(),
            self.font().wf(),
        ensures
            match subset_of(self.font(), self.registered()) {
                Some(program) => r matches Ok(f) && f.font_file@ == stored_stream(
                    program,
                    compress,
                ) && self.embedded_spec(
                    f,
                    font_ref,
                    cid_font_ref,
                    descriptor_ref,
                    cmap_ref,
                    font_file_ref,
                    compress,
                ),
                None => r matches Err(RupdfError::InvalidFont(name, detail)) && name@
                    == self.font_name() && subset_failure(self.font(), detail@),
            },
    {
        let font_file = match self.subset_font(compress) {
            Ok(v) => v,
            Err(e) => {
                return Err(e);
            },
        };
        let widths = self.build_widths();
        proof {
            let w = widths@;
            assert forall|g: u16| glyph_set(self.font(), self.registered()).contains(g) <==> exists|
                i: int,
            | 0 <= i < w.len() && w[i].0 == g by {
                assert(self.glyphs().contains(g) <==> exists|i: int|
                    0 <= i < w.len() && w[i].0 == g);
            }
        }
        let to_unicode = store_stream(self.build_to_unicode_cmap(), compress);
        let ascender: i64 = self.font.ascender as i64;
        let descender: i64 = self.font.descender as i64;
        Ok(
            EmbeddedFont {
                font_ref,
                cid_font_ref,
                descriptor_ref,
                cmap_ref,
                font_file_ref,
                base_font: self.font.postscript_name.clone(),
                compress,
                font_file,
                to_unicode,
                widths,
                ascent: ascender * 1_000_000,
                descent: descender * 1_000_000,
                cap_height: ascender * 800_000,
                bbox: (-500_000_000, -300_000_000, 1_500_000_000, 1_000_000_000),
                italic_angle: 0,
                stem_v: 80_000_000,
                default_width: 1_000_000_000,
                symbolic: true,
            },
        )
    }
}

} // verus!
