//! Loaded resources: parsed fonts with their metrics, and decoded images.
use crate::bindings::raster::{decode_rgba, decoded_image, image_error_text};
use crate::bindings::ttf::font_parses;
use crate::elements::svg::Tree;
use crate::error::RupdfError;
use crate::font_file::{loads_as, FACE_INDEX};
use crate::layout::{
    flatten, join, joined, lemma_single_word_one_line, lemma_wrap_never_drops, paragraphs,
    split_paragraphs, split_words, texts, views, words, wrap_groups, wrap_words,
};
use crate::measure::{in_range, mul_div, mul_div_wide, scaled, Micro, MEASURE_MAX};
use crate::text::{chars_of, decode_text, has_prefix_at, leading_spaces, string_of, trim_start};
use std::collections::HashMap;
use vstd::prelude::*;
use vstd::string::StringExecFns;
use vstd::utf8::{decode_utf8, valid_utf8};

verus! {

/// A font program together with the tables read from it.
#[derive(Debug)]
pub struct LoadedFont {
    /// The font program as it was given.
    pub data: Vec<u8>,
    /// The name the font gives itself, used to identify it in the output.
    pub postscript_name: String,
    pub units_per_em: u16,
    /// Ascender, descender and capital height, in font units.
    pub ascender: i16,
    pub descender: i16,
    pub cap_height: i16,
    /// Advance width in font units, by glyph id.
    pub glyph_widths: HashMap<u16, u16>,
    /// Glyph id by Unicode code point.
    pub cmap: HashMap<u32, u16>,
}

impl LoadedFont {
    /// A font is usable when its em has a positive size.
    pub open spec fn wf(&self) -> bool {
        self.units_per_em > 0
    }

    /// Whether the font is usable.
    pub fn is_wf(&self) -> (r: bool)
        ensures
            r == self.wf(),
    {
        self.units_per_em > 0
    }

    /// The glyph that the font maps `ch` to, if any.
    pub open spec fn glyph_of(&self, ch: char) -> Option<u16> {
        if self.cmap@.contains_key(ch as u32) {
            Some(self.cmap@[ch as u32])
        } else {
            None
        }
    }

    /// The advance width of a glyph in font units; 0 for a glyph without one.
    pub open spec fn advance_of(&self, glyph: u16) -> u16 {
        if self.glyph_widths@.contains_key(glyph) {
            self.glyph_widths@[glyph]
        } else {
            0
        }
    }

    /// The advance of a character in font units; 0 where it has no glyph.
    pub open spec fn char_units(&self, ch: char) -> nat {
        match self.glyph_of(ch) {
            Some(g) => self.advance_of(g) as nat,
            None => 0,
        }
    }

    /// The sum of the advances of `text`, in font units.
    pub open spec fn text_units(&self, text: Seq<char>) -> nat
        decreases text.len(),
    {
        if text.len() == 0 {
            0
        } else {
            self.text_units(text.drop_last()) + self.char_units(text.last())
        }
    }

    /// The index of the first character of `text` at or after `from` that
    /// the font has no glyph for.
    pub open spec fn unmapped_from(&self, text: Seq<char>, from: int) -> Option<int>
        decreases text.len() - from,
    {
        if from < 0 || from >= text.len() {
            None
        } else if self.glyph_of(text[from]) is None {
            Some(from)
        } else {
            self.unmapped_from(text, from + 1)
        }
    }

    /// The first character of `text` that the font has no glyph for.
    pub open spec fn first_unmapped(&self, text: Seq<char>) -> Option<char> {
        match self.unmapped_from(text, 0) {
            Some(i) => Some(text[i]),
            None => None,
        }
    }

    /// A length of `units` font units at font size `size`.
    pub open spec fn units_to_measure(&self, units: int, size: int) -> int {
        scaled(units, size, self.units_per_em as int)
    }

    /// The width of `text` set at `size`.
    pub open spec fn width_of(&self, text: Seq<char>, size: int) -> int {
        self.units_to_measure(self.text_units(text) as int, size)
    }

    /// The glyph id of `ch`; a character without a glyph is an error that
    /// names the character and the font.
    pub fn glyph_id(&self, ch: char, font_name: &str) -> (r: Result<u16, RupdfError>)
        ensures
            match self.glyph_of(ch) {
                Some(g) => r == Ok::<u16, RupdfError>(g),
                None => r matches Err(RupdfError::MissingGlyph { glyph, font }) && glyph == ch
                    && font@ == font_name@,
            },
    {
        let key: u32 = ch as u32;
        match self.cmap.get(&key) {
            Some(g) => Ok(*g),
            None => Err(RupdfError::MissingGlyph { glyph: ch, font: String::from_str(font_name) }),
        }
    }

    /// The advance width of a glyph in font units, 0 if the font has none
    /// for it.
    pub fn advance_width(&self, glyph_id: u16) -> (w: u16)
        ensures
            w == self.advance_of(glyph_id),
    {
        match self.glyph_widths.get(&glyph_id) {
            Some(w) => *w,
            None => 0,
        }
    }

    /// The advances of `chars[from..to]` summed, or the first character in
    /// that range without a glyph.
    pub fn range_units(&self, chars: &Vec<char>, from: usize, to: usize, font_name: &str) -> (r:
        Result<u128, RupdfError>)
        requires
            from <= to <= chars.len(),
        ensures
            match self.first_unmapped(chars@.subrange(from as int, to as int)) {
                None => r == Ok::<u128, RupdfError>(
                    self.text_units(chars@.subrange(from as int, to as int)) as u128,
                ) && self.text_units(chars@.subrange(from as int, to as int)) <= 0xffff * (to
                    - from),
                Some(c) => r matches Err(RupdfError::MissingGlyph { glyph, font }) && glyph == c
                    && font@ == font_name@,
            },
    {
        let ghost text = chars@.subrange(from as int, to as int);
        let mut sum: u128 = 0;
        let mut i: usize = from;
        while i < to
            invariant
                from <= i <= to <= chars.len(),
                text == chars@.subrange(from as int, to as int),
                self.unmapped_from(text, 0) == self.unmapped_from(text, i - from),
                sum == self.text_units(text.take(i - from)),
                sum <= 0xffff * (i - from),
            decreases to - i,
        {
            let ch = chars[i];
            assert(text[i - from] == ch);
            match self.glyph_id(ch, font_name) {
                Ok(g) => {
                    let w = self.advance_width(g);
                    assert(text.take(i - from + 1).drop_last() =~= text.take(i - from));
                    sum = sum + w as u128;
                },
                Err(e) => {
                    return Err(e);
                },
            }
            i += 1;
        }
        assert(text.take(to - from) =~= text);
        Ok(sum)
    }

    /// The measure of `units` font units at size `size`.
    pub fn scale_units(&self, units: u128, size: Micro) -> (r: Micro)
        requires
            self.wf(),
            in_range(size as int),
        ensures
            r == self.units_to_measure(units as int, size as int),
            in_range(r as int),
    {
        let upem: i64 = self.units_per_em as i64;
        // Beyond this many units every size but zero gives a capped measure.
        if units <= 0x40_0000_0000_0000_0000 {
            mul_div_wide(units, size, upem)
        } else if size == 0 {
            assert(units * 0 == 0) by (nonlinear_arith);
            0
        } else if size > 0 {
            proof {
                lemma_large_quotient(units as int, size as int, upem as int);
            }
            MEASURE_MAX
        } else {
            proof {
                lemma_large_negative_quotient(units as int, size as int, upem as int);
            }
            -MEASURE_MAX
        }
    }

    /// The width of `text` set at `size`. Fails on the first character that
    /// the font has no glyph for.
    pub fn text_width(&self, text: &str, size: Micro, font_name: &str) -> (r: Result<
        Micro,
        RupdfError,
    >)
        requires
            self.wf(),
            in_range(size as int),
        ensures
            match self.first_unmapped(text@) {
                None => r == Ok::<Micro, RupdfError>(self.width_of(text@, size as int) as Micro),
                Some(c) => r matches Err(RupdfError::MissingGlyph { glyph, font }) && glyph == c
                    && font@ == font_name@,
            },
            r matches Ok(w) ==> in_range(w as int),
    {
        let chars = chars_of(text);
        assert(chars@.subrange(0, chars@.len() as int) =~= text@);
        match self.range_units(&chars, 0, chars.len(), font_name) {
            Ok(units) => Ok(self.scale_units(units, size)),
            Err(e) => Err(e),
        }
    }

    /// The widths of `words` set at `size`.
    pub open spec fn word_widths(&self, words: Seq<Seq<char>>, size: int) -> Seq<int> {
        Seq::new(words.len(), |k: int| self.width_of(words[k], size))
    }

    /// The first character without a glyph in the words from `i` on.
    pub open spec fn words_unmapped(&self, words: Seq<Seq<char>>, i: int) -> Option<char>
        decreases words.len() - i,
    {
        if i < 0 || i >= words.len() {
            None
        } else {
            match self.first_unmapped(words[i]) {
                Some(c) => Some(c),
                None => self.words_unmapped(words, i + 1),
            }
        }
    }

    /// The character that makes wrapping the paragraph `p` fail, if any:
    /// a paragraph without words never fails; one with words needs a glyph
    /// for the space and for every character of its words.
    pub open spec fn paragraph_unmapped(&self, p: Seq<char>) -> Option<char> {
        let ws = words(p);
        if ws.len() == 0 {
            None
        } else if self.glyph_of(' ') is None {
            Some(' ')
        } else {
            self.words_unmapped(ws, 0)
        }
    }

    /// The lines of the paragraph `p`: one empty line if it has no words,
    /// else its words wrapped greedily.
    pub open spec fn paragraph_lines(&self, p: Seq<char>, size: int, max: int) -> Seq<Seq<char>> {
        let ws = words(p);
        if ws.len() == 0 {
            seq![Seq::<char>::empty()]
        } else {
            wrap_words(ws, self.word_widths(ws, size), self.width_of(seq![' '], size), max)
        }
    }

    /// The lines of the paragraphs from `i` on, or the first character that
    /// makes one of them fail.
    pub open spec fn wrap_from(&self, pars: Seq<Seq<char>>, i: int, size: int, max: int) -> Result<
        Seq<Seq<char>>,
        char,
    >
        decreases pars.len() - i,
    {
        if i < 0 || i >= pars.len() {
            Ok(Seq::empty())
        } else {
            match self.paragraph_unmapped(pars[i]) {
                Some(c) => Err(c),
                None => match self.wrap_from(pars, i + 1, size, max) {
                    Ok(rest) => Ok(self.paragraph_lines(pars[i], size, max) + rest),
                    Err(c) => Err(c),
                },
            }
        }
    }

    /// What `wrap_text` returns: the lines of `text`, or the character that
    /// has no glyph.
    pub open spec fn wrap_spec(&self, text: Seq<char>, size: int, max: int) -> Result<
        Seq<Seq<char>>,
        char,
    > {
        self.wrap_from(paragraphs(text), 0, size, max)
    }

    /// Wrapping never drops content: the lines of a paragraph are its words
    /// in order, each line some of them joined by single spaces; and a
    /// paragraph of a single word is one line, that word, however wide the
    /// word and however narrow the limit.
    pub proof fn lemma_wrap_keeps_content(&self, p: Seq<char>, size: int, max: int)
        ensures
            words(p).len() > 0 ==> exists|groups: Seq<Seq<Seq<char>>>|
                self.paragraph_lines(p, size, max) == joined(groups) && #[trigger] flatten(groups)
                    == words(p),
            words(p).len() == 1 ==> self.paragraph_lines(p, size, max) == seq![words(p)[0]],
    {
        let ws = words(p);
        let widths = self.word_widths(ws, size);
        let space = self.width_of(seq![' '], size);
        if ws.len() > 0 {
            let groups = wrap_groups(ws, widths, 0, Seq::empty(), 0, space, max);
            lemma_wrap_never_drops(ws, widths, space, max);
            assert(self.paragraph_lines(p, size, max) == joined(groups));
            assert(flatten(groups) == ws);
        }
        if ws.len() == 1 {
            assert(ws =~= seq![ws[0]]);
            assert(widths =~= seq![widths[0]]);
            lemma_single_word_one_line(ws[0], widths[0], space, max);
        }
    }

    /// Appends the lines of the paragraph `p` to `lines`.
    fn wrap_paragraph(
        &self,
        p: &Vec<char>,
        size: Micro,
        max_width: Micro,
        font_name: &str,
        lines: &mut Vec<String>,
    ) -> (r: Result<(), RupdfError>)
        requires
            self.wf(),
            in_range(size as int),
            in_range(max_width as int),
        ensures
            match self.paragraph_unmapped(p@) {
                Some(c) => r matches Err(RupdfError::MissingGlyph { glyph, font }) && glyph == c
                    && font@ == font_name@,
                None => r is Ok && texts(final(lines)@) == texts(old(lines)@)
                    + self.paragraph_lines(p@, size as int, max_width as int),
            },
    {
        let ghost lines0 = texts(lines@);
        let ws = split_words(p);
        if ws.len() == 0 {
            lines.push(String::new());
            assert(texts(lines@) =~= lines0 + seq![Seq::<char>::empty()]);
            return Ok(());
        }
        let ghost wseq = views(ws@);
        let ghost widths = self.word_widths(wseq, size as int);
        let mut blank: Vec<char> = Vec::new();
        blank.push(' ');
        assert(blank@.subrange(0, 1) =~= seq![' ']);
        proof {
            reveal_with_fuel(LoadedFont::unmapped_from, 3);
        }
        let space_width: Micro = match self.range_units(&blank, 0, 1, font_name) {
            Ok(units) => self.scale_units(units, size),
            Err(e) => {
                return Err(e);
            },
        };
        let ghost space = self.width_of(seq![' '], size as int);
        let ghost all = wrap_groups(wseq, widths, 0, Seq::empty(), 0, space, max_width as int);
        let ghost mut done: Seq<Seq<Seq<char>>> = Seq::empty();
        let ghost mut group: Seq<Seq<char>> = Seq::empty();
        let mut current: Vec<char> = Vec::new();
        let mut in_line: bool = false;
        let mut current_width: i128 = 0;
        let mut k: usize = 0;
        assert(joined(done) =~= Seq::<Seq<char>>::empty());
        assert(texts(lines@) =~= lines0 + joined(done));
        while k < ws.len()
            invariant
                self.wf(),
                in_range(size as int),
                in_range(max_width as int),
                in_range(space_width as int),
                space_width == space,
                k <= ws.len(),
                wseq == views(ws@),
                wseq == words(p@),
                wseq.len() > 0,
                self.glyph_of(' ') is Some,
                widths == self.word_widths(wseq, size as int),
                forall|j: int| 0 <= j < ws@.len() ==> (#[trigger] ws@[j])@.len() > 0,
                all == wrap_groups(wseq, widths, 0, Seq::empty(), 0, space, max_width as int),
                all == done + wrap_groups(
                    wseq,
                    widths,
                    k as int,
                    group,
                    current_width as int,
                    space,
                    max_width as int,
                ),
                texts(lines@) == lines0 + joined(done),
                current@ == join(group),
                in_line == (group.len() > 0),
                self.words_unmapped(wseq, 0) == self.words_unmapped(wseq, k as int),
                -(k * 0x80_0000_0000_0000) <= current_width <= 0x20_0000_0000_0000,
            decreases ws.len() - k,
        {
            let w = &ws[k];
            assert(w@.subrange(0, w@.len() as int) =~= w@);
            assert(wseq[k as int] == w@);
            let word_width: Micro = match self.range_units(w, 0, w.len(), font_name) {
                Ok(units) => self.scale_units(units, size),
                Err(e) => {
                    assert(self.words_unmapped(wseq, k as int) == self.first_unmapped(w@));
                    return Err(e);
                },
            };
            assert(self.words_unmapped(wseq, k as int) == self.words_unmapped(wseq, k + 1));
            assert(word_width == widths[k as int]);
            if !in_line {
                push_chars(&mut current, w);
                assert(current@ =~= w@);
                proof {
                    group = seq![w@];
                }
                current_width = word_width as i128;
                in_line = true;
            } else if current_width + space_width as i128 + word_width as i128
                <= max_width as i128 {
                let ghost before = current@;
                current.push(' ');
                push_chars(&mut current, w);
                proof {
                    assert(group.push(w@).drop_last() =~= group);
                    assert(current@ =~= join(group) + seq![' '] + w@);
                    group = group.push(w@);
                }
                current_width = current_width + space_width as i128 + word_width as i128;
            } else {
                let line = string_of(&current, 0, current.len());
                assert(line@ =~= join(group));
                let ghost lines_before = texts(lines@);
                lines.push(line);
                proof {
                    assert(texts(lines@) =~= lines_before + seq![join(group)]);
                    assert(joined(done.push(group)) =~= joined(done) + seq![join(group)]);
                    let rest = wrap_groups(
                        wseq,
                        widths,
                        k + 1,
                        seq![w@],
                        widths[k as int],
                        space,
                        max_width as int,
                    );
                    assert(done + (seq![group] + rest) =~= done.push(group) + rest);
                    done = done.push(group);
                    group = seq![w@];
                }
                current = Vec::new();
                push_chars(&mut current, w);
                assert(current@ =~= w@);
                current_width = word_width as i128;
            }
            k += 1;
        }
        if in_line {
            let line = string_of(&current, 0, current.len());
            assert(line@ =~= join(group));
            let ghost lines_before = texts(lines@);
            lines.push(line);
            proof {
                assert(texts(lines@) =~= lines_before + seq![join(group)]);
                assert(joined(done.push(group)) =~= joined(done) + seq![join(group)]);
                assert(done + seq![group] =~= done.push(group));
            }
        } else {
            assert(done + Seq::<Seq<Seq<char>>>::empty() =~= done);
        }
        Ok(())
    }

    /// Wraps `text` to lines at most `max_width` wide. Line breaks separate
    /// paragraphs; an empty paragraph gives one empty line. Within a
    /// paragraph the words are placed greedily, the first word of a line
    /// always, however wide it is.
    pub fn wrap_text(&self, text: &str, size: Micro, max_width: Micro, font_name: &str) -> (r:
        Result<Vec<String>, RupdfError>)
        requires
            self.wf(),
            in_range(size as int),
            in_range(max_width as int),
        ensures
            match self.wrap_spec(text@, size as int, max_width as int) {
                Ok(lines) => r matches Ok(v) && texts(v@) == lines,
                Err(c) => r matches Err(RupdfError::MissingGlyph { glyph, font }) && glyph == c
                    && font@ == font_name@,
            },
    {
        let chars = chars_of(text);
        let pars = split_paragraphs(&chars);
        let ghost pseq = views(pars@);
        let mut lines: Vec<String> = Vec::new();
        let mut i: usize = 0;
        assert(texts(lines@) =~= Seq::<Seq<char>>::empty());
        while i < pars.len()
            invariant
                self.wf(),
                in_range(size as int),
                in_range(max_width as int),
                i <= pars.len(),
                pseq == views(pars@),
                pseq == paragraphs(text@),
                self.wrap_from(pseq, 0, size as int, max_width as int) == prepend(
                    texts(lines@),
                    self.wrap_from(pseq, i as int, size as int, max_width as int),
                ),
            decreases pars.len() - i,
        {
            let ghost before = texts(lines@);
            assert(pseq[i as int] == pars@[i as int]@);
            match self.wrap_paragraph(&pars[i], size, max_width, font_name, &mut lines) {
                Ok(()) => {
                    proof {
                        let here = self.paragraph_lines(pseq[i as int], size as int, max_width as int);
                        match self.wrap_from(pseq, i + 1, size as int, max_width as int) {
                            Ok(rest) => {
                                assert(before + (here + rest) =~= (before + here) + rest);
                            },
                            Err(_) => {},
                        }
                    }
                },
                Err(e) => {
                    assert(self.wrap_from(pseq, i as int, size as int, max_width as int) is Err);
                    return Err(e);
                },
            }
            i += 1;
        }
        assert(texts(lines@) + Seq::<Seq<char>>::empty() =~= texts(lines@));
        Ok(lines)
    }

    /// The ascender at font size `size`.
    pub fn ascender_pts(&self, size: Micro) -> (r: Micro)
        requires
            self.wf(),
        ensures
            r == self.units_to_measure(self.ascender as int, size as int),
            in_range(r as int),
    {
        mul_div(self.ascender as i64, size, self.units_per_em as i64)
    }

    /// The capital height at font size `size`.
    pub fn cap_height_pts(&self, size: Micro) -> (r: Micro)
        requires
            self.wf(),
        ensures
            r == self.units_to_measure(self.cap_height as int, size as int),
            in_range(r as int),
    {
        mul_div(self.cap_height as i64, size, self.units_per_em as i64)
    }

    /// The descender at font size `size` (negative below the baseline).
    pub fn descender_pts(&self, size: Micro) -> (r: Micro)
        requires
            self.wf(),
        ensures
            r == self.units_to_measure(self.descender as int, size as int),
            in_range(r as int),
    {
        mul_div(self.descender as i64, size, self.units_per_em as i64)
    }
}

/// `lines` followed by the lines of `rest`, where there are any.
pub open spec fn prepend(lines: Seq<Seq<char>>, rest: Result<Seq<Seq<char>>, char>) -> Result<
    Seq<Seq<char>>,
    char,
> {
    match rest {
        Ok(more) => Ok(lines + more),
        Err(c) => Err(c),
    }
}

/// Appends the characters of `w` to `line`.
fn push_chars(line: &mut Vec<char>, w: &Vec<char>)
    ensures
        final(line)@ == old(line)@ + w@,
{
    let mut j: usize = 0;
    while j < w.len()
        invariant
            j <= w.len(),
            line@ == old(line)@ + w@.take(j as int),
        decreases w.len() - j,
    {
        line.push(w[j]);
        assert(line@ =~= old(line)@ + w@.take(j + 1));
        j += 1;
    }
    assert(w@.take(w@.len() as int) =~= w@);
}

/// A quotient with a numerator beyond the machine range is capped.
proof fn lemma_large_quotient(units: int, size: int, upem: int)
    requires
        units > 0x40_0000_0000_0000_0000,
        size > 0,
        0 < upem <= 0xffff,
    ensures
        scaled(units, size, upem) == MEASURE_MAX,
{
    assert(units * size >= units) by (nonlinear_arith)
        requires
            units > 0,
            size >= 1,
    ;
    vstd::arithmetic::div_mod::lemma_div_is_ordered(0x40_0000_0000_0000_0000, units * size, upem);
    vstd::arithmetic::div_mod::lemma_div_is_ordered_by_denominator(
        0x40_0000_0000_0000_0000,
        upem,
        0xffff,
    );
    assert(0x40_0000_0000_0000_0000int / 0xffff > MEASURE_MAX);
}

/// The same below zero.
proof fn lemma_large_negative_quotient(units: int, size: int, upem: int)
    requires
        units > 0x40_0000_0000_0000_0000,
        size < 0,
        0 < upem <= 0xffff,
    ensures
        scaled(units, size, upem) == -MEASURE_MAX,
{
    assert(units * size <= -units) by (nonlinear_arith)
        requires
            units > 0,
            size <= -1,
    ;
    vstd::arithmetic::div_mod::lemma_div_is_ordered(units * size, -0x40_0000_0000_0000_0000, upem);
    vstd::arithmetic::div_mod::lemma_fundamental_div_mod(-0x40_0000_0000_0000_0000, upem);
    let q = (-0x40_0000_0000_0000_0000) / upem;
    let m = (-0x40_0000_0000_0000_0000) % upem;
    assert(q < -MEASURE_MAX) by (nonlinear_arith)
        requires
            -0x40_0000_0000_0000_0000 == upem * q + m,
            0 <= m < upem,
            0 < upem <= 0xffff,
    ;
}

/// Whether a text, after its leading white space, begins like a vector
/// image: with an XML declaration, an `svg` tag or an SVG document type.
pub open spec fn sniffs_as_svg(text: Seq<char>) -> bool {
    let t = trim_start(text);
    "<?xml"@.is_prefix_of(t) || "<svg"@.is_prefix_of(t) || "<!DOCTYPE svg"@.is_prefix_of(t)
}

/// Whether image data is taken for a vector image: it is UTF-8 text that
/// begins like one.
pub open spec fn is_svg_spec(data: Seq<u8>) -> bool {
    valid_utf8(data) && sniffs_as_svg(decode_utf8(data))
}

/// A loaded image: a parsed vector image or an encoded raster image with
/// its size in samples.
#[derive(Debug)]
pub enum LoadedImage {
    Svg { tree: Tree, width: Micro, height: Micro },
    Raster { data: Vec<u8>, width: u32, height: u32 },
}

impl LoadedImage {
    /// A vector image has the size of its tree, which is well formed; a
    /// raster image has samples.
    pub open spec fn wf(&self) -> bool {
        match self {
            LoadedImage::Svg { tree, width, height } => tree.wf() && *width == tree.width
                && *height == tree.height,
            LoadedImage::Raster { data, width, height } => *width > 0 && *height > 0,
        }
    }

    /// Whether the image is well formed.
    pub fn is_wf(&self) -> (r: bool)
        ensures
            r == self.wf(),
    {
        match self {
            LoadedImage::Svg { tree, width, height } => tree.is_wf() && *width == tree.width
                && *height == tree.height,
            LoadedImage::Raster { data, width, height } => *width > 0 && *height > 0,
        }
    }

    /// Whether `data` is taken for a vector image.
    pub fn is_svg(data: &[u8]) -> (r: bool)
        ensures
            r == is_svg_spec(data@),
    {
        match decode_text(data) {
            Some(chars) => {
                let k = leading_spaces(&chars);
                has_prefix_at(&chars, k, "<?xml") || has_prefix_at(&chars, k, "<svg")
                    || has_prefix_at(&chars, k, "<!DOCTYPE svg")
            },
            None => false,
        }
    }

    /// Loads the image that the document calls `name`. Data that is taken
    /// for a vector image needs `vector`, the outcome of parsing it: the
    /// tree, or the parser's words. Other data is decoded as a raster image.
    pub fn load(name: &str, data: Vec<u8>, vector: Option<Result<Tree, String>>) -> (r: Result<
        LoadedImage,
        RupdfError,
    >)
        ensures
            r matches Ok(image) ==> image.wf(),
            is_svg_spec(data@) ==> match vector {
                Some(Ok(tree)) => if tree.wf() {
                    r matches Ok(LoadedImage::Svg { tree: t, width, height }) && t == tree
                } else {
                    r matches Err(RupdfError::InvalidImage(n, detail)) && n@ == name@ && detail@
                        == "Failed to parse SVG: size out of range"@
                },
                Some(Err(words)) => r matches Err(RupdfError::InvalidImage(n, detail)) && n@
                    == name@ && detail@ == "Failed to parse SVG: "@ + words@,
                None => r matches Err(RupdfError::InvalidImage(n, detail)) && n@ == name@
                    && detail@ == "Failed to parse SVG: not parsed"@,
            },
            !is_svg_spec(data@) ==> match decoded_image(data@) {
                Some((w, h, _)) => if w > 0 && h > 0 {
                    r matches Ok(LoadedImage::Raster { data: d, width, height }) && d@ == data@
                        && width == w && height == h
                } else {
                    r matches Err(RupdfError::InvalidImage(n, detail)) && n@ == name@ && detail@
                        == "Failed to decode image: image has no samples"@
                },
                None => r matches Err(RupdfError::InvalidImage(n, detail)) && n@ == name@
                    && "Failed to decode image: "@.is_prefix_of(detail@),
            },
    {
        if Self::is_svg(data.as_slice()) {
            return match vector {
                Some(Ok(tree)) => {
                    if tree.is_wf() {
                        let width = tree.width;
                        let height = tree.height;
                        Ok(LoadedImage::Svg { tree, width, height })
                    } else {
                        Err(
                            RupdfError::InvalidImage(
                                String::from_str(name),
                                String::from_str("Failed to parse SVG: size out of range"),
                            ),
                        )
                    }
                },
                Some(Err(words)) => {
                    let mut detail = String::from_str("Failed to parse SVG: ");
                    detail.append(words.as_str());
                    Err(RupdfError::InvalidImage(String::from_str(name), detail))
                },
                None => Err(
                    RupdfError::InvalidImage(
                        String::from_str(name),
                        String::from_str("Failed to parse SVG: not parsed"),
                    ),
                ),
            };
        }
        match decode_rgba(data.as_slice()) {
            Ok((width, height, _)) => {
                if width == 0 || height == 0 {
                    return Err(
                        RupdfError::InvalidImage(
                            String::from_str(name),
                            String::from_str("Failed to decode image: image has no samples"),
                        ),
                    );
                }
                Ok(LoadedImage::Raster { data, width, height })
            },
            Err(e) => {
                let mut detail = String::from_str("Failed to decode image: ");
                let text = image_error_text(&e);
                detail.append(text.as_str());
                Err(RupdfError::InvalidImage(String::from_str(name), detail))
            },
        }
    }

    /// The native size of the image as a length: the declared size of a
    /// vector image; for a raster image one point for every sample.
    pub open spec fn dimensions_spec(&self) -> (int, int) {
        match self {
            LoadedImage::Svg { tree, width, height } => (*width as int, *height as int),
            LoadedImage::Raster { data, width, height } => (
                *width * 1_000_000,
                *height * 1_000_000,
            ),
        }
    }

    /// The native size of the image.
    pub fn dimensions(&self) -> (r: (Micro, Micro))
        ensures
            (r.0 as int, r.1 as int) == self.dimensions_spec(),
            self.wf() ==> 0 < r.0 <= MEASURE_MAX && 0 < r.1 <= MEASURE_MAX,
    {
        match self {
            LoadedImage::Svg { tree, width, height } => (*width, *height),
            LoadedImage::Raster { data, width, height } => (
                (*width as i64) * 1_000_000,
                (*height as i64) * 1_000_000,
            ),
        }
    }
}

/// The loaded fonts and images of a document, by name.
#[derive(Debug)]
pub struct LoadedResources {
    pub fonts: Vec<(String, LoadedFont)>,
    pub images: Vec<(String, LoadedImage)>,
}

/// The index of the first of `names` from `i` on that is `name`.
pub open spec fn name_index(names: Seq<Seq<char>>, name: Seq<char>, i: int) -> Option<int>
    decreases names.len() - i,
{
    if i < 0 || i >= names.len() {
        None
    } else if names[i] == name {
        Some(i)
    } else {
        name_index(names, name, i + 1)
    }
}

/// Whether `after` is `before` with `value` put under `name`: in place of
/// the entry at `at` if there is one, else at the end.
pub open spec fn inserted<T>(
    before: Seq<(String, T)>,
    after: Seq<(String, T)>,
    at: Option<int>,
    name: Seq<char>,
    value: T,
) -> bool {
    match at {
        Some(i) => after.len() == before.len() && after[i].0@ == name && after[i].1 == value
            && forall|j: int| 0 <= j < before.len() && j != i ==> after[j] == before[j],
        None => after.len() == before.len() + 1 && after.last().0@ == name && after.last().1
            == value && forall|j: int| 0 <= j < before.len() ==> after[j] == before[j],
    }
}

/// A name has an index exactly if it is among the names, and the index is
/// that of a name equal to it.
pub proof fn lemma_name_index(names: Seq<Seq<char>>, name: Seq<char>, from: int)
    requires
        0 <= from,
    ensures
        match name_index(names, name, from) {
            Some(i) => from <= i < names.len() && names[i] == name && forall|j: int|
                from <= j < i ==> names[j] != name,
            None => forall|i: int| from <= i < names.len() ==> names[i] != name,
        },
    decreases names.len() - from,
{
    if from < names.len() && names[from] != name {
        lemma_name_index(names, name, from + 1);
    }
}

/// The index of a name is the first place where the name stands.
pub proof fn lemma_first_place(names: Seq<Seq<char>>, name: Seq<char>, i: int)
    requires
        0 <= i < names.len(),
        names[i] == name,
        forall|j: int| 0 <= j < i ==> names[j] != name,
    ensures
        name_index(names, name, 0) == Some(i),
{
    lemma_name_index(names, name, 0);
}

/// Whether entry `j` is the last of its name among the first `k` entries.
pub open spec fn last_of_name<T>(entries: Seq<(String, T)>, j: int, k: int) -> bool {
    forall|later: int| j < later < k && later < entries.len() ==> (#[trigger] entries[later]).0@
        != entries[j].0@
}

/// Whether `image` is what loading `data` with the parsed tree `vector`
/// gives.
pub open spec fn image_loaded_as(
    image: LoadedImage,
    data: Seq<u8>,
    vector: Option<Result<Tree, String>>,
) -> bool {
    if is_svg_spec(data) {
        vector matches Some(Ok(tree)) && (image matches LoadedImage::Svg { tree: t, width, height }
            && t == tree)
    } else {
        image matches LoadedImage::Raster { data: d, width, height } && d@ == data && (
        decoded_image(data) matches Some((w, h, _)) && width == w && height == h)
    }
}

/// Whether the resources hold, under the name of font `j`, the font
/// loaded from its data.
pub open spec fn font_kept(res: LoadedResources, fonts: Seq<(String, Vec<u8>)>, j: int) -> bool {
    res.font_index(fonts[j].0@) matches Some(i) && loads_as(
        res.fonts@[i].1,
        fonts[j].0@,
        fonts[j].1@,
    )
}

/// Whether the resources hold, under the name of image `j`, the image
/// loaded from its data.
pub open spec fn image_kept(
    res: LoadedResources,
    images: Seq<(String, Vec<u8>, Option<Result<Tree, String>>)>,
    j: int,
) -> bool {
    res.image_index(images[j].0@) matches Some(i) && image_loaded_as(
        res.images@[i].1,
        images[j].1@,
        images[j].2,
    )
}

/// Whether image `j` is the last of its name among the first `k` images.
pub open spec fn last_image_of_name(
    images: Seq<(String, Vec<u8>, Option<Result<Tree, String>>)>,
    j: int,
    k: int,
) -> bool {
    forall|later: int| j < later < k && later < images.len() ==> (#[trigger] images[later]).0@
        != images[j].0@
}

/// Whether image data with the outcome `vector` of parsing it as a vector
/// image can be loaded: data that is taken for a vector image needs a
/// well-formed tree, other data must decode to an image with samples.
pub open spec fn image_loads(data: Seq<u8>, vector: Option<Result<Tree, String>>) -> bool {
    if is_svg_spec(data) {
        vector matches Some(Ok(tree)) && tree.wf()
    } else {
        decoded_image(data) matches Some((w, h, _)) && w > 0 && h > 0
    }
}

/// The index of the first font from `k` on whose data is no font.
pub open spec fn first_bad_font(fonts: Seq<(String, Vec<u8>)>, k: int) -> Option<int>
    decreases fonts.len() - k,
{
    if k < 0 || k >= fonts.len() {
        None
    } else if !font_parses(fonts[k].1@, FACE_INDEX) {
        Some(k)
    } else {
        first_bad_font(fonts, k + 1)
    }
}

/// The index of the first image from `m` on that cannot be loaded.
pub open spec fn first_bad_image(
    images: Seq<(String, Vec<u8>, Option<Result<Tree, String>>)>,
    m: int,
) -> Option<int>
    decreases images.len() - m,
{
    if m < 0 || m >= images.len() {
        None
    } else if !image_loads(images[m].1@, images[m].2) {
        Some(m)
    } else {
        first_bad_image(images, m + 1)
    }
}

impl LoadedResources {
    /// Loads every font and image from its data, the fonts first, each in
    /// the order given; an image that is taken for a vector image comes
    /// with the outcome of parsing it. The first resource that cannot be
    /// loaded fails the whole call.
    pub fn load(
        fonts: Vec<(String, Vec<u8>)>,
        images: Vec<(String, Vec<u8>, Option<Result<Tree, String>>)>,
    ) -> (r: Result<LoadedResources, RupdfError>)
        ensures
            match first_bad_font(fonts@, 0) {
                Some(k) => r matches Err(RupdfError::InvalidFont(n, _)) && n@ == fonts@[k].0@,
                None => match first_bad_image(images@, 0) {
                    Some(m) => r matches Err(RupdfError::InvalidImage(n, _)) && n@
                        == images@[m].0@,
                    None => r matches Ok(res) && res.wf() && (forall|k: int|
                        0 <= k < fonts@.len() ==> res.font_index(
                            #[trigger] fonts@[k].0@,
                        ) is Some) && (forall|m: int|
                        0 <= m < images@.len() ==> res.image_index(
                            #[trigger] images@[m].0@,
                        ) is Some) && (forall|k: int|
                        0 <= k < fonts@.len() && #[trigger] last_of_name(
                            fonts@,
                            k,
                            fonts@.len() as int,
                        ) ==> font_kept(res, fonts@, k)) && (forall|m: int|
                        0 <= m < images@.len() && #[trigger] last_image_of_name(
                            images@,
                            m,
                            images@.len() as int,
                        ) ==> image_kept(res, images@, m)),
                },
            },
    {
        let mut loaded = LoadedResources::new();
        let ghost all_fonts = fonts@;
        let ghost all_images = images@;
        let mut pending_fonts = fonts;
        let mut pending_images = images;
        let ghost mut k: int = 0;
        while pending_fonts.len() > 0
            invariant
                0 <= k <= all_fonts.len(),
                pending_fonts@ == all_fonts.skip(k),
                loaded.wf(),
                loaded.images@.len() == 0,
                all_fonts == fonts@,
                first_bad_font(all_fonts, 0) == first_bad_font(all_fonts, k),
                forall|j: int|
                    0 <= j < k ==> loaded.font_index(#[trigger] all_fonts[j].0@) is Some,
                forall|j: int|
                    0 <= j < k && #[trigger] last_of_name(all_fonts, j, k) ==> font_kept(
                        loaded,
                        all_fonts,
                        j,
                    ),
            decreases pending_fonts.len(),
        {
            let (name, data) = pending_fonts.remove(0);
            assert(all_fonts[k].0 == name && all_fonts[k].1 == data);
            let ghost before = loaded;
            match LoadedFont::load(name.as_str(), data) {
                Ok(font) => {
                    loaded.insert_font(name.as_str(), font);
                    proof {
                        assert(inserted(
                            before.fonts@,
                            loaded.fonts@,
                            before.font_index(name@),
                            name@,
                            font,
                        ));
                        lemma_insert_keeps_fonts(before, loaded, name@);
                        assert forall|j: int| 0 <= j < k + 1 implies loaded.font_index(
                            #[trigger] all_fonts[j].0@,
                        ) is Some by {
                            if j < k {
                                assert(before.font_index(all_fonts[j].0@) is Some);
                            }
                        }
                        assert forall|j: int|
                            0 <= j < k + 1 && #[trigger] last_of_name(
                                all_fonts,
                                j,
                                k + 1,
                            ) implies font_kept(loaded, all_fonts, j) by {
                            if j < k {
                                assert(all_fonts[k].0@ != all_fonts[j].0@);
                                assert(last_of_name(all_fonts, j, k));
                                assert(font_kept(before, all_fonts, j));
                            }
                        }
                    }
                },
                Err(e) => {
                    assert(first_bad_font(all_fonts, k) == Some(k));
                    return Err(e);
                },
            }
            proof {
                assert(pending_fonts@ =~= all_fonts.skip(k + 1));
                k = k + 1;
            }
        }
        let ghost mut m: int = 0;
        while pending_images.len() > 0
            invariant
                0 <= m <= all_images.len(),
                pending_images@ == all_images.skip(m),
                loaded.wf(),
                all_fonts == fonts@,
                all_images == images@,
                first_bad_font(all_fonts, 0) is None,
                first_bad_image(all_images, 0) == first_bad_image(all_images, m),
                forall|j: int|
                    0 <= j < all_fonts.len() ==> loaded.font_index(
                        #[trigger] all_fonts[j].0@,
                    ) is Some,
                forall|j: int|
                    0 <= j < m ==> loaded.image_index(#[trigger] all_images[j].0@) is Some,
                forall|j: int|
                    0 <= j < all_fonts.len() && #[trigger] last_of_name(
                        all_fonts,
                        j,
                        all_fonts.len() as int,
                    ) ==> font_kept(loaded, all_fonts, j),
                forall|j: int|
                    0 <= j < m && #[trigger] last_image_of_name(all_images, j, m) ==> image_kept(
                        loaded,
                        all_images,
                        j,
                    ),
            decreases pending_images.len(),
        {
            let (name, data, vector) = pending_images.remove(0);
            assert(all_images[m].0 == name && all_images[m].1 == data && all_images[m].2
                == vector);
            let ghost before = loaded;
            match LoadedImage::load(name.as_str(), data, vector) {
                Ok(image) => {
                    loaded.insert_image(name.as_str(), image);
                    proof {
                        assert(inserted(
                            before.images@,
                            loaded.images@,
                            before.image_index(name@),
                            name@,
                            image,
                        ));
                        lemma_insert_keeps_images(before, loaded, name@);
                        assert forall|j: int| 0 <= j < m + 1 implies loaded.image_index(
                            #[trigger] all_images[j].0@,
                        ) is Some by {
                            if j < m {
                                assert(before.image_index(all_images[j].0@) is Some);
                            }
                        }
                        assert forall|j: int|
                            0 <= j < all_fonts.len() && #[trigger] last_of_name(
                                all_fonts,
                                j,
                                all_fonts.len() as int,
                            ) implies font_kept(loaded, all_fonts, j) by {
                            assert(font_kept(before, all_fonts, j));
                        }
                        assert forall|j: int|
                            0 <= j < m + 1 && #[trigger] last_image_of_name(
                                all_images,
                                j,
                                m + 1,
                            ) implies image_kept(loaded, all_images, j) by {
                            if j < m {
                                assert(all_images[m].0@ != all_images[j].0@);
                                assert(last_image_of_name(all_images, j, m));
                                assert(image_kept(before, all_images, j));
                            }
                        }
                    }
                },
                Err(e) => {
                    assert(first_bad_image(all_images, m) == Some(m));
                    return Err(e);
                },
            }
            proof {
                assert(pending_images@ =~= all_images.skip(m + 1));
                m = m + 1;
            }
        }
        Ok(loaded)
    }

    /// No resources.
    pub fn new() -> (r: LoadedResources)
        ensures
            r.fonts@.len() == 0,
            r.images@.len() == 0,
            r.wf(),
    {
        LoadedResources { fonts: Vec::new(), images: Vec::new() }
    }

    /// Every font and image is well formed.
    pub open spec fn wf(&self) -> bool {
        &&& forall|i: int| 0 <= i < self.fonts@.len() ==> (#[trigger] self.fonts@[i]).1.wf()
        &&& forall|i: int| 0 <= i < self.images@.len() ==> (#[trigger] self.images@[i]).1.wf()
    }

    /// Whether every font and image is well formed.
    pub fn is_wf(&self) -> (r: bool)
        ensures
            r == self.wf(),
    {
        let mut i: usize = 0;
        while i < self.fonts.len()
            invariant
                i <= self.fonts.len(),
                forall|j: int| 0 <= j < i ==> (#[trigger] self.fonts@[j]).1.wf(),
            decreases self.fonts.len() - i,
        {
            if !self.fonts[i].1.is_wf() {
                return false;
            }
            i += 1;
        }
        let mut m: usize = 0;
        while m < self.images.len()
            invariant
                m <= self.images.len(),
                forall|j: int| 0 <= j < self.fonts@.len() ==> (#[trigger] self.fonts@[j]).1.wf(),
                forall|j: int| 0 <= j < m ==> (#[trigger] self.images@[j]).1.wf(),
            decreases self.images.len() - m,
        {
            if !self.images[m].1.is_wf() {
                return false;
            }
            m += 1;
        }
        true
    }

    /// The names of the fonts, in order.
    pub open spec fn font_names(&self) -> Seq<Seq<char>> {
        Seq::new(self.fonts@.len(), |i: int| self.fonts@[i].0@)
    }

    /// The names of the images, in order.
    pub open spec fn image_names(&self) -> Seq<Seq<char>> {
        Seq::new(self.images@.len(), |i: int| self.images@[i].0@)
    }

    /// The index of the font called `name`.
    pub open spec fn font_index(&self, name: Seq<char>) -> Option<int> {
        name_index(self.font_names(), name, 0)
    }

    /// The index of the image called `name`.
    pub open spec fn image_index(&self, name: Seq<char>) -> Option<int> {
        name_index(self.image_names(), name, 0)
    }

    /// The position of the font called `name`.
    pub fn find_font(&self, name: &str) -> (r: Option<usize>)
        ensures
            match self.font_index(name@) {
                Some(i) => (r matches Some(k) && k == i) && 0 <= i < self.fonts@.len()
                    && self.fonts@[i].0@ == name@,
                None => r is None,
            },
    {
        let wanted = String::from_str(name);
        let mut i: usize = 0;
        while i < self.fonts.len()
            invariant
                i <= self.fonts.len(),
                wanted@ == name@,
                self.font_index(name@) == name_index(self.font_names(), name@, i as int),
            decreases self.fonts.len() - i,
        {
            if self.fonts[i].0 == wanted {
                return Some(i);
            }
            i += 1;
        }
        None
    }

    /// The position of the image called `name`.
    pub fn find_image(&self, name: &str) -> (r: Option<usize>)
        ensures
            match self.image_index(name@) {
                Some(i) => (r matches Some(k) && k == i) && 0 <= i < self.images@.len()
                    && self.images@[i].0@ == name@,
                None => r is None,
            },
    {
        let wanted = String::from_str(name);
        let mut i: usize = 0;
        while i < self.images.len()
            invariant
                i <= self.images.len(),
                wanted@ == name@,
                self.image_index(name@) == name_index(self.image_names(), name@, i as int),
            decreases self.images.len() - i,
        {
            if self.images[i].0 == wanted {
                return Some(i);
            }
            i += 1;
        }
        None
    }

    /// The font called `name`; an unknown name is an error.
    pub fn get_font(&self, name: &str) -> (r: Result<&LoadedFont, RupdfError>)
        ensures
            match self.font_index(name@) {
                Some(i) => r matches Ok(font) && *font == self.fonts@[i].1,
                None => r matches Err(RupdfError::MissingFont(n)) && n@ == name@,
            },
    {
        match self.find_font(name) {
            Some(i) => Ok(&self.fonts[i].1),
            None => Err(RupdfError::MissingFont(String::from_str(name))),
        }
    }

    /// The image called `name`; an unknown name is an error.
    pub fn get_image(&self, name: &str) -> (r: Result<&LoadedImage, RupdfError>)
        ensures
            match self.image_index(name@) {
                Some(i) => r matches Ok(image) && *image == self.images@[i].1,
                None => r matches Err(RupdfError::MissingImage(n)) && n@ == name@,
            },
    {
        match self.find_image(name) {
            Some(i) => Ok(&self.images[i].1),
            None => Err(RupdfError::MissingImage(String::from_str(name))),
        }
    }

    /// Adds a font under `name`, in place of one of that name if there is
    /// one.
    pub fn insert_font(&mut self, name: &str, font: LoadedFont)
        ensures
            inserted(old(self).fonts@, final(self).fonts@, old(self).font_index(name@), name@, font),
            final(self).images == old(self).images,
    {
        match self.find_font(name) {
            Some(i) => {
                self.fonts.set(i, (String::from_str(name), font));
            },
            None => {
                self.fonts.push((String::from_str(name), font));
                assert(self.fonts@.drop_last() =~= old(self).fonts@);
            },
        }
    }

    /// Adds an image under `name`, in place of one of that name if there
    /// is one.
    pub fn insert_image(&mut self, name: &str, image: LoadedImage)
        ensures
            inserted(
                old(self).images@,
                final(self).images@,
                old(self).image_index(name@),
                name@,
                image,
            ),
            final(self).fonts == old(self).fonts,
    {
        match self.find_image(name) {
            Some(i) => {
                self.images.set(i, (String::from_str(name), image));
            },
            None => {
                self.images.push((String::from_str(name), image));
                assert(self.images@.drop_last() =~= old(self).images@);
            },
        }
    }
}

/// After a font has been put under `name`, that name and every name that
/// had a font before has one, and every font but the one put is as before.
proof fn lemma_insert_keeps_fonts(before: LoadedResources, after: LoadedResources, name: Seq<char>)
    requires
        before.wf(),
        before.images == after.images,
        exists|value| #[trigger]
            inserted(before.fonts@, after.fonts@, before.font_index(name), name, value) && value.wf(),
    ensures
        after.wf(),
        after.font_index(name) is Some,
        forall|other: Seq<char>|
            before.font_index(other) is Some ==> after.font_index(other) is Some,
        forall|value| #[trigger]
            inserted(before.fonts@, after.fonts@, before.font_index(name), name, value) ==> after.fonts@[after.font_index(
                name,
            )->0].1 == value,
        forall|other: Seq<char>|
            other != name && before.font_index(other) is Some ==> after.font_index(other)
                == before.font_index(other) && after.fonts@[before.font_index(other)->0]
                == before.fonts@[before.font_index(other)->0],
{
    lemma_name_index(before.font_names(), name, 0);
    match before.font_index(name) {
        Some(i) => {
            assert(after.font_names() =~= before.font_names());
            assert forall|other: Seq<char>|
                other != name && before.font_index(other) is Some implies after.fonts@[before.font_index(
                    other,
                )->0] == before.fonts@[before.font_index(other)->0] by {
                lemma_name_index(before.font_names(), other, 0);
            }
            assert forall|j: int| 0 <= j < after.fonts@.len() implies (
            #[trigger] after.fonts@[j]).1.wf() by {
                if j != i {
                    assert(after.fonts@[j] == before.fonts@[j]);
                }
            }
        },
        None => {
            let n = before.fonts@.len() as int;
            assert(after.font_names() =~= before.font_names().push(name));
            assert forall|j: int| 0 <= j < after.fonts@.len() implies (
            #[trigger] after.fonts@[j]).1.wf() by {
                if j < n {
                    assert(after.fonts@[j] == before.fonts@[j]);
                }
            }
            lemma_name_index(after.font_names(), name, 0);
            assert(after.font_names()[n] == name);
            assert forall|other: Seq<char>| before.font_index(other) is Some implies after.font_index(
                other,
            ) is Some by {
                lemma_name_index(before.font_names(), other, 0);
                lemma_name_index(after.font_names(), other, 0);
                let i = before.font_index(other)->0;
                assert(after.font_names()[i] == other);
            }
            assert forall|other: Seq<char>|
                other != name && before.font_index(other) is Some implies after.font_index(other)
                == before.font_index(other) && after.fonts@[before.font_index(other)->0]
                == before.fonts@[before.font_index(other)->0] by {
                lemma_name_index(before.font_names(), other, 0);
                let i = before.font_index(other)->0;
                assert(after.font_names()[i] == other);
                assert forall|j: int| 0 <= j < i implies after.font_names()[j] != other by {
                    assert(after.font_names()[j] == before.font_names()[j]);
                }
                lemma_first_place(after.font_names(), other, i);
            }
            lemma_first_place(after.font_names(), name, n);
        },
    }
}

/// The same for images.
proof fn lemma_insert_keeps_images(before: LoadedResources, after: LoadedResources, name: Seq<char>)
    requires
        before.wf(),
        before.fonts == after.fonts,
        exists|value| #[trigger]
            inserted(before.images@, after.images@, before.image_index(name), name, value) && value.wf(),
    ensures
        after.wf(),
        after.image_index(name) is Some,
        forall|other: Seq<char>|
            before.image_index(other) is Some ==> after.image_index(other) is Some,
        forall|value| #[trigger]
            inserted(before.images@, after.images@, before.image_index(name), name, value) ==> after.images@[after.image_index(
                name,
            )->0].1 == value,
        forall|other: Seq<char>|
            other != name && before.image_index(other) is Some ==> after.image_index(other)
                == before.image_index(other) && after.images@[before.image_index(other)->0]
                == before.images@[before.image_index(other)->0],
{
    lemma_name_index(before.image_names(), name, 0);
    match before.image_index(name) {
        Some(i) => {
            assert(after.image_names() =~= before.image_names());
            assert forall|other: Seq<char>|
                other != name && before.image_index(other) is Some implies after.images@[before.image_index(
                    other,
                )->0] == before.images@[before.image_index(other)->0] by {
                lemma_name_index(before.image_names(), other, 0);
            }
            assert forall|j: int| 0 <= j < after.images@.len() implies (
            #[trigger] after.images@[j]).1.wf() by {
                if j != i {
                    assert(after.images@[j] == before.images@[j]);
                }
            }
        },
        None => {
            let n = before.images@.len() as int;
            assert(after.image_names() =~= before.image_names().push(name));
            assert forall|j: int| 0 <= j < after.images@.len() implies (
            #[trigger] after.images@[j]).1.wf() by {
                if j < n {
                    assert(after.images@[j] == before.images@[j]);
                }
            }
            lemma_name_index(after.image_names(), name, 0);
            assert(after.image_names()[n] == name);
            assert forall|other: Seq<char>| before.image_index(other) is Some implies after.image_index(
                other,
            ) is Some by {
                lemma_name_index(before.image_names(), other, 0);
                lemma_name_index(after.image_names(), other, 0);
                let i = before.image_index(other)->0;
                assert(after.image_names()[i] == other);
            }
            assert forall|other: Seq<char>|
                other != name && before.image_index(other) is Some implies after.image_index(other)
                == before.image_index(other) && after.images@[before.image_index(other)->0]
                == before.images@[before.image_index(other)->0] by {
                lemma_name_index(before.image_names(), other, 0);
                let i = before.image_index(other)->0;
                assert(after.image_names()[i] == other);
                assert forall|j: int| 0 <= j < i implies after.image_names()[j] != other by {
                    assert(after.image_names()[j] == before.image_names()[j]);
                }
                lemma_first_place(after.image_names(), other, i);
            }
            lemma_first_place(after.image_names(), name, n);
        },
    }
}

} // verus!
