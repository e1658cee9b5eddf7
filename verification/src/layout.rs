//! Breaking text into paragraphs, words and lines.
use crate::text::{is_space, is_space_spec};
use vstd::prelude::*;

verus! {

/// The views of a vector of character vectors.
pub open spec fn views(v: Seq<Vec<char>>) -> Seq<Seq<char>> {
    Seq::new(v.len(), |i: int| v[i]@)
}

/// The views of a vector of strings.
pub open spec fn texts(v: Seq<String>) -> Seq<Seq<char>> {
    Seq::new(v.len(), |i: int| v[i]@)
}

/// The pieces of `text` between line breaks, scanning from `from` with the
/// current piece begun at `start`.
pub open spec fn split_from(text: Seq<char>, from: int, start: int) -> Seq<Seq<char>>
    decreases text.len() - from,
{
    if from >= text.len() {
        seq![text.subrange(start, text.len() as int)]
    } else if text[from] == '\n' {
        seq![text.subrange(start, from)] + split_from(text, from + 1, from + 1)
    } else {
        split_from(text, from + 1, start)
    }
}

/// The paragraphs of `text`: the pieces between line breaks. A text with
/// `n` line breaks has `n + 1` paragraphs, some of which may be empty.
pub open spec fn paragraphs(text: Seq<char>) -> Seq<Seq<char>> {
    split_from(text, 0, 0)
}

/// The words of `p` from `from` on, where `start` is the beginning of the
/// word being read, if one is.
pub open spec fn words_from(p: Seq<char>, from: int, start: Option<int>) -> Seq<Seq<char>>
    decreases p.len() - from,
{
    if from >= p.len() {
        match start {
            Some(s) => seq![p.subrange(s, p.len() as int)],
            None => Seq::empty(),
        }
    } else if is_space_spec(p[from]) {
        match start {
            Some(s) => seq![p.subrange(s, from)] + words_from(p, from + 1, None),
            None => words_from(p, from + 1, None),
        }
    } else {
        words_from(
            p,
            from + 1,
            if start is None {
                Some(from)
            } else {
                start
            },
        )
    }
}

/// The words of a paragraph: its maximal runs of characters that are not
/// white space.
pub open spec fn words(p: Seq<char>) -> Seq<Seq<char>> {
    words_from(p, 0, None)
}

/// The words of a line joined by single spaces.
pub open spec fn join(group: Seq<Seq<char>>) -> Seq<char>
    decreases group.len(),
{
    if group.len() == 0 {
        Seq::empty()
    } else if group.len() == 1 {
        group[0]
    } else {
        join(group.drop_last()) + seq![' '] + group.last()
    }
}

/// Greedy line filling. `widths[i]` is the width of word `i`; `current` is
/// the line being filled and `current_width` its width. The first word of a
/// line is always placed; a further word joins the line if the line, a space
/// and the word together are at most `max` wide, and begins a new line
/// otherwise.
pub open spec fn wrap_groups(
    words: Seq<Seq<char>>,
    widths: Seq<int>,
    i: int,
    current: Seq<Seq<char>>,
    current_width: int,
    space: int,
    max: int,
) -> Seq<Seq<Seq<char>>>
    recommends
        widths.len() == words.len(),
    decreases words.len() - i,
{
    if i >= words.len() {
        if current.len() == 0 {
            Seq::empty()
        } else {
            seq![current]
        }
    } else if current.len() == 0 {
        wrap_groups(words, widths, i + 1, seq![words[i]], widths[i], space, max)
    } else if current_width + space + widths[i] <= max {
        wrap_groups(
            words,
            widths,
            i + 1,
            current.push(words[i]),
            current_width + space + widths[i],
            space,
            max,
        )
    } else {
        seq![current] + wrap_groups(words, widths, i + 1, seq![words[i]], widths[i], space, max)
    }
}

/// Each group joined into a line.
pub open spec fn joined(groups: Seq<Seq<Seq<char>>>) -> Seq<Seq<char>> {
    Seq::new(groups.len(), |k: int| join(groups[k]))
}

/// The lines that the words are wrapped into: each group joined.
pub open spec fn wrap_words(words: Seq<Seq<char>>, widths: Seq<int>, space: int, max: int) -> Seq<
    Seq<char>,
> {
    joined(wrap_groups(words, widths, 0, Seq::empty(), 0, space, max))
}

/// The paragraphs of `chars`.
pub fn split_paragraphs(chars: &Vec<char>) -> (r: Vec<Vec<char>>)
    ensures
        views(r@) == paragraphs(chars@),
{
    let mut out: Vec<Vec<char>> = Vec::new();
    let mut cur: Vec<char> = Vec::new();
    let mut i: usize = 0;
    let ghost mut start: int = 0;
    while i < chars.len()
        invariant
            0 <= start <= i <= chars.len(),
            cur@ == chars@.subrange(start, i as int),
            paragraphs(chars@) == views(out@) + split_from(chars@, i as int, start),
        decreases chars.len() - i,
    {
        let c = chars[i];
        if c == '\n' {
            let ghost before = views(out@);
            out.push(cur);
            assert(views(out@) =~= before + seq![chars@.subrange(start, i as int)]);
            cur = Vec::new();
            proof {
                start = i + 1;
            }
            assert(cur@ =~= chars@.subrange(start, i + 1));
        } else {
            cur.push(c);
            assert(cur@ =~= chars@.subrange(start, i + 1));
        }
        i += 1;
    }
    let ghost before = views(out@);
    out.push(cur);
    assert(views(out@) =~= before + seq![chars@.subrange(start, chars@.len() as int)]);
    out
}

/// The words of the paragraph `p`.
pub fn split_words(p: &Vec<char>) -> (r: Vec<Vec<char>>)
    ensures
        views(r@) == words(p@),
        forall|k: int| 0 <= k < r@.len() ==> (#[trigger] r@[k])@.len() > 0,
{
    let mut out: Vec<Vec<char>> = Vec::new();
    let mut cur: Vec<char> = Vec::new();
    let mut i: usize = 0;
    let ghost mut start: Option<int> = None;
    while i < p.len()
        invariant
            i <= p.len(),
            match start {
                Some(s) => 0 <= s < i && cur@ == p@.subrange(s, i as int),
                None => cur@.len() == 0,
            },
            words(p@) == views(out@) + words_from(p@, i as int, start),
            forall|k: int| 0 <= k < out@.len() ==> (#[trigger] out@[k])@.len() > 0,
        decreases p.len() - i,
    {
        let c = p[i];
        if is_space(c) {
            if cur.len() > 0 {
                let ghost before = views(out@);
                out.push(cur);
                assert(views(out@) =~= before + seq![p@.subrange(start->0, i as int)]);
                cur = Vec::new();
            }
            proof {
                start = None;
            }
        } else {
            cur.push(c);
            proof {
                if start is None {
                    start = Some(i as int);
                }
            }
            assert(cur@ =~= p@.subrange(start->0, i + 1));
        }
        i += 1;
    }
    if cur.len() > 0 {
        let ghost before = views(out@);
        out.push(cur);
        assert(views(out@) =~= before + seq![p@.subrange(start->0, p@.len() as int)]);
    }
    out
}

/// The concatenation of the groups, in order.
pub open spec fn flatten(groups: Seq<Seq<Seq<char>>>) -> Seq<Seq<char>>
    decreases groups.len(),
{
    if groups.len() == 0 {
        Seq::empty()
    } else {
        groups[0] + flatten(groups.drop_first())
    }
}

/// Wrapping keeps every word, in order: the lines taken together hold the
/// line being filled followed by the words still to place.
pub proof fn lemma_wrap_keeps_words(
    words: Seq<Seq<char>>,
    widths: Seq<int>,
    i: int,
    current: Seq<Seq<char>>,
    current_width: int,
    space: int,
    max: int,
)
    requires
        0 <= i <= words.len(),
        widths.len() == words.len(),
    ensures
        flatten(wrap_groups(words, widths, i, current, current_width, space, max)) == current
            + words.skip(i),
    decreases words.len() - i,
{
    let groups = wrap_groups(words, widths, i, current, current_width, space, max);
    if i >= words.len() {
        assert(words.skip(i) =~= Seq::<Seq<char>>::empty());
        if current.len() == 0 {
            assert(flatten(groups) =~= current + words.skip(i));
        } else {
            assert(groups.drop_first() =~= Seq::<Seq<Seq<char>>>::empty());
            assert(flatten(groups.drop_first()) =~= Seq::<Seq<char>>::empty());
            assert(flatten(groups) =~= current + words.skip(i));
        }
    } else {
        assert(words.skip(i) =~= seq![words[i]] + words.skip(i + 1));
        if current.len() == 0 {
            lemma_wrap_keeps_words(words, widths, i + 1, seq![words[i]], widths[i], space, max);
            assert(flatten(groups) =~= current + words.skip(i));
        } else if current_width + space + widths[i] <= max {
            lemma_wrap_keeps_words(
                words,
                widths,
                i + 1,
                current.push(words[i]),
                current_width + space + widths[i],
                space,
                max,
            );
            assert(flatten(groups) =~= current + words.skip(i));
        } else {
            let rest = wrap_groups(words, widths, i + 1, seq![words[i]], widths[i], space, max);
            lemma_wrap_keeps_words(words, widths, i + 1, seq![words[i]], widths[i], space, max);
            assert(groups.drop_first() =~= rest);
            assert(flatten(groups) =~= current + words.skip(i));
        }
    }
}

/// Wrapping never drops content: whatever the widths and the limit, the
/// words of the lines, read in order, are exactly the words given.
pub proof fn lemma_wrap_never_drops(
    words: Seq<Seq<char>>,
    widths: Seq<int>,
    space: int,
    max: int,
)
    requires
        widths.len() == words.len(),
    ensures
        flatten(wrap_groups(words, widths, 0, Seq::empty(), 0, space, max)) == words,
{
    lemma_wrap_keeps_words(words, widths, 0, Seq::empty(), 0, space, max);
    assert(Seq::<Seq<char>>::empty() + words.skip(0) =~= words);
}

/// A single word makes exactly one line, which is that word, however wide
/// it is.
pub proof fn lemma_single_word_one_line(word: Seq<char>, width: int, space: int, max: int)
    ensures
        wrap_words(seq![word], seq![width], space, max) == seq![word],
{
    let words = seq![word];
    let widths = seq![width];
    reveal_with_fuel(wrap_groups, 3);
    let groups = wrap_groups(words, widths, 0, Seq::empty(), 0, space, max);
    assert(groups =~= seq![seq![word]]);
    assert(wrap_words(words, widths, space, max) =~= seq![word]);
}

} // verus!
