//! The order in which ordered maps and sets hand out what they hold.
use vstd::prelude::*;
use vstd::std_specs::btree::increasing_seq;
use vstd::std_specs::cmp::OrdSpec;

verus! {

/// Keys that an ordered map hands out in increasing order are strictly
/// ascending as numbers.
pub proof fn lemma_increasing_keys(keys: Seq<&u32>)
    requires
        increasing_seq(keys),
    ensures
        forall|i: int, j: int| 0 <= i < j < keys.len() ==> *keys[i] < *keys[j],
{
    broadcast use vstd::laws_cmp::group_laws_cmp;

    vstd::std_specs::btree::axiom_increasing_seq_meaning::<&u32>(keys);
    assert forall|i: int, j: int| 0 <= i < j < keys.len() implies *keys[i] < *keys[j] by {
        assert(OrdSpec::cmp_spec(&keys[i], &keys[j]) is Less);
    }
}

/// Glyph ids that an ordered set hands out in increasing order are
/// strictly ascending as numbers.
pub proof fn lemma_increasing_glyphs(glyphs: Seq<&u16>)
    requires
        increasing_seq(glyphs),
    ensures
        forall|i: int, j: int| 0 <= i < j < glyphs.len() ==> *glyphs[i] < *glyphs[j],
{
    broadcast use vstd::laws_cmp::group_laws_cmp;

    vstd::std_specs::btree::axiom_increasing_seq_meaning::<&u16>(glyphs);
    assert forall|i: int, j: int| 0 <= i < j < glyphs.len() implies *glyphs[i] < *glyphs[j] by {
        assert(OrdSpec::cmp_spec(&glyphs[i], &glyphs[j]) is Less);
    }
}

} // verus!
