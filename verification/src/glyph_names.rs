//! The size of a font's table of glyph names, read from the font program.
//!
//! When a font is subsetted, the custom names of the glyphs that are kept
//! are counted in 16 bits, beginning at 258. A table that names more than
//! 65277 glyphs could make that count overflow, so such a font is not handed
//! to the subsetter.
use vstd::prelude::*;

verus! {

/// Most glyphs that a table of glyph names may name.
pub const NAMED_GLYPHS_MAX: u16 = 65277;

/// The magic number of a font collection.
pub const COLLECTION_MAGIC: u32 = 0x7474_6366;

/// The version of the table of glyph names that holds custom names.
pub const NAMES_VERSION: u32 = 0x0002_0000;

/// The 16-bit number stored at `at`, high byte first.
pub open spec fn be16_at(data: Seq<u8>, at: int) -> int {
    data[at] * 256 + data[at + 1]
}

/// The 32-bit number stored at `at`, high byte first.
pub open spec fn be32_at(data: Seq<u8>, at: int) -> int {
    ((data[at] * 256 + data[at + 1]) * 256 + data[at + 2]) * 256 + data[at + 3]
}

/// Where the table directory of face `index` begins: at the start of a
/// single font, at the offset that a collection gives for the face.
pub open spec fn directory_start(data: Seq<u8>, index: u32) -> Option<int> {
    if data.len() < 4 {
        None
    } else if be32_at(data, 0) == COLLECTION_MAGIC {
        if 16 + 4 * index <= data.len() {
            Some(be32_at(data, 12 + 4 * index))
        } else {
            None
        }
    } else {
        Some(0)
    }
}

/// Where record `i` of the directory at `dir` begins.
pub open spec fn record_at(dir: int, i: int) -> int {
    dir + 12 + 16 * i
}

/// Whether the record at `rec` is for the table of glyph names, `post`.
pub open spec fn is_names_record(data: Seq<u8>, rec: int) -> bool {
    data[rec] == 0x70 && data[rec + 1] == 0x6f && data[rec + 2] == 0x73 && data[rec + 3] == 0x74
}

/// Whether the table that the record at `rec` points to, if it is a table
/// of glyph names with custom names, names no more glyphs than the limit.
pub open spec fn record_fits(data: Seq<u8>, rec: int) -> bool {
    !is_names_record(data, rec) || {
        let start = be32_at(data, rec + 8);
        start + 34 > data.len() || be32_at(data, start) != NAMES_VERSION || be16_at(
            data,
            start + 32,
        ) <= NAMED_GLYPHS_MAX
    }
}

/// Whether every record of the directory at `dir` that lies within the
/// data fits.
pub open spec fn records_fit(data: Seq<u8>, dir: int) -> bool {
    forall|i: int|
        0 <= i < be16_at(data, dir + 4) && record_at(dir, i) + 16 <= data.len() ==> record_fits(
            data,
            #[trigger] record_at(dir, i),
        )
}

/// Whether no record of the table directory of face `index` points to a
/// table of glyph names that names more glyphs than the limit. Data too
/// short to hold a directory has no such record.
pub open spec fn glyph_names_fit(data: Seq<u8>, index: u32) -> bool {
    match directory_start(data, index) {
        None => true,
        Some(dir) => dir + 6 > data.len() || records_fit(data, dir),
    }
}

fn read_be16(data: &[u8], at: usize) -> (r: u16)
    requires
        at + 2 <= data@.len(),
    ensures
        r == be16_at(data@, at as int),
{
    (data[at] as u16) * 256 + data[at + 1] as u16
}

fn read_be32(data: &[u8], at: usize) -> (r: u32)
    requires
        at + 4 <= data@.len(),
    ensures
        r == be32_at(data@, at as int),
{
    (((data[at] as u32) * 256 + data[at + 1] as u32) * 256 + data[at + 2] as u32) * 256
        + data[at + 3] as u32
}

fn check_record(data: &[u8], rec: usize) -> (r: bool)
    requires
        rec + 16 <= data@.len(),
    ensures
        r == record_fits(data@, rec as int),
{
    if data[rec] != 0x70 || data[rec + 1] != 0x6f || data[rec + 2] != 0x73 || data[rec + 3]
        != 0x74 {
        return true;
    }
    let start: u64 = read_be32(data, rec + 8) as u64;
    if start + 34 > data.len() as u64 {
        return true;
    }
    let at: usize = start as usize;
    read_be32(data, at) != NAMES_VERSION || read_be16(data, at + 32) <= NAMED_GLYPHS_MAX
}

/// Whether the font program names few enough glyphs to be subsetted.
pub fn check_glyph_names(data: &[u8], index: u32) -> (r: bool)
    ensures
        r == glyph_names_fit(data@, index),
{
    let len: u64 = data.len() as u64;
    if len < 4 {
        return true;
    }
    let dir: u64 = if read_be32(data, 0) == COLLECTION_MAGIC {
        let place: u64 = 12 + 4 * (index as u64);
        if place + 4 > len {
            return true;
        }
        read_be32(data, place as usize) as u64
    } else {
        0
    };
    if dir + 6 > len {
        return true;
    }
    let count: u16 = read_be16(data, (dir + 4) as usize);
    let mut i: u16 = 0;
    while i < count
        invariant
            i <= count,
            len == data@.len(),
            data@.len() <= usize::MAX,
            dir <= 0xffff_ffff,
            directory_start(data@, index) == Some(dir as int),
            dir + 6 <= len,
            count == be16_at(data@, dir + 4),
            forall|j: int|
                0 <= j < i && record_at(dir as int, j) + 16 <= data@.len() ==> record_fits(
                    data@,
                    #[trigger] record_at(dir as int, j),
                ),
        decreases count - i,
    {
        let rec: u64 = dir + 12 + 16 * (i as u64);
        assert(rec == record_at(dir as int, i as int));
        if rec + 16 > len {
            assert forall|j: int|
                0 <= j < count && record_at(dir as int, j) + 16 <= data@.len() implies record_fits(
                data@,
                #[trigger] record_at(dir as int, j),
            ) by {
                if j >= i {
                    assert(record_at(dir as int, j) >= record_at(dir as int, i as int));
                }
            }
            assert(records_fit(data@, dir as int));
            return true;
        }
        if !check_record(data, rec as usize) {
            assert(!record_fits(data@, record_at(dir as int, i as int)));
            assert(0 <= i < be16_at(data@, dir + 4) && record_at(dir as int, i as int) + 16
                <= data@.len());
            assert(!records_fit(data@, dir as int));
            return false;
        }
        i += 1;
    }
    assert(records_fit(data@, dir as int));
    true
}

} // verus!
