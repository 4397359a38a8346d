//! Round-trip law for the Rich header.
//!
//! A Rich header built from a chosen key and entry list — each word stored
//! XOR-masked, framed by the masked `DanS` marker and the clear `Rich` marker
//! inside an otherwise minimal image — decodes back to exactly the original
//! ordered entries and key. The whole construction is laid out in 32-bit
//! words, which matches the 4-byte stride of the marker scan.

use vstd::prelude::*;

use crate::bytes::{u16_le_spec, u32_le_spec};
use crate::headers::{
    creation_ok, nt_offset_spec, optional_magic_spec, DOS_MAGIC, OPTIONAL_MAGIC_32,
    OPTIONAL_MAGIC_64, PE_SIGNATURE,
};
use crate::rich::{
    aligned_find, rich_header_spec, unmasked_entries_spec, RichEntry, DANS_MARKER, RICH_MARKER,
};

verus! {

/// Byte `t` (0 = least significant) of the 32-bit word `w`.
pub open spec fn byte_of(w: u32, t: int) -> u8 {
    if t == 0 {
        (w & 0xFF) as u8
    } else if t == 1 {
        ((w >> 8) & 0xFF) as u8
    } else if t == 2 {
        ((w >> 16) & 0xFF) as u8
    } else {
        ((w >> 24) & 0xFF) as u8
    }
}

/// The byte string laying out `ws` as consecutive little-endian 32-bit words.
pub open spec fn bytes_of_words(ws: Seq<u32>) -> Seq<u8> {
    Seq::new(4 * ws.len(), |i: int| byte_of(ws[i / 4], i % 4))
}

/// The first index in `[a, end)` whose word equals `w`.
pub open spec fn word_find(ws: Seq<u32>, w: u32, a: int, end: int) -> Option<int>
    decreases end - a,
{
    if a >= end {
        None
    } else if ws[a] == w {
        Some(a)
    } else {
        word_find(ws, w, a + 1, end)
    }
}

/// The words of a minimal image carrying a masked Rich header: a DOS header
/// whose NT offset points right past the Rich block, the masked `DanS`
/// marker, the masked entry pairs, the `Rich` marker with its key, and NT
/// headers opening with `PE\0\0` and the given optional-header magic.
pub open spec fn synthetic_words(mask: u32, entries: Seq<RichEntry>, magic: u16) -> Seq<u32> {
    let n: int = entries.len() as int;
    Seq::new(
        (26 + 2 * n) as nat,
        |j: int|
            if j == 0 {
                DOS_MAGIC as u32
            } else if j < 15 {
                0u32
            } else if j == 15 {
                (76 + 8 * n) as u32
            } else if j == 16 {
                DANS_MARKER ^ mask
            } else if j < 17 + 2 * n {
                if (j - 17) % 2 == 0 {
                    entries[(j - 17) / 2].comp_id ^ mask
                } else {
                    entries[(j - 17) / 2].count ^ mask
                }
            } else if j == 17 + 2 * n {
                RICH_MARKER
            } else if j == 18 + 2 * n {
                mask
            } else if j == 19 + 2 * n {
                PE_SIGNATURE
            } else if j < 25 + 2 * n {
                0u32
            } else {
                magic as u32
            },
    )
}

/// A minimal image embedding the Rich header built from `mask` and `entries`.
pub open spec fn synthetic_image(mask: u32, entries: Seq<RichEntry>, magic: u16) -> Seq<u8> {
    bytes_of_words(synthetic_words(mask, entries, magic))
}

/// Unmasking undoes masking: XOR with the same key twice gives the word back.
pub proof fn lemma_unmask_masked(x: u32, m: u32)
    by (bit_vector)
    ensures
        (x ^ m) ^ m == x,
{
}

proof fn lemma_u32_of_bytes(w: u32, b0: u8, b1: u8, b2: u8, b3: u8)
    by (bit_vector)
    requires
        b0 == (w & 0xFF) as u8,
        b1 == ((w >> 8) & 0xFF) as u8,
        b2 == ((w >> 16) & 0xFF) as u8,
        b3 == ((w >> 24) & 0xFF) as u8,
    ensures
        ((b0 as u32) | ((b1 as u32) << 8) | ((b2 as u32) << 16) | ((b3 as u32) << 24)) == w,
{
}

proof fn lemma_u16_of_bytes(w: u32, b0: u8, b1: u8)
    by (bit_vector)
    requires
        b0 == (w & 0xFF) as u8,
        b1 == ((w >> 8) & 0xFF) as u8,
    ensures
        ((b0 as u16) | ((b1 as u16) << 8)) == w as u16,
{
}

/// Reading the 32-bit word at byte offset `4 * j` of the laid-out words gives
/// back word `j`.
proof fn lemma_word_read(ws: Seq<u32>, j: int)
    requires
        0 <= j < ws.len(),
    ensures
        u32_le_spec(bytes_of_words(ws), 4 * j) == ws[j],
{
    let s = bytes_of_words(ws);
    assert((4 * j + 0) / 4 == j && (4 * j + 0) % 4 == 0) by (nonlinear_arith)
        requires
            0 <= j,
    ;
    assert((4 * j + 1) / 4 == j && (4 * j + 1) % 4 == 1) by (nonlinear_arith)
        requires
            0 <= j,
    ;
    assert((4 * j + 2) / 4 == j && (4 * j + 2) % 4 == 2) by (nonlinear_arith)
        requires
            0 <= j,
    ;
    assert((4 * j + 3) / 4 == j && (4 * j + 3) % 4 == 3) by (nonlinear_arith)
        requires
            0 <= j,
    ;
    assert(s[4 * j] == byte_of(ws[j], 0));
    assert(s[4 * j + 1] == byte_of(ws[j], 1));
    assert(s[4 * j + 2] == byte_of(ws[j], 2));
    assert(s[4 * j + 3] == byte_of(ws[j], 3));
    lemma_u32_of_bytes(ws[j], s[4 * j], s[4 * j + 1], s[4 * j + 2], s[4 * j + 3]);
}

/// Reading the 16-bit value at byte offset `4 * j` gives the low half of word
/// `j`.
proof fn lemma_word_read_low16(ws: Seq<u32>, j: int)
    requires
        0 <= j < ws.len(),
    ensures
        u16_le_spec(bytes_of_words(ws), 4 * j) == ws[j] as u16,
{
    let s = bytes_of_words(ws);
    assert((4 * j + 0) / 4 == j && (4 * j + 0) % 4 == 0) by (nonlinear_arith)
        requires
            0 <= j,
    ;
    assert((4 * j + 1) / 4 == j && (4 * j + 1) % 4 == 1) by (nonlinear_arith)
        requires
            0 <= j,
    ;
    assert(s[4 * j] == byte_of(ws[j], 0));
    assert(s[4 * j + 1] == byte_of(ws[j], 1));
    lemma_u16_of_bytes(ws[j], s[4 * j], s[4 * j + 1]);
}

/// The 4-byte-stride scan over laid-out words finds exactly what the
/// word-level search finds, at four times the index.
proof fn lemma_aligned_find_words(ws: Seq<u32>, w: u32, a: int, end: int)
    requires
        0 <= a <= end <= ws.len(),
    ensures
        match word_find(ws, w, a, end) {
            None => aligned_find(bytes_of_words(ws), w, 4 * a, 4 * end) is None,
            Some(j) => aligned_find(bytes_of_words(ws), w, 4 * a, 4 * end) == Some(4 * j),
        },
    decreases end - a,
{
    if a >= end {
    } else {
        lemma_word_read(ws, a);
        if ws[a] == w {
        } else {
            lemma_aligned_find_words(ws, w, a + 1, end);
        }
    }
}

/// A word-level search whose range opens with misses and then a hit returns
/// the hit.
proof fn lemma_word_find_first(ws: Seq<u32>, w: u32, a: int, hit: int, end: int)
    requires
        0 <= a <= hit < end <= ws.len(),
        forall|j: int| a <= j < hit ==> ws[j] != w,
        ws[hit] == w,
    ensures
        word_find(ws, w, a, end) == Some(hit),
    decreases hit - a,
{
    if a == hit {
    } else {
        assert(ws[a] != w);
        lemma_word_find_first(ws, w, a + 1, hit, end);
    }
}

/// Round trip: a Rich header built from key `mask` and `entries` — each word
/// stored masked, between the masked `DanS` marker and the `Rich` marker —
/// decodes back to exactly the original key and ordered entries, inside an
/// image that creation accepts with the given optional-header magic.
///
/// The premises exclude the buffers on which the scan would find a decoy
/// first: a masked word that spells a marker, or a mask whose masked `DanS`
/// pattern collides with a DOS header word.
pub proof fn lemma_rich_round_trip(mask: u32, entries: Seq<RichEntry>, magic: u16)
    requires
        entries.len() <= 0xFFFFFF,
        magic == OPTIONAL_MAGIC_32 || magic == OPTIONAL_MAGIC_64,
        DANS_MARKER ^ mask != RICH_MARKER,
        DANS_MARKER ^ mask != DOS_MAGIC as u32,
        DANS_MARKER ^ mask != 0,
        DANS_MARKER ^ mask != (76 + 8 * entries.len()) as u32,
        forall|k: int|
            0 <= k < entries.len() ==> (#[trigger] entries[k].comp_id) ^ mask != RICH_MARKER
                && entries[k].count ^ mask != RICH_MARKER,
    ensures
        ({
            let s = synthetic_image(mask, entries, magic);
            let nt: int = 76 + 8 * entries.len() as int;
            &&& s.len() == nt + 28
            &&& nt_offset_spec(s) == nt
            &&& creation_ok(s)
            &&& optional_magic_spec(s) == magic
            &&& rich_header_spec(s, nt) == Some((mask, entries))
        }),
{
    let n: int = entries.len() as int;
    let ws = synthetic_words(mask, entries, magic);
    let s = synthetic_image(mask, entries, magic);
    let nt: int = 76 + 8 * n;
    assert(ws.len() == 26 + 2 * n);
    assert(s.len() == 4 * (26 + 2 * n));

    // The DOS header fields.
    lemma_word_read_low16(ws, 0);
    let w0: u32 = ws[0];
    assert(w0 as u16 == DOS_MAGIC) by (bit_vector)
        requires
            w0 == DOS_MAGIC as u32,
    ;
    lemma_word_read(ws, 15);
    assert(u32_le_spec(s, 60) == (76 + 8 * n) as u32);
    assert(nt_offset_spec(s) == nt);

    // The NT headers: signature and optional-header magic.
    lemma_word_read(ws, 19 + 2 * n);
    assert(4 * (19 + 2 * n) == nt);
    lemma_word_read_low16(ws, 25 + 2 * n);
    assert(4 * (25 + 2 * n) == nt + 24);
    let wm: u32 = ws[25 + 2 * n];
    assert(wm as u16 == magic) by (bit_vector)
        requires
            wm == magic as u32,
    ;
    assert(creation_ok(s));

    // The scan finds the `Rich` marker first at word 17 + 2n.
    assert forall|j: int| 0 <= j < 17 + 2 * n implies ws[j] != RICH_MARKER by {
        if 17 <= j {
            let k: int = (j - 17) / 2;
            assert(0 <= k < n) by (nonlinear_arith)
                requires
                    17 <= j < 17 + 2 * n,
                    k == (j - 17) / 2,
            ;
            assert(entries[k].comp_id ^ mask != RICH_MARKER && entries[k].count ^ mask
                != RICH_MARKER);
        }
    }
    lemma_word_find_first(ws, RICH_MARKER, 0, 17 + 2 * n, 19 + 2 * n);
    lemma_aligned_find_words(ws, RICH_MARKER, 0, 19 + 2 * n);
    let rich_off: int = 4 * (17 + 2 * n);
    assert(aligned_find(s, RICH_MARKER, 0, nt) == Some(rich_off));

    // The key sits right after the marker.
    lemma_word_read(ws, 18 + 2 * n);
    assert(u32_le_spec(s, rich_off + 4) == mask);

    // The scan finds the masked `DanS` marker first at word 16.
    lemma_word_find_first(ws, DANS_MARKER ^ mask, 0, 16, 17 + 2 * n);
    lemma_aligned_find_words(ws, DANS_MARKER ^ mask, 0, 17 + 2 * n);
    assert(aligned_find(s, DANS_MARKER ^ mask, 0, rich_off) == Some(64int));

    // The span between the markers is exactly the n masked pairs.
    assert((rich_off - 68) % 8 == 0 && (rich_off - 68) / 8 == n) by (nonlinear_arith)
        requires
            rich_off == 4 * (17 + 2 * n),
            0 <= n,
    ;
    let decoded = unmasked_entries_spec(s, 68, n as nat, mask);
    assert forall|k: int| 0 <= k < n implies decoded[k] == entries[k] by {
        assert((2 * k) % 2 == 0 && (2 * k) / 2 == k && (2 * k + 1) % 2 == 1 && (2 * k + 1) / 2
            == k) by (nonlinear_arith)
            requires
                0 <= k,
        ;
        assert(ws[17 + 2 * k] == entries[k].comp_id ^ mask);
        assert(ws[18 + 2 * k] == entries[k].count ^ mask);
        lemma_word_read(ws, 17 + 2 * k);
        lemma_word_read(ws, 18 + 2 * k);
        assert(68 + 8 * k == 4 * (17 + 2 * k));
        assert(68 + 8 * k + 4 == 4 * (18 + 2 * k));
        lemma_unmask_masked(entries[k].comp_id, mask);
        lemma_unmask_masked(entries[k].count, mask);
    }
    assert(decoded =~= entries);
    assert(rich_header_spec(s, nt) == Some((mask, entries)));
}

} // verus!
