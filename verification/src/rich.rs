//! The Rich header: an undocumented toolchain-fingerprint block hidden in the
//! DOS stub of many PE images.
//!
//! The block ends with the ASCII marker `Rich` followed by a 32-bit XOR key,
//! and begins with the marker `DanS` stored XOR-masked by that same key. The
//! entry pairs between the two markers are likewise masked; unmasking each
//! 32-bit word with the key yields a `(component_id, count)` record. A missing
//! or malformed block is a normal "absent" outcome, never an error.

use vstd::prelude::*;

use crate::bytes::{read_u32_le, u32_le_spec};

verus! {

/// The ASCII bytes `Rich` read as a little-endian 32-bit word.
pub const RICH_MARKER: u32 = 0x6863_6952;

/// The ASCII bytes `DanS` read as a little-endian 32-bit word.
pub const DANS_MARKER: u32 = 0x536E_6144;

/// One decoded Rich header record: an opaque producer identifier and how many
/// times that producer was used.
#[derive(Clone, Copy, Debug, PartialEq, Eq, Structural)]
pub struct RichEntry {
    pub comp_id: u32,
    pub count: u32,
}

/// A decoded Rich header: the per-binary XOR key and the unmasked entries in
/// their on-disk order.
#[derive(Debug)]
pub struct RichHeader {
    pub xor_key: u32,
    pub entries: Vec<RichEntry>,
}

/// The first offset `j` at or after `i`, stepping by 4, with `j + 4 <= end`
/// and the word at `j` equal to `w`.
pub open spec fn aligned_find(s: Seq<u8>, w: u32, i: int, end: int) -> Option<int>
    decreases end - i,
{
    if i + 4 > end {
        None
    } else if u32_le_spec(s, i) == w {
        Some(i)
    } else {
        aligned_find(s, w, i + 4, end)
    }
}

/// The `n` entry pairs stored masked at offset `start`, unmasked with `mask`.
pub open spec fn unmasked_entries_spec(s: Seq<u8>, start: int, n: nat, mask: u32) -> Seq<
    RichEntry,
> {
    Seq::new(
        n,
        |k: int|
            RichEntry {
                comp_id: u32_le_spec(s, start + 8 * k) ^ mask,
                count: u32_le_spec(s, start + 8 * k + 4) ^ mask,
            },
    )
}

/// What Rich header, if any, the DOS stub `s[0..nt]` holds.
///
/// The scan mirrors the on-disk scheme: the first 4-byte-aligned `Rich` marker
/// in the stub ends the block and is followed by the XOR key; the first
/// aligned masked `DanS` marker before it starts the block; the masked entry
/// pairs lie between the two markers. A missing marker, a key that does not
/// fit before the NT header, or an entry span that is not a whole number of
/// 8-byte pairs all mean the header is absent.
pub open spec fn rich_header_spec(s: Seq<u8>, nt: int) -> Option<(u32, Seq<RichEntry>)> {
    match aligned_find(s, RICH_MARKER, 0, nt) {
        Option::None => Option::None,
        Option::Some(rich_off) => {
            if rich_off + 8 > nt {
                Option::None
            } else {
                let mask = u32_le_spec(s, rich_off + 4);
                match aligned_find(s, DANS_MARKER ^ mask, 0, rich_off) {
                    Option::None => Option::None,
                    Option::Some(dans_off) => {
                        let start = dans_off + 4;
                        if (rich_off - start) % 8 != 0 {
                            Option::None
                        } else {
                            Option::Some(
                                (
                                    mask,
                                    unmasked_entries_spec(
                                        s,
                                        start,
                                        ((rich_off - start) / 8) as nat,
                                        mask,
                                    ),
                                ),
                            )
                        }
                    },
                }
            }
        },
    }
}

/// A found offset lies in range, matches the word searched for, and keeps the
/// 4-byte stride of the scan.
proof fn lemma_aligned_find_some(s: Seq<u8>, w: u32, i: int, end: int, j: int)
    requires
        aligned_find(s, w, i, end) == Some(j),
    ensures
        i <= j,
        j + 4 <= end,
        u32_le_spec(s, j) == w,
        (j - i) % 4 == 0,
    decreases end - i,
{
    if i + 4 > end {
    } else if u32_le_spec(s, i) == w {
    } else {
        lemma_aligned_find_some(s, w, i + 4, end, j);
    }
}

/// An aligned scan over a region holding no occurrence of `w` finds nothing.
proof fn lemma_aligned_find_none(s: Seq<u8>, w: u32, i: int, end: int)
    requires
        0 <= i,
        i % 4 == 0,
        forall|j: int| i <= j && j + 4 <= end && j % 4 == 0 ==> u32_le_spec(s, j) != w,
    ensures
        aligned_find(s, w, i, end) is None,
    decreases end - i,
{
    if i + 4 > end {
    } else {
        assert(u32_le_spec(s, i) != w);
        lemma_aligned_find_none(s, w, i + 4, end);
    }
}

/// A DOS stub without a 4-byte-aligned `Rich` marker holds no Rich header:
/// the probe reports absence, and iteration visits nothing.
pub proof fn lemma_no_rich_marker_no_header(s: Seq<u8>, nt: int)
    requires
        forall|j: int| 0 <= j && j + 4 <= nt && j % 4 == 0 ==> u32_le_spec(s, j) != RICH_MARKER,
    ensures
        rich_header_spec(s, nt) is None,
{
    lemma_aligned_find_none(s, RICH_MARKER, 0, nt);
}

/// A DOS stub whose `Rich` marker is not preceded by the matching masked
/// `DanS` marker holds no Rich header either.
pub proof fn lemma_no_dans_marker_no_header(s: Seq<u8>, nt: int, rich_off: int)
    requires
        aligned_find(s, RICH_MARKER, 0, nt) == Some(rich_off),
        forall|j: int|
            0 <= j && j + 4 <= rich_off && j % 4 == 0 ==> #[trigger] u32_le_spec(s, j)
                != DANS_MARKER ^ u32_le_spec(s, rich_off + 4),
    ensures
        rich_header_spec(s, nt) is None,
{
    lemma_aligned_find_none(s, DANS_MARKER ^ u32_le_spec(s, rich_off + 4), 0, rich_off);
}

/// Finds the first 4-byte-aligned occurrence of the word `w` in
/// `data[0..end]`.
fn find_u32_aligned(data: &[u8], w: u32, end: usize) -> (r: Option<usize>)
    requires
        end <= data@.len(),
    ensures
        r is Some <==> aligned_find(data@, w, 0, end as int) is Some,
        r matches Some(j) ==> aligned_find(data@, w, 0, end as int) == Some(j as int),
{
    if end < 4 {
        return Option::None;
    }
    let last: usize = end - 4;
    let mut i: usize = 0;
    while i <= last
        invariant
            end <= data@.len(),
            last == end - 4,
            end >= 4,
            i % 4 == 0,
            aligned_find(data@, w, 0, end as int) == aligned_find(data@, w, i as int, end as int),
        decreases last + 4 - i,
    {
        let word = read_u32_le(data, i);
        if word == w {
            return Option::Some(i);
        }
        i = i + 4;
    }
    Option::None
}

/// Locates and decodes the Rich header in the DOS stub `data[0..nt]`,
/// returning its key and unmasked entries, or `None` when it is absent.
pub fn extract_rich_header(data: &[u8], nt: usize) -> (r: Option<RichHeader>)
    requires
        nt <= data@.len(),
    ensures
        r is Some <==> rich_header_spec(data@, nt as int) is Some,
        r matches Some(h) ==> {
            let v = rich_header_spec(data@, nt as int)->Some_0;
            h.xor_key == v.0 && h.entries@ == v.1
        },
{
    let rich_off = match find_u32_aligned(data, RICH_MARKER, nt) {
        Option::Some(j) => j,
        Option::None => {
            return Option::None;
        },
    };
    proof {
        lemma_aligned_find_some(data@, RICH_MARKER, 0, nt as int, rich_off as int);
    }
    if nt - rich_off < 8 {
        return Option::None;
    }
    let mask = read_u32_le(data, rich_off + 4);
    let dans_off = match find_u32_aligned(data, DANS_MARKER ^ mask, rich_off) {
        Option::Some(j) => j,
        Option::None => {
            return Option::None;
        },
    };
    proof {
        lemma_aligned_find_some(data@, DANS_MARKER ^ mask, 0, rich_off as int, dans_off as int);
    }
    let start: usize = dans_off + 4;
    let span: usize = rich_off - start;
    if span % 8 != 0 {
        return Option::None;
    }
    let n: usize = span / 8;
    let ghost entries_view = unmasked_entries_spec(data@, start as int, n as nat, mask);
    let mut entries: Vec<RichEntry> = Vec::new();
    let mut k: usize = 0;
    proof {
        assert(8 * (span as int / 8) == span as int) by {
            vstd::arithmetic::div_mod::lemma_fundamental_div_mod(span as int, 8);
        }
    }
    while k < n
        invariant
            n == span / 8,
            span % 8 == 0,
            8 * n == span,
            start + span == rich_off,
            rich_off + 8 <= nt <= data@.len(),
            k <= n,
            entries@.len() == k,
            entries_view == unmasked_entries_spec(data@, start as int, n as nat, mask),
            forall|j: int| 0 <= j < k ==> entries@[j] == entries_view[j],
        decreases n - k,
    {
        proof {
            assert(8 * k + 8 <= 8 * n) by (nonlinear_arith)
                requires
                    k < n,
            ;
        }
        let comp_id = read_u32_le(data, start + 8 * k) ^ mask;
        let count = read_u32_le(data, start + 8 * k + 4) ^ mask;
        entries.push(RichEntry { comp_id, count });
        k = k + 1;
    }
    proof {
        assert(entries@ =~= entries_view);
    }
    Option::Some(RichHeader { xor_key: mask, entries })
}

} // verus!
