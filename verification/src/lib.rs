//! Read-only structural inspection of PE32 / PE32+ images.
//!
//! Given a raw byte buffer, the library detects whether it holds a 32-bit or a
//! 64-bit PE image, indexes its DOS and COFF headers, and decodes the optional
//! Rich header hidden in the DOS stub, including its XOR unmasking. Every
//! operation is a pure in-memory computation over the caller's bytes; nothing
//! is copied but the few header fields and Rich entries the parse extracts.
//!
//! Parsing either succeeds as a whole or yields nothing: a truncated buffer, a
//! bad magic, or an out-of-bounds offset all collapse to `None`, while a
//! missing Rich header is a normal absent result on an otherwise valid image.

use vstd::prelude::*;

pub mod bytes;
pub mod headers;
pub mod rich;
pub mod synthetic;

use crate::headers::{
    creation_ok, coff_header_spec, dos_header_ok, dos_header_spec, nt_headers_ok, nt_offset_spec,
    optional_magic_spec, read_coff_header, CoffHeader, DosHeader, DOS_HEADER_SIZE, DOS_MAGIC,
    NT_OFFSET_FIELD, OPTIONAL_MAGIC_32, OPTIONAL_MAGIC_64, PE_SIGNATURE,
};
use crate::bytes::{read_u16_le, read_u32_le};
use crate::rich::{extract_rich_header, rich_header_spec, RichEntry, RichHeader};

verus! {

/// Everything a successful parse extracts from an image: the DOS header
/// fields, the COFF header, and the decoded Rich header when one is present.
#[derive(Debug)]
pub struct ParsedImage {
    pub dos: DosHeader,
    pub coff: CoffHeader,
    pub rich: Option<RichHeader>,
}

/// A parsed PE file, tagged with its bit width (PE32 or PE32+).
#[derive(Debug)]
pub enum PeFile {
    Pe32(ParsedImage),
    Pe64(ParsedImage),
}

/// Whether `image` holds exactly the headers and Rich header that the buffer
/// `s` stores.
pub open spec fn image_matches(image: ParsedImage, s: Seq<u8>) -> bool {
    &&& image.dos == dos_header_spec(s)
    &&& image.coff == coff_header_spec(s)
    &&& (image.rich is Some <==> rich_header_spec(s, nt_offset_spec(s)) is Some)
    &&& (image.rich matches Some(h) ==> {
        let v = rich_header_spec(s, nt_offset_spec(s))->Some_0;
        h.xor_key == v.0 && h.entries@ == v.1
    })
}

/// Whether `pe` is the parse of the buffer `s`: the right bit-width variant,
/// holding exactly what `s` stores.
pub open spec fn pe_matches(pe: PeFile, s: Seq<u8>) -> bool {
    &&& (pe is Pe32 <==> optional_magic_spec(s) == OPTIONAL_MAGIC_32)
    &&& (pe is Pe64 <==> optional_magic_spec(s) == OPTIONAL_MAGIC_64)
    &&& image_matches(pe.image_spec(), s)
}

impl PeFile {
    /// The parse result carried by either variant.
    pub open spec fn image_spec(self) -> ParsedImage {
        match self {
            PeFile::Pe32(image) => image,
            PeFile::Pe64(image) => image,
        }
    }

    /// The decoded Rich entries, in on-disk order; empty when the header is
    /// absent.
    pub open spec fn rich_entries_seq(self) -> Seq<RichEntry> {
        match self.image_spec().rich {
            Some(h) => h.entries@,
            None => Seq::empty(),
        }
    }

    /// Parses `data` as a PE image.
    ///
    /// Succeeds exactly on the buffers that `creation_ok` accepts; any
    /// truncation, bad magic, or out-of-bounds offset yields `None`. On
    /// success the returned file is tagged with the bit width the
    /// optional-header magic names and holds exactly the headers and Rich
    /// header stored in `data`.
    pub fn parse(data: &[u8]) -> (r: Option<PeFile>)
        ensures
            r is Some <==> creation_ok(data@),
            r matches Some(pe) ==> pe_matches(pe, data@),
    {
        let len: usize = data.len();
        if len < DOS_HEADER_SIZE {
            return None;
        }
        let e_magic = read_u16_le(data, 0);
        if e_magic != DOS_MAGIC {
            return None;
        }
        let e_lfanew = read_u32_le(data, NT_OFFSET_FIELD);
        let nt = e_lfanew as usize;
        if nt > len - 26 {
            return None;
        }
        let signature = read_u32_le(data, nt);
        if signature != PE_SIGNATURE {
            return None;
        }
        let magic = read_u16_le(data, nt + 24);
        if magic != OPTIONAL_MAGIC_32 && magic != OPTIONAL_MAGIC_64 {
            return None;
        }
        let dos = DosHeader { e_magic, e_lfanew };
        let coff = read_coff_header(data, nt);
        let rich = extract_rich_header(data, nt);
        let image = ParsedImage { dos, coff, rich };
        if magic == OPTIONAL_MAGIC_32 {
            Some(PeFile::Pe32(image))
        } else {
            Some(PeFile::Pe64(image))
        }
    }

    /// The parse result, whichever the bit width.
    fn image(&self) -> (image: &ParsedImage)
        ensures
            *image == self.image_spec(),
    {
        match self {
            PeFile::Pe32(image) => image,
            PeFile::Pe64(image) => image,
        }
    }

    /// The DOS header fields of this image.
    pub fn dos_header(&self) -> (h: &DosHeader)
        ensures
            *h == self.image_spec().dos,
    {
        &self.image().dos
    }

    /// The COFF file header of this image.
    pub fn image_header(&self) -> (h: &CoffHeader)
        ensures
            *h == self.image_spec().coff,
    {
        &self.image().coff
    }

    /// The decoded Rich header, or `None` when the image has none.
    pub fn rich_header_info(&self) -> (r: Option<&RichHeader>)
        ensures
            r is Some <==> self.image_spec().rich is Some,
            r matches Some(h) ==> *h == self.image_spec().rich->Some_0,
    {
        self.image().rich.as_ref()
    }

    /// Whether the image carries a Rich header.
    ///
    /// The result is a pure function of the parsed image, so any number of
    /// calls on the same file return the same answer and change nothing.
    pub fn has_rich_header(&self) -> (b: bool)
        ensures
            b == (self.image_spec().rich is Some),
    {
        self.image().rich.is_some()
    }

    /// Yields each Rich entry, in on-disk order, to `visit`, stopping early
    /// as soon as `visit` returns `false`.
    ///
    /// Returns the number of calls made. Every entry handed to `visit` is the
    /// one at its position; all calls but the last returned `true`; and when
    /// iteration stopped before the end, the last call returned `false`. With
    /// no Rich header present, `visit` is never called.
    pub fn iter_rich_entries<F: Fn(u32, u32) -> bool>(&self, visit: F) -> (n: usize)
        requires
            forall|i: int|
                0 <= i < self.rich_entries_seq().len() ==> #[trigger] call_requires(
                    visit,
                    (self.rich_entries_seq()[i].comp_id, self.rich_entries_seq()[i].count),
                ),
        ensures
            n <= self.rich_entries_seq().len(),
            exists|results: Seq<bool>| iteration_outcome(self.rich_entries_seq(), visit, n as int, results),
    {
        let entries = match self.image().rich.as_ref() {
            Some(h) => &h.entries,
            None => {
                proof {
                    let results = Seq::<bool>::empty();
                    assert(iteration_outcome(self.rich_entries_seq(), visit, 0, results));
                }
                return 0;
            },
        };
        let ghost es = self.rich_entries_seq();
        let mut idx: usize = 0;
        let mut go = true;
        let ghost mut results: Seq<bool> = Seq::empty();
        while go && idx < entries.len()
            invariant
                entries@ == es,
                forall|i: int|
                    0 <= i < es.len() ==> #[trigger] call_requires(
                        visit,
                        (es[i].comp_id, es[i].count),
                    ),
                idx <= es.len(),
                results.len() == idx,
                forall|i: int|
                    0 <= i < idx ==> #[trigger] call_ensures(
                        visit,
                        (es[i].comp_id, es[i].count),
                        results[i],
                    ),
                forall|i: int| 0 <= i < idx - 1 ==> results[i] == true,
                go ==> forall|i: int| 0 <= i < idx ==> results[i] == true,
                !go ==> idx >= 1 && results[idx - 1] == false,
            decreases es.len() - idx,
        {
            let entry = &entries[idx];
            let keep_going = visit(entry.comp_id, entry.count);
            proof {
                results = results.push(keep_going);
            }
            idx = idx + 1;
            if !keep_going {
                go = false;
            }
        }
        proof {
            assert(iteration_outcome(es, visit, idx as int, results));
        }
        idx
    }
}

/// What a finished iteration run looks like: `results` lists what the
/// callback returned on each of the `n` calls made; entries were visited in
/// order from the first; every call but the last answered `true`; and a run
/// that stopped short of the end did so because its last call answered
/// `false`.
pub open spec fn iteration_outcome<F: Fn(u32, u32) -> bool>(
    es: Seq<RichEntry>,
    visit: F,
    n: int,
    results: Seq<bool>,
) -> bool {
    &&& 0 <= n <= es.len()
    &&& results.len() == n
    &&& (forall|i: int|
        0 <= i < n ==> #[trigger] call_ensures(visit, (es[i].comp_id, es[i].count), results[i]))
    &&& (forall|i: int| 0 <= i < n - 1 ==> results[i] == true)
    &&& (n < es.len() ==> n >= 1 && results[n - 1] == false)
}

/// A buffer shorter than one DOS header is never accepted.
pub proof fn lemma_short_buffer_rejected(s: Seq<u8>)
    requires
        s.len() < DOS_HEADER_SIZE,
    ensures
        !creation_ok(s),
{
}

/// A buffer whose headers are in bounds and whose optional-header magic names
/// a bit width is accepted, and any parse of it reports exactly that width.
pub proof fn lemma_valid_magic_accepted(s: Seq<u8>, pe: PeFile)
    requires
        dos_header_ok(s),
        nt_headers_ok(s),
        optional_magic_spec(s) == OPTIONAL_MAGIC_32 || optional_magic_spec(s)
            == OPTIONAL_MAGIC_64,
        pe_matches(pe, s),
    ensures
        creation_ok(s),
        optional_magic_spec(s) == OPTIONAL_MAGIC_32 ==> pe is Pe32,
        optional_magic_spec(s) == OPTIONAL_MAGIC_64 ==> pe is Pe64,
{
}

/// Probing for a Rich header is idempotent and side-effect-free: the result
/// of `has_rich_header` is pinned to the parsed image alone, so any number of
/// calls on the same live file agree.
///
/// The premises are exactly what two calls' contracts yield.
pub proof fn lemma_has_rich_header_idempotent(pe: PeFile, first: bool, second: bool)
    requires
        first == (pe.image_spec().rich is Some),
        second == (pe.image_spec().rich is Some),
    ensures
        first == second,
{
}

/// When the callback is bound to answer `true` on every entry before the
/// `k`-th and `false` on the `k`-th, an iteration run makes exactly `k`
/// calls — never `k + 1`.
pub proof fn lemma_early_termination<F: Fn(u32, u32) -> bool>(
    es: Seq<RichEntry>,
    visit: F,
    n: int,
    results: Seq<bool>,
    k: int,
)
    requires
        iteration_outcome(es, visit, n, results),
        1 <= k <= es.len(),
        forall|i: int, r: bool|
            0 <= i < k - 1 && #[trigger] call_ensures(visit, (es[i].comp_id, es[i].count), r)
                ==> r == true,
        forall|r: bool|
            #[trigger] call_ensures(visit, (es[k - 1].comp_id, es[k - 1].count), r) ==> r
                == false,
    ensures
        n == k,
{
    if n > k {
        assert(call_ensures(visit, (es[k - 1].comp_id, es[k - 1].count), results[k - 1]));
        assert(results[k - 1] == true);
    }
    if n < k {
        assert(n < es.len() ==> results[n - 1] == false);
        if n < es.len() {
            assert(call_ensures(visit, (es[n - 1].comp_id, es[n - 1].count), results[n - 1]));
        }
    }
}

} // verus!
