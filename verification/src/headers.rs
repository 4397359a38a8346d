//! DOS and COFF headers, and what makes a buffer a well-formed PE image.
//!
//! A buffer is accepted when it is at least one DOS header long, starts with
//! the `MZ` magic, its offset-to-NT-headers field points at a `PE\0\0`
//! signature that fits in the buffer together with the COFF header and the
//! optional-header magic, and that magic names either the 32-bit or the 64-bit
//! layout. Anything else — truncation, a bad magic, an offset out of bounds —
//! is rejected as a whole; no partial parse is ever produced.

use vstd::prelude::*;

use crate::bytes::{read_u16_le, read_u32_le, u16_le_spec, u32_le_spec};

verus! {

/// The `MZ` magic that opens a DOS header.
pub const DOS_MAGIC: u16 = 0x5A4D;

/// The size of a DOS header in bytes; shorter buffers are never an image.
pub const DOS_HEADER_SIZE: usize = 64;

/// The offset of the DOS header field holding the offset to the NT headers.
pub const NT_OFFSET_FIELD: usize = 60;

/// The `PE\0\0` signature that opens the NT headers.
pub const PE_SIGNATURE: u32 = 0x4550;

/// The optional-header magic of a 32-bit image.
pub const OPTIONAL_MAGIC_32: u16 = 0x10B;

/// The optional-header magic of a 64-bit image.
pub const OPTIONAL_MAGIC_64: u16 = 0x20B;

/// The fields of the DOS header that the parse reads: its magic and the
/// offset to the NT headers.
#[derive(Clone, Copy, Debug, PartialEq, Eq, Structural)]
pub struct DosHeader {
    pub e_magic: u16,
    pub e_lfanew: u32,
}

/// The COFF file header embedded in the NT headers.
#[derive(Clone, Copy, Debug, PartialEq, Eq, Structural)]
pub struct CoffHeader {
    pub machine: u16,
    pub number_of_sections: u16,
    pub time_date_stamp: u32,
    pub pointer_to_symbol_table: u32,
    pub number_of_symbols: u32,
    pub size_of_optional_header: u16,
    pub characteristics: u16,
}

/// The offset to the NT headers that the DOS header of `s` advertises.
pub open spec fn nt_offset_spec(s: Seq<u8>) -> int {
    u32_le_spec(s, NT_OFFSET_FIELD as int) as int
}

/// Whether `s` holds a full DOS header opening with the `MZ` magic.
pub open spec fn dos_header_ok(s: Seq<u8>) -> bool {
    &&& s.len() >= DOS_HEADER_SIZE
    &&& u16_le_spec(s, 0) == DOS_MAGIC
}

/// Whether the advertised NT headers fit in `s` and open with `PE\0\0`.
///
/// Room is needed for the signature, the COFF header, and the two
/// optional-header magic bytes that discriminate the bit width.
pub open spec fn nt_headers_ok(s: Seq<u8>) -> bool {
    &&& nt_offset_spec(s) + 26 <= s.len()
    &&& u32_le_spec(s, nt_offset_spec(s)) == PE_SIGNATURE
}

/// The optional-header magic stored just past the COFF header of `s`.
pub open spec fn optional_magic_spec(s: Seq<u8>) -> u16 {
    u16_le_spec(s, nt_offset_spec(s) + 24)
}

/// Whether creation accepts `s`: a well-formed DOS header, NT headers in
/// bounds, and an optional-header magic naming one of the two bit widths.
pub open spec fn creation_ok(s: Seq<u8>) -> bool {
    &&& dos_header_ok(s)
    &&& nt_headers_ok(s)
    &&& (optional_magic_spec(s) == OPTIONAL_MAGIC_32 || optional_magic_spec(s)
        == OPTIONAL_MAGIC_64)
}

/// The DOS header fields of `s`.
pub open spec fn dos_header_spec(s: Seq<u8>) -> DosHeader {
    DosHeader { e_magic: u16_le_spec(s, 0), e_lfanew: u32_le_spec(s, NT_OFFSET_FIELD as int) }
}

/// The COFF header fields of `s`, laid out right after the `PE\0\0` signature.
pub open spec fn coff_header_spec(s: Seq<u8>) -> CoffHeader {
    let nt = nt_offset_spec(s);
    CoffHeader {
        machine: u16_le_spec(s, nt + 4),
        number_of_sections: u16_le_spec(s, nt + 6),
        time_date_stamp: u32_le_spec(s, nt + 8),
        pointer_to_symbol_table: u32_le_spec(s, nt + 12),
        number_of_symbols: u32_le_spec(s, nt + 16),
        size_of_optional_header: u16_le_spec(s, nt + 20),
        characteristics: u16_le_spec(s, nt + 22),
    }
}

/// Reads the COFF header at NT offset `nt` of `data`.
pub fn read_coff_header(data: &[u8], nt: usize) -> (h: CoffHeader)
    requires
        nt + 26 <= data@.len(),
        nt == nt_offset_spec(data@),
    ensures
        h == coff_header_spec(data@),
{
    let _len: usize = data.len();
    CoffHeader {
        machine: read_u16_le(data, nt + 4),
        number_of_sections: read_u16_le(data, nt + 6),
        time_date_stamp: read_u32_le(data, nt + 8),
        pointer_to_symbol_table: read_u32_le(data, nt + 12),
        number_of_symbols: read_u32_le(data, nt + 16),
        size_of_optional_header: read_u16_le(data, nt + 20),
        characteristics: read_u16_le(data, nt + 22),
    }
}

} // verus!
