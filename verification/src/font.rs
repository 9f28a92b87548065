//! Fixed 6x8 glyph table for the printable ASCII range.
//!
//! Each entry is six column bytes of a 6x8 glyph cell, indexed by
//! character code from 0x20 upward; bit `b` of a column byte is the
//! pixel `b` rows below the cell's top.

use vstd::prelude::*;

verus! {

/// The six column bytes of the glyph cell for character code `c`.
/// Codes outside the printable window fall back to a blank cell.
pub open spec fn glyph_spec(c: u8) -> Seq<u8> {
    match c {
        0x20 => seq![0x00u8, 0x00u8, 0x00u8, 0x00u8, 0x00u8, 0x00u8],
        0x21 => seq![0x00u8, 0x00u8, 0x2fu8, 0x00u8, 0x00u8, 0x00u8],
        0x22 => seq![0x00u8, 0x07u8, 0x00u8, 0x07u8, 0x00u8, 0x00u8],
        0x23 => seq![0x14u8, 0x7fu8, 0x14u8, 0x7fu8, 0x14u8, 0x00u8],
        0x24 => seq![0x24u8, 0x2au8, 0x7fu8, 0x2au8, 0x12u8, 0x00u8],
        0x25 => seq![0x23u8, 0x13u8, 0x08u8, 0x64u8, 0x62u8, 0x00u8],
        0x26 => seq![0x36u8, 0x49u8, 0x55u8, 0x22u8, 0x50u8, 0x00u8],
        0x27 => seq![0x00u8, 0x05u8, 0x03u8, 0x00u8, 0x00u8, 0x00u8],
        0x28 => seq![0x00u8, 0x1cu8, 0x22u8, 0x41u8, 0x00u8, 0x00u8],
        0x29 => seq![0x00u8, 0x41u8, 0x22u8, 0x1cu8, 0x00u8, 0x00u8],
        0x2a => seq![0x14u8, 0x08u8, 0x3eu8, 0x08u8, 0x14u8, 0x00u8],
        0x2b => seq![0x08u8, 0x08u8, 0x3eu8, 0x08u8, 0x08u8, 0x00u8],
        0x2c => seq![0x00u8, 0x50u8, 0x30u8, 0x00u8, 0x00u8, 0x00u8],
        0x2d => seq![0x08u8, 0x08u8, 0x08u8, 0x08u8, 0x08u8, 0x00u8],
        0x2e => seq![0x00u8, 0x60u8, 0x60u8, 0x00u8, 0x00u8, 0x00u8],
        0x2f => seq![0x20u8, 0x10u8, 0x08u8, 0x04u8, 0x02u8, 0x00u8],
        0x30 => seq![0x3eu8, 0x51u8, 0x49u8, 0x45u8, 0x3eu8, 0x00u8],
        0x31 => seq![0x00u8, 0x42u8, 0x7fu8, 0x40u8, 0x00u8, 0x00u8],
        0x32 => seq![0x42u8, 0x61u8, 0x51u8, 0x49u8, 0x46u8, 0x00u8],
        0x33 => seq![0x21u8, 0x41u8, 0x45u8, 0x4bu8, 0x31u8, 0x00u8],
        0x34 => seq![0x18u8, 0x14u8, 0x12u8, 0x7fu8, 0x10u8, 0x00u8],
        0x35 => seq![0x27u8, 0x45u8, 0x45u8, 0x45u8, 0x39u8, 0x00u8],
        0x36 => seq![0x3cu8, 0x4au8, 0x49u8, 0x49u8, 0x30u8, 0x00u8],
        0x37 => seq![0x01u8, 0x71u8, 0x09u8, 0x05u8, 0x03u8, 0x00u8],
        0x38 => seq![0x36u8, 0x49u8, 0x49u8, 0x49u8, 0x36u8, 0x00u8],
        0x39 => seq![0x06u8, 0x49u8, 0x49u8, 0x29u8, 0x1eu8, 0x00u8],
        0x3a => seq![0x00u8, 0x36u8, 0x36u8, 0x00u8, 0x00u8, 0x00u8],
        0x3b => seq![0x00u8, 0x56u8, 0x36u8, 0x00u8, 0x00u8, 0x00u8],
        0x3c => seq![0x08u8, 0x14u8, 0x22u8, 0x41u8, 0x00u8, 0x00u8],
        0x3d => seq![0x14u8, 0x14u8, 0x14u8, 0x14u8, 0x14u8, 0x00u8],
        0x3e => seq![0x00u8, 0x41u8, 0x22u8, 0x14u8, 0x08u8, 0x00u8],
        0x3f => seq![0x02u8, 0x01u8, 0x51u8, 0x09u8, 0x06u8, 0x00u8],
        0x40 => seq![0x32u8, 0x49u8, 0x59u8, 0x51u8, 0x3eu8, 0x00u8],
        0x41 => seq![0x7cu8, 0x12u8, 0x11u8, 0x12u8, 0x7cu8, 0x00u8],
        0x42 => seq![0x7fu8, 0x49u8, 0x49u8, 0x49u8, 0x36u8, 0x00u8],
        0x43 => seq![0x3eu8, 0x41u8, 0x41u8, 0x41u8, 0x22u8, 0x00u8],
        0x44 => seq![0x7fu8, 0x41u8, 0x41u8, 0x22u8, 0x1cu8, 0x00u8],
        0x45 => seq![0x7fu8, 0x49u8, 0x49u8, 0x49u8, 0x41u8, 0x00u8],
        0x46 => seq![0x7fu8, 0x09u8, 0x09u8, 0x09u8, 0x01u8, 0x00u8],
        0x47 => seq![0x3eu8, 0x41u8, 0x49u8, 0x49u8, 0x7au8, 0x00u8],
        0x48 => seq![0x7fu8, 0x08u8, 0x08u8, 0x08u8, 0x7fu8, 0x00u8],
        0x49 => seq![0x00u8, 0x41u8, 0x7fu8, 0x41u8, 0x00u8, 0x00u8],
        0x4a => seq![0x20u8, 0x40u8, 0x41u8, 0x3fu8, 0x01u8, 0x00u8],
        0x4b => seq![0x7fu8, 0x08u8, 0x14u8, 0x22u8, 0x41u8, 0x00u8],
        0x4c => seq![0x7fu8, 0x40u8, 0x40u8, 0x40u8, 0x40u8, 0x00u8],
        0x4d => seq![0x7fu8, 0x02u8, 0x0cu8, 0x02u8, 0x7fu8, 0x00u8],
        0x4e => seq![0x7fu8, 0x04u8, 0x08u8, 0x10u8, 0x7fu8, 0x00u8],
        0x4f => seq![0x3eu8, 0x41u8, 0x41u8, 0x41u8, 0x3eu8, 0x00u8],
        0x50 => seq![0x7fu8, 0x09u8, 0x09u8, 0x09u8, 0x06u8, 0x00u8],
        0x51 => seq![0x3eu8, 0x41u8, 0x51u8, 0x21u8, 0x5eu8, 0x00u8],
        0x52 => seq![0x7fu8, 0x09u8, 0x19u8, 0x29u8, 0x46u8, 0x00u8],
        0x53 => seq![0x46u8, 0x49u8, 0x49u8, 0x49u8, 0x31u8, 0x00u8],
        0x54 => seq![0x01u8, 0x01u8, 0x7fu8, 0x01u8, 0x01u8, 0x00u8],
        0x55 => seq![0x3fu8, 0x40u8, 0x40u8, 0x40u8, 0x3fu8, 0x00u8],
        0x56 => seq![0x1fu8, 0x20u8, 0x40u8, 0x20u8, 0x1fu8, 0x00u8],
        0x57 => seq![0x3fu8, 0x40u8, 0x38u8, 0x40u8, 0x3fu8, 0x00u8],
        0x58 => seq![0x63u8, 0x14u8, 0x08u8, 0x14u8, 0x63u8, 0x00u8],
        0x59 => seq![0x07u8, 0x08u8, 0x70u8, 0x08u8, 0x07u8, 0x00u8],
        0x5a => seq![0x61u8, 0x51u8, 0x49u8, 0x45u8, 0x43u8, 0x00u8],
        0x5b => seq![0x00u8, 0x7fu8, 0x41u8, 0x41u8, 0x00u8, 0x00u8],
        0x5c => seq![0x02u8, 0x04u8, 0x08u8, 0x10u8, 0x20u8, 0x00u8],
        0x5d => seq![0x00u8, 0x41u8, 0x41u8, 0x7fu8, 0x00u8, 0x00u8],
        0x5e => seq![0x04u8, 0x02u8, 0x01u8, 0x02u8, 0x04u8, 0x00u8],
        0x5f => seq![0x40u8, 0x40u8, 0x40u8, 0x40u8, 0x40u8, 0x00u8],
        0x60 => seq![0x00u8, 0x01u8, 0x02u8, 0x04u8, 0x00u8, 0x00u8],
        0x61 => seq![0x20u8, 0x54u8, 0x54u8, 0x54u8, 0x78u8, 0x00u8],
        0x62 => seq![0x7fu8, 0x48u8, 0x44u8, 0x44u8, 0x38u8, 0x00u8],
        0x63 => seq![0x38u8, 0x44u8, 0x44u8, 0x44u8, 0x20u8, 0x00u8],
        0x64 => seq![0x38u8, 0x44u8, 0x44u8, 0x48u8, 0x7fu8, 0x00u8],
        0x65 => seq![0x38u8, 0x54u8, 0x54u8, 0x54u8, 0x18u8, 0x00u8],
        0x66 => seq![0x08u8, 0x7eu8, 0x09u8, 0x01u8, 0x02u8, 0x00u8],
        0x67 => seq![0x0cu8, 0x52u8, 0x52u8, 0x52u8, 0x3eu8, 0x00u8],
        0x68 => seq![0x7fu8, 0x08u8, 0x04u8, 0x04u8, 0x78u8, 0x00u8],
        0x69 => seq![0x00u8, 0x44u8, 0x7du8, 0x40u8, 0x00u8, 0x00u8],
        0x6a => seq![0x20u8, 0x40u8, 0x44u8, 0x3du8, 0x00u8, 0x00u8],
        0x6b => seq![0x7fu8, 0x10u8, 0x28u8, 0x44u8, 0x00u8, 0x00u8],
        0x6c => seq![0x00u8, 0x41u8, 0x7fu8, 0x40u8, 0x00u8, 0x00u8],
        0x6d => seq![0x7cu8, 0x04u8, 0x18u8, 0x04u8, 0x78u8, 0x00u8],
        0x6e => seq![0x7cu8, 0x08u8, 0x04u8, 0x04u8, 0x78u8, 0x00u8],
        0x6f => seq![0x38u8, 0x44u8, 0x44u8, 0x44u8, 0x38u8, 0x00u8],
        0x70 => seq![0x7cu8, 0x14u8, 0x14u8, 0x14u8, 0x08u8, 0x00u8],
        0x71 => seq![0x08u8, 0x14u8, 0x14u8, 0x18u8, 0x7cu8, 0x00u8],
        0x72 => seq![0x7cu8, 0x08u8, 0x04u8, 0x04u8, 0x08u8, 0x00u8],
        0x73 => seq![0x48u8, 0x54u8, 0x54u8, 0x54u8, 0x20u8, 0x00u8],
        0x74 => seq![0x04u8, 0x3fu8, 0x44u8, 0x40u8, 0x20u8, 0x00u8],
        0x75 => seq![0x3cu8, 0x40u8, 0x40u8, 0x20u8, 0x7cu8, 0x00u8],
        0x76 => seq![0x1cu8, 0x20u8, 0x40u8, 0x20u8, 0x1cu8, 0x00u8],
        0x77 => seq![0x3cu8, 0x40u8, 0x30u8, 0x40u8, 0x3cu8, 0x00u8],
        0x78 => seq![0x44u8, 0x28u8, 0x10u8, 0x28u8, 0x44u8, 0x00u8],
        0x79 => seq![0x0cu8, 0x50u8, 0x50u8, 0x50u8, 0x3cu8, 0x00u8],
        0x7a => seq![0x44u8, 0x64u8, 0x54u8, 0x4cu8, 0x44u8, 0x00u8],
        0x7b => seq![0x00u8, 0x08u8, 0x36u8, 0x41u8, 0x00u8, 0x00u8],
        0x7c => seq![0x00u8, 0x00u8, 0x7fu8, 0x00u8, 0x00u8, 0x00u8],
        0x7d => seq![0x00u8, 0x41u8, 0x36u8, 0x08u8, 0x00u8, 0x00u8],
        0x7e => seq![0x08u8, 0x04u8, 0x08u8, 0x10u8, 0x08u8, 0x00u8],
        0x7f => seq![0x00u8, 0x06u8, 0x09u8, 0x09u8, 0x06u8, 0x00u8],
        _ => seq![0x00u8, 0x00u8, 0x00u8, 0x00u8, 0x00u8, 0x00u8],
    }
}

/// Looks a glyph up by character code.
pub fn glyph(c: u8) -> (g: [u8; 6])
    requires
        0x20 <= c < 0x80,
    ensures
        g@ == glyph_spec(c),
{
    let g: [u8; 6] = match c {
        0x20 => [0x00, 0x00, 0x00, 0x00, 0x00, 0x00],
        0x21 => [0x00, 0x00, 0x2f, 0x00, 0x00, 0x00],
        0x22 => [0x00, 0x07, 0x00, 0x07, 0x00, 0x00],
        0x23 => [0x14, 0x7f, 0x14, 0x7f, 0x14, 0x00],
        0x24 => [0x24, 0x2a, 0x7f, 0x2a, 0x12, 0x00],
        0x25 => [0x23, 0x13, 0x08, 0x64, 0x62, 0x00],
        0x26 => [0x36, 0x49, 0x55, 0x22, 0x50, 0x00],
        0x27 => [0x00, 0x05, 0x03, 0x00, 0x00, 0x00],
        0x28 => [0x00, 0x1c, 0x22, 0x41, 0x00, 0x00],
        0x29 => [0x00, 0x41, 0x22, 0x1c, 0x00, 0x00],
        0x2a => [0x14, 0x08, 0x3e, 0x08, 0x14, 0x00],
        0x2b => [0x08, 0x08, 0x3e, 0x08, 0x08, 0x00],
        0x2c => [0x00, 0x50, 0x30, 0x00, 0x00, 0x00],
        0x2d => [0x08, 0x08, 0x08, 0x08, 0x08, 0x00],
        0x2e => [0x00, 0x60, 0x60, 0x00, 0x00, 0x00],
        0x2f => [0x20, 0x10, 0x08, 0x04, 0x02, 0x00],
        0x30 => [0x3e, 0x51, 0x49, 0x45, 0x3e, 0x00],
        0x31 => [0x00, 0x42, 0x7f, 0x40, 0x00, 0x00],
        0x32 => [0x42, 0x61, 0x51, 0x49, 0x46, 0x00],
        0x33 => [0x21, 0x41, 0x45, 0x4b, 0x31, 0x00],
        0x34 => [0x18, 0x14, 0x12, 0x7f, 0x10, 0x00],
        0x35 => [0x27, 0x45, 0x45, 0x45, 0x39, 0x00],
        0x36 => [0x3c, 0x4a, 0x49, 0x49, 0x30, 0x00],
        0x37 => [0x01, 0x71, 0x09, 0x05, 0x03, 0x00],
        0x38 => [0x36, 0x49, 0x49, 0x49, 0x36, 0x00],
        0x39 => [0x06, 0x49, 0x49, 0x29, 0x1e, 0x00],
        0x3a => [0x00, 0x36, 0x36, 0x00, 0x00, 0x00],
        0x3b => [0x00, 0x56, 0x36, 0x00, 0x00, 0x00],
        0x3c => [0x08, 0x14, 0x22, 0x41, 0x00, 0x00],
        0x3d => [0x14, 0x14, 0x14, 0x14, 0x14, 0x00],
        0x3e => [0x00, 0x41, 0x22, 0x14, 0x08, 0x00],
        0x3f => [0x02, 0x01, 0x51, 0x09, 0x06, 0x00],
        0x40 => [0x32, 0x49, 0x59, 0x51, 0x3e, 0x00],
        0x41 => [0x7c, 0x12, 0x11, 0x12, 0x7c, 0x00],
        0x42 => [0x7f, 0x49, 0x49, 0x49, 0x36, 0x00],
        0x43 => [0x3e, 0x41, 0x41, 0x41, 0x22, 0x00],
        0x44 => [0x7f, 0x41, 0x41, 0x22, 0x1c, 0x00],
        0x45 => [0x7f, 0x49, 0x49, 0x49, 0x41, 0x00],
        0x46 => [0x7f, 0x09, 0x09, 0x09, 0x01, 0x00],
        0x47 => [0x3e, 0x41, 0x49, 0x49, 0x7a, 0x00],
        0x48 => [0x7f, 0x08, 0x08, 0x08, 0x7f, 0x00],
        0x49 => [0x00, 0x41, 0x7f, 0x41, 0x00, 0x00],
        0x4a => [0x20, 0x40, 0x41, 0x3f, 0x01, 0x00],
        0x4b => [0x7f, 0x08, 0x14, 0x22, 0x41, 0x00],
        0x4c => [0x7f, 0x40, 0x40, 0x40, 0x40, 0x00],
        0x4d => [0x7f, 0x02, 0x0c, 0x02, 0x7f, 0x00],
        0x4e => [0x7f, 0x04, 0x08, 0x10, 0x7f, 0x00],
        0x4f => [0x3e, 0x41, 0x41, 0x41, 0x3e, 0x00],
        0x50 => [0x7f, 0x09, 0x09, 0x09, 0x06, 0x00],
        0x51 => [0x3e, 0x41, 0x51, 0x21, 0x5e, 0x00],
        0x52 => [0x7f, 0x09, 0x19, 0x29, 0x46, 0x00],
        0x53 => [0x46, 0x49, 0x49, 0x49, 0x31, 0x00],
        0x54 => [0x01, 0x01, 0x7f, 0x01, 0x01, 0x00],
        0x55 => [0x3f, 0x40, 0x40, 0x40, 0x3f, 0x00],
        0x56 => [0x1f, 0x20, 0x40, 0x20, 0x1f, 0x00],
        0x57 => [0x3f, 0x40, 0x38, 0x40, 0x3f, 0x00],
        0x58 => [0x63, 0x14, 0x08, 0x14, 0x63, 0x00],
        0x59 => [0x07, 0x08, 0x70, 0x08, 0x07, 0x00],
        0x5a => [0x61, 0x51, 0x49, 0x45, 0x43, 0x00],
        0x5b => [0x00, 0x7f, 0x41, 0x41, 0x00, 0x00],
        0x5c => [0x02, 0x04, 0x08, 0x10, 0x20, 0x00],
        0x5d => [0x00, 0x41, 0x41, 0x7f, 0x00, 0x00],
        0x5e => [0x04, 0x02, 0x01, 0x02, 0x04, 0x00],
        0x5f => [0x40, 0x40, 0x40, 0x40, 0x40, 0x00],
        0x60 => [0x00, 0x01, 0x02, 0x04, 0x00, 0x00],
        0x61 => [0x20, 0x54, 0x54, 0x54, 0x78, 0x00],
        0x62 => [0x7f, 0x48, 0x44, 0x44, 0x38, 0x00],
        0x63 => [0x38, 0x44, 0x44, 0x44, 0x20, 0x00],
        0x64 => [0x38, 0x44, 0x44, 0x48, 0x7f, 0x00],
        0x65 => [0x38, 0x54, 0x54, 0x54, 0x18, 0x00],
        0x66 => [0x08, 0x7e, 0x09, 0x01, 0x02, 0x00],
        0x67 => [0x0c, 0x52, 0x52, 0x52, 0x3e, 0x00],
        0x68 => [0x7f, 0x08, 0x04, 0x04, 0x78, 0x00],
        0x69 => [0x00, 0x44, 0x7d, 0x40, 0x00, 0x00],
        0x6a => [0x20, 0x40, 0x44, 0x3d, 0x00, 0x00],
        0x6b => [0x7f, 0x10, 0x28, 0x44, 0x00, 0x00],
        0x6c => [0x00, 0x41, 0x7f, 0x40, 0x00, 0x00],
        0x6d => [0x7c, 0x04, 0x18, 0x04, 0x78, 0x00],
        0x6e => [0x7c, 0x08, 0x04, 0x04, 0x78, 0x00],
        0x6f => [0x38, 0x44, 0x44, 0x44, 0x38, 0x00],
        0x70 => [0x7c, 0x14, 0x14, 0x14, 0x08, 0x00],
        0x71 => [0x08, 0x14, 0x14, 0x18, 0x7c, 0x00],
        0x72 => [0x7c, 0x08, 0x04, 0x04, 0x08, 0x00],
        0x73 => [0x48, 0x54, 0x54, 0x54, 0x20, 0x00],
        0x74 => [0x04, 0x3f, 0x44, 0x40, 0x20, 0x00],
        0x75 => [0x3c, 0x40, 0x40, 0x20, 0x7c, 0x00],
        0x76 => [0x1c, 0x20, 0x40, 0x20, 0x1c, 0x00],
        0x77 => [0x3c, 0x40, 0x30, 0x40, 0x3c, 0x00],
        0x78 => [0x44, 0x28, 0x10, 0x28, 0x44, 0x00],
        0x79 => [0x0c, 0x50, 0x50, 0x50, 0x3c, 0x00],
        0x7a => [0x44, 0x64, 0x54, 0x4c, 0x44, 0x00],
        0x7b => [0x00, 0x08, 0x36, 0x41, 0x00, 0x00],
        0x7c => [0x00, 0x00, 0x7f, 0x00, 0x00, 0x00],
        0x7d => [0x00, 0x41, 0x36, 0x08, 0x00, 0x00],
        0x7e => [0x08, 0x04, 0x08, 0x10, 0x08, 0x00],
        0x7f => [0x00, 0x06, 0x09, 0x09, 0x06, 0x00],
        _ => [0x00, 0x00, 0x00, 0x00, 0x00, 0x00],
    };
    proof {
        assert(g@ =~= glyph_spec(c));
    }
    g
}

} // verus!
