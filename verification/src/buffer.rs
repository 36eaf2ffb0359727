//! Packing of quantized color channels into the `0x00RRGGBB` words that the
//! preview window's buffer expects. Quantization itself (clamping a
//! floating-point channel into `0 ..= 255`) happens on the renderer's side;
//! this module owns the exact bit layout.

use vstd::prelude::*;

verus! {

/// Packs the three 8-bit channels into one buffer word, red highest:
/// `red * 2^16 + green * 2^8 + blue`, which always fits in 24 bits.
pub fn pack_rgb(red: u8, green: u8, blue: u8) -> (word: u32)
    ensures
        word == red * 0x10000 + green * 0x100 + blue,
        word < 0x1000000,
{
    let r: u32 = red as u32;
    let g: u32 = green as u32;
    let b: u32 = blue as u32;
    proof {
        assert((r << 16u32) | (g << 8u32) | b == r * 0x10000 + g * 0x100 + b && (r << 16u32) | (
        g << 8u32) | b < 0x1000000) by (bit_vector)
            requires
                r < 0x100 && g < 0x100 && b < 0x100,
        ;
    }
    (r << 16) | (g << 8) | b
}

} // verus!
