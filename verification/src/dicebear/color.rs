//! 8-bit RGB colors in the packed `0xrrggbb` form DiceBear palettes use.

use vstd::prelude::*;

use crate::text::{hex_digits, push_char, push_hex};

verus! {

/// An 8-bit-per-channel RGB color. [`Rgb8::to_hex`] renders the `#rrggbb`
/// form DiceBear emits.
#[derive(Clone, Copy, Debug, PartialEq, Eq, Structural)]
pub struct Rgb8 {
    r: u8,
    g: u8,
    b: u8,
}

impl View for Rgb8 {
    /// The packed 24-bit value `0xrrggbb`.
    type V = nat;

    closed spec fn view(&self) -> nat {
        (self.r * 65536 + self.g * 256 + self.b) as nat
    }
}

/// A color's packed form fits in 24 bits and identifies the color: two
/// colors are equal exactly when their packed values are.
pub proof fn law_packed_form_identifies_color(a: Rgb8, b: Rgb8)
    ensures
        a@ < 0x0100_0000,
        (a@ == b@) <==> (a == b),
{
}

/// The `#rrggbb` text of a packed color.
pub open spec fn hex_text(packed: nat) -> Seq<char> {
    seq!['#'] + hex_digits(packed, 6)
}

impl Rgb8 {
    /// Builds a color from its packed 24-bit form (`0xrrggbb`).
    pub fn from_u24(value: u32) -> (c: Self)
        requires
            value < 0x0100_0000,
        ensures
            c@ == value,
    {
        Rgb8 { r: (value / 65536) as u8, g: ((value / 256) % 256) as u8, b: (value % 256) as u8 }
    }

    /// The packed 24-bit form (`0xrrggbb`).
    pub fn to_u24(self) -> (v: u32)
        ensures
            v == self@,
    {
        self.r as u32 * 65536 + self.g as u32 * 256 + self.b as u32
    }

    /// The `#rrggbb` form, lowercase and zero-padded.
    pub fn to_hex(&self) -> (s: String)
        ensures
            s@ == hex_text(self@),
    {
        let mut s = String::new();
        push_char(&mut s, '#');
        push_hex(&mut s, self.to_u24(), 6);
        s
    }
}

} // verus!
