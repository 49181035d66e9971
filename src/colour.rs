//! Palette entries and the byte layout of one pixel.

use vstd::prelude::*;

verus! {

/// One palette entry. The channels may hold values wider than a byte; only the
/// low eight bits of each are written to the pixel buffer.
#[derive(Clone, Copy, Debug, PartialEq, Eq, Structural)]
pub struct Colour {
    pub red: u32,
    pub green: u32,
    pub blue: u32,
}

/// The memory layout that the display surface expects of a 32-bit pixel.
#[derive(Clone, Copy, Debug, PartialEq, Eq, Structural)]
pub enum ByteOrder {
    /// Bytes in memory: red, green, blue, alpha.
    Little,
    /// Bytes in memory: alpha, blue, green, red.
    Big,
}

/// The alpha byte of every pixel: fully opaque.
pub const OPAQUE: u8 = 0xff;

/// The four bytes that stand for `colour` in a buffer of the given byte order.
pub open spec fn pixel_spec(colour: Colour, order: ByteOrder) -> Seq<u8> {
    match order {
        ByteOrder::Little => seq![colour.red as u8, colour.green as u8, colour.blue as u8, OPAQUE],
        ByteOrder::Big => seq![OPAQUE, colour.blue as u8, colour.green as u8, colour.red as u8],
    }
}

/// Appends the four bytes of one opaque pixel of `colour` to `buffer`.
pub fn push_pixel(buffer: &mut Vec<u8>, colour: Colour, order: ByteOrder)
    ensures
        final(buffer)@ == old(buffer)@ + pixel_spec(colour, order),
{
    let red = colour.red as u8;
    let green = colour.green as u8;
    let blue = colour.blue as u8;
    match order {
        ByteOrder::Little => {
            buffer.push(red);
            buffer.push(green);
            buffer.push(blue);
            buffer.push(OPAQUE);
        },
        ByteOrder::Big => {
            buffer.push(OPAQUE);
            buffer.push(blue);
            buffer.push(green);
            buffer.push(red);
        },
    }
    assert(buffer@ =~= old(buffer)@ + pixel_spec(colour, order));
}

} // verus!
