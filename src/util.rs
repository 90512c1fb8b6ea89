//! Character encoding for the keyboard layer.
use vstd::prelude::*;

verus! {

/// The UTF-8 bytes of the scalar value `c`.
pub open spec fn utf8_of(c: nat) -> Seq<u8> {
    if c < 0x80 {
        seq![c as u8]
    } else if c < 0x800 {
        seq![(0xC0 + c / 0x40) as u8, (0x80 + c % 0x40) as u8]
    } else if c < 0x10000 {
        seq![(0xE0 + c / 0x1000) as u8, (0x80 + (c / 0x40) % 0x40) as u8, (0x80 + c % 0x40) as u8]
    } else {
        seq![
            (0xF0 + c / 0x40000) as u8,
            (0x80 + (c / 0x1000) % 0x40) as u8,
            (0x80 + (c / 0x40) % 0x40) as u8,
            (0x80 + c % 0x40) as u8,
        ]
    }
}

/// The UTF-8 encoding of `c`: one to four bytes.
pub fn encode_char(c: char) -> (r: Vec<u8>)
    ensures
        r@ == utf8_of(c as nat),
        1 <= r@.len() <= 4,
{
    let v = c as u32;
    let mut buf: Vec<u8> = Vec::with_capacity(4);
    if v < 0x80 {
        buf.push(v as u8);
    } else if v < 0x800 {
        buf.push((0xC0 + v / 0x40) as u8);
        buf.push((0x80 + v % 0x40) as u8);
    } else if v < 0x10000 {
        buf.push((0xE0 + v / 0x1000) as u8);
        buf.push((0x80 + (v / 0x40) % 0x40) as u8);
        buf.push((0x80 + v % 0x40) as u8);
    } else {
        buf.push((0xF0 + v / 0x40000) as u8);
        buf.push((0x80 + (v / 0x1000) % 0x40) as u8);
        buf.push((0x80 + (v / 0x40) % 0x40) as u8);
        buf.push((0x80 + v % 0x40) as u8);
    }
    assert(buf@ =~= utf8_of(c as nat));
    buf
}

} // verus!
