//! Lower-case hexadecimal rendering of bytes, for diagnostics on the host link.

use vstd::prelude::*;

verus! {

/// The ASCII lower-case hex digit of a nibble.
pub open spec fn hex_digit(n: u8) -> u8 {
    if n > 9 {
        (n + 87) as u8
    } else {
        (n + 48) as u8
    }
}

/// Two hex digits per byte, high nibble first.
pub open spec fn hex_of(data: Seq<u8>) -> Seq<u8>
    decreases data.len(),
{
    if data.len() == 0 {
        Seq::empty()
    } else {
        let b = data.last();
        hex_of(data.drop_last()) + seq![hex_digit(b >> 4u8), hex_digit(b & 0x0f)]
    }
}

/// The hex digit of a nibble.
pub fn byte_to_half_hex(n: u8) -> (r: u8)
    requires
        n < 16,
    ensures
        r == hex_digit(n),
{
    if n > 9 {
        n + 87
    } else {
        n + 48
    }
}

/// The hex rendering of `data`.
pub fn write_to_hex(data: &[u8]) -> (r: Vec<u8>)
    ensures
        r@ == hex_of(data@),
{
    let mut out: Vec<u8> = Vec::new();
    let mut i: usize = 0;
    while i < data.len()
        invariant
            i <= data@.len(),
            out@ == hex_of(data@.subrange(0, i as int)),
        decreases data@.len() - i,
    {
        let b = data[i];
        assert(b >> 4u8 < 16u8) by (bit_vector);
        assert(b & 0x0f < 16u8) by (bit_vector);
        let ghost before = out@;
        out.push(byte_to_half_hex(b >> 4u8));
        out.push(byte_to_half_hex(b & 0x0f));
        assert(data@.subrange(0, i + 1).drop_last() =~= data@.subrange(0, i as int));
        i = i + 1;
        assert(out@ =~= before + seq![hex_digit(b >> 4u8), hex_digit(b & 0x0f)]);
    }
    assert(data@.subrange(0, data@.len() as int) =~= data@);
    out
}

} // verus!
