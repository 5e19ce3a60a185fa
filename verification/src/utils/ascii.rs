//! Lower case for the ASCII letters of a byte string.

use vstd::prelude::*;

verus! {

/// The lower-case form of an ASCII capital; any other byte is left as it is.
pub open spec fn spec_lowercase_byte(byte: u8) -> u8 {
    if 0x41 <= byte <= 0x5A {
        (byte + 0x20) as u8
    } else {
        byte
    }
}

/// The bytes of `bytes`, each ASCII capital among them in lower case. On
/// UTF-8 text this changes the letters `A` to `Z` and nothing else.
pub open spec fn spec_to_ascii_lowercase(bytes: Seq<u8>) -> Seq<u8> {
    Seq::new(bytes.len(), |position: int| spec_lowercase_byte(bytes[position]))
}

/// Copies `bytes` with each ASCII capital in lower case.
pub fn to_ascii_lowercase(bytes: &[u8]) -> (lowered: Vec<u8>)
    ensures
        lowered@ == spec_to_ascii_lowercase(bytes@),
{
    let mut lowered: Vec<u8> = Vec::new();
    let mut position: usize = 0;
    while position < bytes.len()
        invariant
            position <= bytes@.len(),
            lowered@ == spec_to_ascii_lowercase(bytes@.take(position as int)),
        decreases bytes@.len() - position,
    {
        let byte: u8 = bytes[position];
        lowered.push(if 0x41 <= byte && byte <= 0x5A { byte + 0x20 } else { byte });
        position += 1;
    }
    lowered
}

} // verus!
