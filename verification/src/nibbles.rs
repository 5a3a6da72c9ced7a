//! Unpacking a 20-byte address into its 40 nibbles.

use vstd::prelude::*;

verus! {

/// Number of bytes in a derived contract address.
pub const ADDRESS_BYTES: usize = 20;

/// Number of nibbles in a derived contract address.
pub const NIBBLE_COUNT: usize = 40;

/// The single failure mode of the scoring core: the input buffer does not
/// hold exactly 20 bytes.
#[derive(Clone, Copy, Debug, PartialEq, Eq, Structural)]
pub enum ScoreError {
    InvalidAddressLength,
}

/// The nibble sequence of a byte sequence: element `2*i` is the high four
/// bits of byte `i`, element `2*i + 1` its low four bits, so that index 0 is
/// the most significant nibble of the address.
pub open spec fn nibbles_of(bytes: Seq<u8>) -> Seq<u8> {
    Seq::new(
        bytes.len() * 2,
        |i: int| if i % 2 == 0 { bytes[i / 2] >> 4u8 } else { bytes[i / 2] & 0x0fu8 },
    )
}

/// Unpacks an address into its 40 nibbles, most significant nibble first.
/// Only a 20-byte input is valid; any other length is rejected.
pub fn decode_nibbles(address: &[u8]) -> (r: Result<Vec<u8>, ScoreError>)
    ensures
        match r {
            Ok(nibbles) => {
                &&& address@.len() == ADDRESS_BYTES
                &&& nibbles@ == nibbles_of(address@)
                &&& nibbles@.len() == NIBBLE_COUNT
                &&& forall|i: int| 0 <= i < nibbles@.len() ==> nibbles@[i] < 16
            },
            Err(e) => address@.len() != ADDRESS_BYTES && e == ScoreError::InvalidAddressLength,
        },
{
    if address.len() != ADDRESS_BYTES {
        return Err(ScoreError::InvalidAddressLength);
    }
    let mut nibbles: Vec<u8> = Vec::new();
    let mut i: usize = 0;
    while i < ADDRESS_BYTES
        invariant
            i <= ADDRESS_BYTES,
            address@.len() == ADDRESS_BYTES,
            nibbles@.len() == 2 * i,
            forall|j: int| 0 <= j < 2 * i ==> nibbles@[j] == nibbles_of(address@)[j],
            forall|j: int| 0 <= j < 2 * i ==> nibbles@[j] < 16,
        decreases ADDRESS_BYTES - i,
    {
        let byte = address[i];
        let hi = byte >> 4u8;
        let lo = byte & 0x0fu8;
        proof {
            assert(byte >> 4u8 < 16 && byte & 0x0fu8 < 16) by (bit_vector);
        }
        nibbles.push(hi);
        nibbles.push(lo);
        i += 1;
    }
    proof {
        assert(nibbles@ =~= nibbles_of(address@));
    }
    Ok(nibbles)
}

} // verus!
