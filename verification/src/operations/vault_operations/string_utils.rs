//! Fixed-width names.
use vstd::prelude::*;

verus! {

/// The first 40 bytes of `bytes`, followed by zeros up to a length of 40.
pub open spec fn padded_to_40(bytes: Seq<u8>) -> Seq<u8> {
    Seq::new(
        40,
        |i: int|
            if i < bytes.len() {
                bytes[i]
            } else {
                0u8
            },
    )
}

/// Copies a name into a 40-byte field: longer names are cut, shorter ones
/// filled up with zeros.
pub fn slice_to_array_padded(slice: &[u8]) -> (r: [u8; 40])
    ensures
        r@ == padded_to_40(slice@),
{
    let mut array: [u8; 40] = [0u8;40];
    let mut i: usize = 0;
    while i < 40 && i < slice.len()
        invariant
            i <= 40,
            i <= slice@.len(),
            forall|j: int| 0 <= j < i ==> array[j] == slice@[j],
            forall|j: int| i <= j < 40 ==> array[j] == 0,
        decreases 40 - i,
    {
        array[i] = slice[i];
        i = i + 1;
    }
    assert(array@ =~= padded_to_40(slice@));
    array
}

} // verus!
