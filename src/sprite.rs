use vstd::prelude::*;

verus! {

/// Bit `j` of `b`, counting from the most significant bit (`j == 0`) down.
pub open spec fn msb_bit(b: u8, j: int) -> bool {
    0 <= j < 8 && (b >> ((7 - j) as u8)) & 1 == 1
}

/// Expands a byte into eight pixels, most significant bit first.
pub fn u8_to_8_bools(input: u8) -> (r: [bool; 8])
    ensures
        forall|j: int| 0 <= j < 8 ==> r[j] == msb_bit(input, j),
{
    let mut ret = [false; 8];
    let mut i: usize = 0;
    while i < 8
        invariant
            i <= 8,
            forall|j: int| 0 <= j < i ==> ret[j] == msb_bit(input, j),
        decreases 8 - i,
    {
        let shift: u8 = 7 - i as u8;
        let bit = (input >> shift) & 1 == 1;
        ret[i] = bit;
        i = i + 1;
    }
    ret
}

} // verus!
