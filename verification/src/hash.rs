//! The djb2 byte-fold used to fingerprint the pose set.

use vstd::prelude::*;

verus! {

/// One djb2 step: `h * 33 + b`, with 32-bit wraparound.
pub open spec fn djb2_step(h: u32, b: u8) -> u32 {
    (((h as int) * 33 + (b as int)) % 0x1_0000_0000) as u32
}

/// Folding a whole byte sequence into the accumulator, front to back.
pub open spec fn djb2_fold(h: u32, s: Seq<u8>) -> u32
    decreases s.len(),
{
    if s.len() == 0 {
        h
    } else {
        djb2_fold(djb2_step(h, s[0]), s.subrange(1, s.len() as int))
    }
}

/// Folds `data` into the accumulator `hash` byte by byte:
/// each byte `b` turns `h` into `h * 33 + b` modulo 2^32.
pub fn djb2_hash(hash: u32, data: &Vec<u8>) -> (r: u32)
    ensures
        r == djb2_fold(hash, data@),
{
    let mut h: u32 = hash;
    let mut i: usize = 0;
    assert(data@.subrange(0, data@.len() as int) =~= data@);
    while i < data.len()
        invariant
            0 <= i <= data@.len(),
            djb2_fold(hash, data@) == djb2_fold(h, data@.subrange(i as int, data@.len() as int)),
        decreases data@.len() - i,
    {
        let b: u8 = data[i];
        let ghost rest = data@.subrange(i as int, data@.len() as int);
        let h64: u64 = (h as u64) * 33 + (b as u64);
        let h2: u32 = #[verifier::truncate] (h64 as u32);
        proof {
            assert(h64 == (h as int) * 33 + (b as int));
            assert(h2 as u64 == h64 % 0x1_0000_0000u64) by (bit_vector)
                requires
                    h2 == h64 as u32,
            ;
            assert(h2 == djb2_step(h, b));
        }
        proof {
            assert(rest[0] == b);
            assert(rest.subrange(1, rest.len() as int)
                =~= data@.subrange(i + 1, data@.len() as int));
        }
        h = h2;
        i = i + 1;
    }
    h
}

} // verus!
