//! Sapling (ZIP32) seed preparation.

use vstd::prelude::*;
use crate::bip32::spec_u32_le_bytes;

verus! {

/// Length of a ZIP32 seed.
pub const ZIP32_SEED_LEN: usize = 32;

/// The fixed hardened derivation path whose components fill the seed.
pub open spec fn spec_zip32_path() -> Seq<u32> {
    seq![0x8000002cu32, 0x80000085u32, 0x8000_0000u32, 0x8000_0000u32, 0x8000_0000u32]
}

/// Fill a ZIP32 seed buffer: the five fixed path components as
/// little-endian bytes, the rest zeroed.
pub fn fill_sapling_seed(zip32_seed: &mut Vec<u8>)
    requires
        old(zip32_seed)@.len() == ZIP32_SEED_LEN,
    ensures
        final(zip32_seed)@.len() == ZIP32_SEED_LEN,
        forall|c: int, k: int|
            0 <= c < 5 && 0 <= k < 4 ==> final(zip32_seed)@[4 * c + k] == spec_u32_le_bytes(
                spec_zip32_path()[c],
            )[k],
        forall|i: int| 20 <= i < 32 ==> final(zip32_seed)@[i] == 0u8,
{
    let path: [u32; 5] = [0x8000002c, 0x80000085, 0x8000_0000, 0x8000_0000, 0x8000_0000];
    let mut c: usize = 0;
    while c < 5
        invariant
            c <= 5,
            path@ == spec_zip32_path(),
            zip32_seed@.len() == ZIP32_SEED_LEN,
            forall|cc: int, k: int|
                0 <= cc < c && 0 <= k < 4 ==> zip32_seed@[4 * cc + k] == spec_u32_le_bytes(
                    spec_zip32_path()[cc],
                )[k],
        decreases 5 - c,
    {
        let v = path[c];
        zip32_seed.set(4 * c, (v % 256) as u8);
        zip32_seed.set(4 * c + 1, ((v / 256) % 256) as u8);
        zip32_seed.set(4 * c + 2, ((v / 65536) % 256) as u8);
        zip32_seed.set(4 * c + 3, ((v / 16777216) % 256) as u8);
        c += 1;
    }
    let mut i: usize = 20;
    while i < 32
        invariant
            20 <= i <= 32,
            zip32_seed@.len() == ZIP32_SEED_LEN,
            forall|cc: int, k: int|
                0 <= cc < 5 && 0 <= k < 4 ==> zip32_seed@[4 * cc + k] == spec_u32_le_bytes(
                    spec_zip32_path()[cc],
                )[k],
            forall|j: int| 20 <= j < i ==> zip32_seed@[j] == 0u8,
        decreases 32 - i,
    {
        zip32_seed.set(i, 0);
        i += 1;
    }
}

} // verus!
