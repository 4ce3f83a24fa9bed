//! BIP32-style hierarchical derivation paths.

use vstd::prelude::*;
use crate::crypto::Error;

verus! {

/// An ordered sequence of up to `B` 32-bit components (hardened or not)
/// naming a position in a hierarchical-deterministic key tree. Immutable
/// once constructed; the length is validated at construction.
pub struct BIP32Path<const B: usize> {
    components: Vec<u32>,
}

impl<const B: usize> View for BIP32Path<B> {
    type V = Seq<u32>;

    closed spec fn view(&self) -> Seq<u32> {
        self.components@
    }
}

impl<const B: usize> BIP32Path<B> {
    /// Build a path from its components; rejects more than `B` of them.
    pub fn new(components: Vec<u32>) -> (r: Result<Self, Error>)
        ensures
            components@.len() <= B ==> (r matches Ok(p) && p@ == components@),
            components@.len() > B ==> r == Err::<BIP32Path<B>, _>(Error::InvalidParameter),
    {
        if components.len() > B {
            return Err(Error::InvalidParameter);
        }
        Ok(BIP32Path { components })
    }

    /// The path's components, in order.
    pub fn components(&self) -> (r: &Vec<u32>)
        ensures
            r@ == self@,
    {
        &self.components
    }

    /// How many components the path has.
    pub fn len(&self) -> (r: usize)
        ensures
            r == self@.len(),
    {
        self.components.len()
    }
}

/// The little-endian bytes of a 32-bit value.
pub open spec fn spec_u32_le_bytes(x: u32) -> Seq<u8> {
    seq![
        (x % 256) as u8,
        ((x / 256) % 256) as u8,
        ((x / 65536) % 256) as u8,
        ((x / 16777216) % 256) as u8,
    ]
}

/// The 32-byte seed a path feeds to the software key derivation: its
/// first eight components as little-endian bytes, missing components
/// standing as zero.
pub open spec fn spec_path_seed(path: Seq<u32>) -> Seq<u8> {
    Seq::new(
        32,
        |i: int|
            {
                let c = i / 4;
                if c < path.len() {
                    spec_u32_le_bytes(path[c])[i % 4]
                } else {
                    0u8
                }
            },
    )
}

/// Compute the software-backend seed of a path.
pub fn path_seed<const B: usize>(path: &BIP32Path<B>) -> (r: Vec<u8>)
    ensures
        r@ == spec_path_seed(path@),
        r@.len() == 32,
{
    let comps = path.components();
    let mut out: Vec<u8> = Vec::new();
    let mut c: usize = 0;
    while c < 8
        invariant
            c <= 8,
            comps@ == path@,
            out@.len() == 4 * c,
            forall|i: int|
                0 <= i < 4 * c ==> out@[i] == spec_path_seed(path@)[i],
        decreases 8 - c,
    {
        let v: u32 = if c < comps.len() {
            comps[c]
        } else {
            0
        };
        let ghost ci = c as int;
        let ghost out_pre = out@;
        proof {
            assert forall|k: int| 0 <= k < 4 implies #[trigger] ((4 * ci + k) / 4) == ci && (4
                * ci + k) % 4 == k by {
                vstd::arithmetic::div_mod::lemma_fundamental_div_mod_converse(4 * ci + k, 4, ci, k);
            }
        }
        out.push((v % 256) as u8);
        out.push(((v / 256) % 256) as u8);
        out.push(((v / 65536) % 256) as u8);
        out.push(((v / 16777216) % 256) as u8);
        proof {
            assert(out@ =~= out_pre + seq![
                (v % 256) as u8,
                ((v / 256) % 256) as u8,
                ((v / 65536) % 256) as u8,
                ((v / 16777216) % 256) as u8,
            ]);
            if ci < path@.len() {
                assert(v == path@[ci]);
                assert(spec_u32_le_bytes(v)[0] == (v % 256) as u8);
                assert(spec_u32_le_bytes(v)[1] == ((v / 256) % 256) as u8);
                assert(spec_u32_le_bytes(v)[2] == ((v / 65536) % 256) as u8);
                assert(spec_u32_le_bytes(v)[3] == ((v / 16777216) % 256) as u8);
                assert(spec_path_seed(path@)[4 * ci] == spec_u32_le_bytes(v)[0]);
                assert(spec_path_seed(path@)[4 * ci + 1] == spec_u32_le_bytes(v)[1]);
                assert(spec_path_seed(path@)[4 * ci + 2] == spec_u32_le_bytes(v)[2]);
                assert(spec_path_seed(path@)[4 * ci + 3] == spec_u32_le_bytes(v)[3]);
            } else {
                assert(v == 0);
                assert(spec_path_seed(path@)[4 * ci] == 0u8);
                assert(spec_path_seed(path@)[4 * ci + 1] == 0u8);
                assert(spec_path_seed(path@)[4 * ci + 2] == 0u8);
                assert(spec_path_seed(path@)[4 * ci + 3] == 0u8);
            }
        }
        c += 1;
    }
    proof {
        assert(out@ =~= spec_path_seed(path@));
    }
    out
}

} // verus!
