//! STARK-curve key handles and the biased rejection-sampling derivation.
//!
//! The STARK secret key grows out of a secp256k1-rooted node: the node is
//! hashed together with a retry counter until the digest falls below a
//! fixed bias constant, and the accepted digest is reduced modulo the
//! STARK curve order. The loop is expected to accept within a couple of
//! rounds; a hard cap turns a (cryptographically negligible) run of
//! rejections into an explicit error instead of an unbounded loop.

use vstd::prelude::*;
use core::cmp::Ordering;
use crate::backend;
use crate::bip32::{path_seed, spec_path_seed, BIP32Path};
use crate::crypto::{Curve, Error};
use crate::math::{cmp, modm, to_nat_be};

verus! {

/// Ceiling on signature length for this curve's DER signatures.
pub const SIGNATURE_MAX_LEN: usize = 72;

/// Hard cap on the derivation retry counter.
pub const STARK_DERIVE_RETRY_CAP: u8 = 255;

/// The derivation bias constant:
/// `C_cx_secp256k1_n - (C_cx_secp256k1_n % C_cx_Stark256_n)`.
pub open spec fn spec_stark_derive_bias() -> Seq<u8> {
    seq![
        0xf8u8, 0x00u8, 0x00u8, 0x00u8, 0x00u8, 0x00u8, 0x02u8, 0x0eu8,
        0xffu8, 0xffu8, 0xffu8, 0xffu8, 0xffu8, 0xffu8, 0xffu8, 0xf7u8,
        0x38u8, 0xa1u8, 0x3bu8, 0x4bu8, 0x92u8, 0x0eu8, 0x94u8, 0x11u8,
        0xaeu8, 0x6du8, 0xa5u8, 0xf4u8, 0x0bu8, 0x03u8, 0x58u8, 0xb1u8,
    ]
}

/// The STARK curve order.
pub open spec fn spec_stark256_order() -> Seq<u8> {
    seq![
        0x08u8, 0x00u8, 0x00u8, 0x00u8, 0x00u8, 0x00u8, 0x00u8, 0x10u8,
        0xffu8, 0xffu8, 0xffu8, 0xffu8, 0xffu8, 0xffu8, 0xffu8, 0xffu8,
        0xb7u8, 0x81u8, 0x12u8, 0x6du8, 0xcau8, 0xe7u8, 0xb2u8, 0x32u8,
        0x1eu8, 0x66u8, 0xa2u8, 0x41u8, 0xadu8, 0xc6u8, 0x4du8, 0x2fu8,
    ]
}

fn stark_derive_bias() -> (r: Vec<u8>)
    ensures
        r@ == spec_stark_derive_bias(),
{
    let v: [u8; 32] = [
        0xf8, 0x00, 0x00, 0x00, 0x00, 0x00, 0x02, 0x0e,
        0xff, 0xff, 0xff, 0xff, 0xff, 0xff, 0xff, 0xf7,
        0x38, 0xa1, 0x3b, 0x4b, 0x92, 0x0e, 0x94, 0x11,
        0xae, 0x6d, 0xa5, 0xf4, 0x0b, 0x03, 0x58, 0xb1,
    ];
    proof {
        assert(v@ =~= spec_stark_derive_bias());
    }
    vstd::slice::slice_to_vec(v.as_slice())
}

fn stark256_order() -> (r: Vec<u8>)
    ensures
        r@ == spec_stark256_order(),
{
    let v: [u8; 32] = [
        0x08, 0x00, 0x00, 0x00, 0x00, 0x00, 0x00, 0x10,
        0xff, 0xff, 0xff, 0xff, 0xff, 0xff, 0xff, 0xff,
        0xb7, 0x81, 0x12, 0x6d, 0xca, 0xe7, 0xb2, 0x32,
        0x1e, 0x66, 0xa2, 0x41, 0xad, 0xc6, 0x4d, 0x2f,
    ];
    proof {
        assert(v@ =~= spec_stark256_order());
    }
    vstd::slice::slice_to_vec(v.as_slice())
}

/// The secp256k1-rooted node a path derives on the software backend.
pub open spec fn spec_stark_node(path: Seq<u32>) -> Seq<u8> {
    backend::secp256k1_key_of(spec_path_seed(path))
}

/// The digest the retry loop examines at counter value `i`.
pub open spec fn spec_stark_candidate(path: Seq<u32>, i: nat) -> Seq<u8> {
    backend::sha256_of(spec_stark_node(path).push(i as u8))
}

/// Whether the candidate at counter `i` falls under the bias constant.
pub open spec fn spec_stark_accepted(path: Seq<u32>, i: nat) -> bool {
    to_nat_be(spec_stark_candidate(path, i)) < to_nat_be(spec_stark_derive_bias())
}

/// Derive the STARK node of a path.
///
/// Succeeds exactly when some counter value within the cap is accepted;
/// the result is the first accepted digest reduced modulo the curve
/// order. For a fixed path the result is the same on every call.
pub fn stark_derive_node<const B: usize>(path: &BIP32Path<B>) -> (r: Result<Vec<u8>, Error>)
    ensures
        ({
            let pv = path@;
            &&& ((exists|i: nat| i <= STARK_DERIVE_RETRY_CAP && spec_stark_accepted(pv, i))
                <==> r is Ok)
            &&& (r matches Ok(k) ==> exists|i: nat|
                #![trigger spec_stark_accepted(pv, i)]
                {
                    &&& i <= STARK_DERIVE_RETRY_CAP
                    &&& spec_stark_accepted(pv, i)
                    &&& forall|j: nat| j < i ==> !spec_stark_accepted(pv, j)
                    &&& to_nat_be(k@) == to_nat_be(spec_stark_candidate(pv, i)) % to_nat_be(
                        spec_stark256_order(),
                    )
                    &&& k@.len() == 32
                })
            &&& (r is Err ==> r == Err::<Vec<u8>, _>(Error::IterationsExceeded))
        }),
{
    let seed = path_seed(path);
    let node = backend::secp256k1_derive(seed.as_slice());
    let bias = stark_derive_bias();
    let order = stark256_order();
    proof {
        lemma_stark256_order_positive();
    }

    let mut index: u8 = 0;
    loop
        invariant
            node@ == spec_stark_node(path@),
            bias@ == spec_stark_derive_bias(),
            order@ == spec_stark256_order(),
            to_nat_be(order@) > 0,
            index <= STARK_DERIVE_RETRY_CAP,
            forall|j: nat| j < index ==> !spec_stark_accepted(path@, j),
        ensures
            forall|j: nat| j <= STARK_DERIVE_RETRY_CAP ==> !spec_stark_accepted(path@, j),
        decreases STARK_DERIVE_RETRY_CAP - index,
    {
        let mut tmp: Vec<u8> = Vec::new();
        let mut i: usize = 0;
        while i < node.len()
            invariant
                i <= node@.len(),
                tmp@ == node@.take(i as int),
            decreases node@.len() - i,
        {
            tmp.push(node[i]);
            i += 1;
            proof {
                assert(node@.take(i - 1 as int).push(node@[i - 1]) =~= node@.take(i as int));
            }
        }
        proof {
            assert(node@.take(node@.len() as int) =~= node@);
        }
        tmp.push(index);
        proof {
            assert(tmp@ =~= spec_stark_node(path@).push(index));
        }
        let mut out = backend::sha256(tmp.as_slice());

        let ord = match cmp(out.as_slice(), bias.as_slice()) {
            Ok(o) => o,
            Err(_) => vstd::pervasive::unreached(),
        };
        if matches!(ord, Ordering::Less) {
            match modm(&mut out, order.as_slice()) {
                Ok(()) => {},
                Err(_) => vstd::pervasive::unreached(),
            }
            proof {
                assert(spec_stark_accepted(path@, index as nat));
            }
            return Ok(out);
        }
        if index == STARK_DERIVE_RETRY_CAP {
            break ;
        }
        index += 1;
    }
    Err(Error::IterationsExceeded)
}

/// The STARK curve order is not zero: its last byte alone says so.
proof fn lemma_stark256_order_positive()
    ensures
        to_nat_be(spec_stark256_order()) > 0,
{
    let s = spec_stark256_order();
    assert(s.last() == 0x2fu8);
    assert(to_nat_be(s) == to_nat_be(s.drop_last()) * 256 + 0x2f);
}

/// The first accepted counter value is unique, so derivation is
/// deterministic: any two values meeting the derivation contract for one
/// path stand for the same number.
pub proof fn lemma_stark_derive_deterministic(path: Seq<u32>, i1: nat, i2: nat, k1: nat, k2: nat)
    requires
        spec_stark_accepted(path, i1),
        forall|j: nat| j < i1 ==> !spec_stark_accepted(path, j),
        spec_stark_accepted(path, i2),
        forall|j: nat| j < i2 ==> !spec_stark_accepted(path, j),
        k1 == to_nat_be(spec_stark_candidate(path, i1)) % to_nat_be(spec_stark256_order()),
        k2 == to_nat_be(spec_stark_candidate(path, i2)) % to_nat_be(spec_stark256_order()),
    ensures
        i1 == i2,
        k1 == k2,
{
    if i1 < i2 {
        assert(!spec_stark_accepted(path, i1));
    }
    if i2 < i1 {
        assert(!spec_stark_accepted(path, i2));
    }
}

/// A STARK public key.
pub struct PublicKey {
    data: Vec<u8>,
}

impl View for PublicKey {
    type V = Seq<u8>;

    closed spec fn view(&self) -> Seq<u8> {
        self.data@
    }
}

impl PublicKey {
    /// The curve this point lives on.
    pub fn curve(&self) -> (r: Curve)
        ensures
            r == Curve::Stark256,
    {
        Curve::Stark256
    }

    /// Length in bytes of the encoded point.
    pub fn len(&self) -> (r: usize)
        ensures
            r == self@.len(),
    {
        self.data.len()
    }

    /// Whether the encoded point is empty.
    pub fn is_empty(&self) -> (r: bool)
        ensures
            r == (self@.len() == 0),
    {
        self.data.len() == 0
    }
}

/// A STARK secret key handle: only the derivation path is stored, the
/// key material is recomputed per operation.
pub struct SecretKey<const B: usize> {
    path: BIP32Path<B>,
}

impl<const B: usize> SecretKey<B> {
    /// The derivation path of this key.
    pub closed spec fn spec_path(self) -> Seq<u32> {
        self.path@
    }

    /// Create a new secret key handle.
    pub fn new(path: BIP32Path<B>) -> (r: Self)
        ensures
            r.spec_path() == path@,
    {
        SecretKey { path }
    }

    /// The curve of this key.
    pub fn curve(&self) -> (r: Curve)
        ensures
            r == Curve::Stark256,
    {
        Curve::Stark256
    }

    /// Materialize the STARK node for this key's path.
    pub fn derive_node(&self) -> (r: Result<Vec<u8>, Error>)
        ensures
            ({
                let pv = self.spec_path();
                &&& ((exists|i: nat| i <= STARK_DERIVE_RETRY_CAP && spec_stark_accepted(pv, i))
                    <==> r is Ok)
                &&& (r matches Ok(k) ==> exists|i: nat|
                    #![trigger spec_stark_accepted(pv, i)]
                    {
                        &&& i <= STARK_DERIVE_RETRY_CAP
                        &&& spec_stark_accepted(pv, i)
                        &&& forall|j: nat| j < i ==> !spec_stark_accepted(pv, j)
                        &&& to_nat_be(k@) == to_nat_be(spec_stark_candidate(pv, i)) % to_nat_be(
                            spec_stark256_order(),
                        )
                        &&& k@.len() == 32
                    })
                &&& (r is Err ==> r == Err::<Vec<u8>, _>(Error::IterationsExceeded))
            }),
    {
        let r = stark_derive_node(&self.path);
        proof {
            assert(self.spec_path() == self.path@);
        }
        r
    }

    /// The software backend carries no STARK-curve point arithmetic:
    /// computing a public key reports the operation as unsupported.
    pub fn public(&self) -> (r: Result<PublicKey, Error>)
        ensures
            r == Err::<PublicKey, _>(Error::Unimplemented),
    {
        Err(Error::Unimplemented)
    }

    /// As [`SecretKey::public`], into an existing slot.
    pub fn public_into(&self, out: &mut PublicKey) -> (r: Result<(), Error>)
        ensures
            r == Err::<(), _>(Error::Unimplemented),
            *final(out) == *old(out),
    {
        Err(Error::Unimplemented)
    }

    /// The software backend carries no STARK-curve signing: signing
    /// reports the operation as unsupported.
    pub fn sign(&self, data: &[u8], out: &mut Vec<u8>) -> (r: Result<(bool, usize), Error>)
        ensures
            r == Err::<(bool, usize), _>(Error::Unimplemented),
            final(out)@ == old(out)@,
    {
        Err(Error::Unimplemented)
    }
}

} // verus!
