//! Curve-agnostic key handles: secret keys that never store raw key
//! bytes, and public keys with in-place point compression.
//!
//! A [`SecretKey`] only owns `{mode, curve, path}`; key material is
//! regenerated from the software backend on demand, used, and wiped.

use vstd::prelude::*;
use crate::backend;
use crate::bip32::{path_seed, spec_path_seed, BIP32Path};
use crate::crypto::{Curve, Error, Mode};

verus! {

/// The raw software key material of a curve and path, for the curves the
/// software backend implements.
pub open spec fn spec_software_key(curve: Curve, path: Seq<u32>) -> Option<Seq<u8>> {
    match curve {
        Curve::Secp256K1 => Some(backend::secp256k1_key_of(spec_path_seed(path))),
        Curve::Secp256R1 => Some(backend::secp256r1_key_of(spec_path_seed(path))),
        Curve::Ed25519 => Some(backend::ed25519_key_of(spec_path_seed(path))),
        _ => None,
    }
}

/// A public key: an encoded point, its length implicit in the buffer,
/// and the curve it lives on.
pub struct PublicKey {
    curve: Curve,
    data: Vec<u8>,
}

impl View for PublicKey {
    type V = Seq<u8>;

    closed spec fn view(&self) -> Seq<u8> {
        self.data@
    }
}

impl PublicKey {
    /// The curve this point lives on.
    pub closed spec fn spec_curve(self) -> Curve {
        self.curve
    }

    /// Shape of a well-formed encoded point: Weierstrass points carry an
    /// uncompressed (`04`) or compressed (`02`/`03`) tag with the
    /// matching coordinate lengths; Edwards points are bare compressed
    /// coordinates.
    pub open spec fn wf(self) -> bool {
        match self.spec_curve().spec_domain_length() {
            Some(d) => if self.spec_curve().spec_is_weirstrass() {
                (self@[0] == 4 && self@.len() == 1 + 2 * d) || ((self@[0] == 2 || self@[0] == 3)
                    && self@.len() == 1 + d)
            } else if self.spec_curve().spec_is_twisted_edward() {
                self@.len() == d
            } else {
                self@.len() >= 1 + d
            },
            None => !self.spec_curve().spec_is_weirstrass() && self@.len() >= 1,
        }
    }

    /// Retrieve the `x` component of the public key.
    pub fn x(&self) -> (r: Result<Vec<u8>, Error>)
        requires
            self.wf(),
        ensures
            ({
                match self.spec_curve().spec_domain_length() {
                    None => r == Err::<Vec<u8>, _>(Error::InvalidCurve),
                    Some(d) => {
                        if self@[0] == 4 && self@.len() == 1 + 2 * d {
                            r matches Ok(v) && v@ == self@.subrange(1, 1 + d)
                        } else if self@[0] == 2 && self.spec_curve().spec_is_twisted_edward() {
                            r == Err::<Vec<u8>, _>(Error::InvalidParameter)
                        } else if self@[0] == 2 && self.spec_curve().spec_is_montgomery() {
                            r matches Ok(v) && v@ == self@.subrange(1, 1 + d)
                        } else {
                            r == Err::<Vec<u8>, _>(Error::InvalidParameterValue)
                        }
                    },
                }
            }),
    {
        let d = match self.curve.domain_length() {
            Some(d) => d,
            None => {
                return Err(Error::InvalidCurve);
            },
        };
        let tag = self.data[0];
        if tag == 4 && self.data.len() == 1 + 2 * d {
            Ok(self.copy_range(1, 1 + d))
        } else if tag == 2 && self.curve.is_twisted_edward() {
            Err(Error::InvalidParameter)
        } else if tag == 2 && self.curve.is_montgomery() {
            Ok(self.copy_range(1, 1 + d))
        } else {
            Err(Error::InvalidParameterValue)
        }
    }

    /// Retrieve the `y` component of the public key.
    pub fn y(&self) -> (r: Result<Vec<u8>, Error>)
        requires
            self.wf(),
        ensures
            ({
                match self.spec_curve().spec_domain_length() {
                    None => r == Err::<Vec<u8>, _>(Error::InvalidCurve),
                    Some(d) => {
                        if self@[0] == 4 && self@.len() == 1 + 2 * d {
                            r matches Ok(v) && v@ == self@.subrange(1 + d, 1 + 2 * d)
                        } else if self@[0] == 2 && self.spec_curve().spec_is_twisted_edward()
                            && self@.len() >= 1 + 2 * d {
                            r matches Ok(v) && v@ == self@.subrange(1 + d, 1 + 2 * d)
                        } else if self@[0] == 2 && self.spec_curve().spec_is_montgomery() {
                            r == Err::<Vec<u8>, _>(Error::InvalidParameter)
                        } else {
                            r == Err::<Vec<u8>, _>(Error::InvalidParameterValue)
                        }
                    },
                }
            }),
    {
        let d = match self.curve.domain_length() {
            Some(d) => d,
            None => {
                return Err(Error::InvalidCurve);
            },
        };
        let tag = self.data[0];
        if tag == 4 && self.data.len() == 1 + 2 * d {
            Ok(self.copy_range(1 + d, 1 + 2 * d))
        } else if tag == 2 && self.curve.is_twisted_edward() && self.data.len() >= 1 + 2 * d {
            Ok(self.copy_range(1 + d, 1 + 2 * d))
        } else if tag == 2 && self.curve.is_montgomery() {
            Err(Error::InvalidParameter)
        } else {
            Err(Error::InvalidParameterValue)
        }
    }

    /// Copy a range of the encoded point.
    fn copy_range(&self, from: usize, to: usize) -> (r: Vec<u8>)
        requires
            from <= to <= self@.len(),
        ensures
            r@ == self@.subrange(from as int, to as int),
    {
        let mut out: Vec<u8> = Vec::new();
        let mut i = from;
        while i < to
            invariant
                from <= i <= to <= self@.len(),
                out@ == self@.subrange(from as int, i as int),
            decreases to - i,
        {
            out.push(self.data[i]);
            i += 1;
            proof {
                assert(self@.subrange(from as int, i - 1 as int).push(self@[i - 1]) =~= self@
                    .subrange(from as int, i as int));
            }
        }
        out
    }

    /// Compress the point in place.
    ///
    /// A Weierstrass point with the uncompressed `04` tag becomes
    /// `02 + parity(y)` followed by `x` alone; a point already compressed
    /// stays as it is. Edwards and Montgomery points are already in their
    /// minimal software form, so they are left unchanged.
    pub fn compress(&mut self) -> (r: Result<(), Error>)
        requires
            old(self).wf(),
        ensures
            r is Ok,
            final(self).spec_curve() == old(self).spec_curve(),
            final(self).wf(),
            ({
                let d_opt = old(self).spec_curve().spec_domain_length();
                if old(self).spec_curve().spec_is_weirstrass() && old(self)@[0] == 4 {
                    d_opt matches Some(d) && final(self)@ == seq![
                        (2 + (old(self)@.last() & 1)) as u8,
                    ] + old(self)@.subrange(1, 1 + d)
                } else {
                    final(self)@ == old(self)@
                }
            }),
    {
        if self.curve.is_weirstrass() {
            if self.data[0] != 4 {
                return Ok(());
            }
            let d = match self.curve.domain_length() {
                Some(d) => d,
                None => {
                    proof {
                        assert(false);
                    }
                    return Ok(());
                },
            };
            let total = self.data.len();
            let last = self.data[total - 1];
            let is_odd = last & 1;
            proof {
                assert((last & 1) < 2) by (bit_vector);
                assert(1 + d <= total);
            }
            let mut out: Vec<u8> = Vec::new();
            out.push(2 + is_odd);
            let mut i: usize = 1;
            while i < 1 + d
                invariant
                    1 <= i <= 1 + d,
                    self@.len() == 1 + 2 * d,
                    self@.len() <= usize::MAX,
                    out@.len() == i,
                    out@[0] == 2 + (self@.last() & 1),
                    out@.subrange(1, i as int) == self@.subrange(1, i as int),
                decreases 1 + d - i,
            {
                out.push(self.data[i]);
                i += 1;
                proof {
                    assert(out@.subrange(1, i as int) =~= out@.subrange(1, i - 1 as int).push(
                        self@[i - 1],
                    ));
                    assert(self@.subrange(1, i as int) =~= self@.subrange(1, i - 1 as int).push(
                        self@[i - 1],
                    ));
                }
            }
            proof {
                assert(out@ =~= seq![(2 + (self@.last() & 1)) as u8] + self@.subrange(
                    1,
                    1 + d as int,
                ));
            }
            self.data = out;
            Ok(())
        } else {
            // Edwards and Montgomery points are already minimal here.
            Ok(())
        }
    }

    /// The curve this point lives on.
    pub fn curve(&self) -> (r: Curve)
        ensures
            r == self.spec_curve(),
    {
        self.curve
    }

    /// Length in bytes of the encoded point.
    pub fn len(&self) -> (r: usize)
        ensures
            r == self@.len(),
    {
        self.data.len()
    }

    /// Whether the encoded point is empty.
    pub fn is_empty(&self) -> (r: bool)
        ensures
            r == (self@.len() == 0),
    {
        self.data.len() == 0
    }

    /// The encoded point's bytes.
    pub fn bytes(&self) -> (r: &Vec<u8>)
        ensures
            r@ == self@,
    {
        &self.data
    }
}

/// A secret key handle.
///
/// No secret bytes are present within this struct: the key is recomputed
/// from the derivation data before each operation that needs it, and the
/// transient copy is wiped before the operation returns.
pub struct SecretKey<const B: usize> {
    mode: Mode,
    curve: Curve,
    path: BIP32Path<B>,
}

impl<const B: usize> SecretKey<B> {
    /// The curve of this key.
    pub closed spec fn spec_curve(self) -> Curve {
        self.curve
    }

    /// The derivation path of this key.
    pub closed spec fn spec_path(self) -> Seq<u32> {
        self.path@
    }

    /// The derivation mode of this key.
    pub closed spec fn spec_mode(self) -> Mode {
        self.mode
    }

    /// Create a new secret key handle; nothing is derived yet.
    pub fn new(mode: Mode, curve: Curve, path: BIP32Path<B>) -> (r: Self)
        ensures
            r.spec_mode() == mode,
            r.spec_curve() == curve,
            r.spec_path() == path@,
    {
        SecretKey { mode, curve, path }
    }

    /// The curve of this key.
    pub fn curve(&self) -> (r: Curve)
        ensures
            r == self.spec_curve(),
    {
        self.curve
    }

    /// Materialize the raw key bytes; `Unimplemented` for curves the
    /// software backend does not carry.
    fn generate(&self) -> (r: Result<Vec<u8>, Error>)
        ensures
            spec_software_key(self.spec_curve(), self.spec_path()) matches Some(k) ==> (r matches
            Ok(v) && v@ == k && v@.len() == 32),
            spec_software_key(self.spec_curve(), self.spec_path()) is None ==> r == Err::<
                Vec<u8>,
                _,
            >(Error::Unimplemented),
    {
        let seed = path_seed(&self.path);
        match self.curve {
            Curve::Secp256K1 => Ok(backend::secp256k1_derive(seed.as_slice())),
            Curve::Secp256R1 => Ok(backend::secp256r1_derive(seed.as_slice())),
            Curve::Ed25519 => Ok(backend::ed25519_derive(seed.as_slice())),
            _ => Err(Error::Unimplemented),
        }
    }

    /// Compute the public key: derive the secret half, run the backend's
    /// pair generation, and discard the wiped secret half.
    ///
    /// `ExecutionError` covers the backend rejecting derived key bytes as
    /// a scalar; curves without a software backend give `Unimplemented`.
    pub fn public(&self) -> (r: Result<PublicKey, Error>)
        ensures
            ({
                let key = spec_software_key(self.spec_curve(), self.spec_path());
                match key {
                    None => r == Err::<PublicKey, _>(Error::Unimplemented),
                    Some(k) => match r {
                        Ok(pk) => {
                            &&& pk.spec_curve() == self.spec_curve()
                            &&& pk.wf()
                            &&& (self.spec_curve() == Curve::Secp256K1 ==> pk@
                                == backend::secp256k1_public_of(k))
                            &&& (self.spec_curve() == Curve::Secp256R1 ==> pk@
                                == backend::secp256r1_public_of(k))
                            &&& (self.spec_curve() == Curve::Ed25519 ==> pk@
                                == backend::ed25519_public_of(k))
                        },
                        Err(e) => e == Error::ExecutionError && self.spec_curve()
                            != Curve::Ed25519,
                    },
                }
            }),
    {
        let mut key = self.generate()?;
        let r = match self.curve {
            Curve::Secp256K1 => {
                match backend::secp256k1_public(key.as_slice()) {
                    Some(data) => Ok(PublicKey { curve: self.curve, data }),
                    None => Err(Error::ExecutionError),
                }
            },
            Curve::Secp256R1 => {
                match backend::secp256r1_public(key.as_slice()) {
                    Some(data) => Ok(PublicKey { curve: self.curve, data }),
                    None => Err(Error::ExecutionError),
                }
            },
            Curve::Ed25519 => {
                let data = backend::ed25519_public(key.as_slice());
                Ok(PublicKey { curve: self.curve, data })
            },
            _ => vstd::pervasive::unreached(),
        };
        zeroize_vec(&mut key);
        r
    }

    /// Compute the public key into an existing slot.
    pub fn public_into(&self, out: &mut PublicKey) -> (r: Result<(), Error>)
        ensures
            ({
                let key = spec_software_key(self.spec_curve(), self.spec_path());
                match key {
                    None => r == Err::<(), _>(Error::Unimplemented) && *final(out) == *old(out),
                    Some(k) => match r {
                        Ok(()) => final(out).spec_curve() == self.spec_curve() && final(out).wf(),
                        Err(e) => e == Error::ExecutionError && *final(out) == *old(out),
                    },
                }
            }),
    {
        match self.public() {
            Ok(pk) => {
                *out = pk;
                Ok(())
            },
            Err(e) => Err(e),
        }
    }

    /// Sign `data`, writing the signature into a prefix of `out` and
    /// returning its length.
    ///
    /// Weierstrass curves sign with deterministic (RFC6979) ECDSA in DER
    /// form; twisted Edwards curves with EdDSA (64 bytes). Montgomery
    /// curves have no signing scheme: `Unimplemented`, as is any curve
    /// without a software backend. `OutputBufferTooSmall` reports a
    /// signature that does not fit in `out`.
    pub fn sign(&self, data: &[u8], out: &mut Vec<u8>) -> (r: Result<usize, Error>)
        ensures
            final(out)@.len() == old(out)@.len(),
            self.spec_curve().spec_is_montgomery() ==> r == Err::<usize, _>(Error::Unimplemented)
                && final(out)@ == old(out)@,
            ({
                let key = spec_software_key(self.spec_curve(), self.spec_path());
                match key {
                    None => r == Err::<usize, _>(Error::Unimplemented) && final(out)@ == old(out)@,
                    Some(k) => {
                        let sig = if self.spec_curve() == Curve::Secp256K1 {
                            backend::secp256k1_sig_of(k, data@)
                        } else if self.spec_curve() == Curve::Secp256R1 {
                            backend::secp256r1_sig_of(k, data@)
                        } else {
                            backend::ed25519_sig_of(k, data@)
                        };
                        match r {
                            Ok(n) => n == sig.len() && sig.len() <= old(out)@.len() && final(out)@ == sig + old(out)@.skip(sig.len() as int),
                            Err(e) => (e == Error::OutputBufferTooSmall && sig.len() > old(out)@.len() && final(out)@ == old(out)@) || (e == Error::ExecutionError
                                && self.spec_curve() != Curve::Ed25519 && final(out)@ == old(out)@),
                        }
                    },
                }
            }),
    {
        if self.curve.is_montgomery() {
            return Err(Error::Unimplemented);
        }
        let mut key = self.generate()?;
        let sig = match self.curve {
            Curve::Secp256K1 => backend::secp256k1_sign(key.as_slice(), data),
            Curve::Secp256R1 => backend::secp256r1_sign(key.as_slice(), data),
            Curve::Ed25519 => Some(backend::ed25519_sign(key.as_slice(), data)),
            _ => vstd::pervasive::unreached(),
        };
        zeroize_vec(&mut key);
        let sig = match sig {
            Some(s) => s,
            None => {
                return Err(Error::ExecutionError);
            },
        };
        if sig.len() > out.len() {
            return Err(Error::OutputBufferTooSmall);
        }
        let n = sig.len();
        let mut i: usize = 0;
        while i < n
            invariant
                i <= n,
                n == sig@.len() <= out@.len(),
                out@.len() == old(out)@.len(),
                forall|j: int| 0 <= j < i ==> out@[j] == sig@[j],
                forall|j: int| i <= j < out@.len() ==> out@[j] == old(out)@[j],
            decreases n - i,
        {
            out.set(i, sig[i]);
            i += 1;
        }
        proof {
            assert(out@ =~= sig@ + old(out)@.skip(sig@.len() as int));
        }
        Ok(n)
    }
}

/// Wipe transient secret material before its storage is released.
fn zeroize_vec(v: &mut Vec<u8>)
    ensures
        final(v)@.len() == old(v)@.len(),
        forall|i: int| 0 <= i < final(v)@.len() ==> final(v)@[i] == 0u8,
{
    let n = v.len();
    let mut i: usize = 0;
    while i < n
        invariant
            i <= n,
            v@.len() == n,
            forall|j: int| 0 <= j < i ==> v@[j] == 0u8,
        decreases n - i,
    {
        v.set(i, 0);
        i += 1;
    }
}

} // verus!
