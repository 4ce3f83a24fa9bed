//! Curve identities, derivation modes and the error taxonomy of the
//! key-derivation and signing engine.

use vstd::prelude::*;

verus! {

/// Length in bytes of a BIP32-style chain code.
pub const CHAIN_CODE_LEN: usize = 32;

/// An enumerated cryptographic curve identity.
///
/// Curves fall into three signature-algorithm families (Weierstrass,
/// twisted Edwards, Montgomery); `NoCurve` belongs to no family.
#[derive(Clone, Copy, PartialEq, Eq, Structural, Debug)]
pub enum Curve {
    NoCurve,
    Secp256K1,
    Secp256R1,
    Secp384R1,
    Secp521R1,
    BrainPoolP256T1,
    BrainPoolP256R1,
    BrainPoolP320T1,
    BrainPoolP320R1,
    BrainPoolP384T1,
    BrainPoolP384R1,
    BrainPoolP512T1,
    BrainPoolP512R1,
    Nistp256,
    Nistp384,
    Nistp521,
    Frp256V1,
    Stark256,
    Bls12_381G1,
    Ed25519,
    Ed448,
    Curve25519,
    Curve448,
}

impl Curve {
    /// Whether this curve belongs to the Weierstrass family, signed with ECDSA.
    pub open spec fn spec_is_weirstrass(self) -> bool {
        match self {
            Curve::Secp256K1
            | Curve::Secp256R1
            | Curve::Secp384R1
            | Curve::Secp521R1
            | Curve::BrainPoolP256T1
            | Curve::BrainPoolP256R1
            | Curve::BrainPoolP320T1
            | Curve::BrainPoolP320R1
            | Curve::BrainPoolP384T1
            | Curve::BrainPoolP384R1
            | Curve::BrainPoolP512T1
            | Curve::BrainPoolP512R1
            | Curve::Nistp256
            | Curve::Nistp384
            | Curve::Nistp521
            | Curve::Frp256V1
            | Curve::Stark256
            | Curve::Bls12_381G1 => true,
            _ => false,
        }
    }

    /// Whether this curve belongs to the twisted Edwards family, signed with EdDSA.
    pub open spec fn spec_is_twisted_edward(self) -> bool {
        match self {
            Curve::Ed25519 | Curve::Ed448 => true,
            _ => false,
        }
    }

    /// Whether this curve belongs to the Montgomery family (no signing scheme here).
    pub open spec fn spec_is_montgomery(self) -> bool {
        match self {
            Curve::Curve25519 | Curve::Curve448 => true,
            _ => false,
        }
    }

    pub fn is_weirstrass(&self) -> (r: bool)
        ensures
            r == self.spec_is_weirstrass(),
    {
        match self {
            Curve::Secp256K1
            | Curve::Secp256R1
            | Curve::Secp384R1
            | Curve::Secp521R1
            | Curve::BrainPoolP256T1
            | Curve::BrainPoolP256R1
            | Curve::BrainPoolP320T1
            | Curve::BrainPoolP320R1
            | Curve::BrainPoolP384T1
            | Curve::BrainPoolP384R1
            | Curve::BrainPoolP512T1
            | Curve::BrainPoolP512R1
            | Curve::Nistp256
            | Curve::Nistp384
            | Curve::Nistp521
            | Curve::Frp256V1
            | Curve::Stark256
            | Curve::Bls12_381G1 => true,
            _ => false,
        }
    }

    pub fn is_twisted_edward(&self) -> (r: bool)
        ensures
            r == self.spec_is_twisted_edward(),
    {
        match self {
            Curve::Ed25519 | Curve::Ed448 => true,
            _ => false,
        }
    }

    pub fn is_montgomery(&self) -> (r: bool)
        ensures
            r == self.spec_is_montgomery(),
    {
        match self {
            Curve::Curve25519 | Curve::Curve448 => true,
            _ => false,
        }
    }

    /// Byte length of the curve's scalar/coordinate domain; `None` where it
    /// is not fixed at this abstraction level.
    pub open spec fn spec_domain_length(self) -> Option<usize> {
        match self {
            Curve::NoCurve => None,
            Curve::Secp256K1 | Curve::Secp256R1 | Curve::Nistp256 => Some(32usize),
            Curve::Secp384R1 | Curve::Nistp384 => Some(48usize),
            Curve::Secp521R1 | Curve::Nistp521 => Some(66usize),
            Curve::BrainPoolP256T1 | Curve::BrainPoolP256R1 => Some(32usize),
            Curve::BrainPoolP320T1 | Curve::BrainPoolP320R1 => Some(40usize),
            Curve::BrainPoolP384T1 | Curve::BrainPoolP384R1 => Some(48usize),
            Curve::BrainPoolP512T1 | Curve::BrainPoolP512R1 => Some(64usize),
            Curve::Frp256V1 => Some(32usize),
            Curve::Stark256 => None,
            Curve::Bls12_381G1 => None,
            Curve::Ed25519 => Some(32usize),
            Curve::Ed448 => Some(57usize),
            Curve::Curve25519 => Some(32usize),
            Curve::Curve448 => Some(56usize),
        }
    }

    pub fn domain_length(&self) -> (r: Option<usize>)
        ensures
            r == self.spec_domain_length(),
    {
        match self {
            Curve::NoCurve => None,
            Curve::Secp256K1 | Curve::Secp256R1 | Curve::Nistp256 => Some(32),
            Curve::Secp384R1 | Curve::Nistp384 => Some(48),
            Curve::Secp521R1 | Curve::Nistp521 => Some(66),
            Curve::BrainPoolP256T1 | Curve::BrainPoolP256R1 => Some(32),
            Curve::BrainPoolP320T1 | Curve::BrainPoolP320R1 => Some(40),
            Curve::BrainPoolP384T1 | Curve::BrainPoolP384R1 => Some(48),
            Curve::BrainPoolP512T1 | Curve::BrainPoolP512R1 => Some(64),
            Curve::Frp256V1 => Some(32),
            Curve::Stark256 => None,
            Curve::Bls12_381G1 => None,
            Curve::Ed25519 => Some(32),
            Curve::Ed448 => Some(57),
            Curve::Curve25519 => Some(32),
            Curve::Curve448 => Some(56),
        }
    }
}

/// The three signature-algorithm families are mutually exclusive, and
/// together they cover every enumerated curve except `NoCurve`.
pub proof fn lemma_curve_families_partition(c: Curve)
    ensures
        !(c.spec_is_weirstrass() && c.spec_is_twisted_edward()),
        !(c.spec_is_weirstrass() && c.spec_is_montgomery()),
        !(c.spec_is_twisted_edward() && c.spec_is_montgomery()),
        c != Curve::NoCurve ==> c.spec_is_weirstrass() || c.spec_is_twisted_edward()
            || c.spec_is_montgomery(),
        c == Curve::NoCurve ==> !c.spec_is_weirstrass() && !c.spec_is_twisted_edward()
            && !c.spec_is_montgomery(),
{
}

/// Hierarchical key-derivation mode.
#[derive(Clone, Copy, PartialEq, Eq, Structural, Debug)]
pub enum Mode {
    BIP32,
    Ed25519Slip10,
    Slip21,
}

impl Mode {
    /// Wire value of this mode (`HDW_NORMAL`, `HDW_ED25519_SLIP10`, `HDW_SLIP21`).
    pub open spec fn spec_to_u8(self) -> u8 {
        match self {
            Mode::BIP32 => 0u8,
            Mode::Ed25519Slip10 => 1u8,
            Mode::Slip21 => 2u8,
        }
    }

    #[verifier::when_used_as_spec(spec_to_u8)]
    pub fn to_u8(self) -> (r: u8)
        ensures
            r == self.spec_to_u8(),
    {
        match self {
            Mode::BIP32 => 0,
            Mode::Ed25519Slip10 => 1,
            Mode::Slip21 => 2,
        }
    }

    /// Parse a wire value back into a mode; inverse of [`Mode::to_u8`].
    pub fn from_u8(value: u8) -> (r: Option<Mode>)
        ensures
            r matches Some(m) ==> m.spec_to_u8() == value,
            r is None <==> value > 2,
    {
        match value {
            0 => Some(Mode::BIP32),
            1 => Some(Mode::Ed25519Slip10),
            2 => Some(Mode::Slip21),
            _ => None,
        }
    }
}

impl Default for Mode {
    fn default() -> (r: Self)
        ensures
            r == Mode::BIP32,
    {
        Mode::BIP32
    }
}

/// Extra information a signing backend can report alongside an ECDSA
/// signature.
#[derive(Clone, Copy, PartialEq, Eq, Structural, Debug)]
pub enum ECCInfo {
    /// The Y component of the nonce point was odd.
    ParityOdd,
    /// The X component was greater than the curve order.
    XGTn,
}

/// Errors surfaced by the key-derivation and signing engine.
///
/// Protocol-level failures get a named variant; unrecognized backend codes
/// pass through as `Unknown`.
#[derive(Clone, Copy, PartialEq, Eq, Structural, Debug)]
pub enum Error {
    /// The operation needs a fixed domain length that the curve lacks,
    /// or the curve has no signing scheme registered here.
    InvalidCurve,
    /// A malformed input (such as a bad public-key encoding tag).
    InvalidParameter,
    /// A malformed value inside an otherwise well-formed input.
    InvalidParameterValue,
    /// The operation is not supported on this curve or in this execution
    /// context (for example Montgomery signing).
    Unimplemented,
    /// The backend rejected the operation (for example key material that
    /// does not form a valid scalar).
    ExecutionError,
    /// The caller's output buffer cannot hold the result.
    OutputBufferTooSmall,
    /// A hardening bound was exceeded (such as the derivation retry cap).
    IterationsExceeded,
    /// An unrecognized backend error code, passed through opaquely.
    Unknown(u32),
}

} // verus!
