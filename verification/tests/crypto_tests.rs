use bolos::bip32::BIP32Path;
use bolos::crypto::{Curve, Error, Mode};
use bolos::ecfp256::SecretKey;
use k256::ecdsa::signature::Verifier;

const ALL_CURVES: [Curve; 23] = [
    Curve::NoCurve,
    Curve::Secp256K1,
    Curve::Secp256R1,
    Curve::Secp384R1,
    Curve::Secp521R1,
    Curve::BrainPoolP256T1,
    Curve::BrainPoolP256R1,
    Curve::BrainPoolP320T1,
    Curve::BrainPoolP320R1,
    Curve::BrainPoolP384T1,
    Curve::BrainPoolP384R1,
    Curve::BrainPoolP512T1,
    Curve::BrainPoolP512R1,
    Curve::Nistp256,
    Curve::Nistp384,
    Curve::Nistp521,
    Curve::Frp256V1,
    Curve::Stark256,
    Curve::Bls12_381G1,
    Curve::Ed25519,
    Curve::Ed448,
    Curve::Curve25519,
    Curve::Curve448,
];

#[test]
fn curve_families_partition() {
    for c in ALL_CURVES {
        let families =
            c.is_weirstrass() as u8 + c.is_twisted_edward() as u8 + c.is_montgomery() as u8;
        if c == Curve::NoCurve {
            assert_eq!(families, 0);
        } else {
            assert_eq!(families, 1);
        }
    }
}

#[test]
fn domain_lengths() {
    assert_eq!(Curve::Secp256K1.domain_length(), Some(32));
    assert_eq!(Curve::Secp384R1.domain_length(), Some(48));
    assert_eq!(Curve::Secp521R1.domain_length(), Some(66));
    assert_eq!(Curve::Ed448.domain_length(), Some(57));
    assert_eq!(Curve::Stark256.domain_length(), None);
    assert_eq!(Curve::NoCurve.domain_length(), None);
}

#[test]
fn mode_wire_values() {
    assert_eq!(Mode::BIP32.to_u8(), 0);
    assert_eq!(Mode::Ed25519Slip10.to_u8(), 1);
    assert_eq!(Mode::Slip21.to_u8(), 2);
    assert_eq!(Mode::from_u8(1), Some(Mode::Ed25519Slip10));
    assert_eq!(Mode::from_u8(3), None);
    assert_eq!(Mode::default(), Mode::BIP32);
}

fn path() -> BIP32Path<5> {
    BIP32Path::new(vec![0x8000_002c, 0x8000_0085, 0x8000_0000, 0, 1]).unwrap()
}

#[test]
fn path_length_is_validated() {
    assert!(BIP32Path::<2>::new(vec![1, 2, 3]).is_err());
    let p = BIP32Path::<5>::new(vec![1, 2, 3]).unwrap();
    assert_eq!(p.len(), 3);
    assert_eq!(p.components(), &vec![1, 2, 3]);
}

#[test]
fn secp256k1_sign_verifies() {

    let sk = SecretKey::<5>::new(Mode::BIP32, Curve::Secp256K1, path());
    assert_eq!(sk.curve(), Curve::Secp256K1);

    let msg = b"an important message";
    let mut out = vec![0u8; 80];
    let n = sk.sign(msg, &mut out).unwrap();

    let pk = sk.public().unwrap();
    assert_eq!(pk.len(), 65);
    let vk = k256::ecdsa::VerifyingKey::from_sec1_bytes(pk.bytes()).unwrap();
    let sig = k256::ecdsa::Signature::from_der(&out[..n]).unwrap();
    vk.verify(msg, &sig).unwrap();
}

#[test]
fn secp256r1_sign_verifies() {

    let sk = SecretKey::<5>::new(Mode::BIP32, Curve::Secp256R1, path());

    let msg = b"another message";
    let mut out = vec![0u8; 80];
    let n = sk.sign(msg, &mut out).unwrap();

    let pk = sk.public().unwrap();
    let vk = p256::ecdsa::VerifyingKey::from_sec1_bytes(pk.bytes()).unwrap();
    let sig = p256::ecdsa::Signature::from_der(&out[..n]).unwrap();
    vk.verify(msg, &sig).unwrap();
}

#[test]
fn ed25519_sign_verifies() {
    let sk = SecretKey::<5>::new(Mode::BIP32, Curve::Ed25519, path());

    let msg = b"ed25519 message";
    let mut out = vec![0u8; 64];
    let n = sk.sign(msg, &mut out).unwrap();
    assert_eq!(n, 64);

    let pk = sk.public().unwrap();
    assert_eq!(pk.len(), 32);
    let mut pkb = [0u8; 32];
    pkb.copy_from_slice(pk.bytes());
    let vk = ed25519_dalek::VerifyingKey::from_bytes(&pkb).unwrap();
    let mut sigb = [0u8; 64];
    sigb.copy_from_slice(&out[..64]);
    let sig = ed25519_dalek::Signature::from_bytes(&sigb);
    vk.verify_strict(msg, &sig).unwrap();
}

#[test]
fn montgomery_signing_is_unsupported() {
    let sk = SecretKey::<5>::new(Mode::BIP32, Curve::Curve25519, path());
    let mut out = vec![0u8; 80];
    assert_eq!(sk.sign(b"m", &mut out), Err(Error::Unimplemented));
    assert!(matches!(sk.public(), Err(Error::Unimplemented)));
}

#[test]
fn unsupported_backend_curves_report_unimplemented() {
    let sk = SecretKey::<5>::new(Mode::BIP32, Curve::Secp384R1, path());
    let mut out = vec![0u8; 120];
    assert_eq!(sk.sign(b"m", &mut out), Err(Error::Unimplemented));
}

#[test]
fn sign_rejects_small_output() {
    let sk = SecretKey::<5>::new(Mode::BIP32, Curve::Ed25519, path());
    let mut out = vec![0u8; 10];
    assert_eq!(sk.sign(b"m", &mut out), Err(Error::OutputBufferTooSmall));
}

#[test]
fn public_key_compression() {
    let sk = SecretKey::<5>::new(Mode::BIP32, Curve::Secp256K1, path());
    let mut pk = sk.public().unwrap();
    assert_eq!(pk.bytes()[0], 4);
    let x = pk.x().unwrap();
    let y = pk.y().unwrap();
    assert_eq!(x, pk.bytes()[1..33].to_vec());
    assert_eq!(y, pk.bytes()[33..65].to_vec());

    let parity = y[31] & 1;
    pk.compress().unwrap();
    assert_eq!(pk.len(), 33);
    assert_eq!(pk.bytes()[0], 2 + parity);
    assert_eq!(&pk.bytes()[1..], &x[..]);
    assert!(!pk.is_empty());

    // compressing again is a no-op
    let before = pk.bytes().clone();
    pk.compress().unwrap();
    assert_eq!(pk.bytes(), &before);
}

#[test]
fn derivation_is_deterministic() {
    let sk1 = SecretKey::<5>::new(Mode::BIP32, Curve::Secp256K1, path());
    let sk2 = SecretKey::<5>::new(Mode::BIP32, Curve::Secp256K1, path());
    assert_eq!(sk1.public().unwrap().bytes(), sk2.public().unwrap().bytes());
}

#[test]
fn fill_sapling_seed_layout() {
    let mut seed = vec![0xffu8; 32];
    bolos::sapling::fill_sapling_seed(&mut seed);
    assert_eq!(&seed[0..4], &[0x2c, 0x00, 0x00, 0x80]);
    assert_eq!(&seed[4..8], &[0x85, 0x00, 0x00, 0x80]);
    assert_eq!(&seed[8..12], &[0x00, 0x00, 0x00, 0x80]);
    assert_eq!(&seed[12..16], &[0x00, 0x00, 0x00, 0x80]);
    assert_eq!(&seed[16..20], &[0x00, 0x00, 0x00, 0x80]);
    assert_eq!(&seed[20..], &[0u8; 12]);
}

#[test]
fn component_reads_of_compressed_key_are_rejected() {
    let sk = SecretKey::<5>::new(Mode::BIP32, Curve::Secp256K1, path());
    let mut pk = sk.public().unwrap();
    pk.compress().unwrap();
    assert_eq!(pk.x(), Err(Error::InvalidParameterValue));
    assert_eq!(pk.y(), Err(Error::InvalidParameterValue));
}
