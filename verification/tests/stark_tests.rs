use bolos::bip32::BIP32Path;
use bolos::crypto::{Curve, Error};
use bolos::stark::{stark_derive_node, SecretKey};
use rand_chacha::rand_core::SeedableRng;
use sha2::Digest;

fn path() -> BIP32Path<5> {
    BIP32Path::new(vec![0x8000_0a55, 0x8000_0a55, 0x8000_0000, 0, 3]).unwrap()
}

#[test]
fn derivation_is_deterministic_and_bounded() {
    let k1 = stark_derive_node(&path()).expect("within the retry cap");
    let k2 = stark_derive_node(&path()).expect("within the retry cap");
    assert_eq!(k1, k2);
    assert_eq!(k1.len(), 32);

    let other = BIP32Path::<5>::new(vec![1, 2, 3, 4, 5]).unwrap();
    let k3 = stark_derive_node(&other).expect("within the retry cap");
    assert_ne!(k1, k3);
}

#[test]
fn derivation_matches_the_reference_computation() {

    // rebuild the derivation out of the underlying pieces
    let p = path();
    let mut seed = [0u8; 32];
    for (c, comp) in p.components().iter().enumerate().take(8) {
        seed[4 * c..4 * c + 4].copy_from_slice(&comp.to_le_bytes());
    }
    let mut rng = rand_chacha::ChaCha8Rng::from_seed(seed);
    let node = k256::ecdsa::SigningKey::random(&mut rng).to_bytes();

    let order: [u8; 32] = [
        0x08, 0x00, 0x00, 0x00, 0x00, 0x00, 0x00, 0x10, 0xff, 0xff, 0xff, 0xff, 0xff, 0xff, 0xff,
        0xff, 0xb7, 0x81, 0x12, 0x6d, 0xca, 0xe7, 0xb2, 0x32, 0x1e, 0x66, 0xa2, 0x41, 0xad, 0xc6,
        0x4d, 0x2f,
    ];
    let bias: [u8; 32] = [
        0xf8, 0x00, 0x00, 0x00, 0x00, 0x00, 0x02, 0x0e, 0xff, 0xff, 0xff, 0xff, 0xff, 0xff, 0xff,
        0xf7, 0x38, 0xa1, 0x3b, 0x4b, 0x92, 0x0e, 0x94, 0x11, 0xae, 0x6d, 0xa5, 0xf4, 0x0b, 0x03,
        0x58, 0xb1,
    ];

    let mut expected = None;
    for i in 0u16..=255 {
        let mut tmp = node.to_vec();
        tmp.push(i as u8);
        let mut digest: [u8; 32] = sha2::Sha256::digest(&tmp).into();
        if digest < bias {
            // byte-wise big-endian reduction by repeated subtraction
            while digest.as_slice() >= order.as_slice() {
                let mut borrow = 0i32;
                for k in (0..32).rev() {
                    let d = digest[k] as i32 - order[k] as i32 - borrow;
                    if d < 0 {
                        digest[k] = (d + 256) as u8;
                        borrow = 1;
                    } else {
                        digest[k] = d as u8;
                        borrow = 0;
                    }
                }
            }
            expected = Some(digest.to_vec());
            break;
        }
    }

    let derived = stark_derive_node(&path()).expect("within the retry cap");
    assert_eq!(derived, expected.expect("accepted within the cap"));
}

#[test]
fn stark_signing_is_unsupported_in_software() {
    let sk = SecretKey::<5>::new(path());
    assert_eq!(sk.curve(), Curve::Stark256);
    let node = sk.derive_node().unwrap();
    assert_eq!(node.len(), 32);

    let mut out = vec![0u8; 80];
    assert_eq!(sk.sign(b"m", &mut out), Err(Error::Unimplemented));
    assert!(matches!(sk.public(), Err(Error::Unimplemented)));
}
