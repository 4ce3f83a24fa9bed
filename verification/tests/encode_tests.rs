use bolos::encode::{bs58_encode, convert_bits, hex_encode, ConvertBitsError};

#[test]
fn convert_bits_eight_to_five() {
    // 0xff 0x80 = 1111 1111 1000 0000 -> 11111 11110 00000 0(0000)
    let mut out = vec![0u8; 4];
    convert_bits::<8, 5>(&[0xff, 0x80], &mut out, true).unwrap();
    assert_eq!(out, vec![0x1f, 0x1e, 0x00, 0x00]);
}

#[test]
fn convert_bits_five_to_eight_round_trip() {
    let mut packed = vec![0u8; 5];
    convert_bits::<8, 5>(&[0xde, 0xad, 0xbe], &mut packed, true).unwrap();
    let mut unpacked = vec![0u8; 4];
    convert_bits::<5, 8>(&packed, &mut unpacked, false).unwrap();
    assert_eq!(&unpacked[..3], &[0xde, 0xad, 0xbe]);
}

#[test]
fn convert_bits_rejects_bad_sizes() {
    let mut out = vec![0u8; 8];
    assert_eq!(
        convert_bits::<0, 5>(&[1], &mut out, true),
        Err(ConvertBitsError::InvalidConversion { from: 0, to: 5 })
    );
    assert_eq!(
        convert_bits::<8, 9>(&[1], &mut out, true),
        Err(ConvertBitsError::InvalidConversion { from: 8, to: 9 })
    );
}

#[test]
fn convert_bits_rejects_small_buffer() {
    let mut out = vec![0u8; 1];
    assert_eq!(
        convert_bits::<8, 5>(&[1, 2], &mut out, true),
        Err(ConvertBitsError::OutputBufferTooSmall { expected: 4 })
    );
}

#[test]
fn convert_bits_rejects_oversized_words() {
    let mut out = vec![0u8; 8];
    assert_eq!(
        convert_bits::<5, 8>(&[3, 32, 1], &mut out, true),
        Err(ConvertBitsError::InvalidData { idx: 1, elem: 32 })
    );
}

#[test]
fn convert_bits_rejects_nonzero_padding() {
    // a lone 5-bit word cannot come from any 8-bit stream
    let mut out = vec![0u8; 1];
    assert_eq!(
        convert_bits::<5, 8>(&[1], &mut out, false),
        Err(ConvertBitsError::InvalidPadding)
    );
}

#[test]
fn hex_encodes_lowercase() {
    let mut out = vec![0u8; 8];
    let n = hex_encode(&[0xde, 0xad, 0xbe, 0xef], &mut out).unwrap();
    assert_eq!(n, 8);
    assert_eq!(&out[..n], b"deadbeef");
}

#[test]
fn hex_rejects_small_buffer() {
    let mut out = vec![0u8; 7];
    assert!(hex_encode(&[0xde, 0xad, 0xbe, 0xef], &mut out).is_err());
}

#[test]
fn bs58_known_values() {
    let mut out = vec![0u8; 16];

    let n = bs58_encode(&[], &mut out).unwrap();
    assert_eq!(n, 0);

    let n = bs58_encode(&[0], &mut out).unwrap();
    assert_eq!(&out[..n], b"1");

    let n = bs58_encode(&[57], &mut out).unwrap();
    assert_eq!(&out[..n], b"z");

    let n = bs58_encode(&[58], &mut out).unwrap();
    assert_eq!(&out[..n], b"21");

    let n = bs58_encode(&[0, 0, 58], &mut out).unwrap();
    assert_eq!(&out[..n], b"1121");

    // "hello" in base58
    let n = bs58_encode(b"hello", &mut out).unwrap();
    assert_eq!(&out[..n], b"Cn8eVZg");
}

#[test]
fn bs58_rejects_small_buffer() {
    let mut out = vec![0u8; 2];
    assert!(bs58_encode(b"hello", &mut out).is_err());
}
