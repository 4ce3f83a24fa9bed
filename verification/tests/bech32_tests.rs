use bolos::bech32::{encode, estimate_size, Bech32Writer, Variant};

const EXPECTED: &str = "email1dpjkcmr0gpax7mnyv9uzucmggydtp0";
const EXPECTEDM: &str = "email1dpjkcmr0gpax7mnyv9uzucmgaca8yd";
const HRP: &str = "email";
const INPUT: [u8; 15] = *b"hello@zondax.ch";

#[test]
fn estimate() {
    assert_eq!(
        EXPECTED.as_bytes().len(),
        Bech32Writer::estimate_size(HRP.len(), INPUT.len())
    );

    assert_eq!(
        1 + 6 + 1 + HRP.len() + 1,
        Bech32Writer::estimate_size(HRP.len(), 1)
    );
}

#[test]
fn estimatem() {
    assert_eq!(
        EXPECTEDM.as_bytes().len(),
        Bech32Writer::estimate_size(HRP.len(), INPUT.len())
    );

    assert_eq!(
        1 + 6 + 1 + HRP.len() + 1,
        Bech32Writer::estimate_size(HRP.len(), 1)
    );
}

#[test]
fn encode_with_writer() {
    let out = vec![0u8; Bech32Writer::estimate_size(HRP.len(), INPUT.len())];

    let mut encoder = Bech32Writer::new(HRP, out, Variant::Bech32).expect("unable to write HRP");
    encoder.write(&INPUT).expect("unable to write data");
    let (written, out) = encoder.finalize().expect("unable to finalize");

    let encoded = std::str::from_utf8(&out).expect("invalid utf8 bytes");

    assert_eq!(&encoded[..written], EXPECTED, "encoding difference");
}

#[test]
fn encodem_with_writer() {
    let out = vec![0u8; Bech32Writer::estimate_size(HRP.len(), INPUT.len())];

    let mut encoder = Bech32Writer::new(HRP, out, Variant::Bech32m).expect("unable to write HRP");
    encoder.write(&INPUT).expect("unable to write data");
    let (written, out) = encoder.finalize().expect("unable to finalize");

    let encoded = std::str::from_utf8(&out).expect("invalid utf8 bytes");

    assert_eq!(&encoded[..written], EXPECTEDM, "encoding difference");
}

#[test]
fn encode_with_fn() {
    let out = vec![0u8; estimate_size(HRP.len(), INPUT.len())];
    let (written, out) = encode(HRP, &INPUT, out, Variant::Bech32).expect("unable to encode bech32");

    assert_eq!(&out[..written], EXPECTED.as_bytes());
}

const HRPS: [&str; 5] = [
    "a",
    "an83characterlonghumanreadablepartthatcontainsthenumber1andtheexcludedcharactersbio",
    "abcdef",
    "1",
    "split",
];

const BECH32_ENCODINGS: [&str; 5] = ["A12UEL5L",
"an83characterlonghumanreadablepartthatcontainsthenumber1andtheexcludedcharactersbio1tt5tgs",
"abcdef1w3jhxarfdenjqmn4d43x2u3qxyetjagk",
"11fysxxctwyp3k7atwwss82upqw3hjqarhv4h8g7fqw3mk7grpdejzqarfv5sx67fqd3skxetnyp6hqfqnfpy",
"split1wd5xz6m9ypkhjgrgv9hxggr4wpehgun9v9kjqar0yp4x76twyp6xsefqvdex2actnr6mw"];

#[test]
fn valid_checksum_bech32_0() {
    const INPUT: [u8; 0] = *b"";
    let out = vec![0u8; estimate_size(HRPS[0].len(), INPUT.len())];
    let (_, out) = encode(HRPS[0], &INPUT, out, Variant::Bech32).expect("unable to encode bech32");
    let encoded = std::str::from_utf8(&out).expect("invalid utf8 bytes");

    assert_eq!(BECH32_ENCODINGS[0].to_lowercase(), encoded.to_lowercase());
}

#[test]
fn valid_checksum_bech32_1() {
    const INPUT: [u8; 0] = *b"";
    let out = vec![0u8; estimate_size(HRPS[1].len(), INPUT.len())];
    let (_, out) = encode(HRPS[1], &INPUT, out, Variant::Bech32).expect("unable to encode bech32");
    let encoded = std::str::from_utf8(&out).expect("invalid utf8 bytes");

    assert_eq!(BECH32_ENCODINGS[1].to_lowercase(), encoded.to_lowercase());
}

#[test]
fn valid_checksum_bech32_2() {
    const INPUT: [u8; 16] = *b"testing number 1";
    let out = vec![0u8; estimate_size(HRPS[2].len(), INPUT.len())];
    let (written, out) =
        encode(HRPS[2], &INPUT, out, Variant::Bech32).expect("unable to encode bech32");
    let encoded = std::str::from_utf8(&out[..written]).expect("invalid utf8 bytes");

    assert_eq!(BECH32_ENCODINGS[2].to_lowercase(), encoded.to_lowercase());
}

#[test]
fn valid_checksum_bech32_3() {
    const INPUT: [u8; 48] = *b"I can count up to twenty two and tie my laces up";
    let out = vec![0u8; estimate_size(HRPS[3].len(), INPUT.len())];
    let (written, out) =
        encode(HRPS[3], &INPUT, out, Variant::Bech32).expect("unable to encode bech32");
    let encoded = std::str::from_utf8(&out[..written]).expect("invalid utf8 bytes");

    assert_eq!(BECH32_ENCODINGS[3].to_lowercase(), encoded.to_lowercase());
}

#[test]
fn valid_checksum_bech32_4() {
    const INPUT: [u8; 39] = *b"shake my hand upstream to join the crew";
    let out = vec![0u8; estimate_size(HRPS[4].len(), INPUT.len())];
    let (_, out) = encode(HRPS[4], &INPUT, out, Variant::Bech32).expect("unable to encode bech32");
    let encoded = std::str::from_utf8(&out).expect("invalid utf8 bytes");

    assert_eq!(BECH32_ENCODINGS[4].to_lowercase(), encoded.to_lowercase());
}

const BECH32M_HRPS: [&str; 7] = [
    "a",
    "a",
    "an83characterlonghumanreadablepartthatcontainsthetheexcludedcharactersbioandnumber1",
    "abcdef",
    "1",
    "split",
    "?",
];
const BECH32M_ENCODINGS: [&str; 7] = ["A1LQFN3A", "a1lqfn3a",
    "an83characterlonghumanreadablepartthatcontainsthetheexcludedcharactersbioandnumber11sg7hg6",
    "abcdef1fysxxctwyp3k7atwwss82upqw3hjqarhv4h8g7fqw3mk7grpdejzqarfv5sx67fqd3skxetnyp6hq2jj757",
    "11wd5xz6m9ypkhjgrgv9hxggr4wpehgun9v9kjqar0yp4x76twyp6xsefqvdex2acwrq0w6",
    "split1wd5xz6m9ypkhjgrgv9hxggr4wpehgun9v9kjqar0yp4x76twyp6xsefqvdex2ac70nk7v",
    "?1t9hsrndf9p"];

#[test]
fn valid_checksum_bech32m_0() {
    const INPUT: [u8; 0] = *b"";
    let out = vec![0u8; estimate_size(BECH32M_HRPS[0].len(), INPUT.len())];
    let (_, out) =
        encode(BECH32M_HRPS[0], &INPUT, out, Variant::Bech32m).expect("unable to encode bech32m");
    let encoded = std::str::from_utf8(&out).expect("invalid utf8 bytes");

    assert_eq!(BECH32M_ENCODINGS[0].to_lowercase(), encoded.to_lowercase());
}

#[test]
fn valid_checksum_bech32m_1() {
    const INPUT: [u8; 0] = *b"";
    let out = vec![0u8; estimate_size(BECH32M_HRPS[1].len(), INPUT.len())];
    let (_, out) =
        encode(BECH32M_HRPS[1], &INPUT, out, Variant::Bech32m).expect("unable to encode bech32m");
    let encoded = std::str::from_utf8(&out).expect("invalid utf8 bytes");

    assert_eq!(BECH32M_ENCODINGS[1].to_lowercase(), encoded.to_lowercase());
}

#[test]
fn valid_checksum_bech32m_2() {
    const INPUT: [u8; 0] = *b"";
    let out = vec![0u8; estimate_size(BECH32M_HRPS[2].len(), INPUT.len())];
    let (_, out) =
        encode(BECH32M_HRPS[2], &INPUT, out, Variant::Bech32m).expect("unable to encode bech32m");
    let encoded = std::str::from_utf8(&out).expect("invalid utf8 bytes");

    assert_eq!(BECH32M_ENCODINGS[2].to_lowercase(), encoded.to_lowercase());
}

#[test]
fn valid_checksum_bech32m_3() {
    const INPUT: [u8; 48] = *b"I can count up to twenty two and tie my laces up";
    let out = vec![0u8; estimate_size(BECH32M_HRPS[3].len(), INPUT.len())];
    let (_, out) =
        encode(BECH32M_HRPS[3], &INPUT, out, Variant::Bech32m).expect("unable to encode bech32m");
    let encoded = std::str::from_utf8(&out).expect("invalid utf8 bytes");

    assert_eq!(BECH32M_ENCODINGS[3].to_lowercase(), encoded.to_lowercase());
}

#[test]
fn valid_checksum_bech32m_4() {
    const INPUT: [u8; 39] = *b"shake my hand upstream to join the crew";
    let out = vec![0u8; estimate_size(BECH32M_HRPS[4].len(), INPUT.len())];
    let (_, out) =
        encode(BECH32M_HRPS[4], &INPUT, out, Variant::Bech32m).expect("unable to encode bech32m");
    let encoded = std::str::from_utf8(&out).expect("invalid utf8 bytes");

    assert_eq!(BECH32M_ENCODINGS[4].to_lowercase(), encoded.to_lowercase());
}

#[test]
fn valid_checksum_bech32m_5() {
    const INPUT: [u8; 39] = *b"shake my hand upstream to join the crew";
    let out = vec![0u8; estimate_size(BECH32M_HRPS[5].len(), INPUT.len())];
    let (written, out) =
        encode(BECH32M_HRPS[5], &INPUT, out, Variant::Bech32m).expect("unable to encode bech32m");
    let encoded = std::str::from_utf8(&out[..written]).expect("invalid utf8 bytes");

    assert_eq!(BECH32M_ENCODINGS[5].to_lowercase(), encoded.to_lowercase());
}

#[test]
fn valid_checksum_bech32m_6() {
    const INPUT: [u8; 2] = *b"Yo";
    let out = vec![0u8; estimate_size(BECH32M_HRPS[6].len(), INPUT.len())];
    let (_, out) =
        encode(BECH32M_HRPS[6], &INPUT, out, Variant::Bech32m).expect("unable to encode bech32m");
    let encoded = std::str::from_utf8(&out).expect("invalid utf8 bytes");

    assert_eq!(BECH32M_ENCODINGS[6].to_lowercase(), encoded.to_lowercase());
}

#[test]
fn encode_refuses_short_buffer() {
    let out = vec![0u8; estimate_size(HRP.len(), INPUT.len()) - 1];
    assert!(encode(HRP, &INPUT, out, Variant::Bech32).is_err());
}

#[test]
fn u5_and_charset() {
    assert!(bolos::bech32::u5::try_from_u8(32).is_err());
    let v = bolos::bech32::u5::try_from_u8(0).expect("in range");
    assert_eq!(v.to_u8(), 0);
    assert_eq!(v.to_char(), 'q');
    let cs = bolos::bech32::u5::charset();
    assert_eq!(cs[31], 'l');
}
