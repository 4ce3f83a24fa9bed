use bolos::from_bytes::FromBytes;
use bolos::math::{cmp, modm};
use bolos::object_list::ObjectList;
use bolos::pic::{correct, PIC};
use std::cmp::Ordering;
use bolos::stax_ui::{StaxBackend, MAX_ITEMS};
use bolos::panic_traits::LedgerUnwrap;
use bolos::nanos_ui::NanoSBackend;

struct Data {
    number: u32,
}

impl FromBytes for Data {
    type Error = ();

    fn from_bytes(input: &[u8]) -> Result<(usize, Self), ()> {
        if input.len() < 4 {
            return Err(());
        }
        let number = u32::from_be_bytes([input[0], input[1], input[2], input[3]]);
        Ok((4, Data { number }))
    }
}

fn generate_data(len: usize) -> Vec<u8> {
    // a fixed linear congruential stream stands in for arbitrary input
    let mut state: u32 = 0x1234_5678;
    let mut num = Vec::with_capacity(len * 4);
    for _ in 0..len {
        state = state.wrapping_mul(1664525).wrapping_add(1013904223);
        num.extend_from_slice(&state.to_be_bytes());
    }
    num
}

#[test]
fn parse_object_list() {
    let num_objs = 50;

    let data = generate_data(num_objs);
    let (mut list, consumed) = ObjectList::<Data>::new(&data, 50).unwrap();
    assert_eq!(consumed, data.len());

    let mut bytes = &data[..];
    let mut count = 0;

    while let Some(obj) = list.parse_next() {
        let number = u32::from_be_bytes([bytes[0], bytes[1], bytes[2], bytes[3]]);
        bytes = &bytes[4..];
        assert_eq!(number, obj.number);
        count += 1;
    }

    assert_eq!(num_objs, count);
}

#[test]
fn object_list_cursor() {
    let data = generate_data(3);
    let (mut list, _) = ObjectList::<Data>::new(&data, 3).unwrap();
    assert_eq!(list.data_index(), 0);
    let peeked = list.peek_next().unwrap().number;
    assert_eq!(list.data_index(), 0);
    let first = list.parse_next().unwrap().number;
    assert_eq!(peeked, first);
    assert_eq!(list.data_index(), 4);
    list.set_data_index(0);
    assert_eq!(list.parse_next().unwrap().number, first);
}

#[test]
fn object_list_rejects_truncated_input() {
    let data = generate_data(2);
    assert!(ObjectList::<Data>::new(&data[..7], 2).is_err());
}

#[test]
fn pic_correction_applies_offset_exactly_once() {
    // simulated nonzero load offset
    let offset = 0x0c0de000usize;
    let addr = 0x1000usize;

    let once = correct(addr, offset);
    assert_eq!(once, 0x0c0df000);

    // correcting twice double-shifts: never cache a corrected address
    let twice = correct(once, offset);
    assert_ne!(twice, once);

    // on a host build the offset is zero and correction is the identity
    assert_eq!(correct(addr, 0), addr);
}

#[test]
fn pic_wrapper_is_identity_on_host() {
    let v = PIC::new(42u32);
    assert_eq!(*v.get_ref(), 42);
    let mut v = PIC::new(7u32);
    *v.get_mut() = 8;
    assert_eq!(v.into_inner(), 8);
}

#[test]
fn big_endian_compare() {
    assert_eq!(cmp(&[0, 1, 2], &[0, 1, 2]), Ok(Ordering::Equal));
    assert_eq!(cmp(&[0, 1, 2], &[0, 2, 0]), Ok(Ordering::Less));
    assert_eq!(cmp(&[9, 1, 2], &[0, 2, 0]), Ok(Ordering::Greater));
}

#[test]
fn big_endian_modulo() {
    let mut v = vec![0u8, 0, 200];
    modm(&mut v, &[0, 0, 58]).unwrap();
    // 200 mod 58 == 26
    assert_eq!(v, vec![0, 0, 26]);

    let mut v = vec![1u8, 0];
    modm(&mut v, &[0, 58]).unwrap();
    // 256 mod 58 == 24
    assert_eq!(v, vec![0, 24]);
}

#[test]
fn stax_slots() {

    let mut ui = StaxBackend::new();
    assert!(ui.can_fit_item());
    assert!(ui.current_item().is_some());

    let mut advanced = 0;
    while ui.advance_item() {
        advanced += 1;
    }
    assert_eq!(advanced, MAX_ITEMS - 1);
    assert!(!ui.can_fit_item());
    assert!(ui.current_item().is_none());

    ui.reset_ui();
    assert!(ui.can_fit_item());

    ui.set_item(2);
    assert!(ui.can_fit_item());

    assert!(!ui.expert());
    ui.toggle_expert();
    assert!(ui.expert());
}

#[test]
fn ledger_unwrap_helpers() {

    let r: Result<u32, ()> = Ok(5);
    assert_eq!(r.ledger_unwrap(), 5);
    let o: Option<u32> = Some(6);
    assert_eq!(o.ledger_expect("present"), 6);
}

#[test]
fn nanos_line_split() {

    let mut ui = NanoSBackend::new();

    // fits in one line
    ui.split_value_field(b"short\0");
    assert!(!ui.expert());
    ui.toggle_expert();
    assert!(ui.expert());

    // needs both lines: 17 + 5 characters
    ui.split_value_field(b"abcdefghijklmnopqrstuv\0");
}
