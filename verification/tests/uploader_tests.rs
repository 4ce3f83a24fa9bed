use bolos::lock::{Lock, LockError};
use bolos::swapping_buffer::SwappingBuffer;
use bolos::uploader::{Uploader, UploaderError};
use bolos::wrapper::ApduBufferRead;
use bolos::packet::PacketType;

const RAM_SIZE: usize = 9; // 1 (p2) + msg
const FLASH_SIZE: usize = 0;

fn setup() -> Lock<RAM_SIZE, FLASH_SIZE> {
    Lock::new(SwappingBuffer::new())
}

fn payload_chunks(p2: u8, payload: &[u8], max: usize) -> Vec<Vec<u8>> {
    // force first (init) packet
    let mut v: Vec<Vec<u8>> = vec![vec![0xFF, 0xFF, 0, p2, 0]];
    // upload data chunk by chunk
    for chunk in payload.chunks(max) {
        let mut vv = Vec::with_capacity(5 + chunk.len());
        vv.extend_from_slice(&[0xFF, 0xFF, 1, p2, chunk.len() as u8]);
        vv.extend_from_slice(chunk);
        v.push(vv);
    }
    // mark last packet as Last
    v.last_mut().unwrap()[2] = 2;

    v
}

#[test]
fn uploader() {
    let mut buffer = setup();
    let data = payload_chunks(0, b"deadbeef", 2);

    for chunk in data {
        let len = chunk.len() as u32;
        println!("{:x?}", &chunk);
        let input = ApduBufferRead::new(chunk, len).unwrap();

        if let Some(out) = Uploader::new(1)
            .upload(&mut buffer, &input)
            .expect("able to upload")
        {
            assert_eq!(out.p2, 0);
            assert_eq!(out.first, Vec::<u8>::new());
            assert_eq!(out.data, b"deadbeef".to_vec());
        }
    }
}

fn packet(p1: u8, p2: u8, payload: &[u8]) -> ApduBufferRead {
    let mut raw = vec![0xFF, 0xFF, p1, p2, payload.len() as u8];
    raw.extend_from_slice(payload);
    let len = raw.len() as u32;
    ApduBufferRead::new(raw, len).unwrap()
}

#[test]
fn round_trip_with_first_chunk() {
    let mut buffer: Lock<16, 0> = Lock::new(SwappingBuffer::new());

    let r = Uploader::new(7).upload(&mut buffer, &packet(0, 9, b"ab"));
    assert!(matches!(r, Ok(None)));
    let r = Uploader::new(7).upload(&mut buffer, &packet(1, 9, b"cde"));
    assert!(matches!(r, Ok(None)));
    let out = Uploader::new(7)
        .upload(&mut buffer, &packet(2, 9, b"fg"))
        .expect("able to upload")
        .expect("complete");

    assert_eq!(out.p2, 9);
    assert_eq!(out.first, b"ab".to_vec());
    assert_eq!(out.data, b"cdefg".to_vec());
}

#[test]
fn add_without_init_is_rejected() {
    let mut buffer = setup();
    let r = Uploader::new(1).upload(&mut buffer, &packet(1, 0, b"xy"));
    assert!(matches!(r, Err(UploaderError::Lock(LockError::NotLocked))));
}

#[test]
fn last_without_init_is_rejected() {
    let mut buffer = setup();
    let r = Uploader::new(1).upload(&mut buffer, &packet(2, 0, b"xy"));
    assert!(matches!(r, Err(UploaderError::Lock(LockError::NotLocked))));
}

#[test]
fn second_accessor_is_busy() {
    let mut buffer = setup();
    let r = Uploader::new(1).upload(&mut buffer, &packet(0, 0, b"ab"));
    assert!(matches!(r, Ok(None)));
    let r = Uploader::new(2).upload(&mut buffer, &packet(0, 0, b"ab"));
    assert!(matches!(r, Err(UploaderError::Lock(LockError::Busy))));
    let r = Uploader::new(2).upload(&mut buffer, &packet(1, 0, b"ab"));
    assert!(matches!(r, Err(UploaderError::Lock(LockError::BadId))));
}

#[test]
fn unknown_packet_type_is_rejected() {
    let mut buffer = setup();
    let r = Uploader::new(1).upload(&mut buffer, &packet(5, 0, b""));
    assert!(matches!(r, Err(UploaderError::PacketTypeParseError)));
}

#[test]
fn overflowing_payload_is_rejected() {
    let mut buffer: Lock<2, 0> = Lock::new(SwappingBuffer::new());
    let r = Uploader::new(1).upload(&mut buffer, &packet(0, 0, b"abcdef"));
    assert!(matches!(
        r,
        Err(UploaderError::Nvm(bolos::swapping_buffer::NVMError::Overflow))
    ));
}

#[test]
fn packet_type_parsing() {
    assert!(PacketType::new(0).unwrap().is_init());
    assert!(PacketType::new(1).unwrap().is_next());
    assert!(PacketType::new(2).unwrap().is_last());
    assert!(PacketType::new(3).is_err());
    assert_eq!(PacketType::new(2).unwrap().to_u8(), 2);
}
