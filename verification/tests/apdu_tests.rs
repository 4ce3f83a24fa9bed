use bolos::apdu_errors::{ApduError, ConvertApduError};
use bolos::wrapper::{ApduBufferRead, ApduBufferReadError};
use bolos::lock::LockError;
use bolos::swapping_buffer::NVMError;
use bolos::uploader::UploaderError;
use bolos::handlers::{apdu_dispatch, Handler, HandlerRule};

#[test]
fn new_rejects_short_buffer() {
    let r = ApduBufferRead::new(vec![1, 2, 3], 5);
    assert_eq!(
        r.err().unwrap(),
        ApduBufferReadError::LengthMismatch {
            expected: 5,
            got: 3
        }
    );
}

#[test]
fn new_rejects_short_rx() {
    let r = ApduBufferRead::new(vec![1, 2, 3, 4, 5, 6], 4);
    assert_eq!(
        r.err().unwrap(),
        ApduBufferReadError::LengthMismatch {
            expected: 5,
            got: 4
        }
    );
}

#[test]
fn new_rejects_buffer_shorter_than_rx() {
    let r = ApduBufferRead::new(vec![1, 2, 3, 4, 5, 6], 7);
    assert_eq!(
        r.err().unwrap(),
        ApduBufferReadError::LengthMismatch {
            expected: 7,
            got: 6
        }
    );
}

#[test]
fn header_accessors() {
    let buf = ApduBufferRead::new(vec![0xE0, 0x01, 0x02, 0x03, 0x00], 5).unwrap();
    assert_eq!(buf.cla(), 0xE0);
    assert_eq!(buf.ins(), 0x01);
    assert_eq!(buf.p1(), 0x02);
    assert_eq!(buf.p2(), 0x03);
}

#[test]
fn payload_reads_declared_bytes() {
    let buf = ApduBufferRead::new(vec![0, 0, 0, 0, 3, 7, 8, 9, 10], 9).unwrap();
    assert_eq!(buf.payload().unwrap(), vec![7, 8, 9]);
}

#[test]
fn payload_rejects_overclaiming_length() {
    let buf = ApduBufferRead::new(vec![0, 0, 0, 0, 5, 7, 8], 7).unwrap();
    assert_eq!(
        buf.payload().err().unwrap(),
        ApduBufferReadError::NotEnoughPayload {
            expected: 5,
            got: 2
        }
    );
}

#[test]
fn write_zeroes_the_buffer() {
    let buf = ApduBufferRead::new(vec![1, 2, 3, 4, 2, 6, 7], 7).unwrap();
    let raw = buf.write();
    assert_eq!(raw, vec![0u8; 7]);
}

#[test]
fn status_codes_round_trip() {
    let all = [
        ApduError::ExecutionError,
        ApduError::WrongLength,
        ApduError::ApduCodeEmptyBuffer,
        ApduError::OutputBufferTooSmall,
        ApduError::DataInvalid,
        ApduError::ApduCodeConditionsNotSatisfied,
        ApduError::CommandNotAllowed,
        ApduError::BadKeyExample,
        ApduError::InvalidP1P2,
        ApduError::InsNotSupported,
        ApduError::ClaNotSupported,
        ApduError::Unknown,
        ApduError::SignVerifyError,
        ApduError::Success,
        ApduError::Busy,
    ];
    for e in all {
        assert_eq!(ApduError::try_from_code(e.code()).unwrap(), e);
    }
    assert_eq!(ApduError::Success.code(), 0x9000);
    assert_eq!(ApduError::ClaNotSupported.code(), 0x6E00);
    assert_eq!(
        ApduError::try_from_code(0x1234).err().unwrap(),
        ConvertApduError::Unknown(0x1234)
    );
}

#[test]
fn status_codes_from_bytes() {
    assert_eq!(
        ApduError::try_from_bytes(&[0x90, 0x00]).unwrap(),
        ApduError::Success
    );
    assert_eq!(
        ApduError::try_from_bytes(&[0x90, 0x00, 0x00]).err().unwrap(),
        ConvertApduError::Length {
            expected: 2,
            found: 3
        }
    );
}

#[test]
fn uploader_error_maps_to_status() {

    assert_eq!(
        ApduError::from(UploaderError::PacketTypeParseError),
        ApduError::InvalidP1P2
    );
    assert_eq!(
        ApduError::from(UploaderError::Nvm(NVMError::Overflow)),
        ApduError::DataInvalid
    );
    assert_eq!(
        ApduError::from(UploaderError::Lock(LockError::NotLocked)),
        ApduError::ExecutionError
    );
    assert_eq!(
        ApduError::from(UploaderError::Lock(LockError::Busy)),
        ApduError::Busy
    );
}

type TestHandlerFn = fn(ApduBufferRead) -> (Result<u32, ApduError>, u32);

fn first_handler(_buf: ApduBufferRead) -> (Result<u32, ApduError>, u32) {
    (Ok(11), 0)
}

fn fallback_handler(_buf: ApduBufferRead) -> (Result<u32, ApduError>, u32) {
    (Ok(22), 4)
}

#[test]
fn dispatch_selects_first_match() {

    let handlers: Vec<Handler<TestHandlerFn>> = vec![
        Handler::new(HandlerRule::Instruction(0x01), first_handler as TestHandlerFn),
        Handler::new(HandlerRule::Always, fallback_handler as TestHandlerFn),
    ];

    let mut flags = 99u32;
    let buf = ApduBufferRead::new(vec![0xE0, 0x01, 0, 0, 0], 5).unwrap();
    assert_eq!(apdu_dispatch::<0xE0, _>(&mut flags, buf, &handlers), Ok(11));
    assert_eq!(flags, 0);

    let buf = ApduBufferRead::new(vec![0xE0, 0x55, 0, 0, 0], 5).unwrap();
    assert_eq!(apdu_dispatch::<0xE0, _>(&mut flags, buf, &handlers), Ok(22));
    assert_eq!(flags, 4);

    let buf = ApduBufferRead::new(vec![0xAA, 0x55, 0, 0, 0], 5).unwrap();
    assert_eq!(
        apdu_dispatch::<0xE0, _>(&mut flags, buf, &handlers),
        Err(ApduError::ClaNotSupported)
    );
}

#[test]
fn dispatch_without_match_is_not_allowed() {

    let handlers: Vec<Handler<TestHandlerFn>> = vec![Handler::new(
        HandlerRule::Instruction(0x01),
        first_handler as TestHandlerFn,
    )];
    let mut flags = 0u32;
    let buf = ApduBufferRead::new(vec![0xE0, 0x02, 0, 0, 0], 5).unwrap();
    assert_eq!(
        apdu_dispatch::<0xE0, _>(&mut flags, buf, &handlers),
        Err(ApduError::CommandNotAllowed)
    );
}
