//! Hardware-wallet support library: position-independent statics, lazy
//! initialization, curve-agnostic key derivation and signing over a software
//! cryptography backend, APDU envelope parsing, a multi-packet upload
//! protocol, and instruction dispatch.

pub mod apdu_errors;
pub mod backend;
pub mod bech32;
pub mod bip32;
pub mod crypto;
pub mod ecfp256;
pub mod encode;
pub mod from_bytes;
pub mod handlers;
pub mod lazy;
pub mod lock;
pub mod math;
pub mod nanos_ui;
pub mod object_list;
pub mod packet;
pub mod panic_traits;
pub mod pic;
pub mod sapling;
pub mod stark;
pub mod stax_ui;
pub mod swapping_buffer;
pub mod ui;
pub mod uploader;
pub mod wrapper;

pub use apdu_errors::{ApduError, ConvertApduError};
pub use bip32::BIP32Path;
pub use crypto::{Curve, ECCInfo, Error, Mode};
pub use ecfp256::{PublicKey, SecretKey};
pub use encode::{convert_bits, ConvertBitsError, OutputBufferTooSmall};
pub use from_bytes::FromBytes;
pub use handlers::{apdu_dispatch, ApduHandler, Handler, HandlerRule};
pub use lazy::Lazy;
pub use lock::{Lock, LockError};
pub use nanos_ui::NanoSBackend;
pub use object_list::ObjectList;
pub use packet::PacketType;
pub use panic_traits::LedgerUnwrap;
pub use pic::PIC;
pub use stax_ui::StaxBackend;
pub use swapping_buffer::{NVMError, SwappingBuffer};
pub use uploader::{Uploader, UploaderError, UploaderOutput};
pub use wrapper::{ApduBufferRead, ApduBufferReadError};
