//! Multi-packet upload protocol.
//!
//! A payload too large for one APDU arrives as an `Init` packet (which
//! takes the buffer lock, resets the buffer, stores the P2 tag and the
//! declared first chunk), zero or more `Add` packets (which append), and
//! one `Last` packet (which appends, hands the whole accumulated payload
//! back split at the first-chunk boundary, and releases the lock).
//!
//! Two hardening choices keep the session state consistent with the
//! buffer: an `Init` packet always re-arms the first-chunk length (zero
//! until its payload actually lands), and an `Init` whose tag byte
//! cannot even be stored releases the lock instead of holding it over an
//! empty buffer.

use vstd::prelude::*;
use crate::apdu_errors::ApduError;
use crate::lock::{Lock, LockError, LockView};
use crate::packet::PacketType;
use crate::swapping_buffer::NVMError;
use crate::wrapper::ApduBufferRead;

verus! {

/// Why an upload packet was rejected.
#[derive(Clone, Copy, PartialEq, Eq, Structural, Debug)]
pub enum UploaderError {
    /// P1 carried no known packet type.
    PacketTypeParseError,
    /// The packet type fits no step of the protocol.
    PacketTypeInvalid,
    /// The buffer's lock refused the accessor.
    Lock(LockError),
    /// The buffer could not hold the payload.
    Nvm(NVMError),
}

/// A completed upload: the P2 tag of the session, the declared first
/// chunk, and the rest of the reassembled payload.
pub struct UploaderOutput {
    pub p2: u8,
    pub first: Vec<u8>,
    pub data: Vec<u8>,
}

/// What one protocol step yields.
pub enum UploadOutcome {
    /// The packet was consumed; the session continues.
    Incomplete,
    /// A `Last` packet completed the session.
    Complete { p2: u8, first: Seq<u8>, rest: Seq<u8> },
    /// The packet was rejected.
    Fail { err: UploaderError },
}

/// One step of the upload protocol over the lock's ghost state.
///
/// `payload` is the packet's payload when the envelope declares one that
/// is actually present, `None` otherwise (a missing payload is not an
/// error: `Init` and `Add` simply append nothing).
pub open spec fn spec_upload_step(
    s: LockView,
    cap: nat,
    acc: u32,
    p1: u8,
    p2: u8,
    payload: Option<Seq<u8>>,
) -> (LockView, UploadOutcome) {
    if p1 > 2 {
        (s, UploadOutcome::Fail { err: UploaderError::PacketTypeParseError })
    } else if p1 == 0 {
        // Init: take or re-enter the lock, reset, store the tag and chunk
        if s.owner is Some && s.owner != Some(acc) {
            (s, UploadOutcome::Fail { err: UploaderError::Lock(LockError::Busy) })
        } else if 1 > cap {
            (
                LockView { owner: None, init_len: 0, contents: Seq::empty() },
                UploadOutcome::Fail { err: UploaderError::Nvm(NVMError::Overflow) },
            )
        } else {
            let base = LockView { owner: Some(acc), init_len: 0, contents: seq![p2] };
            match payload {
                None => (base, UploadOutcome::Incomplete),
                Some(pl) => if 1 + pl.len() <= cap {
                    (
                        LockView {
                            owner: Some(acc),
                            init_len: pl.len(),
                            contents: seq![p2] + pl,
                        },
                        UploadOutcome::Incomplete,
                    )
                } else {
                    (base, UploadOutcome::Fail { err: UploaderError::Nvm(NVMError::Overflow) })
                },
            }
        }
    } else if s.owner is None {
        (s, UploadOutcome::Fail { err: UploaderError::Lock(LockError::NotLocked) })
    } else if s.owner != Some(acc) {
        (s, UploadOutcome::Fail { err: UploaderError::Lock(LockError::BadId) })
    } else if p1 == 1 {
        // Add: append the payload, if any
        match payload {
            None => (s, UploadOutcome::Incomplete),
            Some(pl) => if s.contents.len() + pl.len() <= cap {
                (
                    LockView { owner: s.owner, init_len: s.init_len, contents: s.contents + pl },
                    UploadOutcome::Incomplete,
                )
            } else {
                (s, UploadOutcome::Fail { err: UploaderError::Nvm(NVMError::Overflow) })
            },
        }
    } else {
        // Last: append, hand everything back, release the lock
        let data = match payload {
            None => s.contents,
            Some(pl) => s.contents + pl,
        };
        let fits = match payload {
            None => true,
            Some(pl) => s.contents.len() + pl.len() <= cap,
        };
        if !fits {
            (s, UploadOutcome::Fail { err: UploaderError::Nvm(NVMError::Overflow) })
        } else {
            (
                LockView { owner: None, init_len: 0, contents: Seq::empty() },
                UploadOutcome::Complete {
                    p2: data[0],
                    first: data.subrange(1, 1 + s.init_len as int),
                    rest: data.subrange(1 + s.init_len as int, data.len() as int),
                },
            )
        }
    }
}

/// The payload an envelope carries for the upload protocol: present only
/// when the declared length fits inside the buffer.
pub open spec fn spec_envelope_payload(env: Seq<u8>) -> Option<Seq<u8>> {
    let plen = env[4] as int;
    if env.len() >= 5 + plen {
        Some(env.subrange(5, 5 + plen))
    } else {
        None
    }
}

/// Upload protocol driver for one accessor.
pub struct Uploader {
    accessor: u32,
}

impl Uploader {
    /// The accessor token this driver locks the buffer with.
    pub closed spec fn spec_accessor(self) -> u32 {
        self.accessor
    }

    /// Instantiate a new [`Uploader`] for the given accessor.
    pub fn new(accessor: u32) -> (r: Self)
        ensures
            r.spec_accessor() == accessor,
    {
        Uploader { accessor }
    }

    /// Consume the given `input` packet; returns the whole reassembled
    /// payload once the `Last` packet arrives.
    ///
    /// The effect on the session state, and which packets are rejected
    /// with which error, is exactly one [`spec_upload_step`].
    pub fn upload<const X: usize, const Y: usize>(
        self,
        buffer: &mut Lock<X, Y>,
        input: &ApduBufferRead,
    ) -> (r: Result<Option<UploaderOutput>, UploaderError>)
        requires
            old(buffer).inv(),
            X + Y <= usize::MAX,
        ensures
            final(buffer).inv(),
            ({
                let (s2, oc) = spec_upload_step(
                    old(buffer)@,
                    X as nat + Y as nat,
                    self.spec_accessor(),
                    input@[2],
                    input@[3],
                    spec_envelope_payload(input@),
                );
                &&& final(buffer)@ == s2
                &&& match oc {
                    UploadOutcome::Incomplete => r == Ok::<Option<UploaderOutput>, UploaderError>(
                        None,
                    ),
                    UploadOutcome::Complete { p2, first, rest } => (r matches Ok(o) && o matches
                    Some(out) && out.p2 == p2 && out.first@ == first && out.data@ == rest),
                    UploadOutcome::Fail { err } => r == Err::<Option<UploaderOutput>, _>(err),
                }
            }),
    {
        let p1 = input.p1();
        let packet_type = match PacketType::new(p1) {
            Ok(p) => p,
            Err(_) => {
                return Err(UploaderError::PacketTypeParseError);
            },
        };

        if packet_type.is_init() {
            if let Err(e) = buffer.lock(self.accessor) {
                return Err(UploaderError::Lock(e));
            }
            buffer.reset_buffer();

            let mut tag: Vec<u8> = Vec::new();
            tag.push(input.p2());
            proof {
                assert(tag@ =~= seq![input@[3]]);
            }
            if buffer.write_buffer(tag.as_slice()).is_err() {
                buffer.release();
                return Err(UploaderError::Nvm(NVMError::Overflow));
            }
            match input.payload() {
                Ok(payload) => {
                    if buffer.write_buffer(payload.as_slice()).is_err() {
                        return Err(UploaderError::Nvm(NVMError::Overflow));
                    }
                    buffer.set_init_len(payload.len());
                },
                Err(_) => {},
            }
            Ok(None)
        } else if packet_type.is_next() {
            if let Err(e) = buffer.acquire(self.accessor) {
                return Err(UploaderError::Lock(e));
            }
            match input.payload() {
                Ok(payload) => {
                    if buffer.write_buffer(payload.as_slice()).is_err() {
                        return Err(UploaderError::Nvm(NVMError::Overflow));
                    }
                },
                Err(_) => {},
            }
            Ok(None)
        } else if packet_type.is_last() {
            if let Err(e) = buffer.acquire(self.accessor) {
                return Err(UploaderError::Lock(e));
            }
            match input.payload() {
                Ok(payload) => {
                    if buffer.write_buffer(payload.as_slice()).is_err() {
                        return Err(UploaderError::Nvm(NVMError::Overflow));
                    }
                },
                Err(_) => {},
            }

            let init_len = buffer.init_len();
            let data = buffer.read_exact_and_reset();
            let n = data.len();
            proof {
                assert(1 + init_len as nat <= data@.len());
            }
            let bound = 1 + init_len;

            let p2 = data[0];
            let mut first: Vec<u8> = Vec::new();
            let mut i: usize = 1;
            while i < bound
                invariant
                    bound == 1 + init_len,
                    1 <= i <= bound,
                    bound <= data@.len(),
                    first@ == data@.subrange(1, i as int),
                decreases bound - i,
            {
                first.push(data[i]);
                i += 1;
                proof {
                    assert(data@.subrange(1, i - 1 as int).push(data@[i - 1]) =~= data@.subrange(
                        1,
                        i as int,
                    ));
                }
            }
            let mut rest: Vec<u8> = Vec::new();
            while i < n
                invariant
                    bound == 1 + init_len,
                    bound <= i <= n,
                    n == data@.len(),
                    rest@ == data@.subrange(1 + init_len as int, i as int),
                decreases n - i,
            {
                rest.push(data[i]);
                i += 1;
                proof {
                    assert(data@.subrange(1 + init_len as int, i - 1 as int).push(data@[i - 1])
                        =~= data@.subrange(1 + init_len as int, i as int));
                }
            }

            Ok(Some(UploaderOutput { p2, first, data: rest }))
        } else {
            vstd::pervasive::unreached()
        }
    }
}

impl From<LockError> for UploaderError {
    fn from(e: LockError) -> (r: Self) {
        UploaderError::Lock(e)
    }
}

impl vstd::std_specs::convert::FromSpecImpl<LockError> for UploaderError {
    open spec fn obeys_from_spec() -> bool {
        true
    }

    open spec fn from_spec(e: LockError) -> UploaderError {
        UploaderError::Lock(e)
    }
}

impl From<NVMError> for UploaderError {
    fn from(e: NVMError) -> (r: Self) {
        UploaderError::Nvm(e)
    }
}

impl vstd::std_specs::convert::FromSpecImpl<NVMError> for UploaderError {
    open spec fn obeys_from_spec() -> bool {
        true
    }

    open spec fn from_spec(e: NVMError) -> UploaderError {
        UploaderError::Nvm(e)
    }
}

impl From<UploaderError> for ApduError {
    fn from(e: UploaderError) -> (r: Self) {
        match e {
            UploaderError::PacketTypeInvalid | UploaderError::PacketTypeParseError => {
                ApduError::InvalidP1P2
            },
            UploaderError::Nvm(_) => ApduError::DataInvalid,
            UploaderError::Lock(e) => match e {
                LockError::NotLocked => ApduError::ExecutionError,
                LockError::Busy | LockError::BadId => ApduError::Busy,
            },
        }
    }
}

impl vstd::std_specs::convert::FromSpecImpl<UploaderError> for ApduError {
    open spec fn obeys_from_spec() -> bool {
        true
    }

    open spec fn from_spec(e: UploaderError) -> ApduError {
        match e {
            UploaderError::PacketTypeInvalid | UploaderError::PacketTypeParseError => (
            ApduError::InvalidP1P2),
            UploaderError::Nvm(_) => ApduError::DataInvalid,
            UploaderError::Lock(le) => match le {
                LockError::NotLocked => ApduError::ExecutionError,
                LockError::Busy | LockError::BadId => ApduError::Busy,
            },
        }
    }
}

/// An `Add` or `Last` packet without a preceding unexpired `Init` always
/// fails with the lock-state error, and the session state is untouched.
pub proof fn lemma_upload_needs_init(
    s: LockView,
    cap: nat,
    acc: u32,
    p1: u8,
    p2: u8,
    payload: Option<Seq<u8>>,
)
    requires
        s.owner is None,
        p1 == 1 || p1 == 2,
    ensures
        spec_upload_step(s, cap, acc, p1, p2, payload) == (
            s,
            UploadOutcome::Fail { err: UploaderError::Lock(LockError::NotLocked) },
        ),
{
}

/// The session state after a run of `Add` packets carrying `chunks`.
pub open spec fn spec_run_adds(
    s: LockView,
    cap: nat,
    acc: u32,
    p2: u8,
    chunks: Seq<Seq<u8>>,
) -> LockView
    decreases chunks.len(),
{
    if chunks.len() == 0 {
        s
    } else {
        spec_run_adds(
            spec_upload_step(s, cap, acc, 1, p2, Some(chunks.first())).0,
            cap,
            acc,
            p2,
            chunks.drop_first(),
        )
    }
}

/// While the session stays within capacity, `Add` packets only ever
/// append: the state after a run of them holds the concatenation, every
/// step reporting `Incomplete`.
pub proof fn lemma_run_adds(s: LockView, cap: nat, acc: u32, p2: u8, chunks: Seq<Seq<u8>>)
    requires
        s.owner == Some(acc),
        s.contents.len() + chunks.flatten().len() <= cap,
    ensures
        spec_run_adds(s, cap, acc, p2, chunks) == (LockView {
            owner: Some(acc),
            init_len: s.init_len,
            contents: s.contents + chunks.flatten(),
        }),
        forall|i: int|
            0 <= i < chunks.len() ==> spec_upload_step(
                spec_run_adds(s, cap, acc, p2, chunks.take(i)),
                cap,
                acc,
                1,
                p2,
                Some(chunks[i]),
            ).1 == UploadOutcome::Incomplete,
    decreases chunks.len(),
{
    if chunks.len() == 0 {
        assert(chunks.flatten() =~= Seq::<u8>::empty());
        assert(s.contents + chunks.flatten() =~= s.contents);
        assert(spec_run_adds(s, cap, acc, p2, chunks) == LockView {
            owner: Some(acc),
            init_len: s.init_len,
            contents: s.contents + chunks.flatten(),
        });
    } else {
        let c0 = chunks.first();
        let rest = chunks.drop_first();
        assert(chunks.flatten() =~= c0 + rest.flatten());
        let s1 = LockView {
            owner: Some(acc),
            init_len: s.init_len,
            contents: s.contents + c0,
        };
        assert(spec_upload_step(s, cap, acc, 1, p2, Some(c0)).0 == s1);
        lemma_run_adds(s1, cap, acc, p2, rest);
        assert(s1.contents + rest.flatten() =~= s.contents + chunks.flatten());
        assert forall|i: int| 0 <= i < chunks.len() implies spec_upload_step(
            spec_run_adds(s, cap, acc, p2, chunks.take(i)),
            cap,
            acc,
            1,
            p2,
            Some(chunks[i]),
        ).1 == UploadOutcome::Incomplete by {
            if i == 0 {
                assert(chunks.take(0) =~= Seq::<Seq<u8>>::empty());
            } else {
                assert(chunks.take(i).first() == c0);
                assert(chunks.take(i).drop_first() =~= rest.take(i - 1));
                assert(spec_run_adds(s, cap, acc, p2, chunks.take(i)) == spec_run_adds(
                    s1,
                    cap,
                    acc,
                    p2,
                    rest.take(i - 1),
                ));
                assert(rest[i - 1] == chunks[i]);
            }
        }
    }
}

/// Upload round-trip, chunking-invariance included: an `Init` carrying a
/// first chunk, any run of `Add` packets, and a `Last` packet reassemble
/// exactly the original bytes, split at the declared first-chunk
/// boundary — whatever way the remainder was cut into chunks.
pub proof fn lemma_upload_round_trip(
    s0: LockView,
    cap: nat,
    acc: u32,
    p2: u8,
    first: Seq<u8>,
    chunks: Seq<Seq<u8>>,
    last: Seq<u8>,
)
    requires
        s0.owner is None || s0.owner == Some(acc),
        1 + first.len() + chunks.flatten().len() + last.len() <= cap,
    ensures
        ({
            let (s1, oc1) = spec_upload_step(s0, cap, acc, 0, p2, Some(first));
            let s2 = spec_run_adds(s1, cap, acc, p2, chunks);
            let (s3, oc3) = spec_upload_step(s2, cap, acc, 2, p2, Some(last));
            &&& oc1 == UploadOutcome::Incomplete
            &&& oc3 == UploadOutcome::Complete {
                p2,
                first,
                rest: chunks.flatten() + last,
            }
            &&& s3 == LockView { owner: None, init_len: 0, contents: Seq::<u8>::empty() }
        }),
{
    let (s1, oc1) = spec_upload_step(s0, cap, acc, 0, p2, Some(first));
    assert(s1 == LockView {
        owner: Some(acc),
        init_len: first.len(),
        contents: seq![p2] + first,
    });
    lemma_run_adds(s1, cap, acc, p2, chunks);
    let s2 = spec_run_adds(s1, cap, acc, p2, chunks);
    let data = s2.contents + last;
    assert(data =~= seq![p2] + first + chunks.flatten() + last);
    assert(data[0] == p2);
    assert(data.subrange(1, 1 + first.len() as int) =~= first);
    assert(data.subrange(1 + first.len() as int, data.len() as int) =~= chunks.flatten() + last);
}

} // verus!
