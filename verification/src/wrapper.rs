//! Read-view over an APDU command buffer.
//!
//! The envelope layout is `[0]=CLA [1]=INS [2]=P1 [3]=P2 [4]=LEN
//! [5..5+LEN]=payload`, with a minimum total length of 5. The view owns the
//! transport buffer for the duration of a command; consuming it for writing
//! zeroes the buffer first, so no stale data can leak back to the host.

use vstd::prelude::*;

verus! {

/// Fixed offset of the class byte.
pub const APDU_INDEX_CLA: usize = 0;

/// Fixed offset of the instruction byte.
pub const APDU_INDEX_INS: usize = 1;

/// Fixed offset of the first parameter byte.
pub const APDU_INDEX_P1: usize = 2;

/// Fixed offset of the second parameter byte.
pub const APDU_INDEX_P2: usize = 3;

/// Fixed offset of the declared payload length byte.
pub const APDU_INDEX_LEN: usize = 4;

/// Minimum length of a well-formed envelope: header plus length byte.
pub const APDU_MIN_LENGTH: u32 = 5;

/// Why a buffer could not be accepted or read as an APDU envelope.
#[derive(Clone, Copy, PartialEq, Eq, Structural, Debug)]
pub enum ApduBufferReadError {
    /// The buffer was shorter than the minimum, or shorter than the
    /// declared received length `rx`.
    LengthMismatch { expected: usize, got: usize },
    /// The declared payload length claims more bytes than are present.
    NotEnoughPayload { expected: usize, got: usize },
    /// The buffer had no room for even the length byte.
    NoPayload,
}

impl ApduBufferReadError {
    /// Relabel a length mismatch for the payload call site; other errors
    /// pass through unchanged.
    pub fn length_to_payload(self) -> (r: Self)
        ensures
            r == match self {
                ApduBufferReadError::LengthMismatch { expected, got } => (
                ApduBufferReadError::NotEnoughPayload { expected, got }),
                e => e,
            },
    {
        match self {
            Self::LengthMismatch { expected, got } => Self::NotEnoughPayload { expected, got },
            err => err,
        }
    }
}

/// A validated read-view of an APDU command buffer.
///
/// Its view is the byte content of the underlying buffer; construction
/// guarantees that at least the five header bytes are present.
pub struct ApduBufferRead {
    inner: Vec<u8>,
}

impl View for ApduBufferRead {
    type V = Seq<u8>;

    closed spec fn view(&self) -> Seq<u8> {
        self.inner@
    }
}

impl ApduBufferRead {
    #[verifier::type_invariant]
    spec fn inv(self) -> bool {
        self.inner@.len() >= 5
    }

    /// Check that `len` less `offset` reaches at least `expected` bytes.
    fn check_min_len(len: usize, expected: usize, offset: usize) -> (r: Result<
        (),
        ApduBufferReadError,
    >)
        ensures
            ({
                let got = if len >= offset { (len - offset) as usize } else { 0usize };
                if got < expected {
                    r == Err::<(), _>(ApduBufferReadError::LengthMismatch { expected, got })
                } else {
                    r == Ok::<_, ApduBufferReadError>(())
                }
            }),
    {
        let got = if len >= offset {
            len - offset
        } else {
            0
        };
        if got < expected {
            Err(ApduBufferReadError::LengthMismatch { expected, got })
        } else {
            Ok(())
        }
    }

    /// Validate and wrap a command buffer.
    ///
    /// Accepts exactly the buffers with `buf.len() >= 5`, `rx >= 5` and
    /// `buf.len() >= rx`; every other input fails with `LengthMismatch`,
    /// checked in that order.
    pub fn new(buf: Vec<u8>, rx: u32) -> (r: Result<ApduBufferRead, ApduBufferReadError>)
        ensures
            r matches Ok(v) ==> v@ == buf@ && buf@.len() >= 5 && rx >= 5 && buf@.len() >= rx,
            buf@.len() >= 5 && rx >= 5 && buf@.len() >= rx ==> r is Ok,
            buf@.len() < 5 ==> r == Err::<ApduBufferRead, _>(
                ApduBufferReadError::LengthMismatch {
                    expected: 5usize,
                    got: buf@.len() as usize,
                },
            ),
            buf@.len() >= 5 && rx < 5 ==> r == Err::<ApduBufferRead, _>(
                ApduBufferReadError::LengthMismatch { expected: 5usize, got: rx as usize },
            ),
            buf@.len() >= 5 && rx >= 5 && buf@.len() < rx ==> r == Err::<ApduBufferRead, _>(
                ApduBufferReadError::LengthMismatch {
                    expected: rx as usize,
                    got: buf@.len() as usize,
                },
            ),
    {
        Self::check_min_len(buf.len(), APDU_MIN_LENGTH as usize, 0)?;
        Self::check_min_len(rx as usize, APDU_MIN_LENGTH as usize, 0)?;
        Self::check_min_len(buf.len(), rx as usize, 0)?;

        Ok(Self { inner: buf })
    }

    /// The class byte, at offset 0.
    pub fn cla(&self) -> (r: u8)
        ensures
            r == self@[APDU_INDEX_CLA as int],
    {
        proof {
            use_type_invariant(self);
        }
        self.inner[APDU_INDEX_CLA]
    }

    /// The instruction byte, at offset 1.
    pub fn ins(&self) -> (r: u8)
        ensures
            r == self@[APDU_INDEX_INS as int],
    {
        proof {
            use_type_invariant(self);
        }
        self.inner[APDU_INDEX_INS]
    }

    /// The first parameter byte, at offset 2.
    pub fn p1(&self) -> (r: u8)
        ensures
            r == self@[APDU_INDEX_P1 as int],
    {
        proof {
            use_type_invariant(self);
        }
        self.inner[APDU_INDEX_P1]
    }

    /// The second parameter byte, at offset 3.
    pub fn p2(&self) -> (r: u8)
        ensures
            r == self@[APDU_INDEX_P2 as int],
    {
        proof {
            use_type_invariant(self);
        }
        self.inner[APDU_INDEX_P2]
    }

    /// The declared payload: the `LEN` bytes starting at offset 5, where
    /// `LEN` is the byte at offset 4.
    ///
    /// Returns exactly those bytes, or `NotEnoughPayload` when the buffer
    /// holds fewer than `5 + LEN` bytes.
    pub fn payload(&self) -> (r: Result<Vec<u8>, ApduBufferReadError>)
        ensures
            ({
                let plen = self@[APDU_INDEX_LEN as int] as int;
                &&& (self@.len() >= 5 + plen ==> (r matches Ok(v) && v@ == self@.subrange(
                    5,
                    5 + plen,
                )))
                &&& (self@.len() < 5 + plen ==> r == Err::<Vec<u8>, _>(
                    ApduBufferReadError::NotEnoughPayload {
                        expected: plen as usize,
                        got: (self@.len() - 5) as usize,
                    },
                ))
            }),
    {
        proof {
            use_type_invariant(self);
        }
        let plen = self.inner[APDU_INDEX_LEN] as usize;
        match Self::check_min_len(self.inner.len(), plen, APDU_MIN_LENGTH as usize) {
            Err(err) => Err(err.length_to_payload()),
            Ok(()) => {
                let mut out: Vec<u8> = Vec::new();
                let mut i: usize = 0;
                while i < plen
                    invariant
                        plen <= 255,
                        self.inner@.len() >= 5 + plen,
                        i <= plen,
                        out@ == self.inner@.subrange(5, 5 + i as int),
                    decreases plen - i,
                {
                    out.push(self.inner[APDU_MIN_LENGTH as usize + i]);
                    i += 1;
                    proof {
                        assert(out@ =~= self.inner@.subrange(5, 5 + i as int));
                    }
                }
                Ok(out)
            },
        }
    }

    /// Discard the view and recover the buffer for writing a response.
    ///
    /// The whole buffer is zeroed first, so no residue of the command (or
    /// of secret material staged in it) survives into the response phase.
    pub fn write(self) -> (r: Vec<u8>)
        ensures
            r@.len() == self@.len(),
            forall|i: int| 0 <= i < r@.len() ==> r@[i] == 0u8,
    {
        let mut buf = self.inner;
        let n = buf.len();
        let mut i: usize = 0;
        while i < n
            invariant
                buf@.len() == n,
                i <= n,
                forall|j: int| 0 <= j < i ==> buf@[j] == 0u8,
            decreases n - i,
        {
            buf.set(i, 0);
            i += 1;
        }
        buf
    }
}

} // verus!
