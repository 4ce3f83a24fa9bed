//! Bech32 and Bech32m checksummed text encoding (BIP-173 / BIP-350).
//!
//! An encoding is the human-readable part, the separator `1`, the data
//! re-grouped into 5-bit words written in the bech32 character set, and a
//! six-character checksum derived from a BCH polynomial over both parts.

use vstd::prelude::*;
use vstd::arithmetic::power2::pow2;
use vstd::string::StringSliceAdditionalSpecFns;
use crate::encode::{spec_conv_out_size, spec_regroup};

verus! {

/// Simple error indicating that the output slice was too small for the
/// given input.
#[derive(Clone, Copy, PartialEq, Eq, Structural, Debug)]
pub struct OutputBufferTooSmall;

/// Why a bech32 write failed.
#[derive(Clone, Copy, PartialEq, Eq, Structural, Debug)]
pub enum Bech32WriterError {
    OutputBufferTooSmall,
}

/// The two variants of the encoding, distinguished only by the constant
/// folded into the checksum.
#[derive(Clone, Copy, PartialEq, Eq, Structural, Debug)]
pub enum Variant {
    /// The original Bech32 of BIP-173.
    Bech32,
    /// The improved Bech32m of BIP-350.
    Bech32m,
}

impl Variant {
    /// The checksum constant of this variant.
    pub open spec fn spec_constant(self) -> u32 {
        match self {
            Variant::Bech32 => 1u32,
            Variant::Bech32m => 0x2bc8_30a3u32,
        }
    }

    #[verifier::when_used_as_spec(spec_constant)]
    pub fn constant(self) -> (r: u32)
        ensures
            r == self.spec_constant(),
    {
        match self {
            Variant::Bech32 => 1,
            Variant::Bech32m => 0x2bc8_30a3,
        }
    }
}

/// The 32 data characters of the encoding, as ASCII bytes, indexed by the
/// 5-bit value each stands for.
pub open spec fn spec_charset_bytes() -> Seq<u8> {
    seq![
        113u8, 112u8, 122u8, 114u8, 121u8, 57u8, 120u8, 56u8,
        103u8, 102u8, 50u8, 116u8, 118u8, 100u8, 119u8, 48u8,
        115u8, 51u8, 106u8, 110u8, 53u8, 52u8, 107u8, 104u8,
        99u8, 101u8, 54u8, 109u8, 117u8, 97u8, 55u8, 108u8,
    ]
}

/// The same character set as characters.
pub open spec fn spec_charset_chars() -> Seq<char> {
    seq![
        'q', 'p', 'z', 'r', 'y', '9', 'x', '8',
        'g', 'f', '2', 't', 'v', 'd', 'w', '0',
        's', '3', 'j', 'n', '5', '4', 'k', 'h',
        'c', 'e', '6', 'm', 'u', 'a', '7', 'l',
    ]
}

/// The data character for a 5-bit value, as an ASCII byte.
fn charset_byte(v: u8) -> (r: u8)
    requires
        v < 32,
    ensures
        r == spec_charset_bytes()[v as int],
{
    let cs: [u8; 32] = [
        113, 112, 122, 114, 121, 57, 120, 56,
        103, 102, 50, 116, 118, 100, 119, 48,
        115, 51, 106, 110, 53, 52, 107, 104,
        99, 101, 54, 109, 117, 97, 55, 108,
    ];
    proof {
        assert(cs@ =~= spec_charset_bytes());
    }
    cs[v as usize]
}

/// Integer in the range `0..32`.
#[allow(non_camel_case_types)]
#[derive(PartialEq, Eq, Structural, Debug, Copy, Clone)]
pub struct u5(u8);

impl u5 {
    /// The 5-bit value this carries.
    pub closed spec fn spec_value(self) -> u8 {
        self.0
    }

    /// Convert a `u8` to `u5` if in range, reject it otherwise.
    pub fn try_from_u8(value: u8) -> (r: Result<u5, ()>)
        ensures
            value > 31 <==> r is Err,
            r matches Ok(v) ==> v.spec_value() == value,
    {
        if value > 31 {
            Err(())
        } else {
            Ok(u5(value))
        }
    }

    /// Returns a copy of the underlying `u8` value.
    pub fn to_u8(self) -> (r: u8)
        ensures
            r == self.spec_value(),
    {
        self.0
    }

    /// Encoding character set: maps each 5-bit value to its character.
    pub fn charset() -> (r: [char; 32])
        ensures
            r@ == spec_charset_chars(),
    {
        let cs: [char; 32] = [
            'q', 'p', 'z', 'r', 'y', '9', 'x', '8',
            'g', 'f', '2', 't', 'v', 'd', 'w', '0',
            's', '3', 'j', 'n', '5', '4', 'k', 'h',
            'c', 'e', '6', 'm', 'u', 'a', '7', 'l',
        ];
        proof {
            assert(cs@ =~= spec_charset_chars());
        }
        cs
    }

    /// Get the character representing this 5-bit value as defined in BIP-173.
    pub fn to_char(self) -> (r: char)
        requires
            self.spec_value() < 32,
        ensures
            r == spec_charset_chars()[self.spec_value() as int],
    {
        let cs = Self::charset();
        cs[self.to_u8() as usize]
    }
}

/// One step of the BCH checksum polynomial: shift five bits in and fold the
/// generator coefficients selected by the outgoing bits.
pub open spec fn spec_polymod_step(chk: u32, v: u8) -> u32 {
    let b = chk >> 25;
    let c0 = ((chk & 0x01ff_ffff) << 5) ^ (v as u32);
    let c1 = if b & 1 == 1 {
        c0 ^ 0x3b6a_57b2u32
    } else {
        c0
    };
    let c2 = if (b >> 1) & 1 == 1 {
        c1 ^ 0x2650_8e6du32
    } else {
        c1
    };
    let c3 = if (b >> 2) & 1 == 1 {
        c2 ^ 0x1ea1_19fau32
    } else {
        c2
    };
    let c4 = if (b >> 3) & 1 == 1 {
        c3 ^ 0x3d42_33ddu32
    } else {
        c3
    };
    if (b >> 4) & 1 == 1 {
        c4 ^ 0x2a14_62b3u32
    } else {
        c4
    }
}

/// The checksum state after folding every 5-bit value of `vs` into `chk`.
pub open spec fn spec_polymod(chk: u32, vs: Seq<u8>) -> u32
    decreases vs.len(),
{
    if vs.len() == 0 {
        chk
    } else {
        spec_polymod(spec_polymod_step(chk, vs.first()), vs.drop_first())
    }
}

/// The checksum preamble of a human-readable part: each byte's top three
/// bits, a zero, then each byte's bottom five bits.
pub open spec fn spec_hrp_expand(hrp: Seq<u8>) -> Seq<u8> {
    hrp.map_values(|b: u8| b >> 5) + seq![0u8] + hrp.map_values(|b: u8| b & 31)
}

/// The 5-bit words of `data`, final partial word padded with zero bits.
pub open spec fn spec_data_groups(data: Seq<u8>) -> Seq<u8> {
    spec_regroup(data, 0, 0, 8, 5, true)
}

/// The six checksum characters encoding `plm` as ASCII bytes, five bits
/// per character, most significant first.
pub open spec fn spec_checksum_bytes(plm: u32) -> Seq<u8> {
    seq![
        spec_charset_bytes()[((plm >> 25) & 31) as int],
        spec_charset_bytes()[((plm >> 20) & 31) as int],
        spec_charset_bytes()[((plm >> 15) & 31) as int],
        spec_charset_bytes()[((plm >> 10) & 31) as int],
        spec_charset_bytes()[((plm >> 5) & 31) as int],
        spec_charset_bytes()[(plm & 31) as int],
    ]
}

/// The full checksum trailer for a writer state `chk` under `variant`:
/// six zero words are folded in, the variant constant is xored, and the
/// result is spelled out as six characters.
pub open spec fn spec_checksum_trailer(chk: u32, variant: Variant) -> Seq<u8> {
    spec_checksum_bytes(
        spec_polymod_step(
            spec_polymod_step(
                spec_polymod_step(
                    spec_polymod_step(spec_polymod_step(spec_polymod_step(chk, 0), 0), 0),
                    0,
                ),
                0,
            ),
            0,
        ) ^ variant.spec_constant(),
    )
}

/// The complete encoding of `data` under `hrp`: the human-readable part,
/// the separator, the data characters, and the checksum trailer.
pub open spec fn spec_encode_bytes(hrp: Seq<u8>, data: Seq<u8>, variant: Variant) -> Seq<u8> {
    let groups = spec_data_groups(data);
    hrp + seq![49u8] + groups.map_values(|g: u8| spec_charset_bytes()[g as int])
        + spec_checksum_trailer(spec_polymod(1, spec_hrp_expand(hrp) + groups), variant)
}

/// Every masked 5-bit slice is an index into the character set.
proof fn lemma_mask31(x: u32)
    ensures
        (x & 31) < 32,
{
    assert((x & 31) < 32) by (bit_vector);
}

/// Total length of an encoding: the human-readable part, the separator,
/// one character per 5-bit group, and the six checksum characters.
pub open spec fn spec_encoded_len(hrp_len: nat, data_len: nat) -> nat {
    hrp_len + 1 + spec_conv_out_size(data_len, 8, 5) + 6
}

/// An incremental bech32 encoder writing into a fixed-size buffer it owns.
///
/// [`Bech32Writer::new`] writes the human-readable part and the separator;
/// [`Bech32Writer::write`] appends data characters; [`Bech32Writer::finalize`]
/// appends the checksum and hands the buffer back with the total number of
/// bytes written.
pub struct Bech32Writer {
    out: Vec<u8>,
    bytes_written: usize,
    chk: u32,
    variant: Variant,
}

impl Bech32Writer {
    /// The buffer contents.
    pub closed spec fn spec_buf(self) -> Seq<u8> {
        self.out@
    }

    /// How many bytes of the buffer are filled.
    pub closed spec fn spec_written(self) -> nat {
        self.bytes_written as nat
    }

    /// The running checksum state.
    pub closed spec fn spec_chk(self) -> u32 {
        self.chk
    }

    /// The variant the checksum will be finalized for.
    pub closed spec fn spec_variant(self) -> Variant {
        self.variant
    }

    /// Well-formedness: the fill level never passes the buffer's end.
    pub closed spec fn wf(self) -> bool {
        self.bytes_written <= self.out@.len()
    }

    /// Create a new bech32 writer over `out`.
    ///
    /// Writes `hrp` and the separator `1` and seeds the checksum with the
    /// expanded human-readable part. Fails when `out` cannot hold even
    /// `hrp` and the separator.
    pub fn new(hrp: &str, out: Vec<u8>, variant: Variant) -> (r: Result<
        Bech32Writer,
        Bech32WriterError,
    >)
        requires
            hrp.spec_bytes().len() < usize::MAX,
        ensures
            out@.len() < hrp.spec_bytes().len() + 1 ==> r == Err::<Bech32Writer, _>(
                Bech32WriterError::OutputBufferTooSmall,
            ),
            out@.len() >= hrp.spec_bytes().len() + 1 ==> (r matches Ok(w) && w.wf()
                && w.spec_buf() == hrp.spec_bytes() + seq![49u8] + out@.skip(
                hrp.spec_bytes().len() + 1 as int,
            ) && w.spec_written() == hrp.spec_bytes().len() + 1 && w.spec_chk() == spec_polymod(
                1,
                spec_hrp_expand(hrp.spec_bytes()),
            ) && w.spec_variant() == variant && w.spec_buf().len() == out@.len()),
    {
        let hrp = hrp.as_bytes();
        let mut this = Bech32Writer { chk: 1, out, bytes_written: 0, variant };

        if this.out.len() < hrp.len() + 1 {
            return Err(Bech32WriterError::OutputBufferTooSmall);
        }

        let ghost out0 = this.out@;

        // copy the hrp and the separator
        let mut i: usize = 0;
        while i < hrp.len()
            invariant
                i <= hrp@.len(),
                hrp@.len() + 1 <= this.out@.len(),
                this.out@.len() == out0.len(),
                this.chk == 1,
                this.variant == variant,
                this.bytes_written == 0,
                forall|j: int| 0 <= j < i ==> this.out@[j] == hrp@[j],
                forall|j: int| i <= j < this.out@.len() ==> this.out@[j] == out0[j],
            decreases hrp@.len() - i,
        {
            let b = hrp[i];
            this.out.set(i, b);
            i += 1;
        }
        this.out.set(hrp.len(), 49);  // the separator '1'
        this.bytes_written = hrp.len() + 1;

        // expand the hrp into the checksum
        let ghost filled = this.out@;
        let ghost hi = hrp@.map_values(|b: u8| b >> 5);
        let ghost lo = hrp@.map_values(|b: u8| b & 31);
        proof {
            assert(hi.take(0) =~= Seq::<u8>::empty());
        }
        let mut i: usize = 0;
        while i < hrp.len()
            invariant
                i <= hrp@.len(),
                this.wf(),
                this.out@ == filled,
                this.bytes_written == hrp@.len() + 1,
                this.variant == variant,
                hi == hrp@.map_values(|b: u8| b >> 5),
                lo == hrp@.map_values(|b: u8| b & 31),
                this.chk == spec_polymod(1, hi.take(i as int)),
            decreases hrp@.len() - i,
        {
            proof {
                lemma_polymod_snoc(1, hi.take(i as int), hi[i as int]);
                assert(hi.take(i as int).push(hi[i as int]) =~= hi.take(i as int + 1));
            }
            self_polymod_step(&mut this, hrp[i] >> 5);
            i += 1;
        }
        proof {
            assert(hi.take(hrp@.len() as int) =~= hi);
            lemma_polymod_snoc(1, hi, 0u8);
            assert(hi.push(0u8) =~= hi + seq![0u8]);
            lemma_polymod_app(1, hi + seq![0u8], lo);
        }
        self_polymod_step(&mut this, 0);
        let mut i: usize = 0;
        proof {
            assert(lo.take(0) =~= Seq::<u8>::empty());
            assert(hi + seq![0u8] + lo.take(0) =~= hi + seq![0u8]);
        }
        while i < hrp.len()
            invariant
                i <= hrp@.len(),
                this.wf(),
                this.out@ == filled,
                this.bytes_written == hrp@.len() + 1,
                this.variant == variant,
                hi == hrp@.map_values(|b: u8| b >> 5),
                lo == hrp@.map_values(|b: u8| b & 31),
                this.chk == spec_polymod(1, hi + seq![0u8] + lo.take(i as int)),
            decreases hrp@.len() - i,
        {
            proof {
                lemma_polymod_snoc(1, hi + seq![0u8] + lo.take(i as int), lo[i as int]);
                assert((hi + seq![0u8] + lo.take(i as int)).push(lo[i as int]) =~= hi + seq![0u8]
                    + lo.take(i as int + 1));
            }
            self_polymod_step(&mut this, hrp[i] & 31);
            i += 1;
        }
        proof {
            assert(hi + seq![0u8] + lo.take(hrp@.len() as int) =~= spec_hrp_expand(hrp@));
            assert(this.out@ =~= hrp@ + seq![49u8] + out0.skip(hrp@.len() + 1 as int));
        }

        Ok(this)
    }

    /// Fold one 5-bit value into the running checksum.
    fn polymod_step(&mut self, v: u5)
        requires
            old(self).wf(),
        ensures
            final(self).wf(),
            final(self).spec_chk() == spec_polymod_step(old(self).spec_chk(), v.spec_value()),
            final(self).spec_buf() == old(self).spec_buf(),
            final(self).spec_written() == old(self).spec_written(),
            final(self).spec_variant() == old(self).spec_variant(),
    {
        let b = self.chk >> 25;
        self.chk = ((self.chk & 0x01ff_ffff) << 5) ^ (v.to_u8() as u32);

        let g = Self::gen();
        if b & 1 == 1 {
            self.chk = self.chk ^ g[0];
        }
        if (b >> 1) & 1 == 1 {
            self.chk = self.chk ^ g[1];
        }
        if (b >> 2) & 1 == 1 {
            self.chk = self.chk ^ g[2];
        }
        if (b >> 3) & 1 == 1 {
            self.chk = self.chk ^ g[3];
        }
        if (b >> 4) & 1 == 1 {
            self.chk = self.chk ^ g[4];
        }
    }

    /// Verify that the buffer has room for `needed` more bytes.
    fn check_rem_out(&self, needed: usize) -> (r: Result<(), Bech32WriterError>)
        requires
            self.wf(),
        ensures
            r is Ok <==> self.spec_written() + needed <= self.spec_buf().len(),
            r is Err ==> r == Err::<(), _>(Bech32WriterError::OutputBufferTooSmall),
    {
        let avail = self.out.len() - self.bytes_written;
        if avail < needed {
            Err(Bech32WriterError::OutputBufferTooSmall)
        } else {
            Ok(())
        }
    }

    /// Write a single 5-bit value of the data part: fold it into the
    /// checksum and append its character.
    fn write_u5(&mut self, data: u5) -> (r: Result<(), Bech32WriterError>)
        requires
            old(self).wf(),
            data.spec_value() < 32,
        ensures
            final(self).wf(),
            final(self).spec_buf().len() == old(self).spec_buf().len(),
            final(self).spec_variant() == old(self).spec_variant(),
            old(self).spec_written() >= old(self).spec_buf().len() ==> r is Err && *final(self)
                == *old(self),
            old(self).spec_written() < old(self).spec_buf().len() ==> (r is Ok && final(self).spec_written() == old(self).spec_written() + 1 && final(self).spec_buf() == old(self).spec_buf().update(
                old(self).spec_written() as int,
                spec_charset_bytes()[data.spec_value() as int],
            ) && final(self).spec_chk() == spec_polymod_step(
                old(self).spec_chk(),
                data.spec_value(),
            )),
    {
        self.check_rem_out(1)?;
        self.polymod_step(data);
        let w = self.bytes_written;
        let n = self.out.len();
        proof {
            assert(w < n);
        }
        self.out.set(w, charset_byte(data.to_u8()));
        self.bytes_written = w + 1;
        Ok(())
    }

    /// Write a chunk of data as 5-bit groups, the final partial group
    /// padded with zero bits.
    ///
    /// Succeeds exactly when the buffer has room for one character per
    /// group; on success the groups' characters stand after what was
    /// already written, and the checksum has absorbed the group values.
    pub fn write(&mut self, data: &[u8]) -> (r: Result<(), Bech32WriterError>)
        requires
            old(self).wf(),
        ensures
            final(self).wf(),
            final(self).spec_buf().len() == old(self).spec_buf().len(),
            final(self).spec_variant() == old(self).spec_variant(),
            ({
                let groups = spec_data_groups(data@);
                let w0 = old(self).spec_written() as int;
                &&& (old(self).spec_written() + groups.len() <= old(self).spec_buf().len() ==> (
                r is Ok && final(self).spec_written() == old(self).spec_written() + groups.len()
                    && final(self).spec_chk() == spec_polymod(old(self).spec_chk(), groups)
                    && final(self).spec_buf() =~= old(self).spec_buf().take(w0)
                    + groups.map_values(|g: u8| spec_charset_bytes()[g as int]) + old(self).spec_buf().skip(w0 + groups.len())))
                &&& (old(self).spec_written() + groups.len() > old(self).spec_buf().len()
                    ==> r is Err)
            }),
    {
        let ghost buf0 = self.out@;
        let ghost w0 = self.bytes_written as int;
        let ghost chk0 = self.chk;
        let ghost groups = spec_data_groups(data@);
        let ghost cmap = |g: u8| spec_charset_bytes()[g as int];
        let mut egroups: Ghost<Seq<u8>> = Ghost(Seq::empty());

        proof {
            vstd::arithmetic::power2::lemma2_to64();
            assert(data@.skip(0) =~= data@);
            assert(egroups@ + spec_regroup(data@, 0, 0, 8, 5, true) =~= spec_regroup(
                data@,
                0,
                0,
                8,
                5,
                true,
            ));
            assert(self.out@ =~= buf0.take(w0) + egroups@.map_values(cmap) + buf0.skip(
                w0 + egroups@.len(),
            ));
        }

        let mut acc: u32 = 0;
        let mut nbits: u32 = 0;
        let mut i: usize = 0;
        while i < data.len()
            invariant
                self.wf(),
                buf0 == old(self).spec_buf(),
                w0 == old(self).spec_written() as int,
                chk0 == old(self).spec_chk(),
                groups == spec_data_groups(data@),
                cmap == (|g: u8| spec_charset_bytes()[g as int]),
                i <= data@.len(),
                self.out@.len() == buf0.len(),
                self.variant == old(self).spec_variant(),
                self.bytes_written == w0 + egroups@.len(),
                self.chk == spec_polymod(chk0, egroups@),
                self.out@ =~= buf0.take(w0) + egroups@.map_values(cmap) + buf0.skip(
                    w0 + egroups@.len(),
                ),
                nbits < 5,
                acc < pow2(nbits as nat),
                groups =~= egroups@ + spec_regroup(
                    data@.skip(i as int),
                    acc as nat,
                    nbits as nat,
                    8,
                    5,
                    true,
                ),
            decreases data@.len() - i,
        {
            let v = data[i];
            proof {
                vstd::arithmetic::power2::lemma2_to64();
                vstd::arithmetic::power2::lemma_pow2_adds(nbits as nat, 8);
                vstd::arithmetic::power2::lemma_pow2_strictly_increases(nbits as nat, 5);
                assert(data@.skip(i as int).first() == data@[i as int]);
                assert(data@.skip(i as int).drop_first() =~= data@.skip(i as int + 1));
                assert(acc as nat * pow2(8) + v < pow2((nbits + 8) as nat)) by (nonlinear_arith)
                    requires
                        (acc as nat) < pow2(nbits as nat),
                        (v as nat) < pow2(8),
                        pow2(8) == 256,
                        pow2((nbits + 8) as nat) == pow2(nbits as nat) * pow2(8),
                ;
            }
            acc = acc * 256 + v as u32;
            nbits = nbits + 8;
            i = i + 1;

            while nbits >= 5
                invariant
                    self.wf(),
                    buf0 == old(self).spec_buf(),
                    w0 == old(self).spec_written() as int,
                    chk0 == old(self).spec_chk(),
                    groups == spec_data_groups(data@),
                    cmap == (|g: u8| spec_charset_bytes()[g as int]),
                    i <= data@.len(),
                    self.out@.len() == buf0.len(),
                    self.variant == old(self).spec_variant(),
                    self.bytes_written == w0 + egroups@.len(),
                    self.chk == spec_polymod(chk0, egroups@),
                    self.out@ =~= buf0.take(w0) + egroups@.map_values(cmap) + buf0.skip(
                        w0 + egroups@.len(),
                    ),
                    nbits < 13,
                    acc < pow2(nbits as nat),
                    groups =~= egroups@ + spec_regroup(
                        data@.skip(i as int),
                        acc as nat,
                        nbits as nat,
                        8,
                        5,
                        true,
                    ),
                decreases nbits,
            {
                proof {
                    vstd::arithmetic::power2::lemma2_to64();
                    vstd::arithmetic::power2::lemma_pow2_adds((nbits - 5) as nat, 5);
                    vstd::arithmetic::power2::lemma_pow2_pos((nbits - 5) as nat);
                    assert((acc as nat) / pow2((nbits - 5) as nat) < 32) by {
                        vstd::arithmetic::div_mod::lemma_multiply_divide_lt(
                            acc as int,
                            pow2((nbits - 5) as nat) as int,
                            32,
                        );
                    }
                    vstd::arithmetic::div_mod::lemma_mod_bound(
                        acc as int,
                        pow2((nbits - 5) as nat) as int,
                    );
                }
                let sh = crate::encode::pow2_u32(nbits - 5);
                let word = (acc / sh) as u8;
                proof {
                    assert(word == crate::encode::spec_emit_word(acc as nat, nbits as nat, 5));
                    assert(spec_regroup(data@.skip(i as int), acc as nat, nbits as nat, 8, 5, true)
                        =~= seq![word] + spec_regroup(
                        data@.skip(i as int),
                        crate::encode::spec_emit_rest(acc as nat, nbits as nat, 5),
                        (nbits - 5) as nat,
                        8,
                        5,
                        true,
                    ));
                }
                let res = self.write_u5(u5(word));
                if res.is_err() {
                    proof {
                        assert(groups.len() >= egroups@.len() + 1);
                    }
                    return Err(Bech32WriterError::OutputBufferTooSmall);
                }
                proof {
                    lemma_polymod_snoc(chk0, egroups@, word);
                    assert(egroups@.push(word).map_values(cmap) =~= egroups@.map_values(
                        cmap,
                    ).push(cmap(word)));
                    assert(self.out@ =~= buf0.take(w0) + egroups@.push(word).map_values(cmap)
                        + buf0.skip(w0 + egroups@.push(word).len()));
                    assert(groups =~= egroups@.push(word) + spec_regroup(
                        data@.skip(i as int),
                        crate::encode::spec_emit_rest(acc as nat, nbits as nat, 5),
                        (nbits - 5) as nat,
                        8,
                        5,
                        true,
                    ));
                }
                acc = acc % sh;
                nbits = nbits - 5;
                proof {
                    egroups@ = egroups@.push(word);
                }
            }
        }

        proof {
            assert(data@.skip(i as int) =~= Seq::<u8>::empty());
        }
        if nbits > 0 {
            proof {
                vstd::arithmetic::power2::lemma2_to64();
                vstd::arithmetic::power2::lemma_pow2_adds(nbits as nat, (5 - nbits as nat) as nat);
                vstd::arithmetic::power2::lemma_pow2_pos((5 - nbits as nat) as nat);
                assert(acc as nat * pow2((5 - nbits as nat) as nat) < 32) by (nonlinear_arith)
                    requires
                        (acc as nat) < pow2(nbits as nat),
                        pow2((5 - nbits as nat) as nat) >= 1,
                        pow2(nbits as nat) * pow2((5 - nbits as nat) as nat) == 32,
                ;
            }
            let fl = crate::encode::pow2_u32(5 - nbits);
            let word = (acc * fl) as u8;
            proof {
                assert(spec_regroup(Seq::<u8>::empty(), acc as nat, nbits as nat, 8, 5, true)
                    =~= seq![word]);
            }
            let res = self.write_u5(u5(word));
            if res.is_err() {
                proof {
                    assert(groups.len() >= egroups@.len() + 1);
                }
                return Err(Bech32WriterError::OutputBufferTooSmall);
            }
            proof {
                lemma_polymod_snoc(chk0, egroups@, word);
                assert(egroups@.push(word).map_values(cmap) =~= egroups@.map_values(cmap).push(
                    cmap(word),
                ));
                assert(groups =~= egroups@.push(word));
                assert(self.out@ =~= buf0.take(w0) + groups.map_values(cmap) + buf0.skip(
                    w0 + groups.len(),
                ));
                egroups@ = egroups@.push(word);
            }
        } else {
            proof {
                assert(groups =~= egroups@);
            }
        }
        Ok(())
    }

    /// Append the six checksum characters and report the total length.
    fn inner_finalize(&mut self) -> (r: Result<usize, Bech32WriterError>)
        requires
            old(self).wf(),
        ensures
            final(self).wf(),
            final(self).spec_buf().len() == old(self).spec_buf().len(),
            final(self).spec_variant() == old(self).spec_variant(),
            old(self).spec_written() + 6 <= old(self).spec_buf().len() ==> (r == Ok::<
                usize,
                Bech32WriterError,
            >((old(self).spec_written() + 6) as usize) && final(self).spec_written() == old(self).spec_written() + 6 && final(self).spec_buf() =~= old(self).spec_buf().take(
                old(self).spec_written() as int,
            ) + spec_checksum_trailer(old(self).spec_chk(), old(self).spec_variant()) + old(self).spec_buf().skip(old(self).spec_written() as int + 6)),
            old(self).spec_written() + 6 > old(self).spec_buf().len() ==> r is Err,
    {
        let ghost buf0 = self.out@;
        let ghost w0 = self.bytes_written as int;
        // Pad with six zero words
        self.polymod_step(u5(0));
        self.polymod_step(u5(0));
        self.polymod_step(u5(0));
        self.polymod_step(u5(0));
        self.polymod_step(u5(0));
        self.polymod_step(u5(0));

        let plm: u32 = self.chk ^ self.variant.constant();

        self.check_rem_out(6)?;
        proof {
            lemma_mask31(plm >> 25);
            lemma_mask31(plm >> 20);
            lemma_mask31(plm >> 15);
            lemma_mask31(plm >> 10);
            lemma_mask31(plm >> 5);
            lemma_mask31(plm);
        }
        let w = self.bytes_written;
        let n = self.out.len();
        proof {
            assert(w + 6 <= n);
        }
        self.out.set(w, charset_byte(((plm >> 25) & 31) as u8));
        self.out.set(w + 1, charset_byte(((plm >> 20) & 31) as u8));
        self.out.set(w + 2, charset_byte(((plm >> 15) & 31) as u8));
        self.out.set(w + 3, charset_byte(((plm >> 10) & 31) as u8));
        self.out.set(w + 4, charset_byte(((plm >> 5) & 31) as u8));
        self.out.set(w + 5, charset_byte((plm & 31) as u8));
        self.bytes_written = w + 6;
        proof {
            assert(self.out@ =~= buf0.take(w0) + spec_checksum_trailer(
                old(self).spec_chk(),
                old(self).spec_variant(),
            ) + buf0.skip(w0 + 6));
        }
        Ok(self.bytes_written)
    }

    /// Estimated size of an encoding, checksum included.
    pub fn estimate_size(hrp_len: usize, data_len: usize) -> (r: usize)
        requires
            data_len * 8 < usize::MAX,
            spec_encoded_len(hrp_len as nat, data_len as nat) <= usize::MAX,
        ensures
            r == spec_encoded_len(hrp_len as nat, data_len as nat),
    {
        let bits_num = data_len * 8;
        let base = if bits_num % 5 == 0 {
            bits_num / 5
        } else {
            bits_num / 5 + 1
        };

        hrp_len + 1 + base + 6
    }

    /// Finalize the writer: append the checksum and hand back the buffer
    /// with the total number of bytes written.
    pub fn finalize(self) -> (r: Result<(usize, Vec<u8>), Bech32WriterError>)
        requires
            self.wf(),
        ensures
            self.spec_written() + 6 <= self.spec_buf().len() ==> (r matches Ok(p) && p.0
                == self.spec_written() + 6 && p.1@ =~= self.spec_buf().take(
                self.spec_written() as int,
            ) + spec_checksum_trailer(self.spec_chk(), self.spec_variant()) + self.spec_buf().skip(
                self.spec_written() as int + 6,
            ) && p.1@.len() == self.spec_buf().len()),
            self.spec_written() + 6 > self.spec_buf().len() ==> r is Err,
    {
        let mut this = self;
        let n = match this.inner_finalize() {
            Ok(n) => n,
            Err(e) => {
                return Err(e);
            },
        };
        Ok((n, this.out))
    }

    /// The five generator coefficients of the checksum polynomial.
    fn gen() -> (r: [u32; 5])
        ensures
            r@ =~= seq![0x3b6a_57b2u32, 0x2650_8e6du32, 0x1ea1_19fau32, 0x3d42_33ddu32,
                0x2a14_62b3u32],
    {
        [0x3b6a_57b2, 0x2650_8e6d, 0x1ea1_19fa, 0x3d42_33dd, 0x2a14_62b3]
    }
}

/// Encode `data` with the given `hrp` into `out` under `variant`.
///
/// Succeeds exactly when `out` can hold the whole encoding, returning the
/// number of bytes written and the buffer, whose prefix is then the
/// encoding; bytes past it are untouched.
pub fn encode(hrp: &str, data: &[u8], out: Vec<u8>, variant: Variant) -> (r: Result<
    (usize, Vec<u8>),
    Bech32WriterError,
>)
    requires
        hrp.spec_bytes().len() < usize::MAX,
    ensures
        ({
            let n = spec_encoded_len(hrp.spec_bytes().len(), data@.len());
            &&& (out@.len() >= n ==> (r matches Ok(p) && p.0 == n && p.1@
                =~= spec_encode_bytes(hrp.spec_bytes(), data@, variant) + out@.skip(n as int)
                && p.1@.len() == out@.len()))
            &&& (out@.len() < n ==> r == Err::<(usize, Vec<u8>), _>(
                Bech32WriterError::OutputBufferTooSmall,
            ))
        }),
{
    let ghost hrpb = hrp.spec_bytes();
    let ghost out0 = out@;
    let ghost groups = spec_data_groups(data@);
    let ghost n = spec_encoded_len(hrpb.len(), data@.len());
    proof {
        crate::encode::lemma_regroup_len(data@, 0, 0, 8, 5, true);
    }

    let encoder = Bech32Writer::new(hrp, out, variant);
    let mut encoder = match encoder {
        Ok(e) => e,
        Err(_) => {
            return Err(Bech32WriterError::OutputBufferTooSmall);
        },
    };
    let ghost h = hrpb.len() as int;

    let res = encoder.write(data);
    if res.is_err() {
        return Err(Bech32WriterError::OutputBufferTooSmall);
    }
    proof {
        lemma_polymod_app(1, spec_hrp_expand(hrpb), groups);
        assert(spec_hrp_expand(hrpb) + groups =~= spec_hrp_expand(hrpb).add(groups));
        assert(encoder.spec_buf().take(h + 1) =~= hrpb + seq![49u8]);
    }

    let res = encoder.finalize();
    match res {
        Ok((nn, buf)) => {
            proof {
                let cmap = |g: u8| spec_charset_bytes()[g as int];
                assert(buf@ =~= hrpb + seq![49u8] + groups.map_values(cmap)
                    + spec_checksum_trailer(
                    spec_polymod(1, spec_hrp_expand(hrpb) + groups),
                    variant,
                ) + out0.skip(n as int));
            }
            Ok((nn, buf))
        },
        Err(_) => Err(Bech32WriterError::OutputBufferTooSmall),
    }
}

/// Estimated size of an encoding, checksum included.
pub fn estimate_size(hrp_len: usize, data_len: usize) -> (r: usize)
    requires
        data_len * 8 < usize::MAX,
        spec_encoded_len(hrp_len as nat, data_len as nat) <= usize::MAX,
    ensures
        r == spec_encoded_len(hrp_len as nat, data_len as nat),
{
    Bech32Writer::estimate_size(hrp_len, data_len)
}

/// Free-standing helper so loops can step the checksum through `&mut self`.
fn self_polymod_step(w: &mut Bech32Writer, v: u8)
    requires
        old(w).wf(),
    ensures
        final(w).wf(),
        final(w).spec_chk() == spec_polymod_step(old(w).spec_chk(), v),
        final(w).spec_buf() == old(w).spec_buf(),
        final(w).spec_written() == old(w).spec_written(),
        final(w).spec_variant() == old(w).spec_variant(),
{
    w.polymod_step(u5(v))
}

/// Folding one more word equals stepping the fold of the prefix.
pub proof fn lemma_polymod_snoc(chk: u32, vs: Seq<u8>, v: u8)
    ensures
        spec_polymod(chk, vs.push(v)) == spec_polymod_step(spec_polymod(chk, vs), v),
    decreases vs.len(),
{
    if vs.len() == 0 {
        assert(vs.push(v).first() == v);
        assert(vs.push(v).drop_first() =~= Seq::<u8>::empty());
        assert(spec_polymod(chk, vs.push(v)) == spec_polymod(
            spec_polymod_step(chk, v),
            Seq::<u8>::empty(),
        ));
        assert(spec_polymod(spec_polymod_step(chk, v), Seq::<u8>::empty()) == spec_polymod_step(
            chk,
            v,
        ));
        assert(spec_polymod(chk, vs) == chk);
    } else {
        assert(vs.push(v).first() == vs.first());
        assert(vs.push(v).drop_first() =~= vs.drop_first().push(v));
        lemma_polymod_snoc(spec_polymod_step(chk, vs.first()), vs.drop_first(), v);
    }
}

/// Folding a concatenation folds the parts in order.
pub proof fn lemma_polymod_app(chk: u32, xs: Seq<u8>, ys: Seq<u8>)
    ensures
        spec_polymod(chk, xs + ys) == spec_polymod(spec_polymod(chk, xs), ys),
    decreases xs.len(),
{
    if xs.len() == 0 {
        assert(xs + ys =~= ys);
    } else {
        assert((xs + ys).first() == xs.first());
        assert((xs + ys).drop_first() =~= xs.drop_first() + ys);
        lemma_polymod_app(spec_polymod_step(chk, xs.first()), xs.drop_first(), ys);
    }
}

} // verus!
