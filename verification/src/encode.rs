//! Byte-sequence re-encoding utilities: general bit-size conversion, hex,
//! and base58.

use vstd::prelude::*;
use vstd::arithmetic::div_mod::{
    lemma_div_by_multiple, lemma_div_is_ordered, lemma_fundamental_div_mod,
    lemma_fundamental_div_mod_converse,
};
use vstd::arithmetic::power::pow;
use vstd::arithmetic::power2::{lemma_pow2_adds, lemma_pow2_pos, lemma_pow2_unfold, pow2};

verus! {

/// Why a bit-size conversion failed.
#[derive(Clone, Copy, PartialEq, Eq, Structural, Debug)]
pub enum ConvertBitsError {
    /// `FROM` or `TO` bit size is either 0 or greater than 8.
    InvalidConversion { from: u8, to: u8 },
    /// Input value `elem` exceeds the `FROM` bit size.
    InvalidData { idx: usize, elem: u8 },
    /// The input was not the canonical padding-free encoding.
    InvalidPadding,
    /// `out` was too small for the conversion.
    OutputBufferTooSmall { expected: usize },
}

/// Simple error indicating that the output slice was too small for the
/// given input.
#[derive(Clone, Copy, PartialEq, Eq, Structural, Debug)]
pub struct OutputBufferTooSmall;

/// The words that regrouping a bit stream emits.
///
/// `p` holds the `nbits` pending bits of the stream as a number
/// (`p < pow2(nbits)`). While at least `to` bits are pending, the topmost
/// `to` leave as one output word; otherwise the next input byte is
/// absorbed at the low end. At the end of the input a non-empty remainder
/// is flushed left-aligned in one final word if `pad` is set, and
/// discarded otherwise.
/// The word that leaves when `to` of `nbits` pending bits are emitted.
pub open spec fn spec_emit_word(p: nat, nbits: nat, to: nat) -> u8 {
    (p / pow2((nbits - to) as nat)) as u8
}

/// The pending bits that stay behind after such an emission.
pub open spec fn spec_emit_rest(p: nat, nbits: nat, to: nat) -> nat {
    p % pow2((nbits - to) as nat)
}

pub open spec fn spec_regroup(
    input: Seq<u8>,
    p: nat,
    nbits: nat,
    from: nat,
    to: nat,
    pad: bool,
) -> Seq<u8>
    decreases input.len(), nbits,
{
    if to < 1 {
        Seq::empty()
    } else if nbits >= to {
        seq![spec_emit_word(p, nbits, to)] + spec_regroup(
            input,
            spec_emit_rest(p, nbits, to),
            (nbits - to) as nat,
            from,
            to,
            pad,
        )
    } else if input.len() > 0 {
        spec_regroup(
            input.drop_first(),
            (p * pow2(from) + input.first()) as nat,
            nbits + from,
            from,
            to,
            pad,
        )
    } else if pad && nbits > 0 {
        seq![(p * pow2((to - nbits) as nat)) as u8]
    } else {
        Seq::empty()
    }
}

/// The pending bits left over once the whole input is absorbed and every
/// full output word has been emitted: the pair `(p, nbits)` in the same
/// state machine as [`spec_regroup`].
pub open spec fn spec_regroup_leftover(
    input: Seq<u8>,
    p: nat,
    nbits: nat,
    from: nat,
    to: nat,
) -> (nat, nat)
    decreases input.len(), nbits,
{
    if to < 1 {
        (p, nbits)
    } else if nbits >= to {
        spec_regroup_leftover(input, p % pow2((nbits - to) as nat), (nbits - to) as nat, from, to)
    } else if input.len() > 0 {
        spec_regroup_leftover(input.drop_first(), (p * pow2(from) + input.first()) as nat, nbits + from, from, to)
    } else {
        (p, nbits)
    }
}

/// Output size that a conversion of `len` words of `from` bits into words
/// of `to` bits needs, padding included.
pub open spec fn spec_conv_out_size(len: nat, from: nat, to: nat) -> nat {
    if (len * from) % to == 0 {
        len * from / to
    } else {
        len * from / to + 1
    }
}

/// Compute a small power of two.
pub(crate) fn pow2_u32(k: u32) -> (r: u32)
    requires
        k <= 16,
    ensures
        r == pow2(k as nat),
{
    let mut r: u32 = 1;
    let mut i: u32 = 0;
    proof {
        vstd::arithmetic::power2::lemma2_to64();
    }
    while i < k
        invariant
            i <= k <= 16,
            r == pow2(i as nat),
            r <= 0x10000,
        decreases k - i,
    {
        proof {
            lemma_pow2_unfold((i + 1) as nat);
            vstd::arithmetic::power2::lemma_pow2_strictly_increases(i as nat + 1, 17);
            vstd::arithmetic::power2::lemma2_to64();
        }
        r = r * 2;
        i = i + 1;
    }
    r
}

/// General algorithm to convert a byte sequence from one base to another.
///
/// Each input byte carries a `FROM`-bit word; the bit stream they form is
/// cut into `TO`-bit words written one per output byte, into a prefix of
/// `out`. With `pad` the final partial word is flushed left-aligned; without
/// it the conversion insists the leftover is empty padding (fewer than
/// `FROM` bits, all zero) and fails with `InvalidPadding` otherwise.
pub fn convert_bits<const FROM: u8, const TO: u8>(
    input: &[u8],
    out: &mut Vec<u8>,
    pad: bool,
) -> (r: Result<(), ConvertBitsError>)
    requires
        (input@.len() * FROM as nat) < usize::MAX,
    ensures
        final(out)@.len() == old(out)@.len(),
        FROM > 8 || TO > 8 || FROM == 0 || TO == 0 ==> r == Err::<(), _>(
            ConvertBitsError::InvalidConversion { from: FROM, to: TO },
        ) && final(out)@ == old(out)@,
        ({
            let from = FROM as nat;
            let to = TO as nat;
            let expected = spec_conv_out_size(input@.len(), from, to);
            let valid_sizes = 1 <= from <= 8 && 1 <= to <= 8;
            &&& (valid_sizes && old(out)@.len() < expected ==> r == Err::<(), _>(
                ConvertBitsError::OutputBufferTooSmall { expected: expected as usize },
            ) && final(out)@ == old(out)@)
            &&& (valid_sizes && old(out)@.len() >= expected && (exists|i: int|
                0 <= i < input@.len() && input@[i] >= pow2(from)) ==> (r matches Err(e)
                && e matches ConvertBitsError::InvalidData { idx, elem }
                && 0 <= idx < input@.len() && input@[idx as int] >= pow2(from)
                && elem == input@[idx as int] && (forall|j: int|
                0 <= j < idx ==> input@[j] < pow2(from))))
            &&& (valid_sizes && old(out)@.len() >= expected && (forall|i: int|
                0 <= i < input@.len() ==> input@[i] < pow2(from)) ==> ({
                let groups = spec_regroup(input@, 0, 0, from, to, pad);
                let leftover = spec_regroup_leftover(input@, 0, 0, from, to);
                if pad || (leftover.1 < from && leftover.0 == 0) {
                    &&& r is Ok
                    &&& groups.len() <= old(out)@.len()
                    &&& final(out)@ == groups + old(out)@.skip(groups.len() as int)
                } else {
                    r == Err::<(), _>(ConvertBitsError::InvalidPadding)
                }
            }))
        }),
{
    if FROM > 8 || TO > 8 || FROM == 0 || TO == 0 {
        return Err(ConvertBitsError::InvalidConversion { from: FROM, to: TO });
    }
    let ghost from = FROM as nat;
    let ghost to = TO as nat;

    let bits_num = input.len() * FROM as usize;
    proof {
        vstd::arithmetic::div_mod::lemma_div_nonincreasing(bits_num as int, TO as int);
        vstd::arithmetic::div_mod::lemma_div_pos_is_pos(bits_num as int, TO as int);
    }
    let expected_out_size = if bits_num % TO as usize == 0 {
        bits_num / TO as usize
    } else {
        bits_num / TO as usize + 1
    };
    if out.len() < expected_out_size {
        return Err(ConvertBitsError::OutputBufferTooSmall { expected: expected_out_size });
    }

    let ghost out0 = out@;
    let ghost groups = spec_regroup(input@, 0, 0, from, to, pad);
    proof {
        vstd::arithmetic::power2::lemma2_to64();
        assert(input@.skip(0) =~= input@);
        assert(out@.subrange(0, 0) + spec_regroup(input@, 0, 0, from, to, pad) =~= spec_regroup(
            input@,
            0,
            0,
            from,
            to,
            pad,
        ));
    }

    let mut out_idx: usize = 0;
    let mut acc: u32 = 0;
    let mut nbits: u32 = 0;
    let mut i: usize = 0;

    while i < input.len()
        invariant
            1 <= FROM <= 8 && 1 <= TO <= 8,
            from == FROM as nat && to == TO as nat,
            i <= input@.len(),
            input@.len() * from <= usize::MAX,
            bits_num == input@.len() * from,
            expected_out_size == spec_conv_out_size(input@.len(), from, to),
            out0 == old(out)@,
            out@.len() == out0.len() >= expected_out_size,
            out_idx <= expected_out_size,
            nbits < TO,
            acc < pow2(nbits as nat),
            out_idx as nat * to + nbits == i as nat * from,
            groups == spec_regroup(input@, 0, 0, from, to, pad),
            groups =~= out@.subrange(0, out_idx as int) + spec_regroup(
                input@.skip(i as int),
                acc as nat,
                nbits as nat,
                from,
                to,
                pad,
            ),
            spec_regroup_leftover(input@, 0, 0, from, to) == spec_regroup_leftover(
                input@.skip(i as int),
                acc as nat,
                nbits as nat,
                from,
                to,
            ),
            forall|j: int| out_idx <= j < out@.len() ==> out@[j] == out0[j],
            forall|j: int| 0 <= j < i ==> input@[j] < pow2(from),
        decreases input@.len() - i,
    {
        let v = input[i];
        let fromv = pow2_u32(FROM as u32);
        if v as u32 >= fromv {
            return Err(ConvertBitsError::InvalidData { idx: i, elem: v });
        }
        proof {
            lemma_pow2_adds(nbits as nat, from);
            assert(input@.skip(i as int).first() == input@[i as int]);
            assert(input@.skip(i as int).drop_first() =~= input@.skip(i as int + 1));
            vstd::arithmetic::power2::lemma_pow2_strictly_increases(
                (nbits + FROM) as nat,
                17,
            );
            vstd::arithmetic::power2::lemma2_to64();
            assert(acc as nat * pow2(from) + v < pow2((nbits + FROM) as nat))
                by (nonlinear_arith)
                requires
                    (acc as nat) < pow2(nbits as nat),
                    (v as nat) < pow2(from),
                    pow2((nbits + FROM) as nat) == pow2(nbits as nat) * pow2(from),
            ;
            assert((i + 1) as nat * from == i as nat * from + from) by (nonlinear_arith);
            vstd::arithmetic::mul::lemma_mul_inequality(
                (i + 1) as int,
                input@.len() as int,
                from as int,
            );
        }
        acc = acc * fromv + v as u32;
        nbits = nbits + FROM as u32;
        i = i + 1;

        while nbits >= TO as u32
            invariant
                1 <= FROM <= 8 && 1 <= TO <= 8,
                from == FROM as nat && to == TO as nat,
                i <= input@.len(),
                input@.len() * from <= usize::MAX,
                bits_num == input@.len() * from,
                expected_out_size == spec_conv_out_size(input@.len(), from, to),
                out0 == old(out)@,
                out@.len() == out0.len() >= expected_out_size,
                out_idx <= expected_out_size,
                nbits < TO as u32 + FROM as u32,
                acc < pow2(nbits as nat),
                out_idx as nat * to + nbits == i as nat * from,
                i as nat * from <= input@.len() * from,
                groups =~= out@.subrange(0, out_idx as int) + spec_regroup(
                    input@.skip(i as int),
                    acc as nat,
                    nbits as nat,
                    from,
                    to,
                    pad,
                ),
                spec_regroup_leftover(input@, 0, 0, from, to) == spec_regroup_leftover(
                    input@.skip(i as int),
                    acc as nat,
                    nbits as nat,
                    from,
                    to,
                ),
                forall|j: int| out_idx <= j < out@.len() ==> out@[j] == out0[j],
            decreases nbits,
        {
            let sh = pow2_u32(nbits - TO as u32);
            proof {
                lemma_pow2_pos((nbits - TO) as nat);
                lemma_pow2_adds((nbits - TO) as nat, to);
                assert((out_idx + 1) as nat * to == out_idx as nat * to + to)
                    by (nonlinear_arith);
                assert((out_idx + 1) as nat * to <= i as nat * from);
                assert(i as nat * from <= input@.len() * from) by {
                    vstd::arithmetic::mul::lemma_mul_inequality(
                        i as int,
                        input@.len() as int,
                        from as int,
                    );
                }
                lemma_div_is_ordered(
                    ((out_idx + 1) as nat * to) as int,
                    (input@.len() * from) as int,
                    to as int,
                );
                lemma_div_by_multiple((out_idx + 1) as int, to as int);
                assert(out_idx + 1 <= (input@.len() * from) as int / (to as int));
                assert((input@.len() * from) as int / (to as int) <= expected_out_size);
                assert(acc as nat / pow2((nbits - TO) as nat) < pow2(to)) by {
                    vstd::arithmetic::div_mod::lemma_multiply_divide_lt(
                        acc as int,
                        pow2((nbits - TO) as nat) as int,
                        pow2(to) as int,
                    );
                }
                assert(acc as nat % pow2((nbits - TO) as nat) < pow2((nbits - TO) as nat)) by {
                    vstd::arithmetic::div_mod::lemma_mod_bound(
                        acc as int,
                        pow2((nbits - TO) as nat) as int,
                    );
                }
            }
            let word = acc / sh;
            out.set(out_idx, word as u8);
            acc = acc % sh;
            nbits = nbits - TO as u32;
            out_idx = out_idx + 1;
            proof {
                assert(groups =~= out@.subrange(0, out_idx as int) + spec_regroup(
                    input@.skip(i as int),
                    acc as nat,
                    nbits as nat,
                    from,
                    to,
                    pad,
                ));
            }
        }
    }

    proof {
        assert(input@.skip(i as int) =~= Seq::<u8>::empty());
    }

    if pad {
        if nbits > 0 {
            proof {
                lemma_pow2_adds(nbits as nat, (to - nbits as nat) as nat);
                lemma_fundamental_div_mod_converse(
                    (input@.len() * from) as int,
                    to as int,
                    out_idx as int,
                    nbits as int,
                );
                assert(expected_out_size == out_idx + 1);
                lemma_pow2_pos((to - nbits as nat) as nat);
                assert(acc as nat * pow2((to - nbits as nat) as nat) < pow2(to))
                    by (nonlinear_arith)
                    requires
                        (acc as nat) < pow2(nbits as nat),
                        pow2((to - nbits as nat) as nat) >= 1,
                        pow2(nbits as nat) * pow2((to - nbits as nat) as nat) == pow2(to),
                ;
                vstd::arithmetic::power2::lemma_pow2_strictly_increases(to, 9);
                vstd::arithmetic::power2::lemma2_to64();
                assert(pow2(to) <= 256) by {
                    if to < 8 {
                        vstd::arithmetic::power2::lemma_pow2_strictly_increases(to, 8);
                    }
                }
            }
            let fl = pow2_u32(TO as u32 - nbits);
            out.set(out_idx, (acc * fl) as u8);
            proof {
                assert(groups =~= out@.subrange(0, out_idx as int + 1));
                assert(out@ =~= out@.subrange(0, out_idx as int + 1) + out0.skip(
                    out_idx as int + 1,
                ));
            }
        } else {
            proof {
                assert(groups =~= out@.subrange(0, out_idx as int));
                assert(out@ =~= out@.subrange(0, out_idx as int) + out0.skip(out_idx as int));
            }
        }
        Ok(())
    } else if nbits >= FROM as u32 || acc != 0 {
        Err(ConvertBitsError::InvalidPadding)
    } else {
        proof {
            assert(groups =~= out@.subrange(0, out_idx as int));
            assert(out@ =~= out@.subrange(0, out_idx as int) + out0.skip(out_idx as int));
        }
        Ok(())
    }
}

/// How many words regrouping emits: one per full `to` bits, plus the
/// padded remainder word when `pad` is set.
pub proof fn lemma_regroup_len(input: Seq<u8>, p: nat, nbits: nat, from: nat, to: nat, pad: bool)
    requires
        1 <= to,
    ensures
        spec_regroup(input, p, nbits, from, to, pad).len() == (nbits + input.len() * from) / to + (
        if pad && (nbits + input.len() * from) % to != 0 {
            1nat
        } else {
            0nat
        }),
    decreases input.len(), nbits,
{
    let total = nbits + input.len() * from;
    if nbits >= to {
        lemma_regroup_len(
            input,
            p % pow2((nbits - to) as nat),
            (nbits - to) as nat,
            from,
            to,
            pad,
        );
        let total2 = (nbits - to) as nat + input.len() * from;
        assert(total == total2 + to);
        assert(total as int / to as int == 1 + total2 as int / to as int) by {
            vstd::arithmetic::div_mod::lemma_div_plus_one(total2 as int, to as int);
        }
        assert(total as int % to as int == total2 as int % to as int) by {
            vstd::arithmetic::div_mod::lemma_mod_multiples_vanish(1, total2 as int, to as int);
        }
        assert(spec_regroup(input, p, nbits, from, to, pad).len() == 1 + spec_regroup(
            input,
            p % pow2((nbits - to) as nat),
            (nbits - to) as nat,
            from,
            to,
            pad,
        ).len());
    } else if input.len() > 0 {
        lemma_regroup_len(
            input.drop_first(),
            (p * pow2(from) + input.first()) as nat,
            nbits + from,
            from,
            to,
            pad,
        );
        assert((nbits + from) + input.drop_first().len() * from == total) by (nonlinear_arith)
            requires
                input.len() >= 1,
                input.drop_first().len() == input.len() - 1,
                total == nbits + input.len() * from,
        ;
    } else if pad && nbits > 0 {
        assert(total == nbits) by (nonlinear_arith)
            requires
                input.len() == 0,
                total == nbits + input.len() * from,
        ;
        vstd::arithmetic::div_mod::lemma_basic_div(total as int, to as int);
        vstd::arithmetic::div_mod::lemma_small_mod(total, to);
    } else {
        assert(total == nbits) by (nonlinear_arith)
            requires
                input.len() == 0,
                total == nbits + input.len() * from,
        ;
        vstd::arithmetic::div_mod::lemma_basic_div(total as int, to as int);
        vstd::arithmetic::div_mod::lemma_small_mod(total, to);
    }
}

/// The ASCII code of the lowercase hex digit for `d`.
pub open spec fn spec_hex_digit(d: nat) -> u8 {
    if d < 10 {
        (48 + d) as u8
    } else {
        (87 + d) as u8
    }
}

/// Lowercase hex digit character for a value below 16.
fn hex_digit(d: u8) -> (r: u8)
    requires
        d < 16,
    ensures
        r == spec_hex_digit(d as nat),
{
    if d < 10 {
        48 + d
    } else {
        87 + d
    }
}

/// Write the lowercase hex expansion of `input` into a prefix of `output`.
///
/// Each input byte becomes two hex digit characters; returns the number of
/// bytes written. Fails when `output` cannot hold `2 * input.len()` bytes,
/// leaving it untouched; bytes past the written prefix are untouched too.
pub fn hex_encode(input: &[u8], output: &mut Vec<u8>) -> (r: Result<usize, OutputBufferTooSmall>)
    requires
        input@.len() * 2 <= usize::MAX,
    ensures
        final(output)@.len() == old(output)@.len(),
        input@.len() * 2 > old(output)@.len() ==> r == Err::<usize, _>(OutputBufferTooSmall)
            && final(output)@ == old(output)@,
        input@.len() * 2 <= old(output)@.len() ==> ({
            &&& r == Ok::<_, OutputBufferTooSmall>((input@.len() * 2) as usize)
            &&& forall|i: int|
                0 <= i < input@.len() ==> final(output)@[2 * i] == spec_hex_digit(
                    (input@[i] / 16) as nat,
                ) && final(output)@[2 * i + 1] == spec_hex_digit((input@[i] % 16) as nat)
            &&& forall|i: int|
                2 * input@.len() <= i < final(output)@.len() ==> final(output)@[i] == old(
                    output,
                )@[i]
        }),
{
    if input.len() * 2 > output.len() {
        return Err(OutputBufferTooSmall);
    }

    let ghost out0 = output@;
    let mut i: usize = 0;
    while i < input.len()
        invariant
            out0 == old(output)@,
            i <= input@.len(),
            2 * input@.len() <= usize::MAX,
            input@.len() * 2 <= output@.len(),
            output@.len() == out0.len(),
            forall|j: int|
                0 <= j < i ==> output@[2 * j] == spec_hex_digit((input@[j] / 16) as nat)
                    && output@[2 * j + 1] == spec_hex_digit((input@[j] % 16) as nat),
            forall|j: int| 2 * i <= j < output@.len() ==> output@[j] == out0[j],
        decreases input@.len() - i,
    {
        let b = input[i];
        proof {
            assert(2 * (i + 1) <= 2 * input@.len());
        }
        output.set(2 * i, hex_digit(b / 16));
        output.set(2 * i + 1, hex_digit(b % 16));
        i += 1;
    }
    Ok(input.len() * 2)
}

/// The canonical big-endian base-58 digits of a number (empty for zero).
pub open spec fn spec_base58_digits(n: nat) -> Seq<u8>
    decreases n,
{
    if n == 0 {
        Seq::empty()
    } else {
        spec_base58_digits(n / 58) + seq![(n % 58) as u8]
    }
}

/// How many leading zero bytes a sequence starts with.
pub open spec fn spec_leading_zeros(s: Seq<u8>) -> nat
    decreases s.len(),
{
    if s.len() == 0 {
        0
    } else if s.first() == 0 {
        1 + spec_leading_zeros(s.drop_first())
    } else {
        0
    }
}

/// The base-58 alphabet, as ASCII bytes, indexed by digit value.
pub open spec fn spec_b58_alphabet() -> Seq<u8> {
    seq![
        49u8, 50u8, 51u8, 52u8, 53u8, 54u8, 55u8, 56u8, 57u8,
        65u8, 66u8, 67u8, 68u8, 69u8, 70u8, 71u8, 72u8,
        74u8, 75u8, 76u8, 77u8, 78u8,
        80u8, 81u8, 82u8, 83u8, 84u8, 85u8, 86u8, 87u8, 88u8, 89u8, 90u8,
        97u8, 98u8, 99u8, 100u8, 101u8, 102u8, 103u8, 104u8, 105u8, 106u8, 107u8,
        109u8, 110u8, 111u8, 112u8, 113u8, 114u8, 115u8, 116u8, 117u8, 118u8, 119u8,
        120u8, 121u8, 122u8,
    ]
}

/// The value a little-endian base-58 digit sequence stands for.
pub open spec fn spec_le58(s: Seq<u8>) -> nat
    decreases s.len(),
{
    if s.len() == 0 {
        0
    } else {
        (s.first() + 58 * spec_le58(s.drop_first())) as nat
    }
}

/// A digit sequence is bounded by 58 to its length.
proof fn lemma_le58_bound(s: Seq<u8>)
    requires
        forall|k: int| 0 <= k < s.len() ==> s[k] < 58,
    ensures
        spec_le58(s) < pow(58, s.len()),
    decreases s.len(),
{
    vstd::arithmetic::power::lemma_pow_positive(58, s.len());
    if s.len() > 0 {
        lemma_le58_bound(s.drop_first());
        assert(pow(58, s.len()) == pow(58, (s.len() - 1) as nat) * 58) by {
            vstd::arithmetic::power::lemma_pow1(58);
            vstd::arithmetic::power::lemma_pow_adds(58, (s.len() - 1) as nat, 1);
        }
        assert(s.first() + 58 * spec_le58(s.drop_first()) < pow(58, (s.len() - 1) as nat) * 58)
            by (nonlinear_arith)
            requires
                (s.first() as nat) < 58,
                spec_le58(s.drop_first()) < pow(58, (s.len() - 1) as nat),
        ;
    }
}

/// A digit sequence is worth at least its top digit's weight.
proof fn lemma_le58_top(s: Seq<u8>)
    requires
        s.len() > 0,
    ensures
        spec_le58(s) >= (s.last() as nat) * pow(58, (s.len() - 1) as nat),
    decreases s.len(),
{
    vstd::arithmetic::power::lemma_pow_positive(58, (s.len() - 1) as nat);
    if s.len() == 1 {
        assert(pow(58, 0) == 1) by {
            vstd::arithmetic::power::lemma_pow0(58);
        }
    } else {
        lemma_le58_top(s.drop_first());
        assert(s.drop_first().last() == s.last());
        assert(pow(58, (s.len() - 1) as nat) == pow(58, (s.len() - 2) as nat) * 58) by {
            vstd::arithmetic::power::lemma_pow1(58);
            vstd::arithmetic::power::lemma_pow_adds(58, (s.len() - 2) as nat, 1);
        }
        assert(58 * spec_le58(s.drop_first()) >= (s.last() as nat) * (pow(
            58,
            (s.len() - 2) as nat,
        ) * 58)) by (nonlinear_arith)
            requires
                spec_le58(s.drop_first()) >= (s.last() as nat) * pow(58, (s.len() - 2) as nat),
        ;
    }
}

/// A little-endian digit sequence with digits below 58 and a nonzero top
/// digit is the mirror image of the canonical big-endian digits of its
/// value.
proof fn lemma_le58_canonical(s: Seq<u8>)
    requires
        forall|k: int| 0 <= k < s.len() ==> s[k] < 58,
        s.len() > 0 ==> s.last() != 0,
    ensures
        s.len() == spec_base58_digits(spec_le58(s)).len(),
        forall|k: int|
            0 <= k < s.len() ==> s[k] == spec_base58_digits(spec_le58(s))[s.len() - 1 - k],
    decreases s.len(),
{
    let n = spec_le58(s);
    if s.len() == 0 {
    } else {
        assert(n == s.first() + 58 * spec_le58(s.drop_first()));
        if n == 0 {
            // the top digit is nonzero, so the value cannot be zero
            lemma_le58_top(s);
            vstd::arithmetic::power::lemma_pow_positive(58, (s.len() - 1) as nat);
            assert((s.last() as nat) * pow(58, (s.len() - 1) as nat) >= 1) by (nonlinear_arith)
                requires
                    (s.last() as nat) >= 1,
                    pow(58, (s.len() - 1) as nat) >= 1,
            ;
            assert(false);
        }
        assert(n % 58 == s.first() && n / 58 == spec_le58(s.drop_first())) by {
            vstd::arithmetic::div_mod::lemma_fundamental_div_mod_converse(
                n as int,
                58,
                spec_le58(s.drop_first()) as int,
                s.first() as int,
            );
        }
        if s.len() == 1 {
            assert(s.drop_first() =~= Seq::<u8>::empty());
            assert(spec_le58(s.drop_first()) == 0);
            assert(spec_base58_digits(0) =~= Seq::<u8>::empty());
            assert(spec_base58_digits(n) =~= seq![(n % 58) as u8]);
        } else {
            assert(s.drop_first().last() == s.last());
            lemma_le58_canonical(s.drop_first());
            let rest = spec_base58_digits(spec_le58(s.drop_first()));
            assert(spec_base58_digits(n) == rest + seq![(n % 58) as u8]);
            assert forall|k: int| 0 <= k < s.len() implies s[k] == spec_base58_digits(n)[s.len()
                - 1 - k] by {
                if k == 0 {
                    assert(spec_base58_digits(n)[s.len() - 1] == (n % 58) as u8);
                } else {
                    assert(s[k] == s.drop_first()[k - 1]);
                    assert(s.drop_first()[k - 1] == rest[s.len() - 2 - (k - 1)]);
                    assert(spec_base58_digits(n)[s.len() - 1 - k] == rest[s.len() - 1 - k]);
                }
            }
        }
    }
}

/// Appending a digit adds it at the top weight.
proof fn lemma_le58_snoc(s: Seq<u8>, x: u8)
    ensures
        spec_le58(s.push(x)) == spec_le58(s) + (x as nat) * pow(58, s.len()),
    decreases s.len(),
{
    vstd::arithmetic::power::lemma_pow_positive(58, s.len());
    if s.len() == 0 {
        assert(s.push(x).drop_first() =~= Seq::<u8>::empty());
        assert(spec_le58(Seq::<u8>::empty()) == 0);
        assert(s.push(x).first() == x);
        assert(pow(58, 0) == 1) by {
            vstd::arithmetic::power::lemma_pow0(58);
        }
    } else {
        assert(s.push(x).first() == s.first());
        assert(s.push(x).drop_first() =~= s.drop_first().push(x));
        lemma_le58_snoc(s.drop_first(), x);
        assert(pow(58, s.len()) == 58 * pow(58, (s.len() - 1) as nat)) by {
            vstd::arithmetic::power::lemma_pow1(58);
            vstd::arithmetic::power::lemma_pow_adds(58, 1, (s.len() - 1) as nat);
        }
        assert(58 * (spec_le58(s.drop_first()) + (x as nat) * pow(58, (s.len() - 1) as nat)) == 58
            * spec_le58(s.drop_first()) + (x as nat) * (58 * pow(58, (s.len() - 1) as nat)))
            by (nonlinear_arith);
    }
}

/// A larger number never has fewer digits.
proof fn lemma_base58_digits_len_mono(n1: nat, n2: nat)
    requires
        n1 <= n2,
    ensures
        spec_base58_digits(n1).len() <= spec_base58_digits(n2).len(),
    decreases n2,
{
    if n1 > 0 {
        vstd::arithmetic::div_mod::lemma_div_is_ordered(n1 as int, n2 as int, 58);
        vstd::arithmetic::div_mod::lemma_div_decreases(n2 as int, 58);
        vstd::arithmetic::div_mod::lemma_div_pos_is_pos(n1 as int, 58);
        lemma_base58_digits_len_mono(n1 / 58, n2 / 58);
    }
}

/// A number at least `pow(58, k)` has more than `k` digits.
proof fn lemma_base58_digits_len_lower(n: nat, k: nat)
    requires
        n >= pow(58, k),
    ensures
        spec_base58_digits(n).len() > k,
    decreases k,
{
    vstd::arithmetic::power::lemma_pow_positive(58, k);
    if k == 0 {
        assert(pow(58, 0) == 1) by {
            vstd::arithmetic::power::lemma_pow0(58);
        }
    } else {
        assert(pow(58, k) == 58 * pow(58, (k - 1) as nat)) by {
            vstd::arithmetic::power::lemma_pow1(58);
            vstd::arithmetic::power::lemma_pow_adds(58, 1, (k - 1) as nat);
        }
        vstd::arithmetic::power::lemma_pow_positive(58, (k - 1) as nat);
        assert(n / 58 >= pow(58, (k - 1) as nat)) by {
            vstd::arithmetic::div_mod::lemma_div_is_ordered(
                (58 * pow(58, (k - 1) as nat)) as int,
                n as int,
                58,
            );
            vstd::arithmetic::div_mod::lemma_div_by_multiple(pow(58, (k - 1) as nat) as int, 58);
        }
        lemma_base58_digits_len_lower(n / 58, (k - 1) as nat);
        assert(n > 0);
    }
}

/// A run of zero bytes followed by the end or a nonzero byte is exactly
/// the leading-zero count.
proof fn lemma_leading_zeros_count(s: Seq<u8>, k: int)
    requires
        0 <= k <= s.len(),
        forall|j: int| 0 <= j < k ==> s[j] == 0,
        k < s.len() ==> s[k] != 0,
    ensures
        spec_leading_zeros(s) == k,
    decreases s.len(),
{
    if s.len() == 0 {
    } else if k == 0 {
    } else {
        lemma_leading_zeros_count(s.drop_first(), k - 1);
    }
}

/// The base-58 character of a digit value.
fn b58_char(d: u8) -> (r: u8)
    requires
        d < 58,
    ensures
        r == spec_b58_alphabet()[d as int],
{
    let table: [u8; 58] = [
        49, 50, 51, 52, 53, 54, 55, 56, 57,
        65, 66, 67, 68, 69, 70, 71, 72,
        74, 75, 76, 77, 78,
        80, 81, 82, 83, 84, 85, 86, 87, 88, 89, 90,
        97, 98, 99, 100, 101, 102, 103, 104, 105, 106, 107,
        109, 110, 111, 112, 113, 114, 115, 116, 117, 118, 119,
        120, 121, 122,
    ];
    proof {
        assert(table@ =~= spec_b58_alphabet());
    }
    table[d as usize]
}

/// Write the base-58 expansion of `input` into a prefix of `output`.
///
/// The encoding is one `1` character per leading zero byte, then the
/// base-58 digits of the input read as one big-endian number, spelled in
/// the base-58 alphabet. Returns the number of bytes written; fails with
/// `OutputBufferTooSmall` exactly when that count exceeds `output`'s
/// length. Bytes past the written prefix are untouched.
pub fn bs58_encode(input: &[u8], output: &mut Vec<u8>) -> (r: Result<usize, OutputBufferTooSmall>)
    ensures
        final(output)@.len() == old(output)@.len(),
        ({
            let z = spec_leading_zeros(input@);
            let digits = spec_base58_digits(crate::math::to_nat_be(input@));
            let total = z + digits.len();
            &&& (total <= old(output)@.len() ==> ({
                &&& r == Ok::<usize, OutputBufferTooSmall>(total as usize)
                &&& forall|k: int| 0 <= k < z ==> final(output)@[k] == 49u8
                &&& forall|k: int|
                    0 <= k < digits.len() ==> final(output)@[z + k] == spec_b58_alphabet()[digits[k] as int]
                &&& forall|k: int|
                    total <= k < final(output)@.len() ==> final(output)@[k] == old(output)@[k]
            }))
            &&& (total > old(output)@.len() ==> r == Err::<usize, _>(OutputBufferTooSmall))
        }),
{
    let ghost out0 = old(output)@;
    let ghost nfull = crate::math::to_nat_be(input@);
    let ghost digits = spec_base58_digits(nfull);
    let olen = output.len();
    let ilen = input.len();

    let mut index: usize = 0;
    let mut i: usize = 0;
    while i < ilen
        invariant
            out0 == old(output)@,
            nfull == crate::math::to_nat_be(input@),
            ilen == input@.len(),
            olen == output@.len() == out0.len(),
            i <= ilen,
            index <= olen,
            forall|k: int| 0 <= k < index ==> (#[trigger] output@[k]) < 58,
            index > 0 ==> output@[index - 1] != 0,
            (index > 0) == (crate::math::to_nat_be(input@.take(i as int)) > 0),
            spec_le58(output@.take(index as int)) == crate::math::to_nat_be(
                input@.take(i as int),
            ),
            forall|k: int| index <= k < olen ==> output@[k] == out0[k],
        decreases ilen - i,
    {
        let val = input[i];
        let ghost vpre = crate::math::to_nat_be(input@.take(i as int));
        let ghost vnext = crate::math::to_nat_be(input@.take(i as int + 1));
        proof {
            assert(input@.take(i as int + 1).drop_last() =~= input@.take(i as int));
            assert(input@.take(i as int + 1).last() == input@[i as int]);
            assert(vnext == vpre * 256 + val);
        }

        let ghost d0 = output@;
        let mut carry: u32 = val as u32;
        let mut j: usize = 0;
        proof {
            vstd::arithmetic::power::lemma_pow0(58);
            assert(output@.take(0) =~= Seq::<u8>::empty());
            assert(d0.take(0) =~= Seq::<u8>::empty());
            assert(spec_le58(Seq::<u8>::empty()) == 0);
        }
        while j < index
            invariant
                olen == output@.len() == d0.len(),
                j <= index <= olen,
                carry < 0x10000,
                val < 256,
                forall|k: int| 0 <= k < index ==> (#[trigger] d0[k]) < 58,
                forall|k: int| 0 <= k < j ==> (#[trigger] output@[k]) < 58,
                forall|k: int| j <= k < olen ==> output@[k] == d0[k],
                spec_le58(output@.take(j as int)) + (carry as nat) * pow(58, j as nat)
                    == spec_le58(d0.take(j as int)) * 256 + val,
            decreases index - j,
        {
            let ghost outpre = output@;
            let ghost cpre = carry as nat;
            let ghost p = pow(58, j as nat);
            carry = carry + (output[j] as u32) * 256;
            let ghost c = carry as nat;
            let digit = (carry % 58) as u8;
            output.set(j, digit);
            carry = carry / 58;
            j += 1;
            proof {
                let jj = j - 1;
                vstd::arithmetic::power::lemma_pow_positive(58, jj as nat);
                assert(pow(58, jj as nat + 1) == 58 * p) by {
                    vstd::arithmetic::power::lemma_pow1(58);
                    vstd::arithmetic::power::lemma_pow_adds(58, 1, jj as nat);
                }
                assert(output@.take(jj as int) =~= outpre.take(jj as int));
                assert(output@.take(jj as int + 1) =~= outpre.take(jj as int).push(digit));
                assert(d0.take(jj as int + 1) =~= d0.take(jj as int).push(d0[jj as int]));
                lemma_le58_snoc(outpre.take(jj as int), digit);
                lemma_le58_snoc(d0.take(jj as int), d0[jj as int]);
                vstd::arithmetic::div_mod::lemma_fundamental_div_mod(c as int, 58);
                assert((c % 58) + 58 * (c / 58) == c);
                let a = spec_le58(outpre.take(jj as int));
                let b = spec_le58(d0.take(jj as int));
                let dj = d0[jj as int] as nat;
                assert(a + cpre * p == b * 256 + val);
                assert(c == cpre + dj * 256);
                assert(a + (c % 58) * p + (c / 58) * (58 * p) == b * 256 + val + dj * p * 256)
                    by (nonlinear_arith)
                    requires
                        (c % 58) + 58 * (c / 58) == c,
                        c == cpre + dj * 256,
                        a + cpre * p == b * 256 + val,
                ;
                assert(b * 256 + dj * p * 256 == (b + dj * p) * 256) by (nonlinear_arith);
                assert(spec_le58(output@.take(j as int)) == a + (c % 58) * p);
                assert(spec_le58(d0.take(j as int)) == b + dj * p);
            }
        }
        proof {
            assert(output@.take(index as int) =~= output@.take(j as int));
            assert(d0.take(index as int) =~= d0.take(j as int));
        }

        let ghost target = vnext;
        proof {
            assert(spec_le58(output@.take(index as int)) + (carry as nat) * pow(58, index as nat)
                == target);
            // with no carry, the top digit survived the in-place update:
            // the value grew by a factor larger than the base
            if carry == 0 && index > 0 {
                assert(vpre > 0);
                if output@[index - 1] == 0 {
                    vstd::arithmetic::power::lemma_pow0(58);
                    assert(output@.take(index as int).last() == 0);
                    assert(output@.take(index as int - 1).push(0u8) =~= output@.take(
                        index as int,
                    ));
                    lemma_le58_snoc(output@.take(index as int - 1), 0u8);
                    lemma_le58_bound(output@.take(index as int - 1));
                    assert(spec_le58(output@.take(index as int)) < pow(58, (index - 1) as nat));
                    lemma_le58_top(d0.take(index as int));
                    assert(d0.take(index as int).last() == d0[index - 1]);
                    vstd::arithmetic::power::lemma_pow_positive(58, (index - 1) as nat);
                    assert(vpre >= pow(58, (index - 1) as nat)) by (nonlinear_arith)
                        requires
                            vpre >= (d0[index - 1] as nat) * pow(58, (index - 1) as nat),
                            (d0[index - 1] as nat) >= 1,
                            pow(58, (index - 1) as nat) >= 1,
                    ;
                    assert(target >= 256 * vpre) by (nonlinear_arith)
                        requires
                            target == vpre * 256 + val,
                    ;
                    assert(target < pow(58, (index - 1) as nat));
                    assert(false);
                }
            }
        }
        while carry > 0
            invariant
                out0 == old(output)@,
                olen == output@.len() == out0.len(),
                index <= olen,
                forall|k: int| 0 <= k < index ==> (#[trigger] output@[k]) < 58,
                forall|k: int| index <= k < olen ==> output@[k] == out0[k],
                spec_le58(output@.take(index as int)) + (carry as nat) * pow(58, index as nat)
                    == target,
                carry == 0 ==> (index == 0 || output@[index - 1] != 0),
                nfull == crate::math::to_nat_be(input@),
                ilen == input@.len(),
                i < ilen,
                target == crate::math::to_nat_be(input@.take(i as int + 1)),
            decreases carry,
        {
            if index == olen {
                // the accumulated value alone already needs more digits
                // than the buffer has bytes
                proof {
                    vstd::arithmetic::power::lemma_pow_positive(58, index as nat);
                    assert(target >= pow(58, index as nat)) by (nonlinear_arith)
                        requires
                            (carry as nat) >= 1,
                            spec_le58(output@.take(index as int)) + (carry as nat) * pow(
                                58,
                                index as nat,
                            ) == target,
                            pow(58, index as nat) >= 1,
                    ;
                    lemma_base58_digits_len_lower(target, index as nat);
                    crate::math::lemma_to_nat_be_split(input@, i as int + 1);
                    vstd::arithmetic::power::lemma_pow_positive(
                        256,
                        (input@.len() - i - 1) as nat,
                    );
                    assert(nfull >= target) by (nonlinear_arith)
                        requires
                            nfull == target * pow(256, (input@.len() - i - 1) as nat)
                                + crate::math::to_nat_be(input@.skip(i as int + 1)),
                            pow(256, (input@.len() - i - 1) as nat) >= 1,
                    ;
                    lemma_base58_digits_len_mono(target, nfull);
                    assert(spec_base58_digits(nfull).len() > index);
                    assert(spec_leading_zeros(input@) + spec_base58_digits(nfull).len()
                        > olen);
                }
                return Err(OutputBufferTooSmall);
            }
            let ghost outpre = output@;
            let ghost cpre2 = carry as nat;
            let ghost p = pow(58, index as nat);
            let digit = (carry % 58) as u8;
            output.set(index, digit);
            carry = carry / 58;
            index += 1;
            proof {
                let ii = index - 1;
                vstd::arithmetic::power::lemma_pow_positive(58, ii as nat);
                assert(pow(58, ii as nat + 1) == 58 * p) by {
                    vstd::arithmetic::power::lemma_pow1(58);
                    vstd::arithmetic::power::lemma_pow_adds(58, 1, ii as nat);
                }
                assert(output@.take(ii as int) =~= outpre.take(ii as int));
                assert(output@.take(ii as int + 1) =~= outpre.take(ii as int).push(digit));
                lemma_le58_snoc(outpre.take(ii as int), digit);
                vstd::arithmetic::div_mod::lemma_fundamental_div_mod(cpre2 as int, 58);
                let a = spec_le58(outpre.take(ii as int));
                assert(a + (cpre2 % 58) * p + (cpre2 / 58) * (58 * p) == a + cpre2 * p)
                    by (nonlinear_arith)
                    requires
                        (cpre2 % 58) + 58 * (cpre2 / 58) == cpre2,
                ;
                if cpre2 < 58 {
                    vstd::arithmetic::div_mod::lemma_basic_div(cpre2 as int, 58);
                    vstd::arithmetic::div_mod::lemma_small_mod(cpre2, 58);
                    assert(digit != 0);
                }
            }
        }

        proof {
            if target == 0 && index > 0 {
                lemma_le58_top(output@.take(index as int));
                vstd::arithmetic::power::lemma_pow_positive(58, (index - 1) as nat);
                assert((output@.take(index as int).last() as nat) * pow(58, (index - 1) as nat)
                    >= 1) by (nonlinear_arith)
                    requires
                        (output@.take(index as int).last() as nat) >= 1,
                        pow(58, (index - 1) as nat) >= 1,
                ;
                assert(false);
            }
            if target > 0 && index == 0 {
                vstd::arithmetic::power::lemma_pow0(58);
                assert(output@.take(0) =~= Seq::<u8>::empty());
                assert(false);
            }
        }
        i += 1;
    }

    proof {
        assert(input@.take(ilen as int) =~= input@);
        assert(spec_le58(output@.take(index as int)) == nfull);
        lemma_le58_canonical(output@.take(index as int));
        assert(digits.len() == index);
        assert forall|k: int| 0 <= k < index implies output@[k] == digits[index - 1 - k] by {
            assert(output@.take(index as int)[k] == output@[k]);
        }
    }

    // one output zero per leading zero byte of the input
    let mut z: usize = 0;
    while z < ilen && input[z] == 0
        invariant
            ilen == input@.len(),
            z <= ilen,
            forall|j: int| 0 <= j < z ==> input@[j] == 0,
        decreases ilen - z,
    {
        z += 1;
    }
    proof {
        lemma_leading_zeros_count(input@, z as int);
    }
    if z > olen - index {
        return Err(OutputBufferTooSmall);
    }
    let total = index + z;
    let ghost mid = output@;
    proof {
        assert(forall|j: int| 0 <= j < index ==> (#[trigger] mid[j]) < 58);
        assert(forall|j: int| 0 <= j < index ==> (#[trigger] mid[j]) == digits[index - 1 - j]);
        assert(forall|j: int| index <= j < olen ==> (#[trigger] mid[j]) == out0[j]);
    }
    let mut k: usize = index;
    while k < total
        invariant
            olen == output@.len() == mid.len(),
            index <= k <= total <= olen,
            forall|j: int| 0 <= j < index ==> output@[j] == mid[j],
            forall|j: int| index <= j < k ==> output@[j] == 0u8,
            forall|j: int| k <= j < olen ==> output@[j] == mid[j],
        decreases total - k,
    {
        output.set(k, 0);
        k += 1;
    }

    // spell the digits in the alphabet and mirror the prefix into
    // big-endian reading order
    let ghost dstate = output@;
    proof {
        assert forall|j: int| 0 <= j < index implies (#[trigger] dstate[j]) < 58 by {
            assert(output@[j] == mid[j]);
        }
        assert forall|j: int| index <= j < total implies (#[trigger] dstate[j]) == 0u8 by {
            assert(output@[j] == 0u8);
        }
        assert forall|j: int| 0 <= j < index implies (#[trigger] dstate[j]) == mid[j] by {
            assert(output@[j] == mid[j]);
        }
        assert forall|j: int| total <= j < olen implies (#[trigger] dstate[j]) == mid[j] by {
            assert(output@[j] == mid[j]);
        }
    }
    let mut rev: Vec<u8> = Vec::new();
    let mut k: usize = 0;
    while k < total
        invariant
            olen == output@.len(),
            output@ == dstate,
            k <= total <= olen,
            rev@.len() == k,
            forall|j: int| 0 <= j < index ==> (#[trigger] dstate[j]) < 58,
            forall|j: int| index <= j < total ==> (#[trigger] dstate[j]) == 0u8,
            forall|j: int|
                0 <= j < k ==> (#[trigger] rev@[j]) == spec_b58_alphabet()[dstate[total - 1
                    - j] as int],
        decreases total - k,
    {
        let d = output[total - 1 - k];
        rev.push(b58_char(d));
        k += 1;
    }
    let mut k: usize = 0;
    while k < total
        invariant
            olen == output@.len(),
            k <= total <= olen,
            rev@.len() == total,
            forall|j: int| 0 <= j < k ==> output@[j] == rev@[j],
            forall|j: int| k <= j < olen ==> output@[j] == dstate[j],
        decreases total - k,
    {
        output.set(k, rev[k]);
        k += 1;
    }
    proof {
        assert(spec_b58_alphabet()[0] == 49u8);
        assert forall|k2: int| 0 <= k2 < z implies output@[k2] == 49u8 by {
            assert(output@[k2] == rev@[k2]);
            assert(total - 1 - k2 >= index);
            assert(dstate[total - 1 - k2] == 0u8);
        }
        assert forall|k2: int| 0 <= k2 < digits.len() implies output@[z + k2]
            == spec_b58_alphabet()[digits[k2] as int] by {
            assert(output@[z + k2] == rev@[z + k2]);
            assert(total - 1 - (z + k2) < index);
            assert(dstate[total - 1 - (z + k2)] == mid[index - 1 - k2]);
            assert(mid[index - 1 - k2] == digits[index - 1 - (index - 1 - k2)]);
        }
        assert forall|k2: int| total <= k2 < olen implies output@[k2] == out0[k2] by {
            assert(output@[k2] == dstate[k2]);
            assert(dstate[k2] == mid[k2]);
        }
    }
    Ok(total)
}

} // verus!
