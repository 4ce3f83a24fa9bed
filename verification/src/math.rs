//! Arithmetic on big-endian byte arrays: comparison and modular
//! reduction, as the signing engine needs them for scalar handling.

use vstd::prelude::*;
use vstd::arithmetic::power::pow;
use core::cmp::Ordering;
use crate::crypto::Error;

verus! {

/// The number a big-endian byte sequence stands for.
pub open spec fn to_nat_be(s: Seq<u8>) -> nat
    decreases s.len(),
{
    if s.len() == 0 {
        0
    } else {
        (to_nat_be(s.drop_last()) * 256 + s.last()) as nat
    }
}

/// A byte sequence's number is bounded by 256 to its length.
pub proof fn lemma_to_nat_be_bound(s: Seq<u8>)
    ensures
        to_nat_be(s) < pow(256, s.len()),
    decreases s.len(),
{
    if s.len() == 0 {
        vstd::arithmetic::power::lemma_pow0(256);
    } else {
        lemma_to_nat_be_bound(s.drop_last());
        assert(pow(256, s.len()) == pow(256, (s.len() - 1) as nat) * 256) by {
            vstd::arithmetic::power::lemma_pow1(256);
            vstd::arithmetic::power::lemma_pow_adds(256, (s.len() - 1) as nat, 1);
        }
        assert(to_nat_be(s.drop_last()) * 256 + s.last() < pow(256, (s.len() - 1) as nat) * 256)
            by (nonlinear_arith)
            requires
                to_nat_be(s.drop_last()) < pow(256, (s.len() - 1) as nat),
                (s.last() as nat) < 256,
        ;
    }
}

/// Splitting a byte sequence splits its number at the matching power.
pub proof fn lemma_to_nat_be_split(s: Seq<u8>, m: int)
    requires
        0 <= m <= s.len(),
    ensures
        to_nat_be(s) == to_nat_be(s.take(m)) * pow(256, (s.len() - m) as nat) + to_nat_be(
            s.skip(m),
        ),
    decreases s.len(),
{
    if m == s.len() {
        assert(s.take(m) =~= s);
        assert(s.skip(m) =~= Seq::<u8>::empty());
        vstd::arithmetic::power::lemma_pow0(256);
    } else {
        let d = s.drop_last();
        lemma_to_nat_be_split(d, m);
        assert(d.take(m) =~= s.take(m));
        assert(s.skip(m).drop_last() =~= d.skip(m));
        assert(s.skip(m).last() == s.last());
        assert(s.skip(m).len() > 0);
        let k = (s.len() - 1 - m) as nat;
        assert(pow(256, k + 1) == pow(256, k) * 256) by {
            vstd::arithmetic::power::lemma_pow1(256);
            vstd::arithmetic::power::lemma_pow_adds(256, k, 1);
        }
        assert(to_nat_be(s) == to_nat_be(d) * 256 + s.last());
        assert((to_nat_be(s.take(m)) * pow(256, k) + to_nat_be(d.skip(m))) * 256 == to_nat_be(
            s.take(m),
        ) * (pow(256, k) * 256) + to_nat_be(d.skip(m)) * 256) by (nonlinear_arith);
    }
}

/// On sequences of one length, sharing a prefix and then differing
/// decides the numeric order byte by byte.
pub proof fn lemma_to_nat_be_prefix_lt(a: Seq<u8>, b: Seq<u8>, k: int)
    requires
        a.len() == b.len(),
        0 <= k < a.len(),
        a.take(k) == b.take(k),
        a[k] < b[k],
    ensures
        to_nat_be(a) < to_nat_be(b),
{
    let n = a.len() as int;
    lemma_to_nat_be_split(a, k + 1);
    lemma_to_nat_be_split(b, k + 1);
    assert(a.take(k + 1) =~= a.take(k).push(a[k]));
    assert(b.take(k + 1) =~= b.take(k).push(b[k]));
    assert(a.take(k + 1).drop_last() =~= a.take(k));
    assert(b.take(k + 1).drop_last() =~= b.take(k));
    assert(to_nat_be(a.take(k + 1)) == to_nat_be(a.take(k)) * 256 + a[k]);
    assert(to_nat_be(b.take(k + 1)) == to_nat_be(b.take(k)) * 256 + b[k]);
    lemma_to_nat_be_bound(a.skip(k + 1));
    let p = pow(256, (n - k - 1) as nat);
    assert(to_nat_be(a) == to_nat_be(a.take(k + 1)) * p + to_nat_be(a.skip(k + 1)));
    assert(to_nat_be(b) == to_nat_be(b.take(k + 1)) * p + to_nat_be(b.skip(k + 1)));
    assert(to_nat_be(a.take(k + 1)) * p + to_nat_be(a.skip(k + 1)) < to_nat_be(b.take(k + 1)) * p)
        by (nonlinear_arith)
        requires
            to_nat_be(a.take(k + 1)) < to_nat_be(b.take(k + 1)),
            to_nat_be(a.skip(k + 1)) < p,
            p >= 1,
    {
    }
    assert(p >= 1) by {
        vstd::arithmetic::power::lemma_pow_positive(256, (n - k - 1) as nat);
    }
}

/// Compare two equally long operands as big-endian numbers.
///
/// The software backend always succeeds; the `Result` mirrors the
/// fallible coprocessor call the device uses.
pub fn cmp(a: &[u8], b: &[u8]) -> (r: Result<Ordering, Error>)
    requires
        a@.len() == b@.len(),
    ensures
        r matches Ok(o) && (o == Ordering::Less <==> to_nat_be(a@) < to_nat_be(b@)) && (o
            == Ordering::Equal <==> to_nat_be(a@) == to_nat_be(b@)) && (o == Ordering::Greater
            <==> to_nat_be(a@) > to_nat_be(b@)),
{
    let n = a.len();
    let mut i: usize = 0;
    while i < n
        invariant
            i <= n,
            n == a@.len() == b@.len(),
            a@.take(i as int) == b@.take(i as int),
        decreases n - i,
    {
        if a[i] < b[i] {
            proof {
                lemma_to_nat_be_prefix_lt(a@, b@, i as int);
            }
            return Ok(Ordering::Less);
        }
        if a[i] > b[i] {
            proof {
                lemma_to_nat_be_prefix_lt(b@, a@, i as int);
            }
            return Ok(Ordering::Greater);
        }
        proof {
            assert(a@.take(i as int).push(a@[i as int]) =~= a@.take(i as int + 1));
            assert(b@.take(i as int).push(b@[i as int]) =~= b@.take(i as int + 1));
        }
        i += 1;
    }
    proof {
        assert(a@.take(n as int) =~= a@);
        assert(b@.take(n as int) =~= b@);
    }
    Ok(Ordering::Equal)
}

/// Subtract `m` from `v` in place; both are big-endian and `v >= m`.
fn sub_be(v: &mut Vec<u8>, m: &[u8])
    requires
        old(v)@.len() == m@.len(),
        to_nat_be(old(v)@) >= to_nat_be(m@),
    ensures
        final(v)@.len() == old(v)@.len(),
        to_nat_be(final(v)@) == to_nat_be(old(v)@) - to_nat_be(m@),
{
    let n = v.len();
    let ghost v0 = v@;
    let mut i: usize = n;
    let mut borrow: u8 = 0;
    while i > 0
        invariant
            i <= n,
            v0 == old(v)@,
            v0.len() == n,
            n == v@.len() == m@.len(),
            forall|k: int| 0 <= k < i ==> v@[k] == v0[k],
            borrow <= 1,
            to_nat_be(v@.skip(i as int)) as int == to_nat_be(v0.skip(i as int)) as int
                - to_nat_be(m@.skip(i as int)) as int + (borrow as int) * (pow(
                256,
                (n - i) as nat,
            ) as int),
        decreases i,
    {
        let ghost p = pow(256, (n - i) as nat) as int;
        proof {
            vstd::arithmetic::power::lemma_pow1(256);
            vstd::arithmetic::power::lemma_pow_adds(256, (n - i) as nat, 1);
            vstd::arithmetic::power::lemma_pow_positive(256, (n - i) as nat);
        }
        let j = i - 1;
        let vj = v[j];
        let mj = m[j];
        let need: u16 = mj as u16 + borrow as u16;
        let ghost bin = borrow as int;
        let (res, new_borrow): (u8, u8) = if (vj as u16) >= need {
            ((vj as u16 - need) as u8, 0)
        } else {
            ((vj as u16 + 256 - need) as u8, 1)
        };
        let ghost vpre = v@;
        v.set(j, res);
        borrow = new_borrow;
        i = j;
        proof {
            assert(v@.skip(i as int).drop_first() =~= vpre.skip(i as int + 1));
            assert(v@.skip(i as int).first() == res);
            assert(v0.skip(i as int).drop_first() =~= v0.skip(i as int + 1));
            assert(v0.skip(i as int)[0] == v0[i as int]);
            assert(v0.skip(i as int).first() == vj);
            assert(m@.skip(i as int).drop_first() =~= m@.skip(i as int + 1));
            assert(m@.skip(i as int).first() == mj);
            lemma_to_nat_be_head(v@.skip(i as int));
            lemma_to_nat_be_head(v0.skip(i as int));
            lemma_to_nat_be_head(m@.skip(i as int));
            let sv = to_nat_be(vpre.skip(i as int + 1)) as int;
            let so = to_nat_be(v0.skip(i as int + 1)) as int;
            let sm = to_nat_be(m@.skip(i as int + 1)) as int;
            assert(sv == so - sm + bin * p);
            assert(to_nat_be(v@.skip(i as int)) as int == (res as int) * p + sv);
            assert(to_nat_be(v0.skip(i as int)) as int == (vj as int) * p + so);
            assert(to_nat_be(m@.skip(i as int)) as int == (mj as int) * p + sm);
            if new_borrow == 0 {
                assert(res as int == vj as int - mj as int - bin);
                assert((res as int) * p + sv == (vj as int) * p + so - ((mj as int) * p + sm))
                    by (nonlinear_arith)
                    requires
                        res as int == vj as int - mj as int - bin,
                        sv == so - sm + bin * p,
                ;
            } else {
                assert(res as int == vj as int + 256 - mj as int - bin);
                assert((res as int) * p + sv == (vj as int) * p + so - ((mj as int) * p + sm) + 256
                    * p) by (nonlinear_arith)
                    requires
                        res as int == vj as int + 256 - mj as int - bin,
                        sv == so - sm + bin * p,
                ;
            }
            assert(pow(256, (n - i) as nat) as int == 256 * p);
        }
    }
    proof {
        assert(v@.skip(0) =~= v@);
        assert(v0.skip(0) =~= v0);
        assert(m@.skip(0) =~= m@);
        if borrow == 1 {
            lemma_to_nat_be_bound(v@);
        }
    }
}

/// A sequence's number splits at its first byte.
pub proof fn lemma_to_nat_be_head(s: Seq<u8>)
    requires
        s.len() > 0,
    ensures
        to_nat_be(s) == (s.first() as nat) * pow(256, (s.len() - 1) as nat) + to_nat_be(
            s.drop_first(),
        ),
{
    lemma_to_nat_be_split(s, 1);
    assert(s.take(1) =~= seq![s.first()]);
    assert(seq![s.first()].drop_last() =~= Seq::<u8>::empty());
    assert(to_nat_be(Seq::<u8>::empty()) == 0);
    assert(to_nat_be(seq![s.first()]) == s.first() as nat);
    assert(s.skip(1) =~= s.drop_first());
}

/// Reduce `v` modulo `m` in place: repeated subtraction, which the
/// magnitudes in use here (a 256-bit value against a 251-bit order) keep
/// to a handful of rounds.
pub fn modm(v: &mut Vec<u8>, m: &[u8]) -> (r: Result<(), Error>)
    requires
        old(v)@.len() == m@.len(),
        to_nat_be(m@) > 0,
    ensures
        r is Ok,
        final(v)@.len() == old(v)@.len(),
        to_nat_be(final(v)@) == to_nat_be(old(v)@) % to_nat_be(m@),
{
    loop
        invariant
            v@.len() == m@.len(),
            to_nat_be(m@) > 0,
            to_nat_be(v@) % to_nat_be(m@) == to_nat_be(old(v)@) % to_nat_be(m@),
        ensures
            v@.len() == m@.len(),
            to_nat_be(v@) == to_nat_be(old(v)@) % to_nat_be(m@),
        decreases to_nat_be(v@),
    {
        let ord = match cmp(v.as_slice(), m) {
            Ok(o) => o,
            Err(e) => {
                proof {
                    assert(false);
                }
                return Err(e);
            },
        };
        match ord {
            Ordering::Less => {
                proof {
                    vstd::arithmetic::div_mod::lemma_small_mod(to_nat_be(v@), to_nat_be(m@));
                }
                break ;
            },
            _ => {
                let ghost before = to_nat_be(v@);
                sub_be(v, m);
                proof {
                    vstd::arithmetic::div_mod::lemma_mod_sub_multiples_vanish(
                        before as int,
                        to_nat_be(m@) as int,
                    );
                }
            },
        }
    }
    Ok(())
}

} // verus!
