//! Arithmetic in the base fields of the short Weierstrass curves, on field
//! elements given by their limbs.

use ark_ff::{BigInt, Field, PrimeField};
use vstd::prelude::*;

verus! {

/// The number that the limbs stand for, the least significant limb first.
pub open spec fn limbs_value(limbs: Seq<u64>) -> nat
    decreases limbs.len(),
{
    if limbs.len() == 0 {
        0
    } else {
        limbs[0] as nat + 0x1_0000_0000_0000_0000 * limbs_value(limbs.drop_first())
    }
}

/// The order of the base field of BN254.
pub open spec fn bn254_fq_modulus() -> nat {
    21888242871839275222246405745257275088696311157297823662689037894645226208583nat
}

/// The order of the base field of BLS12-381.
pub open spec fn bls12_381_fq_modulus() -> nat {
    4002409555221667393417789825735904156556882819939007885332058136124031650490837864442687629129015664037894272559787nat
}

/// The product of two elements of the base field of BN254, through `*` of
/// `ark_bn254::Fq`: the product of the two numbers, reduced by the order of
/// the field.
#[verifier::external_body]
pub(crate) fn bn254_fq_mul(a: &[u64; 4], b: &[u64; 4]) -> (product: [u64; 4])
    requires
        limbs_value(a@) < bn254_fq_modulus(),
        limbs_value(b@) < bn254_fq_modulus(),
    ensures
        limbs_value(product@) == (limbs_value(a@) * limbs_value(b@)) % bn254_fq_modulus(),
{
    let x = ark_bn254::Fq::from_bigint(BigInt::new(*a)).unwrap();
    let y = ark_bn254::Fq::from_bigint(BigInt::new(*b)).unwrap();
    (x * y).into_bigint().0
}

/// The inverse of an element of the base field of BN254, through
/// `Field::inverse` of `ark_bn254::Fq`: there is one for every element but
/// zero, and its product with the element is one.
#[verifier::external_body]
pub(crate) fn bn254_fq_inverse(a: &[u64; 4]) -> (inverse: Option<[u64; 4]>)
    requires
        limbs_value(a@) < bn254_fq_modulus(),
    ensures
        inverse.is_some() == (limbs_value(a@) != 0),
        inverse matches Some(r) ==> limbs_value(r@) < bn254_fq_modulus() && (limbs_value(r@)
            * limbs_value(a@)) % bn254_fq_modulus() == 1,
{
    let x = ark_bn254::Fq::from_bigint(BigInt::new(*a)).unwrap();
    x.inverse().map(|r| r.into_bigint().0)
}

/// The product of two elements of the base field of BLS12-381, through `*`
/// of `ark_bls12_381::Fq`: the product of the two numbers, reduced by the
/// order of the field.
#[verifier::external_body]
pub(crate) fn bls12_381_fq_mul(a: &[u64; 6], b: &[u64; 6]) -> (product: [u64; 6])
    requires
        limbs_value(a@) < bls12_381_fq_modulus(),
        limbs_value(b@) < bls12_381_fq_modulus(),
    ensures
        limbs_value(product@) == (limbs_value(a@) * limbs_value(b@)) % bls12_381_fq_modulus(),
{
    let x = ark_bls12_381::Fq::from_bigint(BigInt::new(*a)).unwrap();
    let y = ark_bls12_381::Fq::from_bigint(BigInt::new(*b)).unwrap();
    (x * y).into_bigint().0
}

/// The inverse of an element of the base field of BLS12-381, through
/// `Field::inverse` of `ark_bls12_381::Fq`: there is one for every element
/// but zero, and its product with the element is one.
#[verifier::external_body]
pub(crate) fn bls12_381_fq_inverse(a: &[u64; 6]) -> (inverse: Option<[u64; 6]>)
    requires
        limbs_value(a@) < bls12_381_fq_modulus(),
    ensures
        inverse.is_some() == (limbs_value(a@) != 0),
        inverse matches Some(r) ==> limbs_value(r@) < bls12_381_fq_modulus() && (limbs_value(r@)
            * limbs_value(a@)) % bls12_381_fq_modulus() == 1,
{
    let x = ark_bls12_381::Fq::from_bigint(BigInt::new(*a)).unwrap();
    x.inverse().map(|r| r.into_bigint().0)
}

/// The weight of limb `k`: `2^(64 k)`.
pub open spec fn limb_weight(k: nat) -> nat
    decreases k,
{
    if k == 0 {
        1
    } else {
        0x1_0000_0000_0000_0000 * limb_weight((k - 1) as nat)
    }
}

/// The limbs of the order of the base field of BN254.
pub fn bn254_fq_modulus_limbs() -> (limbs: [u64; 4])
    ensures
        limbs_value(limbs@) == bn254_fq_modulus(),
{
    let limbs = [
        0x3c208c16d87cfd47u64,
        0x97816a916871ca8d,
        0xb85045b68181585d,
        0x30644e72e131a029,
    ];
    proof {
        reveal_with_fuel(limbs_value, 5);
        let s = limbs@;
        assert(s.drop_first()[0] == s[1]);
        assert(s.drop_first().drop_first()[0] == s[2]);
        assert(s.drop_first().drop_first().drop_first()[0] == s[3]);
        assert(s.drop_first().drop_first().drop_first().drop_first().len() == 0);
    }
    limbs
}

/// The limbs of the order of the base field of BLS12-381.
pub fn bls12_381_fq_modulus_limbs() -> (limbs: [u64; 6])
    ensures
        limbs_value(limbs@) == bls12_381_fq_modulus(),
{
    let limbs = [
        0xb9feffffffffaaabu64,
        0x1eabfffeb153ffff,
        0x6730d2a0f6b0f624,
        0x64774b84f38512bf,
        0x4b1ba7b6434bacd7,
        0x1a0111ea397fe69a,
    ];
    proof {
        reveal_with_fuel(limbs_value, 7);
        let s = limbs@;
        let s1 = s.drop_first();
        let s2 = s1.drop_first();
        let s3 = s2.drop_first();
        let s4 = s3.drop_first();
        let s5 = s4.drop_first();
        assert(s1[0] == s[1]);
        assert(s2[0] == s[2]);
        assert(s3[0] == s[3]);
        assert(s4[0] == s[4]);
        assert(s5[0] == s[5]);
        assert(s5.drop_first().len() == 0);
    }
    limbs
}

/// The number that limbs stand for is the number of all limbs but the most
/// significant one, which is below the weight of that limb, and the most
/// significant limb at its weight.
pub proof fn lemma_limbs_split_last(limbs: Seq<u64>)
    requires
        limbs.len() > 0,
    ensures
        limbs_value(limbs) == limbs_value(limbs.drop_last()) + limbs.last() * limb_weight(
            (limbs.len() - 1) as nat,
        ),
        limbs_value(limbs.drop_last()) < limb_weight((limbs.len() - 1) as nat),
    decreases limbs.len(),
{
    let base = 0x1_0000_0000_0000_0000int;
    if limbs.len() == 1 {
        assert(limbs.drop_last().len() == 0);
        assert(limbs.drop_first().len() == 0);
        assert(limbs.last() == limbs[0]);
        assert(limbs_value(limbs) == limbs[0] as nat + base * limbs_value(limbs.drop_first()));
        assert(limb_weight(0) == 1);
        assert(limbs.last() * limb_weight(0) == limbs.last()) by (nonlinear_arith)
            requires
                limb_weight(0) == 1,
        ;
    } else {
        let rest = limbs.drop_first();
        lemma_limbs_split_last(rest);
        let front = limbs.drop_last();
        assert(front.drop_first() =~= rest.drop_last());
        assert(front[0] == limbs[0]);
        assert(rest.last() == limbs.last());
        let w = limb_weight((limbs.len() - 2) as nat) as int;
        let low = limbs_value(rest.drop_last()) as int;
        let top = limbs.last() as int;
        assert(limbs_value(rest) == low + top * w);
        assert(limbs_value(limbs) == limbs[0] as nat + base * limbs_value(rest));
        assert(limbs_value(front) == front[0] as nat + base * limbs_value(front.drop_first()));
        assert(limb_weight((limbs.len() - 1) as nat) == base * w);
        assert(base * (low + top * w) == base * low + top * (base * w)) by (nonlinear_arith);
        assert(limbs[0] + base * low < base * w) by (nonlinear_arith)
            requires
                0 <= limbs[0] < base,
                0 <= low < w,
        ;
    }
}

/// Whether the number of the limbs `a` is below the number of the limbs `b`.
pub fn limbs_less<const N: usize>(a: &[u64; N], b: &[u64; N]) -> (less: bool)
    ensures
        less == (limbs_value(a@) < limbs_value(b@)),
{
    let mut i: usize = N;
    proof {
        assert(a@.take(N as int) =~= a@);
        assert(b@.take(N as int) =~= b@);
    }
    while i > 0
        invariant
            i <= N,
            a@.len() == N,
            b@.len() == N,
            (limbs_value(a@) < limbs_value(b@)) == (limbs_value(a@.take(i as int)) < limbs_value(
                b@.take(i as int),
            )),
        decreases i,
    {
        i -= 1;
        proof {
            let s = a@.take(i + 1);
            let t = b@.take(i + 1);
            lemma_limbs_split_last(s);
            lemma_limbs_split_last(t);
            assert(s.drop_last() =~= a@.take(i as int));
            assert(t.drop_last() =~= b@.take(i as int));
            assert(s.last() == a@[i as int]);
            assert(t.last() == b@[i as int]);
            let w = limb_weight(i as nat) as int;
            let x = a@[i as int] as int;
            let y = b@[i as int] as int;
            if x < y {
                assert((x + 1) * w <= y * w) by (nonlinear_arith)
                    requires
                        x + 1 <= y,
                        w >= 0,
                ;
                assert((x + 1) * w == x * w + w) by (nonlinear_arith);
            }
            if x > y {
                assert((y + 1) * w <= x * w) by (nonlinear_arith)
                    requires
                        y + 1 <= x,
                        w >= 0,
                ;
                assert((y + 1) * w == y * w + w) by (nonlinear_arith);
            }
        }
        if a[i] < b[i] {
            return true;
        }
        if a[i] > b[i] {
            return false;
        }
    }
    proof {
        assert(a@.take(0).len() == 0);
        assert(b@.take(0).len() == 0);
    }
    false
}

/// Limbs that are all zero stand for zero, and no others do.
pub proof fn lemma_zero_limbs(limbs: Seq<u64>)
    ensures
        limbs_value(limbs) == 0 <==> forall|i: int| 0 <= i < limbs.len() ==> limbs[i] == 0,
    decreases limbs.len(),
{
    if limbs.len() > 0 {
        let rest = limbs.drop_first();
        lemma_zero_limbs(rest);
        if limbs_value(limbs) == 0 {
            assert(limbs[0] == 0 && limbs_value(rest) == 0);
            assert forall|i: int| 0 <= i < limbs.len() implies limbs[i] == 0 by {
                if i > 0 {
                    assert(rest[i - 1] == limbs[i]);
                }
            }
        }
        if forall|i: int| 0 <= i < limbs.len() ==> limbs[i] == 0 {
            assert forall|i: int| 0 <= i < rest.len() implies rest[i] == 0 by {
                assert(rest[i] == limbs[i + 1]);
            }
        }
    }
}

/// Limbs of one length that stand for the same number are the same limbs.
pub proof fn lemma_limbs_determined(a: Seq<u64>, b: Seq<u64>)
    requires
        a.len() == b.len(),
        limbs_value(a) == limbs_value(b),
    ensures
        a == b,
    decreases a.len(),
{
    if a.len() > 0 {
        let ra = a.drop_first();
        let rb = b.drop_first();
        assert(a[0] == b[0] && limbs_value(ra) == limbs_value(rb)) by {
            let base = 0x1_0000_0000_0000_0000int;
            let x = a[0] as int + base * limbs_value(ra);
            vstd::arithmetic::div_mod::lemma_fundamental_div_mod_converse(
                x,
                base,
                limbs_value(ra) as int,
                a[0] as int,
            );
            vstd::arithmetic::div_mod::lemma_fundamental_div_mod_converse(
                x,
                base,
                limbs_value(rb) as int,
                b[0] as int,
            );
        }
        lemma_limbs_determined(ra, rb);
        assert forall|i: int| 0 <= i < a.len() implies a[i] == b[i] by {
            if i > 0 {
                assert(ra[i - 1] == a[i]);
                assert(rb[i - 1] == b[i]);
            }
        }
    }
    assert(a =~= b);
}

} // verus!
