//! Base-10 decimals and the integer arithmetic behind limit adjustments.
use vstd::prelude::*;
use crate::u256::{from_value, lemma_from_value, two_128, u256_max, U256};

verus! {

pub open spec fn pow10(n: nat) -> nat
    decreases n,
{
    if n == 0 {
        1
    } else {
        10 * pow10((n - 1) as nat)
    }
}

/// A non-negative decimal number `digits * 10^-scale`.
#[derive(Clone, Copy, Debug, PartialEq, Eq, Structural)]
pub struct Decimal {
    pub digits: u128,
    pub scale: i64,
}

impl Decimal {
    /// Whether this decimal equals the fraction `numer / denom` exactly.
    pub open spec fn equals_ratio(self, numer: int, denom: int) -> bool {
        &&& self.scale >= 0
        &&& self.digits * denom == numer * pow10(self.scale as nat)
    }

    /// The decimal with the given digits and number of fractional places.
    pub fn new(digits: u128, scale: i64) -> (r: Decimal)
        ensures
            r.digits == digits,
            r.scale == scale,
    {
        Decimal { digits, scale }
    }
}

/// A fraction `numer / denom` whose decimal expansion ends within 18 places.
pub open spec fn terminates_within_18(numer: int, denom: int) -> bool {
    &&& denom > 0
    &&& (numer * pow10(18)) % denom == 0
}

pub proof fn lemma_pow10_18()
    ensures
        pow10(18) == 1_000_000_000_000_000_000,
{
    reveal_with_fuel(pow10, 19);
}

/// The value of decimal digits, most significant first.
pub open spec fn digits_value(d: Seq<u8>) -> nat
    decreases d.len(),
{
    if d.len() == 0 {
        0
    } else {
        digits_value(d.drop_last()) * 10 + d.last() as nat
    }
}

/// A non-negative decimal `digits * 10^-scale` with any number of decimal
/// digits, most significant first.
#[derive(Debug, PartialEq, Eq)]
pub struct DecimalDigits {
    pub digits: Vec<u8>,
    pub scale: i64,
}

impl DecimalDigits {
    /// Whether this decimal equals the fraction `numer / denom` exactly.
    pub open spec fn equals_ratio(&self, numer: int, denom: int) -> bool {
        &&& self.scale >= 0
        &&& digits_value(self.digits@) * denom == numer * pow10(self.scale as nat)
    }
}

/// `s` is the fewest decimal places in which `numer / denom` is exact.
pub open spec fn least_exact_scale(numer: int, denom: int, s: int) -> bool {
    &&& s >= 0
    &&& (numer * pow10(s as nat)) % denom == 0
    &&& forall|t: int| 0 <= t < s ==> (numer * #[trigger] pow10(t as nat)) % denom != 0
}

/// The digits and scale of `numer / denom` as bigdecimal's division gives them.
pub uninterp spec fn quotient_parts(numer: int, denom: int) -> (Seq<u8>, int);

/// Relies on `BigDecimal / BigDecimal` of the bigdecimal crate, and on
/// `BigInt::to_radix_be` of num: the result depends on the two operands alone;
/// its digits are decimal digits and its scale is never negative, as both
/// operands are integers. Where the quotient ends within 18 decimal places it
/// has at most 96 digits, so the division, which stops after 100, is exact
/// and stops at the first place where the remainder is zero: its scale is the
/// fewest places in which the quotient is exact.
#[verifier::external_body]
fn big_decimal_quotient(numer: U256, denom: U256) -> (r: DecimalDigits)
    requires
        denom.value() > 0,
    ensures
        r.digits@ == quotient_parts(numer.value() as int, denom.value() as int).0,
        r.scale == quotient_parts(numer.value() as int, denom.value() as int).1,
        r.scale >= 0,
        forall|i: int| 0 <= i < r.digits@.len() ==> r.digits@[i] < 10,
        terminates_within_18(numer.value() as int, denom.value() as int) ==> r.scale <= 18
            && r.equals_ratio(numer.value() as int, denom.value() as int) && least_exact_scale(
            numer.value() as int,
            denom.value() as int,
            r.scale as int,
        ),
{
    let big = |v: U256|
        num::BigInt::from_bytes_be(num::bigint::Sign::Plus, &[v.hi.to_be_bytes(), v.lo.to_be_bytes()].concat());
    let q = bigdecimal::BigDecimal::new(big(numer), 0) / bigdecimal::BigDecimal::new(big(denom), 0);
    let (digits, scale) = q.into_bigint_and_exponent();
    DecimalDigits { digits: digits.to_radix_be(10).1, scale }
}

/// The decimal form of a fraction: exact where it ends within 18 places,
/// else the division's rounded expansion.
pub fn rational_to_decimal(numer: U256, denom: U256) -> (r: DecimalDigits)
    requires
        denom.value() > 0,
    ensures
        r.digits@ == quotient_parts(numer.value() as int, denom.value() as int).0,
        r.scale == quotient_parts(numer.value() as int, denom.value() as int).1,
        r.scale >= 0,
        forall|i: int| 0 <= i < r.digits@.len() ==> r.digits@[i] < 10,
        terminates_within_18(numer.value() as int, denom.value() as int) ==> r.scale <= 18
            && r.equals_ratio(numer.value() as int, denom.value() as int) && least_exact_scale(
            numer.value() as int,
            denom.value() as int,
            r.scale as int,
        ),
{
    big_decimal_quotient(numer, denom)
}

/// A raw integer that stands for a value scaled by 10^18.
pub fn raw_to_decimal(raw: u128) -> (r: Decimal)
    ensures
        r.digits == raw,
        r.scale == 18,
        r.equals_ratio(raw as int, 1_000_000_000_000_000_000),
{
    proof {
        lemma_pow10_18();
    }
    Decimal::new(raw, 18)
}

/// One step of long division by `d`: the quotient of a value below
/// `d * 2^64` fits in 64 bits.
proof fn lemma_limb_step(t: int, d: int, q: int, r: int)
    requires
        0 < d < 0x1_0000_0000_0000_0000,
        0 <= t,
        t == q * d + r,
        0 <= r < d,
        t < d * 0x1_0000_0000_0000_0000,
    ensures
        0 <= q < 0x1_0000_0000_0000_0000,
{
    assert(q >= 0) by (nonlinear_arith)
        requires
            t == q * d + r,
            0 <= t,
            0 <= r < d,
            d > 0,
    ;
    assert(q < 0x1_0000_0000_0000_0000) by (nonlinear_arith)
        requires
            t == q * d + r,
            0 <= r,
            t < d * 0x1_0000_0000_0000_0000,
            d > 0,
    ;
}

/// `floor(a * n / d)`, or `None` where it exceeds 256 bits.
pub fn mul_div_u256(a: U256, n: u64, d: u64) -> (r: Option<U256>)
    requires
        d > 0,
    ensures
        r matches Some(v) ==> v.value() == a.value() * (n as int) / (d as int) && v == from_value(
            a.value() * (n as int) / (d as int),
        ),
        r is None ==> a.value() * (n as int) / (d as int) > u256_max(),
{
    let b: u128 = 0x1_0000_0000_0000_0000;
    let dd = d as u128;
    let nn = n as u128;
    // a / d in three steps of long division.
    let qh = a.hi / dd;
    let rh = a.hi % dd;
    let lo1 = a.lo / b;
    let lo0 = a.lo % b;
    proof {
        vstd::arithmetic::div_mod::lemma_fundamental_div_mod(a.hi as int, dd as int);
        vstd::arithmetic::div_mod::lemma_fundamental_div_mod(a.lo as int, b as int);
        assert(a.hi as int == (qh as int) * (dd as int) + rh as int) by (nonlinear_arith)
            requires
                a.hi as int == (dd as int) * (qh as int) + rh as int,
        ;
        assert(a.lo as int == (lo1 as int) * (b as int) + lo0 as int) by (nonlinear_arith)
            requires
                a.lo as int == (b as int) * (lo1 as int) + lo0 as int,
        ;
        assert(rh < dd);
        assert((rh as int) * (b as int) + (lo1 as int) < (dd as int) * (b as int)) by (nonlinear_arith)
            requires
                rh < dd,
                lo1 < b,
        ;
    }
    let t1 = rh * b + lo1;
    let q1 = t1 / dd;
    let r1 = t1 % dd;
    proof {
        vstd::arithmetic::div_mod::lemma_fundamental_div_mod(t1 as int, dd as int);
        assert(t1 as int == (q1 as int) * (dd as int) + r1 as int) by (nonlinear_arith)
            requires
                t1 as int == (dd as int) * (q1 as int) + r1 as int,
        ;
        lemma_limb_step(t1 as int, dd as int, q1 as int, r1 as int);
        assert((r1 as int) * (b as int) + (lo0 as int) < (dd as int) * (b as int)) by (nonlinear_arith)
            requires
                r1 < dd,
                lo0 < b,
        ;
    }
    let t0 = r1 * b + lo0;
    let q0 = t0 / dd;
    let r0 = t0 % dd;
    proof {
        vstd::arithmetic::div_mod::lemma_fundamental_div_mod(t0 as int, dd as int);
        assert(t0 as int == (q0 as int) * (dd as int) + r0 as int) by (nonlinear_arith)
            requires
                t0 as int == (dd as int) * (q0 as int) + r0 as int,
        ;
        lemma_limb_step(t0 as int, dd as int, q0 as int, r0 as int);
    }
    let ghost q: int = (qh as int) * two_128() + (q1 as int) * (b as int) + q0 as int;
    proof {
        // a == q * d + r0
        assert(a.value() == q * (dd as int) + r0 as int) by (nonlinear_arith)
            requires
                a.value() == (a.hi as int) * two_128() + a.lo as int,
                a.hi as int == (qh as int) * (dd as int) + rh as int,
                a.lo as int == (lo1 as int) * (b as int) + lo0 as int,
                t1 as int == (rh as int) * (b as int) + lo1 as int,
                t1 as int == (q1 as int) * (dd as int) + r1 as int,
                t0 as int == (r1 as int) * (b as int) + lo0 as int,
                t0 as int == (q0 as int) * (dd as int) + r0 as int,
                two_128() == (b as int) * (b as int),
                q == (qh as int) * two_128() + (q1 as int) * (b as int) + q0 as int,
        ;
    }
    // q * n + floor(r0 * n / d)
    proof {
        assert((q0 as int) * (nn as int) < two_128()) by (nonlinear_arith)
            requires
                q0 < b,
                nn < b,
                two_128() == (b as int) * (b as int),
        ;
        assert((q1 as int) * (nn as int) < two_128()) by (nonlinear_arith)
            requires
                q1 < b,
                nn < b,
                two_128() == (b as int) * (b as int),
        ;
    }
    let x = q0 * nn;
    let y = q1 * nn;
    let y_hi = y / b;
    let y_lo = y % b;
    proof {
        vstd::arithmetic::div_mod::lemma_fundamental_div_mod(y as int, b as int);
        assert(y as int == (y_hi as int) * (b as int) + y_lo as int) by (nonlinear_arith)
            requires
                y as int == (b as int) * (y_hi as int) + y_lo as int,
        ;
        assert(y_hi < b) by (nonlinear_arith)
            requires
                y as int == (y_hi as int) * (b as int) + y_lo as int,
                y_lo >= 0,
                (y as int) < two_128(),
                two_128() == (b as int) * (b as int),
                b > 0,
        ;
        assert((y_lo as int) * (b as int) < two_128()) by (nonlinear_arith)
            requires
                y_lo < b,
                two_128() == (b as int) * (b as int),
        ;
    }
    let low = U256 { hi: y_hi, lo: y_lo * b };
    let ql_n = match low.checked_add(&U256::from_u128(x)) {
        Some(v) => v,
        None => {
            proof {
                assert(false) by (nonlinear_arith)
                    requires
                        low.value() == (y_hi as int) * two_128() + (y_lo as int) * (b as int),
                        y_hi < b,
                        x < two_128(),
                        (y_lo as int) * (b as int) < two_128(),
                        low.value() + x > two_128() * two_128() - 1,
                        two_128() == (b as int) * (b as int),
                ;
            }
            return None;
        },
    };
    proof {
        assert(ql_n.value() == ((q1 as int) * (b as int) + q0 as int) * (nn as int)) by (nonlinear_arith)
            requires
                ql_n.value() == (y_hi as int) * two_128() + (y_lo as int) * (b as int) + x as int,
                y as int == (y_hi as int) * (b as int) + y_lo as int,
                y as int == (q1 as int) * (nn as int),
                x as int == (q0 as int) * (nn as int),
                two_128() == (b as int) * (b as int),
        ;
    }
    proof {
        assert((r0 as int) * (nn as int) < two_128()) by (nonlinear_arith)
            requires
                r0 < b,
                nn < b,
                two_128() == (b as int) * (b as int),
        ;
    }
    let tail = r0 * nn / dd;
    proof {
        // floor(a * n / d) == q * n + floor(r0 * n / d)
        let rn = (r0 as int) * (nn as int);
        let qn = q * (nn as int);
        assert(a.value() * (nn as int) == qn * (dd as int) + rn) by (nonlinear_arith)
            requires
                a.value() == q * (dd as int) + r0 as int,
                qn == q * (nn as int),
                rn == (r0 as int) * (nn as int),
        ;
        vstd::arithmetic::div_mod::lemma_hoist_over_denominator(rn, qn, dd as nat);
        assert(rn + qn * (dd as int) == qn * (dd as int) + rn);
        assert(qn == (qh as int) * (nn as int) * two_128() + ql_n.value()) by (nonlinear_arith)
            requires
                qn == q * (nn as int),
                q == (qh as int) * two_128() + (q1 as int) * (b as int) + q0 as int,
                ql_n.value() == ((q1 as int) * (b as int) + q0 as int) * (nn as int),
        ;
        assert(rn / (dd as int) >= 0) by (nonlinear_arith)
            requires
                rn >= 0,
                dd > 0,
        ;
    }
    let head_hi = match qh.checked_mul(nn) {
        Some(v) => v,
        None => {
            proof {
                assert((qh as int) * (nn as int) * two_128() >= two_128() * two_128()) by (nonlinear_arith)
                    requires
                        (qh as int) * (nn as int) >= two_128(),
                ;
                assert(ql_n.value() >= 0);
            }
            return None;
        },
    };
    let head = U256 { hi: head_hi, lo: 0 };
    let qn_total = match head.checked_add(&ql_n) {
        Some(v) => v,
        None => {
            return None;
        },
    };
    match qn_total.checked_add(&U256::from_u128(tail)) {
        Some(v) => {
            proof {
                lemma_from_value(v);
            }
            Some(v)
        },
        None => None,
    }
}

} // verus!