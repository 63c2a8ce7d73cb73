//! Unsigned 256-bit integers, as two 128-bit halves.
use vstd::prelude::*;

verus! {

pub open spec fn two_128() -> nat {
    u128::MAX as nat + 1
}

/// The largest value a `U256` holds.
pub open spec fn u256_max() -> int {
    two_128() * two_128() - 1
}

pub open spec fn u256_zero() -> U256 {
    U256 { hi: 0, lo: 0 }
}

/// The `U256` of a value below 2^128.
pub open spec fn small(v: int) -> U256 {
    U256 { hi: 0, lo: v as u128 }
}

/// The `U256` whose value is `v`, for `0 <= v <= u256_max()`.
pub open spec fn from_value(v: int) -> U256 {
    U256 { hi: (v / (two_128() as int)) as u128, lo: (v % (two_128() as int)) as u128 }
}

/// An unsigned 256-bit integer `hi * 2^128 + lo`.
#[derive(Clone, Copy, Debug, PartialEq, Eq, Structural, Hash, Default)]
pub struct U256 {
    pub hi: u128,
    pub lo: u128,
}

impl U256 {
    pub open spec fn value(self) -> nat {
        self.hi as nat * two_128() + self.lo as nat
    }

    pub fn from_u128(v: u128) -> (r: U256)
        ensures
            r.value() == v,
    {
        U256 { hi: 0, lo: v }
    }

    pub fn zero() -> (r: U256)
        ensures
            r == u256_zero(),
            r.value() == 0,
    {
        U256 { hi: 0, lo: 0 }
    }

    /// Whether `self <= other`.
    pub fn le(&self, other: &U256) -> (r: bool)
        ensures
            r == (self.value() <= other.value()),
    {
        proof {
            lemma_value_order(*self, *other);
        }
        self.hi < other.hi || (self.hi == other.hi && self.lo <= other.lo)
    }

    /// Whether `self == other`.
    pub fn same(&self, other: &U256) -> (r: bool)
        ensures
            r == (self.value() == other.value()),
    {
        proof {
            lemma_value_order(*self, *other);
            lemma_value_order(*other, *self);
        }
        self.hi == other.hi && self.lo == other.lo
    }

    /// `self + other`, or `None` where it exceeds 256 bits.
    pub fn checked_add(&self, other: &U256) -> (r: Option<U256>)
        ensures
            r matches Some(v) ==> v.value() == self.value() + other.value(),
            r is None ==> self.value() + other.value() > u256_max(),
    {
        let (lo, carry) = match self.lo.checked_add(other.lo) {
            Some(v) => (v, 0u128),
            None => ((self.lo - (u128::MAX - other.lo) - 1) as u128, 1u128),
        };
        proof {
            lemma_value_bound(*self);
            lemma_value_bound(*other);
            assert(lo as int + carry as int * two_128() == self.lo as int + other.lo as int);
        }
        match self.hi.checked_add(other.hi) {
            Some(h) => match h.checked_add(carry) {
                Some(hi) => {
                    proof {
                        assert((hi as int) * two_128() == (self.hi as int) * two_128()
                            + (other.hi as int) * two_128() + (carry as int) * two_128()) by (nonlinear_arith)
                            requires
                                hi as int == self.hi as int + other.hi as int + carry as int,
                        ;
                    }
                    let r = U256 { hi, lo };
                    assert(r.value() == self.value() + other.value());
                    Some(r)
                },
                None => {
                    proof {
                        assert((self.hi as int + other.hi as int + carry as int) * two_128() >= two_128()
                            * two_128()) by (nonlinear_arith)
                            requires
                                self.hi as int + other.hi as int + carry as int >= two_128(),
                        ;
                        assert((self.hi as int + other.hi as int + carry as int) * two_128() == (self.hi as int) * two_128()
                            + (other.hi as int) * two_128() + (carry as int) * two_128()) by (nonlinear_arith);
                        assert(self.value() + other.value() >= two_128() * two_128());
                    }
                    None
                },
            },
            None => {
                proof {
                    assert((self.hi as int + other.hi as int) * two_128() >= two_128() * two_128())
                        by (nonlinear_arith)
                        requires
                            self.hi as int + other.hi as int >= two_128(),
                    ;
                    assert((self.hi as int + other.hi as int) * two_128() == (self.hi as int) * two_128()
                        + (other.hi as int) * two_128()) by (nonlinear_arith);
                    assert(self.value() + other.value() >= two_128() * two_128());
                }
                None
            },
        }
    }
}

pub proof fn lemma_from_value(u: U256)
    ensures
        from_value(u.value() as int) == u,
{
    vstd::arithmetic::div_mod::lemma_fundamental_div_mod_converse(
        u.value() as int,
        two_128() as int,
        u.hi as int,
        u.lo as int,
    );
}

pub proof fn lemma_value_of_from_value(v: int)
    requires
        0 <= v <= u256_max(),
    ensures
        from_value(v).value() == v,
{
    let t = two_128() as int;
    vstd::arithmetic::div_mod::lemma_fundamental_div_mod(v, t);
    assert(v / t < t) by (nonlinear_arith)
        requires
            v == t * (v / t) + v % t,
            v % t >= 0,
            v < t * t,
            t > 0,
    ;
    assert(v / t >= 0) by (nonlinear_arith)
        requires
            v >= 0,
            t > 0,
    ;
}

pub proof fn lemma_value_bound(a: U256)
    ensures
        a.value() <= u256_max(),
{
    assert(a.hi as int * two_128() <= (two_128() - 1) * two_128()) by (nonlinear_arith)
        requires
            a.hi as int <= two_128() - 1,
    ;
    assert((two_128() - 1) * two_128() + two_128() - 1 == two_128() * two_128() - 1) by (nonlinear_arith);
}

/// Values order as their halves do, high half first.
pub proof fn lemma_value_order(a: U256, b: U256)
    ensures
        a.value() <= b.value() <==> (a.hi < b.hi || (a.hi == b.hi && a.lo <= b.lo)),
        a.value() == b.value() <==> (a.hi == b.hi && a.lo == b.lo),
{
    if a.hi < b.hi {
        assert(a.hi as int * two_128() + two_128() <= b.hi as int * two_128()) by (nonlinear_arith)
            requires
                a.hi < b.hi,
        ;
    } else if a.hi > b.hi {
        assert(b.hi as int * two_128() + two_128() <= a.hi as int * two_128()) by (nonlinear_arith)
            requires
                b.hi < a.hi,
        ;
    }
}

} // verus!
