//! Fixed-length byte identifiers: token and contract addresses, order uids.
use vstd::prelude::*;

verus! {

/// Lexicographic order on byte sequences of equal length.
pub open spec fn bytes_lt(a: Seq<u8>, b: Seq<u8>) -> bool {
    exists|i: int|
        0 <= i < a.len() && i < b.len() && a[i] < b[i] && a.subrange(0, i) == b.subrange(0, i)
}

/// A 20-byte account or contract address.
#[derive(Clone, Copy, Debug, Eq, Hash)]
pub struct Address(pub [u8; 20]);

impl Address {
    pub open spec fn bytes(self) -> Seq<u8> {
        self.0@
    }

    /// The address `0xeeee...ee` that stands for the chain's native token.
    pub open spec fn is_native_spec(self) -> bool {
        forall|i: int| 0 <= i < 20 ==> self.0@[i] == 0xee
    }

    pub fn is_native(&self) -> (r: bool)
        ensures
            r == self.is_native_spec(),
    {
        let mut i: usize = 0;
        while i < 20
            invariant
                0 <= i <= 20,
                self.0@.len() == 20,
                forall|j: int| 0 <= j < i ==> self.0@[j] == 0xee,
            decreases 20 - i,
        {
            if self.0[i] != 0xee {
                return false;
            }
            i = i + 1;
        }
        true
    }

    /// Whether `self` orders strictly before `other`, byte by byte.
    pub fn lt(&self, other: &Address) -> (r: bool)
        ensures
            r == bytes_lt(self.bytes(), other.bytes()),
    {
        let mut i: usize = 0;
        while i < 20
            invariant
                0 <= i <= 20,
                self.0@.len() == 20,
                other.0@.len() == 20,
                self.0@.subrange(0, i as int) == other.0@.subrange(0, i as int),
            decreases 20 - i,
        {
            if self.0[i] != other.0[i] {
                if self.0[i] < other.0[i] {
                    return true;
                } else {
                    proof {
                        assert forall|j: int|
                            0 <= j < 20 && self.0@[j] < other.0@[j] implies self.0@.subrange(0, j)
                            != other.0@.subrange(0, j) by {
                            if j > i {
                                assert(self.0@.subrange(0, j)[i as int] == self.0@[i as int]);
                                assert(other.0@.subrange(0, j)[i as int] == other.0@[i as int]);
                            } else if j < i {
                                assert(self.0@.subrange(0, i as int)[j] == self.0@[j]);
                                assert(other.0@.subrange(0, i as int)[j] == other.0@[j]);
                            }
                        }
                    }
                    return false;
                }
            }
            assert(self.0@.subrange(0, i + 1) =~= self.0@.subrange(0, i as int).push(self.0@[i as int]));
            assert(other.0@.subrange(0, i + 1) =~= other.0@.subrange(0, i as int).push(other.0@[i as int]));
            i = i + 1;
        }
        proof {
            assert forall|j: int| 0 <= j < 20 implies !(self.0@[j] < other.0@[j]) by {
                assert(self.0@.subrange(0, 20)[j] == self.0@[j]);
                assert(other.0@.subrange(0, 20)[j] == other.0@[j]);
            }
        }
        false
    }
}

impl PartialEq for Address {
    fn eq(&self, other: &Address) -> (r: bool) {
        let mut i: usize = 0;
        while i < 20
            invariant
                0 <= i <= 20,
                self.0@.len() == 20,
                other.0@.len() == 20,
                forall|j: int| 0 <= j < i ==> self.0@[j] == other.0@[j],
            decreases 20 - i,
        {
            if self.0[i] != other.0[i] {
                return false;
            }
            i = i + 1;
        }
        assert(self.0@ =~= other.0@);
        true
    }
}

impl vstd::std_specs::cmp::PartialEqSpecImpl for Address {
    open spec fn obeys_eq_spec() -> bool {
        true
    }

    open spec fn eq_spec(&self, other: &Address) -> bool {
        self.bytes() == other.bytes()
    }
}

/// The 56-byte unique identifier of an order.
#[derive(Clone, Copy, Debug, Eq)]
pub struct OrderUid(pub [u8; 56]);

impl OrderUid {
    pub open spec fn bytes(self) -> Seq<u8> {
        self.0@
    }
}

impl PartialEq for OrderUid {
    fn eq(&self, other: &OrderUid) -> (r: bool) {
        let mut i: usize = 0;
        while i < 56
            invariant
                0 <= i <= 56,
                self.0@.len() == 56,
                other.0@.len() == 56,
                forall|j: int| 0 <= j < i ==> self.0@[j] == other.0@[j],
            decreases 56 - i,
        {
            if self.0[i] != other.0[i] {
                return false;
            }
            i = i + 1;
        }
        assert(self.0@ =~= other.0@);
        true
    }
}

impl vstd::std_specs::cmp::PartialEqSpecImpl for OrderUid {
    open spec fn obeys_eq_spec() -> bool {
        true
    }

    open spec fn eq_spec(&self, other: &OrderUid) -> bool {
        self.bytes() == other.bytes()
    }
}

} // verus!
