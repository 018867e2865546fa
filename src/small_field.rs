use vstd::prelude::*;

use crate::field::{has_inverse, Field};

verus! {

/// The modulus of [`SmallFp`], the prime 65419.
pub const SMALL_MODULUS: u64 = 65419;

/// An element of the prime field of [`SMALL_MODULUS`] elements, small enough
/// for every operation to be computed and checked directly.
#[derive(Clone, Copy, Debug, PartialEq, Eq)]
pub struct SmallFp {
    val: u64,
}

impl SmallFp {
    #[verifier::type_invariant]
    spec fn inv(self) -> bool {
        self.val < SMALL_MODULUS
    }

    /// The residue of `n`.
    pub fn new(n: u64) -> (r: SmallFp)
        ensures
            r.value() == n as int % SMALL_MODULUS as int,
    {
        SmallFp { val: n % SMALL_MODULUS }
    }

    /// The canonical representative, in `[0, SMALL_MODULUS)`.
    pub fn to_u64(&self) -> (r: u64)
        ensures
            r as int == self.value(),
    {
        proof {
            use_type_invariant(self);
        }
        self.val
    }
}

impl Field for SmallFp {
    open spec fn modulus() -> int {
        SMALL_MODULUS as int
    }

    closed spec fn value(&self) -> int {
        self.val as int % SMALL_MODULUS as int
    }

    proof fn lemma_value_range(&self) {
    }

    fn zero() -> (r: Self) {
        SmallFp { val: 0 }
    }

    fn one() -> (r: Self) {
        SmallFp { val: 1 }
    }

    fn from_u64(n: u64) -> (r: Self) {
        SmallFp::new(n)
    }

    fn add(&self, rhs: &Self) -> (r: Self) {
        proof {
            use_type_invariant(self);
            use_type_invariant(rhs);
        }
        SmallFp { val: (self.val + rhs.val) % SMALL_MODULUS }
    }

    fn sub(&self, rhs: &Self) -> (r: Self) {
        proof {
            use_type_invariant(self);
            use_type_invariant(rhs);
            assert((self.val as int - rhs.val as int) % (SMALL_MODULUS as int) == (
            self.val as int + SMALL_MODULUS as int - rhs.val as int) % (SMALL_MODULUS as int))
                by {
                vstd::arithmetic::div_mod::lemma_mod_add_multiples_vanish(
                    self.val as int - rhs.val as int,
                    SMALL_MODULUS as int,
                );
            }
        }
        SmallFp { val: (self.val + SMALL_MODULUS - rhs.val) % SMALL_MODULUS }
    }

    fn mul(&self, rhs: &Self) -> (r: Self) {
        proof {
            use_type_invariant(self);
            use_type_invariant(rhs);
            assert(self.val * rhs.val < SMALL_MODULUS * SMALL_MODULUS) by (nonlinear_arith)
                requires
                    self.val < SMALL_MODULUS,
                    rhs.val < SMALL_MODULUS,
            ;
        }
        SmallFp { val: (self.val * rhs.val) % SMALL_MODULUS }
    }

    fn is_zero(&self) -> (r: bool) {
        proof {
            use_type_invariant(self);
        }
        self.val == 0
    }

    fn invert(&self) -> (r: Option<Self>) {
        proof {
            use_type_invariant(self);
        }
        let mut i: u64 = 0;
        while i < SMALL_MODULUS
            invariant
                self.val < SMALL_MODULUS,
                i <= SMALL_MODULUS,
                forall|j: int| 0 <= j < i ==> #[trigger] ((j * self.value()) % SMALL_MODULUS as int) != 1,
            decreases SMALL_MODULUS - i,
        {
            proof {
                assert(i * self.val < SMALL_MODULUS * SMALL_MODULUS) by (nonlinear_arith)
                    requires
                        i < SMALL_MODULUS,
                        self.val < SMALL_MODULUS,
                ;
            }
            if (i * self.val) % SMALL_MODULUS == 1 {
                let r = SmallFp { val: i };
                assert((r.value() * self.value()) % Self::modulus() == 1);
                return Some(r);
            }
            i = i + 1;
        }
        proof {
            assert forall|j: int| 0 <= j < SMALL_MODULUS implies #[trigger] ((j * self.value())
                % SMALL_MODULUS as int) != 1 by {}
        }
        None
    }
}

} // verus!
