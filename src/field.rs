use vstd::prelude::*;

verus! {

/// Whether `v` has a multiplicative inverse modulo `m`.
pub open spec fn has_inverse(v: int, m: int) -> bool {
    exists|i: int| 0 <= i < m && #[trigger] ((i * v) % m) == 1
}

/// The arithmetic that the curve formulas need from a prime field.
///
/// An element is modelled by its canonical representative `value()` in
/// `[0, modulus())`; every operation is specified on those representatives.
pub trait Field: Sized + Copy {
    /// The characteristic of the field.
    spec fn modulus() -> int;

    /// The canonical representative of this element.
    spec fn value(&self) -> int;

    /// Every element is a canonical representative of a residue class.
    proof fn lemma_value_range(&self)
        ensures
            Self::modulus() > 1,
            0 <= self.value() < Self::modulus(),
    ;

    fn zero() -> (r: Self)
        ensures
            r.value() == 0,
    ;

    fn one() -> (r: Self)
        ensures
            r.value() == 1,
    ;

    /// The residue of a small integer.
    fn from_u64(n: u64) -> (r: Self)
        ensures
            r.value() == n as int % Self::modulus(),
    ;

    fn add(&self, rhs: &Self) -> (r: Self)
        ensures
            r.value() == (self.value() + rhs.value()) % Self::modulus(),
    ;

    fn sub(&self, rhs: &Self) -> (r: Self)
        ensures
            r.value() == (self.value() - rhs.value()) % Self::modulus(),
    ;

    fn mul(&self, rhs: &Self) -> (r: Self)
        ensures
            r.value() == (self.value() * rhs.value()) % Self::modulus(),
    ;

    fn is_zero(&self) -> (r: bool)
        ensures
            r == (self.value() == 0),
    ;

    /// The multiplicative inverse, or `None` where there is none.
    fn invert(&self) -> (r: Option<Self>)
        ensures
            r is None <==> !has_inverse(self.value(), Self::modulus()),
            r matches Some(i) ==> (i.value() * self.value()) % Self::modulus() == 1,
    ;
}

} // verus!
