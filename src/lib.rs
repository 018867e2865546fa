//! Group arithmetic on short-Weierstrass curves `y^2 = x^3 + b` with the
//! complete (exception-free) addition and doubling formulas of
//! Renes, Costello and Batina, in homogeneous projective coordinates.
//!
//! The formulas are written once, generically over the [`field::Field`]
//! capability, and instantiated for a small verified prime field and for
//! the base fields of the pairing-friendly curves provided by outside crates.
pub mod arkworks;
pub mod field;
pub mod formulas;
pub mod group;
pub mod halo2;
pub mod laws;
pub mod small_field;
