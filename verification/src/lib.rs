//! A small symbolic-math library: immutable expression trees over named
//! variables and numeric constants, with verified evaluation, simplification
//! and expansion.
//!
//! Verus has no floating-point support, so a constant is carried through the
//! tree as the 64 bits of an IEEE-754 double. Everything structural — the
//! tree itself, the rewrite rules of `simplify` and `expand`, variable
//! lookup, error propagation — is verified here. The few places where an
//! actual floating-point operation is needed (folding two constants,
//! combining values during evaluation) take the operation as a caller-
//! supplied function on bit patterns, so an unverified shell can plug in the
//! machine's double arithmetic while every decision around it stays proved.

pub mod bindings;
pub mod expr;
pub mod numeric;
pub mod symbol;
