use vstd::prelude::*;

verus! {

/// The binary floating-point operations that evaluation and constant
/// folding hand to a caller-supplied arithmetic function. The library never
/// computes these itself — Verus has no floating-point type — so every
/// contract relates the result to whatever the supplied function returned.
#[derive(Clone, Copy, Debug, PartialEq, Eq, Structural)]
pub enum NumOp {
    Add,
    Sub,
    Mul,
    Div,
    Pow,
}

/// Bits of 0.0.
pub const POS_ZERO_BITS: u64 = 0x0000_0000_0000_0000;

/// Bits of -0.0.
pub const NEG_ZERO_BITS: u64 = 0x8000_0000_0000_0000;

/// Bits of 1.0.
pub const ONE_BITS: u64 = 0x3FF0_0000_0000_0000;

/// Bits of -1.0.
pub const NEG_ONE_BITS: u64 = 0xBFF0_0000_0000_0000;

/// Bits of 2.0.
pub const TWO_BITS: u64 = 0x4000_0000_0000_0000;

/// A trigger marker, always true. The existential quantifiers in this
/// crate's relations carry it as their trigger: asserting `witness(x)` of a
/// concrete value hands the solver the instantiation, which a trigger on a
/// recursive call would not.
pub open spec fn witness<A>(x: A) -> bool {
    true
}

/// What this crate can assume of a caller-supplied arithmetic function:
/// it may be called on any operation and any pair of bit patterns.
pub open spec fn ops_callable<F: Fn(NumOp, u64, u64) -> u64>(ops: F) -> bool {
    forall|op: NumOp, a: u64, b: u64| #[trigger] call_requires(ops, (op, a, b))
}

/// The input-output relation of a caller-supplied arithmetic function:
/// `fold_rel_of(ops)(op, a, b, v)` holds exactly of the values `v` that
/// `ops` may return for `op` on `a` and `b`. Every contract about folded
/// or evaluated constants is stated through this relation.
pub open spec fn fold_rel_of<F: Fn(NumOp, u64, u64) -> u64>(ops: F) -> spec_fn(
    NumOp,
    u64,
    u64,
    u64,
) -> bool {
    |op: NumOp, a: u64, b: u64, v: u64| call_ensures(ops, (op, a, b), v)
}

/// What this crate can assume of a caller-supplied rounding function: it
/// may be called on any bit pattern.
pub open spec fn round_callable<R: Fn(u64) -> u64>(round: R) -> bool {
    forall|a: u64| #[trigger] call_requires(round, (a,))
}

/// The input-output relation of a caller-supplied rounding function.
pub open spec fn round_rel_of<R: Fn(u64) -> u64>(round: R) -> spec_fn(u64, u64) -> bool {
    |a: u64, w: u64| call_ensures(round, (a,), w)
}

/// Whether the bits encode a double equal to zero: exactly 0.0 and -0.0
/// compare equal to 0.0 under IEEE-754.
pub open spec fn spec_is_zero(b: u64) -> bool {
    b == POS_ZERO_BITS || b == NEG_ZERO_BITS
}

/// Whether the bits encode 1.0, the only double equal to 1.0.
pub open spec fn spec_is_one(b: u64) -> bool {
    b == ONE_BITS
}

/// Whether the bits encode -1.0, the only double equal to -1.0.
pub open spec fn spec_is_neg_one(b: u64) -> bool {
    b == NEG_ONE_BITS
}

/// Whether the bits encode a finite double: an IEEE-754 double is an
/// infinity or a NaN exactly when its 11 exponent bits are all ones.
pub open spec fn spec_is_finite(b: u64) -> bool {
    (b >> 52) & 0x7FF != 0x7FF
}

/// The bits of the negated double: IEEE-754 negation flips the sign bit
/// and changes nothing else, whatever the operand — zeroes, infinities and
/// NaNs included.
pub open spec fn spec_negate(b: u64) -> u64 {
    b ^ NEG_ZERO_BITS
}

/// Whether the bits encode a double equal to zero.
pub fn is_zero(b: u64) -> (r: bool)
    ensures
        r == spec_is_zero(b),
{
    b == POS_ZERO_BITS || b == NEG_ZERO_BITS
}

/// Whether the bits encode 1.0.
pub fn is_one(b: u64) -> (r: bool)
    ensures
        r == spec_is_one(b),
{
    b == ONE_BITS
}

/// Whether the bits encode -1.0.
pub fn is_neg_one(b: u64) -> (r: bool)
    ensures
        r == spec_is_neg_one(b),
{
    b == NEG_ONE_BITS
}

/// Whether the bits encode a finite double (neither NaN nor infinite).
pub fn is_finite(b: u64) -> (r: bool)
    ensures
        r == spec_is_finite(b),
{
    (b >> 52) & 0x7FF != 0x7FF
}

/// The bits of the negated double.
pub fn negate(b: u64) -> (r: u64)
    ensures
        r == spec_negate(b),
{
    b ^ NEG_ZERO_BITS
}

} // verus!
