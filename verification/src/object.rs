//! The object model: immutable tagged runtime values and the arithmetic
//! coercion rules that decide which operand pairings compute and which fail.

use vstd::prelude::*;

use crate::float_bits::add_f32_bits;
use crate::float_bits::add_f64_bits;
use crate::float_bits::div_f32_bits;
use crate::float_bits::div_f64_bits;
use crate::float_bits::f32_add_bits;
use crate::float_bits::f32_div_bits;
use crate::float_bits::f32_mul_bits;
use crate::float_bits::f32_rem_bits;
use crate::float_bits::f32_sub_bits;
use crate::float_bits::f32_to_f64_bits;
use crate::float_bits::f64_add_bits;
use crate::float_bits::f64_div_bits;
use crate::float_bits::f64_mul_bits;
use crate::float_bits::f64_rem_bits;
use crate::float_bits::f64_sub_bits;
use crate::float_bits::mul_f32_bits;
use crate::float_bits::mul_f64_bits;
use crate::float_bits::rem_f32_bits;
use crate::float_bits::rem_f64_bits;
use crate::float_bits::sub_f32_bits;
use crate::float_bits::sub_f64_bits;
use crate::float_bits::widen_f32_bits;
use crate::runtime_error::RuntimeError;
use vstd::wrapping::i64_specs;
use vstd::wrapping::u64_specs;

verus! {

/// An immutable tagged runtime value. Objects never mutate after creation.
///
/// Floating-point values are carried as their IEEE 754 bit patterns
/// (`Float32` holds 32 bits, `Float64` holds 64), so that the stack, the
/// dictionaries and the contracts can treat every object as plain data.
#[derive(Clone, Copy, Debug, PartialEq, Eq, Structural)]
pub enum Object {
    Boolean(bool),
    UnsignedInt(u64),
    SignedInt(i64),
    Float32(u32),
    Float64(u64),
}

/// Whether an object is a numeric zero: the integer zeros and the two signed
/// floating-point zeros of each width. Division and modulus check their
/// right-hand operand against this before computing.
pub open spec fn spec_is_zero_numeric(o: Object) -> bool {
    match o {
        Object::Boolean(_) => false,
        Object::UnsignedInt(v) => v == 0,
        Object::SignedInt(v) => v == 0,
        Object::Float32(bits) => bits & 0x7fff_ffffu32 == 0,
        Object::Float64(bits) => bits & 0x7fff_ffff_ffff_ffffu64 == 0,
    }
}

/// The magnitude of a signed value, as a mathematical integer.
pub open spec fn i64_abs(a: i64) -> int {
    if a < 0 {
        -(a as int)
    } else {
        a as int
    }
}

/// Signed division as the machine computes it: the quotient of the
/// magnitudes, truncated toward zero, with the dividend's and divisor's signs
/// deciding the result's sign; the one quotient that cannot be represented
/// (`i64::MIN / -1`) wraps back to `i64::MIN`.
pub open spec fn i64_wrapping_div(a: i64, b: i64) -> i64
    recommends
        b != 0,
{
    let m = i64_abs(a) / i64_abs(b);
    if (a < 0) == (b < 0) {
        if m > i64::MAX {
            i64::MIN
        } else {
            m as i64
        }
    } else {
        (-m) as i64
    }
}

/// Signed remainder paired with `i64_wrapping_div`: the remainder of the
/// magnitudes, carrying the dividend's sign.
pub open spec fn i64_wrapping_rem(a: i64, b: i64) -> i64
    recommends
        b != 0,
{
    let m = i64_abs(a) % i64_abs(b);
    if a < 0 {
        (-m) as i64
    } else {
        m as i64
    }
}

/// What `Object::add` returns: identical numeric kinds compute in that kind
/// (integers wrap), mixed float widths widen to double precision, and any
/// other pairing has no defined coercion.
pub open spec fn add_spec(l: Object, r: Object) -> Result<Object, RuntimeError> {
    match (l, r) {
        (Object::UnsignedInt(a), Object::UnsignedInt(b)) => Ok(
            Object::UnsignedInt(u64_specs::wrapping_add(a, b)),
        ),
        (Object::SignedInt(a), Object::SignedInt(b)) => Ok(
            Object::SignedInt(i64_specs::wrapping_add(a, b)),
        ),
        (Object::Float32(a), Object::Float32(b)) => Ok(Object::Float32(f32_add_bits(a, b))),
        (Object::Float64(a), Object::Float64(b)) => Ok(Object::Float64(f64_add_bits(a, b))),
        (Object::Float32(a), Object::Float64(b)) => Ok(
            Object::Float64(f64_add_bits(f32_to_f64_bits(a), b)),
        ),
        (Object::Float64(a), Object::Float32(b)) => Ok(
            Object::Float64(f64_add_bits(a, f32_to_f64_bits(b))),
        ),
        _ => Err(RuntimeError::IncompatibleTypes),
    }
}

/// What `Object::sub` returns: as `add_spec`, except that unsigned
/// subtraction going below zero is a domain error, not a wraparound.
pub open spec fn sub_spec(l: Object, r: Object) -> Result<Object, RuntimeError> {
    match (l, r) {
        (Object::UnsignedInt(a), Object::UnsignedInt(b)) => if a < b {
            Err(RuntimeError::ArithmeticUnderflow)
        } else {
            Ok(Object::UnsignedInt((a - b) as u64))
        },
        (Object::SignedInt(a), Object::SignedInt(b)) => Ok(
            Object::SignedInt(i64_specs::wrapping_sub(a, b)),
        ),
        (Object::Float32(a), Object::Float32(b)) => Ok(Object::Float32(f32_sub_bits(a, b))),
        (Object::Float64(a), Object::Float64(b)) => Ok(Object::Float64(f64_sub_bits(a, b))),
        (Object::Float32(a), Object::Float64(b)) => Ok(
            Object::Float64(f64_sub_bits(f32_to_f64_bits(a), b)),
        ),
        (Object::Float64(a), Object::Float32(b)) => Ok(
            Object::Float64(f64_sub_bits(a, f32_to_f64_bits(b))),
        ),
        _ => Err(RuntimeError::IncompatibleTypes),
    }
}

/// What `Object::mul` returns: as `add_spec`, with integer multiplication
/// wrapping.
pub open spec fn mul_spec(l: Object, r: Object) -> Result<Object, RuntimeError> {
    match (l, r) {
        (Object::UnsignedInt(a), Object::UnsignedInt(b)) => Ok(
            Object::UnsignedInt(u64_specs::wrapping_mul(a, b)),
        ),
        (Object::SignedInt(a), Object::SignedInt(b)) => Ok(
            Object::SignedInt(i64_specs::wrapping_mul(a, b)),
        ),
        (Object::Float32(a), Object::Float32(b)) => Ok(Object::Float32(f32_mul_bits(a, b))),
        (Object::Float64(a), Object::Float64(b)) => Ok(Object::Float64(f64_mul_bits(a, b))),
        (Object::Float32(a), Object::Float64(b)) => Ok(
            Object::Float64(f64_mul_bits(f32_to_f64_bits(a), b)),
        ),
        (Object::Float64(a), Object::Float32(b)) => Ok(
            Object::Float64(f64_mul_bits(a, f32_to_f64_bits(b))),
        ),
        _ => Err(RuntimeError::IncompatibleTypes),
    }
}

/// What `Object::div` returns: any numerically zero right-hand operand fails
/// before the coercion rules are consulted; otherwise as `add_spec`.
pub open spec fn div_spec(l: Object, r: Object) -> Result<Object, RuntimeError> {
    if spec_is_zero_numeric(r) {
        Err(RuntimeError::DivisionByZero)
    } else {
        match (l, r) {
            (Object::UnsignedInt(a), Object::UnsignedInt(b)) => Ok(
                Object::UnsignedInt((a / b) as u64),
            ),
            (Object::SignedInt(a), Object::SignedInt(b)) => Ok(
                Object::SignedInt(i64_wrapping_div(a, b)),
            ),
            (Object::Float32(a), Object::Float32(b)) => Ok(Object::Float32(f32_div_bits(a, b))),
            (Object::Float64(a), Object::Float64(b)) => Ok(Object::Float64(f64_div_bits(a, b))),
            (Object::Float32(a), Object::Float64(b)) => Ok(
                Object::Float64(f64_div_bits(f32_to_f64_bits(a), b)),
            ),
            (Object::Float64(a), Object::Float32(b)) => Ok(
                Object::Float64(f64_div_bits(a, f32_to_f64_bits(b))),
            ),
            _ => Err(RuntimeError::IncompatibleTypes),
        }
    }
}

/// What `Object::modulo` returns: the remainder paired with `div_spec`, with
/// the same zero-divisor check first.
pub open spec fn modulo_spec(l: Object, r: Object) -> Result<Object, RuntimeError> {
    if spec_is_zero_numeric(r) {
        Err(RuntimeError::DivisionByZero)
    } else {
        match (l, r) {
            (Object::UnsignedInt(a), Object::UnsignedInt(b)) => Ok(
                Object::UnsignedInt((a % b) as u64),
            ),
            (Object::SignedInt(a), Object::SignedInt(b)) => Ok(
                Object::SignedInt(i64_wrapping_rem(a, b)),
            ),
            (Object::Float32(a), Object::Float32(b)) => Ok(Object::Float32(f32_rem_bits(a, b))),
            (Object::Float64(a), Object::Float64(b)) => Ok(Object::Float64(f64_rem_bits(a, b))),
            (Object::Float32(a), Object::Float64(b)) => Ok(
                Object::Float64(f64_rem_bits(f32_to_f64_bits(a), b)),
            ),
            (Object::Float64(a), Object::Float32(b)) => Ok(
                Object::Float64(f64_rem_bits(a, f32_to_f64_bits(b))),
            ),
            _ => Err(RuntimeError::IncompatibleTypes),
        }
    }
}

/// The magnitude of a signed value, widened to the unsigned type.
fn i64_magnitude(a: i64) -> (r: u64)
    ensures
        r == i64_abs(a),
{
    if a == i64::MIN {
        0x8000_0000_0000_0000u64
    } else if a < 0 {
        (-a) as u64
    } else {
        a as u64
    }
}

impl Object {
    /// Whether this object is a numeric zero.
    pub fn is_zero_numeric(&self) -> (r: bool)
        ensures
            r == spec_is_zero_numeric(*self),
    {
        match self {
            Object::Boolean(_) => false,
            Object::UnsignedInt(v) => *v == 0,
            Object::SignedInt(v) => *v == 0,
            Object::Float32(bits) => *bits & 0x7fff_ffffu32 == 0,
            Object::Float64(bits) => *bits & 0x7fff_ffff_ffff_ffffu64 == 0,
        }
    }

    /// Adds `other` to `self` under the coercion policy (`add_spec`).
    pub fn add(&self, other: &Object) -> (r: Result<Object, RuntimeError>)
        ensures
            r == add_spec(*self, *other),
    {
        match (self, other) {
            (Object::UnsignedInt(a), Object::UnsignedInt(b)) => Ok(
                Object::UnsignedInt((*a).wrapping_add(*b)),
            ),
            (Object::SignedInt(a), Object::SignedInt(b)) => Ok(
                Object::SignedInt((*a).wrapping_add(*b)),
            ),
            (Object::Float32(a), Object::Float32(b)) => Ok(Object::Float32(add_f32_bits(*a, *b))),
            (Object::Float64(a), Object::Float64(b)) => Ok(Object::Float64(add_f64_bits(*a, *b))),
            (Object::Float32(a), Object::Float64(b)) => Ok(
                Object::Float64(add_f64_bits(widen_f32_bits(*a), *b)),
            ),
            (Object::Float64(a), Object::Float32(b)) => Ok(
                Object::Float64(add_f64_bits(*a, widen_f32_bits(*b))),
            ),
            _ => Err(RuntimeError::IncompatibleTypes),
        }
    }

    /// Subtracts `other` from `self` under the coercion policy (`sub_spec`).
    pub fn sub(&self, other: &Object) -> (r: Result<Object, RuntimeError>)
        ensures
            r == sub_spec(*self, *other),
    {
        match (self, other) {
            (Object::UnsignedInt(a), Object::UnsignedInt(b)) => if *a < *b {
                Err(RuntimeError::ArithmeticUnderflow)
            } else {
                Ok(Object::UnsignedInt(*a - *b))
            },
            (Object::SignedInt(a), Object::SignedInt(b)) => Ok(
                Object::SignedInt((*a).wrapping_sub(*b)),
            ),
            (Object::Float32(a), Object::Float32(b)) => Ok(Object::Float32(sub_f32_bits(*a, *b))),
            (Object::Float64(a), Object::Float64(b)) => Ok(Object::Float64(sub_f64_bits(*a, *b))),
            (Object::Float32(a), Object::Float64(b)) => Ok(
                Object::Float64(sub_f64_bits(widen_f32_bits(*a), *b)),
            ),
            (Object::Float64(a), Object::Float32(b)) => Ok(
                Object::Float64(sub_f64_bits(*a, widen_f32_bits(*b))),
            ),
            _ => Err(RuntimeError::IncompatibleTypes),
        }
    }

    /// Multiplies `self` by `other` under the coercion policy (`mul_spec`).
    pub fn mul(&self, other: &Object) -> (r: Result<Object, RuntimeError>)
        ensures
            r == mul_spec(*self, *other),
    {
        match (self, other) {
            (Object::UnsignedInt(a), Object::UnsignedInt(b)) => Ok(
                Object::UnsignedInt((*a).wrapping_mul(*b)),
            ),
            (Object::SignedInt(a), Object::SignedInt(b)) => Ok(
                Object::SignedInt((*a).wrapping_mul(*b)),
            ),
            (Object::Float32(a), Object::Float32(b)) => Ok(Object::Float32(mul_f32_bits(*a, *b))),
            (Object::Float64(a), Object::Float64(b)) => Ok(Object::Float64(mul_f64_bits(*a, *b))),
            (Object::Float32(a), Object::Float64(b)) => Ok(
                Object::Float64(mul_f64_bits(widen_f32_bits(*a), *b)),
            ),
            (Object::Float64(a), Object::Float32(b)) => Ok(
                Object::Float64(mul_f64_bits(*a, widen_f32_bits(*b))),
            ),
            _ => Err(RuntimeError::IncompatibleTypes),
        }
    }

    /// Divides `self` by `other` (`div_spec`): the zero check on the divisor
    /// comes before the coercion rules, and is explicit rather than trusted
    /// to any type system.
    pub fn div(&self, other: &Object) -> (r: Result<Object, RuntimeError>)
        ensures
            r == div_spec(*self, *other),
    {
        if other.is_zero_numeric() {
            return Err(RuntimeError::DivisionByZero);
        }
        match (self, other) {
            (Object::UnsignedInt(a), Object::UnsignedInt(b)) => Ok(Object::UnsignedInt(*a / *b)),
            (Object::SignedInt(a), Object::SignedInt(b)) => {
                let mag_a = i64_magnitude(*a);
                let mag_b = i64_magnitude(*b);
                let m = mag_a / mag_b;
                if (*a < 0) == (*b < 0) {
                    if m > 0x7fff_ffff_ffff_ffffu64 {
                        Ok(Object::SignedInt(i64::MIN))
                    } else {
                        Ok(Object::SignedInt(m as i64))
                    }
                } else {
                    proof {
                        vstd::arithmetic::div_mod::lemma_div_nonincreasing(
                            mag_a as int,
                            mag_b as int,
                        );
                        vstd::arithmetic::div_mod::lemma_div_pos_is_pos(
                            mag_a as int,
                            mag_b as int,
                        );
                    }
                    if m >= 0x8000_0000_0000_0000u64 {
                        Ok(Object::SignedInt(i64::MIN))
                    } else {
                        Ok(Object::SignedInt(-(m as i64)))
                    }
                }
            },
            (Object::Float32(a), Object::Float32(b)) => Ok(Object::Float32(div_f32_bits(*a, *b))),
            (Object::Float64(a), Object::Float64(b)) => Ok(Object::Float64(div_f64_bits(*a, *b))),
            (Object::Float32(a), Object::Float64(b)) => Ok(
                Object::Float64(div_f64_bits(widen_f32_bits(*a), *b)),
            ),
            (Object::Float64(a), Object::Float32(b)) => Ok(
                Object::Float64(div_f64_bits(*a, widen_f32_bits(*b))),
            ),
            _ => Err(RuntimeError::IncompatibleTypes),
        }
    }

    /// The remainder of `self` divided by `other` (`modulo_spec`), with the
    /// same explicit zero check as `div`.
    pub fn modulo(&self, other: &Object) -> (r: Result<Object, RuntimeError>)
        ensures
            r == modulo_spec(*self, *other),
    {
        if other.is_zero_numeric() {
            return Err(RuntimeError::DivisionByZero);
        }
        match (self, other) {
            (Object::UnsignedInt(a), Object::UnsignedInt(b)) => Ok(Object::UnsignedInt(*a % *b)),
            (Object::SignedInt(a), Object::SignedInt(b)) => {
                let mag_a = i64_magnitude(*a);
                let mag_b = i64_magnitude(*b);
                let m = mag_a % mag_b;
                proof {
                    vstd::arithmetic::div_mod::lemma_mod_division_less_than_divisor(
                        mag_a as int,
                        mag_b as int,
                    );
                }
                if *a < 0 {
                    Ok(Object::SignedInt(-(m as i64)))
                } else {
                    Ok(Object::SignedInt(m as i64))
                }
            },
            (Object::Float32(a), Object::Float32(b)) => Ok(Object::Float32(rem_f32_bits(*a, *b))),
            (Object::Float64(a), Object::Float64(b)) => Ok(Object::Float64(rem_f64_bits(*a, *b))),
            (Object::Float32(a), Object::Float64(b)) => Ok(
                Object::Float64(rem_f64_bits(widen_f32_bits(*a), *b)),
            ),
            (Object::Float64(a), Object::Float32(b)) => Ok(
                Object::Float64(rem_f64_bits(*a, widen_f32_bits(*b))),
            ),
            _ => Err(RuntimeError::IncompatibleTypes),
        }
    }
}

} // verus!
