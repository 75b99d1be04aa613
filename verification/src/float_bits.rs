//! IEEE 754 floating-point arithmetic on raw bit patterns.
//!
//! The core stores `Float32`/`Float64` values as their bit patterns, so the
//! stack and the dictionaries handle them as plain data. The arithmetic
//! itself is delegated to `rustc_apfloat`, a software implementation of
//! IEEE 754 whose interface works directly on bits. Each operation's result
//! is a pure function of the operand bits; it is given an uninterpreted name
//! here, and the wrappers below relate the executable calls to those names.

use vstd::prelude::*;

use core::str::FromStr;
use rustc_apfloat::Float;
use rustc_apfloat::FloatConvert;
use rustc_apfloat::ieee::Double;
use rustc_apfloat::ieee::Single;

verus! {

pub uninterp spec fn f32_add_bits(a: u32, b: u32) -> u32;

pub uninterp spec fn f32_sub_bits(a: u32, b: u32) -> u32;

pub uninterp spec fn f32_mul_bits(a: u32, b: u32) -> u32;

pub uninterp spec fn f32_div_bits(a: u32, b: u32) -> u32;

pub uninterp spec fn f32_rem_bits(a: u32, b: u32) -> u32;

pub uninterp spec fn f64_add_bits(a: u64, b: u64) -> u64;

pub uninterp spec fn f64_sub_bits(a: u64, b: u64) -> u64;

pub uninterp spec fn f64_mul_bits(a: u64, b: u64) -> u64;

pub uninterp spec fn f64_div_bits(a: u64, b: u64) -> u64;

pub uninterp spec fn f64_rem_bits(a: u64, b: u64) -> u64;

pub uninterp spec fn f32_to_f64_bits(a: u32) -> u64;

pub uninterp spec fn f64_literal_bits(s: Seq<char>) -> Option<u64>;

/// Relies on `rustc_apfloat::ieee::Single`'s `Add`: IEEE 754 single-precision
/// addition on bit patterns, rounding to nearest even.
#[verifier::external_body]
pub(crate) fn add_f32_bits(a: u32, b: u32) -> (r: u32)
    ensures
        r == f32_add_bits(a, b),
{
    let x = Single::from_bits(a as u128);
    let y = Single::from_bits(b as u128);
    (x + y).value.to_bits() as u32
}

/// Relies on `rustc_apfloat::ieee::Single`'s `Sub`: IEEE 754 single-precision
/// subtraction on bit patterns.
#[verifier::external_body]
pub(crate) fn sub_f32_bits(a: u32, b: u32) -> (r: u32)
    ensures
        r == f32_sub_bits(a, b),
{
    let x = Single::from_bits(a as u128);
    let y = Single::from_bits(b as u128);
    (x - y).value.to_bits() as u32
}

/// Relies on `rustc_apfloat::ieee::Single`'s `Mul`: IEEE 754 single-precision
/// multiplication on bit patterns.
#[verifier::external_body]
pub(crate) fn mul_f32_bits(a: u32, b: u32) -> (r: u32)
    ensures
        r == f32_mul_bits(a, b),
{
    let x = Single::from_bits(a as u128);
    let y = Single::from_bits(b as u128);
    (x * y).value.to_bits() as u32
}

/// Relies on `rustc_apfloat::ieee::Single`'s `Div`: IEEE 754 single-precision
/// division on bit patterns.
#[verifier::external_body]
pub(crate) fn div_f32_bits(a: u32, b: u32) -> (r: u32)
    ensures
        r == f32_div_bits(a, b),
{
    let x = Single::from_bits(a as u128);
    let y = Single::from_bits(b as u128);
    (x / y).value.to_bits() as u32
}

/// Relies on `rustc_apfloat::ieee::Single::c_fmod`: the single-precision
/// remainder with the semantics of Rust's `%` on floats.
#[verifier::external_body]
pub(crate) fn rem_f32_bits(a: u32, b: u32) -> (r: u32)
    ensures
        r == f32_rem_bits(a, b),
{
    let x = Single::from_bits(a as u128);
    let y = Single::from_bits(b as u128);
    x.c_fmod(y).value.to_bits() as u32
}

/// Relies on `rustc_apfloat::ieee::Double`'s `Add`: IEEE 754 double-precision
/// addition on bit patterns, rounding to nearest even.
#[verifier::external_body]
pub(crate) fn add_f64_bits(a: u64, b: u64) -> (r: u64)
    ensures
        r == f64_add_bits(a, b),
{
    let x = Double::from_bits(a as u128);
    let y = Double::from_bits(b as u128);
    (x + y).value.to_bits() as u64
}

/// Relies on `rustc_apfloat::ieee::Double`'s `Sub`: IEEE 754 double-precision
/// subtraction on bit patterns.
#[verifier::external_body]
pub(crate) fn sub_f64_bits(a: u64, b: u64) -> (r: u64)
    ensures
        r == f64_sub_bits(a, b),
{
    let x = Double::from_bits(a as u128);
    let y = Double::from_bits(b as u128);
    (x - y).value.to_bits() as u64
}

/// Relies on `rustc_apfloat::ieee::Double`'s `Mul`: IEEE 754 double-precision
/// multiplication on bit patterns.
#[verifier::external_body]
pub(crate) fn mul_f64_bits(a: u64, b: u64) -> (r: u64)
    ensures
        r == f64_mul_bits(a, b),
{
    let x = Double::from_bits(a as u128);
    let y = Double::from_bits(b as u128);
    (x * y).value.to_bits() as u64
}

/// Relies on `rustc_apfloat::ieee::Double`'s `Div`: IEEE 754 double-precision
/// division on bit patterns.
#[verifier::external_body]
pub(crate) fn div_f64_bits(a: u64, b: u64) -> (r: u64)
    ensures
        r == f64_div_bits(a, b),
{
    let x = Double::from_bits(a as u128);
    let y = Double::from_bits(b as u128);
    (x / y).value.to_bits() as u64
}

/// Relies on `rustc_apfloat::ieee::Double::c_fmod`: the double-precision
/// remainder with the semantics of Rust's `%` on floats.
#[verifier::external_body]
pub(crate) fn rem_f64_bits(a: u64, b: u64) -> (r: u64)
    ensures
        r == f64_rem_bits(a, b),
{
    let x = Double::from_bits(a as u128);
    let y = Double::from_bits(b as u128);
    x.c_fmod(y).value.to_bits() as u64
}

/// Relies on `rustc_apfloat`'s `FloatConvert<Double> for Single`: widening a
/// single-precision value to double precision (always exact).
#[verifier::external_body]
pub(crate) fn widen_f32_bits(a: u32) -> (r: u64)
    ensures
        r == f32_to_f64_bits(a),
{
    let x = Single::from_bits(a as u128);
    let mut loses_info = false;
    let d: Double = x.convert(&mut loses_info).value;
    d.to_bits() as u64
}

/// Relies on `rustc_apfloat::ieee::Double`'s `FromStr`: parsing a
/// floating-point literal, rounding to nearest even; any string outside its
/// grammar is rejected. That grammar also takes hexadecimal forms and named
/// special values with payloads; it is the caller's shape guard in
/// `literal`, not this function, that keeps those out of the language — the
/// core only hands decimal numerals here.
#[verifier::external_body]
pub(crate) fn parse_f64_bits(s: &str) -> (r: Option<u64>)
    ensures
        r == f64_literal_bits(s@),
{
    match Double::from_str(s) {
        Ok(d) => Some(d.to_bits() as u64),
        Err(_) => None,
    }
}

} // verus!
