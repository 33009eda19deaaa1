use vstd::prelude::*;
use rustc_apfloat::ieee::{Double, Single};
use rustc_apfloat::{Float, FloatConvert};
use crate::tensor::{ElemKind, Element, KindValue, Kinded, Tensor, TensorKind, TensorValue};
use crate::error::GraphError;

verus! {

/// An IEEE-754 binary32 number, held as its bit pattern. Two values are equal
/// when their bit patterns are: a NaN equals itself, and the two zeros differ.
#[derive(Clone, Copy, Debug, PartialEq, Eq, Structural)]
pub struct Float32 {
    pub bits: u32,
}

/// The bit pattern of 0.0.
pub const ZERO_BITS: u32 = 0;

/// The bit pattern of 1.0.
pub const ONE_BITS: u32 = 0x3f80_0000;

// The arithmetic below is `rustc_apfloat`'s, which computes on bit patterns
// in integer arithmetic and accepts every bit pattern: infinities, NaNs and
// denormals included. What an operation gives is named, not written out.

/// The bit pattern of the binary32 sum of the numbers with bit patterns `a`
/// and `b`, rounded to nearest, ties to even.
pub uninterp spec fn single_sum(a: u32, b: u32) -> u32;

/// The bit pattern of the binary32 product of the numbers with bit patterns
/// `a` and `b`, rounded to nearest, ties to even.
pub uninterp spec fn single_product(a: u32, b: u32) -> u32;

/// Calls `Add::add` of `rustc_apfloat::ieee::Single`, which is `add_r` with
/// `Round::NearestTiesToEven`, on the numbers read by `Float::from_bits`, and
/// gives the bits of the value field of what comes back. The claim: the
/// outcome depends on the two bit patterns alone. The status flags are dropped.
#[verifier::external_body]
fn single_add(a: u32, b: u32) -> (r: u32)
    ensures
        r == single_sum(a, b),
{
    let x = Single::from_bits(a as u128);
    let y = Single::from_bits(b as u128);
    (x + y).value.to_bits() as u32
}

/// Calls `Mul::mul` of `rustc_apfloat::ieee::Single`, which is `mul_r` with
/// `Round::NearestTiesToEven`, on the numbers read by `Float::from_bits`, and
/// gives the bits of the value field of what comes back. The claim: the
/// outcome depends on the two bit patterns alone. The status flags are dropped.
#[verifier::external_body]
fn single_mul(a: u32, b: u32) -> (r: u32)
    ensures
        r == single_product(a, b),
{
    let x = Single::from_bits(a as u128);
    let y = Single::from_bits(b as u128);
    (x * y).value.to_bits() as u32
}

/// The bit pattern of the binary32 quotient of the numbers with bit patterns
/// `a` and `b`, rounded to nearest, ties to even.
pub uninterp spec fn single_quotient(a: u32, b: u32) -> u32;

/// The bit pattern of the binary64 difference of the numbers with bit
/// patterns `a` and `b`, rounded to nearest, ties to even.
pub uninterp spec fn double_difference(a: u64, b: u64) -> u64;

/// The bit pattern of the binary64 number with bit pattern `a`, times two to
/// the power `exp`, rounded to nearest, ties to even.
pub uninterp spec fn double_scaled(a: u64, exp: i32) -> u64;

/// The binary64 number with bit pattern `a`, as an unsigned 64-bit integer:
/// rounded toward zero, 0 for a NaN, and the nearest end of the range for
/// what lies outside it.
pub uninterp spec fn double_truncated(a: u64) -> u64;

/// The bit pattern of the binary32 number nearest to the binary64 number
/// with bit pattern `a`, ties to even.
pub uninterp spec fn double_narrowed(a: u64) -> u32;

/// Calls `Div::div` of `rustc_apfloat::ieee::Single`, which is `div_r` with
/// `Round::NearestTiesToEven`, on the numbers read by `Float::from_bits`, and
/// gives the bits of the value field of what comes back. The claim: the
/// outcome depends on the two bit patterns alone. The status flags are dropped.
#[verifier::external_body]
fn single_div(a: u32, b: u32) -> (r: u32)
    ensures
        r == single_quotient(a, b),
{
    let x = Single::from_bits(a as u128);
    let y = Single::from_bits(b as u128);
    (x / y).value.to_bits() as u32
}

/// Calls `Sub::sub` of `rustc_apfloat::ieee::Double`, which is `sub_r` with
/// `Round::NearestTiesToEven`, on the numbers read by `Float::from_bits`, and
/// gives the bits of the value field of what comes back. The claim: the
/// outcome depends on the two bit patterns alone. The status flags are dropped.
#[verifier::external_body]
fn double_sub(a: u64, b: u64) -> (r: u64)
    ensures
        r == double_difference(a, b),
{
    let x = Double::from_bits(a as u128);
    let y = Double::from_bits(b as u128);
    (x - y).value.to_bits() as u64
}

/// Calls `Float::scalbn` of `rustc_apfloat::ieee::Double` on the number read
/// by `Float::from_bits`, and gives the bits of what comes back. The claim:
/// the outcome depends on the bit pattern and the exponent alone.
#[verifier::external_body]
fn double_scalbn(a: u64, exp: i32) -> (r: u64)
    ensures
        r == double_scaled(a, exp),
{
    Double::from_bits(a as u128).scalbn(exp).to_bits() as u64
}

/// Calls `Float::to_u128` of `rustc_apfloat::ieee::Double` with width 64 on
/// the number read by `Float::from_bits`, and gives the value field of what
/// comes back, which that width keeps below two to the power 64. The claim:
/// the outcome depends on the bit pattern alone. The status flags are dropped.
#[verifier::external_body]
fn double_to_u64(a: u64) -> (r: u64)
    ensures
        r == double_truncated(a),
{
    Double::from_bits(a as u128).to_u128(64).value as u64
}

/// Calls `FloatConvert::convert` from `rustc_apfloat::ieee::Double` to
/// `Single` on the number read by `Float::from_bits`, and gives the bits of
/// the value field of what comes back. The claim: the outcome depends on the
/// bit pattern alone. The status flags and the loss flag are dropped.
#[verifier::external_body]
fn double_to_single(a: u64) -> (r: u32)
    ensures
        r == double_narrowed(a),
{
    let mut loses_info = false;
    let narrow: Single = Double::from_bits(a as u128).convert(&mut loses_info).value;
    narrow.to_bits() as u32
}

/// An IEEE-754 binary64 number, held as its bit pattern.
#[derive(Clone, Copy, Debug, PartialEq, Eq, Structural)]
pub struct Float64 {
    pub bits: u64,
}

/// The bit pattern of the binary64 number 1.0.
pub const ONE_BITS_64: u64 = 0x3ff0_0000_0000_0000;

/// The bit pattern of the binary64 number 0.5.
pub const HALF_BITS_64: u64 = 0x3fe0_0000_0000_0000;

/// The bit pattern of the binary64 positive infinity: the greatest bit
/// pattern of a number above zero.
pub const INFINITY_BITS_64: u64 = 0x7ff0_0000_0000_0000;

impl Float64 {
    /// Whether the number is above zero: its sign bit is clear, and it is
    /// neither zero nor a NaN.
    pub open spec fn positive(self) -> bool {
        0 < self.bits <= INFINITY_BITS_64
    }

    /// One minus this number.
    pub open spec fn complement_value(self) -> Float64 {
        Float64 { bits: double_difference(ONE_BITS_64, self.bits) }
    }

    /// Of two to the power 32 equally likely draws `0, 1, ..`, those below
    /// this bound are the share that this number, taken as a probability,
    /// asks for: the number times two to the power 32, rounded toward zero.
    pub open spec fn threshold_value(self) -> u64 {
        double_truncated(double_scaled(self.bits, 32))
    }

    /// The binary32 number nearest to this one.
    pub open spec fn narrowed_value(self) -> Float32 {
        Float32 { bits: double_narrowed(self.bits) }
    }

    /// The number with this bit pattern.
    pub fn from_bits(bits: u64) -> (r: Float64)
        ensures
            r.bits == bits,
    {
        Float64 { bits }
    }

    /// The bit pattern.
    pub fn to_bits(self) -> (r: u64)
        ensures
            r == self.bits,
    {
        self.bits
    }

    /// Whether the number is above zero.
    pub fn is_positive(self) -> (b: bool)
        ensures
            b == self.positive(),
    {
        0 < self.bits && self.bits <= INFINITY_BITS_64
    }

    /// One minus this number.
    pub fn complement(self) -> (r: Float64)
        ensures
            r == self.complement_value(),
    {
        Float64 { bits: double_sub(ONE_BITS_64, self.bits) }
    }

    /// This number times two to the power 32, rounded toward zero.
    pub fn threshold(self) -> (r: u64)
        ensures
            r == self.threshold_value(),
    {
        double_to_u64(double_scalbn(self.bits, 32))
    }

    /// The binary32 number nearest to this one.
    pub fn narrowed(self) -> (r: Float32)
        ensures
            r == self.narrowed_value(),
    {
        Float32 { bits: double_to_single(self.bits) }
    }
}

impl Float32 {
    /// The quotient of this number by `rhs`.
    pub open spec fn quotient(self, rhs: Float32) -> Float32 {
        Float32 { bits: single_quotient(self.bits, rhs.bits) }
    }

    /// The quotient of this number by `rhs`.
    pub fn divided_by(self, rhs: Float32) -> (r: Float32)
        ensures
            r == self.quotient(rhs),
    {
        Float32 { bits: single_div(self.bits, rhs.bits) }
    }

    /// The number with this bit pattern.
    pub fn from_bits(bits: u32) -> (r: Float32)
        ensures
            r.bits == bits,
    {
        Float32 { bits }
    }

    /// The bit pattern.
    pub fn to_bits(self) -> (r: u32)
        ensures
            r == self.bits,
    {
        self.bits
    }
}

impl Element for Float32 {
    open spec fn kind_of() -> ElemKind {
        ElemKind::Float
    }

    open spec fn zero_value() -> Float32 {
        Float32 { bits: ZERO_BITS }
    }

    open spec fn one_value() -> Float32 {
        Float32 { bits: ONE_BITS }
    }

    open spec fn sum(a: Float32, b: Float32) -> Float32 {
        Float32 { bits: single_sum(a.bits, b.bits) }
    }

    open spec fn product(a: Float32, b: Float32) -> Float32 {
        Float32 { bits: single_product(a.bits, b.bits) }
    }

    fn elem_kind() -> (k: ElemKind) {
        ElemKind::Float
    }

    fn zero() -> (z: Float32) {
        Float32 { bits: ZERO_BITS }
    }

    fn one() -> (o: Float32) {
        Float32 { bits: ONE_BITS }
    }

    fn plus(self, rhs: Float32) -> (r: Float32) {
        Float32 { bits: single_add(self.bits, rhs.bits) }
    }

    fn times(self, rhs: Float32) -> (r: Float32) {
        Float32 { bits: single_mul(self.bits, rhs.bits) }
    }

    fn same(self, rhs: Float32) -> (b: bool) {
        self.bits == rhs.bits
    }
}

impl Kinded for Float32 {
    open spec fn lift(v: TensorValue<Float32>) -> KindValue {
        KindValue::Float(v)
    }

    open spec fn lower(k: KindValue) -> Option<TensorValue<Float32>> {
        match k {
            KindValue::Float(v) => Some(v),
            KindValue::Long(_) => None,
        }
    }

    proof fn lemma_kinds() {
    }

    fn into_kind(t: Tensor<Float32>) -> (k: TensorKind) {
        TensorKind::FloatTensor(t)
    }

    fn from_kind(k: TensorKind) -> (r: Result<Tensor<Float32>, GraphError>) {
        match k {
            TensorKind::FloatTensor(t) => Ok(t),
            TensorKind::LongTensor(_) => Err(GraphError::TypeMismatch),
        }
    }
}

} // verus!
