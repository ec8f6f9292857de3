//! Normalized sample values and the fixed-point scaling rules.
//!
//! A normalized amplitude in `[-1.0, 1.0]` is represented exactly as the
//! integer `value * 2^31` held in an `i64`. Every supported fixed-point
//! encoding scales onto this range by a power of two, so the conversions
//! below are exact and their contracts state the scaled value directly.

use vstd::prelude::*;
use vstd::arithmetic::div_mod::lemma_div_multiples_vanish;

verus! {

/// The fixed-point denominator: a stored `raw` of `NORM_ONE` means `1.0`.
pub const NORM_ONE: i64 = 0x8000_0000;

/// A normalized sample: the amplitude `raw / 2^31`, kept in `[-1.0, 1.0]`.
#[derive(Clone, Copy, Debug, PartialEq, Eq, Structural)]
pub struct Norm {
    pub raw: i64,
}

impl Norm {
    /// The value is inside the normalized range `[-1.0, 1.0]`.
    pub open spec fn wf(self) -> bool {
        -0x8000_0000 <= self.raw <= 0x8000_0000
    }

    /// Silence, exactly `0.0`.
    pub fn zero() -> (n: Norm)
        ensures
            n.raw == 0,
            n.wf(),
    {
        Norm { raw: 0 }
    }
}

/// `x` clamped to the normalized range.
pub open spec fn clamp_to_norm(x: int) -> int {
    if x < -0x8000_0000 {
        -0x8000_0000
    } else if x > 0x8000_0000 {
        0x8000_0000
    } else {
        x
    }
}

/// Clamps a raw fixed-point value into the normalized range.
pub fn clamp_raw(x: i64) -> (r: i64)
    ensures
        r == clamp_to_norm(x as int),
{
    if x < -NORM_ONE {
        -NORM_ONE
    } else if x > NORM_ONE {
        NORM_ONE
    } else {
        x
    }
}

/// Division truncating toward zero, the rounding used when a normalized
/// value is quantized back to an integer representation.
pub open spec fn div_trunc(a: int, d: int) -> int
    recommends
        d > 0,
{
    if a >= 0 {
        a / d
    } else {
        -((-a) / d)
    }
}

/// `x` clamped to `[lo, hi]`.
pub open spec fn clamp_int(x: int, lo: int, hi: int) -> int {
    if x < lo {
        lo
    } else if x > hi {
        hi
    } else {
        x
    }
}

/// The quantization rule: a normalized `raw` (value times `2^31`) divided
/// down to an integer representation whose scale is `2^31 / (hi + 1)`,
/// truncated toward zero and clamped to the representable range `[lo, hi]`.
pub open spec fn quantize(raw: int, scale: int, lo: int, hi: int) -> int
    recommends
        scale > 0,
{
    clamp_int(div_trunc(raw, scale), lo, hi)
}

/// An 8-bit fixed-point sample scaled onto the normalized range: `v / 2^7`.
pub fn i8_to_norm(v: i8) -> (n: Norm)
    ensures
        n.raw == v as int * 0x100_0000,
        n.wf(),
{
    Norm { raw: clamp_raw((v as i64) * 0x100_0000) }
}

/// A 16-bit fixed-point sample scaled onto the normalized range: `v / 2^15`.
pub fn i16_to_norm(v: i16) -> (n: Norm)
    ensures
        n.raw == v as int * 0x1_0000,
        n.wf(),
{
    Norm { raw: clamp_raw((v as i64) * 0x1_0000) }
}

/// A 24-bit fixed-point sample (widened into an `i32`) scaled onto the
/// normalized range: `v / 2^23`, clamped for out-of-range encodings.
pub fn i24_to_norm(v: i32) -> (n: Norm)
    ensures
        n.raw == clamp_to_norm(v as int * 0x100),
        n.wf(),
        -0x80_0000 <= v <= 0x80_0000 ==> n.raw == v as int * 0x100,
{
    Norm { raw: clamp_raw((v as i64) * 0x100) }
}

/// A 32-bit fixed-point sample scaled onto the normalized range: `v / 2^31`.
pub fn i32_to_norm(v: i32) -> (n: Norm)
    ensures
        n.raw == v as int,
        n.wf(),
{
    Norm { raw: clamp_raw(v as i64) }
}

/// Quantizes a normalized sample to 8-bit fixed point: multiply by `2^7`,
/// truncate toward zero, clamp to the representable range.
pub fn norm_to_i8(n: Norm) -> (r: i8)
    requires
        n.wf(),
    ensures
        r == quantize(n.raw as int, 0x100_0000, -0x80, 0x7f),
{
    let q: i64 = if n.raw >= 0 {
        n.raw / 0x100_0000
    } else {
        -((-n.raw) / 0x100_0000)
    };
    if q > 0x7f {
        0x7f
    } else {
        q as i8
    }
}

/// Quantizes a normalized sample to 16-bit fixed point.
pub fn norm_to_i16(n: Norm) -> (r: i16)
    requires
        n.wf(),
    ensures
        r == quantize(n.raw as int, 0x1_0000, -0x8000, 0x7fff),
{
    let q: i64 = if n.raw >= 0 {
        n.raw / 0x1_0000
    } else {
        -((-n.raw) / 0x1_0000)
    };
    if q > 0x7fff {
        0x7fff
    } else {
        q as i16
    }
}

/// Quantizes a normalized sample to 24-bit fixed point (in an `i32`).
pub fn norm_to_i24(n: Norm) -> (r: i32)
    requires
        n.wf(),
    ensures
        r == quantize(n.raw as int, 0x100, -0x80_0000, 0x7f_ffff),
{
    let q: i64 = if n.raw >= 0 {
        n.raw / 0x100
    } else {
        -((-n.raw) / 0x100)
    };
    if q > 0x7f_ffff {
        0x7f_ffff
    } else {
        q as i32
    }
}

/// Quantizes a normalized sample to 32-bit fixed point.
pub fn norm_to_i32(n: Norm) -> (r: i32)
    requires
        n.wf(),
    ensures
        r == quantize(n.raw as int, 1, -0x8000_0000, 0x7fff_ffff),
{
    if n.raw > 0x7fff_ffff {
        0x7fff_ffff
    } else {
        n.raw as i32
    }
}

/// Round-trip law: an 8-bit sample survives scaling up and quantizing back
/// unchanged, with no quantization error at all.
pub proof fn lemma_round_trip_i8(v: i8)
    ensures
        quantize(v as int * 0x100_0000, 0x100_0000, -0x80, 0x7f) == v,
{
    lemma_div_multiples_vanish(v as int, 0x100_0000);
    lemma_div_multiples_vanish(-(v as int), 0x100_0000);
}

/// Round-trip law: a 16-bit sample survives scaling up and quantizing back
/// unchanged, with no quantization error at all.
pub proof fn lemma_round_trip_i16(v: i16)
    ensures
        quantize(v as int * 0x1_0000, 0x1_0000, -0x8000, 0x7fff) == v,
{
    lemma_div_multiples_vanish(v as int, 0x1_0000);
    lemma_div_multiples_vanish(-(v as int), 0x1_0000);
}

/// Round-trip law: a 24-bit sample survives scaling up and quantizing back
/// unchanged, with no quantization error at all.
pub proof fn lemma_round_trip_i24(v: i32)
    requires
        -0x80_0000 <= v <= 0x7f_ffff,
    ensures
        quantize(v as int * 0x100, 0x100, -0x80_0000, 0x7f_ffff) == v,
{
    lemma_div_multiples_vanish(v as int, 0x100);
    lemma_div_multiples_vanish(-(v as int), 0x100);
}

/// Round-trip law: a 32-bit sample survives scaling up and quantizing back
/// unchanged, with no quantization error at all.
pub proof fn lemma_round_trip_i32(v: i32)
    ensures
        quantize(v as int, 1, -0x8000_0000, 0x7fff_ffff) == v,
{
    lemma_div_multiples_vanish(v as int, 1);
    lemma_div_multiples_vanish(-(v as int), 1);
}

/// A sample representation that the converter can project onto: each such
/// type names its exact normalized value (`as_fixed`, the amplitude times
/// `2^31`) and the quantization that maps any normalized value back into it
/// (`of_fixed`), and the two are proved inverse on valid samples.
pub trait Sample: Sized + Copy {
    /// Which values of the representation are meaningful samples.
    spec fn valid(self) -> bool;

    /// The exact normalized value of the sample, times `2^31`.
    spec fn as_fixed(self) -> int;

    /// The sample that a normalized value (times `2^31`) quantizes to.
    spec fn of_fixed(raw: int) -> Self;

    /// Scales the sample onto the normalized range, exactly.
    fn to_norm(self) -> (n: Norm)
        requires
            self.valid(),
        ensures
            n.wf(),
            n.raw == self.as_fixed(),
    ;

    /// Quantizes a normalized value into this representation.
    fn from_norm(n: Norm) -> (s: Self)
        requires
            n.wf(),
        ensures
            s == Self::of_fixed(n.raw as int),
            s.valid(),
    ;

    /// Round-trip law: quantizing a sample's own normalized value gives the
    /// sample back, with no quantization error.
    proof fn lemma_round_trip(self)
        requires
            self.valid(),
        ensures
            Self::of_fixed(self.as_fixed()) == self,
    ;
}

impl Sample for i16 {
    open spec fn valid(self) -> bool {
        true
    }

    open spec fn as_fixed(self) -> int {
        self as int * 0x1_0000
    }

    open spec fn of_fixed(raw: int) -> i16 {
        quantize(raw, 0x1_0000, -0x8000, 0x7fff) as i16
    }

    fn to_norm(self) -> (n: Norm) {
        i16_to_norm(self)
    }

    fn from_norm(n: Norm) -> (s: i16) {
        norm_to_i16(n)
    }

    proof fn lemma_round_trip(self) {
        lemma_round_trip_i16(self);
    }
}

impl Sample for u16 {
    open spec fn valid(self) -> bool {
        true
    }

    open spec fn as_fixed(self) -> int {
        (self - 0x8000) * 0x1_0000
    }

    open spec fn of_fixed(raw: int) -> u16 {
        (quantize(raw, 0x1_0000, -0x8000, 0x7fff) + 0x8000) as u16
    }

    fn to_norm(self) -> (n: Norm) {
        let centered: i64 = (self as i64) - 0x8000;
        Norm { raw: clamp_raw(centered * 0x1_0000) }
    }

    fn from_norm(n: Norm) -> (s: u16) {
        let q: i16 = norm_to_i16(n);
        ((q as i32) + 0x8000) as u16
    }

    proof fn lemma_round_trip(self) {
        lemma_div_multiples_vanish(self - 0x8000, 0x1_0000);
        lemma_div_multiples_vanish(-(self - 0x8000), 0x1_0000);
    }
}

impl Sample for Norm {
    open spec fn valid(self) -> bool {
        self.wf()
    }

    open spec fn as_fixed(self) -> int {
        self.raw as int
    }

    open spec fn of_fixed(raw: int) -> Norm {
        Norm { raw: clamp_to_norm(raw) as i64 }
    }

    fn to_norm(self) -> (n: Norm) {
        self
    }

    fn from_norm(n: Norm) -> (s: Norm) {
        n
    }

    proof fn lemma_round_trip(self) {
    }
}

} // verus!
