//! IEEE-754 double-precision values, handled as their 64-bit encodings.
//!
//! The language's `Number` values are doubles.  Verified code never holds a
//! native float: a number is its 64-bit IEEE-754 encoding, and everything
//! that can be read off the encoding directly (classification, comparison,
//! truncation to integers, encoding of integers, integral powers) is
//! implemented and specified here as plain bit manipulation.  Only the four
//! rounding arithmetic operations, decimal parsing and decimal formatting
//! are delegated to the `rustc_apfloat` software float implementation
//! behind trusted wrappers; their results are named by uninterpreted
//! functions (`dbl_add` and friends), so every contract built on top of
//! them is exact relative to those names.

use vstd::prelude::*;
use vstd::std_specs::bits::u64_leading_zeros;
use vstd::std_specs::bits::axiom_u64_leading_zeros;
use rustc_apfloat::Float;
use rustc_apfloat::ieee::Double;

verus! {

/// Sign bit of a double encoding.
pub const SIGN_BIT: u64 = 0x8000_0000_0000_0000;
/// Fraction field (52 bits) of a double encoding.
pub const FRAC_MASK: u64 = 0x000F_FFFF_FFFF_FFFF;
/// Hidden leading significand bit of a normal double.
pub const HIDDEN_BIT: u64 = 0x0010_0000_0000_0000;

/// Encoding of `0.0`.
pub const BITS_ZERO: u64 = 0;
/// Encoding of `1.0`.
pub const BITS_ONE: u64 = 0x3FF0_0000_0000_0000;
/// Encoding of `-1.0`.
pub const BITS_NEG_ONE: u64 = 0xBFF0_0000_0000_0000;
/// Encoding of positive infinity.
pub const BITS_INF: u64 = 0x7FF0_0000_0000_0000;
/// Encoding of negative infinity.
pub const BITS_NEG_INF: u64 = 0xFFF0_0000_0000_0000;
/// Encoding of the quiet NaN produced by the language itself.
pub const BITS_NAN: u64 = 0x7FF8_0000_0000_0000;

pub open spec fn exp_field(b: u64) -> u64 {
    (b >> 52u64) & 0x7FFu64
}

pub open spec fn frac_field(b: u64) -> u64 {
    b & FRAC_MASK
}

pub open spec fn sign_bit_set(b: u64) -> bool {
    b & SIGN_BIT != 0
}

pub open spec fn is_nan_bits(b: u64) -> bool {
    exp_field(b) == 0x7FF && frac_field(b) != 0
}

pub open spec fn is_inf_bits(b: u64) -> bool {
    exp_field(b) == 0x7FF && frac_field(b) == 0
}

pub open spec fn is_zero_bits(b: u64) -> bool {
    exp_field(b) == 0 && frac_field(b) == 0
}

pub open spec fn is_finite_bits(b: u64) -> bool {
    exp_field(b) != 0x7FF
}

/// The encoded value is a mathematical integer (`fract() == 0`).
pub open spec fn is_integral_bits(b: u64) -> bool {
    if !is_finite_bits(b) {
        false
    } else if is_zero_bits(b) {
        true
    } else if exp_field(b) < 1023 {
        false
    } else if exp_field(b) >= 1075 {
        true
    } else {
        frac_field(b) & (((1u64 << ((1075 - exp_field(b)) as u64)) - 1) as u64) == 0
    }
}

/// Two to the power `k`.
pub open spec fn pow2n(k: nat) -> nat
    decreases k,
{
    if k == 0 {
        1
    } else {
        2 * pow2n((k - 1) as nat)
    }
}

/// The exact magnitude of an integral finite double: below an exponent of
/// 52 the significand is shifted down (losing nothing, the value being
/// integral); above it the significand is scaled up exactly.
pub open spec fn int_mag(b: u64) -> nat {
    if exp_field(b) <= 1075 {
        mag_trunc_sat(b) as nat
    } else {
        ((HIDDEN_BIT | frac_field(b)) as nat) * pow2n((exp_field(b) - 1075) as nat)
    }
}

/// Magnitude of the encoded value, truncated toward zero and saturated to
/// the `u64` range; NaN maps to 0, infinity to `u64::MAX`.
pub open spec fn mag_trunc_sat(b: u64) -> u64 {
    let e = exp_field(b);
    let f = frac_field(b);
    if e == 0x7FF {
        if f != 0 {
            0
        } else {
            0xFFFF_FFFF_FFFF_FFFFu64
        }
    } else if e < 1023 {
        0
    } else if e <= 1075 {
        (HIDDEN_BIT | f) >> ((1075 - e) as u64)
    } else if e <= 1086 {
        (HIDDEN_BIT | f) << ((e - 1075) as u64)
    } else {
        0xFFFF_FFFF_FFFF_FFFFu64
    }
}

/// What `v as u64` yields in Rust for a double `v`: truncation toward zero,
/// saturated to `[0, u64::MAX]`, NaN to 0.
pub open spec fn cast_u64_bits(b: u64) -> u64 {
    if sign_bit_set(b) {
        0
    } else {
        mag_trunc_sat(b)
    }
}

/// What `v as i64` yields in Rust: truncation toward zero, saturated to the
/// `i64` range, NaN to 0.
pub open spec fn cast_i64_bits(b: u64) -> i64 {
    let m = mag_trunc_sat(b);
    if sign_bit_set(b) {
        if m >= 0x8000_0000_0000_0000 {
            i64::MIN
        } else {
            (-(m as int)) as i64
        }
    } else {
        if m >= 0x8000_0000_0000_0000 {
            i64::MAX
        } else {
            m as i64
        }
    }
}

/// What `v as u32` yields in Rust.
pub open spec fn cast_u32_bits(b: u64) -> u32 {
    if sign_bit_set(b) {
        0
    } else {
        let m = mag_trunc_sat(b);
        if m >= 0x1_0000_0000 {
            0xFFFF_FFFFu32
        } else {
            m as u32
        }
    }
}

/// What `v as u8` yields in Rust.
pub open spec fn cast_u8_bits(b: u64) -> u8 {
    if sign_bit_set(b) {
        0
    } else {
        let m = mag_trunc_sat(b);
        if m >= 0x100 {
            0xFFu8
        } else {
            m as u8
        }
    }
}

/// Encoding of the integer `v` as a double, rounding to nearest, ties to
/// even (what `v as f64` yields in Rust).  Exact whenever `v < 2^53`.
pub open spec fn enc_u64(v: u64) -> u64 {
    if v == 0 {
        0
    } else {
        let p = 63 - u64_leading_zeros(v);
        if p <= 52 {
            (((1023 + p) as u64) << 52u64) | ((v << ((52 - p) as u64)) & FRAC_MASK)
        } else {
            let sh = (p - 52) as u64;
            let keep = v >> sh;
            let rem = v & (((1u64 << sh) - 1) as u64);
            let half = 1u64 << ((sh - 1) as u64);
            let up: u64 = if rem > half || (rem == half && keep & 1 == 1) {
                1
            } else {
                0
            };
            let keep2 = (keep + up) as u64;
            if keep2 == 0x0020_0000_0000_0000 {
                ((1024 + p) as u64) << 52u64
            } else {
                ((((1023 + p) as u64) << 52u64) | (keep2 & FRAC_MASK)) as u64
            }
        }
    }
}

/// Encoding of the signed integer `i` as a double (what `i as f64` yields).
pub open spec fn enc_i64(i: i64) -> u64 {
    if i == i64::MIN {
        enc_u64(0x8000_0000_0000_0000) | SIGN_BIT
    } else if i < 0 {
        enc_u64((-i) as u64) | SIGN_BIT
    } else {
        enc_u64(i as u64)
    }
}

pub fn ex_is_nan(b: u64) -> (r: bool)
    ensures
        r == is_nan_bits(b),
{
    (b >> 52u64) & 0x7FF == 0x7FF && b & FRAC_MASK != 0
}

pub fn ex_is_inf(b: u64) -> (r: bool)
    ensures
        r == is_inf_bits(b),
{
    (b >> 52u64) & 0x7FF == 0x7FF && b & FRAC_MASK == 0
}

pub fn ex_is_zero(b: u64) -> (r: bool)
    ensures
        r == is_zero_bits(b),
{
    (b >> 52u64) & 0x7FF == 0 && b & FRAC_MASK == 0
}

pub fn ex_sign_bit_set(b: u64) -> (r: bool)
    ensures
        r == sign_bit_set(b),
{
    b & SIGN_BIT != 0
}

pub fn ex_is_integral(b: u64) -> (r: bool)
    ensures
        r == is_integral_bits(b),
{
    let e: u64 = (b >> 52u64) & 0x7FF;
    let f: u64 = b & FRAC_MASK;
    if e == 0x7FF {
        false
    } else if e == 0 && f == 0 {
        true
    } else if e < 1023 {
        false
    } else if e >= 1075 {
        true
    } else {
        let k: u64 = 1075 - e;
        assert(1u64 << k >= 1) by (bit_vector)
            requires
                1 <= k <= 52,
        ;
        f & ((1u64 << k) - 1) == 0
    }
}

pub fn ex_mag_trunc_sat(b: u64) -> (r: u64)
    ensures
        r == mag_trunc_sat(b),
{
    let e: u64 = (b >> 52u64) & 0x7FF;
    let f: u64 = b & FRAC_MASK;
    if e == 0x7FF {
        if f != 0 {
            0
        } else {
            0xFFFF_FFFF_FFFF_FFFF
        }
    } else if e < 1023 {
        0
    } else if e <= 1075 {
        (HIDDEN_BIT | f) >> (1075 - e)
    } else if e <= 1086 {
        (HIDDEN_BIT | f) << (e - 1075)
    } else {
        0xFFFF_FFFF_FFFF_FFFF
    }
}

pub fn ex_cast_u64(b: u64) -> (r: u64)
    ensures
        r == cast_u64_bits(b),
{
    if b & SIGN_BIT != 0 {
        0
    } else {
        ex_mag_trunc_sat(b)
    }
}

pub fn ex_cast_i64(b: u64) -> (r: i64)
    ensures
        r == cast_i64_bits(b),
{
    let m: u64 = ex_mag_trunc_sat(b);
    if b & SIGN_BIT != 0 {
        if m >= 0x8000_0000_0000_0000 {
            i64::MIN
        } else {
            -(m as i64)
        }
    } else {
        if m >= 0x8000_0000_0000_0000 {
            i64::MAX
        } else {
            m as i64
        }
    }
}

pub fn ex_cast_u32(b: u64) -> (r: u32)
    ensures
        r == cast_u32_bits(b),
{
    if b & SIGN_BIT != 0 {
        0
    } else {
        let m: u64 = ex_mag_trunc_sat(b);
        if m >= 0x1_0000_0000 {
            0xFFFF_FFFF
        } else {
            m as u32
        }
    }
}

pub fn ex_cast_u8(b: u64) -> (r: u8)
    ensures
        r == cast_u8_bits(b),
{
    if b & SIGN_BIT != 0 {
        0
    } else {
        let m: u64 = ex_mag_trunc_sat(b);
        if m >= 0x100 {
            0xFF
        } else {
            m as u8
        }
    }
}

pub fn ex_enc_u64(v: u64) -> (r: u64)
    ensures
        r == enc_u64(v),
{
    if v == 0 {
        0
    } else {
        proof {
            axiom_u64_leading_zeros(v);
        }
        let lz: u32 = v.leading_zeros();
        let p: u64 = 63 - (lz as u64);
        if p <= 52 {
            ((1023 + p) << 52u64) | ((v << (52 - p)) & FRAC_MASK)
        } else {
            let sh: u64 = p - 52;
            let keep: u64 = v >> sh;
            assert(1u64 << sh >= 1) by (bit_vector)
                requires
                    1 <= sh <= 11,
            ;
            let rem: u64 = v & ((1u64 << sh) - 1);
            let half: u64 = 1u64 << (sh - 1);
            let up: u64 = if rem > half || (rem == half && keep & 1 == 1) {
                1
            } else {
                0
            };
            assert(v >> sh <= 0x7FFF_FFFF_FFFF_FFFF) by (bit_vector)
                requires
                    1 <= sh <= 11,
            ;
            let keep2: u64 = keep + up;
            if keep2 == 0x0020_0000_0000_0000 {
                (1024 + p) << 52u64
            } else {
                ((1023 + p) << 52u64) | (keep2 & FRAC_MASK)
            }
        }
    }
}

pub fn ex_enc_i64(i: i64) -> (r: u64)
    ensures
        r == enc_i64(i),
{
    if i == i64::MIN {
        ex_enc_u64(0x8000_0000_0000_0000) | SIGN_BIT
    } else if i < 0 {
        ex_enc_u64((-i) as u64) | SIGN_BIT
    } else {
        ex_enc_u64(i as u64)
    }
}

/// Decimal digit in a spec.
pub open spec fn is_digit_char(c: char) -> bool {
    48 <= c as int <= 57
}

/// Value of a sequence of decimal digit characters.
pub open spec fn digits_val(s: Seq<char>) -> nat
    decreases s.len(),
{
    if s.len() == 0 {
        0
    } else {
        digits_val(s.drop_last()) * 10 + (if is_digit_char(s.last()) {
            (s.last() as int - 48) as nat
        } else {
            0
        })
    }
}

pub open spec fn all_digits(s: Seq<char>) -> bool {
    forall|i: int| 0 <= i < s.len() ==> is_digit_char(#[trigger] s[i])
}

/// Result of `rustc_apfloat`'s decimal parse on `s`: `None` where the string
/// is not a decimal number, otherwise the correctly rounded encoding.
pub uninterp spec fn dbl_of_decimal(s: Seq<char>) -> Option<u64>;

/// What `rustc_apfloat`'s `Display` prints for the double encoded by `b`.
pub uninterp spec fn dbl_render(b: u64) -> Seq<char>;

/// IEEE-754 sum of the doubles encoded by `a` and `b` (round to nearest).
pub uninterp spec fn dbl_add(a: u64, b: u64) -> u64;

/// IEEE-754 difference of the doubles encoded by `a` and `b`.
pub uninterp spec fn dbl_sub(a: u64, b: u64) -> u64;

/// IEEE-754 product of the doubles encoded by `a` and `b`.
pub uninterp spec fn dbl_mul(a: u64, b: u64) -> u64;

/// IEEE-754 quotient of the doubles encoded by `a` and `b`.
pub uninterp spec fn dbl_div(a: u64, b: u64) -> u64;

/// C `fmod` of the doubles encoded by `a` and `b` (what Rust's `%` computes).
pub uninterp spec fn dbl_rem(a: u64, b: u64) -> u64;

/// IEEE-754 comparison of the doubles encoded by `a` and `b`: unordered
/// exactly when an operand is NaN; the two zeros are equal; a negative
/// value is below a positive one; values of one sign order by their
/// magnitude bits, which the IEEE format makes monotone in the encoded
/// magnitude (reversed for negatives).
pub open spec fn dbl_cmp(a: u64, b: u64) -> FloatOrd {
    if is_nan_bits(a) || is_nan_bits(b) {
        FloatOrd::Unordered
    } else if is_zero_bits(a) && is_zero_bits(b) {
        FloatOrd::Equal
    } else if sign_bit_set(a) != sign_bit_set(b) {
        if sign_bit_set(a) {
            FloatOrd::Less
        } else {
            FloatOrd::Greater
        }
    } else {
        let ma = a & 0x7FFF_FFFF_FFFF_FFFFu64;
        let mb = b & 0x7FFF_FFFF_FFFF_FFFFu64;
        if ma == mb {
            FloatOrd::Equal
        } else if sign_bit_set(a) {
            if ma < mb {
                FloatOrd::Greater
            } else {
                FloatOrd::Less
            }
        } else {
            if ma < mb {
                FloatOrd::Less
            } else {
                FloatOrd::Greater
            }
        }
    }
}

/// Outcome of an IEEE-754 comparison.
#[derive(Clone, Copy, PartialEq, Eq, Structural, Debug)]
pub enum FloatOrd {
    Less,
    Equal,
    Greater,
    Unordered,
}

/// Relies on `rustc_apfloat::ieee::Double`'s `Add` impl: round-to-nearest
/// IEEE-754 addition on 64-bit encodings.
#[verifier::external_body]
pub(crate) fn add_double(a: u64, b: u64) -> (r: u64)
    ensures
        r == dbl_add(a, b),
{
    (Double::from_bits(a as u128) + Double::from_bits(b as u128)).value.to_bits() as u64
}

/// Relies on `rustc_apfloat::ieee::Double`'s `Sub` impl: round-to-nearest
/// IEEE-754 subtraction on 64-bit encodings.
#[verifier::external_body]
pub(crate) fn sub_double(a: u64, b: u64) -> (r: u64)
    ensures
        r == dbl_sub(a, b),
{
    (Double::from_bits(a as u128) - Double::from_bits(b as u128)).value.to_bits() as u64
}

/// Relies on `rustc_apfloat::ieee::Double`'s `Mul` impl: round-to-nearest
/// IEEE-754 multiplication on 64-bit encodings.
#[verifier::external_body]
pub(crate) fn mul_double(a: u64, b: u64) -> (r: u64)
    ensures
        r == dbl_mul(a, b),
{
    (Double::from_bits(a as u128) * Double::from_bits(b as u128)).value.to_bits() as u64
}

/// Relies on `rustc_apfloat::ieee::Double`'s `Div` impl: round-to-nearest
/// IEEE-754 division on 64-bit encodings (x/0 is a signed infinity, 0/0 NaN).
#[verifier::external_body]
pub(crate) fn div_double(a: u64, b: u64) -> (r: u64)
    ensures
        r == dbl_div(a, b),
{
    (Double::from_bits(a as u128) / Double::from_bits(b as u128)).value.to_bits() as u64
}

/// Relies on `rustc_apfloat::ieee::Double`'s `Rem` impl, which is `c_fmod`:
/// the same truncating remainder Rust's `%` computes on doubles (x % 0 NaN).
#[verifier::external_body]
pub(crate) fn rem_double(a: u64, b: u64) -> (r: u64)
    ensures
        r == dbl_rem(a, b),
{
    (Double::from_bits(a as u128) % Double::from_bits(b as u128)).value.to_bits() as u64
}

/// Compares two encodings by the IEEE-754 ordering of `dbl_cmp`.
pub fn cmp_double(a: u64, b: u64) -> (r: FloatOrd)
    ensures
        r == dbl_cmp(a, b),
        (r == FloatOrd::Unordered) == (is_nan_bits(a) || is_nan_bits(b)),
{
    if ex_is_nan(a) || ex_is_nan(b) {
        FloatOrd::Unordered
    } else if ex_is_zero(a) && ex_is_zero(b) {
        FloatOrd::Equal
    } else if ex_sign_bit_set(a) != ex_sign_bit_set(b) {
        if ex_sign_bit_set(a) {
            FloatOrd::Less
        } else {
            FloatOrd::Greater
        }
    } else {
        let ma: u64 = a & 0x7FFF_FFFF_FFFF_FFFF;
        let mb: u64 = b & 0x7FFF_FFFF_FFFF_FFFF;
        if ma == mb {
            FloatOrd::Equal
        } else if ex_sign_bit_set(a) {
            if ma < mb {
                FloatOrd::Greater
            } else {
                FloatOrd::Less
            }
        } else {
            if ma < mb {
                FloatOrd::Less
            } else {
                FloatOrd::Greater
            }
        }
    }
}

/// Relies on `<Double as FromStr>::from_str` from `rustc_apfloat` (LLVM
/// APFloat's correctly rounded decimal-to-binary conversion).  Over digits
/// and at most one dot it accepts exactly the strings holding a digit.
#[verifier::external_body]
pub(crate) fn parse_double(s: &str) -> (r: Option<u64>)
    ensures
        r == dbl_of_decimal(s@),
        (forall|i: int| 0 <= i < s@.len() ==> is_digit_char(#[trigger] s@[i]) || s@[i] == '.')
            ==> ((r is Some) <==> ((exists|i: int| 0 <= i < s@.len() && is_digit_char(#[trigger] s@[i]))
            && s@.filter(|c: char| c == '.').len() <= 1)),
{
    match <Double as core::str::FromStr>::from_str(s) {
        Ok(d) => Some(d.to_bits() as u64),
        Err(_) => None,
    }
}

/// Relies on `<Double as fmt::Display>` from `rustc_apfloat`: a decimal
/// rendering of the double encoded by `b`.
#[verifier::external_body]
pub(crate) fn render_double(b: u64) -> (r: String)
    ensures
        r@ == dbl_render(b),
{
    format!("{}", Double::from_bits(b as u128))
}

/// `x` raised to the natural power `n` by square and multiply, over the
/// rounding IEEE-754 multiplication.
pub open spec fn pow_mag(x: u64, n: nat) -> u64
    decreases n,
{
    if n == 0 {
        BITS_ONE
    } else if n % 2 == 1 {
        dbl_mul(pow_mag(x, (n - 1) as nat), x)
    } else {
        dbl_mul(pow_mag(x, n / 2), pow_mag(x, n / 2))
    }
}

pub fn ex_pow_mag(x: u64, n: u64) -> (r: u64)
    ensures
        r == pow_mag(x, n as nat),
    decreases n,
{
    if n == 0 {
        BITS_ONE
    } else if n % 2 == 1 {
        let q: u64 = ex_pow_mag(x, n - 1);
        mul_double(q, x)
    } else {
        let h: u64 = ex_pow_mag(x, n / 2);
        mul_double(h, h)
    }
}

/// The power policy of the language: `0 ** 0` is NaN; an integral exponent
/// is applied by square-and-multiply (negative exponents through the
/// reciprocal); an infinite exponent follows the IEEE `pow` rules against
/// the magnitude of the base; any other exponent yields NaN.  That last
/// point is a deliberate deviation: a real power function would give
/// fractional exponents their real result (2 to the 0.5 is about 1.414),
/// but the software float offers no power operation, so those yield NaN
/// here, and large integral powers may differ from a correctly rounded
/// power in the last bit.
pub open spec fn spec_pow(x: u64, y: u64) -> u64 {
    if is_zero_bits(x) && is_zero_bits(y) {
        BITS_NAN
    } else if is_integral_bits(y) {
        let n0 = mag_trunc_sat(y);
        let n = if n0 >= 0x20_0000_0000_0000 {
            n0 & 0xFFFF_FFFF_FFFF_FFFE
        } else {
            n0
        };
        if sign_bit_set(y) {
            dbl_div(BITS_ONE, pow_mag(x, n as nat))
        } else {
            pow_mag(x, n as nat)
        }
    } else if is_inf_bits(y) {
        if is_nan_bits(x) {
            BITS_NAN
        } else {
            let c = dbl_cmp(x & 0x7FFF_FFFF_FFFF_FFFF, BITS_ONE);
            if sign_bit_set(y) {
                match c {
                    FloatOrd::Less => BITS_INF,
                    FloatOrd::Equal => BITS_ONE,
                    FloatOrd::Greater => BITS_ZERO,
                    FloatOrd::Unordered => BITS_NAN,
                }
            } else {
                match c {
                    FloatOrd::Less => BITS_ZERO,
                    FloatOrd::Equal => BITS_ONE,
                    FloatOrd::Greater => BITS_INF,
                    FloatOrd::Unordered => BITS_NAN,
                }
            }
        }
    } else {
        BITS_NAN
    }
}

pub fn pow_double(x: u64, y: u64) -> (r: u64)
    ensures
        r == spec_pow(x, y),
{
    if ex_is_zero(x) && ex_is_zero(y) {
        BITS_NAN
    } else if ex_is_integral(y) {
        let n0: u64 = ex_mag_trunc_sat(y);
        let n: u64 = if n0 >= 0x20_0000_0000_0000 {
            n0 & 0xFFFF_FFFF_FFFF_FFFE
        } else {
            n0
        };
        let m: u64 = ex_pow_mag(x, n);
        if ex_sign_bit_set(y) {
            div_double(BITS_ONE, m)
        } else {
            m
        }
    } else if ex_is_inf(y) {
        if ex_is_nan(x) {
            BITS_NAN
        } else {
            let c: FloatOrd = cmp_double(x & 0x7FFF_FFFF_FFFF_FFFF, BITS_ONE);
            if ex_sign_bit_set(y) {
                match c {
                    FloatOrd::Less => BITS_INF,
                    FloatOrd::Equal => BITS_ONE,
                    FloatOrd::Greater => BITS_ZERO,
                    FloatOrd::Unordered => BITS_NAN,
                }
            } else {
                match c {
                    FloatOrd::Less => BITS_ZERO,
                    FloatOrd::Equal => BITS_ONE,
                    FloatOrd::Greater => BITS_INF,
                    FloatOrd::Unordered => BITS_NAN,
                }
            }
        }
    } else {
        BITS_NAN
    }
}


/// Encoding an integer below 2^53 yields a non-negative integral double
/// whose truncated magnitude is the integer again.
pub proof fn lemma_enc_u64_small(v: u64)
    requires
        v < 0x20_0000_0000_0000,
    ensures
        !sign_bit_set(enc_u64(v)),
        is_finite_bits(enc_u64(v)),
        !is_nan_bits(enc_u64(v)),
        !is_inf_bits(enc_u64(v)),
        is_integral_bits(enc_u64(v)),
        exp_field(enc_u64(v)) <= 1075,
        mag_trunc_sat(enc_u64(v)) == v,
        int_mag(enc_u64(v)) == v,
{
    if v == 0 {
        assert(enc_u64(0) == 0);
        assert(exp_field(0) == 0 && frac_field(0) == 0) by (bit_vector);
        assert(0u64 & SIGN_BIT == 0) by (bit_vector);
        return;
    }
    axiom_u64_leading_zeros(v);
    let lz = u64_leading_zeros(v);
    assert(0 <= lz <= 63);
    let pu: u64 = (63 - lz) as u64;
    assert((v >> pu) & 1 != 0);
    assert(v >> ((pu + 1) as u64) == 0);
    let pv: u64 = pu;
    assert(pv <= 52) by (bit_vector)
        requires
            (v >> pv) & 1 != 0,
            v < 0x20_0000_0000_0000u64,
            pv < 64,
    ;
    let e: u64 = (1023 + pu) as u64;
    let sh: u64 = (52 - pu) as u64;
    let fr: u64 = (v << sh) & FRAC_MASK;
    let bits: u64 = (e << 52u64) | fr;
    assert(enc_u64(v) == bits);
    assert((bits >> 52u64) & 0x7FF == e && bits & 0x8000_0000_0000_0000u64 == 0 && bits
        & 0x000F_FFFF_FFFF_FFFFu64 == fr) by (bit_vector)
        requires
            bits == (e << 52u64) | fr,
            fr == (v << sh) & 0x000F_FFFF_FFFF_FFFFu64,
            e == 1023 + pv,
            sh == 52 - pv,
            pv <= 52,
    ;
    assert(exp_field(bits) == e);
    assert(frac_field(bits) == fr);
    assert(!sign_bit_set(bits));
    assert(e != 0x7FF && 1023 <= e <= 1075);
    assert((0x0010_0000_0000_0000u64 | fr) >> sh == v && fr & (((1u64 << sh) - 1) as u64) == 0)
        by (bit_vector)
        requires
            fr == (v << sh) & 0x000F_FFFF_FFFF_FFFFu64,
            sh == 52 - pv,
            pv <= 52,
            (v >> pv) & 1 != 0,
            v >> ((pv + 1) as u64) == 0,
    ;
    assert(mag_trunc_sat(bits) == (0x0010_0000_0000_0000u64 | fr) >> ((1075 - e) as u64));
    assert((1075 - e) as u64 == sh);
    if e >= 1075 {
        assert(is_integral_bits(bits));
    } else {
        assert((1075 - exp_field(bits)) as u64 == sh);
        assert(is_integral_bits(bits));
    }
}

} // verus!
