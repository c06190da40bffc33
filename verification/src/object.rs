//! The runtime values and the coercion rules between them.
//!
//! A value is a number (an IEEE-754 double, held as its encoding), a
//! boolean, a string or a character.  Binary operators dispatch on the
//! runtime type pair: a boolean meeting a number is coerced to `1.0`/`0.0`
//! and the number rule applied; strings concatenate under `+`, repeat under
//! `*` and fall back to numeric coercion under `-`; characters behave as
//! bytes under arithmetic.  Equality across number and boolean coerces the
//! same way; every other cross-type pair compares unequal and unordered.
//! Division and modulo never fail: a zero divisor follows the IEEE rules
//! (signed infinity, NaN).

use vstd::prelude::*;
use vstd::string::StrSliceExecFns;
use vstd::string::StringExecFns;
use crate::double::BITS_NAN;
use crate::double::BITS_ONE;
use crate::double::BITS_ZERO;
use crate::double::FloatOrd;
use crate::double::add_double;
use crate::double::cast_i64_bits;
use crate::double::cast_u32_bits;
use crate::double::cast_u64_bits;
use crate::double::cast_u8_bits;
use crate::double::cmp_double;
use crate::double::dbl_add;
use crate::double::dbl_cmp;
use crate::double::dbl_div;
use crate::double::dbl_mul;
use crate::double::dbl_of_decimal;
use crate::double::dbl_rem;
use crate::double::dbl_render;
use crate::double::dbl_sub;
use crate::double::div_double;
use crate::double::enc_i64;
use crate::double::enc_u64;
use crate::double::ex_cast_i64;
use crate::double::ex_cast_u32;
use crate::double::ex_cast_u64;
use crate::double::ex_cast_u8;
use crate::double::ex_enc_i64;
use crate::double::ex_enc_u64;
use crate::double::ex_is_integral;
use crate::double::ex_is_nan;
use crate::double::ex_is_zero;
use crate::double::ex_sign_bit_set;
use crate::double::is_integral_bits;
use crate::double::is_nan_bits;
use crate::double::is_zero_bits;
use crate::double::int_mag;
use crate::double::digits_val;
use crate::double::pow2n;
use crate::double::exp_field;
use crate::double::frac_field;
use crate::double::mag_trunc_sat;
use crate::double::mul_double;
use crate::double::parse_double;
use crate::double::pow_double;
use crate::double::rem_double;
use crate::double::render_double;
use crate::double::spec_pow;
use crate::double::sub_double;
use crate::text::char_repr;
use crate::text::digit_chars;
use crate::text::digit_char;
use crate::text::digits_of;
use crate::text::digits_ok;
use crate::text::dval;
use crate::text::ex_double_digits;
use crate::text::lemma_digit_chars_val;
use crate::text::lemma_digits_unique;
use crate::text::lemma_double_digits;
use crate::text::u64_digit_vec;
use crate::text::push_decimal;
use crate::text::render_char;
use crate::text::render_string;
use crate::text::repeat_seq;
use crate::text::repeat_str;
use crate::text::string_repr;
use crate::tokens::Operator;

verus! {

/// A runtime value.  `Number` holds the IEEE-754 encoding of a double.
#[derive(Debug)]
pub enum Object {
    Number(u64),
    Bool(bool),
    Str(String),
    Char(char),
}

/// The mathematical model of a runtime value.
pub enum SpecValue {
    Number(u64),
    Bool(bool),
    Str(Seq<char>),
    Char(char),
}

impl View for Object {
    type V = SpecValue;

    open spec fn view(&self) -> SpecValue {
        match self {
            Object::Number(b) => SpecValue::Number(*b),
            Object::Bool(b) => SpecValue::Bool(*b),
            Object::Str(s) => SpecValue::Str(s@),
            Object::Char(c) => SpecValue::Char(*c),
        }
    }
}

impl Clone for Object {
    /// A deep copy; the model of the copy is the model of the original.
    fn clone(&self) -> (r: Self)
        ensures
            r@ == self@,
    {
        match self {
            Object::Number(b) => Object::Number(*b),
            Object::Bool(b) => Object::Bool(*b),
            Object::Str(s) => Object::Str(s.clone()),
            Object::Char(c) => Object::Char(*c),
        }
    }
}

/// The dynamic type of a value, as named in error messages.
#[derive(Clone, Copy, PartialEq, Eq, Structural, Debug)]
pub enum ValueType {
    Number,
    Bool,
    Str,
    Char,
}

/// The dynamic type of a value.
pub trait TypeOf {
    fn type_of(&self) -> ValueType;
}

/// Raising to a power, for types that support it.
pub trait Pow<Rhs> {
    type Output;

    fn pow(self, rhs: Rhs) -> Self::Output;
}

pub open spec fn spec_type_of(v: SpecValue) -> ValueType {
    match v {
        SpecValue::Number(_) => ValueType::Number,
        SpecValue::Bool(_) => ValueType::Bool,
        SpecValue::Str(_) => ValueType::Str,
        SpecValue::Char(_) => ValueType::Char,
    }
}

impl TypeOf for Object {
    fn type_of(&self) -> (r: ValueType)
        ensures
            r == spec_type_of(self@),
    {
        match self {
            Object::Number(_) => ValueType::Number,
            Object::Bool(_) => ValueType::Bool,
            Object::Str(_) => ValueType::Str,
            Object::Char(_) => ValueType::Char,
        }
    }
}

impl ValueType {
    /// The type's name, as it appears in error messages.
    pub fn name(&self) -> (r: String)
        ensures
            r@ == spec_type_name(*self),
    {
        let mut out: String = String::new();
        match self {
            ValueType::Number => {
                out.push('N');
                out.push('u');
                out.push('m');
                out.push('b');
                out.push('e');
                out.push('r');
            },
            ValueType::Bool => {
                out.push('B');
                out.push('o');
                out.push('o');
                out.push('l');
            },
            ValueType::Str => {
                out.push('S');
                out.push('t');
                out.push('r');
                out.push('i');
                out.push('n');
                out.push('g');
            },
            ValueType::Char => {
                out.push('C');
                out.push('h');
                out.push('a');
                out.push('r');
            },
        }
        proof {
            assert(out@ =~= spec_type_name(*self));
        }
        out
    }
}

pub open spec fn spec_type_name(t: ValueType) -> Seq<char> {
    match t {
        ValueType::Number => seq!['N', 'u', 'm', 'b', 'e', 'r'],
        ValueType::Bool => seq!['B', 'o', 'o', 'l'],
        ValueType::Str => seq!['S', 't', 'r', 'i', 'n', 'g'],
        ValueType::Char => seq!['C', 'h', 'a', 'r'],
    }
}

/// A failure during evaluation.
#[derive(Debug)]
pub enum RuntimeError {
    UnsupportedOperator(Operator, ValueType, ValueType),
    UnsupportedUnary(Operator, ValueType),
    UndefinedVariable(String),
    FractionalRepeatCount,
    NotIndexable(ValueType),
}

/// The mathematical model of a runtime error.
pub enum SpecRuntimeError {
    UnsupportedOperator(Operator, ValueType, ValueType),
    UnsupportedUnary(Operator, ValueType),
    UndefinedVariable(Seq<char>),
    FractionalRepeatCount,
    NotIndexable(ValueType),
}

impl View for RuntimeError {
    type V = SpecRuntimeError;

    open spec fn view(&self) -> SpecRuntimeError {
        match self {
            RuntimeError::UnsupportedOperator(op, a, b) => SpecRuntimeError::UnsupportedOperator(
                *op,
                *a,
                *b,
            ),
            RuntimeError::UnsupportedUnary(op, a) => SpecRuntimeError::UnsupportedUnary(*op, *a),
            RuntimeError::UndefinedVariable(n) => SpecRuntimeError::UndefinedVariable(n@),
            RuntimeError::FractionalRepeatCount => SpecRuntimeError::FractionalRepeatCount,
            RuntimeError::NotIndexable(t) => SpecRuntimeError::NotIndexable(*t),
        }
    }
}

/// The result type of every operator.
pub type SpecOpResult = Result<SpecValue, SpecRuntimeError>;

/// A boolean coerced to a number: `1.0` or `0.0`.
pub open spec fn bool_bits(b: bool) -> u64 {
    if b {
        BITS_ONE
    } else {
        BITS_ZERO
    }
}

pub fn ex_bool_bits(b: bool) -> (r: u64)
    ensures
        r == bool_bits(b),
{
    if b {
        BITS_ONE
    } else {
        BITS_ZERO
    }
}

/// The textual form of a boolean.
pub open spec fn bool_chars(b: bool) -> Seq<char> {
    if b {
        seq!['t', 'r', 'u', 'e']
    } else {
        seq!['f', 'a', 'l', 's', 'e']
    }
}

fn push_bool_chars(b: bool, out: &mut String)
    ensures
        final(out)@ == old(out)@ + bool_chars(b),
{
    if b {
        out.push('t');
        out.push('r');
        out.push('u');
        out.push('e');
    } else {
        out.push('f');
        out.push('a');
        out.push('l');
        out.push('s');
        out.push('e');
    }
    assert(out@ =~= old(out)@ + bool_chars(b));
}

/// A character reduced to its low byte, as Rust's `as u8` does.
pub open spec fn char_byte(c: char) -> u8 {
    ((c as int) % 256) as u8
}

pub fn ex_char_byte(c: char) -> (r: u8)
    ensures
        r == char_byte(c),
{
    ((c as u32) % 256) as u8
}

/// The character for a byte (every byte is a valid character).
pub open spec fn byte_char(b: u8) -> char {
    b as char
}

/// The rendering of a number: `NaN`, signed `inf`, the exact decimal
/// expansion of any integral double, and the software float's decimal form
/// for the rest.  A shortest-digits printer would pad very large integral
/// values with zeros; the exact expansion prints their full digits, and
/// both read back to the same double.  Non-integral values take the
/// software float's form, which may carry seventeen significant digits or
/// scientific notation where a shortest-digits printer would stop early.
pub open spec fn render_number(b: u64) -> Seq<char> {
    if is_nan_bits(b) {
        seq!['N', 'a', 'N']
    } else if crate::double::is_inf_bits(b) {
        if crate::double::sign_bit_set(b) {
            seq!['-', 'i', 'n', 'f']
        } else {
            seq!['i', 'n', 'f']
        }
    } else if is_integral_bits(b) {
        if crate::double::sign_bit_set(b) {
            seq!['-'] + digits_of(int_mag(b))
        } else {
            digits_of(int_mag(b))
        }
    } else {
        dbl_render(b)
    }
}

/// Renders a number as text.
pub fn render_number_exec(b: u64) -> (r: String)
    ensures
        r@ == render_number(b),
{
    if ex_is_nan(b) {
        let mut out: String = String::new();
        out.push('N');
        out.push('a');
        out.push('N');
        proof {
            assert(out@ =~= render_number(b));
        }
        out
    } else if crate::double::ex_is_inf(b) {
        let mut out: String = String::new();
        if ex_sign_bit_set(b) {
            out.push('-');
        }
        out.push('i');
        out.push('n');
        out.push('f');
        proof {
            assert(out@ =~= render_number(b));
        }
        out
    } else if ex_is_integral(b) {
        let e: u64 = (b >> 52u64) & 0x7FF;
        if e <= 1075 {
            let mag: u64 = crate::double::ex_mag_trunc_sat(b);
            let mut out: String = String::new();
            if ex_sign_bit_set(b) {
                out.push('-');
            }
            push_decimal(mag, &mut out);
            proof {
                assert(int_mag(b) == mag_trunc_sat(b) as nat);
                assert(out@ =~= render_number(b));
            }
            out
        } else {
            render_big_integral(b)
        }
    } else {
        render_double(b)
    }
}

/// Renders an integral double whose exponent puts it above the significand
/// width: the significand's digits doubled once per binary exponent step,
/// an exact decimal expansion.
fn render_big_integral(b: u64) -> (r: String)
    requires
        is_integral_bits(b),
        exp_field(b) > 1075,
    ensures
        r@ == render_number(b),
{
    let e: u64 = (b >> 52u64) & 0x7FF;
    let sig: u64 = crate::double::HIDDEN_BIT | (b & crate::double::FRAC_MASK);
    proof {
        assert(sig >= 0x0010_0000_0000_0000u64) by (bit_vector)
            requires
                sig == 0x0010_0000_0000_0000u64 | (b & 0x000F_FFFF_FFFF_FFFFu64),
        ;
    }
    let k: u64 = e - 1075;
    let mut dv: Vec<u64> = u64_digit_vec(sig);
    let mut j: u64 = 0;
    proof {
        assert(pow2n(0) == 1);
        assert((sig as nat) * pow2n(0) == sig as nat);
    }
    while j < k
        invariant
            j <= k,
            exp_field(b) > 1075,
            e == exp_field(b),
            sig == crate::double::HIDDEN_BIT | frac_field(b),
            sig > 0,
            k == e - 1075,
            digits_ok(dv@),
            dv@.len() >= 1,
            dv@[0] != 0,
            dval(dv@) == (sig as nat) * pow2n(j as nat),
        decreases k - j,
    {
        let ln: usize = dv.len();
        proof {
            assert(dv@.take(ln as int) =~= dv@);
        }
        let dv2: Vec<u64> = ex_double_digits(&dv, ln, 0);
        proof {
            lemma_double_digits(dv@, 0);
            assert(dval(dv2@) == 2 * dval(dv@));
            assert(pow2n((j + 1) as nat) == 2 * pow2n(j as nat));
            assert(2 * ((sig as nat) * pow2n(j as nat)) == (sig as nat) * (2 * pow2n(
                j as nat,
            ))) by (nonlinear_arith);
        }
        dv = dv2;
        j = j + 1;
    }
    proof {
        assert(int_mag(b) == (sig as nat) * pow2n(k as nat));
    }
    let mut out: String = String::new();
    if ex_sign_bit_set(b) {
        out.push('-');
    }
    let ghost head: Seq<char> = out@;
    let mut idx: usize = 0;
    proof {
        assert(digit_chars(dv@.take(0)) =~= Seq::<char>::empty());
        assert(out@ =~= head + digit_chars(dv@.take(0)));
    }
    while idx < dv.len()
        invariant
            idx <= dv@.len(),
            digits_ok(dv@),
            out@ == head + digit_chars(dv@.take(idx as int)),
        decreases dv@.len() - idx,
    {
        let d: u64 = dv[idx];
        out.push(((48 + d) as u8) as char);
        idx = idx + 1;
        proof {
            assert(((48 + d) as u8) as char == digit_char(d as nat));
            assert(digit_chars(dv@.take(idx as int)) =~= digit_chars(
                dv@.take(idx - 1),
            ).push(digit_char(dv@[idx - 1] as nat)));
            assert(out@ =~= head + digit_chars(dv@.take(idx as int)));
        }
    }
    proof {
        assert(dv@.take(dv@.len() as int) =~= dv@);
        lemma_digit_chars_val(dv@);
        assert(digits_val(digit_chars(dv@)) == int_mag(b));
        assert(digit_chars(dv@)[0] == digit_char(dv@[0] as nat));
        assert(digit_char(dv@[0] as nat) as int == 48 + dv@[0]);
        assert(digit_chars(dv@)[0] != '0');
        lemma_digits_unique(digit_chars(dv@), int_mag(b));
        assert(out@ =~= head + digits_of(int_mag(b)));
        assert(out@ =~= render_number(b));
    }
    out
}

/// An ASCII upper-case letter lowered; anything else unchanged.
pub open spec fn lower_char(c: char) -> char {
    if 65 <= c as int <= 90 {
        ((c as int + 32) as u8) as char
    } else {
        c
    }
}

/// Case-insensitive match of `s` against the lower-case word `w`.
pub open spec fn ci_is(s: Seq<char>, w: Seq<char>) -> bool {
    s.len() == w.len() && forall|i: int| 0 <= i < s.len() ==> lower_char(#[trigger] s[i]) == w[i]
}

/// Whether a string starts with an explicit sign.
pub open spec fn has_sign(s: Seq<char>) -> bool {
    s.len() > 0 && (s[0] == '+' || s[0] == '-')
}

/// The number a string coerces to: an optional sign followed by `inf`,
/// `infinity` or `nan` in any case is the named value; a hexadecimal
/// prefix is not a number; anything else goes through the decimal parser,
/// with NaN where it does not parse.
pub open spec fn str_num_bits(s: Seq<char>) -> u64 {
    let neg = s.len() > 0 && s[0] == '-';
    let rest = if has_sign(s) {
        s.skip(1)
    } else {
        s
    };
    if ci_is(rest, seq!['i', 'n', 'f']) || ci_is(
        rest,
        seq!['i', 'n', 'f', 'i', 'n', 'i', 't', 'y'],
    ) {
        if neg {
            crate::double::BITS_NEG_INF
        } else {
            crate::double::BITS_INF
        }
    } else if ci_is(rest, seq!['n', 'a', 'n']) {
        BITS_NAN
    } else if rest.len() >= 2 && rest[0] == '0' && (rest[1] == 'x' || rest[1] == 'X') {
        BITS_NAN
    } else {
        match dbl_of_decimal(s) {
            Some(b) => b,
            None => BITS_NAN,
        }
    }
}

/// A value coerced to a number: booleans as `1.0`/`0.0`, strings parsed
/// (NaN where unparsable), characters as their code point.
pub open spec fn spec_num(v: SpecValue) -> u64 {
    match v {
        SpecValue::Number(b) => b,
        SpecValue::Bool(b) => bool_bits(b),
        SpecValue::Str(s) => str_num_bits(s),
        SpecValue::Char(c) => enc_u64(c as u64),
    }
}

/// Whether the character at `at` lowers to `w`.
fn ci_char_at(s: &str, at: usize, w: char) -> (r: bool)
    requires
        at < s@.len(),
    ensures
        r == (lower_char(s@[at as int]) == w),
{
    let u: u32 = s.get_char(at) as u32;
    let l: u32 = if 65 <= u && u <= 90 {
        u + 32
    } else {
        u
    };
    l == (w as u32)
}

/// Whether the tail of `s` from `off` is the lower-case word `w`, compared
/// case-insensitively.
fn ci_tail_is(s: &str, off: usize, w: &str) -> (r: bool)
    requires
        off <= s@.len(),
    ensures
        r == ci_is(s@.skip(off as int), w@),
{
    let n: usize = s.unicode_len();
    let m: usize = w.unicode_len();
    if n - off != m {
        return false;
    }
    let mut k: usize = 0;
    while k < m
        invariant
            k <= m,
            off + m <= n,
            n == s@.len(),
            m == w@.len(),
            forall|j: int| 0 <= j < k ==> lower_char(#[trigger] s@[off + j]) == w@[j],
        decreases m - k,
    {
        if !ci_char_at(s, off + k, w.get_char(k)) {
            proof {
                assert(s@.skip(off as int)[k as int] == s@[off + k as int]);
            }
            return false;
        }
        k = k + 1;
    }
    proof {
        assert forall|j: int| 0 <= j < m implies lower_char(
            #[trigger] s@.skip(off as int)[j]) == w@[j] by {
            assert(s@.skip(off as int)[j] == s@[off + j]);
        }
    }
    true
}

/// Coerces a string to a number, as `str_num_bits` says.
pub fn str_num(s: &str) -> (r: u64)
    ensures
        r == str_num_bits(s@),
{
    let n: usize = s.unicode_len();
    let signed: bool = n > 0 && (s.get_char(0) == '+' || s.get_char(0) == '-');
    let neg: bool = n > 0 && s.get_char(0) == '-';
    let off: usize = if signed {
        1
    } else {
        0
    };
    proof {
        if !signed {
            assert(s@.skip(0) =~= s@);
        }
        reveal_strlit("inf");
        reveal_strlit("infinity");
        reveal_strlit("nan");
        assert("inf"@ =~= seq!['i', 'n', 'f']);
        assert("infinity"@ =~= seq!['i', 'n', 'f', 'i', 'n', 'i', 't', 'y']);
        assert("nan"@ =~= seq!['n', 'a', 'n']);
    }
    if ci_tail_is(s, off, "inf") || ci_tail_is(s, off, "infinity") {
        if neg {
            crate::double::BITS_NEG_INF
        } else {
            crate::double::BITS_INF
        }
    } else if ci_tail_is(s, off, "nan") {
        BITS_NAN
    } else if n >= off + 2 && s.get_char(off) == '0' && (s.get_char(off + 1) == 'x' || s.get_char(
        off + 1,
    ) == 'X') {
        proof {
            assert(s@.skip(off as int)[0] == s@[off as int]);
            assert(s@.skip(off as int)[1] == s@[off + 1]);
        }
        BITS_NAN
    } else {
        proof {
            if s@.skip(off as int).len() >= 2 {
                assert(s@.skip(off as int)[0] == s@[off as int]);
                assert(s@.skip(off as int)[1] == s@[off + 1]);
            }
        }
        match parse_double(s) {
            Some(b) => b,
            None => BITS_NAN,
        }
    }
}

/// The lexicographic comparison of two character sequences.
pub open spec fn lex_cmp(a: Seq<char>, b: Seq<char>) -> FloatOrd
    decreases a.len(),
{
    if a.len() == 0 && b.len() == 0 {
        FloatOrd::Equal
    } else if a.len() == 0 {
        FloatOrd::Less
    } else if b.len() == 0 {
        FloatOrd::Greater
    } else if (a[0] as int) < (b[0] as int) {
        FloatOrd::Less
    } else if (a[0] as int) > (b[0] as int) {
        FloatOrd::Greater
    } else {
        lex_cmp(a.skip(1), b.skip(1))
    }
}

/// Compares two strings lexicographically.
pub fn str_lex_cmp(a: &str, b: &str) -> (r: FloatOrd)
    ensures
        r == lex_cmp(a@, b@),
{
    let na: usize = a.unicode_len();
    let nb: usize = b.unicode_len();
    let mut i: usize = 0;
    proof {
        assert(a@.skip(0) =~= a@);
        assert(b@.skip(0) =~= b@);
    }
    while i < na && i < nb
        invariant
            i <= na,
            i <= nb,
            na == a@.len(),
            nb == b@.len(),
            lex_cmp(a@, b@) == lex_cmp(a@.skip(i as int), b@.skip(i as int)),
        decreases na - i,
    {
        let ca: char = a.get_char(i);
        let cb: char = b.get_char(i);
        if (ca as u32) < (cb as u32) {
            return FloatOrd::Less;
        }
        if (ca as u32) > (cb as u32) {
            return FloatOrd::Greater;
        }
        i = i + 1;
        proof {
            assert(a@.skip(i - 1).len() > 0);
            assert(a@.skip(i - 1)[0] == a@[i - 1]);
            assert(b@.skip(i - 1)[0] == b@[i - 1]);
            assert(a@.skip(i - 1).skip(1) =~= a@.skip(i as int));
            assert(b@.skip(i - 1).skip(1) =~= b@.skip(i as int));
        }
    }
    proof {
        assert(a@.skip(i as int).len() == na - i);
        assert(b@.skip(i as int).len() == nb - i);
    }
    if i < nb {
        FloatOrd::Less
    } else if i < na {
        FloatOrd::Greater
    } else {
        FloatOrd::Equal
    }
}

/// The comparison of two values: numbers by IEEE ordering, a boolean
/// against a number as `1.0`/`0.0`, strings and characters by their text,
/// anything else unordered.
pub open spec fn spec_cmp(a: SpecValue, b: SpecValue) -> FloatOrd {
    match (a, b) {
        (SpecValue::Number(x), SpecValue::Number(y)) => dbl_cmp(x, y),
        (SpecValue::Number(x), SpecValue::Bool(y)) => dbl_cmp(x, bool_bits(y)),
        (SpecValue::Bool(x), SpecValue::Number(y)) => dbl_cmp(bool_bits(x), y),
        (SpecValue::Bool(x), SpecValue::Bool(y)) => if x == y {
            FloatOrd::Equal
        } else if !x {
            FloatOrd::Less
        } else {
            FloatOrd::Greater
        },
        (SpecValue::Str(x), SpecValue::Str(y)) => lex_cmp(x, y),
        (SpecValue::Char(x), SpecValue::Char(y)) => if (x as int) < (y as int) {
            FloatOrd::Less
        } else if x == y {
            FloatOrd::Equal
        } else {
            FloatOrd::Greater
        },
        _ => FloatOrd::Unordered,
    }
}

/// Compares two values, with the cross-type coercions of `spec_cmp`.
pub fn cmp_values(a: &Object, b: &Object) -> (r: FloatOrd)
    ensures
        r == spec_cmp(a@, b@),
{
    match (a, b) {
        (Object::Number(x), Object::Number(y)) => cmp_double(*x, *y),
        (Object::Number(x), Object::Bool(y)) => cmp_double(*x, ex_bool_bits(*y)),
        (Object::Bool(x), Object::Number(y)) => cmp_double(ex_bool_bits(*x), *y),
        (Object::Bool(x), Object::Bool(y)) => {
            if *x == *y {
                FloatOrd::Equal
            } else if !*x {
                FloatOrd::Less
            } else {
                FloatOrd::Greater
            }
        },
        (Object::Str(x), Object::Str(y)) => str_lex_cmp(x.as_str(), y.as_str()),
        (Object::Char(x), Object::Char(y)) => {
            if (*x as u32) < (*y as u32) {
                FloatOrd::Less
            } else if *x == *y {
                FloatOrd::Equal
            } else {
                FloatOrd::Greater
            }
        },
        _ => FloatOrd::Unordered,
    }
}


/// A byte sum that wraps, as the byte arithmetic on characters does.
pub open spec fn wrap_add_u8(x: u8, y: u8) -> u8 {
    ((x as int + y as int) % 256) as u8
}

pub fn ex_wrap_add_u8(x: u8, y: u8) -> (r: u8)
    ensures
        r == wrap_add_u8(x, y),
{
    (((x as u32) + (y as u32)) % 256) as u8
}

/// A byte difference that wraps.
pub open spec fn wrap_sub_u8(x: u8, y: u8) -> u8 {
    ((x as int + 256 - y as int) % 256) as u8
}

pub fn ex_wrap_sub_u8(x: u8, y: u8) -> (r: u8)
    ensures
        r == wrap_sub_u8(x, y),
{
    (((x as u32) + 256 - (y as u32)) % 256) as u8
}

/// The numeric coercion applied to a bitwise or shift operand: numbers as
/// themselves, booleans as `1.0`/`0.0`, nothing else.
pub open spec fn numeric_bits(v: SpecValue) -> Option<u64> {
    match v {
        SpecValue::Number(b) => Some(b),
        SpecValue::Bool(b) => Some(bool_bits(b)),
        _ => None,
    }
}

/// The concatenation of two strings.
fn concat2(a: &str, b: &str) -> (r: String)
    ensures
        r@ == a@ + b@,
{
    let mut out: String = String::new();
    out.append(a);
    out.append(b);
    proof {
        assert(out@ =~= a@ + b@);
    }
    out
}

/// The sum of two values.
pub open spec fn spec_add(a: SpecValue, b: SpecValue) -> SpecOpResult {
    match (a, b) {
        (SpecValue::Number(x), SpecValue::Number(y)) => Ok(SpecValue::Number(dbl_add(x, y))),
        (SpecValue::Number(x), SpecValue::Bool(y)) => Ok(SpecValue::Number(dbl_add(x, bool_bits(y)))),
        (SpecValue::Bool(x), SpecValue::Number(y)) => Ok(SpecValue::Number(dbl_add(bool_bits(x), y))),
        (SpecValue::Bool(x), SpecValue::Bool(y)) => Ok(
            SpecValue::Number(dbl_add(bool_bits(x), bool_bits(y))),
        ),
        (SpecValue::Number(x), SpecValue::Str(t)) => Ok(SpecValue::Str(render_number(x) + t)),
        (SpecValue::Bool(x), SpecValue::Str(t)) => Ok(SpecValue::Str(bool_chars(x) + t)),
        (SpecValue::Str(t1), SpecValue::Str(t2)) => Ok(SpecValue::Str(t1 + t2)),
        (SpecValue::Char(c), SpecValue::Str(t)) => Ok(SpecValue::Str(seq![c] + t)),
        (SpecValue::Str(t), SpecValue::Number(x)) => Ok(SpecValue::Str(t + render_number(x))),
        (SpecValue::Str(t), SpecValue::Bool(x)) => Ok(SpecValue::Str(t + bool_chars(x))),
        (SpecValue::Str(t), SpecValue::Char(c)) => Ok(SpecValue::Str(t.push(c))),
        (SpecValue::Char(c1), SpecValue::Char(c2)) => Ok(
            SpecValue::Char(byte_char(wrap_add_u8(char_byte(c1), char_byte(c2)))),
        ),
        (SpecValue::Number(x), SpecValue::Char(c)) => Ok(
            SpecValue::Char(byte_char(wrap_add_u8(cast_u8_bits(x), char_byte(c)))),
        ),
        (SpecValue::Char(c), SpecValue::Number(x)) => Ok(
            SpecValue::Char(byte_char(wrap_add_u8(cast_u8_bits(x), char_byte(c)))),
        ),
        _ => Err(
            SpecRuntimeError::UnsupportedOperator(Operator::Plus, spec_type_of(a), spec_type_of(b)),
        ),
    }
}

/// The difference of two values.
pub open spec fn spec_sub(a: SpecValue, b: SpecValue) -> SpecOpResult {
    match (a, b) {
        (SpecValue::Number(x), SpecValue::Number(y)) => Ok(SpecValue::Number(dbl_sub(x, y))),
        (SpecValue::Number(x), SpecValue::Bool(y)) => Ok(SpecValue::Number(dbl_sub(x, bool_bits(y)))),
        (SpecValue::Bool(x), SpecValue::Number(y)) => Ok(SpecValue::Number(dbl_sub(bool_bits(x), y))),
        (SpecValue::Bool(x), SpecValue::Bool(y)) => Ok(
            SpecValue::Number(dbl_sub(bool_bits(x), bool_bits(y))),
        ),
        (SpecValue::Str(_), SpecValue::Str(_)) => Ok(
            SpecValue::Number(dbl_sub(spec_num(a), spec_num(b))),
        ),
        (SpecValue::Number(_), SpecValue::Str(_)) => Ok(
            SpecValue::Number(dbl_sub(spec_num(a), spec_num(b))),
        ),
        (SpecValue::Bool(_), SpecValue::Str(_)) => Ok(
            SpecValue::Number(dbl_sub(spec_num(a), spec_num(b))),
        ),
        (SpecValue::Char(_), SpecValue::Str(_)) => Ok(
            SpecValue::Number(dbl_sub(spec_num(a), spec_num(b))),
        ),
        (SpecValue::Str(_), SpecValue::Number(_)) => Ok(
            SpecValue::Number(dbl_sub(spec_num(a), spec_num(b))),
        ),
        (SpecValue::Str(_), SpecValue::Bool(_)) => Ok(
            SpecValue::Number(dbl_sub(spec_num(a), spec_num(b))),
        ),
        (SpecValue::Str(_), SpecValue::Char(_)) => Ok(
            SpecValue::Number(dbl_sub(spec_num(a), spec_num(b))),
        ),
        (SpecValue::Char(c1), SpecValue::Char(c2)) => Ok(
            SpecValue::Char(byte_char(wrap_sub_u8(char_byte(c1), char_byte(c2)))),
        ),
        (SpecValue::Number(x), SpecValue::Char(c)) => Ok(
            SpecValue::Char(byte_char(wrap_sub_u8(cast_u8_bits(x), char_byte(c)))),
        ),
        (SpecValue::Char(c), SpecValue::Number(x)) => Ok(
            SpecValue::Char(byte_char(wrap_sub_u8(char_byte(c), cast_u8_bits(x)))),
        ),
        _ => Err(
            SpecRuntimeError::UnsupportedOperator(
                Operator::Minus,
                spec_type_of(a),
                spec_type_of(b),
            ),
        ),
    }
}

/// The product of two values; a string times a non-negative integral
/// number is that string repeated, and any other count is an error.
pub open spec fn spec_mul(a: SpecValue, b: SpecValue) -> SpecOpResult {
    match (a, b) {
        (SpecValue::Number(x), SpecValue::Number(y)) => Ok(SpecValue::Number(dbl_mul(x, y))),
        (SpecValue::Number(x), SpecValue::Bool(y)) => Ok(SpecValue::Number(dbl_mul(x, bool_bits(y)))),
        (SpecValue::Bool(x), SpecValue::Number(y)) => Ok(SpecValue::Number(dbl_mul(bool_bits(x), y))),
        (SpecValue::Bool(x), SpecValue::Bool(y)) => Ok(
            SpecValue::Number(dbl_mul(bool_bits(x), bool_bits(y))),
        ),
        (SpecValue::Number(x), SpecValue::Str(t)) => spec_repeat(x, t),
        (SpecValue::Str(t), SpecValue::Number(x)) => spec_repeat(x, t),
        _ => Err(
            SpecRuntimeError::UnsupportedOperator(Operator::Star, spec_type_of(a), spec_type_of(b)),
        ),
    }
}

/// A string repeated `x` times.  The count must be integral and
/// non-negative; a fractional or negative count is an error.  A count of
/// negative zero is numerically zero and repeats zero times.
pub open spec fn spec_repeat(x: u64, t: Seq<char>) -> SpecOpResult {
    if is_integral_bits(x) && (!crate::double::sign_bit_set(x) || is_zero_bits(x)) {
        Ok(SpecValue::Str(repeat_seq(t, cast_u64_bits(x) as nat)))
    } else {
        Err(SpecRuntimeError::FractionalRepeatCount)
    }
}

/// The quotient of two values; division by zero follows IEEE-754.
pub open spec fn spec_div(a: SpecValue, b: SpecValue) -> SpecOpResult {
    match (numeric_bits(a), numeric_bits(b)) {
        (Some(x), Some(y)) => Ok(SpecValue::Number(dbl_div(x, y))),
        _ => Err(
            SpecRuntimeError::UnsupportedOperator(
                Operator::Slash,
                spec_type_of(a),
                spec_type_of(b),
            ),
        ),
    }
}

/// One value raised to another; `0 ** 0` is NaN.
pub open spec fn spec_pow_op(a: SpecValue, b: SpecValue) -> SpecOpResult {
    match (numeric_bits(a), numeric_bits(b)) {
        (Some(x), Some(y)) => Ok(SpecValue::Number(spec_pow(x, y))),
        _ => Err(
            SpecRuntimeError::UnsupportedOperator(
                Operator::StarStar,
                spec_type_of(a),
                spec_type_of(b),
            ),
        ),
    }
}

/// The remainder of two values; a zero divisor yields NaN.
pub open spec fn spec_rem(a: SpecValue, b: SpecValue) -> SpecOpResult {
    match (numeric_bits(a), numeric_bits(b)) {
        (Some(x), Some(y)) => Ok(SpecValue::Number(dbl_rem(x, y))),
        _ => Err(
            SpecRuntimeError::UnsupportedOperator(
                Operator::Percent,
                spec_type_of(a),
                spec_type_of(b),
            ),
        ),
    }
}

/// Logical negation: zero and NaN are true, any other number false;
/// booleans negate; nothing else can be negated.
pub open spec fn spec_not(a: SpecValue) -> SpecOpResult {
    match a {
        SpecValue::Number(x) => Ok(SpecValue::Bool(is_zero_bits(x) || is_nan_bits(x))),
        SpecValue::Bool(b) => Ok(SpecValue::Bool(!b)),
        _ => Err(SpecRuntimeError::UnsupportedUnary(Operator::Exclamation, spec_type_of(a))),
    }
}

/// A bitwise operation: both operands to signed 64-bit integers, the
/// operation applied, the result back to a double.
pub open spec fn spec_bitop(op: Operator, a: SpecValue, b: SpecValue) -> SpecOpResult {
    match (numeric_bits(a), numeric_bits(b)) {
        (Some(x), Some(y)) => {
            let xi = cast_i64_bits(x);
            let yi = cast_i64_bits(y);
            let sh = cast_u32_bits(y) % 64;
            if op == Operator::Pipe {
                Ok(SpecValue::Number(enc_i64(xi | yi)))
            } else if op == Operator::Ampersand {
                Ok(SpecValue::Number(enc_i64(xi & yi)))
            } else if op == Operator::Caret {
                Ok(SpecValue::Number(enc_i64(xi ^ yi)))
            } else if op == Operator::GreaterGreater {
                Ok(SpecValue::Number(enc_i64(xi >> sh)))
            } else {
                Ok(SpecValue::Number(enc_i64(xi << sh)))
            }
        },
        _ => Err(SpecRuntimeError::UnsupportedOperator(op, spec_type_of(a), spec_type_of(b))),
    }
}

/// Equality: numbers and booleans by numeric value, strings and characters
/// by their text, every other pair unequal.
pub open spec fn spec_eq_vals(a: SpecValue, b: SpecValue) -> bool {
    match (a, b) {
        (SpecValue::Number(x), SpecValue::Number(y)) => dbl_cmp(x, y) is Equal,
        (SpecValue::Number(x), SpecValue::Bool(y)) => dbl_cmp(x, bool_bits(y)) is Equal,
        (SpecValue::Bool(x), SpecValue::Number(y)) => dbl_cmp(bool_bits(x), y) is Equal,
        (SpecValue::Bool(x), SpecValue::Bool(y)) => x == y,
        (SpecValue::Str(x), SpecValue::Str(y)) => x == y,
        (SpecValue::Char(x), SpecValue::Char(y)) => x == y,
        _ => false,
    }
}

/// Truthiness: a nonzero number, a true boolean, an empty string, or a
/// character other than NUL.
pub open spec fn spec_truthy(a: SpecValue) -> bool {
    match a {
        SpecValue::Number(x) => !is_zero_bits(x),
        SpecValue::Bool(b) => b,
        SpecValue::Str(s) => s.len() == 0,
        SpecValue::Char(c) => c != '\0',
    }
}

/// The canonical rendering of a value: numbers in decimal, booleans as
/// `true`/`false`, characters and strings quoted with escapes.
pub open spec fn spec_repr(a: SpecValue) -> Seq<char> {
    match a {
        SpecValue::Number(x) => render_number(x),
        SpecValue::Bool(b) => bool_chars(b),
        SpecValue::Str(s) => string_repr(s),
        SpecValue::Char(c) => char_repr(c),
    }
}

impl Object {
    /// Adds two values, by the coercion matrix of `spec_add`.
    pub fn add(&self, rhs: &Object) -> (r: Result<Object, RuntimeError>)
        ensures
            (match r {
                Ok(v) => spec_add(self@, rhs@) == Ok::<SpecValue, SpecRuntimeError>(v@),
                Err(e) => spec_add(self@, rhs@) == Err::<SpecValue, SpecRuntimeError>(e@),
            }),
    {
        match (self, rhs) {
            (Object::Number(x), Object::Number(y)) => Ok(Object::Number(add_double(*x, *y))),
            (Object::Number(x), Object::Bool(y)) => Ok(
                Object::Number(add_double(*x, ex_bool_bits(*y))),
            ),
            (Object::Bool(x), Object::Number(y)) => Ok(
                Object::Number(add_double(ex_bool_bits(*x), *y)),
            ),
            (Object::Bool(x), Object::Bool(y)) => Ok(
                Object::Number(add_double(ex_bool_bits(*x), ex_bool_bits(*y))),
            ),
            (Object::Number(x), Object::Str(t)) => {
                let xs: String = render_number_exec(*x);
                Ok(Object::Str(concat2(xs.as_str(), t.as_str())))
            },
            (Object::Bool(x), Object::Str(t)) => {
                let mut out: String = String::new();
                push_bool_chars(*x, &mut out);
                out.append(t.as_str());
                proof {
                    assert(out@ =~= bool_chars(self@->Bool_0) + t@);
                }
                Ok(Object::Str(out))
            },
            (Object::Str(t1), Object::Str(t2)) => Ok(
                Object::Str(concat2(t1.as_str(), t2.as_str())),
            ),
            (Object::Char(c), Object::Str(t)) => {
                let mut out: String = String::new();
                out.push(*c);
                out.append(t.as_str());
                proof {
                    assert(out@ =~= seq![self@->Char_0] + t@);
                }
                Ok(Object::Str(out))
            },
            (Object::Str(t), Object::Number(x)) => {
                let xs: String = render_number_exec(*x);
                Ok(Object::Str(concat2(t.as_str(), xs.as_str())))
            },
            (Object::Str(t), Object::Bool(x)) => {
                let mut out: String = t.clone();
                push_bool_chars(*x, &mut out);
                Ok(Object::Str(out))
            },
            (Object::Str(t), Object::Char(c)) => {
                let mut out: String = t.clone();
                out.push(*c);
                Ok(Object::Str(out))
            },
            (Object::Char(c1), Object::Char(c2)) => Ok(
                Object::Char(ex_wrap_add_u8(ex_char_byte(*c1), ex_char_byte(*c2)) as char),
            ),
            (Object::Number(x), Object::Char(c)) => Ok(
                Object::Char(ex_wrap_add_u8(ex_cast_u8(*x), ex_char_byte(*c)) as char),
            ),
            (Object::Char(c), Object::Number(x)) => Ok(
                Object::Char(ex_wrap_add_u8(ex_cast_u8(*x), ex_char_byte(*c)) as char),
            ),
            _ => Err(
                RuntimeError::UnsupportedOperator(
                    Operator::Plus,
                    self.type_of(),
                    rhs.type_of(),
                ),
            ),
        }
    }

    /// Coerces this value to a number.
    pub fn num(&self) -> (r: Result<u64, RuntimeError>)
        ensures
            (match r {
                Ok(b) => b == spec_num(self@),
                Err(_) => false,
            }),
    {
        match self {
            Object::Number(b) => Ok(*b),
            Object::Bool(b) => Ok(ex_bool_bits(*b)),
            Object::Str(s) => Ok(str_num(s.as_str())),
            Object::Char(c) => Ok(ex_enc_u64(*c as u64)),
        }
    }

    /// Subtracts two values, by the coercion matrix of `spec_sub`.
    pub fn sub(&self, rhs: &Object) -> (r: Result<Object, RuntimeError>)
        ensures
            (match r {
                Ok(v) => spec_sub(self@, rhs@) == Ok::<SpecValue, SpecRuntimeError>(v@),
                Err(e) => spec_sub(self@, rhs@) == Err::<SpecValue, SpecRuntimeError>(e@),
            }),
    {
        match (self, rhs) {
            (Object::Number(x), Object::Number(y)) => Ok(Object::Number(sub_double(*x, *y))),
            (Object::Number(x), Object::Bool(y)) => Ok(
                Object::Number(sub_double(*x, ex_bool_bits(*y))),
            ),
            (Object::Bool(x), Object::Number(y)) => Ok(
                Object::Number(sub_double(ex_bool_bits(*x), *y)),
            ),
            (Object::Bool(x), Object::Bool(y)) => Ok(
                Object::Number(sub_double(ex_bool_bits(*x), ex_bool_bits(*y))),
            ),
            (Object::Char(c1), Object::Char(c2)) => Ok(
                Object::Char(ex_wrap_sub_u8(ex_char_byte(*c1), ex_char_byte(*c2)) as char),
            ),
            (Object::Number(x), Object::Char(c)) => Ok(
                Object::Char(ex_wrap_sub_u8(ex_cast_u8(*x), ex_char_byte(*c)) as char),
            ),
            (Object::Char(c), Object::Number(x)) => Ok(
                Object::Char(ex_wrap_sub_u8(ex_char_byte(*c), ex_cast_u8(*x)) as char),
            ),
            (Object::Str(_), Object::Str(_)) => self.sub_via_num(rhs),
            (Object::Number(_), Object::Str(_)) => self.sub_via_num(rhs),
            (Object::Bool(_), Object::Str(_)) => self.sub_via_num(rhs),
            (Object::Char(_), Object::Str(_)) => self.sub_via_num(rhs),
            (Object::Str(_), Object::Number(_)) => self.sub_via_num(rhs),
            (Object::Str(_), Object::Bool(_)) => self.sub_via_num(rhs),
            (Object::Str(_), Object::Char(_)) => self.sub_via_num(rhs),
            _ => Err(
                RuntimeError::UnsupportedOperator(
                    Operator::Minus,
                    self.type_of(),
                    rhs.type_of(),
                ),
            ),
        }
    }

    /// Subtracts after coercing both operands to numbers.
    fn sub_via_num(&self, rhs: &Object) -> (r: Result<Object, RuntimeError>)
        ensures
            (match r {
                Ok(v) => v@ == SpecValue::Number(dbl_sub(spec_num(self@), spec_num(rhs@))),
                Err(_) => false,
            }),
    {
        let x: u64 = match self.num() {
            Ok(b) => b,
            Err(e) => {
                return Err(e);
            },
        };
        let y: u64 = match rhs.num() {
            Ok(b) => b,
            Err(e) => {
                return Err(e);
            },
        };
        Ok(Object::Number(sub_double(x, y)))
    }

    /// Multiplies two values, by the coercion matrix of `spec_mul`.
    pub fn mul(&self, rhs: &Object) -> (r: Result<Object, RuntimeError>)
        ensures
            (match r {
                Ok(v) => spec_mul(self@, rhs@) == Ok::<SpecValue, SpecRuntimeError>(v@),
                Err(e) => spec_mul(self@, rhs@) == Err::<SpecValue, SpecRuntimeError>(e@),
            }),
    {
        match (self, rhs) {
            (Object::Number(x), Object::Number(y)) => Ok(Object::Number(mul_double(*x, *y))),
            (Object::Number(x), Object::Bool(y)) => Ok(
                Object::Number(mul_double(*x, ex_bool_bits(*y))),
            ),
            (Object::Bool(x), Object::Number(y)) => Ok(
                Object::Number(mul_double(ex_bool_bits(*x), *y)),
            ),
            (Object::Bool(x), Object::Bool(y)) => Ok(
                Object::Number(mul_double(ex_bool_bits(*x), ex_bool_bits(*y))),
            ),
            (Object::Number(x), Object::Str(t)) => Self::repeat_value(*x, t),
            (Object::Str(t), Object::Number(x)) => Self::repeat_value(*x, t),
            _ => Err(
                RuntimeError::UnsupportedOperator(
                    Operator::Star,
                    self.type_of(),
                    rhs.type_of(),
                ),
            ),
        }
    }

    /// Repeats a string by an integral count.
    fn repeat_value(x: u64, t: &String) -> (r: Result<Object, RuntimeError>)
        ensures
            (match r {
                Ok(v) => spec_repeat(x, t@) == Ok::<SpecValue, SpecRuntimeError>(v@),
                Err(e) => spec_repeat(x, t@) == Err::<SpecValue, SpecRuntimeError>(e@),
            }),
    {
        if ex_is_integral(x) && (!ex_sign_bit_set(x) || ex_is_zero(x)) {
            Ok(Object::Str(repeat_str(t.as_str(), ex_cast_u64(x))))
        } else {
            Err(RuntimeError::FractionalRepeatCount)
        }
    }

    /// Divides two values; division by zero yields a signed infinity or
    /// NaN, never an error.
    pub fn div(&self, rhs: &Object) -> (r: Result<Object, RuntimeError>)
        ensures
            (match r {
                Ok(v) => spec_div(self@, rhs@) == Ok::<SpecValue, SpecRuntimeError>(v@),
                Err(e) => spec_div(self@, rhs@) == Err::<SpecValue, SpecRuntimeError>(e@),
            }),
    {
        match (self.numeric(), rhs.numeric()) {
            (Some(x), Some(y)) => Ok(Object::Number(div_double(x, y))),
            _ => Err(
                RuntimeError::UnsupportedOperator(
                    Operator::Slash,
                    self.type_of(),
                    rhs.type_of(),
                ),
            ),
        }
    }

    /// The numeric coercion of a number or boolean.
    fn numeric(&self) -> (r: Option<u64>)
        ensures
            r == numeric_bits(self@),
    {
        match self {
            Object::Number(b) => Some(*b),
            Object::Bool(b) => Some(ex_bool_bits(*b)),
            _ => None,
        }
    }

    /// Raises a value to a power; `0 ** 0` is NaN.
    pub fn pow(&self, rhs: &Object) -> (r: Result<Object, RuntimeError>)
        ensures
            (match r {
                Ok(v) => spec_pow_op(self@, rhs@) == Ok::<SpecValue, SpecRuntimeError>(v@),
                Err(e) => spec_pow_op(self@, rhs@) == Err::<SpecValue, SpecRuntimeError>(e@),
            }),
    {
        match (self.numeric(), rhs.numeric()) {
            (Some(x), Some(y)) => Ok(Object::Number(pow_double(x, y))),
            _ => Err(
                RuntimeError::UnsupportedOperator(
                    Operator::StarStar,
                    self.type_of(),
                    rhs.type_of(),
                ),
            ),
        }
    }

    /// The remainder of two values; a zero divisor yields NaN.
    pub fn rem(&self, rhs: &Object) -> (r: Result<Object, RuntimeError>)
        ensures
            (match r {
                Ok(v) => spec_rem(self@, rhs@) == Ok::<SpecValue, SpecRuntimeError>(v@),
                Err(e) => spec_rem(self@, rhs@) == Err::<SpecValue, SpecRuntimeError>(e@),
            }),
    {
        match (self.numeric(), rhs.numeric()) {
            (Some(x), Some(y)) => Ok(Object::Number(rem_double(x, y))),
            _ => Err(
                RuntimeError::UnsupportedOperator(
                    Operator::Percent,
                    self.type_of(),
                    rhs.type_of(),
                ),
            ),
        }
    }

    /// Logical negation.
    pub fn not(&self) -> (r: Result<Object, RuntimeError>)
        ensures
            (match r {
                Ok(v) => spec_not(self@) == Ok::<SpecValue, SpecRuntimeError>(v@),
                Err(e) => spec_not(self@) == Err::<SpecValue, SpecRuntimeError>(e@),
            }),
    {
        match self {
            Object::Number(x) => Ok(Object::Bool(ex_is_zero(*x) || ex_is_nan(*x))),
            Object::Bool(b) => Ok(Object::Bool(!*b)),
            _ => Err(RuntimeError::UnsupportedUnary(Operator::Exclamation, self.type_of())),
        }
    }

    /// A bitwise or shift operation over 64-bit integers.
    pub fn bitop(&self, op: Operator, rhs: &Object) -> (r: Result<Object, RuntimeError>)
        requires
            op == Operator::Pipe || op == Operator::Ampersand || op == Operator::Caret || op
                == Operator::GreaterGreater || op == Operator::LessLess,
        ensures
            (match r {
                Ok(v) => spec_bitop(op, self@, rhs@) == Ok::<SpecValue, SpecRuntimeError>(v@),
                Err(e) => spec_bitop(op, self@, rhs@) == Err::<SpecValue, SpecRuntimeError>(e@),
            }),
    {
        match (self.numeric(), rhs.numeric()) {
            (Some(x), Some(y)) => {
                let xi: i64 = ex_cast_i64(x);
                let yi: i64 = ex_cast_i64(y);
                let sh: u32 = ex_cast_u32(y) % 64;
                let z: i64 = match op {
                    Operator::Pipe => xi | yi,
                    Operator::Ampersand => xi & yi,
                    Operator::Caret => xi ^ yi,
                    Operator::GreaterGreater => xi >> sh,
                    _ => xi << sh,
                };
                Ok(Object::Number(ex_enc_i64(z)))
            },
            _ => Err(RuntimeError::UnsupportedOperator(op, self.type_of(), rhs.type_of())),
        }
    }

    /// Bitwise or.
    pub fn bitor(&self, rhs: &Object) -> (r: Result<Object, RuntimeError>)
        ensures
            (match r {
                Ok(v) => spec_bitop(Operator::Pipe, self@, rhs@) == Ok::<
                    SpecValue,
                    SpecRuntimeError,
                >(v@),
                Err(e) => spec_bitop(Operator::Pipe, self@, rhs@) == Err::<
                    SpecValue,
                    SpecRuntimeError,
                >(e@),
            }),
    {
        self.bitop(Operator::Pipe, rhs)
    }

    /// Bitwise and.
    pub fn bitand(&self, rhs: &Object) -> (r: Result<Object, RuntimeError>)
        ensures
            (match r {
                Ok(v) => spec_bitop(Operator::Ampersand, self@, rhs@) == Ok::<
                    SpecValue,
                    SpecRuntimeError,
                >(v@),
                Err(e) => spec_bitop(Operator::Ampersand, self@, rhs@) == Err::<
                    SpecValue,
                    SpecRuntimeError,
                >(e@),
            }),
    {
        self.bitop(Operator::Ampersand, rhs)
    }

    /// Bitwise exclusive or.
    pub fn bitxor(&self, rhs: &Object) -> (r: Result<Object, RuntimeError>)
        ensures
            (match r {
                Ok(v) => spec_bitop(Operator::Caret, self@, rhs@) == Ok::<
                    SpecValue,
                    SpecRuntimeError,
                >(v@),
                Err(e) => spec_bitop(Operator::Caret, self@, rhs@) == Err::<
                    SpecValue,
                    SpecRuntimeError,
                >(e@),
            }),
    {
        self.bitop(Operator::Caret, rhs)
    }

    /// Arithmetic shift right.
    pub fn shr(&self, rhs: &Object) -> (r: Result<Object, RuntimeError>)
        ensures
            (match r {
                Ok(v) => spec_bitop(Operator::GreaterGreater, self@, rhs@) == Ok::<
                    SpecValue,
                    SpecRuntimeError,
                >(v@),
                Err(e) => spec_bitop(Operator::GreaterGreater, self@, rhs@) == Err::<
                    SpecValue,
                    SpecRuntimeError,
                >(e@),
            }),
    {
        self.bitop(Operator::GreaterGreater, rhs)
    }

    /// Shift left.
    pub fn shl(&self, rhs: &Object) -> (r: Result<Object, RuntimeError>)
        ensures
            (match r {
                Ok(v) => spec_bitop(Operator::LessLess, self@, rhs@) == Ok::<
                    SpecValue,
                    SpecRuntimeError,
                >(v@),
                Err(e) => spec_bitop(Operator::LessLess, self@, rhs@) == Err::<
                    SpecValue,
                    SpecRuntimeError,
                >(e@),
            }),
    {
        self.bitop(Operator::LessLess, rhs)
    }

    /// Equality, with number/boolean coercion; `NaN == NaN` is false.
    pub fn eq(&self, other: &Object) -> (r: Object)
        ensures
            r@ == SpecValue::Bool(spec_eq_vals(self@, other@)),
    {
        match (self, other) {
            (Object::Number(x), Object::Number(y)) => Object::Bool(
                cmp_double(*x, *y) == FloatOrd::Equal,
            ),
            (Object::Number(x), Object::Bool(y)) => Object::Bool(
                cmp_double(*x, ex_bool_bits(*y)) == FloatOrd::Equal,
            ),
            (Object::Bool(x), Object::Number(y)) => Object::Bool(
                cmp_double(ex_bool_bits(*x), *y) == FloatOrd::Equal,
            ),
            (Object::Bool(x), Object::Bool(y)) => Object::Bool(*x == *y),
            (Object::Str(x), Object::Str(y)) => Object::Bool(x.eq(y)),
            (Object::Char(x), Object::Char(y)) => Object::Bool(*x == *y),
            _ => Object::Bool(false),
        }
    }

    /// Inequality: the negation of `eq`.
    pub fn ne(&self, other: &Object) -> (r: Object)
        ensures
            r@ == SpecValue::Bool(!spec_eq_vals(self@, other@)),
    {
        match self.eq(other) {
            Object::Bool(b) => Object::Bool(!b),
            v => v,
        }
    }

    /// Strictly greater, under the partial order of `spec_cmp`.
    pub fn gt(&self, other: &Object) -> (r: Object)
        ensures
            r@ == SpecValue::Bool(spec_cmp(self@, other@) is Greater),
    {
        Object::Bool(cmp_values(self, other) == FloatOrd::Greater)
    }

    /// Strictly less, under the partial order of `spec_cmp`.
    pub fn lt(&self, other: &Object) -> (r: Object)
        ensures
            r@ == SpecValue::Bool(spec_cmp(self@, other@) is Less),
    {
        Object::Bool(cmp_values(self, other) == FloatOrd::Less)
    }

    /// Greater or equal, under the partial order of `spec_cmp`.
    pub fn gte(&self, other: &Object) -> (r: Object)
        ensures
            r@ == SpecValue::Bool(
                spec_cmp(self@, other@) is Greater || spec_cmp(self@, other@) is Equal,
            ),
    {
        let c: FloatOrd = cmp_values(self, other);
        Object::Bool(c == FloatOrd::Greater || c == FloatOrd::Equal)
    }

    /// Less or equal, under the partial order of `spec_cmp`.
    pub fn lte(&self, other: &Object) -> (r: Object)
        ensures
            r@ == SpecValue::Bool(
                spec_cmp(self@, other@) is Less || spec_cmp(self@, other@) is Equal,
            ),
    {
        let c: FloatOrd = cmp_values(self, other);
        Object::Bool(c == FloatOrd::Less || c == FloatOrd::Equal)
    }

    /// No value can be indexed.
    pub fn idx(&self, index: i64) -> (r: Result<Object, RuntimeError>)
        ensures
            (match r {
                Ok(_) => false,
                Err(e) => e@ == SpecRuntimeError::NotIndexable(spec_type_of(self@)),
            }),
    {
        let _ = index;
        Err(RuntimeError::NotIndexable(self.type_of()))
    }

    /// Truthiness.
    pub fn truthy(&self) -> (r: bool)
        ensures
            r == spec_truthy(self@),
    {
        match self {
            Object::Number(x) => !ex_is_zero(*x),
            Object::Bool(b) => *b,
            Object::Str(s) => s.as_str().unicode_len() == 0,
            Object::Char(c) => *c != '\0',
        }
    }

    /// The display form of a value: the same as `repr`.
    pub fn text(&self) -> (r: String)
        ensures
            r@ == spec_repr(self@),
    {
        self.repr()
    }

    /// The canonical rendering of a value.
    pub fn repr(&self) -> (r: String)
        ensures
            r@ == spec_repr(self@),
    {
        match self {
            Object::Number(x) => render_number_exec(*x),
            Object::Bool(b) => {
                let mut out: String = String::new();
                push_bool_chars(*b, &mut out);
                proof {
                    assert(out@ =~= bool_chars(self@->Bool_0));
                }
                out
            },
            Object::Str(s) => render_string(s.as_str()),
            Object::Char(c) => render_char(*c),
        }
    }
}


impl Pow<&Object> for &Object {
    type Output = Result<Object, RuntimeError>;

    /// The same power operation as `Object::pow`.
    fn pow(self, rhs: &Object) -> (r: Result<Object, RuntimeError>)
        ensures
            (match r {
                Ok(v) => spec_pow_op(self@, rhs@) == Ok::<SpecValue, SpecRuntimeError>(v@),
                Err(e) => spec_pow_op(self@, rhs@) == Err::<SpecValue, SpecRuntimeError>(e@),
            }),
    {
        Object::pow(self, rhs)
    }
}

} // verus!
