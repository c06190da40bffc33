//! Small verified text-building helpers: decimal digits, string repetition
//! and the escaping used by `repr`.

use vstd::prelude::*;
use crate::double::is_digit_char;
use crate::double::digits_val;
use crate::double::all_digits;
use vstd::string::StringExecFns;
use vstd::string::StrSliceExecFns;

verus! {

/// Relies on `String::push` from std: appends the given character to the
/// end of the string.
pub assume_specification[ String::push ](s: &mut String, c: char)
    ensures
        final(s)@ == old(s)@.push(c),
;

/// The character for the decimal digit `d`.
pub open spec fn digit_char(d: nat) -> char {
    ((48 + d) as u8) as char
}

/// The decimal digits of `n`, most significant first.
pub open spec fn digits_of(n: nat) -> Seq<char>
    decreases n,
{
    if n < 10 {
        seq![digit_char(n)]
    } else {
        digits_of(n / 10).push(digit_char(n % 10))
    }
}

/// Writing `n` in decimal and reading the digits back yields `n`.
pub proof fn lemma_digits_of_val(n: nat)
    ensures
        digits_val(digits_of(n)) == n,
        digits_of(n).len() >= 1,
        all_digits_of(n),
    decreases n,
{
    if n < 10 {
        assert(digit_char(n) as int == 48 + n);
        assert(is_digit_char(digit_char(n)));
        assert(digits_of(n) == seq![digit_char(n)]);
        assert(digits_of(n).drop_last() =~= Seq::<char>::empty());
        assert(digits_val(Seq::<char>::empty()) == 0);
        assert(digits_of(n).last() == digit_char(n));
        assert(digits_val(digits_of(n)) == n);
    } else {
        lemma_digits_of_val(n / 10);
        assert(digit_char(n % 10) as int == 48 + n % 10);
        assert(is_digit_char(digit_char(n % 10)));
        assert(digits_of(n).drop_last() =~= digits_of(n / 10));
        assert(digits_val(digits_of(n)) == digits_val(digits_of(n / 10)) * 10 + n % 10);
        assert forall|i: int| 0 <= i < digits_of(n).len() implies is_digit_char(
            #[trigger] digits_of(n)[i]) by {
            if i < digits_of(n).len() - 1 {
                assert(digits_of(n)[i] == digits_of(n / 10)[i]);
            }
        }
    }
}

/// Every character `digits_of` produces is a digit.
pub open spec fn all_digits_of(n: nat) -> bool {
    forall|i: int| 0 <= i < digits_of(n).len() ==> is_digit_char(#[trigger] digits_of(n)[i])
}

pub fn push_decimal(n: u64, out: &mut String)
    ensures
        final(out)@ == old(out)@ + digits_of(n as nat),
    decreases n,
{
    if n < 10 {
        let c: char = ((48 + n) as u8) as char;
        out.push(c);
        assert(old(out)@ + digits_of(n as nat) =~= old(out)@.push(digit_char(n as nat)));
    } else {
        push_decimal(n / 10, out);
        let c: char = ((48 + n % 10) as u8) as char;
        out.push(c);
        assert(old(out)@ + digits_of(n as nat) =~= (old(out)@ + digits_of(n as nat / 10)).push(
            digit_char(n as nat % 10)));
    }
}

/// `s` repeated `n` times.
pub open spec fn repeat_seq(s: Seq<char>, n: nat) -> Seq<char>
    decreases n,
{
    if n == 0 {
        Seq::empty()
    } else {
        repeat_seq(s, (n - 1) as nat) + s
    }
}

pub fn repeat_str(s: &str, n: u64) -> (r: String)
    ensures
        r@ == repeat_seq(s@, n as nat),
{
    let mut out: String = String::new();
    assert(out@ =~= repeat_seq(s@, 0));
    let mut i: u64 = 0;
    while i < n
        invariant
            i <= n,
            out@ == repeat_seq(s@, i as nat),
        decreases n - i,
    {
        out.append(s);
        i = i + 1;
        assert(repeat_seq(s@, i as nat) == repeat_seq(s@, (i - 1) as nat) + s@);
    }
    out
}

/// How `c` appears inside a character literal's quotes.
pub open spec fn char_escape(c: char) -> Seq<char> {
    if c == '\n' {
        seq!['\\', 'n']
    } else if c == '\r' {
        seq!['\\', 'r']
    } else if c == '\t' {
        seq!['\\', 't']
    } else if c == '\0' {
        seq!['\\', '0']
    } else if c == '\\' {
        seq!['\\', '\\']
    } else if c == '\'' {
        seq!['\\', '\'']
    } else {
        seq![c]
    }
}

/// How `c` appears inside a string literal's quotes.
pub open spec fn string_escape(c: char) -> Seq<char> {
    if c == '\n' {
        seq!['\\', 'n']
    } else if c == '\r' {
        seq!['\\', 'r']
    } else if c == '\t' {
        seq!['\\', 't']
    } else if c == '\0' {
        seq!['\\', '0']
    } else if c == '\\' {
        seq!['\\', '\\']
    } else if c == '"' {
        seq!['\\', '"']
    } else {
        seq![c]
    }
}

/// The quoted form of a character value.
pub open spec fn char_repr(c: char) -> Seq<char> {
    seq!['\''] + char_escape(c) + seq!['\'']
}

/// The escaped body of a quoted string value.
pub open spec fn string_body(s: Seq<char>) -> Seq<char>
    decreases s.len(),
{
    if s.len() == 0 {
        Seq::empty()
    } else {
        string_body(s.drop_last()) + string_escape(s.last())
    }
}

/// The quoted form of a string value.
pub open spec fn string_repr(s: Seq<char>) -> Seq<char> {
    seq!['"'] + string_body(s) + seq!['"']
}

fn push_char_escape(c: char, out: &mut String)
    ensures
        final(out)@ == old(out)@ + char_escape(c),
{
    if c == '\n' {
        out.push('\\');
        out.push('n');
    } else if c == '\r' {
        out.push('\\');
        out.push('r');
    } else if c == '\t' {
        out.push('\\');
        out.push('t');
    } else if c == '\0' {
        out.push('\\');
        out.push('0');
    } else if c == '\\' {
        out.push('\\');
        out.push('\\');
    } else if c == '\'' {
        out.push('\\');
        out.push('\'');
    } else {
        out.push(c);
    }
    assert(out@ =~= old(out)@ + char_escape(c));
}

fn push_string_escape(c: char, out: &mut String)
    ensures
        final(out)@ == old(out)@ + string_escape(c),
{
    if c == '\n' {
        out.push('\\');
        out.push('n');
    } else if c == '\r' {
        out.push('\\');
        out.push('r');
    } else if c == '\t' {
        out.push('\\');
        out.push('t');
    } else if c == '\0' {
        out.push('\\');
        out.push('0');
    } else if c == '\\' {
        out.push('\\');
        out.push('\\');
    } else if c == '"' {
        out.push('\\');
        out.push('"');
    } else {
        out.push(c);
    }
    assert(out@ =~= old(out)@ + string_escape(c));
}

/// The quoted, escaped rendering of a character value.
pub fn render_char(c: char) -> (r: String)
    ensures
        r@ == char_repr(c),
{
    let mut out: String = String::new();
    out.push('\'');
    push_char_escape(c, &mut out);
    out.push('\'');
    assert(out@ =~= char_repr(c));
    out
}

/// The quoted, escaped rendering of a string value.
pub fn render_string(s: &str) -> (r: String)
    ensures
        r@ == string_repr(s@),
{
    let mut out: String = String::new();
    out.push('"');
    let n: usize = s.unicode_len();
    let mut i: usize = 0;
    assert(s@.subrange(0, 0) =~= Seq::<char>::empty());
    while i < n
        invariant
            i <= n,
            n == s@.len(),
            out@ == seq!['"'] + string_body(s@.subrange(0, i as int)),
        decreases n - i,
    {
        let c: char = s.get_char(i);
        push_string_escape(c, &mut out);
        i = i + 1;
        assert(s@.subrange(0, i as int).drop_last() =~= s@.subrange(0, i - 1));
        assert(s@.subrange(0, i as int).last() == s@[i - 1]);
    }
    assert(s@.subrange(0, n as int) =~= s@);
    out.push('"');
    assert(out@ =~= string_repr(s@));
    out
}


/// Character-by-character string equality.
pub fn str_eq(a: &str, b: &str) -> (r: bool)
    ensures
        r == (a@ == b@),
{
    let n: usize = a.unicode_len();
    let m: usize = b.unicode_len();
    if n != m {
        return false;
    }
    let mut k: usize = 0;
    while k < n
        invariant
            k <= n,
            n == a@.len(),
            n == b@.len(),
            forall|j: int| 0 <= j < k ==> a@[j] == b@[j],
        decreases n - k,
    {
        if a.get_char(k) != b.get_char(k) {
            return false;
        }
        k = k + 1;
    }
    proof {
        assert(a@ =~= b@);
    }
    true
}


/// Digit values (each below ten), most significant first.
pub open spec fn digits_ok(s: Seq<u64>) -> bool {
    forall|i: int| 0 <= i < s.len() ==> #[trigger] s[i] < 10
}

/// The value of a sequence of digit values, most significant first.
pub open spec fn dval(s: Seq<u64>) -> nat
    decreases s.len(),
{
    if s.len() == 0 {
        0
    } else {
        dval(s.drop_last()) * 10 + (if s.last() < 10 {
            s.last() as nat
        } else {
            0
        })
    }
}

/// The digit sequence doubled, with a carry added at the least significant
/// end.
pub open spec fn double_digits(s: Seq<u64>, c: u64) -> Seq<u64>
    decreases s.len(),
{
    if s.len() == 0 {
        if c > 0 {
            seq![c]
        } else {
            Seq::empty()
        }
    } else {
        let t = 2 * (s.last() as int) + c;
        double_digits(s.drop_last(), (t / 10) as u64).push((t % 10) as u64)
    }
}

/// Doubling a digit sequence doubles its value (plus the incoming carry),
/// keeps the digits below ten, and keeps the leading digit nonzero.
pub proof fn lemma_double_digits(s: Seq<u64>, c: u64)
    requires
        digits_ok(s),
        c <= 1,
    ensures
        digits_ok(double_digits(s, c)),
        dval(double_digits(s, c)) == 2 * dval(s) + c,
        double_digits(s, c).len() >= s.len(),
        dval(double_digits(s, c)) > 0 ==> double_digits(s, c).len() > 0,
        s.len() > 0 && s[0] != 0 ==> double_digits(s, c).len() > 0 && double_digits(s, c)[0]
            != 0,
    decreases s.len(),
{
    let r = double_digits(s, c);
    if s.len() == 0 {
        if c > 0 {
            assert(r =~= seq![c]);
            assert(r.drop_last() =~= Seq::<u64>::empty());
            assert(dval(Seq::<u64>::empty()) == 0);
            assert(r.last() == c);
            assert(dval(r) == c);
        } else {
            assert(dval(r) == 0);
        }
    } else {
        let t = 2 * (s.last() as int) + c;
        let carry = (t / 10) as u64;
        let pre = double_digits(s.drop_last(), carry);
        lemma_double_digits(s.drop_last(), carry);
        assert(r == pre.push((t % 10) as u64));
        assert(r.drop_last() =~= pre);
        assert(r.last() == (t % 10) as u64);
        assert(dval(r) == dval(pre) * 10 + t % 10);
        assert(dval(pre) == 2 * dval(s.drop_last()) + carry);
        assert(dval(s) == dval(s.drop_last()) * 10 + s.last());
        assert(dval(r) == 2 * dval(s) + c) by {
            assert(t == (t / 10) * 10 + t % 10);
        }
        assert forall|i: int| 0 <= i < r.len() implies #[trigger] r[i] < 10 by {
            if i < r.len() - 1 {
                assert(r[i] == pre[i]);
            }
        }
        if s[0] != 0 {
            if s.len() == 1 {
                assert(t >= 2);
                if carry > 0 {
                    assert(pre.len() > 0 && pre[0] != 0);
                    assert(r[0] == pre[0]);
                } else {
                    assert(pre.len() == 0);
                    assert(r.len() == 1);
                    assert(r[0] == t % 10);
                    assert(t < 10);
                }
            } else {
                assert(s.drop_last()[0] == s[0]);
                assert(pre.len() > 0 && pre[0] != 0);
                assert(r[0] == pre[0]);
            }
        }
    }
}

/// Doubles the first `k` digit values, with a carry in at the least
/// significant end.
pub fn ex_double_digits(v: &Vec<u64>, k: usize, c: u64) -> (r: Vec<u64>)
    requires
        k <= v@.len(),
        digits_ok(v@),
        c <= 1,
    ensures
        r@ == double_digits(v@.take(k as int), c),
    decreases k,
{
    if k == 0 {
        let mut r: Vec<u64> = Vec::new();
        if c > 0 {
            r.push(c);
            proof {
                assert(v@.take(0) =~= Seq::<u64>::empty());
                assert(r@ =~= double_digits(v@.take(0), c));
            }
        } else {
            proof {
                assert(v@.take(0) =~= Seq::<u64>::empty());
                assert(r@ =~= double_digits(v@.take(0), c));
            }
        }
        r
    } else {
        let d: u64 = v[k - 1];
        let t: u64 = 2 * d + c;
        let mut r: Vec<u64> = ex_double_digits(v, k - 1, t / 10);
        r.push(t % 10);
        proof {
            assert(v@.take(k as int).drop_last() =~= v@.take(k as int - 1));
            assert(v@.take(k as int).last() == v@[k - 1]);
        }
        r
    }
}

/// The characters of a digit-value sequence.
pub open spec fn digit_chars(s: Seq<u64>) -> Seq<char> {
    Seq::new(s.len(), |i: int| digit_char(s[i] as nat))
}

/// Reading the characters of a digit-value sequence gives its value.
pub proof fn lemma_digit_chars_val(s: Seq<u64>)
    requires
        digits_ok(s),
    ensures
        digits_val(digit_chars(s)) == dval(s),
        all_digits(digit_chars(s)),
    decreases s.len(),
{
    if s.len() == 0 {
        assert(digit_chars(s) =~= Seq::<char>::empty());
    } else {
        lemma_digit_chars_val(s.drop_last());
        assert(digit_chars(s).drop_last() =~= digit_chars(s.drop_last()));
        assert(digit_chars(s).last() == digit_char(s.last() as nat));
        assert(digit_char(s.last() as nat) as int == 48 + s.last());
        assert(is_digit_char(digit_char(s.last() as nat)));
        assert(digits_val(digit_chars(s)) == digits_val(digit_chars(s.drop_last())) * 10
            + s.last());
        assert forall|i: int| 0 <= i < digit_chars(s).len() implies is_digit_char(
            #[trigger] digit_chars(s)[i]) by {
            if i < digit_chars(s).len() - 1 {
                assert(digit_chars(s)[i] == digit_chars(s.drop_last())[i]);
            }
        }
    }
}

/// A digit string without a leading zero is the canonical one: it equals
/// `digits_of` of its value.
pub proof fn lemma_digits_unique(s: Seq<char>, n: nat)
    requires
        all_digits(s),
        s.len() >= 1,
        s[0] != '0' || s.len() == 1,
        digits_val(s) == n,
    ensures
        s == digits_of(n),
    decreases s.len(),
{
    if s.len() == 1 {
        assert(s.drop_last() =~= Seq::<char>::empty());
        assert(digits_val(Seq::<char>::empty()) == 0);
        assert(n == (s[0] as int - 48));
        assert(n < 10);
        assert(digit_char(n) as int == 48 + n);
        assert(s =~= digits_of(n));
    } else {
        let pre = s.drop_last();
        assert(digits_val(s) == digits_val(pre) * 10 + (s.last() as int - 48));
        assert(s.last() as int - 48 < 10);
        assert(pre[0] == s[0]);
        assert(pre[0] != '0');
        assert(is_digit_char(pre[0]));
        assert(digits_val(pre) > 0) by {
            lemma_digits_val_lower(pre);
        }
        assert(n >= 10);
        assert(n / 10 == digits_val(pre) && n % 10 == s.last() as int - 48);
        lemma_digits_unique(pre, digits_val(pre));
        assert(digit_char(n % 10) as int == 48 + n % 10);
        assert(s.last() == digit_char(n % 10));
        assert(s =~= digits_of(n));
    }
}

/// A digit string whose first digit is nonzero has a positive value.
pub proof fn lemma_digits_val_lower(s: Seq<char>)
    requires
        all_digits(s),
        s.len() >= 1,
        s[0] != '0',
    ensures
        digits_val(s) >= 1,
    decreases s.len(),
{
    if s.len() == 1 {
        assert(s.drop_last() =~= Seq::<char>::empty());
        assert(digits_val(s) == (s[0] as int - 48));
        assert(s[0] as int != 48);
    } else {
        assert(s.drop_last()[0] == s[0]);
        lemma_digits_val_lower(s.drop_last());
        assert(digits_val(s) == digits_val(s.drop_last()) * 10 + (if is_digit_char(s.last()) {
            (s.last() as int - 48) as nat
        } else {
            0
        }));
    }
}

/// The digit values of `n`, most significant first.
pub fn u64_digit_vec(n: u64) -> (r: Vec<u64>)
    ensures
        dval(r@) == n,
        digits_ok(r@),
        r@.len() >= 1,
        n > 0 ==> r@[0] != 0,
    decreases n,
{
    if n < 10 {
        let mut r: Vec<u64> = Vec::new();
        r.push(n);
        proof {
            assert(r@.drop_last() =~= Seq::<u64>::empty());
            assert(dval(Seq::<u64>::empty()) == 0);
            assert(r@.last() == n);
            assert(dval(r@) == n);
        }
        r
    } else {
        let mut r: Vec<u64> = u64_digit_vec(n / 10);
        let ghost pre: Seq<u64> = r@;
        r.push(n % 10);
        proof {
            assert(r@.drop_last() =~= pre);
            assert(r@.last() == n % 10);
            assert(dval(r@) == dval(pre) * 10 + n % 10);
            assert forall|i: int| 0 <= i < r@.len() implies #[trigger] r@[i] < 10 by {
                if i < r@.len() - 1 {
                    assert(r@[i] == pre[i]);
                }
            }
            assert(r@[0] == pre[0]);
        }
        r
    }
}

} // verus!
