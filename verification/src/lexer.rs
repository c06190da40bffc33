//! The tokenizer: a pure function from source text to a token sequence.
//!
//! `spec_lex` is the mathematical model: a recursive scan over the character
//! sequence.  `lex` and its helpers are proved to return exactly what the
//! model says, token for token and error for error.

use vstd::prelude::*;
use vstd::string::StrSliceExecFns;
use crate::double::is_digit_char;
use crate::double::dbl_of_decimal;
use crate::double::parse_double;
use crate::double::all_digits;
use crate::double::digits_val;
use crate::double::enc_u64;
use crate::double::ex_enc_u64;
use crate::tokens::LexError;
use crate::tokens::Operator;
use crate::tokens::Parenthesis;
use crate::tokens::SpecToken;
use crate::tokens::Token;

verus! {

/// A character that may start an identifier: a letter, `_` or `$`.
pub open spec fn is_ident_start_char(c: char) -> bool {
    (97 <= c as int <= 122) || (65 <= c as int <= 90) || c == '_' || c == '$'
}

/// A character that may continue an identifier.
pub open spec fn is_ident_char(c: char) -> bool {
    is_ident_start_char(c) || is_digit_char(c)
}

/// Whitespace skipped between tokens.
pub open spec fn is_space_char(c: char) -> bool {
    c == ' ' || c == '\n' || c == '\r' || c == '\t'
}

/// A character that starts an operator or punctuation token.
pub open spec fn is_op_char(c: char) -> bool {
    c == '=' || c == '+' || c == '-' || c == '*' || c == '/' || c == '%' || c == '!' || c == '>'
        || c == '<' || c == ':' || c == ';' || c == '(' || c == ')' || c == '[' || c == ']'
        || c == '{' || c == '}' || c == '|' || c == '^' || c == '&'
}

pub fn ex_is_digit(c: char) -> (r: bool)
    ensures
        r == is_digit_char(c),
{
    let u: u32 = c as u32;
    48 <= u && u <= 57
}

pub fn ex_is_ident_start(c: char) -> (r: bool)
    ensures
        r == is_ident_start_char(c),
{
    let u: u32 = c as u32;
    (97 <= u && u <= 122) || (65 <= u && u <= 90) || c == '_' || c == '$'
}

pub fn ex_is_ident_char(c: char) -> (r: bool)
    ensures
        r == is_ident_char(c),
{
    ex_is_ident_start(c) || ex_is_digit(c)
}

pub fn ex_is_space(c: char) -> (r: bool)
    ensures
        r == is_space_char(c),
{
    c == ' ' || c == '\n' || c == '\r' || c == '\t'
}

pub fn ex_is_op_char(c: char) -> (r: bool)
    ensures
        r == is_op_char(c),
{
    c == '=' || c == '+' || c == '-' || c == '*' || c == '/' || c == '%' || c == '!' || c == '>'
        || c == '<' || c == ':' || c == ';' || c == '(' || c == ')' || c == '[' || c == ']'
        || c == '{' || c == '}' || c == '|' || c == '^' || c == '&'
}

/// First position at or after `i` that does not hold a digit.
pub open spec fn digits_end(s: Seq<char>, i: int) -> int
    decreases s.len() - i,
{
    if 0 <= i < s.len() && is_digit_char(s[i]) {
        digits_end(s, i + 1)
    } else {
        i
    }
}

/// First position at or after `i` that does not hold an identifier character.
pub open spec fn ident_end(s: Seq<char>, i: int) -> int
    decreases s.len() - i,
{
    if 0 <= i < s.len() && is_ident_char(s[i]) {
        ident_end(s, i + 1)
    } else {
        i
    }
}

/// `x` forced into `[lo, hi]`; the scans below always stay in range, so in
/// every reachable case this is the identity.  It makes termination of the
/// top-level scan evident.
pub open spec fn clamp_idx(lo: int, hi: int, x: int) -> int {
    if x < lo {
        lo
    } else if x > hi {
        hi
    } else {
        x
    }
}

/// The character an escape sequence `\c` denotes, if `c` is a known escape.
pub open spec fn unescape_char(c: char) -> Option<char> {
    if c == 'n' {
        Some('\n')
    } else if c == 'r' {
        Some('\r')
    } else if c == 't' {
        Some('\t')
    } else if c == '0' {
        Some('\0')
    } else if c == '"' {
        Some('"')
    } else if c == '\\' {
        Some('\\')
    } else if c == '\'' {
        Some('\'')
    } else {
        None
    }
}

/// Scan of one escape sequence; `p` is the position after the backslash.
/// A backslash at the end of the input counts as an unterminated literal.
pub open spec fn scan_escape(s: Seq<char>, p: int) -> Result<(char, int), LexError> {
    if p >= s.len() {
        Err(LexError::UnterminatedString)
    } else {
        match unescape_char(s[p]) {
            Some(c) => Ok((c, p + 1)),
            None => Err(LexError::UnknownEscape(s[p])),
        }
    }
}

/// Scan of a string literal's body; `i` is the position after the opening
/// quote.  Yields the unescaped contents and the position after the closing
/// quote.
pub open spec fn scan_string(s: Seq<char>, i: int) -> Result<(Seq<char>, int), LexError>
    decreases s.len() - i,
{
    if i < 0 || i >= s.len() {
        Err(LexError::UnterminatedString)
    } else if s[i] == '"' {
        Ok((Seq::empty(), i + 1))
    } else if s[i] == '\\' {
        match scan_escape(s, i + 1) {
            Err(e) => Err(e),
            Ok((c, p)) => match scan_string(s, clamp_idx(i + 2, s.len() as int, p)) {
                Err(e) => Err(e),
                Ok((cs, j)) => Ok((seq![c] + cs, j)),
            },
        }
    } else {
        match scan_string(s, i + 1) {
            Err(e) => Err(e),
            Ok((cs, j)) => Ok((seq![s[i]] + cs, j)),
        }
    }
}

/// Scan of a character literal; `i` is the position after the opening quote.
pub open spec fn scan_char(s: Seq<char>, i: int) -> Result<(char, int), LexError> {
    if i < 0 || i >= s.len() {
        Err(LexError::UnterminatedChar)
    } else if s[i] == '\'' {
        Err(LexError::EmptyCharLiteral)
    } else {
        let scanned = if s[i] == '\\' {
            match scan_escape(s, i + 1) {
                Err(LexError::UnknownEscape(c)) => Err(LexError::UnknownEscape(c)),
                Err(_) => Err(LexError::UnterminatedChar),
                Ok((c, p)) => Ok((c, p)),
            }
        } else {
            Ok((s[i], i + 1))
        };
        match scanned {
            Err(e) => Err(e),
            Ok((c, p)) => if p >= s.len() {
                Err(LexError::UnterminatedChar)
            } else if s[p] == '\'' {
                Ok((c, p + 1))
            } else {
                Err(LexError::CharLiteralTooLong)
            },
        }
    }
}

/// One- or two-character operator: `p` is the peek position after the first
/// character; seeing `c` there selects the two-character operator.
pub open spec fn scan2(s: Seq<char>, p: int, c: char, ops: (Operator, Operator)) -> (Operator, int) {
    if 0 <= p < s.len() && s[p] == c {
        (ops.1, p + 1)
    } else {
        (ops.0, p)
    }
}

/// One- or two-character operator with two possible second characters.
pub open spec fn scan3(s: Seq<char>, p: int, c1: char, c2: char, ops: (Operator, Operator, Operator)) -> (Operator, int) {
    if 0 <= p < s.len() && s[p] == c1 {
        (ops.1, p + 1)
    } else if 0 <= p < s.len() && s[p] == c2 {
        (ops.2, p + 1)
    } else {
        (ops.0, p)
    }
}

/// Scan of one operator token starting at `i`; greedy by one character of
/// look-ahead.  Only meaningful when `s[i]` is an operator character.
pub open spec fn scan_operator(s: Seq<char>, i: int) -> (Operator, int) {
    let c = s[i];
    if c == '+' {
        (Operator::Plus, i + 1)
    } else if c == '-' {
        (Operator::Minus, i + 1)
    } else if c == '/' {
        (Operator::Slash, i + 1)
    } else if c == '%' {
        (Operator::Percent, i + 1)
    } else if c == ':' {
        (Operator::Colon, i + 1)
    } else if c == ';' {
        (Operator::Semicolon, i + 1)
    } else if c == '|' {
        (Operator::Pipe, i + 1)
    } else if c == '&' {
        (Operator::Ampersand, i + 1)
    } else if c == '^' {
        (Operator::Caret, i + 1)
    } else if c == '>' {
        scan3(s, i + 1, '=', '>', (Operator::Greater, Operator::GreaterEquals, Operator::GreaterGreater))
    } else if c == '<' {
        scan3(s, i + 1, '=', '<', (Operator::Less, Operator::LessEquals, Operator::LessLess))
    } else if c == '=' {
        scan2(s, i + 1, '=', (Operator::Equals, Operator::EqualsEquals))
    } else if c == '*' {
        scan2(s, i + 1, '*', (Operator::Star, Operator::StarStar))
    } else if c == '!' {
        scan2(s, i + 1, '=', (Operator::Exclamation, Operator::ExclamationEquals))
    } else if c == '(' {
        (Operator::Parenthesis(Parenthesis::LParen), i + 1)
    } else if c == ')' {
        (Operator::Parenthesis(Parenthesis::RParen), i + 1)
    } else if c == '[' {
        (Operator::Parenthesis(Parenthesis::LBracket), i + 1)
    } else if c == ']' {
        (Operator::Parenthesis(Parenthesis::RBracket), i + 1)
    } else if c == '{' {
        (Operator::Parenthesis(Parenthesis::LCurly), i + 1)
    } else if c == '}' {
        (Operator::Parenthesis(Parenthesis::RCurly), i + 1)
    } else {
        (Operator::Dot, i + 1)
    }
}

/// Prefixing a token sequence onto a scan result.
pub open spec fn lex_cat(pre: Seq<SpecToken>, r: Result<Seq<SpecToken>, LexError>) -> Result<
    Seq<SpecToken>,
    LexError,
> {
    match r {
        Ok(ts) => Ok(pre + ts),
        Err(e) => Err(e),
    }
}

/// The token sequence produced from position `i` on: the model of the
/// tokenizer's main loop.  Ends with an explicit `Eof` token.
pub open spec fn spec_lex_from(s: Seq<char>, i: int) -> Result<Seq<SpecToken>, LexError>
    decreases s.len() - i,
{
    if i < 0 || i >= s.len() {
        Ok(seq![SpecToken::Eof])
    } else {
        let c = s[i];
        if is_digit_char(c) || c == '.' {
            let end = clamp_idx(i + 1, s.len() as int, digits_end(s, i + 1));
            match spec_number_token(s.subrange(i, end)) {
                Some(b) => lex_cat(seq![SpecToken::Number(b)], spec_lex_from(s, end)),
                None => Err(LexError::MalformedNumber),
            }
        } else if is_ident_start_char(c) {
            let end = clamp_idx(i + 1, s.len() as int, ident_end(s, i + 1));
            lex_cat(seq![SpecToken::Ident(s.subrange(i, end))], spec_lex_from(s, end))
        } else if is_op_char(c) {
            let (op, j0) = scan_operator(s, i);
            let j = clamp_idx(i + 1, s.len() as int, j0);
            lex_cat(seq![SpecToken::Operator(op)], spec_lex_from(s, j))
        } else if is_space_char(c) {
            spec_lex_from(s, i + 1)
        } else if c == '"' {
            match scan_string(s, i + 1) {
                Err(e) => Err(e),
                Ok((cs, j0)) => {
                    let j = clamp_idx(i + 1, s.len() as int, j0);
                    lex_cat(seq![SpecToken::StringLiteral(cs)], spec_lex_from(s, j))
                },
            }
        } else if c == '\'' {
            match scan_char(s, i + 1) {
                Err(e) => Err(e),
                Ok((ch, j0)) => {
                    let j = clamp_idx(i + 1, s.len() as int, j0);
                    lex_cat(seq![SpecToken::CharLiteral(ch)], spec_lex_from(s, j))
                },
            }
        } else {
            Err(LexError::UnexpectedCharacter(c))
        }
    }
}

/// The model of the tokenizer on a whole source text.
pub open spec fn spec_lex(s: Seq<char>) -> Result<Seq<SpecToken>, LexError> {
    spec_lex_from(s, 0)
}

/// The characters of a `&str`, materialised.
pub fn chars_of(s: &str) -> (r: Vec<char>)
    ensures
        r@ == s@,
{
    let n: usize = s.unicode_len();
    let mut out: Vec<char> = Vec::new();
    let mut i: usize = 0;
    while i < n
        invariant
            i <= n,
            n == s@.len(),
            out@ == s@.subrange(0, i as int),
        decreases n - i,
    {
        let c: char = s.get_char(i);
        out.push(c);
        assert(out@ =~= s@.subrange(0, i + 1));
        i = i + 1;
    }
    assert(out@ =~= s@);
    out
}

/// The encoding a number literal denotes: a plain digit string below 2^53
/// is encoded exactly; anything else goes through the decimal parser.
pub open spec fn spec_number_token(t: Seq<char>) -> Option<u64> {
    if t.len() >= 1 && all_digits(t) && digits_val(t) < 0x20_0000_0000_0000 {
        Some(enc_u64(digits_val(t) as u64))
    } else {
        dbl_of_decimal(t)
    }
}

/// Reads one escape sequence, with the cursor on the backslash.
pub fn make_escape_sequence_char(src: &Vec<char>, i: &mut usize) -> (r: Result<char, LexError>)
    requires
        (*old(i)) < src@.len(),
    ensures
        (*old(i)) < (*final(i)) <= src@.len(),
        (match r {
            Ok(c) => scan_escape(src@, (*old(i)) + 1) == Ok::<(char, int), LexError>(
                (c, (*final(i)) as int),
            ),
            Err(e) => scan_escape(src@, (*old(i)) + 1) == Err::<(char, int), LexError>(e),
        }),
{
    let n: usize = src.len();
    *i = *i + 1;
    if *i >= n {
        return Err(LexError::UnterminatedString);
    }
    let c: char = src[*i];
    let unescaped: Option<char> = if c == 'n' {
        Some('\n')
    } else if c == 'r' {
        Some('\r')
    } else if c == 't' {
        Some('\t')
    } else if c == '0' {
        Some('\0')
    } else if c == '"' {
        Some('"')
    } else if c == '\\' {
        Some('\\')
    } else if c == '\'' {
        Some('\'')
    } else {
        None
    };
    match unescaped {
        Some(u) => {
            *i = *i + 1;
            Ok(u)
        },
        None => Err(LexError::UnknownEscape(c)),
    }
}

/// Reads a string literal, with the cursor on the opening quote.
pub fn make_string(src: &Vec<char>, i: &mut usize) -> (r: Result<String, LexError>)
    requires
        (*old(i)) < src@.len(),
    ensures
        (*old(i)) < (*final(i)) <= src@.len(),
        (match r {
            Ok(cs) => scan_string(src@, (*old(i)) + 1) == Ok::<(Seq<char>, int), LexError>(
                (cs@, (*final(i)) as int),
            ),
            Err(e) => scan_string(src@, (*old(i)) + 1) == Err::<(Seq<char>, int), LexError>(e),
        }),
{
    let n: usize = src.len();
    *i = *i + 1;
    let ghost start: int = *i as int;
    let mut buf: String = String::new();
    loop
        invariant
            start == (*old(i)) + 1,
            0 < start <= *i as int <= src@.len(),
            n == src@.len(),
            (match scan_string(src@, *i as int) {
                Ok((cs, j)) => scan_string(src@, start) == Ok::<(Seq<char>, int), LexError>(
                    (buf@ + cs, j),
                ),
                Err(e) => scan_string(src@, start) == Err::<(Seq<char>, int), LexError>(e),
            }),
        decreases src@.len() - *i,
    {
        if *i >= n {
            return Err(LexError::UnterminatedString);
        }
        let c: char = src[*i];
        if c == '"' {
            *i = *i + 1;
            assert(buf@ + Seq::<char>::empty() =~= buf@);
            return Ok(buf);
        }
        if c == '\\' {
            let ghost at: int = *i as int;
            match make_escape_sequence_char(src, i) {
                Ok(ch) => {
                    proof {
                        assert(clamp_idx(at + 2, src@.len() as int, *i as int) == *i as int);
                    }
                    let ghost old_buf: Seq<char> = buf@;
                    buf.push(ch);
                    proof {
                        if let Ok((cs, j)) = scan_string(src@, *i as int) {
                            assert(old_buf + (seq![ch] + cs) =~= buf@ + cs);
                        }
                    }
                },
                Err(e) => {
                    return Err(e);
                },
            }
        } else {
            let ghost old_buf: Seq<char> = buf@;
            buf.push(c);
            *i = *i + 1;
            proof {
                if let Ok((cs, j)) = scan_string(src@, *i as int) {
                    assert(old_buf + (seq![c] + cs) =~= buf@ + cs);
                }
            }
        }
    }
}

/// Reads a character literal, with the cursor on the opening quote.
pub fn make_char(src: &Vec<char>, i: &mut usize) -> (r: Result<char, LexError>)
    requires
        (*old(i)) < src@.len(),
    ensures
        (*old(i)) < (*final(i)) <= src@.len(),
        (match r {
            Ok(c) => scan_char(src@, (*old(i)) + 1) == Ok::<(char, int), LexError>(
                (c, (*final(i)) as int),
            ),
            Err(e) => scan_char(src@, (*old(i)) + 1) == Err::<(char, int), LexError>(e),
        }),
{
    let n: usize = src.len();
    *i = *i + 1;
    if *i >= n {
        return Err(LexError::UnterminatedChar);
    }
    let c0: char = src[*i];
    if c0 == '\'' {
        *i = *i + 1;
        return Err(LexError::EmptyCharLiteral);
    }
    let c: char;
    if c0 == '\\' {
        match make_escape_sequence_char(src, i) {
            Ok(ch) => {
                c = ch;
            },
            Err(LexError::UnknownEscape(u)) => {
                return Err(LexError::UnknownEscape(u));
            },
            Err(_) => {
                return Err(LexError::UnterminatedChar);
            },
        }
    } else {
        c = c0;
        *i = *i + 1;
    }
    if *i >= n {
        return Err(LexError::UnterminatedChar);
    }
    if src[*i] == '\'' {
        *i = *i + 1;
        return Ok(c);
    }
    Err(LexError::CharLiteralTooLong)
}

/// Reads an identifier, with the cursor on its first character.
pub fn make_name(src: &Vec<char>, i: &mut usize) -> (r: String)
    requires
        (*old(i)) < src@.len(),
    ensures
        (*old(i)) < (*final(i)) <= src@.len(),
        (*final(i)) as int == ident_end(src@, (*old(i)) + 1),
        r@ == src@.subrange((*old(i)) as int, (*final(i)) as int),
{
    let n: usize = src.len();
    let ghost start: int = *i as int;
    let mut buf: String = String::new();
    buf.push(src[*i]);
    *i = *i + 1;
    assert(buf@ =~= src@.subrange(start, *i as int));
    while *i < n && ex_is_ident_char(src[*i])
        invariant
            0 <= start < *i as int <= src@.len(),
            n == src@.len(),
            buf@ == src@.subrange(start, *i as int),
            ident_end(src@, start + 1) == ident_end(src@, *i as int),
        decreases src@.len() - *i,
    {
        buf.push(src[*i]);
        *i = *i + 1;
        assert(buf@ =~= src@.subrange(start, *i as int));
    }
    proof {
        assert(ident_end(src@, *i as int) == *i as int);
    }
    buf
}

/// Reads a number literal, with the cursor on its first character (a digit
/// or a dot).  A plain digit string below 2^53 is encoded directly; longer
/// or dotted literals go through the decimal parser.
pub fn make_number(src: &Vec<char>, i: &mut usize) -> (r: Result<u64, LexError>)
    requires
        (*old(i)) < src@.len(),
    ensures
        (*old(i)) < (*final(i)) <= src@.len(),
        (*final(i)) as int == clamp_idx((*old(i)) + 1, src@.len() as int, digits_end(src@, (*old(i)) + 1)),
        (match r {
            Ok(b) => spec_number_token(src@.subrange((*old(i)) as int, (*final(i)) as int))
                == Some(b),
            Err(e) => spec_number_token(src@.subrange((*old(i)) as int, (*final(i)) as int))
                is None && e == LexError::MalformedNumber,
        }),
{
    let n: usize = src.len();
    let ghost start: int = *i as int;
    let first: char = src[*i];
    let first_digit: bool = ex_is_digit(first);
    let mut buf: String = String::new();
    let mut val: u64 = 0;
    let mut small: bool = first_digit;
    if small {
        val = (first as u32 - 48) as u64;
    }
    buf.push(first);
    *i = *i + 1;
    assert(buf@ =~= src@.subrange(start, *i as int));
    proof {
        assert(src@.subrange(start, start + 1).drop_last() =~= Seq::<char>::empty());
        assert(digits_val(Seq::<char>::empty()) == 0);
        assert(src@.subrange(start, start + 1).last() == first);
        if first_digit {
            assert(digits_val(src@.subrange(start, start + 1)) == first as int - 48);
        }
    }
    while *i < n && ex_is_digit(src[*i])
        invariant
            0 <= start < *i as int <= src@.len(),
            n == src@.len(),
            buf@ == src@.subrange(start, *i as int),
            digits_end(src@, start + 1) == digits_end(src@, *i as int),
            small == (first_digit && digits_val(src@.subrange(start, *i as int))
                < 0x20_0000_0000_0000),
            small ==> val == digits_val(src@.subrange(start, *i as int)),
            first_digit ==> all_digits(src@.subrange(start, *i as int)),
            first_digit == is_digit_char(src@[start]),
        decreases src@.len() - *i,
    {
        let c: char = src[*i];
        let d: u64 = (c as u32 - 48) as u64;
        let ghost pre: Seq<char> = src@.subrange(start, *i as int);
        buf.push(c);
        *i = *i + 1;
        let ghost cur: Seq<char> = src@.subrange(start, *i as int);
        proof {
            assert(buf@ =~= cur);
            assert(cur.drop_last() =~= pre);
            assert(cur.last() == c);
            assert(digits_val(cur) == digits_val(pre) * 10 + (c as int - 48));
        }
        if small {
            if val <= (0x1F_FFFF_FFFF_FFFFu64 - d) / 10 {
                val = val * 10 + d;
            } else {
                small = false;
                proof {
                    assert(digits_val(cur) >= 0x20_0000_0000_0000);
                }
            }
        } else {
            proof {
                if first_digit {
                    assert(digits_val(pre) >= 0x20_0000_0000_0000);
                    assert(digits_val(cur) >= digits_val(pre) * 10);
                }
            }
        }
        proof {
            if first_digit {
                assert forall|j: int| 0 <= j < cur.len() implies is_digit_char(
                    #[trigger] cur[j]) by {
                    if j < cur.len() - 1 {
                        assert(cur[j] == pre[j]);
                    }
                }
            }
        }
    }
    proof {
        assert(digits_end(src@, *i as int) == *i as int);
    }
    let ghost tok: Seq<char> = src@.subrange(start, *i as int);
    if small {
        proof {
            assert(all_digits(tok) && tok.len() >= 1 && digits_val(tok) < 0x20_0000_0000_0000);
        }
        return Ok(ex_enc_u64(val));
    }
    proof {
        if first_digit {
            assert(!(digits_val(tok) < 0x20_0000_0000_0000));
        } else {
            assert(!is_digit_char(tok[0]));
            assert(!all_digits(tok));
        }
    }
    match parse_double(buf.as_str()) {
        Some(b) => Ok(b),
        None => Err(LexError::MalformedNumber),
    }
}

/// Reads an operator that is one character, or two when followed by `c`.
pub fn make_2char_long_operator(
    src: &Vec<char>,
    i: &mut usize,
    c: char,
    operators: (Operator, Operator),
) -> (r: Operator)
    requires
        (*old(i)) <= src@.len(),
    ensures
        (*old(i)) <= (*final(i)) <= src@.len(),
        (r, (*final(i)) as int) == scan2(src@, (*old(i)) as int, c, operators),
{
    if *i < src.len() && src[*i] == c {
        *i = *i + 1;
        operators.1
    } else {
        operators.0
    }
}

/// Reads an operator that is one character, or two when followed by `c1` or
/// `c2`.
pub fn make_3char_long_operator(
    src: &Vec<char>,
    i: &mut usize,
    c1: char,
    c2: char,
    operators: (Operator, Operator, Operator),
) -> (r: Operator)
    requires
        (*old(i)) <= src@.len(),
    ensures
        (*old(i)) <= (*final(i)) <= src@.len(),
        (r, (*final(i)) as int) == scan3(src@, (*old(i)) as int, c1, c2, operators),
{
    if *i < src.len() && src[*i] == c1 {
        *i = *i + 1;
        operators.1
    } else if *i < src.len() && src[*i] == c2 {
        *i = *i + 1;
        operators.2
    } else {
        operators.0
    }
}

/// Reads one operator token, with the cursor on its first character.
pub fn make_operator(src: &Vec<char>, i: &mut usize) -> (r: Operator)
    requires
        (*old(i)) < src@.len(),
        is_op_char(src@[(*old(i)) as int]),
    ensures
        (*old(i)) < (*final(i)) <= src@.len(),
        (r, (*final(i)) as int) == scan_operator(src@, (*old(i)) as int),
{
    let n: usize = src.len();
    assert(*i < n);
    let c: char = src[*i];
    *i = *i + 1;
    if c == '+' {
        Operator::Plus
    } else if c == '-' {
        Operator::Minus
    } else if c == '/' {
        Operator::Slash
    } else if c == '%' {
        Operator::Percent
    } else if c == ':' {
        Operator::Colon
    } else if c == ';' {
        Operator::Semicolon
    } else if c == '|' {
        Operator::Pipe
    } else if c == '&' {
        Operator::Ampersand
    } else if c == '^' {
        Operator::Caret
    } else if c == '>' {
        make_3char_long_operator(
            src,
            i,
            '=',
            '>',
            (Operator::Greater, Operator::GreaterEquals, Operator::GreaterGreater),
        )
    } else if c == '<' {
        make_3char_long_operator(
            src,
            i,
            '=',
            '<',
            (Operator::Less, Operator::LessEquals, Operator::LessLess),
        )
    } else if c == '=' {
        make_2char_long_operator(src, i, '=', (Operator::Equals, Operator::EqualsEquals))
    } else if c == '*' {
        make_2char_long_operator(src, i, '*', (Operator::Star, Operator::StarStar))
    } else if c == '!' {
        make_2char_long_operator(src, i, '=', (Operator::Exclamation, Operator::ExclamationEquals))
    } else if c == '(' {
        Operator::Parenthesis(Parenthesis::LParen)
    } else if c == ')' {
        Operator::Parenthesis(Parenthesis::RParen)
    } else if c == '[' {
        Operator::Parenthesis(Parenthesis::LBracket)
    } else if c == ']' {
        Operator::Parenthesis(Parenthesis::RBracket)
    } else if c == '{' {
        Operator::Parenthesis(Parenthesis::LCurly)
    } else {
        Operator::Parenthesis(Parenthesis::RCurly)
    }
}

/// Appends a token, extending the sequence of token models by its model.
fn push_tok(v: &mut Vec<Token>, t: Token)
    ensures
        final(v).deep_view() == old(v).deep_view().push(t@),
{
    let ghost pre: Seq<SpecToken> = v.deep_view();
    v.push(t);
    proof {
        assert(v.deep_view() =~= pre.push(t@));
    }
}

/// Tokenizes a whole source text: exactly what `spec_lex` says, with an
/// `Eof` token at the end on success.
#[verifier::rlimit(60)]
pub fn lex(source: &str) -> (r: Result<Vec<Token>, LexError>)
    ensures
        (match r {
            Ok(ts) => spec_lex(source@) == Ok::<Seq<SpecToken>, LexError>(ts.deep_view()),
            Err(e) => spec_lex(source@) == Err::<Seq<SpecToken>, LexError>(e),
        }),
{
    let src: Vec<char> = chars_of(source);
    let mut toks: Vec<Token> = Vec::new();
    let mut i: usize = 0;
    while i < src.len()
        invariant
            i <= src@.len(),
            src@ == source@,
            lex_cat(toks.deep_view(), spec_lex_from(source@, i as int)) == spec_lex(source@),
        decreases src@.len() - i,
    {
        let ghost pre: Seq<SpecToken> = toks.deep_view();
        let ghost at: int = i as int;
        let c: char = src[i];
        if ex_is_digit(c) || c == '.' {
            match make_number(&src, &mut i) {
                Ok(b) => {
                    push_tok(&mut toks, Token::Number(b));
                    proof {
                        lemma_lex_cat_step(
                            pre,
                            SpecToken::Number(b),
                            spec_lex_from(source@, i as int),
                        );
                    }
                },
                Err(e) => {
                    return Err(e);
                },
            }
        } else if ex_is_ident_start(c) {
            let name: String = make_name(&src, &mut i);
            let ghost tok: SpecToken = SpecToken::Ident(name@);
            push_tok(&mut toks, Token::Ident(name));
            proof {
                lemma_lex_cat_step(pre, tok, spec_lex_from(source@, i as int));
            }
        } else if ex_is_op_char(c) {
            let op: Operator = make_operator(&src, &mut i);
            push_tok(&mut toks, Token::Operator(op));
            proof {
                lemma_lex_cat_step(pre, SpecToken::Operator(op), spec_lex_from(source@, i as int));
            }
        } else if ex_is_space(c) {
            i = i + 1;
        } else if c == '"' {
            match make_string(&src, &mut i) {
                Ok(content) => {
                    let ghost tok: SpecToken = SpecToken::StringLiteral(content@);
                    push_tok(&mut toks, Token::StringLiteral(content));
                    proof {
                        lemma_lex_cat_step(pre, tok, spec_lex_from(source@, i as int));
                    }
                },
                Err(e) => {
                    return Err(e);
                },
            }
        } else if c == '\'' {
            match make_char(&src, &mut i) {
                Ok(ch) => {
                    push_tok(&mut toks, Token::CharLiteral(ch));
                    proof {
                        lemma_lex_cat_step(
                            pre,
                            SpecToken::CharLiteral(ch),
                            spec_lex_from(source@, i as int),
                        );
                    }
                },
                Err(e) => {
                    return Err(e);
                },
            }
        } else {
            return Err(LexError::UnexpectedCharacter(c));
        }
    }
    let ghost pre_final: Seq<SpecToken> = toks.deep_view();
    push_tok(&mut toks, Token::Eof);
    proof {
        assert(toks.deep_view() =~= pre_final + seq![SpecToken::Eof]);
    }
    Ok(toks)
}

/// Pushing a token onto the accumulator commutes with prefixing it onto the
/// remaining scan.
proof fn lemma_lex_cat_step(pre: Seq<SpecToken>, t: SpecToken, r: Result<Seq<SpecToken>, LexError>)
    ensures
        lex_cat(pre, lex_cat(seq![t], r)) == lex_cat(pre.push(t), r),
{
    match r {
        Ok(ts) => {
            assert(pre + (seq![t] + ts) =~= pre.push(t) + ts);
        },
        Err(_) => {},
    }
}

} // verus!
