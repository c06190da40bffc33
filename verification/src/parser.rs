//! The parser: precedence climbing over the token sequence, producing one
//! abstract syntax tree per call.
//!
//! Grammar, tightest first: atoms (literals, named constants, identifiers,
//! parenthesized groups), `**` (right operand through the unary level, so a
//! chain is right-associative), unary `+`/`-`, then `*` `/` `%`, `+` `-`,
//! `>>` `<<`, `&`, `^`, `|`, and last the comparisons with a `!` prefix.  A
//! `let` declaration or an `identifier =` assignment sits above them all.
//!
//! `sp_parse` and its levels are the model; each `parse_*` function returns
//! exactly what its model level says, and on success the new cursor position.

use vstd::prelude::*;
use vstd::string::StrSliceExecFns;
use crate::double::BITS_INF;
use crate::double::BITS_NAN;
use crate::lexer::clamp_idx;
use crate::tokens::Operator;
use crate::tokens::Parenthesis;
use crate::tokens::ParseError;
use crate::tokens::SpecParseError;
use crate::tokens::SpecToken;
use crate::tokens::Token;

verus! {

/// One node of the abstract syntax tree.  A number literal carries the
/// IEEE-754 encoding of its value.
#[derive(Debug)]
pub enum AstNode {
    Number(u64),
    Bool(bool),
    Char(char),
    StringLiteral(String),
    UnOp(Operator, Box<AstNode>),
    BinOp(Box<AstNode>, Operator, Box<AstNode>),
    VarCreate(String, Box<AstNode>),
    VarAssign(String, Box<AstNode>),
    VarAccess(String),
}

/// The mathematical model of a syntax tree.
pub enum SpecAst {
    Number(u64),
    Bool(bool),
    Char(char),
    StringLiteral(Seq<char>),
    UnOp(Operator, Box<SpecAst>),
    BinOp(Box<SpecAst>, Operator, Box<SpecAst>),
    VarCreate(Seq<char>, Box<SpecAst>),
    VarAssign(Seq<char>, Box<SpecAst>),
    VarAccess(Seq<char>),
}

impl View for AstNode {
    type V = SpecAst;

    open spec fn view(&self) -> SpecAst
        decreases self,
    {
        match self {
            AstNode::Number(b) => SpecAst::Number(*b),
            AstNode::Bool(b) => SpecAst::Bool(*b),
            AstNode::Char(c) => SpecAst::Char(*c),
            AstNode::StringLiteral(s) => SpecAst::StringLiteral(s@),
            AstNode::UnOp(op, n) => SpecAst::UnOp(*op, Box::new((**n)@)),
            AstNode::BinOp(l, op, r) => SpecAst::BinOp(Box::new((**l)@), *op, Box::new((**r)@)),
            AstNode::VarCreate(nm, n) => SpecAst::VarCreate(nm@, Box::new((**n)@)),
            AstNode::VarAssign(nm, n) => SpecAst::VarAssign(nm@, Box::new((**n)@)),
            AstNode::VarAccess(nm) => SpecAst::VarAccess(nm@),
        }
    }
}

/// The reserved words, as character sequences.
pub open spec fn kw_let() -> Seq<char> {
    seq!['l', 'e', 't']
}

pub open spec fn kw_inf() -> Seq<char> {
    seq!['i', 'n', 'f']
}

pub open spec fn kw_nan() -> Seq<char> {
    seq!['N', 'a', 'N']
}

pub open spec fn kw_true() -> Seq<char> {
    seq!['t', 'r', 'u', 'e']
}

pub open spec fn kw_false() -> Seq<char> {
    seq!['f', 'a', 'l', 's', 'e']
}

/// A reserved word may not be used as a variable name.
pub open spec fn spec_is_keyword(s: Seq<char>) -> bool {
    s == kw_let() || s == kw_inf() || s == kw_nan() || s == kw_true() || s == kw_false()
}

/// Whether the string is exactly the three given characters.
pub fn str_is3(s: &str, a: char, b: char, c: char) -> (r: bool)
    ensures
        r == (s@ == seq![a, b, c]),
{
    let n: usize = s.unicode_len();
    if n != 3 {
        proof {
            assert(s@ != seq![a, b, c]) by {
                assert(seq![a, b, c].len() == 3);
            }
        }
        return false;
    }
    let r: bool = s.get_char(0) == a && s.get_char(1) == b && s.get_char(2) == c;
    proof {
        if r {
            assert(s@ =~= seq![a, b, c]);
        } else {
            assert(s@ != seq![a, b, c]) by {
                if s@ == seq![a, b, c] {
                    assert(s@[0] == a && s@[1] == b && s@[2] == c);
                }
            }
        }
    }
    r
}

/// Whether the string is exactly the four given characters.
pub fn str_is4(s: &str, a: char, b: char, c: char, d: char) -> (r: bool)
    ensures
        r == (s@ == seq![a, b, c, d]),
{
    let n: usize = s.unicode_len();
    if n != 4 {
        proof {
            assert(s@ != seq![a, b, c, d]) by {
                assert(seq![a, b, c, d].len() == 4);
            }
        }
        return false;
    }
    let r: bool = s.get_char(0) == a && s.get_char(1) == b && s.get_char(2) == c && s.get_char(3)
        == d;
    proof {
        if r {
            assert(s@ =~= seq![a, b, c, d]);
        } else {
            assert(s@ != seq![a, b, c, d]) by {
                if s@ == seq![a, b, c, d] {
                    assert(s@[0] == a && s@[1] == b && s@[2] == c && s@[3] == d);
                }
            }
        }
    }
    r
}

/// Whether the string is exactly the five given characters.
pub fn str_is5(s: &str, a: char, b: char, c: char, d: char, e: char) -> (r: bool)
    ensures
        r == (s@ == seq![a, b, c, d, e]),
{
    let n: usize = s.unicode_len();
    if n != 5 {
        proof {
            assert(s@ != seq![a, b, c, d, e]) by {
                assert(seq![a, b, c, d, e].len() == 5);
            }
        }
        return false;
    }
    let r: bool = s.get_char(0) == a && s.get_char(1) == b && s.get_char(2) == c && s.get_char(3)
        == d && s.get_char(4) == e;
    proof {
        if r {
            assert(s@ =~= seq![a, b, c, d, e]);
        } else {
            assert(s@ != seq![a, b, c, d, e]) by {
                if s@ == seq![a, b, c, d, e] {
                    assert(s@[0] == a && s@[1] == b && s@[2] == c && s@[3] == d && s@[4] == e);
                }
            }
        }
    }
    r
}

/// Whether the string is one of the reserved words.
pub fn is_keyword(s: &str) -> (r: bool)
    ensures
        r == spec_is_keyword(s@),
{
    str_is3(s, 'l', 'e', 't') || str_is3(s, 'i', 'n', 'f') || str_is3(s, 'N', 'a', 'N') || str_is4(
        s,
        't',
        'r',
        'u',
        'e',
    ) || str_is5(s, 'f', 'a', 'l', 's', 'e')
}

/// The result of one parsing level: a node and the position after it.
pub type SpStep = Result<(SpecAst, int), SpecParseError>;

/// Tokens remaining at position `i`: the first component of every parsing
/// level's termination measure.
pub open spec fn rem_toks(t: Seq<SpecToken>, i: int) -> int {
    if i < t.len() {
        t.len() - i
    } else {
        0
    }
}

/// The atom level: literals, named constants, identifiers (an identifier
/// followed by `=` becomes an assignment), parenthesized groups.
pub open spec fn sp_atom(t: Seq<SpecToken>, i: int) -> SpStep
    decreases rem_toks(t, i), 0int,
{
    if i < 0 || i >= t.len() {
        Err(SpecParseError::UnexpectedEndOfInput)
    } else {
        match t[i] {
            SpecToken::Number(b) => Ok((SpecAst::Number(b), i + 1)),
            SpecToken::StringLiteral(s) => Ok((SpecAst::StringLiteral(s), i + 1)),
            SpecToken::CharLiteral(c) => Ok((SpecAst::Char(c), i + 1)),
            SpecToken::Eof => Err(SpecParseError::UnexpectedEndOfInput),
            SpecToken::Ident(nm) => {
                if i + 1 < t.len() && t[i + 1] == SpecToken::Operator(Operator::Equals) {
                    if spec_is_keyword(nm) {
                        Err(SpecParseError::ReservedIdentifier(nm))
                    } else {
                        match sp_comparison(t, i + 2) {
                            Err(e) => Err(e),
                            Ok((n, j)) => Ok((SpecAst::VarAssign(nm, Box::new(n)), j)),
                        }
                    }
                } else if nm == kw_inf() {
                    Ok((SpecAst::Number(BITS_INF), i + 1))
                } else if nm == kw_nan() {
                    Ok((SpecAst::Number(BITS_NAN), i + 1))
                } else if nm == kw_true() {
                    Ok((SpecAst::Bool(true), i + 1))
                } else if nm == kw_false() {
                    Ok((SpecAst::Bool(false), i + 1))
                } else {
                    Ok((SpecAst::VarAccess(nm), i + 1))
                }
            },
            SpecToken::Operator(op) => {
                if op == Operator::Parenthesis(Parenthesis::LParen) {
                    match sp_comparison(t, i + 1) {
                        Err(e) => Err(e),
                        Ok((n, j)) => {
                            if j < t.len() && t[j] == SpecToken::Operator(
                                Operator::Parenthesis(Parenthesis::RParen),
                            ) {
                                Ok((n, j + 1))
                            } else if j >= t.len() || t[j] == SpecToken::Eof {
                                Err(SpecParseError::UnclosedGroup)
                            } else {
                                Err(SpecParseError::UnexpectedToken(t[j]))
                            }
                        },
                    }
                } else {
                    Err(SpecParseError::UnexpectedToken(t[i]))
                }
            },
        }
    }
}

/// The power level: an atom, then a left-entered chain of `**` whose right
/// operands recurse through the unary level, making `**` right-associative.
pub open spec fn sp_power(t: Seq<SpecToken>, i: int) -> SpStep
    decreases rem_toks(t, i), 2int,
{
    match sp_atom(t, i) {
        Err(e) => Err(e),
        Ok((n, j0)) => sp_power_more(t, clamp_idx(i + 1, t.len() as int, j0), n),
    }
}

pub open spec fn sp_power_more(t: Seq<SpecToken>, i: int, acc: SpecAst) -> SpStep
    decreases rem_toks(t, i), 1int,
{
    if 0 <= i < t.len() && t[i] == SpecToken::Operator(Operator::StarStar) {
        match sp_factor(t, i + 1) {
            Err(e) => Err(e),
            Ok((rhs, j)) => sp_power_more(
                t,
                clamp_idx(i + 2, t.len() as int, j),
                SpecAst::BinOp(Box::new(acc), Operator::StarStar, Box::new(rhs)),
            ),
        }
    } else {
        Ok((acc, i))
    }
}

/// The unary level: `+` and `-` prefixes over the power level.
pub open spec fn sp_factor(t: Seq<SpecToken>, i: int) -> SpStep
    decreases rem_toks(t, i), 3int,
{
    if i < 0 || i >= t.len() {
        Err(SpecParseError::UnexpectedEndOfInput)
    } else if t[i] == SpecToken::Operator(Operator::Plus) || t[i] == SpecToken::Operator(
        Operator::Minus,
    ) {
        let op = if t[i] == SpecToken::Operator(Operator::Plus) {
            Operator::Plus
        } else {
            Operator::Minus
        };
        match sp_factor(t, i + 1) {
            Err(e) => Err(e),
            Ok((n, j)) => Ok((SpecAst::UnOp(op, Box::new(n)), j)),
        }
    } else if t[i] == SpecToken::Eof {
        Err(SpecParseError::UnexpectedEndOfInput)
    } else {
        sp_power(t, i)
    }
}

/// `*`, `/` and `%`, left to right.
pub open spec fn sp_term(t: Seq<SpecToken>, i: int) -> SpStep
    decreases rem_toks(t, i), 5int,
{
    match sp_factor(t, i) {
        Err(e) => Err(e),
        Ok((n, j0)) => sp_term_more(t, clamp_idx(i + 1, t.len() as int, j0), n),
    }
}

pub open spec fn is_term_op(tok: SpecToken) -> bool {
    tok == SpecToken::Operator(Operator::Star) || tok == SpecToken::Operator(Operator::Slash)
        || tok == SpecToken::Operator(Operator::Percent)
}

pub open spec fn sp_term_more(t: Seq<SpecToken>, i: int, acc: SpecAst) -> SpStep
    decreases rem_toks(t, i), 4int,
{
    if 0 <= i < t.len() && is_term_op(t[i]) {
        let op = t[i]->Operator_0;
        match sp_factor(t, i + 1) {
            Err(e) => Err(e),
            Ok((rhs, j)) => sp_term_more(
                t,
                clamp_idx(i + 2, t.len() as int, j),
                SpecAst::BinOp(Box::new(acc), op, Box::new(rhs)),
            ),
        }
    } else {
        Ok((acc, i))
    }
}

/// `+` and `-`, left to right.
pub open spec fn sp_expr(t: Seq<SpecToken>, i: int) -> SpStep
    decreases rem_toks(t, i), 7int,
{
    match sp_term(t, i) {
        Err(e) => Err(e),
        Ok((n, j0)) => sp_expr_more(t, clamp_idx(i + 1, t.len() as int, j0), n),
    }
}

pub open spec fn is_sum_op(tok: SpecToken) -> bool {
    tok == SpecToken::Operator(Operator::Plus) || tok == SpecToken::Operator(Operator::Minus)
}

pub open spec fn sp_expr_more(t: Seq<SpecToken>, i: int, acc: SpecAst) -> SpStep
    decreases rem_toks(t, i), 6int,
{
    if 0 <= i < t.len() && is_sum_op(t[i]) {
        let op = t[i]->Operator_0;
        match sp_term(t, i + 1) {
            Err(e) => Err(e),
            Ok((rhs, j)) => sp_expr_more(
                t,
                clamp_idx(i + 2, t.len() as int, j),
                SpecAst::BinOp(Box::new(acc), op, Box::new(rhs)),
            ),
        }
    } else {
        Ok((acc, i))
    }
}

/// `>>` and `<<`, left to right.
pub open spec fn sp_shift(t: Seq<SpecToken>, i: int) -> SpStep
    decreases rem_toks(t, i), 9int,
{
    match sp_expr(t, i) {
        Err(e) => Err(e),
        Ok((n, j0)) => sp_shift_more(t, clamp_idx(i + 1, t.len() as int, j0), n),
    }
}

pub open spec fn is_shift_op(tok: SpecToken) -> bool {
    tok == SpecToken::Operator(Operator::GreaterGreater) || tok == SpecToken::Operator(
        Operator::LessLess,
    )
}

pub open spec fn sp_shift_more(t: Seq<SpecToken>, i: int, acc: SpecAst) -> SpStep
    decreases rem_toks(t, i), 8int,
{
    if 0 <= i < t.len() && is_shift_op(t[i]) {
        let op = t[i]->Operator_0;
        match sp_expr(t, i + 1) {
            Err(e) => Err(e),
            Ok((rhs, j)) => sp_shift_more(
                t,
                clamp_idx(i + 2, t.len() as int, j),
                SpecAst::BinOp(Box::new(acc), op, Box::new(rhs)),
            ),
        }
    } else {
        Ok((acc, i))
    }
}

/// `&`, left to right.
pub open spec fn sp_bitand(t: Seq<SpecToken>, i: int) -> SpStep
    decreases rem_toks(t, i), 11int,
{
    match sp_shift(t, i) {
        Err(e) => Err(e),
        Ok((n, j0)) => sp_bitand_more(t, clamp_idx(i + 1, t.len() as int, j0), n),
    }
}

pub open spec fn sp_bitand_more(t: Seq<SpecToken>, i: int, acc: SpecAst) -> SpStep
    decreases rem_toks(t, i), 10int,
{
    if 0 <= i < t.len() && t[i] == SpecToken::Operator(Operator::Ampersand) {
        match sp_shift(t, i + 1) {
            Err(e) => Err(e),
            Ok((rhs, j)) => sp_bitand_more(
                t,
                clamp_idx(i + 2, t.len() as int, j),
                SpecAst::BinOp(Box::new(acc), Operator::Ampersand, Box::new(rhs)),
            ),
        }
    } else {
        Ok((acc, i))
    }
}

/// `^`, left to right.
pub open spec fn sp_bitxor(t: Seq<SpecToken>, i: int) -> SpStep
    decreases rem_toks(t, i), 13int,
{
    match sp_bitand(t, i) {
        Err(e) => Err(e),
        Ok((n, j0)) => sp_bitxor_more(t, clamp_idx(i + 1, t.len() as int, j0), n),
    }
}

pub open spec fn sp_bitxor_more(t: Seq<SpecToken>, i: int, acc: SpecAst) -> SpStep
    decreases rem_toks(t, i), 12int,
{
    if 0 <= i < t.len() && t[i] == SpecToken::Operator(Operator::Caret) {
        match sp_bitand(t, i + 1) {
            Err(e) => Err(e),
            Ok((rhs, j)) => sp_bitxor_more(
                t,
                clamp_idx(i + 2, t.len() as int, j),
                SpecAst::BinOp(Box::new(acc), Operator::Caret, Box::new(rhs)),
            ),
        }
    } else {
        Ok((acc, i))
    }
}

/// `|`, left to right.
pub open spec fn sp_bitor(t: Seq<SpecToken>, i: int) -> SpStep
    decreases rem_toks(t, i), 15int,
{
    match sp_bitxor(t, i) {
        Err(e) => Err(e),
        Ok((n, j0)) => sp_bitor_more(t, clamp_idx(i + 1, t.len() as int, j0), n),
    }
}

pub open spec fn sp_bitor_more(t: Seq<SpecToken>, i: int, acc: SpecAst) -> SpStep
    decreases rem_toks(t, i), 14int,
{
    if 0 <= i < t.len() && t[i] == SpecToken::Operator(Operator::Pipe) {
        match sp_bitxor(t, i + 1) {
            Err(e) => Err(e),
            Ok((rhs, j)) => sp_bitor_more(
                t,
                clamp_idx(i + 2, t.len() as int, j),
                SpecAst::BinOp(Box::new(acc), Operator::Pipe, Box::new(rhs)),
            ),
        }
    } else {
        Ok((acc, i))
    }
}

/// The comparison level: an optional `!` prefix negating the whole
/// comparison, then chains of `== != > < >= <=`, left to right.
pub open spec fn sp_comparison(t: Seq<SpecToken>, i: int) -> SpStep
    decreases rem_toks(t, i), 17int,
{
    if 0 <= i < t.len() && t[i] == SpecToken::Operator(Operator::Exclamation) {
        match sp_comparison(t, i + 1) {
            Err(e) => Err(e),
            Ok((n, j)) => Ok((SpecAst::UnOp(Operator::Exclamation, Box::new(n)), j)),
        }
    } else {
        match sp_bitor(t, i) {
            Err(e) => Err(e),
            Ok((n, j0)) => sp_cmp_more(t, clamp_idx(i + 1, t.len() as int, j0), n),
        }
    }
}

pub open spec fn is_cmp_op(tok: SpecToken) -> bool {
    tok == SpecToken::Operator(Operator::EqualsEquals) || tok == SpecToken::Operator(
        Operator::ExclamationEquals,
    ) || tok == SpecToken::Operator(Operator::Greater) || tok == SpecToken::Operator(
        Operator::Less,
    ) || tok == SpecToken::Operator(Operator::GreaterEquals) || tok == SpecToken::Operator(
        Operator::LessEquals,
    )
}

pub open spec fn sp_cmp_more(t: Seq<SpecToken>, i: int, acc: SpecAst) -> SpStep
    decreases rem_toks(t, i), 16int,
{
    if 0 <= i < t.len() && is_cmp_op(t[i]) {
        let op = t[i]->Operator_0;
        match sp_bitor(t, i + 1) {
            Err(e) => Err(e),
            Ok((rhs, j)) => sp_cmp_more(
                t,
                clamp_idx(i + 2, t.len() as int, j),
                SpecAst::BinOp(Box::new(acc), op, Box::new(rhs)),
            ),
        }
    } else {
        Ok((acc, i))
    }
}

/// The statement level: a `let` declaration, or anything the comparison
/// level accepts (which itself turns `identifier =` into an assignment).
pub open spec fn sp_createvar(t: Seq<SpecToken>, i: int) -> SpStep
    decreases rem_toks(t, i), 18int,
{
    if 0 <= i < t.len() && t[i] == SpecToken::Ident(kw_let()) {
        if i + 1 >= t.len() {
            Err(SpecParseError::UnexpectedEndOfInput)
        } else {
            match t[i + 1] {
                SpecToken::Ident(nm) => {
                    if spec_is_keyword(nm) {
                        Err(SpecParseError::ReservedIdentifier(nm))
                    } else if i + 2 >= t.len() {
                        Err(SpecParseError::UnexpectedEndOfInput)
                    } else if t[i + 2] == SpecToken::Operator(Operator::Equals) {
                        match sp_comparison(t, i + 3) {
                            Err(e) => Err(e),
                            Ok((n, j)) => Ok((SpecAst::VarCreate(nm, Box::new(n)), j)),
                        }
                    } else if t[i + 2] == SpecToken::Eof {
                        Err(SpecParseError::UnexpectedEndOfInput)
                    } else {
                        Err(SpecParseError::UnexpectedToken(t[i + 2]))
                    }
                },
                SpecToken::Eof => Err(SpecParseError::UnexpectedEndOfInput),
                _ => Err(SpecParseError::UnexpectedToken(t[i + 1])),
            }
        }
    } else {
        sp_comparison(t, i)
    }
}

/// The model of the parser: one statement from the front of the token
/// sequence; what follows the statement is the caller's concern.
pub open spec fn sp_parse(t: Seq<SpecToken>) -> Result<SpecAst, SpecParseError> {
    match sp_createvar(t, 0) {
        Err(e) => Err(e),
        Ok((n, _j)) => Ok(n),
    }
}


impl Clone for Token {
    /// A deep copy; the model of the copy is the model of the original.
    fn clone(&self) -> (r: Self)
        ensures
            r@ == self@,
    {
        match self {
            Token::Number(b) => Token::Number(*b),
            Token::Ident(s) => Token::Ident(s.clone()),
            Token::StringLiteral(s) => Token::StringLiteral(s.clone()),
            Token::CharLiteral(c) => Token::CharLiteral(*c),
            Token::Operator(op) => Token::Operator(*op),
            Token::Eof => Token::Eof,
        }
    }
}

/// Parses an atom that is an identifier: an assignment target, a named
/// constant, or a variable access.
#[verifier::rlimit(100)]
#[verifier::spinoff_prover]
fn parse_atom_ident(tokens: &Vec<Token>, i: usize) -> (r: Result<(AstNode, usize), ParseError>)
    requires
        i < tokens@.len(),
        tokens.deep_view()[i as int] is Ident,
    ensures
        (match r {
            Ok((n, j)) => sp_atom(tokens.deep_view(), i as int) == Ok::<(SpecAst, int),
                SpecParseError,
            >((n@, j as int)) && i < j <= tokens@.len(),
            Err(e) => sp_atom(tokens.deep_view(), i as int) == Err::<(SpecAst, int),
                SpecParseError,
            >(e@),
        }),
    decreases tokens@.len() - i, 1int,
{
    let ln: usize = tokens.len();
    let nm: &String = match &tokens[i] {
        Token::Ident(nm) => nm,
        _ => {
            return Err(ParseError::UnexpectedEndOfInput);
        },
    };
    if i + 1 < ln && matches!(&tokens[i + 1], Token::Operator(Operator::Equals)) {
        if is_keyword(nm.as_str()) {
            Err(ParseError::ReservedIdentifier(nm.clone()))
        } else {
            match parse_comparison(tokens, i + 2) {
                Err(e) => Err(e),
                Ok((n, j)) => Ok((AstNode::VarAssign(nm.clone(), Box::new(n)), j)),
            }
        }
    } else if str_is3(nm.as_str(), 'i', 'n', 'f') {
        Ok((AstNode::Number(BITS_INF), i + 1))
    } else if str_is3(nm.as_str(), 'N', 'a', 'N') {
        Ok((AstNode::Number(BITS_NAN), i + 1))
    } else if str_is4(nm.as_str(), 't', 'r', 'u', 'e') {
        Ok((AstNode::Bool(true), i + 1))
    } else if str_is5(nm.as_str(), 'f', 'a', 'l', 's', 'e') {
        Ok((AstNode::Bool(false), i + 1))
    } else {
        Ok((AstNode::VarAccess(nm.clone()), i + 1))
    }
}

/// Consumes the closing parenthesis of a group whose body ended at `j`.
fn expect_rparen(tokens: &Vec<Token>, j: usize) -> (r: Result<usize, ParseError>)
    requires
        j <= tokens@.len(),
    ensures
        (match r {
            Ok(j2) => j2 == j + 1 && (j as int) < tokens@.len() && tokens.deep_view()[j as int]
                == SpecToken::Operator(Operator::Parenthesis(Parenthesis::RParen)),
            Err(e) => (match e@ {
                SpecParseError::UnclosedGroup => j >= tokens@.len() || tokens.deep_view()[j as int]
                    == SpecToken::Eof,
                SpecParseError::UnexpectedToken(tk) => (j as int) < tokens@.len() && tk
                    == tokens.deep_view()[j as int] && !(tokens.deep_view()[j as int]
                    == SpecToken::Operator(Operator::Parenthesis(Parenthesis::RParen)))
                    && !(tokens.deep_view()[j as int] == SpecToken::Eof),
                _ => false,
            }),
        }),
{
    if j < tokens.len() && matches!(
        &tokens[j],
        Token::Operator(Operator::Parenthesis(Parenthesis::RParen)),
    ) {
        Ok(j + 1)
    } else if j >= tokens.len() || matches!(&tokens[j], Token::Eof) {
        Err(ParseError::UnclosedGroup)
    } else {
        Err(ParseError::UnexpectedToken(tokens[j].clone()))
    }
}

/// Parses an atom that begins with an operator token: only a parenthesized
/// group is accepted.
#[verifier::rlimit(100)]
#[verifier::spinoff_prover]
fn parse_atom_group(tokens: &Vec<Token>, i: usize) -> (r: Result<(AstNode, usize), ParseError>)
    requires
        i < tokens@.len(),
        tokens.deep_view()[i as int] is Operator,
    ensures
        (match r {
            Ok((n, j)) => sp_atom(tokens.deep_view(), i as int) == Ok::<(SpecAst, int),
                SpecParseError,
            >((n@, j as int)) && i < j <= tokens@.len(),
            Err(e) => sp_atom(tokens.deep_view(), i as int) == Err::<(SpecAst, int),
                SpecParseError,
            >(e@),
        }),
    decreases tokens@.len() - i, 1int,
{
    let ln: usize = tokens.len();
    let op: Operator = match &tokens[i] {
        Token::Operator(op) => *op,
        _ => {
            return Err(ParseError::UnexpectedEndOfInput);
        },
    };
    if matches!(op, Operator::Parenthesis(Parenthesis::LParen)) {
        match parse_comparison(tokens, i + 1) {
            Err(e) => Err(e),
            Ok((n, j)) => match expect_rparen(tokens, j) {
                Ok(j2) => Ok((n, j2)),
                Err(e) => Err(e),
            },
        }
    } else {
        Err(ParseError::UnexpectedToken(Token::Operator(op)))
    }
}

/// Parses one atom, handing back the node and the position after it.
#[verifier::rlimit(100)]
pub fn parse_atom(tokens: &Vec<Token>, i: usize) -> (r: Result<(AstNode, usize), ParseError>)
    requires
        i <= tokens@.len(),
    ensures
        (match r {
            Ok((n, j)) => sp_atom(tokens.deep_view(), i as int) == Ok::<(SpecAst, int),
                SpecParseError,
            >((n@, j as int)) && i < j <= tokens@.len(),
            Err(e) => sp_atom(tokens.deep_view(), i as int) == Err::<(SpecAst, int),
                SpecParseError,
            >(e@),
        }),
    decreases tokens@.len() - i, 2int,
{
    if i >= tokens.len() {
        return Err(ParseError::UnexpectedEndOfInput);
    }
    match &tokens[i] {
        Token::Number(b) => Ok((AstNode::Number(*b), i + 1)),
        Token::StringLiteral(st) => Ok((AstNode::StringLiteral(st.clone()), i + 1)),
        Token::CharLiteral(c) => Ok((AstNode::Char(*c), i + 1)),
        Token::Eof => Err(ParseError::UnexpectedEndOfInput),
        Token::Ident(_) => parse_atom_ident(tokens, i),
        Token::Operator(_) => parse_atom_group(tokens, i),
    }
}

/// Parses a `**` chain above an already parsed left operand.
fn parse_power_more(tokens: &Vec<Token>, i: usize, acc: AstNode) -> (r: Result<
    (AstNode, usize),
    ParseError,
>)
    requires
        i <= tokens@.len(),
    ensures
        (match r {
            Ok((n, j)) => sp_power_more(tokens.deep_view(), i as int, acc@) == Ok::<
                (SpecAst, int),
                SpecParseError,
            >((n@, j as int)) && i <= j <= tokens@.len(),
            Err(e) => sp_power_more(tokens.deep_view(), i as int, acc@) == Err::<
                (SpecAst, int),
                SpecParseError,
            >(e@),
        }),
    decreases tokens@.len() - i, 3int,
{
    if i < tokens.len() && matches!(&tokens[i], Token::Operator(Operator::StarStar)) {
        match parse_factor(tokens, i + 1) {
            Err(e) => Err(e),
            Ok((rhs, j)) => parse_power_more(
                tokens,
                j,
                AstNode::BinOp(Box::new(acc), Operator::StarStar, Box::new(rhs)),
            ),
        }
    } else {
        Ok((acc, i))
    }
}

/// Parses the power level: an atom and any `**` chain after it.
pub fn parse_power(tokens: &Vec<Token>, i: usize) -> (r: Result<(AstNode, usize), ParseError>)
    requires
        i <= tokens@.len(),
    ensures
        (match r {
            Ok((n, j)) => sp_power(tokens.deep_view(), i as int) == Ok::<(SpecAst, int),
                SpecParseError,
            >((n@, j as int)) && i < j <= tokens@.len(),
            Err(e) => sp_power(tokens.deep_view(), i as int) == Err::<(SpecAst, int),
                SpecParseError,
            >(e@),
        }),
    decreases tokens@.len() - i, 4int,
{
    match parse_atom(tokens, i) {
        Err(e) => Err(e),
        Ok((n, j)) => parse_power_more(tokens, j, n),
    }
}

/// Parses the unary level: `+` and `-` prefixes.
pub fn parse_factor(tokens: &Vec<Token>, i: usize) -> (r: Result<(AstNode, usize), ParseError>)
    requires
        i <= tokens@.len(),
    ensures
        (match r {
            Ok((n, j)) => sp_factor(tokens.deep_view(), i as int) == Ok::<(SpecAst, int),
                SpecParseError,
            >((n@, j as int)) && i < j <= tokens@.len(),
            Err(e) => sp_factor(tokens.deep_view(), i as int) == Err::<(SpecAst, int),
                SpecParseError,
            >(e@),
        }),
    decreases tokens@.len() - i, 5int,
{
    if i >= tokens.len() {
        return Err(ParseError::UnexpectedEndOfInput);
    }
    if matches!(&tokens[i], Token::Operator(Operator::Plus)) || matches!(
        &tokens[i],
        Token::Operator(Operator::Minus),
    ) {
        let op: Operator = if matches!(&tokens[i], Token::Operator(Operator::Plus)) {
            Operator::Plus
        } else {
            Operator::Minus
        };
        match parse_factor(tokens, i + 1) {
            Err(e) => Err(e),
            Ok((n, j)) => Ok((AstNode::UnOp(op, Box::new(n)), j)),
        }
    } else if matches!(&tokens[i], Token::Eof) {
        Err(ParseError::UnexpectedEndOfInput)
    } else {
        parse_power(tokens, i)
    }
}

/// Parses a `*` `/` `%` chain above an already parsed left operand.
fn parse_term_more(tokens: &Vec<Token>, i: usize, acc: AstNode) -> (r: Result<
    (AstNode, usize),
    ParseError,
>)
    requires
        i <= tokens@.len(),
    ensures
        (match r {
            Ok((n, j)) => sp_term_more(tokens.deep_view(), i as int, acc@) == Ok::<
                (SpecAst, int),
                SpecParseError,
            >((n@, j as int)) && i <= j <= tokens@.len(),
            Err(e) => sp_term_more(tokens.deep_view(), i as int, acc@) == Err::<
                (SpecAst, int),
                SpecParseError,
            >(e@),
        }),
    decreases tokens@.len() - i, 6int,
{
    if i < tokens.len() && (matches!(&tokens[i], Token::Operator(Operator::Star)) || matches!(
        &tokens[i],
        Token::Operator(Operator::Slash),
    ) || matches!(&tokens[i], Token::Operator(Operator::Percent))) {
        let op: Operator = match &tokens[i] {
            Token::Operator(Operator::Star) => Operator::Star,
            Token::Operator(Operator::Slash) => Operator::Slash,
            _ => Operator::Percent,
        };
        match parse_factor(tokens, i + 1) {
            Err(e) => Err(e),
            Ok((rhs, j)) => parse_term_more(
                tokens,
                j,
                AstNode::BinOp(Box::new(acc), op, Box::new(rhs)),
            ),
        }
    } else {
        Ok((acc, i))
    }
}

/// Parses the term level: `*`, `/` and `%`, left to right.
pub fn parse_term(tokens: &Vec<Token>, i: usize) -> (r: Result<(AstNode, usize), ParseError>)
    requires
        i <= tokens@.len(),
    ensures
        (match r {
            Ok((n, j)) => sp_term(tokens.deep_view(), i as int) == Ok::<(SpecAst, int),
                SpecParseError,
            >((n@, j as int)) && i < j <= tokens@.len(),
            Err(e) => sp_term(tokens.deep_view(), i as int) == Err::<(SpecAst, int),
                SpecParseError,
            >(e@),
        }),
    decreases tokens@.len() - i, 7int,
{
    match parse_factor(tokens, i) {
        Err(e) => Err(e),
        Ok((n, j)) => parse_term_more(tokens, j, n),
    }
}

/// Parses a `+`/`-` chain above an already parsed left operand.
fn parse_expr_more(tokens: &Vec<Token>, i: usize, acc: AstNode) -> (r: Result<
    (AstNode, usize),
    ParseError,
>)
    requires
        i <= tokens@.len(),
    ensures
        (match r {
            Ok((n, j)) => sp_expr_more(tokens.deep_view(), i as int, acc@) == Ok::<
                (SpecAst, int),
                SpecParseError,
            >((n@, j as int)) && i <= j <= tokens@.len(),
            Err(e) => sp_expr_more(tokens.deep_view(), i as int, acc@) == Err::<
                (SpecAst, int),
                SpecParseError,
            >(e@),
        }),
    decreases tokens@.len() - i, 8int,
{
    if i < tokens.len() && (matches!(&tokens[i], Token::Operator(Operator::Plus)) || matches!(
        &tokens[i],
        Token::Operator(Operator::Minus),
    )) {
        let op: Operator = if matches!(&tokens[i], Token::Operator(Operator::Plus)) {
            Operator::Plus
        } else {
            Operator::Minus
        };
        match parse_term(tokens, i + 1) {
            Err(e) => Err(e),
            Ok((rhs, j)) => parse_expr_more(
                tokens,
                j,
                AstNode::BinOp(Box::new(acc), op, Box::new(rhs)),
            ),
        }
    } else {
        Ok((acc, i))
    }
}

/// Parses the sum level: `+` and `-`, left to right.
pub fn parse_expr(tokens: &Vec<Token>, i: usize) -> (r: Result<(AstNode, usize), ParseError>)
    requires
        i <= tokens@.len(),
    ensures
        (match r {
            Ok((n, j)) => sp_expr(tokens.deep_view(), i as int) == Ok::<(SpecAst, int),
                SpecParseError,
            >((n@, j as int)) && i < j <= tokens@.len(),
            Err(e) => sp_expr(tokens.deep_view(), i as int) == Err::<(SpecAst, int),
                SpecParseError,
            >(e@),
        }),
    decreases tokens@.len() - i, 9int,
{
    match parse_term(tokens, i) {
        Err(e) => Err(e),
        Ok((n, j)) => parse_expr_more(tokens, j, n),
    }
}

/// Parses a `>>`/`<<` chain above an already parsed left operand.
fn parse_shift_more(tokens: &Vec<Token>, i: usize, acc: AstNode) -> (r: Result<
    (AstNode, usize),
    ParseError,
>)
    requires
        i <= tokens@.len(),
    ensures
        (match r {
            Ok((n, j)) => sp_shift_more(tokens.deep_view(), i as int, acc@) == Ok::<
                (SpecAst, int),
                SpecParseError,
            >((n@, j as int)) && i <= j <= tokens@.len(),
            Err(e) => sp_shift_more(tokens.deep_view(), i as int, acc@) == Err::<
                (SpecAst, int),
                SpecParseError,
            >(e@),
        }),
    decreases tokens@.len() - i, 10int,
{
    if i < tokens.len() && (matches!(&tokens[i], Token::Operator(Operator::GreaterGreater))
        || matches!(&tokens[i], Token::Operator(Operator::LessLess))) {
        let op: Operator = if matches!(&tokens[i], Token::Operator(Operator::GreaterGreater)) {
            Operator::GreaterGreater
        } else {
            Operator::LessLess
        };
        match parse_expr(tokens, i + 1) {
            Err(e) => Err(e),
            Ok((rhs, j)) => parse_shift_more(
                tokens,
                j,
                AstNode::BinOp(Box::new(acc), op, Box::new(rhs)),
            ),
        }
    } else {
        Ok((acc, i))
    }
}

/// Parses the shift level: `>>` and `<<`, left to right.
pub fn parse_shift(tokens: &Vec<Token>, i: usize) -> (r: Result<(AstNode, usize), ParseError>)
    requires
        i <= tokens@.len(),
    ensures
        (match r {
            Ok((n, j)) => sp_shift(tokens.deep_view(), i as int) == Ok::<(SpecAst, int),
                SpecParseError,
            >((n@, j as int)) && i < j <= tokens@.len(),
            Err(e) => sp_shift(tokens.deep_view(), i as int) == Err::<(SpecAst, int),
                SpecParseError,
            >(e@),
        }),
    decreases tokens@.len() - i, 11int,
{
    match parse_expr(tokens, i) {
        Err(e) => Err(e),
        Ok((n, j)) => parse_shift_more(tokens, j, n),
    }
}

/// Parses an `&` chain above an already parsed left operand.
fn parse_bitand_more(tokens: &Vec<Token>, i: usize, acc: AstNode) -> (r: Result<
    (AstNode, usize),
    ParseError,
>)
    requires
        i <= tokens@.len(),
    ensures
        (match r {
            Ok((n, j)) => sp_bitand_more(tokens.deep_view(), i as int, acc@) == Ok::<
                (SpecAst, int),
                SpecParseError,
            >((n@, j as int)) && i <= j <= tokens@.len(),
            Err(e) => sp_bitand_more(tokens.deep_view(), i as int, acc@) == Err::<
                (SpecAst, int),
                SpecParseError,
            >(e@),
        }),
    decreases tokens@.len() - i, 12int,
{
    if i < tokens.len() && matches!(&tokens[i], Token::Operator(Operator::Ampersand)) {
        match parse_shift(tokens, i + 1) {
            Err(e) => Err(e),
            Ok((rhs, j)) => parse_bitand_more(
                tokens,
                j,
                AstNode::BinOp(Box::new(acc), Operator::Ampersand, Box::new(rhs)),
            ),
        }
    } else {
        Ok((acc, i))
    }
}

/// Parses the bitwise-and level.
pub fn parse_bitand(tokens: &Vec<Token>, i: usize) -> (r: Result<(AstNode, usize), ParseError>)
    requires
        i <= tokens@.len(),
    ensures
        (match r {
            Ok((n, j)) => sp_bitand(tokens.deep_view(), i as int) == Ok::<(SpecAst, int),
                SpecParseError,
            >((n@, j as int)) && i < j <= tokens@.len(),
            Err(e) => sp_bitand(tokens.deep_view(), i as int) == Err::<(SpecAst, int),
                SpecParseError,
            >(e@),
        }),
    decreases tokens@.len() - i, 13int,
{
    match parse_shift(tokens, i) {
        Err(e) => Err(e),
        Ok((n, j)) => parse_bitand_more(tokens, j, n),
    }
}

/// Parses a `^` chain above an already parsed left operand.
fn parse_bitxor_more(tokens: &Vec<Token>, i: usize, acc: AstNode) -> (r: Result<
    (AstNode, usize),
    ParseError,
>)
    requires
        i <= tokens@.len(),
    ensures
        (match r {
            Ok((n, j)) => sp_bitxor_more(tokens.deep_view(), i as int, acc@) == Ok::<
                (SpecAst, int),
                SpecParseError,
            >((n@, j as int)) && i <= j <= tokens@.len(),
            Err(e) => sp_bitxor_more(tokens.deep_view(), i as int, acc@) == Err::<
                (SpecAst, int),
                SpecParseError,
            >(e@),
        }),
    decreases tokens@.len() - i, 14int,
{
    if i < tokens.len() && matches!(&tokens[i], Token::Operator(Operator::Caret)) {
        match parse_bitand(tokens, i + 1) {
            Err(e) => Err(e),
            Ok((rhs, j)) => parse_bitxor_more(
                tokens,
                j,
                AstNode::BinOp(Box::new(acc), Operator::Caret, Box::new(rhs)),
            ),
        }
    } else {
        Ok((acc, i))
    }
}

/// Parses the bitwise-xor level.
pub fn parse_bitxor(tokens: &Vec<Token>, i: usize) -> (r: Result<(AstNode, usize), ParseError>)
    requires
        i <= tokens@.len(),
    ensures
        (match r {
            Ok((n, j)) => sp_bitxor(tokens.deep_view(), i as int) == Ok::<(SpecAst, int),
                SpecParseError,
            >((n@, j as int)) && i < j <= tokens@.len(),
            Err(e) => sp_bitxor(tokens.deep_view(), i as int) == Err::<(SpecAst, int),
                SpecParseError,
            >(e@),
        }),
    decreases tokens@.len() - i, 15int,
{
    match parse_bitand(tokens, i) {
        Err(e) => Err(e),
        Ok((n, j)) => parse_bitxor_more(tokens, j, n),
    }
}

/// Parses a `|` chain above an already parsed left operand.
fn parse_bitor_more(tokens: &Vec<Token>, i: usize, acc: AstNode) -> (r: Result<
    (AstNode, usize),
    ParseError,
>)
    requires
        i <= tokens@.len(),
    ensures
        (match r {
            Ok((n, j)) => sp_bitor_more(tokens.deep_view(), i as int, acc@) == Ok::<
                (SpecAst, int),
                SpecParseError,
            >((n@, j as int)) && i <= j <= tokens@.len(),
            Err(e) => sp_bitor_more(tokens.deep_view(), i as int, acc@) == Err::<
                (SpecAst, int),
                SpecParseError,
            >(e@),
        }),
    decreases tokens@.len() - i, 16int,
{
    if i < tokens.len() && matches!(&tokens[i], Token::Operator(Operator::Pipe)) {
        match parse_bitxor(tokens, i + 1) {
            Err(e) => Err(e),
            Ok((rhs, j)) => parse_bitor_more(
                tokens,
                j,
                AstNode::BinOp(Box::new(acc), Operator::Pipe, Box::new(rhs)),
            ),
        }
    } else {
        Ok((acc, i))
    }
}

/// Parses the bitwise-or level.
pub fn parse_bitor(tokens: &Vec<Token>, i: usize) -> (r: Result<(AstNode, usize), ParseError>)
    requires
        i <= tokens@.len(),
    ensures
        (match r {
            Ok((n, j)) => sp_bitor(tokens.deep_view(), i as int) == Ok::<(SpecAst, int),
                SpecParseError,
            >((n@, j as int)) && i < j <= tokens@.len(),
            Err(e) => sp_bitor(tokens.deep_view(), i as int) == Err::<(SpecAst, int),
                SpecParseError,
            >(e@),
        }),
    decreases tokens@.len() - i, 17int,
{
    match parse_bitxor(tokens, i) {
        Err(e) => Err(e),
        Ok((n, j)) => parse_bitor_more(tokens, j, n),
    }
}

/// Parses a comparison chain above an already parsed left operand.
#[verifier::rlimit(100)]
#[verifier::spinoff_prover]
fn parse_cmp_more(tokens: &Vec<Token>, i: usize, acc: AstNode) -> (r: Result<
    (AstNode, usize),
    ParseError,
>)
    requires
        i <= tokens@.len(),
    ensures
        (match r {
            Ok((n, j)) => sp_cmp_more(tokens.deep_view(), i as int, acc@) == Ok::<
                (SpecAst, int),
                SpecParseError,
            >((n@, j as int)) && i <= j <= tokens@.len(),
            Err(e) => sp_cmp_more(tokens.deep_view(), i as int, acc@) == Err::<
                (SpecAst, int),
                SpecParseError,
            >(e@),
        }),
    decreases tokens@.len() - i, 18int,
{
    if i < tokens.len() && (matches!(&tokens[i], Token::Operator(Operator::EqualsEquals))
        || matches!(&tokens[i], Token::Operator(Operator::ExclamationEquals)) || matches!(
        &tokens[i],
        Token::Operator(Operator::Greater),
    ) || matches!(&tokens[i], Token::Operator(Operator::Less)) || matches!(
        &tokens[i],
        Token::Operator(Operator::GreaterEquals),
    ) || matches!(&tokens[i], Token::Operator(Operator::LessEquals))) {
        let op: Operator = match &tokens[i] {
            Token::Operator(Operator::EqualsEquals) => Operator::EqualsEquals,
            Token::Operator(Operator::ExclamationEquals) => Operator::ExclamationEquals,
            Token::Operator(Operator::Greater) => Operator::Greater,
            Token::Operator(Operator::Less) => Operator::Less,
            Token::Operator(Operator::GreaterEquals) => Operator::GreaterEquals,
            _ => Operator::LessEquals,
        };
        match parse_bitor(tokens, i + 1) {
            Err(e) => Err(e),
            Ok((rhs, j)) => parse_cmp_more(
                tokens,
                j,
                AstNode::BinOp(Box::new(acc), op, Box::new(rhs)),
            ),
        }
    } else {
        Ok((acc, i))
    }
}

/// Parses the comparison level, with its optional `!` prefix.
#[verifier::rlimit(100)]
#[verifier::spinoff_prover]
pub fn parse_comparison(tokens: &Vec<Token>, i: usize) -> (r: Result<(AstNode, usize), ParseError>)
    requires
        i <= tokens@.len(),
    ensures
        (match r {
            Ok((n, j)) => sp_comparison(tokens.deep_view(), i as int) == Ok::<(SpecAst, int),
                SpecParseError,
            >((n@, j as int)) && i < j <= tokens@.len(),
            Err(e) => sp_comparison(tokens.deep_view(), i as int) == Err::<(SpecAst, int),
                SpecParseError,
            >(e@),
        }),
    decreases tokens@.len() - i, 19int,
{
    if i < tokens.len() && matches!(&tokens[i], Token::Operator(Operator::Exclamation)) {
        match parse_comparison(tokens, i + 1) {
            Err(e) => Err(e),
            Ok((n, j)) => Ok((AstNode::UnOp(Operator::Exclamation, Box::new(n)), j)),
        }
    } else {
        match parse_bitor(tokens, i) {
            Err(e) => Err(e),
            Ok((n, j)) => parse_cmp_more(tokens, j, n),
        }
    }
}

/// Parses one statement: a `let` declaration, an assignment or an
/// expression.
pub fn parse_createvar(tokens: &Vec<Token>, i: usize) -> (r: Result<(AstNode, usize), ParseError>)
    requires
        i <= tokens@.len(),
    ensures
        (match r {
            Ok((n, j)) => sp_createvar(tokens.deep_view(), i as int) == Ok::<(SpecAst, int),
                SpecParseError,
            >((n@, j as int)) && i < j <= tokens@.len(),
            Err(e) => sp_createvar(tokens.deep_view(), i as int) == Err::<(SpecAst, int),
                SpecParseError,
            >(e@),
        }),
    decreases tokens@.len() - i, 20int,
{
    let is_let: bool = if i < tokens.len() {
        match &tokens[i] {
            Token::Ident(nm) => str_is3(nm.as_str(), 'l', 'e', 't'),
            _ => false,
        }
    } else {
        false
    };
    if is_let {
        if i + 1 >= tokens.len() {
            return Err(ParseError::UnexpectedEndOfInput);
        }
        match &tokens[i + 1] {
            Token::Ident(nm) => {
                if is_keyword(nm.as_str()) {
                    Err(ParseError::ReservedIdentifier(nm.clone()))
                } else if i + 2 >= tokens.len() {
                    Err(ParseError::UnexpectedEndOfInput)
                } else if matches!(&tokens[i + 2], Token::Operator(Operator::Equals)) {
                    match parse_comparison(tokens, i + 3) {
                        Err(e) => Err(e),
                        Ok((n, j)) => Ok((AstNode::VarCreate(nm.clone(), Box::new(n)), j)),
                    }
                } else if matches!(&tokens[i + 2], Token::Eof) {
                    Err(ParseError::UnexpectedEndOfInput)
                } else {
                    Err(ParseError::UnexpectedToken(tokens[i + 2].clone()))
                }
            },
            Token::Eof => Err(ParseError::UnexpectedEndOfInput),
            _ => Err(ParseError::UnexpectedToken(tokens[i + 1].clone())),
        }
    } else {
        parse_comparison(tokens, i)
    }
}

/// Parses one top-level statement from a token sequence: exactly what
/// `sp_parse` says.
pub fn parse(tokens: Vec<Token>) -> (r: Result<AstNode, ParseError>)
    ensures
        (match r {
            Ok(n) => sp_parse(tokens.deep_view()) == Ok::<SpecAst, SpecParseError>(n@),
            Err(e) => sp_parse(tokens.deep_view()) == Err::<SpecAst, SpecParseError>(e@),
        }),
{
    match parse_createvar(&tokens, 0) {
        Err(e) => Err(e),
        Ok((n, _j)) => Ok(n),
    }
}

} // verus!
