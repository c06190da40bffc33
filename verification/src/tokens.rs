//! Lexical tokens of the language, and the lexer's and parser's error types.

use vstd::prelude::*;

verus! {

/// Grouping punctuation.
#[derive(Clone, Copy, PartialEq, Eq, Structural, Debug)]
pub enum Parenthesis {
    LParen,
    RParen,
    LBracket,
    RBracket,
    LCurly,
    RCurly,
}

/// Every operator and punctuation mark the lexer recognises.
#[derive(Clone, Copy, PartialEq, Eq, Structural, Debug)]
pub enum Operator {
    Equals,
    Plus,
    Minus,
    Star,
    StarStar,
    Slash,
    Percent,
    Colon,
    Semicolon,
    Exclamation,
    Pipe,
    Ampersand,
    Caret,
    Greater,
    Less,
    GreaterGreater,
    LessLess,
    GreaterEquals,
    LessEquals,
    EqualsEquals,
    ExclamationEquals,
    Dot,
    Parenthesis(Parenthesis),
}

/// One lexical token.  A number literal carries the IEEE-754 encoding of its
/// value; the token sequence always ends with an explicit `Eof`.
#[derive(Debug)]
pub enum Token {
    Number(u64),
    Ident(String),
    StringLiteral(String),
    CharLiteral(char),
    Operator(Operator),
    Eof,
}

/// The mathematical model of a token: strings are their character sequences.
pub enum SpecToken {
    Number(u64),
    Ident(Seq<char>),
    StringLiteral(Seq<char>),
    CharLiteral(char),
    Operator(Operator),
    Eof,
}

impl DeepView for Token {
    type V = SpecToken;

    open spec fn deep_view(&self) -> SpecToken {
        self.view()
    }
}

impl View for Token {
    type V = SpecToken;

    open spec fn view(&self) -> SpecToken {
        match self {
            Token::Number(b) => SpecToken::Number(*b),
            Token::Ident(s) => SpecToken::Ident(s@),
            Token::StringLiteral(s) => SpecToken::StringLiteral(s@),
            Token::CharLiteral(c) => SpecToken::CharLiteral(*c),
            Token::Operator(op) => SpecToken::Operator(*op),
            Token::Eof => SpecToken::Eof,
        }
    }
}

/// A failure of the tokenizer; each statement is rejected as a whole.
#[derive(Clone, Copy, PartialEq, Eq, Structural, Debug)]
pub enum LexError {
    UnexpectedCharacter(char),
    MalformedNumber,
    UnterminatedString,
    UnterminatedChar,
    UnknownEscape(char),
    CharLiteralTooLong,
    EmptyCharLiteral,
}

/// A failure of the parser.
#[derive(Debug)]
pub enum ParseError {
    UnexpectedToken(Token),
    UnexpectedEndOfInput,
    ReservedIdentifier(String),
    UnclosedGroup,
}

/// The mathematical model of a parse error.
pub enum SpecParseError {
    UnexpectedToken(SpecToken),
    UnexpectedEndOfInput,
    ReservedIdentifier(Seq<char>),
    UnclosedGroup,
}

impl View for ParseError {
    type V = SpecParseError;

    open spec fn view(&self) -> SpecParseError {
        match self {
            ParseError::UnexpectedToken(t) => SpecParseError::UnexpectedToken(t@),
            ParseError::UnexpectedEndOfInput => SpecParseError::UnexpectedEndOfInput,
            ParseError::ReservedIdentifier(s) => SpecParseError::ReservedIdentifier(s@),
            ParseError::UnclosedGroup => SpecParseError::UnclosedGroup,
        }
    }
}

} // verus!
