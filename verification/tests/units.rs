//! Unit-level behaviour: the lexer, the parser's errors, the environment,
//! the value operations and the bit-level double helpers.

use cringelang::context::Context;
use cringelang::double::cmp_double;
use cringelang::double::FloatOrd;
use cringelang::double::ex_cast_i64;
use cringelang::double::ex_cast_u32;
use cringelang::double::ex_cast_u64;
use cringelang::double::ex_cast_u8;
use cringelang::double::ex_enc_i64;
use cringelang::double::ex_enc_u64;
use cringelang::double::ex_is_integral;
use cringelang::double::pow_double;
use cringelang::lexer::chars_of;
use cringelang::lexer::lex;
use cringelang::lexer::make_name;
use cringelang::lexer::make_number;
use cringelang::lexer::make_operator;
use cringelang::lexer::make_string;
use cringelang::lexer::make_char;
use cringelang::object::Object;
use cringelang::object::Pow;
use cringelang::object::TypeOf;
use cringelang::object::ValueType;
use cringelang::parser::parse;
use cringelang::tokens::LexError;
use cringelang::tokens::Operator;
use cringelang::tokens::ParseError;
use cringelang::tokens::Token;

#[test]
fn lexes_a_simple_statement() {
    let toks = lex("let x = 41 + 1").expect("lexing failed");
    assert_eq!(toks.len(), 7);
    assert!(matches!(&toks[0], Token::Ident(s) if s == "let"));
    assert!(matches!(&toks[1], Token::Ident(s) if s == "x"));
    assert!(matches!(&toks[2], Token::Operator(Operator::Equals)));
    assert!(matches!(&toks[3], Token::Number(b) if f64::from_bits(*b) == 41.0));
    assert!(matches!(&toks[4], Token::Operator(Operator::Plus)));
    assert!(matches!(&toks[5], Token::Number(b) if f64::from_bits(*b) == 1.0));
    assert!(matches!(&toks[6], Token::Eof));
}

#[test]
fn lexes_multi_character_operators_greedily() {
    let toks = lex("** == != >= <= >> << > < = !").expect("lexing failed");
    let expected = [
        Operator::StarStar,
        Operator::EqualsEquals,
        Operator::ExclamationEquals,
        Operator::GreaterEquals,
        Operator::LessEquals,
        Operator::GreaterGreater,
        Operator::LessLess,
        Operator::Greater,
        Operator::Less,
        Operator::Equals,
        Operator::Exclamation,
    ];
    for (tok, want) in toks.iter().zip(expected.iter()) {
        assert!(matches!(tok, Token::Operator(op) if op == want));
    }
    assert!(matches!(&toks[expected.len()], Token::Eof));
}

#[test]
fn lexes_string_and_char_literals_with_escapes() {
    let toks = lex("\"a\\n\\\"b\" '\\t'").expect("lexing failed");
    assert!(matches!(&toks[0], Token::StringLiteral(s) if s == "a\n\"b"));
    assert!(matches!(&toks[1], Token::CharLiteral(c) if *c == '\t'));
}

#[test]
fn lex_errors() {
    assert!(matches!(lex("@"), Err(LexError::UnexpectedCharacter('@'))));
    assert!(matches!(lex("."), Err(LexError::MalformedNumber)));
    assert!(matches!(lex("\"abc"), Err(LexError::UnterminatedString)));
    assert!(matches!(lex("'a"), Err(LexError::UnterminatedChar)));
    assert!(matches!(lex("'ab'"), Err(LexError::CharLiteralTooLong)));
    assert!(matches!(lex("''"), Err(LexError::EmptyCharLiteral)));
    assert!(matches!(lex("\"a\\qb\""), Err(LexError::UnknownEscape('q'))));
}

#[test]
fn parse_errors() {
    let reserved = parse(lex("let true = 1").expect("lexing failed"));
    assert!(matches!(reserved, Err(ParseError::ReservedIdentifier(s)) if s == "true"));
    let unclosed = parse(lex("(1 + 2").expect("lexing failed"));
    assert!(matches!(unclosed, Err(ParseError::UnclosedGroup)));
    let incomplete = parse(lex("1 +").expect("lexing failed"));
    assert!(matches!(incomplete, Err(ParseError::UnexpectedEndOfInput)));
    let stray = parse(lex(")").expect("lexing failed"));
    assert!(matches!(stray, Err(ParseError::UnexpectedToken(_))));
    let empty = parse(lex("").expect("lexing failed"));
    assert!(matches!(empty, Err(ParseError::UnexpectedEndOfInput)));
}

#[test]
fn make_helpers_scan_their_pieces() {
    let src = chars_of("hello9 \"hi\" 'x' >=");
    let mut i = 0usize;
    let name = make_name(&src, &mut i);
    assert_eq!(name, "hello9");
    assert_eq!(i, 6);

    let mut j = 7usize;
    let s = make_string(&src, &mut j).expect("string scan failed");
    assert_eq!(s, "hi");
    assert_eq!(j, 11);

    let mut k = 12usize;
    let c = make_char(&src, &mut k).expect("char scan failed");
    assert_eq!(c, 'x');
    assert_eq!(k, 15);

    let mut m = 16usize;
    let op = make_operator(&src, &mut m);
    assert!(matches!(op, Operator::GreaterEquals));
    assert_eq!(m, 18);
}

#[test]
fn make_number_encodes_small_literals_exactly() {
    let src = chars_of("123");
    let mut i = 0usize;
    let bits = make_number(&src, &mut i).expect("number scan failed");
    assert_eq!(f64::from_bits(bits), 123.0);
    assert_eq!(i, 3);
}

#[test]
fn make_number_handles_big_literals() {
    let text = "123456789012345678901234567890";
    let src = chars_of(text);
    let mut i = 0usize;
    let bits = make_number(&src, &mut i).expect("number scan failed");
    assert_eq!(f64::from_bits(bits), text.parse::<f64>().unwrap());
}

#[test]
fn environment_declares_shadows_and_assigns() {
    let mut ctx = Context::new();
    assert!(ctx.get("x").is_none());
    ctx.declare("x", &Object::Number(1.0f64.to_bits()));
    assert!(matches!(ctx.get("x"), Some(Object::Number(b)) if f64::from_bits(b) == 1.0));
    ctx.declare("x", &Object::Bool(true));
    assert!(matches!(ctx.get("x"), Some(Object::Bool(true))));
    assert!(ctx.assign("x", &Object::Number(2.0f64.to_bits())).is_ok());
    assert!(matches!(ctx.get("x"), Some(Object::Number(b)) if f64::from_bits(b) == 2.0));
    assert!(ctx.assign("missing", &Object::Bool(false)).is_err());
}

#[test]
fn environment_chain_shadows_and_reaches_outward() {
    let mut outer = Context::new();
    outer.declare("x", &Object::Number(1.0f64.to_bits()));
    outer.declare("y", &Object::Number(10.0f64.to_bits()));
    let mut inner = outer.child();
    inner.declare("x", &Object::Number(2.0f64.to_bits()));
    assert!(matches!(inner.get("x"), Some(Object::Number(b)) if f64::from_bits(b) == 2.0));
    assert!(matches!(inner.get("y"), Some(Object::Number(b)) if f64::from_bits(b) == 10.0));
    assert!(inner.assign("y", &Object::Number(11.0f64.to_bits())).is_ok());
    assert!(matches!(inner.get("y"), Some(Object::Number(b)) if f64::from_bits(b) == 11.0));
    assert!(inner.contains("y"));
    assert!(!inner.contains("z"));
}

#[test]
fn repr_formats_values() {
    assert_eq!(Object::Number(5.0f64.to_bits()).repr(), "5");
    assert_eq!(Object::Number((-7.0f64).to_bits()).repr(), "-7");
    assert_eq!(Object::Number(f64::INFINITY.to_bits()).repr(), "inf");
    assert_eq!(Object::Number(f64::NEG_INFINITY.to_bits()).repr(), "-inf");
    assert_eq!(Object::Number(f64::NAN.to_bits()).repr(), "NaN");
    assert_eq!(Object::Bool(true).repr(), "true");
    assert_eq!(Object::Bool(false).repr(), "false");
    assert_eq!(Object::Char('a').repr(), "'a'");
    assert_eq!(Object::Char('\n').repr(), "'\\n'");
    assert_eq!(Object::Str("a\"b".to_owned()).repr(), "\"a\\\"b\"");
    assert_eq!(Object::Str("hi".to_owned()).text(), "\"hi\"");
}

#[test]
fn type_names() {
    assert_eq!(Object::Number(0).type_of(), ValueType::Number);
    assert_eq!(Object::Bool(true).type_of(), ValueType::Bool);
    assert_eq!(Object::Str(String::new()).type_of(), ValueType::Str);
    assert_eq!(Object::Char('c').type_of(), ValueType::Char);
    assert_eq!(ValueType::Number.name(), "Number");
    assert_eq!(ValueType::Str.name(), "String");
}

#[test]
fn truthiness_follows_the_value_model() {
    assert!(Object::Number(3.0f64.to_bits()).truthy());
    assert!(!Object::Number(0.0f64.to_bits()).truthy());
    assert!(Object::Bool(true).truthy());
    assert!(Object::Str(String::new()).truthy());
    assert!(!Object::Str("x".to_owned()).truthy());
    assert!(Object::Char('a').truthy());
    assert!(!Object::Char('\0').truthy());
}

#[test]
fn values_cannot_be_indexed() {
    assert!(Object::Number(0).idx(0).is_err());
}

#[test]
fn integer_encoding_matches_native_doubles() {
    for v in [0u64, 1, 2, 5, 10, 1023, 4096, (1 << 53) - 1, 1 << 53, u64::MAX] {
        assert_eq!(ex_enc_u64(v), (v as f64).to_bits(), "encoding {}", v);
    }
    for v in [0i64, 1, -1, 42, -42, i64::MIN, i64::MAX] {
        assert_eq!(ex_enc_i64(v), (v as f64).to_bits(), "encoding {}", v);
    }
}

#[test]
fn truncating_casts_match_native_doubles() {
    for v in [
        0.0f64,
        0.5,
        -0.5,
        1.0,
        -1.0,
        255.9,
        256.0,
        -3.7,
        4294967296.0,
        1e300,
        -1e300,
        f64::INFINITY,
        f64::NEG_INFINITY,
        f64::NAN,
    ] {
        let b = v.to_bits();
        assert_eq!(ex_cast_u64(b), v as u64, "casting {} to u64", v);
        assert_eq!(ex_cast_i64(b), v as i64, "casting {} to i64", v);
        assert_eq!(ex_cast_u32(b), v as u32, "casting {} to u32", v);
        assert_eq!(ex_cast_u8(b), v as u8, "casting {} to u8", v);
    }
}

#[test]
fn integral_test_matches_fract() {
    for v in [0.0f64, -0.0, 1.0, 1.5, -2.0, -2.5, 1e300, f64::INFINITY, f64::NAN] {
        assert_eq!(
            ex_is_integral(v.to_bits()),
            v.fract() == 0.0,
            "integral test on {}",
            v
        );
    }
}

#[test]
fn software_power_matches_expectations() {
    assert_eq!(f64::from_bits(pow_double(2.0f64.to_bits(), 9.0f64.to_bits())), 512.0);
    assert_eq!(f64::from_bits(pow_double(2.0f64.to_bits(), (-2.0f64).to_bits())), 0.25);
    assert_eq!(f64::from_bits(pow_double(5.0f64.to_bits(), 0.0f64.to_bits())), 1.0);
    assert!(f64::from_bits(pow_double(0.0f64.to_bits(), 0.0f64.to_bits())).is_nan());
    assert_eq!(f64::from_bits(pow_double(2.0f64.to_bits(), f64::INFINITY.to_bits())), f64::INFINITY);
    assert_eq!(f64::from_bits(pow_double(2.0f64.to_bits(), f64::NEG_INFINITY.to_bits())), 0.0);
}

#[test]
fn comparison_operators_on_values() {
    let one = Object::Number(1.0f64.to_bits());
    let two = Object::Number(2.0f64.to_bits());
    assert!(matches!(one.lt(&two), Object::Bool(true)));
    assert!(matches!(one.gt(&two), Object::Bool(false)));
    assert!(matches!(one.lte(&one), Object::Bool(true)));
    assert!(matches!(one.gte(&two), Object::Bool(false)));
    let a = Object::Str("abc".to_owned());
    let b = Object::Str("abd".to_owned());
    assert!(matches!(a.lt(&b), Object::Bool(true)));
    assert!(matches!(a.eq(&a), Object::Bool(true)));
    assert!(matches!(a.ne(&b), Object::Bool(true)));
    let c = Object::Char('a');
    assert!(matches!(c.lt(&Object::Char('b')), Object::Bool(true)));
    assert!(matches!(a.eq(&c), Object::Bool(false)));
    assert!(matches!(a.lt(&c), Object::Bool(false)));
    assert!(matches!(a.gt(&c), Object::Bool(false)));
}

#[test]
fn pow_trait_matches_the_method() {
    let two = Object::Number(2.0f64.to_bits());
    let ten = Object::Number(10.0f64.to_bits());
    match Pow::pow(&two, &ten) {
        Ok(Object::Number(b)) => assert_eq!(f64::from_bits(b), 1024.0),
        other => panic!("expected a number, got {:?}", other),
    }
}

#[test]
fn trailing_tokens_after_a_statement_are_ignored() {
    let ast = parse(lex("1 2").expect("lexing failed")).expect("parsing failed");
    let mut ctx = Context::new();
    match cringelang::interpreter::visit(&ast, &mut ctx).expect("evaluation failed") {
        Object::Number(b) => assert_eq!(f64::from_bits(b), 1.0),
        other => panic!("expected a number, got {:?}", other),
    }
}

#[test]
fn let_without_equals_is_an_error() {
    let toks = lex("let x 5").expect("lexing failed");
    assert!(matches!(parse(toks), Err(ParseError::UnexpectedToken(_))));
    let toks2 = lex("let x").expect("lexing failed");
    assert!(matches!(parse(toks2), Err(ParseError::UnexpectedEndOfInput)));
    let toks3 = lex("let 5 = 1").expect("lexing failed");
    assert!(matches!(parse(toks3), Err(ParseError::UnexpectedToken(_))));
}

#[test]
fn assigning_to_a_keyword_is_reserved() {
    let toks = lex("inf = 1").expect("lexing failed");
    assert!(matches!(parse(toks), Err(ParseError::ReservedIdentifier(s)) if s == "inf"));
}

#[test]
fn comparison_matches_native_doubles() {
    let values = [
        0.0f64,
        -0.0,
        1.0,
        -1.0,
        0.5,
        -0.5,
        1e300,
        -1e300,
        f64::MIN_POSITIVE,
        f64::INFINITY,
        f64::NEG_INFINITY,
        f64::NAN,
    ];
    for &x in values.iter() {
        for &y in values.iter() {
            let got = cmp_double(x.to_bits(), y.to_bits());
            let want = match x.partial_cmp(&y) {
                None => FloatOrd::Unordered,
                Some(std::cmp::Ordering::Less) => FloatOrd::Less,
                Some(std::cmp::Ordering::Equal) => FloatOrd::Equal,
                Some(std::cmp::Ordering::Greater) => FloatOrd::Greater,
            };
            assert_eq!(got, want, "comparing {} and {}", x, y);
        }
    }
}

#[test]
fn large_integral_numbers_render_exactly() {
    assert_eq!(
        Object::Number(18446744073709551616.0f64.to_bits()).repr(),
        "18446744073709551616"
    );
    assert_eq!(Object::Number(1.0e18f64.to_bits()).repr(), "1000000000000000000");
    let exact = Object::Number(1.0e300f64.to_bits()).repr();
    assert_eq!(exact.parse::<f64>().unwrap(), 1.0e300);
    assert_eq!(exact.len(), 301);
    let max = Object::Number(f64::MAX.to_bits()).repr();
    assert_eq!(max.parse::<f64>().unwrap(), f64::MAX);
}
