//! End-to-end behaviour of the lex / parse / evaluate pipeline.

use cringelang::context::Context;
use cringelang::interpreter::visit;
use cringelang::lexer::lex;
use cringelang::object::Object;
use cringelang::object::RuntimeError;
use cringelang::parser::parse;

fn eval_in(src: &str, ctx: &mut Context) -> Result<Object, RuntimeError> {
    let tokens = lex(src).expect("lexing failed");
    let ast = parse(tokens).expect("parsing failed");
    visit(&ast, ctx)
}

fn eval(src: &str) -> Result<Object, RuntimeError> {
    let mut ctx = Context::new();
    eval_in(src, &mut ctx)
}

fn eval_number(src: &str) -> f64 {
    match eval(src).expect("evaluation failed") {
        Object::Number(bits) => f64::from_bits(bits),
        other => panic!("expected a number, got {:?}", other),
    }
}

fn eval_bool(src: &str) -> bool {
    match eval(src).expect("evaluation failed") {
        Object::Bool(b) => b,
        other => panic!("expected a boolean, got {:?}", other),
    }
}

fn eval_string(src: &str) -> String {
    match eval(src).expect("evaluation failed") {
        Object::Str(s) => s,
        other => panic!("expected a string, got {:?}", other),
    }
}

#[test]
fn numeric_literal_is_exact() {
    assert_eq!(eval_number("0"), 0.0);
    assert_eq!(eval_number("2"), 2.0);
    assert_eq!(eval_number("42"), 42.0);
    assert_eq!(eval_number("9007199254740991"), 9007199254740991.0);
}

#[test]
fn dotted_literal_parses_as_float() {
    assert_eq!(eval_number(".5"), 0.5);
}

#[test]
fn precedence_mul_before_add() {
    assert_eq!(eval_number("2 + 3 * 4"), 14.0);
}

#[test]
fn power_is_right_associative() {
    assert_eq!(eval_number("2 ** 3 ** 2"), 512.0);
    assert_eq!(eval_number("4 ** 3 ** 2"), 262144.0);
}

#[test]
fn grouping_overrides_precedence() {
    assert_eq!(eval_number("(2 + 3) * 4"), 20.0);
}

#[test]
fn declaration_then_assignment() {
    let mut ctx = Context::new();
    eval_in("let x = 5", &mut ctx).expect("declaration failed");
    eval_in("x = x + 1", &mut ctx).expect("assignment failed");
    assert_eq!(
        match eval_in("x", &mut ctx).expect("access failed") {
            Object::Number(b) => f64::from_bits(b),
            other => panic!("expected a number, got {:?}", other),
        },
        6.0
    );
}

#[test]
fn access_before_declaration_is_undefined() {
    match eval("x") {
        Err(RuntimeError::UndefinedVariable(name)) => assert_eq!(name, "x"),
        other => panic!("expected an undefined variable error, got {:?}", other),
    }
}

#[test]
fn assignment_without_declaration_is_undefined() {
    match eval("x = 1") {
        Err(RuntimeError::UndefinedVariable(name)) => assert_eq!(name, "x"),
        other => panic!("expected an undefined variable error, got {:?}", other),
    }
}

#[test]
fn redeclaration_replaces_the_binding() {
    let mut ctx = Context::new();
    eval_in("let x = 1", &mut ctx).expect("first declaration failed");
    eval_in("let x = 2", &mut ctx).expect("second declaration failed");
    match eval_in("x", &mut ctx).expect("access failed") {
        Object::Number(b) => assert_eq!(f64::from_bits(b), 2.0),
        other => panic!("expected a number, got {:?}", other),
    }
}

#[test]
fn booleans_coerce_in_arithmetic() {
    assert_eq!(eval_number("true + true"), 2.0);
    assert_eq!(eval_number("true + 1"), 2.0);
    assert_eq!(eval_number("false * 7"), 0.0);
}

#[test]
fn equality_coerces_booleans_to_numbers() {
    assert!(eval_bool("true == 1"));
    assert!(!eval_bool("true == 0"));
    assert!(eval_bool("false == 0"));
    assert!(eval_bool("true > 0"));
}

#[test]
fn division_follows_ieee() {
    assert_eq!(eval_number("5 / 0"), f64::INFINITY);
    assert!(eval_number("0 / 0").is_nan());
    assert_eq!(eval_number("0 - 5 / 0"), f64::NEG_INFINITY);
}

#[test]
fn nan_is_not_equal_to_itself() {
    assert!(!eval_bool("NaN == NaN"));
    assert!(eval_bool("NaN != NaN"));
}

#[test]
fn modulo_by_zero_is_nan() {
    assert!(eval_number("5 % 0").is_nan());
    assert_eq!(eval_number("7 % 3"), 1.0);
}

#[test]
fn named_constants() {
    assert_eq!(eval_number("inf"), f64::INFINITY);
    assert!(eval_number("NaN").is_nan());
    assert!(eval_bool("true"));
    assert!(!eval_bool("false"));
}

#[test]
fn unary_operators() {
    assert_eq!(eval_number("-5"), -5.0);
    assert_eq!(eval_number("+true"), 1.0);
    assert_eq!(eval_number("- - 3"), 3.0);
    assert!(eval_bool("!0"));
    assert!(!eval_bool("!3"));
    assert!(eval_bool("!NaN"));
    assert!(!eval_bool("!true"));
    assert!(eval_bool("!1 == 2"));
}

#[test]
fn comparison_chain_is_left_associative() {
    // (1 < 2) yields true, and true == 1 coerces to 1.0 == 1.0.
    assert!(eval_bool("1 < 2 == 1"));
}

#[test]
fn string_concatenation() {
    assert_eq!(eval_string("\"ab\" + \"cd\""), "abcd");
    assert_eq!(eval_string("\"n=\" + 5"), "n=5");
    assert_eq!(eval_string("5 + \"!\""), "5!");
    assert_eq!(eval_string("true + \"!\""), "true!");
    assert_eq!(eval_string("'a' + \"bc\""), "abc");
    assert_eq!(eval_string("\"ab\" + 'c'"), "abc");
}

#[test]
fn string_repetition() {
    assert_eq!(eval_string("\"ab\" * 3"), "ababab");
    assert_eq!(eval_string("3 * \"ab\""), "ababab");
    assert_eq!(eval_string("\"ab\" * 0"), "");
}

#[test]
fn fractional_or_negative_repeat_count_is_an_error() {
    match eval("\"ab\" * (1 / 2)") {
        Err(RuntimeError::FractionalRepeatCount) => {},
        other => panic!("expected a fractional repeat count error, got {:?}", other),
    }
    match eval("\"ab\" * (0 - 2)") {
        Err(RuntimeError::FractionalRepeatCount) => {},
        other => panic!("expected a repeat count error, got {:?}", other),
    }
}

#[test]
fn string_subtraction_coerces_to_numbers() {
    assert_eq!(eval_number("\"10\" - \"4\""), 6.0);
    assert!(eval_number("\"ab\" - 1").is_nan());
}

#[test]
fn character_arithmetic_is_byte_arithmetic() {
    match eval("'a' + 1").expect("evaluation failed") {
        Object::Char(c) => assert_eq!(c, 'b'),
        other => panic!("expected a character, got {:?}", other),
    }
    match eval("'b' - 'a'").expect("evaluation failed") {
        Object::Char(c) => assert_eq!(c, '\u{1}'),
        other => panic!("expected a character, got {:?}", other),
    }
}

#[test]
fn bitwise_operators_work_on_integers() {
    assert_eq!(eval_number("6 | 3"), 7.0);
    assert_eq!(eval_number("6 & 3"), 2.0);
    assert_eq!(eval_number("6 ^ 3"), 5.0);
    assert_eq!(eval_number("1 << 4"), 16.0);
    assert_eq!(eval_number("32 >> 2"), 8.0);
    assert_eq!(eval_number("true | 6"), 7.0);
}

#[test]
fn unsupported_operand_pairs_error() {
    match eval("true + 'a'") {
        Err(RuntimeError::UnsupportedOperator(_, _, _)) => {},
        other => panic!("expected an unsupported operator error, got {:?}", other),
    }
    match eval("!\"a\"") {
        Err(RuntimeError::UnsupportedUnary(_, _)) => {},
        other => panic!("expected an unsupported unary error, got {:?}", other),
    }
}

#[test]
fn power_cases() {
    assert_eq!(eval_number("2 ** 10"), 1024.0);
    assert_eq!(eval_number("2 ** (0 - 2)"), 0.25);
    assert!(eval_number("0 ** 0").is_nan());
    assert_eq!(eval_number("9 ** 1"), 9.0);
    assert_eq!(eval_number("123 ** 0"), 1.0);
}

#[test]
fn assignment_inside_expression_threads_left_to_right() {
    let mut ctx = Context::new();
    eval_in("let y = 0", &mut ctx).expect("declaration failed");
    match eval_in("(y = 2) + y", &mut ctx).expect("evaluation failed") {
        Object::Number(b) => assert_eq!(f64::from_bits(b), 4.0),
        other => panic!("expected a number, got {:?}", other),
    }
}

#[test]
fn repr_round_trips_for_small_numbers() {
    for v in [0.0f64, 1.0, 5.0, 512.0, 1048576.0] {
        let value = Object::Number(v.to_bits());
        let text = value.repr();
        assert_eq!(eval_number(&text), v);
    }
}

#[test]
fn repr_round_trips_for_booleans() {
    for b in [true, false] {
        let value = Object::Bool(b);
        let text = value.repr();
        assert_eq!(eval_bool(&text), b);
    }
}

#[test]
fn repr_round_trips_for_characters() {
    for c in ['a', 'Z', ' ', '\n', '\t', '\r', '\0', '\\', '\'', '"', 'é'] {
        let value = Object::Char(c);
        let text = value.repr();
        match eval(&text).expect("evaluation failed") {
            Object::Char(back) => assert_eq!(back, c),
            other => panic!("expected a character, got {:?}", other),
        }
    }
}

#[test]
fn repr_round_trips_for_strings() {
    for s in ["", "plain", "with \"quotes\"", "line\nbreak\tand\\slash\0"] {
        let value = Object::Str(s.to_owned());
        let text = value.repr();
        match eval(&text).expect("evaluation failed") {
            Object::Str(back) => assert_eq!(back, s),
            other => panic!("expected a string, got {:?}", other),
        }
    }
}

#[test]
fn repr_round_trips_for_large_numbers() {
    for v in [9007199254740992.0f64, 1.0e18, 18446744073709551616.0, 1.0e300, f64::MAX] {
        let value = Object::Number(v.to_bits());
        let text = value.repr();
        assert_eq!(eval_number(&text), v);
    }
}

#[test]
fn string_coercion_knows_the_special_spellings() {
    assert_eq!(eval_number("\"inf\" - 0"), f64::INFINITY);
    assert_eq!(eval_number("\"INF\" - 0"), f64::INFINITY);
    assert_eq!(eval_number("\"Infinity\" - 0"), f64::INFINITY);
    assert_eq!(eval_number("\"-infinity\" - 0"), f64::NEG_INFINITY);
    assert_eq!(eval_number("\"+inf\" - 0"), f64::INFINITY);
    assert!(eval_number("\"nan\" - 0").is_nan());
    assert!(eval_number("\"NaN\" - 0").is_nan());
    assert!(eval_number("\"0x10\" - 0").is_nan());
    assert!(eval_number("\"infinite\" - 0").is_nan());
}

#[test]
fn negative_zero_repeat_count_repeats_zero_times() {
    assert_eq!(eval_string("\"ab\" * ((0 - 1) * 0)"), "");
}
