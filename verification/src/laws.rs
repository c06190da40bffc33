//! The general laws of the library, stated and proved over the models that
//! the executable functions are specified against.

use vstd::prelude::*;
use crate::context::SpecEnv;
use crate::context::chain_lookup;
use crate::context::env_declare;
use crate::context::scope_lookup;
use crate::double::all_digits;
use crate::double::digits_val;
use crate::double::enc_u64;
use crate::double::is_digit_char;
use crate::interpreter::spec_visit;
use crate::lexer::clamp_idx;
use crate::lexer::digits_end;
use crate::lexer::ident_end;
use crate::lexer::is_ident_start_char;
use crate::lexer::is_op_char;
use crate::lexer::is_space_char;
use crate::lexer::lex_cat;
use crate::lexer::scan_char;
use crate::lexer::scan_escape;
use crate::lexer::scan_string;
use crate::lexer::spec_lex;
use crate::lexer::spec_lex_from;
use crate::lexer::spec_number_token;
use crate::lexer::unescape_char;
use crate::object::SpecRuntimeError;
use crate::object::SpecValue;
use crate::object::bool_chars;
use crate::parser::SpecAst;
use crate::parser::kw_false;
use crate::parser::kw_inf;
use crate::parser::kw_let;
use crate::parser::kw_nan;
use crate::parser::kw_true;
use crate::parser::sp_atom;
use crate::parser::sp_bitand;
use crate::parser::sp_bitand_more;
use crate::parser::sp_bitor;
use crate::parser::sp_bitor_more;
use crate::parser::sp_bitxor;
use crate::parser::sp_bitxor_more;
use crate::parser::sp_cmp_more;
use crate::parser::sp_comparison;
use crate::parser::sp_createvar;
use crate::parser::sp_expr;
use crate::parser::sp_expr_more;
use crate::parser::sp_factor;
use crate::parser::sp_parse;
use crate::parser::sp_power;
use crate::parser::sp_power_more;
use crate::parser::sp_shift;
use crate::parser::sp_shift_more;
use crate::parser::sp_term;
use crate::parser::sp_term_more;
use crate::text::char_escape;
use crate::text::digits_of;
use crate::text::char_repr;
use crate::text::string_body;
use crate::text::string_escape;
use crate::tokens::SpecToken;

verus! {

/// The literal a single token denotes, where it denotes one: a number,
/// character or string literal, or one of the named constants.
pub open spec fn literal_of(t: SpecToken) -> Option<SpecAst> {
    match t {
        SpecToken::Number(b) => Some(SpecAst::Number(b)),
        SpecToken::CharLiteral(c) => Some(SpecAst::Char(c)),
        SpecToken::StringLiteral(s) => Some(SpecAst::StringLiteral(s)),
        SpecToken::Ident(nm) => {
            if nm == kw_inf() {
                Some(SpecAst::Number(crate::double::BITS_INF))
            } else if nm == kw_nan() {
                Some(SpecAst::Number(crate::double::BITS_NAN))
            } else if nm == kw_true() {
                Some(SpecAst::Bool(true))
            } else if nm == kw_false() {
                Some(SpecAst::Bool(false))
            } else {
                None
            }
        },
        _ => None,
    }
}

/// A literal token followed by the end marker parses to exactly that
/// literal node.
pub proof fn lemma_parse_single_literal(toks: Seq<SpecToken>, lit: SpecAst)
    requires
        toks.len() == 2,
        toks[1] == SpecToken::Eof,
        literal_of(toks[0]) == Some(lit),
        !(toks[0] is Ident && toks[0]->Ident_0 == kw_let()),
    ensures
        sp_parse(toks) == Ok::<SpecAst, crate::tokens::SpecParseError>(lit),
{
    assert(kw_let() != kw_inf() && kw_let() != kw_nan());
    assert(kw_let().len() == 3 && kw_true().len() == 4 && kw_false().len() == 5);
    assert(sp_atom(toks, 0) == Ok::<(SpecAst, int), crate::tokens::SpecParseError>((lit, 1)));
    assert(clamp_idx(1, 2, 1) == 1);
    assert(sp_power_more(toks, 1, lit) == Ok::<(SpecAst, int), crate::tokens::SpecParseError>(
        (lit, 1),
    ));
    assert(sp_power(toks, 0) == Ok::<(SpecAst, int), crate::tokens::SpecParseError>((lit, 1)));
    assert(sp_factor(toks, 0) == Ok::<(SpecAst, int), crate::tokens::SpecParseError>((lit, 1)));
    assert(sp_term_more(toks, 1, lit) == Ok::<(SpecAst, int), crate::tokens::SpecParseError>(
        (lit, 1),
    ));
    assert(sp_term(toks, 0) == Ok::<(SpecAst, int), crate::tokens::SpecParseError>((lit, 1)));
    assert(sp_expr_more(toks, 1, lit) == Ok::<(SpecAst, int), crate::tokens::SpecParseError>(
        (lit, 1),
    ));
    assert(sp_expr(toks, 0) == Ok::<(SpecAst, int), crate::tokens::SpecParseError>((lit, 1)));
    assert(sp_shift_more(toks, 1, lit) == Ok::<(SpecAst, int), crate::tokens::SpecParseError>(
        (lit, 1),
    ));
    assert(sp_shift(toks, 0) == Ok::<(SpecAst, int), crate::tokens::SpecParseError>((lit, 1)));
    assert(sp_bitand_more(toks, 1, lit) == Ok::<(SpecAst, int), crate::tokens::SpecParseError>(
        (lit, 1),
    ));
    assert(sp_bitand(toks, 0) == Ok::<(SpecAst, int), crate::tokens::SpecParseError>((lit, 1)));
    assert(sp_bitxor_more(toks, 1, lit) == Ok::<(SpecAst, int), crate::tokens::SpecParseError>(
        (lit, 1),
    ));
    assert(sp_bitxor(toks, 0) == Ok::<(SpecAst, int), crate::tokens::SpecParseError>((lit, 1)));
    assert(sp_bitor_more(toks, 1, lit) == Ok::<(SpecAst, int), crate::tokens::SpecParseError>(
        (lit, 1),
    ));
    assert(sp_bitor(toks, 0) == Ok::<(SpecAst, int), crate::tokens::SpecParseError>((lit, 1)));
    assert(sp_cmp_more(toks, 1, lit) == Ok::<(SpecAst, int), crate::tokens::SpecParseError>(
        (lit, 1),
    ));
    assert(sp_comparison(toks, 0) == Ok::<(SpecAst, int), crate::tokens::SpecParseError>(
        (lit, 1),
    ));
    assert(sp_createvar(toks, 0) == Ok::<(SpecAst, int), crate::tokens::SpecParseError>(
        (lit, 1),
    ));
}

/// Scanning a run of digits runs to the first non-digit; over a string of
/// digits it runs to the end.
pub proof fn lemma_digits_end_all(s: Seq<char>, i: int)
    requires
        0 <= i <= s.len(),
        all_digits(s),
    ensures
        digits_end(s, i) == s.len(),
    decreases s.len() - i,
{
    if i < s.len() {
        lemma_digits_end_all(s, i + 1);
    }
}

/// Every well-formed plain numeric literal evaluates, through the whole
/// pipeline, to exactly the number it denotes: lexing it yields one number
/// token holding the encoding of its value, parsing that yields the
/// literal node, and evaluating the node yields the value and leaves the
/// environment untouched.
pub proof fn lemma_literal_pipeline(s: Seq<char>, env: SpecEnv)
    requires
        s.len() >= 1,
        all_digits(s),
        digits_val(s) < 0x20_0000_0000_0000,
    ensures
        spec_lex(s) == Ok::<Seq<SpecToken>, crate::tokens::LexError>(
            seq![
                SpecToken::Number(enc_u64(digits_val(s) as u64)),
                SpecToken::Eof,
            ],
        ),
        sp_parse(
            seq![SpecToken::Number(enc_u64(digits_val(s) as u64)), SpecToken::Eof],
        ) == Ok::<SpecAst, crate::tokens::SpecParseError>(
            SpecAst::Number(enc_u64(digits_val(s) as u64)),
        ),
        spec_visit(SpecAst::Number(enc_u64(digits_val(s) as u64)), env) == (
            Ok::<SpecValue, SpecRuntimeError>(SpecValue::Number(enc_u64(digits_val(s) as u64))),
            env,
        ),
{
    let b = enc_u64(digits_val(s) as u64);
    lemma_digits_end_all(s, 1);
    assert(is_digit_char(s[0]));
    assert(clamp_idx(1, s.len() as int, digits_end(s, 1)) == s.len());
    assert(s.subrange(0, s.len() as int) =~= s);
    assert(spec_number_token(s) == Some(b));
    assert(spec_lex_from(s, s.len() as int) == Ok::<Seq<SpecToken>, crate::tokens::LexError>(
        seq![SpecToken::Eof],
    ));
    assert(spec_lex_from(s, 0) == lex_cat(
        seq![SpecToken::Number(b)],
        spec_lex_from(s, s.len() as int),
    ));
    assert(seq![SpecToken::Number(b)] + seq![SpecToken::Eof] =~= seq![
        SpecToken::Number(b),
        SpecToken::Eof,
    ]);
    let toks = seq![SpecToken::Number(b), SpecToken::Eof];
    lemma_parse_single_literal(toks, SpecAst::Number(b));
}

/// Looking up a just-declared name yields the declared value.
pub proof fn lemma_declare_lookup(env: SpecEnv, name: Seq<char>, v: SpecValue)
    requires
        env.len() >= 1,
    ensures
        chain_lookup(env_declare(env, name, v), name) == Some(v),
{
    let env2 = env_declare(env, name, v);
    assert(env2[0] == env[0].push((name, v)));
    assert(env2[0].last() == (name, v));
    assert(scope_lookup(env2[0], name) == Some(v));
}

/// Declaring a name changes the lookup of no other name.
pub proof fn lemma_declare_frame(env: SpecEnv, name: Seq<char>, v: SpecValue, other: Seq<char>)
    requires
        env.len() >= 1,
        other != name,
    ensures
        chain_lookup(env_declare(env, name, v), other) == chain_lookup(env, other),
{
    let env2 = env_declare(env, name, v);
    assert(env2[0].last() == (name, v));
    assert(env2[0].drop_last() =~= env[0]);
    assert(scope_lookup(env2[0], other) == scope_lookup(env[0], other));
    assert(env2.skip(1) =~= env.skip(1));
}

/// Re-declaring a name in the same scope is not an error and replaces the
/// binding: the second declaration wins on lookup, and every other name is
/// untouched.
pub proof fn lemma_redeclare_replaces(
    env: SpecEnv,
    name: Seq<char>,
    v1: SpecValue,
    v2: SpecValue,
    other: Seq<char>,
)
    requires
        env.len() >= 1,
        other != name,
    ensures
        chain_lookup(env_declare(env_declare(env, name, v1), name, v2), name) == Some(v2),
        chain_lookup(env_declare(env_declare(env, name, v1), name, v2), other) == chain_lookup(
            env,
            other,
        ),
{
    let env1 = env_declare(env, name, v1);
    assert(env1.len() >= 1);
    lemma_declare_lookup(env1, name, v2);
    lemma_declare_frame(env, name, v1, other);
    lemma_declare_frame(env1, name, v2, other);
}

/// Reading a name that no declaration has introduced is an undefined
/// variable error, and the environment is left untouched.
pub proof fn lemma_access_before_declare(name: Seq<char>)
    ensures
        spec_visit(
            SpecAst::VarAccess(name),
            seq![Seq::<(Seq<char>, SpecValue)>::empty()],
        ) == (
            Err::<SpecValue, SpecRuntimeError>(SpecRuntimeError::UndefinedVariable(name)),
            seq![Seq::<(Seq<char>, SpecValue)>::empty()],
        ),
{
    let env: SpecEnv = seq![Seq::<(Seq<char>, SpecValue)>::empty()];
    assert(scope_lookup(env[0], name) is None);
    assert(env.skip(1) =~= Seq::<Seq<(Seq<char>, SpecValue)>>::empty());
    assert(chain_lookup(Seq::<Seq<(Seq<char>, SpecValue)>>::empty(), name) is None);
    assert(chain_lookup(env, name) is None);
}

/// The textual form of a boolean lexes back to one identifier token
/// holding that same text.
pub proof fn lemma_lex_bool(b: bool)
    ensures
        spec_lex(bool_chars(b)) == Ok::<Seq<SpecToken>, crate::tokens::LexError>(
            seq![SpecToken::Ident(bool_chars(b)), SpecToken::Eof],
        ),
{
    let s = bool_chars(b);
    assert(is_ident_start_char(s[0]));
    if b {
        assert(ident_end(s, 4) == 4);
        assert(ident_end(s, 3) == 4);
        assert(ident_end(s, 2) == 4);
        assert(ident_end(s, 1) == 4);
    } else {
        assert(ident_end(s, 5) == 5);
        assert(ident_end(s, 4) == 5);
        assert(ident_end(s, 3) == 5);
        assert(ident_end(s, 2) == 5);
        assert(ident_end(s, 1) == 5);
    }
    assert(clamp_idx(1, s.len() as int, ident_end(s, 1)) == s.len());
    assert(s.subrange(0, s.len() as int) =~= s);
    assert(spec_lex_from(s, s.len() as int) == Ok::<Seq<SpecToken>, crate::tokens::LexError>(
        seq![SpecToken::Eof],
    ));
    assert(spec_lex_from(s, 0) == lex_cat(
        seq![SpecToken::Ident(s)],
        spec_lex_from(s, s.len() as int),
    ));
    assert(seq![SpecToken::Ident(s)] + seq![SpecToken::Eof] =~= seq![
        SpecToken::Ident(s),
        SpecToken::Eof,
    ]);
}

/// The rendering of a boolean value runs back through lexing, parsing and
/// evaluation to exactly the same boolean.
pub proof fn lemma_bool_round_trip(b: bool, env: SpecEnv)
    ensures
        spec_lex(bool_chars(b)) == Ok::<Seq<SpecToken>, crate::tokens::LexError>(
            seq![SpecToken::Ident(bool_chars(b)), SpecToken::Eof],
        ),
        sp_parse(seq![SpecToken::Ident(bool_chars(b)), SpecToken::Eof]) == Ok::<
            SpecAst,
            crate::tokens::SpecParseError,
        >(SpecAst::Bool(b)),
        spec_visit(SpecAst::Bool(b), env) == (
            Ok::<SpecValue, SpecRuntimeError>(SpecValue::Bool(b)),
            env,
        ),
{
    lemma_lex_bool(b);
    let s = bool_chars(b);
    assert(s != kw_let() && s != kw_inf() && s != kw_nan()) by {
        if b {
            assert(s.len() == 4);
        } else {
            assert(s.len() == 5);
        }
        assert(kw_let().len() == 3 && kw_inf().len() == 3 && kw_nan().len() == 3);
    }
    if b {
        assert(s == kw_true());
    } else {
        assert(s == kw_false()) by {
            assert(s =~= kw_false());
        }
        assert(s != kw_true()) by {
            assert(kw_true().len() == 4);
        }
    }
    assert(literal_of(SpecToken::Ident(s)) == Some(SpecAst::Bool(b)));
    lemma_parse_single_literal(
        seq![SpecToken::Ident(s), SpecToken::Eof],
        SpecAst::Bool(b),
    );
}

/// The quoted rendering of a character lexes back to one character token
/// holding exactly that character.
pub proof fn lemma_lex_char(c: char)
    ensures
        spec_lex(char_repr(c)) == Ok::<Seq<SpecToken>, crate::tokens::LexError>(
            seq![SpecToken::CharLiteral(c), SpecToken::Eof],
        ),
{
    let s = char_repr(c);
    let esc = char_escape(c);
    assert(s[0] == '\'');
    assert(!is_digit_char('\'') && !is_ident_start_char('\'') && !is_op_char('\'')
        && !is_space_char('\'') && '\'' != '"' && '\'' != '.');
    if esc.len() == 2 {
        assert(s.len() == 4);
        assert(s[1] == '\\' && s[2] == esc[1] && s[3] == '\'');
        assert(unescape_char(esc[1]) == Some(c));
        assert(scan_escape(s, 2) == Ok::<(char, int), crate::tokens::LexError>((c, 3)));
        assert(scan_char(s, 1) == Ok::<(char, int), crate::tokens::LexError>((c, 4)));
    } else {
        assert(esc == seq![c]);
        assert(s.len() == 3);
        assert(s[1] == c && s[2] == '\'');
        assert(c != '\'' && c != '\\');
        assert(scan_char(s, 1) == Ok::<(char, int), crate::tokens::LexError>((c, 3)));
    }
    assert(clamp_idx(1, s.len() as int, s.len() as int) == s.len());
    assert(spec_lex_from(s, s.len() as int) == Ok::<Seq<SpecToken>, crate::tokens::LexError>(
        seq![SpecToken::Eof],
    ));
    assert(spec_lex_from(s, 0) == lex_cat(
        seq![SpecToken::CharLiteral(c)],
        spec_lex_from(s, s.len() as int),
    ));
    assert(seq![SpecToken::CharLiteral(c)] + seq![SpecToken::Eof] =~= seq![
        SpecToken::CharLiteral(c),
        SpecToken::Eof,
    ]);
}

/// The rendering of a character value runs back through lexing, parsing
/// and evaluation to exactly the same character, whatever the character.
pub proof fn lemma_char_round_trip(c: char, env: SpecEnv)
    ensures
        spec_lex(char_repr(c)) == Ok::<Seq<SpecToken>, crate::tokens::LexError>(
            seq![SpecToken::CharLiteral(c), SpecToken::Eof],
        ),
        sp_parse(seq![SpecToken::CharLiteral(c), SpecToken::Eof]) == Ok::<
            SpecAst,
            crate::tokens::SpecParseError,
        >(SpecAst::Char(c)),
        spec_visit(SpecAst::Char(c), env) == (
            Ok::<SpecValue, SpecRuntimeError>(SpecValue::Char(c)),
            env,
        ),
{
    lemma_lex_char(c);
    lemma_parse_single_literal(
        seq![SpecToken::CharLiteral(c), SpecToken::Eof],
        SpecAst::Char(c),
    );
}


/// The rendering of a non-negative integral number below 2^53 runs back
/// through lexing, parsing and evaluation to exactly the same encoding.
pub proof fn lemma_number_round_trip(v: u64, env: SpecEnv)
    requires
        v < 0x20_0000_0000_0000,
    ensures
        crate::object::spec_repr(SpecValue::Number(enc_u64(v))) == digits_of(v as nat),
        spec_lex(digits_of(v as nat)) == Ok::<Seq<SpecToken>, crate::tokens::LexError>(
            seq![SpecToken::Number(enc_u64(v)), SpecToken::Eof],
        ),
        sp_parse(seq![SpecToken::Number(enc_u64(v)), SpecToken::Eof]) == Ok::<
            SpecAst,
            crate::tokens::SpecParseError,
        >(SpecAst::Number(enc_u64(v))),
        spec_visit(SpecAst::Number(enc_u64(v)), env) == (
            Ok::<SpecValue, SpecRuntimeError>(SpecValue::Number(enc_u64(v))),
            env,
        ),
{
    crate::double::lemma_enc_u64_small(v);
    crate::text::lemma_digits_of_val(v as nat);
    let s = digits_of(v as nat);
    assert(all_digits(s));
    assert(digits_val(s) == v);
    lemma_literal_pipeline(s, env);
    assert(crate::object::render_number(enc_u64(v)) == s);
}


/// The escaped body of a string can be peeled from the front as well: it
/// is the first character's escape followed by the body of the rest.
pub proof fn lemma_string_body_front(s: Seq<char>)
    requires
        s.len() > 0,
    ensures
        string_body(s) == string_escape(s[0]) + string_body(s.skip(1)),
    decreases s.len(),
{
    if s.len() == 1 {
        assert(s.drop_last() =~= Seq::<char>::empty());
        assert(string_body(Seq::<char>::empty()) == Seq::<char>::empty());
        assert(s.skip(1) =~= Seq::<char>::empty());
        assert(string_body(s) =~= string_escape(s[0]) + string_body(s.skip(1)));
    } else {
        let dl = s.drop_last();
        lemma_string_body_front(dl);
        assert(s.skip(1).drop_last() =~= dl.skip(1));
        assert(s.skip(1).last() == s.last());
        assert(string_body(s.skip(1)) == string_body(dl.skip(1)) + string_escape(s.last()));
        assert(string_body(s) == (string_escape(s[0]) + string_body(dl.skip(1)))
            + string_escape(s.last()));
        assert((string_escape(s[0]) + string_body(dl.skip(1))) + string_escape(s.last())
            =~= string_escape(s[0]) + (string_body(dl.skip(1)) + string_escape(s.last())));
    }
}

/// Scanning an escaped string body followed by a closing quote yields the
/// original characters and stops after the quote.
pub proof fn lemma_scan_string_body(src: Seq<char>, i: int, s: Seq<char>)
    requires
        0 <= i,
        i + string_body(s).len() + 1 <= src.len(),
        src.subrange(i, i + string_body(s).len() + 1) == string_body(s) + seq!['"'],
    ensures
        scan_string(src, i) == Ok::<(Seq<char>, int), crate::tokens::LexError>(
            (s, i + string_body(s).len() + 1),
        ),
    decreases s.len(),
{
    let body = string_body(s);
    let piece = src.subrange(i, i + body.len() + 1);
    if s.len() == 0 {
        assert(body == Seq::<char>::empty());
        assert(src[i] == piece[0]);
        assert(src[i] == '"');
        assert(scan_string(src, i) == Ok::<(Seq<char>, int), crate::tokens::LexError>(
            (Seq::empty(), i + 1),
        ));
        assert(s =~= Seq::<char>::empty());
    } else {
        lemma_string_body_front(s);
        let esc = string_escape(s[0]);
        let rest = s.skip(1);
        let rbody = string_body(rest);
        assert(body == esc + rbody);
        assert(body.len() == esc.len() + rbody.len());
        let j = i + esc.len();
        assert(src.subrange(j, j + rbody.len() + 1) =~= rbody + seq!['"']) by {
            assert forall|k: int| 0 <= k < rbody.len() + 1 implies src.subrange(
                j,
                j + rbody.len() + 1,
            )[k] == (rbody + seq!['"'])[k] by {
                assert(src[j + k] == piece[esc.len() + k]);
                assert(piece[esc.len() + k] == (body + seq!['"'])[esc.len() + k]);
            }
        }
        lemma_scan_string_body(src, j, rest);
        if esc.len() == 1 {
            assert(src[i] == piece[0]);
            assert(src[i] == s[0]);
            assert(s[0] != '"' && s[0] != '\\');
            assert(scan_string(src, i) == (match scan_string(src, i + 1) {
                Err(e) => Err::<(Seq<char>, int), crate::tokens::LexError>(e),
                Ok((cs, j2)) => Ok((seq![src[i]] + cs, j2)),
            }));
            assert(seq![s[0]] + rest =~= s);
        } else {
            assert(esc.len() == 2);
            assert(esc[0] == '\\');
            assert(src[i] == piece[0] && src[i + 1] == piece[1]);
            assert(src[i] == '\\' && src[i + 1] == esc[1]);
            assert(unescape_char(esc[1]) == Some(s[0]));
            assert(scan_escape(src, i + 1) == Ok::<(char, int), crate::tokens::LexError>(
                (s[0], i + 2),
            ));
            assert(clamp_idx(i + 2, src.len() as int, i + 2) == i + 2);
            assert(seq![s[0]] + rest =~= s);
        }
    }
}

/// The quoted rendering of a string lexes back to one string token holding
/// exactly the original characters.
pub proof fn lemma_lex_string(s: Seq<char>)
    ensures
        spec_lex(crate::text::string_repr(s)) == Ok::<Seq<SpecToken>, crate::tokens::LexError>(
            seq![SpecToken::StringLiteral(s), SpecToken::Eof],
        ),
{
    let full = crate::text::string_repr(s);
    let body = string_body(s);
    assert(full.len() == body.len() + 2);
    assert(full[0] == '"');
    assert(!is_digit_char('"') && !is_ident_start_char('"') && !is_op_char('"')
        && !is_space_char('"') && '"' != '\'' && '"' != '.');
    assert(full.subrange(1, 1 + body.len() as int + 1) =~= body + seq!['"']) by {
        assert forall|k: int| 0 <= k < body.len() + 1 implies full.subrange(
            1,
            1 + body.len() as int + 1,
        )[k] == (body + seq!['"'])[k] by {
            assert(full[1 + k] == (seq!['"'] + body + seq!['"'])[1 + k]);
        }
    }
    lemma_scan_string_body(full, 1, s);
    assert(clamp_idx(1, full.len() as int, full.len() as int) == full.len());
    assert(spec_lex_from(full, full.len() as int) == Ok::<
        Seq<SpecToken>,
        crate::tokens::LexError,
    >(seq![SpecToken::Eof]));
    assert(spec_lex_from(full, 0) == lex_cat(
        seq![SpecToken::StringLiteral(s)],
        spec_lex_from(full, full.len() as int),
    ));
    assert(seq![SpecToken::StringLiteral(s)] + seq![SpecToken::Eof] =~= seq![
        SpecToken::StringLiteral(s),
        SpecToken::Eof,
    ]);
}

/// The rendering of a string value runs back through lexing, parsing and
/// evaluation to exactly the same string, whatever it holds.
pub proof fn lemma_string_round_trip(s: Seq<char>, env: SpecEnv)
    ensures
        spec_lex(crate::text::string_repr(s)) == Ok::<Seq<SpecToken>, crate::tokens::LexError>(
            seq![SpecToken::StringLiteral(s), SpecToken::Eof],
        ),
        sp_parse(seq![SpecToken::StringLiteral(s), SpecToken::Eof]) == Ok::<
            SpecAst,
            crate::tokens::SpecParseError,
        >(SpecAst::StringLiteral(s)),
        spec_visit(SpecAst::StringLiteral(s), env) == (
            Ok::<SpecValue, SpecRuntimeError>(SpecValue::Str(s)),
            env,
        ),
{
    lemma_lex_string(s);
    lemma_parse_single_literal(
        seq![SpecToken::StringLiteral(s), SpecToken::Eof],
        SpecAst::StringLiteral(s),
    );
}


/// With the end marker next, every operator-chain level hands back its
/// accumulated node unchanged.
pub proof fn lemma_chain_levels_stop_at_eof(t: Seq<SpecToken>, j: int, n: SpecAst)
    requires
        0 <= j < t.len(),
        t[j] == SpecToken::Eof,
    ensures
        sp_power_more(t, j, n) == Ok::<(SpecAst, int), crate::tokens::SpecParseError>((n, j)),
        sp_term_more(t, j, n) == Ok::<(SpecAst, int), crate::tokens::SpecParseError>((n, j)),
        sp_expr_more(t, j, n) == Ok::<(SpecAst, int), crate::tokens::SpecParseError>((n, j)),
        sp_shift_more(t, j, n) == Ok::<(SpecAst, int), crate::tokens::SpecParseError>((n, j)),
        sp_bitand_more(t, j, n) == Ok::<(SpecAst, int), crate::tokens::SpecParseError>((n, j)),
        sp_bitxor_more(t, j, n) == Ok::<(SpecAst, int), crate::tokens::SpecParseError>((n, j)),
        sp_bitor_more(t, j, n) == Ok::<(SpecAst, int), crate::tokens::SpecParseError>((n, j)),
        sp_cmp_more(t, j, n) == Ok::<(SpecAst, int), crate::tokens::SpecParseError>((n, j)),
{
}

/// A chain of `**` nests to the right: the grammar sends the right operand
/// of each `**` back through the unary level, so `a ** b ** c` parses as
/// `a ** (b ** c)`, whatever the three operands are.
#[verifier::rlimit(100)]
#[verifier::spinoff_prover]
pub proof fn lemma_power_chain_right_associative(a: u64, b: u64, c: u64)
    ensures
        sp_parse(
            seq![
                SpecToken::Number(a),
                SpecToken::Operator(crate::tokens::Operator::StarStar),
                SpecToken::Number(b),
                SpecToken::Operator(crate::tokens::Operator::StarStar),
                SpecToken::Number(c),
                SpecToken::Eof,
            ],
        ) == Ok::<SpecAst, crate::tokens::SpecParseError>(
            SpecAst::BinOp(
                Box::new(SpecAst::Number(a)),
                crate::tokens::Operator::StarStar,
                Box::new(
                    SpecAst::BinOp(
                        Box::new(SpecAst::Number(b)),
                        crate::tokens::Operator::StarStar,
                        Box::new(SpecAst::Number(c)),
                    ),
                ),
            ),
        ),
{
    let star = crate::tokens::Operator::StarStar;
    let t = seq![
        SpecToken::Number(a),
        SpecToken::Operator(star),
        SpecToken::Number(b),
        SpecToken::Operator(star),
        SpecToken::Number(c),
        SpecToken::Eof,
    ];
    let na = SpecAst::Number(a);
    let nb = SpecAst::Number(b);
    let nc = SpecAst::Number(c);
    let inner = SpecAst::BinOp(Box::new(nb), star, Box::new(nc));
    let full = SpecAst::BinOp(Box::new(na), star, Box::new(inner));

    assert(sp_atom(t, 4) == Ok::<(SpecAst, int), crate::tokens::SpecParseError>((nc, 5)));
    lemma_chain_levels_stop_at_eof(t, 5, nc);
    assert(clamp_idx(5, 6, 5) == 5);
    assert(sp_power(t, 4) == Ok::<(SpecAst, int), crate::tokens::SpecParseError>((nc, 5)));
    assert(sp_factor(t, 4) == Ok::<(SpecAst, int), crate::tokens::SpecParseError>((nc, 5)));

    assert(sp_atom(t, 2) == Ok::<(SpecAst, int), crate::tokens::SpecParseError>((nb, 3)));
    lemma_chain_levels_stop_at_eof(t, 5, inner);
    assert(clamp_idx(4, 6, 5) == 5);
    assert(sp_power_more(t, 3, nb) == Ok::<(SpecAst, int), crate::tokens::SpecParseError>(
        (inner, 5),
    ));
    assert(clamp_idx(3, 6, 3) == 3);
    assert(sp_power(t, 2) == Ok::<(SpecAst, int), crate::tokens::SpecParseError>((inner, 5)));
    assert(sp_factor(t, 2) == Ok::<(SpecAst, int), crate::tokens::SpecParseError>((inner, 5)));

    assert(sp_atom(t, 0) == Ok::<(SpecAst, int), crate::tokens::SpecParseError>((na, 1)));
    lemma_chain_levels_stop_at_eof(t, 5, full);
    assert(sp_power_more(t, 1, na) == Ok::<(SpecAst, int), crate::tokens::SpecParseError>(
        (full, 5),
    ));
    assert(clamp_idx(1, 6, 1) == 1);
    assert(sp_power(t, 0) == Ok::<(SpecAst, int), crate::tokens::SpecParseError>((full, 5)));
    assert(sp_factor(t, 0) == Ok::<(SpecAst, int), crate::tokens::SpecParseError>((full, 5)));
    assert(clamp_idx(1, 6, 5) == 5);
    assert(sp_term(t, 0) == Ok::<(SpecAst, int), crate::tokens::SpecParseError>((full, 5)));
    assert(sp_expr(t, 0) == Ok::<(SpecAst, int), crate::tokens::SpecParseError>((full, 5)));
    assert(sp_shift(t, 0) == Ok::<(SpecAst, int), crate::tokens::SpecParseError>((full, 5)));
    assert(sp_bitand(t, 0) == Ok::<(SpecAst, int), crate::tokens::SpecParseError>((full, 5)));
    assert(sp_bitxor(t, 0) == Ok::<(SpecAst, int), crate::tokens::SpecParseError>((full, 5)));
    assert(sp_bitor(t, 0) == Ok::<(SpecAst, int), crate::tokens::SpecParseError>((full, 5)));
    assert(sp_comparison(t, 0) == Ok::<(SpecAst, int), crate::tokens::SpecParseError>(
        (full, 5),
    ));
    assert(sp_createvar(t, 0) == Ok::<(SpecAst, int), crate::tokens::SpecParseError>((full, 5)));
}


/// Lexicographic comparison finds two character sequences equal exactly
/// when they are the same sequence.
pub proof fn lemma_lex_cmp_equal(x: Seq<char>, y: Seq<char>)
    ensures
        (crate::object::lex_cmp(x, y) is Equal) <==> x == y,
    decreases x.len(),
{
    if x.len() == 0 && y.len() == 0 {
        assert(x =~= y);
    } else if x.len() == 0 || y.len() == 0 {
        assert(x.len() != y.len());
    } else if (x[0] as int) < (y[0] as int) || (x[0] as int) > (y[0] as int) {
        assert(x[0] != y[0]);
    } else {
        lemma_lex_cmp_equal(x.skip(1), y.skip(1));
        if x.skip(1) == y.skip(1) {
            assert(x =~= y) by {
                assert(x.len() == y.len());
                assert(forall|k: int| 1 <= k < x.len() ==> #[trigger] x[k] == x.skip(1)[k - 1]
                    && y[k] == y.skip(1)[k - 1]);
            }
        } else {
            assert(x != y) by {
                if x == y {
                    assert(x.skip(1) =~= y.skip(1));
                }
            }
        }
    }
}

/// One coercion rule governs equality and ordering alike: two values are
/// equal under `==` exactly when the comparison the ordering operators use
/// finds them equal.
pub proof fn lemma_equality_matches_ordering(a: SpecValue, b: SpecValue)
    ensures
        crate::object::spec_eq_vals(a, b) <==> (crate::object::spec_cmp(a, b) is Equal),
{
    match (a, b) {
        (SpecValue::Str(x), SpecValue::Str(y)) => {
            lemma_lex_cmp_equal(x, y);
        },
        _ => {},
    }
}


/// The rendering of positive infinity runs back through lexing, parsing
/// and evaluation to exactly the infinite value: `inf` lexes to the named
/// constant, which parses to its literal.
pub proof fn lemma_inf_round_trip(env: SpecEnv)
    ensures
        crate::object::spec_repr(SpecValue::Number(crate::double::BITS_INF)) == kw_inf(),
        spec_lex(kw_inf()) == Ok::<Seq<SpecToken>, crate::tokens::LexError>(
            seq![SpecToken::Ident(kw_inf()), SpecToken::Eof],
        ),
        sp_parse(seq![SpecToken::Ident(kw_inf()), SpecToken::Eof]) == Ok::<
            SpecAst,
            crate::tokens::SpecParseError,
        >(SpecAst::Number(crate::double::BITS_INF)),
        spec_visit(SpecAst::Number(crate::double::BITS_INF), env) == (
            Ok::<SpecValue, SpecRuntimeError>(SpecValue::Number(crate::double::BITS_INF)),
            env,
        ),
{
    let s = kw_inf();
    assert(crate::double::exp_field(crate::double::BITS_INF) == 0x7FF) by (bit_vector);
    assert(crate::double::frac_field(crate::double::BITS_INF) == 0) by (bit_vector);
    assert(!crate::double::sign_bit_set(crate::double::BITS_INF)) by (bit_vector);
    assert(crate::object::render_number(crate::double::BITS_INF) == s);
    assert(is_ident_start_char(s[0]));
    assert(ident_end(s, 3) == 3);
    assert(ident_end(s, 2) == 3);
    assert(ident_end(s, 1) == 3);
    assert(clamp_idx(1, s.len() as int, ident_end(s, 1)) == s.len());
    assert(s.subrange(0, s.len() as int) =~= s);
    assert(spec_lex_from(s, s.len() as int) == Ok::<Seq<SpecToken>, crate::tokens::LexError>(
        seq![SpecToken::Eof],
    ));
    assert(spec_lex_from(s, 0) == lex_cat(
        seq![SpecToken::Ident(s)],
        spec_lex_from(s, s.len() as int),
    ));
    assert(seq![SpecToken::Ident(s)] + seq![SpecToken::Eof] =~= seq![
        SpecToken::Ident(s),
        SpecToken::Eof,
    ]);
    assert(s != kw_let());
    assert(literal_of(SpecToken::Ident(s)) == Some(SpecAst::Number(crate::double::BITS_INF)));
    lemma_parse_single_literal(
        seq![SpecToken::Ident(s), SpecToken::Eof],
        SpecAst::Number(crate::double::BITS_INF),
    );
}

/// NaN is equal to nothing, itself included, and never ordered against
/// anything.
pub proof fn lemma_nan_equals_nothing(a: u64, v: SpecValue)
    requires
        crate::double::is_nan_bits(a),
    ensures
        !crate::object::spec_eq_vals(SpecValue::Number(a), v),
        !crate::object::spec_eq_vals(v, SpecValue::Number(a)),
        !(crate::object::spec_cmp(SpecValue::Number(a), v) is Equal),
        !(crate::object::spec_cmp(v, SpecValue::Number(a)) is Equal),
{
}

} // verus!
