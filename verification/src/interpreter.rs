//! The evaluator: a tree walk producing a value or a runtime error.
//!
//! Operands are evaluated strictly left to right; the environment threads
//! through the walk, so an assignment inside a subexpression is visible to
//! everything evaluated after it.  A declaration writes into the nearest
//! scope; an assignment needs an existing binding; reading an unbound name
//! is an error.  `spec_visit` is the model, and `visit` returns exactly
//! what it says, including the environment it leaves behind.

use vstd::prelude::*;
use crate::context::Context;
use crate::context::SpecEnv;
use crate::context::chain_contains;
use crate::context::chain_lookup;
use crate::context::env_assign;
use crate::context::env_declare;
use crate::double::BITS_NEG_ONE;
use crate::double::dbl_mul;
use crate::double::mul_double;
use crate::object::Object;
use crate::object::RuntimeError;
use crate::object::SpecRuntimeError;
use crate::object::SpecValue;
use crate::object::TypeOf;
use crate::object::spec_add;
use crate::object::spec_bitop;
use crate::object::spec_cmp;
use crate::object::spec_div;
use crate::object::spec_eq_vals;
use crate::object::spec_mul;
use crate::object::spec_not;
use crate::object::spec_num;
use crate::object::spec_pow_op;
use crate::object::spec_rem;
use crate::object::spec_sub;
use crate::object::spec_type_of;
use crate::parser::AstNode;
use crate::parser::SpecAst;
use crate::tokens::Operator;

verus! {

/// What a unary operator yields on a value: `+` coerces to a number, `-`
/// multiplies by `-1`, `!` negates logically; no other operator is unary.
pub open spec fn spec_apply_unop(op: Operator, v: SpecValue) -> Result<
    SpecValue,
    SpecRuntimeError,
> {
    if op == Operator::Plus {
        Ok(SpecValue::Number(spec_num(v)))
    } else if op == Operator::Minus {
        Ok(SpecValue::Number(dbl_mul(spec_num(v), BITS_NEG_ONE)))
    } else if op == Operator::Exclamation {
        spec_not(v)
    } else {
        Err(SpecRuntimeError::UnsupportedUnary(op, spec_type_of(v)))
    }
}

/// What a binary operator yields on a pair of evaluated operands.
pub open spec fn spec_apply_binop(op: Operator, a: SpecValue, b: SpecValue) -> Result<
    SpecValue,
    SpecRuntimeError,
> {
    if op == Operator::Plus {
        spec_add(a, b)
    } else if op == Operator::Minus {
        spec_sub(a, b)
    } else if op == Operator::Star {
        spec_mul(a, b)
    } else if op == Operator::Slash {
        spec_div(a, b)
    } else if op == Operator::StarStar {
        spec_pow_op(a, b)
    } else if op == Operator::Percent {
        spec_rem(a, b)
    } else if op == Operator::Pipe || op == Operator::Ampersand || op == Operator::Caret || op
        == Operator::GreaterGreater || op == Operator::LessLess {
        spec_bitop(op, a, b)
    } else if op == Operator::EqualsEquals {
        Ok(SpecValue::Bool(spec_eq_vals(a, b)))
    } else if op == Operator::ExclamationEquals {
        Ok(SpecValue::Bool(!spec_eq_vals(a, b)))
    } else if op == Operator::Greater {
        Ok(SpecValue::Bool(spec_cmp(a, b) is Greater))
    } else if op == Operator::Less {
        Ok(SpecValue::Bool(spec_cmp(a, b) is Less))
    } else if op == Operator::GreaterEquals {
        Ok(SpecValue::Bool(spec_cmp(a, b) is Greater || spec_cmp(a, b) is Equal))
    } else if op == Operator::LessEquals {
        Ok(SpecValue::Bool(spec_cmp(a, b) is Less || spec_cmp(a, b) is Equal))
    } else {
        Err(SpecRuntimeError::UnsupportedOperator(op, spec_type_of(a), spec_type_of(b)))
    }
}

/// The model of evaluation: the result and the environment left behind.
pub open spec fn spec_visit(node: SpecAst, env: SpecEnv) -> (
    Result<SpecValue, SpecRuntimeError>,
    SpecEnv,
)
    decreases node,
{
    match node {
        SpecAst::Number(b) => (Ok(SpecValue::Number(b)), env),
        SpecAst::Bool(b) => (Ok(SpecValue::Bool(b)), env),
        SpecAst::Char(c) => (Ok(SpecValue::Char(c)), env),
        SpecAst::StringLiteral(s) => (Ok(SpecValue::Str(s)), env),
        SpecAst::UnOp(op, n) => {
            let (r1, env1) = spec_visit(*n, env);
            match r1 {
                Err(e) => (Err(e), env1),
                Ok(v) => (spec_apply_unop(op, v), env1),
            }
        },
        SpecAst::BinOp(l, op, r) => {
            let (r1, env1) = spec_visit(*l, env);
            match r1 {
                Err(e) => (Err(e), env1),
                Ok(v1) => {
                    let (r2, env2) = spec_visit(*r, env1);
                    match r2 {
                        Err(e) => (Err(e), env2),
                        Ok(v2) => (spec_apply_binop(op, v1, v2), env2),
                    }
                },
            }
        },
        SpecAst::VarCreate(nm, n) => {
            let (r1, env1) = spec_visit(*n, env);
            match r1 {
                Err(e) => (Err(e), env1),
                Ok(v) => (Ok(v), env_declare(env1, nm, v)),
            }
        },
        SpecAst::VarAssign(nm, n) => {
            let (r1, env1) = spec_visit(*n, env);
            match r1 {
                Err(e) => (Err(e), env1),
                Ok(v) => if chain_contains(env1, nm) {
                    (Ok(v), env_assign(env1, nm, v))
                } else {
                    (Err(SpecRuntimeError::UndefinedVariable(nm)), env1)
                },
            }
        },
        SpecAst::VarAccess(nm) => (
            match chain_lookup(env, nm) {
                Some(v) => Ok(v),
                None => Err(SpecRuntimeError::UndefinedVariable(nm)),
            },
            env,
        ),
    }
}

/// Applies a unary operator to an evaluated operand.
pub fn apply_unop(op: Operator, v: &Object) -> (r: Result<Object, RuntimeError>)
    ensures
        (match r {
            Ok(out) => spec_apply_unop(op, v@) == Ok::<SpecValue, SpecRuntimeError>(out@),
            Err(e) => spec_apply_unop(op, v@) == Err::<SpecValue, SpecRuntimeError>(e@),
        }),
{
    match op {
        Operator::Plus => {
            let b: u64 = match v.num() {
                Ok(b) => b,
                Err(e) => {
                    return Err(e);
                },
            };
            Ok(Object::Number(b))
        },
        Operator::Minus => {
            let b: u64 = match v.num() {
                Ok(b) => b,
                Err(e) => {
                    return Err(e);
                },
            };
            Ok(Object::Number(mul_double(b, BITS_NEG_ONE)))
        },
        Operator::Exclamation => v.not(),
        _ => Err(RuntimeError::UnsupportedUnary(op, v.type_of())),
    }
}

/// Applies a binary operator to two evaluated operands.
pub fn apply_binop(op: Operator, a: &Object, b: &Object) -> (r: Result<Object, RuntimeError>)
    ensures
        (match r {
            Ok(out) => spec_apply_binop(op, a@, b@) == Ok::<SpecValue, SpecRuntimeError>(out@),
            Err(e) => spec_apply_binop(op, a@, b@) == Err::<SpecValue, SpecRuntimeError>(e@),
        }),
{
    match op {
        Operator::Plus => a.add(b),
        Operator::Minus => a.sub(b),
        Operator::Star => a.mul(b),
        Operator::Slash => a.div(b),
        Operator::StarStar => a.pow(b),
        Operator::Percent => a.rem(b),
        Operator::Pipe => a.bitor(b),
        Operator::Ampersand => a.bitand(b),
        Operator::Caret => a.bitxor(b),
        Operator::GreaterGreater => a.shr(b),
        Operator::LessLess => a.shl(b),
        Operator::EqualsEquals => Ok(a.eq(b)),
        Operator::ExclamationEquals => Ok(a.ne(b)),
        Operator::Greater => Ok(a.gt(b)),
        Operator::Less => Ok(a.lt(b)),
        Operator::GreaterEquals => Ok(a.gte(b)),
        Operator::LessEquals => Ok(a.lte(b)),
        _ => Err(RuntimeError::UnsupportedOperator(op, a.type_of(), b.type_of())),
    }
}

/// Evaluates one syntax tree against the environment: exactly what
/// `spec_visit` says, for the value or error and for the environment the
/// statement leaves behind.
pub fn visit(node: &AstNode, context: &mut Context) -> (r: Result<Object, RuntimeError>)
    requires
        old(context).wf(),
    ensures
        final(context).wf(),
        (match r {
            Ok(v) => spec_visit(node@, old(context)@) == (
                Ok::<SpecValue, SpecRuntimeError>(v@),
                final(context)@,
            ),
            Err(e) => spec_visit(node@, old(context)@) == (
                Err::<SpecValue, SpecRuntimeError>(e@),
                final(context)@,
            ),
        }),
    decreases node,
{
    match node {
        AstNode::Number(b) => Ok(Object::Number(*b)),
        AstNode::Bool(b) => Ok(Object::Bool(*b)),
        AstNode::Char(c) => Ok(Object::Char(*c)),
        AstNode::StringLiteral(s) => Ok(Object::Str(s.clone())),
        AstNode::UnOp(op, n) => {
            match visit(n, context) {
                Err(e) => Err(e),
                Ok(v) => apply_unop(*op, &v),
            }
        },
        AstNode::BinOp(l, op, r2) => {
            match visit(l, context) {
                Err(e) => Err(e),
                Ok(v1) => {
                    match visit(r2, context) {
                        Err(e) => Err(e),
                        Ok(v2) => apply_binop(*op, &v1, &v2),
                    }
                },
            }
        },
        AstNode::VarCreate(nm, n) => {
            match visit(n, context) {
                Err(e) => Err(e),
                Ok(v) => {
                    context.declare(nm.as_str(), &v);
                    Ok(v)
                },
            }
        },
        AstNode::VarAssign(nm, n) => {
            match visit(n, context) {
                Err(e) => Err(e),
                Ok(v) => {
                    match context.assign(nm.as_str(), &v) {
                        Ok(_) => Ok(v),
                        Err(e) => Err(e),
                    }
                },
            }
        },
        AstNode::VarAccess(nm) => {
            match context.get(nm.as_str()) {
                Some(v) => Ok(v),
                None => Err(RuntimeError::UndefinedVariable(nm.clone())),
            }
        },
    }
}

} // verus!
