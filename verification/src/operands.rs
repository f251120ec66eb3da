//! Expressions without their outer parentheses.
use vstd::prelude::*;
use crate::ast::{BinaryOperator, Constant, Expression, IntegerBase, Statement, UnaryOperator};
use crate::model::{
    args_out, binary_text, constant_text, digit_string, expr_np_out, expr_out, float_text, integer_text,
    member_text, pieces_ok, pieces_quoted, pieces_text, radix_of, stmt_out, type_name_out, unary_text,
};
use crate::state::{State, TState, follows, prefix_of};
use crate::text::{all_ascii, ascii_digits_of, concat2, opt_view, text};
use crate::declarator_parts::{transpile_type_name};
use crate::init_declarators::{transpile_arguments};
use crate::expressions::{transpile_expression};
use crate::statements::{transpile_statement};
use crate::leaves::{
    member_symbol_text, string_pieces_quoted, transpile_binary_operator, transpile_constant, transpile_string_literal,
    transpile_unary_operator,
};

verus! {

broadcast use {
    crate::state::lemma_prefix_trans,
    crate::state::lemma_prefix_refl,
    crate::state::lemma_text_prefix_trans,
    crate::state::lemma_text_prefix_refl,
};

/// An expression without the outer parentheses.
pub fn transpile_expression_no_parens(node: &Expression, state: &mut State) -> (r: Option<String>)
    requires
        old(state)@.tags_ok(),
    ensures
        follows(old(state)@, final(state)@),
        forall|o: Seq<Seq<char>>| #[trigger] prefix_of(final(state)@.drawn, o) ==> expr_np_out(*node, old(state)@, o) == (opt_view(r), final(state)@),
        *node matches Expression::Constant(c) ==> (opt_view(r) == constant_text(c) && final(state)@ == (if constant_text(c) is Some { old(state)@ } else { old(state)@.aborting() })),
        *node matches Expression::Constant(Constant::Integer(base, n)) ==> (digit_string(n@, radix_of(base)) ==> opt_view(r) == integer_text(base, n@)),
        *node matches Expression::Constant(Constant::Integer(IntegerBase::Decimal, n)) ==> (all_ascii(n@) ==> opt_view(r) == Some(ascii_digits_of(n@))),
        *node matches Expression::Constant(Constant::Float(n)) ==> opt_view(r) == Some(float_text(n@)),
        *node matches Expression::StringLiteral(ps) ==> (opt_view(r) == (if pieces_ok(ps@) { Some(pieces_text(ps@, "\""@) + "\""@) } else { None::<Seq<char>> }) && final(state)@ == ({
            let st0 = if pieces_quoted(ps@) { old(state)@ } else { old(state)@.warned("!! Invalid string literal"@) };
            if pieces_ok(ps@) { st0 } else { st0.aborting() }
        })),
    decreases node, 0int,
{
    proof {
        reveal(expr_np_out);
    }
    match node {
        Expression::Identifier(n) => Some(concat2("$I_", n.as_str())),
        Expression::Constant(c) => match transpile_constant(c) {
            Some(t) => Some(t),
            None => {
                state.abort();
                None
            },
        },
        Expression::StringLiteral(pieces) => {
            if !string_pieces_quoted(pieces) {
                state.warn(text("!! Invalid string literal"));
            }
            match transpile_string_literal(pieces) {
                Some(t) => Some(t),
                None => {
                    state.abort();
                    None
                },
            }
        },
        Expression::GenericSelection => {
            state.warn(text("!! generic selection not supported"));
            None
        },
        Expression::Member(op, inner, id) => match transpile_expression(inner, state) {
            Some(x) => {
                let mut code = x;
                code.append(member_symbol_text(op));
                code.append("$I_");
                code.append(id.as_str());
                Some(code)
            },
            None => None,
        },
        Expression::Call(callee, args) => match &**callee {
            Expression::Identifier(n) => {
                let mut code = concat2("$I_", n.as_str());
                code.append("(");
                if transpile_arguments(args, &mut code, state) {
                    code.append(")");
                    Some(code)
                } else {
                    None
                }
            },
            _ => {
                state.warn(text("!! Unknown callee"));
                None
            },
        },
        Expression::CompoundLiteral => {
            state.warn(text("!! compound literal not supported"));
            None
        },
        Expression::SizeOfTy => Some(text("0")),
        Expression::SizeOfVal => Some(text("0")),
        Expression::AlignOf => {
            state.warn(text("!! alignof keyword not supported"));
            None
        },
        Expression::UnaryOperator(op, inner) => match transpile_expression(inner, state) {
            Some(x) => Some(transpile_unary_operator(op, x)),
            None => None,
        },
        Expression::Cast(cast_type, inner) => {
            let t = match transpile_type_name(cast_type, state) {
                Some(t) => t,
                None => {
                    return None;
                },
            };
            match transpile_expression(inner, state) {
                Some(x) => {
                    let mut code = concat2("[", t.as_str());
                    code.append("]");
                    code.append("(");
                    code.append(x.as_str());
                    code.append(")");
                    Some(code)
                },
                None => None,
            }
        },
        Expression::BinaryOperator(op, lhs, rhs) => match transpile_expression(lhs, state) {
            Some(x) => match transpile_expression(rhs, state) {
                Some(y) => Some(transpile_binary_operator(op, x, y)),
                None => None,
            },
            None => None,
        },
        Expression::Conditional => {
            state.warn(text("!! ternaries not supported"));
            None
        },
        Expression::Comma => {
            state.warn(text("!! comma statements not supported"));
            None
        },
        Expression::OffsetOf => {
            state.warn(text("!! offsetof keyword not supported"));
            None
        },
        Expression::VaArg => {
            state.warn(text("!! variadic arguments not supported"));
            None
        },
        Expression::Statement(s) => transpile_statement(s, state),
    }
}

/// One step of `expr_np_out`: its definition, with the calls it makes left folded.
pub proof fn unfold_expr_np_out(e: Expression, st: TState, o: Seq<Seq<char>>)
    ensures
        expr_np_out(e, st, o) == ({
            match e {
                Expression::Identifier(n) => (Some("$I_"@ + n@), st),
                Expression::Constant(c) => match constant_text(c) {
                    Some(t) => (Some(t), st),
                    None => (None, st.aborting()),
                },
                Expression::StringLiteral(pieces) => {
                    let st0 = if pieces_quoted(pieces@) { st } else { st.warned("!! Invalid string literal"@) };
                    if pieces_ok(pieces@) {
                        (Some(pieces_text(pieces@, "\""@) + "\""@), st0)
                    } else {
                        (None, st0.aborting())
                    }
                },
                Expression::GenericSelection => (None, st.warned("!! generic selection not supported"@)),
                Expression::Member(op, inner, id) => {
                    let (x, st1) = expr_out(*inner, st, o);
                    match x {
                        None => (None, st1),
                        Some(x) => (Some(x + member_text(op) + "$I_"@ + id@), st1),
                    }
                },
                Expression::Call(callee, args) => match *callee {
                    Expression::Identifier(n) => {
                        let (r, st1) = args_out(args@, args@.len() as int, "$I_"@ + n@ + "("@, st, o);
                        match r {
                            None => (None, st1),
                            Some(c) => (Some(c + ")"@), st1),
                        }
                    },
                    _ => (None, st.warned("!! Unknown callee"@)),
                },
                Expression::CompoundLiteral => (None, st.warned("!! compound literal not supported"@)),
                Expression::SizeOfTy => (Some("0"@), st),
                Expression::SizeOfVal => (Some("0"@), st),
                Expression::AlignOf => (None, st.warned("!! alignof keyword not supported"@)),
                Expression::UnaryOperator(op, inner) => {
                    let (x, st1) = expr_out(*inner, st, o);
                    match x {
                        None => (None, st1),
                        Some(x) => (Some(unary_text(op, x)), st1),
                    }
                },
                Expression::Cast(tn, inner) => {
                    let (t, st1) = type_name_out(tn, st, o);
                    match t {
                        None => (None, st1),
                        Some(t) => {
                            let (x, st2) = expr_out(*inner, st1, o);
                            match x {
                                None => (None, st2),
                                Some(x) => (Some("["@ + t + "]"@ + "("@ + x + ")"@), st2),
                            }
                        },
                    }
                },
                Expression::BinaryOperator(op, l, r) => {
                    let (x, st1) = expr_out(*l, st, o);
                    match x {
                        None => (None, st1),
                        Some(x) => {
                            let (y, st2) = expr_out(*r, st1, o);
                            match y {
                                None => (None, st2),
                                Some(y) => (Some(binary_text(op, x, y)), st2),
                            }
                        },
                    }
                },
                Expression::Conditional => (None, st.warned("!! ternaries not supported"@)),
                Expression::Comma => (None, st.warned("!! comma statements not supported"@)),
                Expression::OffsetOf => (None, st.warned("!! offsetof keyword not supported"@)),
                Expression::VaArg => (None, st.warned("!! variadic arguments not supported"@)),
                Expression::Statement(s) => stmt_out(*s, st, o),
            }
        }),
{
    reveal(expr_np_out);
}

} // verus!
