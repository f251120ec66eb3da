//! Expressions in parentheses.
use vstd::prelude::*;
use crate::ast::{Expression};
use crate::model::{expr_np_out, expr_out};
use crate::state::{State, TState, follows, prefix_of};
use crate::text::{concat2, opt_view};
use crate::operands::{transpile_expression_no_parens};

verus! {

broadcast use {
    crate::state::lemma_prefix_trans,
    crate::state::lemma_prefix_refl,
    crate::state::lemma_text_prefix_trans,
    crate::state::lemma_text_prefix_refl,
};

/// An expression in parentheses.
pub fn transpile_expression(node: &Expression, state: &mut State) -> (r: Option<String>)
    requires
        old(state)@.tags_ok(),
    ensures
        follows(old(state)@, final(state)@),
        forall|o: Seq<Seq<char>>| #[trigger] prefix_of(final(state)@.drawn, o) ==> expr_out(*node, old(state)@, o) == (opt_view(r), final(state)@),
    decreases node, 1int,
{
    proof {
        reveal(expr_out);
    }
    match transpile_expression_no_parens(node, state) {
        Some(x) => {
            let mut code = concat2("(", x.as_str());
            code.append(")");
            Some(code)
        },
        None => None,
    }
}

/// One step of `expr_out`: its definition, with the calls it makes left folded.
pub proof fn unfold_expr_out(e: Expression, st: TState, o: Seq<Seq<char>>)
    ensures
        expr_out(e, st, o) == ({
            let (r, st1) = expr_np_out(e, st, o);
            match r {
                Some(x) => (Some("("@ + x + ")"@), st1),
                None => (None, st1),
            }
        }),
{
    reveal(expr_out);
}

} // verus!
