//! Struct members, type names, initializers and array sizes.
use vstd::prelude::*;
use crate::ast::{Expression, Initializer, StructDeclaration, TypeName};
use crate::model::{
    array_size_out, declarator_out, empty_text, expr_np_out, expr_out, imm_text, initializer_out,
    spec_checked, sq_list_out, struct_decl_out, struct_field_out, type_name_out,
};
use crate::state::{State, TState, follows, prefix_of};
use crate::text::{opt_view, shrunk, text};
use crate::specifiers::{shrink_specifiers, transpile_specifier_qualifiers};
use crate::structs::{transpile_struct_field};
use crate::declarators::{transpile_declarator};
use crate::expressions::{transpile_expression};
use crate::operands::{transpile_expression_no_parens};
use crate::leaves::{eval_imm_expr};

verus! {

broadcast use {
    crate::state::lemma_prefix_trans,
    crate::state::lemma_prefix_refl,
    crate::state::lemma_text_prefix_trans,
    crate::state::lemma_text_prefix_refl,
};

pub fn transpile_struct_decl(node: &StructDeclaration, state: &mut State) -> (r: Option<String>)
    requires
        old(state)@.tags_ok(),
    ensures
        follows(old(state)@, final(state)@),
        forall|o: Seq<Seq<char>>| #[trigger] prefix_of(final(state)@.drawn, o) ==> struct_decl_out(*node, old(state)@, o) == (opt_view(r), final(state)@),
    decreases node, 0int,
{
    proof {
        reveal(struct_decl_out);
    }
    match node {
        StructDeclaration::Field(f) => transpile_struct_field(f, state),
        StructDeclaration::StaticAssert => Some(String::new()),
    }
}

/// A type name, as in a cast: its specifiers folded into a type, then its
/// declarator if it has one.
pub fn transpile_type_name(node: &TypeName, state: &mut State) -> (r: Option<String>)
    requires
        old(state)@.tags_ok(),
    ensures
        follows(old(state)@, final(state)@),
        forall|o: Seq<Seq<char>>| #[trigger] prefix_of(final(state)@.drawn, o) ==> type_name_out(*node, old(state)@, o) == (opt_view(r), final(state)@),
    decreases node, 0int,
{
    proof {
        reveal(type_name_out);
    }
    let spec = match transpile_specifier_qualifiers(&node.specifiers, state) {
        Some(s) => shrink_specifiers(s, state),
        None => {
            return None;
        },
    };
    match &node.declarator {
        Some(declarator) => transpile_declarator(declarator, &spec, state, &String::new()),
        None => Some(spec),
    }
}

pub fn transpile_initializer(node: &Initializer, state: &mut State) -> (r: Option<String>)
    requires
        old(state)@.tags_ok(),
    ensures
        follows(old(state)@, final(state)@),
        forall|o: Seq<Seq<char>>| #[trigger] prefix_of(final(state)@.drawn, o) ==> initializer_out(*node, old(state)@, o) == (opt_view(r), final(state)@),
    decreases node, 0int,
{
    proof {
        reveal(initializer_out);
    }
    match node {
        Initializer::Expression(e) => transpile_expression(e, state),
        Initializer::List => {
            state.warn(text("!! initializer list not supported"));
            None
        },
    }
}

/// The text before the name followed by an array size `[value]`.
pub(crate) fn transpile_array_size(e: &Expression, before: &String, state: &mut State) -> (r: Option<String>)
    requires
        old(state)@.tags_ok(),
    ensures
        follows(old(state)@, final(state)@),
        forall|o: Seq<Seq<char>>| #[trigger] prefix_of(final(state)@.drawn, o) ==> array_size_out(*e, before@, old(state)@, o) == (opt_view(r), final(state)@),
    decreases e, 1int,
{
    proof {
        reveal(array_size_out);
    }
    let mut b = before.clone();
    b.append("[");
    match transpile_expression_no_parens(e, state) {
        Some(x) => match eval_imm_expr(x.as_str()) {
            Some(v) => {
                b.append(v.as_str());
                b.append("]");
                Some(b)
            },
            None => {
                state.abort();
                None
            },
        },
        None => None,
    }
}

/// One step of `struct_decl_out`: its definition, with the calls it makes left folded.
pub proof fn unfold_struct_decl_out(d: StructDeclaration, st: TState, o: Seq<Seq<char>>)
    ensures
        struct_decl_out(d, st, o) == ({
            match d {
                StructDeclaration::Field(f) => struct_field_out(f, st, o),
                StructDeclaration::StaticAssert => (Some(empty_text()), st),
            }
        }),
{
    reveal(struct_decl_out);
}

/// One step of `type_name_out`: its definition, with the calls it makes left folded.
pub proof fn unfold_type_name_out(tn: TypeName, st: TState, o: Seq<Seq<char>>)
    ensures
        type_name_out(tn, st, o) == ({
            let (r, st1) = sq_list_out(tn.specifiers@, empty_text(), st, o);
            match r {
                None => (None, st1),
                Some(sp) => {
                    let st1 = spec_checked(sp, st1);
                    let spec = shrunk(sp);
                    match tn.declarator {
                        Some(d) => declarator_out(d, spec, st1, o, empty_text()),
                        None => (Some(spec), st1),
                    }
                },
            }
        }),
{
    reveal(type_name_out);
}

/// One step of `initializer_out`: its definition, with the calls it makes left folded.
pub proof fn unfold_initializer_out(i: Initializer, st: TState, o: Seq<Seq<char>>)
    ensures
        initializer_out(i, st, o) == ({
            match i {
                Initializer::Expression(e) => expr_out(*e, st, o),
                Initializer::List => (None, st.warned("!! initializer list not supported"@)),
            }
        }),
{
    reveal(initializer_out);
}

/// One step of `array_size_out`: its definition, with the calls it makes left folded.
pub proof fn unfold_array_size_out(e: Expression, b: Seq<char>, st: TState, o: Seq<Seq<char>>)
    ensures
        array_size_out(e, b, st, o) == ({
            let (x, st1) = expr_np_out(e, st, o);
            match x {
                None => (None, st1),
                Some(x) => match imm_text(x) {
                    None => (None, st1.aborting()),
                    Some(v) => (Some(b + "["@ + v + "]"@), st1),
                },
            }
        }),
{
    reveal(array_size_out);
}

} // verus!
