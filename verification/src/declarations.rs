//! Declarations.
use vstd::prelude::*;
use crate::ast::{Declaration, DeclarationSpecifier};
use crate::model::{
    DeclFlags, decl_items_out, decl_spec_out, decl_specs_out, declaration_has_fn, declaration_out,
    empty_text, no_flags, spec_checked, struct_or_enum,
};
use crate::state::{State, TState, follows, prefix_of};
use crate::text::{concat2, opt_view, same_text, shrunk};
use crate::structs::{is_struct_or_enum, transpile_declaration_specifier};
use crate::specifiers::shrink_specifiers;
use crate::statements::{flags_view, transpile_declarators};
use crate::leaves::{declaration_declares_fn};

verus! {

broadcast use {
    crate::state::lemma_prefix_trans,
    crate::state::lemma_prefix_refl,
    crate::state::lemma_text_prefix_trans,
    crate::state::lemma_text_prefix_refl,
};

/// A declaration: its specifiers folded into a type, then each declarator.
/// A typedef records the new type name, a function declaration becomes an
/// empty definition between markers (unless it is extern), anything else a
/// `spec declarator;` line.
pub fn transpile_declaration(node: &Declaration, state: &mut State, is_top_level: bool) -> (r: Option<String>)
    requires
        old(state)@.tags_ok(),
    ensures
        follows(old(state)@, final(state)@),
        forall|o: Seq<Seq<char>>| #[trigger] prefix_of(final(state)@.drawn, o) ==> declaration_out(*node, old(state)@, o, is_top_level) == (opt_view(r), final(state)@),
    decreases node, 0int,
{
    proof {
        reveal(declaration_out);
        reveal(decl_specs_out);
    }
    let ghost s0 = state@;
    let is_fn_def = declaration_declares_fn(node);
    let mut spec = String::new();
    let mut is_typedef = false;
    let mut td_name = String::new();
    let mut td_body = false;
    let mut is_extern = false;
    let mut ok = true;
    let n = node.specifiers.len();
    let mut i: usize = 0;
    while i < n
        invariant
            n == node.specifiers@.len(),
            i <= n,
            is_fn_def == declaration_has_fn(*node),
            follows(s0, state@),
            forall|o: Seq<Seq<char>>| #[trigger] prefix_of(state@.drawn, o) ==> decl_specs_out(node.specifiers@.take(i as int), is_fn_def, is_top_level, s0, o) == (if ok { Some(flags_view(spec, is_typedef, td_name, td_body, is_extern)) } else { None::<DeclFlags> }, state@),
        decreases n - i,
    {
        proof {
            reveal(decl_specs_out);
        }
        assert(node.specifiers@.take(i + 1).drop_last() =~= node.specifiers@.take(i as int));
        if ok {
            let specifier = &node.specifiers[i];
            let res = is_struct_or_enum(specifier, state);
            if is_typedef {
                match res {
                    Some((nm, body)) => {
                        td_name = nm;
                        td_body = body;
                    },
                    None => {},
                }
            }
            match transpile_declaration_specifier(specifier, state, !is_fn_def && !is_typedef && is_top_level) {
                Some(sp) => {
                    if same_text(sp.as_str(), "\\typedef") {
                        is_typedef = true;
                    } else if same_text(sp.as_str(), "\\extern") {
                        is_extern = true;
                    } else {
                        spec.append(sp.as_str());
                        spec.append(" ");
                    }
                },
                None => {
                    ok = false;
                },
            }
        }
        i = i + 1;
    }
    assert(node.specifiers@.take(n as int) =~= node.specifiers@);
    if !ok {
        return None;
    }
    let spec = shrink_specifiers(spec, state);
    if node.declarators.len() == 0 {
        if is_typedef {
            state.warn(concat2("!! Typedef without declarators: ", spec.as_str()));
        }
        let mut code = spec;
        code.append(";\n");
        return Some(code);
    }
    transpile_declarators(&node.declarators, &spec, is_typedef, &td_name, td_body, is_extern, state)
}

/// One step of `declaration_out`: its definition, with the calls it makes left folded.
pub proof fn unfold_declaration_out(d: Declaration, st: TState, o: Seq<Seq<char>>, top: bool)
    ensures
        declaration_out(d, st, o, top) == ({
            let (r, st1) = decl_specs_out(d.specifiers@, declaration_has_fn(d), top, st, o);
            match r {
                None => (None, st1),
                Some(f) => {
                    let st1 = spec_checked(f.spec, st1);
                    let spec = shrunk(f.spec);
                    if d.declarators@.len() == 0 {
                        (Some(spec + ";\n"@), if f.is_typedef { st1.warned("!! Typedef without declarators: "@ + spec) } else { st1 })
                    } else {
                        decl_items_out(d.declarators@, DeclFlags { spec: spec, ..f }, empty_text(), st1, o)
                    }
                },
            }
        }),
{
    reveal(declaration_out);
    reveal(decl_specs_out);
}

/// One step of `decl_specs_out`: its definition, with the calls it makes left folded.
pub proof fn unfold_decl_specs_out(s: Seq<DeclarationSpecifier>, is_fn_def: bool, top: bool, st: TState, o: Seq<Seq<char>>)
    ensures
        decl_specs_out(s, is_fn_def, top, st, o) == ({
            if s.len() == 0 {
                (Some(no_flags()), st)
            } else {
                let (r, st1) = decl_specs_out(s.drop_last(), is_fn_def, top, st, o);
                match r {
                    None => (None, st1),
                    Some(f) => {
                        let (se, st2) = struct_or_enum(s.last(), st1, o);
                        let f1 = match se {
                            Some((nm, body)) => if f.is_typedef {
                                DeclFlags { td_name: nm, td_body: body, ..f }
                            } else {
                                f
                            },
                            None => f,
                        };
                        let (x, st3) = decl_spec_out(s.last(), st2, o, !is_fn_def && !f.is_typedef && top);
                        match x {
                            None => (None, st3),
                            Some(sp) => {
                                if sp == "\\typedef"@ {
                                    (Some(DeclFlags { is_typedef: true, ..f1 }), st3)
                                } else if sp == "\\extern"@ {
                                    (Some(DeclFlags { is_extern: true, ..f1 }), st3)
                                } else {
                                    (Some(DeclFlags { spec: f1.spec + sp + " "@, ..f1 }), st3)
                                }
                            },
                        }
                    },
                }
            }
        }),
{
    reveal(declaration_out);
    reveal(decl_specs_out);
}

} // verus!
