//! The translation of a whole translation unit.
use vstd::prelude::*;
use crate::ast::{
    Declaration, DeclaratorKind, ExternalDeclaration, FunctionDefinition, TranslationUnit,
};
use crate::model::{
    declaration_out, empty_decls_text, empty_text, fn_def_out, items_out, transpile_out,
};
use crate::state::{State, TState, follows, prefix_of};
use crate::text::{begins_with, concat2, starts_with, text};
use crate::blocks::{transpile_function_definition};
use crate::declarations::{transpile_declaration};

verus! {

broadcast use {
    crate::state::lemma_prefix_trans,
    crate::state::lemma_prefix_refl,
    crate::state::lemma_text_prefix_trans,
    crate::state::lemma_text_prefix_refl,
};

/// Translates a whole translation unit: the hoisted nested classes, an empty
/// class for each struct that is declared but never defined, the top-level
/// classes, then all other code.
pub fn transpile(unit: &TranslationUnit, state: &mut State) -> (r: String)
    requires
        old(state)@.tags_ok(),
    ensures
        follows(old(state)@, final(state)@),
        forall|o: Seq<Seq<char>>| #[trigger] prefix_of(final(state)@.drawn, o) ==> transpile_out(*unit, old(state)@, o) == (r@, final(state)@),
{
    proof {
        reveal(transpile_out);
        reveal(items_out);
    }
    let ghost s0 = state@;
    let mut class_decls = String::new();
    let mut other_code = String::new();
    let n = unit.items.len();
    let mut i: usize = 0;
    while i < n
        invariant
            n == unit.items@.len(),
            i <= n,
            follows(s0, state@),
            forall|o: Seq<Seq<char>>| #[trigger] prefix_of(state@.drawn, o) ==> items_out(unit.items@.take(i as int), s0, o) == (class_decls@, other_code@, state@),
        decreases n - i,
    {
        proof {
            reveal(items_out);
        }
        assert(unit.items@.take(i + 1).drop_last() =~= unit.items@.take(i as int));
        match &unit.items[i] {
            ExternalDeclaration::Declaration(d) => match transpile_declaration(d, state, true) {
                Some(x) => {
                    if starts_with(x.as_str(), "class") {
                        class_decls.append(x.as_str());
                    } else {
                        other_code.append(x.as_str());
                    }
                },
                None => {},
            },
            ExternalDeclaration::StaticAssert => {},
            ExternalDeclaration::FunctionDefinition(f) => match transpile_function_definition(f, state) {
                Some(x) => {
                    other_code.append(x.as_str());
                    match &f.declarator.kind {
                        DeclaratorKind::Identifier(ident) => {
                            let name = concat2("$I_", ident.as_str());
                            state.remove_undef_fn(name.as_str());
                        },
                        _ => {
                            state.warn(text("!! Unknown function definition"));
                        },
                    }
                },
                None => {},
            },
        }
        i = i + 1;
    }
    assert(unit.items@.take(n as int) =~= unit.items@);
    let ghost s1 = state@;
    let mut empty_struct_decls = String::new();
    let m = state.empty_struct_count();
    let mut j: usize = 0;
    while j < m
        invariant
            state@ == s1,
            m == s1.empty_structs.len(),
            j <= m,
            empty_struct_decls@ == empty_decls_text(s1.empty_structs.take(j as int), s1.defined_structs),
        decreases m - j,
    {
        assert(s1.empty_structs.take(j + 1).drop_last() =~= s1.empty_structs.take(j as int));
        let name = state.empty_struct_at(j);
        if !state.is_defined_struct(name.as_str()) {
            empty_struct_decls.append("class ");
            empty_struct_decls.append(name.as_str());
            empty_struct_decls.append(" {};\n");
        }
        j = j + 1;
    }
    assert(s1.empty_structs.take(m as int) =~= s1.empty_structs);
    let mut out = text("// hoisted nested struct decls:\n");
    out.append(state.nested().as_str());
    out.append("\n// hoisted empty struct decls:\n");
    out.append(empty_struct_decls.as_str());
    out.append("\n// non-empty struct decls:\n");
    out.append(class_decls.as_str());
    out.append("\n// other code:\n");
    out.append(other_code.as_str());
    out
}

/// One step of `transpile_out`: its definition, with the calls it makes left folded.
pub proof fn unfold_transpile_out(u: TranslationUnit, st: TState, o: Seq<Seq<char>>)
    ensures
        transpile_out(u, st, o) == ({
            let (c, other, st1) = items_out(u.items@, st, o);
            let e = empty_decls_text(st1.empty_structs, st1.defined_structs);
            (
                "// hoisted nested struct decls:\n"@ + st1.nested + "\n// hoisted empty struct decls:\n"@ + e
                    + "\n// non-empty struct decls:\n"@ + c + "\n// other code:\n"@ + other,
                st1,
            )
        }),
{
    reveal(transpile_out);
    reveal(items_out);
}

/// One step of `items_out`: its definition, with the calls it makes left folded.
pub proof fn unfold_items_out(s: Seq<ExternalDeclaration>, st: TState, o: Seq<Seq<char>>)
    ensures
        items_out(s, st, o) == ({
            if s.len() == 0 {
                (empty_text(), empty_text(), st)
            } else {
                let (c, other, st1) = items_out(s.drop_last(), st, o);
                match s.last() {
                    ExternalDeclaration::Declaration(d) => {
                        let (x, st2) = declaration_out(d, st1, o, true);
                        match x {
                            Some(x) => if begins_with(x, "class"@) {
                                (c + x, other, st2)
                            } else {
                                (c, other + x, st2)
                            },
                            None => (c, other, st2),
                        }
                    },
                    ExternalDeclaration::StaticAssert => (c, other, st1),
                    ExternalDeclaration::FunctionDefinition(f) => {
                        let (x, st2) = fn_def_out(f, st1, o);
                        match x {
                            Some(x) => {
                                let st3 = match f.declarator.kind {
                                    DeclaratorKind::Identifier(n) => st2.without_undef("$I_"@ + n@),
                                    _ => st2.warned("!! Unknown function definition"@),
                                };
                                (c, other + x, st3)
                            },
                            None => (c, other, st2),
                        }
                    },
                }
            }
        }),
{
    reveal(transpile_out);
    reveal(items_out);
}

} // verus!
