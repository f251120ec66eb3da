//! Type specifiers and lists of specifiers.
use vstd::prelude::*;
use crate::ast::{DeclarationSpecifier, SpecifierQualifier, StructDeclarator, TypeSpecifier};
use crate::model::{
    decl_spec_out, declarator_out, ds_list_out, empty_text, enum_text, spec_checked,
    specifier_qualifier_out, sq_list_out, struct_declarator_out, struct_out, type_spec_out,
};
use crate::state::{State, TState, follows, lookup, prefix_of};
use crate::text::{concat2, has_char, opt_view, shrink_spec, shrunk, text, trim_has_space};
use crate::structs::{
    transpile_declaration_specifier, transpile_specifier_qualifier, transpile_struct,
};
use crate::declarators::{transpile_declarator};
use crate::leaves::{transpile_enum};

verus! {

broadcast use {
    crate::state::lemma_prefix_trans,
    crate::state::lemma_prefix_refl,
    crate::state::lemma_text_prefix_trans,
    crate::state::lemma_text_prefix_refl,
};

/// Folds the specifier text into type names, and reports the specifiers it
/// could not fold.
pub fn shrink_specifiers(spec: String, state: &mut State) -> (r: String)
    ensures
        r@ == shrunk(spec@),
        final(state)@ == spec_checked(spec@, old(state)@),
{
    let out = shrink_spec(text(spec.as_str()));
    if trim_has_space(out.as_str()) && has_char(spec.as_str(), '\\') {
        state.warn(concat2("!! Unknown specifiers: ", spec.as_str()));
    }
    out
}

pub fn transpile_type_specifier(node: &TypeSpecifier, state: &mut State, is_decl: bool) -> (r: Option<String>)
    requires
        old(state)@.tags_ok(),
    ensures
        follows(old(state)@, final(state)@),
        forall|o: Seq<Seq<char>>| #[trigger] prefix_of(final(state)@.drawn, o) ==> type_spec_out(*node, old(state)@, o, is_decl) == (opt_view(r), final(state)@),
    decreases node, 0int,
{
    proof {
        reveal(type_spec_out);
    }
    match node {
        TypeSpecifier::Void => Some(text("\\void")),
        TypeSpecifier::Char => Some(text("\\char")),
        TypeSpecifier::Short => Some(text("\\short")),
        TypeSpecifier::Int => Some(text("\\int")),
        TypeSpecifier::Long => Some(text("\\long")),
        TypeSpecifier::Float => Some(text("\\float")),
        TypeSpecifier::Double => Some(text("\\double")),
        TypeSpecifier::Signed => Some(text("\\signed")),
        TypeSpecifier::Unsigned => Some(text("\\unsigned")),
        TypeSpecifier::Bool => Some(text("\\bool")),
        TypeSpecifier::Complex => {
            state.warn(text("!! complex keyword not supported"));
            None
        },
        TypeSpecifier::Atomic => {
            state.warn(text("!! atomic keyword not supported"));
            None
        },
        TypeSpecifier::Struct(s) => transpile_struct(s, state, is_decl),
        TypeSpecifier::Enum(e) => Some(transpile_enum(e)),
        TypeSpecifier::TypedefName(ident) => {
            let typedef_id = concat2("$T_", ident.as_str());
            match state.lookup_typedef(typedef_id.as_str()) {
                Some(t) => Some(t),
                None => {
                    state.warn(concat2("!! Unknown typedef: ", typedef_id.as_str()));
                    Some(ident.clone())
                },
            }
        },
        TypeSpecifier::TypeOf => {
            state.warn(text("!! typeof keyword not supported"));
            None
        },
        TypeSpecifier::TS18661Float => {
            state.warn(text("!! ts18661float not supported"));
            None
        },
    }
}

/// A list of declaration specifiers, each followed by a space.
pub(crate) fn transpile_specifier_list(specs: &Vec<DeclarationSpecifier>, state: &mut State) -> (r: Option<String>)
    requires
        old(state)@.tags_ok(),
    ensures
        follows(old(state)@, final(state)@),
        forall|o: Seq<Seq<char>>| #[trigger] prefix_of(final(state)@.drawn, o) ==> ds_list_out(specs@, empty_text(), old(state)@, o) == (opt_view(r), final(state)@),
    decreases specs, 0int,
{
    proof {
        reveal(ds_list_out);
    }
    let ghost s0 = state@;
    let mut spec = String::new();
    let mut ok = true;
    let n = specs.len();
    let mut i: usize = 0;
    while i < n
        invariant
            n == specs@.len(),
            i <= n,
            follows(s0, state@),
            forall|o: Seq<Seq<char>>| #[trigger] prefix_of(state@.drawn, o) ==> ds_list_out(specs@.take(i as int), empty_text(), s0, o) == (if ok { Some(spec@) } else { None::<Seq<char>> }, state@),
        decreases n - i,
    {
        proof {
            reveal(ds_list_out);
        }
        assert(specs@.take(i + 1).drop_last() =~= specs@.take(i as int));
        if ok {
            match transpile_declaration_specifier(&specs[i], state, false) {
                Some(x) => {
                    spec.append(x.as_str());
                    spec.append(" ");
                },
                None => {
                    ok = false;
                },
            }
        }
        i = i + 1;
    }
    assert(specs@.take(n as int) =~= specs@);
    if ok {
        Some(spec)
    } else {
        None
    }
}

/// A list of specifiers and qualifiers, each followed by a space.
pub(crate) fn transpile_specifier_qualifiers(specs: &Vec<SpecifierQualifier>, state: &mut State) -> (r: Option<String>)
    requires
        old(state)@.tags_ok(),
    ensures
        follows(old(state)@, final(state)@),
        forall|o: Seq<Seq<char>>| #[trigger] prefix_of(final(state)@.drawn, o) ==> sq_list_out(specs@, empty_text(), old(state)@, o) == (opt_view(r), final(state)@),
    decreases specs, 0int,
{
    proof {
        reveal(sq_list_out);
    }
    let ghost s0 = state@;
    let mut spec = String::new();
    let mut ok = true;
    let n = specs.len();
    let mut i: usize = 0;
    while i < n
        invariant
            n == specs@.len(),
            i <= n,
            follows(s0, state@),
            forall|o: Seq<Seq<char>>| #[trigger] prefix_of(state@.drawn, o) ==> sq_list_out(specs@.take(i as int), empty_text(), s0, o) == (if ok { Some(spec@) } else { None::<Seq<char>> }, state@),
        decreases n - i,
    {
        proof {
            reveal(sq_list_out);
        }
        assert(specs@.take(i + 1).drop_last() =~= specs@.take(i as int));
        if ok {
            match transpile_specifier_qualifier(&specs[i], state) {
                Some(x) => {
                    spec.append(x.as_str());
                    spec.append(" ");
                },
                None => {
                    ok = false;
                },
            }
        }
        i = i + 1;
    }
    assert(specs@.take(n as int) =~= specs@);
    if ok {
        Some(spec)
    } else {
        None
    }
}

/// A struct declarator: its declarator written after the field's specifier
/// text, or nothing for an unnamed member.
pub fn transpile_struct_declarator(node: &StructDeclarator, spec: &String, state: &mut State) -> (r: Option<String>)
    requires
        old(state)@.tags_ok(),
    ensures
        follows(old(state)@, final(state)@),
        forall|o: Seq<Seq<char>>| #[trigger] prefix_of(final(state)@.drawn, o) ==> struct_declarator_out(*node, spec@, old(state)@, o) == (opt_view(r), final(state)@),
    decreases node, 0int,
{
    proof {
        reveal(struct_declarator_out);
    }
    match &node.declarator {
        Some(decl) => transpile_declarator(decl, spec, state, &String::new()),
        None => Some(String::new()),
    }
}

/// One step of `type_spec_out`: its definition, with the calls it makes left folded.
pub proof fn unfold_type_spec_out(ts: TypeSpecifier, st: TState, o: Seq<Seq<char>>, is_decl: bool)
    ensures
        type_spec_out(ts, st, o, is_decl) == ({
            match ts {
                TypeSpecifier::Void => (Some("\\void"@), st),
                TypeSpecifier::Char => (Some("\\char"@), st),
                TypeSpecifier::Short => (Some("\\short"@), st),
                TypeSpecifier::Int => (Some("\\int"@), st),
                TypeSpecifier::Long => (Some("\\long"@), st),
                TypeSpecifier::Float => (Some("\\float"@), st),
                TypeSpecifier::Double => (Some("\\double"@), st),
                TypeSpecifier::Signed => (Some("\\signed"@), st),
                TypeSpecifier::Unsigned => (Some("\\unsigned"@), st),
                TypeSpecifier::Bool => (Some("\\bool"@), st),
                TypeSpecifier::Complex => (None, st.warned("!! complex keyword not supported"@)),
                TypeSpecifier::Atomic => (None, st.warned("!! atomic keyword not supported"@)),
                TypeSpecifier::Struct(s) => struct_out(s, st, o, is_decl),
                TypeSpecifier::Enum(e) => (Some(enum_text(e.enumerators@)), st),
                TypeSpecifier::TypedefName(id) => match lookup(st.typedefs, "$T_"@ + id@) {
                    Some(v) => (Some(v), st),
                    None => (Some(id@), st.warned("!! Unknown typedef: "@ + ("$T_"@ + id@))),
                },
                TypeSpecifier::TypeOf => (None, st.warned("!! typeof keyword not supported"@)),
                TypeSpecifier::TS18661Float => (None, st.warned("!! ts18661float not supported"@)),
            }
        }),
{
    reveal(type_spec_out);
}

/// One step of `ds_list_out`: its definition, with the calls it makes left folded.
pub proof fn unfold_ds_list_out(s: Seq<DeclarationSpecifier>, acc: Seq<char>, st: TState, o: Seq<Seq<char>>)
    ensures
        ds_list_out(s, acc, st, o) == ({
            if s.len() == 0 {
                (Some(acc), st)
            } else {
                let (r, st1) = ds_list_out(s.drop_last(), acc, st, o);
                match r {
                    None => (None, st1),
                    Some(a) => {
                        let (x, st2) = decl_spec_out(s.last(), st1, o, false);
                        match x {
                            None => (None, st2),
                            Some(x) => (Some(a + x + " "@), st2),
                        }
                    },
                }
            }
        }),
{
    reveal(ds_list_out);
}

/// One step of `sq_list_out`: its definition, with the calls it makes left folded.
pub proof fn unfold_sq_list_out(s: Seq<SpecifierQualifier>, acc: Seq<char>, st: TState, o: Seq<Seq<char>>)
    ensures
        sq_list_out(s, acc, st, o) == ({
            if s.len() == 0 {
                (Some(acc), st)
            } else {
                let (r, st1) = sq_list_out(s.drop_last(), acc, st, o);
                match r {
                    None => (None, st1),
                    Some(a) => {
                        let (x, st2) = specifier_qualifier_out(s.last(), st1, o);
                        match x {
                            None => (None, st2),
                            Some(x) => (Some(a + x + " "@), st2),
                        }
                    },
                }
            }
        }),
{
    reveal(sq_list_out);
}

/// One step of `struct_declarator_out`: its definition, with the calls it makes left folded.
pub proof fn unfold_struct_declarator_out(d: StructDeclarator, spec: Seq<char>, st: TState, o: Seq<Seq<char>>)
    ensures
        struct_declarator_out(d, spec, st, o) == ({
            match d.declarator {
                Some(decl) => declarator_out(decl, spec, st, o, empty_text()),
                None => (Some(empty_text()), st),
            }
        }),
{
    reveal(struct_declarator_out);
}

} // verus!
