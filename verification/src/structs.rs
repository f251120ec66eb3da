//! Struct types and their fields, and single declaration specifiers and
//! specifier qualifiers.
use vstd::prelude::*;
use crate::ast::{
    DeclarationSpecifier, SpecifierQualifier, StorageClassSpecifier, StructDeclaration,
    StructDeclarator, StructField, StructType, TypeQualifier, TypeSpecifier,
};
use crate::model::{
    decl_spec_out, empty_text, spec_checked, specifier_qualifier_out, sq_list_out, storage_text,
    struct_body_out, struct_decl_out, struct_declarator_out, struct_declarators_out,
    struct_field_out, struct_or_enum, struct_out, type_spec_out,
};
use crate::state::{State, TState, follows, lookup, prefix_of};
use crate::text::{concat2, opt_view, shrunk, text};
use crate::specifiers::{
    shrink_specifiers,
    transpile_specifier_qualifiers, transpile_struct_declarator, transpile_type_specifier,
};
use crate::declarator_parts::{transpile_struct_decl};
use crate::leaves::{transpile_storage_class_specifier, transpile_type_qualifier};

verus! {

broadcast use {
    crate::state::lemma_prefix_trans,
    crate::state::lemma_prefix_refl,
    crate::state::lemma_text_prefix_trans,
    crate::state::lemma_text_prefix_refl,
};

/// A type name and a flag, with the name as a sequence of characters.
pub open spec fn pair_view(r: Option<(String, bool)>) -> Option<(Seq<char>, bool)> {
    match r {
        Some((n, b)) => Some((n@, b)),
        None => None,
    }
}

/// For a struct or enum specifier, the type name it stands for and whether
/// it has a body; an untagged struct is given its generated tag here if it
/// has none yet.
pub fn is_struct_or_enum(node: &DeclarationSpecifier, state: &mut State) -> (r: Option<(String, bool)>)
    requires
        old(state)@.tags_ok(),
    ensures
        follows(old(state)@, final(state)@),
        forall|o: Seq<Seq<char>>| #[trigger] prefix_of(final(state)@.drawn, o) ==> struct_or_enum(*node, old(state)@, o) == (pair_view(r), final(state)@),
{
    match node {
        DeclarationSpecifier::TypeSpecifier(t) => match t {
            TypeSpecifier::Struct(s) => {
                let has_body = s.declarations.is_some();
                match &s.identifier {
                    Some(ident) => Some((concat2("$T_", ident.as_str()), has_body)),
                    None => match state.lookup_anon(s.anon_id) {
                        Some(n) => Some((concat2("$T_", n.as_str()), has_body)),
                        None => {
                            let tag = state.draw_tag();
                            let unprefixed_name = concat2("anon_", tag.as_str());
                            let name = concat2("$T_", unprefixed_name.as_str());
                            state.add_anon(s.anon_id, unprefixed_name);
                            Some((name, has_body))
                        },
                    },
                }
            },
            TypeSpecifier::Enum(e) => Some((text("i32"), e.enumerators.len() != 0)),
            _ => None,
        },
        _ => None,
    }
}

/// A struct type: its name, or its class `class NAME {...}` when it has a
/// body (hoisted when nested in another struct).
pub fn transpile_struct(node: &StructType, state: &mut State, is_decl: bool) -> (r: Option<String>)
    requires
        old(state)@.tags_ok(),
    ensures
        follows(old(state)@, final(state)@),
        forall|o: Seq<Seq<char>>| #[trigger] prefix_of(final(state)@.drawn, o) ==> struct_out(*node, old(state)@, o, is_decl) == (opt_view(r), final(state)@),
    decreases node, 0int,
{
    proof {
        reveal(struct_out);
        reveal(struct_body_out);
    }
    let ghost s0 = state@;
    let depth = state.depth();
    if depth == i32::MAX {
        state.abort();
        return None;
    }
    let is_nested_struct_decl = depth > 0;
    state.set_depth(depth + 1);
    let ghost s1 = state@;
    let name: String = match &node.identifier {
        Some(ident) => concat2("$T_", ident.as_str()),
        None => match state.lookup_anon(node.anon_id) {
            Some(n) => concat2("$T_", n.as_str()),
            None => {
                let tag = state.draw_tag();
                let unprefixed_name = concat2("anon_", tag.as_str());
                let name = concat2("$T_", unprefixed_name.as_str());
                state.add_anon(node.anon_id, unprefixed_name);
                name
            },
        },
    };
    let ghost s2 = state@;
    assert(prefix_of(s0.drawn, s2.drawn));
    match &node.declarations {
        None => {
            if !state.is_defined_struct(name.as_str()) && !state.is_empty_struct(name.as_str()) {
                state.add_empty_struct(name.as_str());
            }
            let d = state.depth();
            state.set_depth(d - 1);
            if is_decl {
                return None;
            }
            Some(name)
        },
        Some(decls) => {
            let mut code = concat2("class ", name.as_str());
            state.add_defined_struct(name.as_str());
            code.append(" {\n");
            let ghost s3 = state@;
            assert(prefix_of(s0.drawn, s3.drawn));
            let ghost acc0 = code@;
            let mut ok = true;
            let n = decls.len();
            let mut i: usize = 0;
            while i < n
                invariant
                    n == decls@.len(),
                    node.declarations == Some(*decls),
                    i <= n,
                    follows(s3, state@),
                    forall|o: Seq<Seq<char>>| #[trigger] prefix_of(state@.drawn, o) ==> struct_body_out(decls@.take(i as int), acc0, s3, o) == (if ok { Some(code@) } else { None::<Seq<char>> }, state@),
                decreases n - i,
            {
                proof {
                    reveal(struct_body_out);
                }
                assert(decls@.take(i + 1).drop_last() =~= decls@.take(i as int));
                if ok {
                    proof {
                        assert(decreases_to!(*node => node.declarations));
                        assert(decreases_to!(node.declarations => node.declarations->0));
                        assert(decreases_to!(node.declarations->0 => decls@));
                        assert(decreases_to!(decls@ => decls@[i as int]));
                    }
                    match transpile_struct_decl(&decls[i], state) {
                        Some(x) => {
                            code.append(x.as_str());
                        },
                        None => {
                            ok = false;
                        },
                    }
                }
                i = i + 1;
            }
            assert(decls@.take(n as int) =~= decls@);
            if !ok {
                let d = state.depth();
                state.set_depth(d - 1);
                return None;
            }
            code.append("}");
            if is_nested_struct_decl {
                state.add_nested(code.as_str());
                let d = state.depth();
                state.set_depth(d - 1);
                return Some(name);
            }
            let d = state.depth();
            state.set_depth(d - 1);
            Some(code)
        },
    }
}

/// A struct field: one `spec declarator;` line per declarator.
pub fn transpile_struct_field(node: &StructField, state: &mut State) -> (r: Option<String>)
    requires
        old(state)@.tags_ok(),
    ensures
        follows(old(state)@, final(state)@),
        forall|o: Seq<Seq<char>>| #[trigger] prefix_of(final(state)@.drawn, o) ==> struct_field_out(*node, old(state)@, o) == (opt_view(r), final(state)@),
    decreases node, 0int,
{
    proof {
        reveal(struct_field_out);
        reveal(struct_declarators_out);
    }
    let spec = match transpile_specifier_qualifiers(&node.specifiers, state) {
        Some(s) => shrink_specifiers(s, state),
        None => {
            return None;
        },
    };
    let ghost s1 = state@;
    let mut code = String::new();
    let m = node.declarators.len();
    let mut j: usize = 0;
    while j < m
        invariant
            m == node.declarators@.len(),
            j <= m,
            follows(s1, state@),
            forall|o: Seq<Seq<char>>| #[trigger] prefix_of(state@.drawn, o) ==> struct_declarators_out(node.declarators@.take(j as int), spec@, empty_text(), s1, o) == (code@, state@),
        decreases m - j,
    {
        proof {
            reveal(struct_declarators_out);
        }
        let ghost sj = state@;
        let ghost cj = code@;
        let ghost pre = node.declarators@.take(j as int);
        let ghost cur = node.declarators@.take(j + 1);
        assert(cur.drop_last() =~= pre);
        let x = transpile_struct_declarator(&node.declarators[j], &spec, state);
        match &x {
            Some(d) => {
                code.append(d.as_str());
                code.append(";\n");
            },
            None => {},
        }
        assert forall|o: Seq<Seq<char>>| #[trigger] prefix_of(state@.drawn, o) implies struct_declarators_out(cur, spec@, empty_text(), s1, o) == (code@, state@) by {
            assert(prefix_of(sj.drawn, o));
            assert(struct_declarators_out(pre, spec@, empty_text(), s1, o) == (cj, sj));
            assert(struct_declarator_out(cur.last(), spec@, sj, o) == (opt_view(x), state@));
        }
        j = j + 1;
    }
    assert(node.declarators@.take(m as int) =~= node.declarators@);
    Some(code)
}

pub fn transpile_declaration_specifier(node: &DeclarationSpecifier, state: &mut State, is_decl: bool) -> (r: Option<String>)
    requires
        old(state)@.tags_ok(),
    ensures
        follows(old(state)@, final(state)@),
        forall|o: Seq<Seq<char>>| #[trigger] prefix_of(final(state)@.drawn, o) ==> decl_spec_out(*node, old(state)@, o, is_decl) == (opt_view(r), final(state)@),
    decreases node, 0int,
{
    proof {
        reveal(decl_spec_out);
    }
    match node {
        DeclarationSpecifier::StorageClass(n) => {
            if let StorageClassSpecifier::Auto = n {
                state.warn(text("!! auto keyword not supported"));
            }
            transpile_storage_class_specifier(n)
        },
        DeclarationSpecifier::TypeSpecifier(n) => transpile_type_specifier(n, state, is_decl),
        DeclarationSpecifier::TypeQualifier(n) => Some(transpile_type_qualifier(n)),
        DeclarationSpecifier::Function => Some(String::new()),
        DeclarationSpecifier::Alignment => {
            state.warn(text("!! alignment keyword not supported"));
            None
        },
        DeclarationSpecifier::Extension => Some(String::new()),
    }
}

pub fn transpile_specifier_qualifier(node: &SpecifierQualifier, state: &mut State) -> (r: Option<String>)
    requires
        old(state)@.tags_ok(),
    ensures
        follows(old(state)@, final(state)@),
        forall|o: Seq<Seq<char>>| #[trigger] prefix_of(final(state)@.drawn, o) ==> specifier_qualifier_out(*node, old(state)@, o) == (opt_view(r), final(state)@),
    decreases node, 0int,
{
    proof {
        reveal(specifier_qualifier_out);
    }
    match node {
        SpecifierQualifier::TypeSpecifier(t) => transpile_type_specifier(t, state, false),
        SpecifierQualifier::TypeQualifier(t) => Some(transpile_type_qualifier(t)),
        SpecifierQualifier::Extension => Some(String::new()),
    }
}

/// One step of `struct_out`: its definition, with the calls it makes left folded.
pub proof fn unfold_struct_out(t: StructType, st: TState, o: Seq<Seq<char>>, is_decl: bool)
    ensures
        struct_out(t, st, o, is_decl) == ({
            if st.depth >= i32::MAX {
                (None, st.aborting())
            } else {
                let is_nested = st.depth > 0;
                let st1 = st.with_depth(st.depth + 1);
                let (name, st2) = match t.identifier {
                    Some(id) => ("$T_"@ + id@, st1),
                    None => match lookup(st1.anon, t.anon_id) {
                        Some(n) => ("$T_"@ + n, st1),
                        None => {
                            let (tag, st1b) = st1.draw(o);
                            let un = "anon_"@ + tag;
                            ("$T_"@ + un, st1b.with_anon(t.anon_id, un))
                        },
                    },
                };
                match t.declarations {
                    None => {
                        let st3 = if !st2.defined_structs.contains(name) && !st2.empty_structs.contains(name) {
                            st2.with_empty(name)
                        } else {
                            st2
                        };
                        let st4 = st3.with_depth(st3.depth - 1);
                        if is_decl {
                            (None, st4)
                        } else {
                            (Some(name), st4)
                        }
                    },
                    Some(d) => {
                        let st3 = st2.with_defined(name);
                        let (body, st4) = struct_body_out(d@, "class "@ + name + " {\n"@, st3, o);
                        match body {
                            None => (None, st4.with_depth(st4.depth - 1)),
                            Some(b) => {
                                let code = b + "}"@;
                                if is_nested {
                                    let st5 = st4.with_nested(code);
                                    (Some(name), st5.with_depth(st5.depth - 1))
                                } else {
                                    (Some(code), st4.with_depth(st4.depth - 1))
                                }
                            },
                        }
                    },
                }
            }
        }),
{
    reveal(struct_out);
    reveal(struct_body_out);
}

/// One step of `struct_body_out`: its definition, with the calls it makes left folded.
pub proof fn unfold_struct_body_out(s: Seq<StructDeclaration>, acc: Seq<char>, st: TState, o: Seq<Seq<char>>)
    ensures
        struct_body_out(s, acc, st, o) == ({
            if s.len() == 0 {
                (Some(acc), st)
            } else {
                let (r, st1) = struct_body_out(s.drop_last(), acc, st, o);
                match r {
                    None => (None, st1),
                    Some(a) => {
                        let (x, st2) = struct_decl_out(s.last(), st1, o);
                        match x {
                            None => (None, st2),
                            Some(x) => (Some(a + x), st2),
                        }
                    },
                }
            }
        }),
{
    reveal(struct_out);
    reveal(struct_body_out);
}

/// One step of `struct_field_out`: its definition, with the calls it makes left folded.
pub proof fn unfold_struct_field_out(f: StructField, st: TState, o: Seq<Seq<char>>)
    ensures
        struct_field_out(f, st, o) == ({
            let (r, st1) = sq_list_out(f.specifiers@, empty_text(), st, o);
            match r {
                None => (None, st1),
                Some(sp) => {
                    let st1 = spec_checked(sp, st1);
                    let (code, st2) = struct_declarators_out(f.declarators@, shrunk(sp), empty_text(), st1, o);
                    (Some(code), st2)
                },
            }
        }),
{
    reveal(struct_field_out);
    reveal(struct_declarators_out);
}

/// One step of `struct_declarators_out`: its definition, with the calls it makes left folded.
pub proof fn unfold_struct_declarators_out(s: Seq<StructDeclarator>, spec: Seq<char>, acc: Seq<char>, st: TState, o: Seq<Seq<char>>)
    ensures
        struct_declarators_out(s, spec, acc, st, o) == ({
            if s.len() == 0 {
                (acc, st)
            } else {
                let (a, st1) = struct_declarators_out(s.drop_last(), spec, acc, st, o);
                let (x, st2) = struct_declarator_out(s.last(), spec, st1, o);
                match x {
                    Some(x) => (a + x + ";\n"@, st2),
                    None => (a, st2),
                }
            }
        }),
{
    reveal(struct_field_out);
    reveal(struct_declarators_out);
}

/// One step of `decl_spec_out`: its definition, with the calls it makes left folded.
pub proof fn unfold_decl_spec_out(ds: DeclarationSpecifier, st: TState, o: Seq<Seq<char>>, is_decl: bool)
    ensures
        decl_spec_out(ds, st, o, is_decl) == ({
            match ds {
                DeclarationSpecifier::StorageClass(sc) => (storage_text(sc), if sc is Auto { st.warned("!! auto keyword not supported"@) } else { st }),
                DeclarationSpecifier::TypeSpecifier(ts) => type_spec_out(ts, st, o, is_decl),
                DeclarationSpecifier::TypeQualifier(_) => (Some(empty_text()), st),
                DeclarationSpecifier::Function => (Some(empty_text()), st),
                DeclarationSpecifier::Alignment => (None, st.warned("!! alignment keyword not supported"@)),
                DeclarationSpecifier::Extension => (Some(empty_text()), st),
            }
        }),
{
    reveal(decl_spec_out);
}

/// One step of `specifier_qualifier_out`: its definition, with the calls it makes left folded.
pub proof fn unfold_specifier_qualifier_out(sq: SpecifierQualifier, st: TState, o: Seq<Seq<char>>)
    ensures
        specifier_qualifier_out(sq, st, o) == ({
            match sq {
                SpecifierQualifier::TypeSpecifier(ts) => type_spec_out(ts, st, o, false),
                SpecifierQualifier::TypeQualifier(_) => (Some(empty_text()), st),
                SpecifierQualifier::Extension => (Some(empty_text()), st),
            }
        }),
{
    reveal(specifier_qualifier_out);
}

} // verus!
