//! Declarators: names, pointers, arrays and parameter lists.
use vstd::prelude::*;
use crate::ast::{ArraySize, Declarator, DeclaratorKind, DerivedDeclarator, ParameterDeclaration};
use crate::model::{
    array_size_out, declarator_out, derived_out, empty_text, kr_text, param_decl_out, params_out,
};
use crate::state::{State, TState, follows, prefix_of};
use crate::text::{concat2, opt_view, text};
use crate::declarator_parts::{transpile_array_size};
use crate::init_declarators::{transpile_parameter_declaration};

verus! {

broadcast use {
    crate::state::lemma_prefix_trans,
    crate::state::lemma_prefix_refl,
    crate::state::lemma_text_prefix_trans,
    crate::state::lemma_text_prefix_refl,
};

/// A declarator: the specifier text, pointer and array text, the name and
/// the parameter lists.
pub fn transpile_declarator(node: &Declarator, spec: &String, state: &mut State, default_id_name: &String) -> (r: Option<String>)
    requires
        old(state)@.tags_ok(),
    ensures
        follows(old(state)@, final(state)@),
        forall|o: Seq<Seq<char>>| #[trigger] prefix_of(final(state)@.drawn, o) ==> declarator_out(*node, spec@, old(state)@, o, default_id_name@) == (opt_view(r), final(state)@),
    decreases node, 0int,
{
    proof {
        reveal(declarator_out);
        reveal(derived_out);
        reveal(params_out);
    }
    let ghost s0 = state@;
    let id_code: String = match &node.kind {
        DeclaratorKind::Identifier(ident) => concat2("$I_", ident.as_str()),
        DeclaratorKind::Abstract => default_id_name.clone(),
        DeclaratorKind::Declarator => {
            state.warn(text("!! function pointer declarator not supported"));
            return None;
        },
    };
    let mut before_id_code = String::new();
    let mut after_id_code = String::new();
    let mut ok = true;
    let n = node.derived.len();
    let mut i: usize = 0;
    while i < n
        invariant
            n == node.derived@.len(),
            i <= n,
            follows(s0, state@),
            forall|o: Seq<Seq<char>>| #[trigger] prefix_of(state@.drawn, o) ==> derived_out(node.derived@.take(i as int), id_code@, s0, o) == (if ok { Some((before_id_code@, after_id_code@)) } else { None::<(Seq<char>, Seq<char>)> }, state@),
        decreases n - i,
    {
        proof {
            reveal(derived_out);
            reveal(params_out);
        }
        assert(node.derived@.take(i + 1).drop_last() =~= node.derived@.take(i as int));
        if ok {
            let ghost b0 = before_id_code@;
            let ghost a0 = after_id_code@;
            let ghost st_i = state@;
            match &node.derived[i] {
                DerivedDeclarator::Pointer => {
                    before_id_code.append("*");
                },
                DerivedDeclarator::Array(size) => match size {
                    ArraySize::Unknown => {
                        before_id_code.append("*");
                    },
                    ArraySize::VariableUnknown => {
                        before_id_code.append("*");
                    },
                    ArraySize::VariableExpression(e) => match transpile_array_size(e, &before_id_code, state) {
                        Some(b) => {
                            before_id_code = b;
                        },
                        None => {
                            ok = false;
                        },
                    },
                    ArraySize::StaticExpression(e) => match transpile_array_size(e, &before_id_code, state) {
                        Some(b) => {
                            before_id_code = b;
                        },
                        None => {
                            ok = false;
                        },
                    },
                },
                DerivedDeclarator::Function(params) => {
                    after_id_code.append("(");
                    let ghost a1 = after_id_code@;
                    let ghost st1 = state@;
                    let len = params.len();
                    let mut j: usize = 0;
                    while j < len
                        invariant
                            len == params@.len(),
                            i < n,
                            n == node.derived@.len(),
                            node.derived@[i as int] == DerivedDeclarator::Function(*params),
                            j <= len,
                            follows(st1, state@),
                            forall|o: Seq<Seq<char>>| #[trigger] prefix_of(state@.drawn, o) ==> params_out(params@.take(j as int), len as int, a1, st1, o) == (if ok { Some(after_id_code@) } else { None::<Seq<char>> }, state@),
                        decreases len - j,
                    {
                        proof {
                            reveal(params_out);
                        }
                        assert(params@.take(j + 1).drop_last() =~= params@.take(j as int));
                        if ok {
                            proof {
                                assert(decreases_to!(*node => node.derived));
                                assert(decreases_to!(node.derived => node.derived@));
                                assert(decreases_to!(node.derived@ => node.derived@[i as int]));
                                assert(decreases_to!(node.derived@[i as int] => node.derived@[i as int]->Function_0));
                                assert(decreases_to!(*params => params@));
                                assert(decreases_to!(params@ => params@[j as int]));
                            }
                            match transpile_parameter_declaration(&params[j], state, j) {
                                Some(param_decl) => {
                                    after_id_code.append(param_decl.as_str());
                                    if j < len - 1 {
                                        after_id_code.append(", ");
                                    }
                                },
                                None => {
                                    ok = false;
                                },
                            }
                        }
                        j = j + 1;
                    }
                    assert(params@.take(len as int) =~= params@);
                    after_id_code.append(")");
                },
                DerivedDeclarator::KRFunction(ids) => {
                    if ids.len() > 0 {
                        state.warn(concat2("!! YO FOUND KR FUNC ", id_code.as_str()));
                    }
                    after_id_code.append("(");
                    let ghost a1 = after_id_code@;
                    let len = ids.len();
                    let mut j: usize = 0;
                    while j < len
                        invariant
                            len == ids@.len(),
                            j <= len,
                            after_id_code@ == kr_text(ids@.take(j as int), a1),
                        decreases len - j,
                    {
                        assert(ids@.take(j + 1).drop_last() =~= ids@.take(j as int));
                        after_id_code.append(ids[j].as_str());
                        j = j + 1;
                    }
                    assert(ids@.take(len as int) =~= ids@);
                    after_id_code.append(")");
                },
                DerivedDeclarator::Block => {},
            }
        }
        i = i + 1;
    }
    assert(node.derived@.take(n as int) =~= node.derived@);
    if !ok {
        return None;
    }
    let mut code = spec.clone();
    code.append(before_id_code.as_str());
    code.append(id_code.as_str());
    code.append(after_id_code.as_str());
    Some(code)
}

/// One step of `declarator_out`: its definition, with the calls it makes left folded.
pub proof fn unfold_declarator_out(d: Declarator, spec: Seq<char>, st: TState, o: Seq<Seq<char>>, default: Seq<char>)
    ensures
        declarator_out(d, spec, st, o, default) == ({
            let id = match d.kind {
                DeclaratorKind::Identifier(n) => Some("$I_"@ + n@),
                DeclaratorKind::Abstract => Some(default),
                DeclaratorKind::Declarator => None,
            };
            match id {
                None => (None, st.warned("!! function pointer declarator not supported"@)),
                Some(id) => {
                    let (r, st1) = derived_out(d.derived@, id, st, o);
                    match r {
                        None => (None, st1),
                        Some((b, a)) => (Some(spec + b + id + a), st1),
                    }
                },
            }
        }),
{
    reveal(declarator_out);
    reveal(derived_out);
    reveal(params_out);
}

/// One step of `derived_out`: its definition, with the calls it makes left folded.
pub proof fn unfold_derived_out(s: Seq<DerivedDeclarator>, id: Seq<char>, st: TState, o: Seq<Seq<char>>)
    ensures
        derived_out(s, id, st, o) == ({
            if s.len() == 0 {
                (Some((empty_text(), empty_text())), st)
            } else {
                let (r, st1) = derived_out(s.drop_last(), id, st, o);
                match r {
                    None => (None, st1),
                    Some((b, a)) => match s.last() {
                        DerivedDeclarator::Pointer => (Some((b + "*"@, a)), st1),
                        DerivedDeclarator::Array(size) => match size {
                            ArraySize::Unknown => (Some((b + "*"@, a)), st1),
                            ArraySize::VariableUnknown => (Some((b + "*"@, a)), st1),
                            ArraySize::VariableExpression(e) => {
                                let (x, st2) = array_size_out(*e, b, st1, o);
                                match x {
                                    Some(b2) => (Some((b2, a)), st2),
                                    None => (None, st2),
                                }
                            },
                            ArraySize::StaticExpression(e) => {
                                let (x, st2) = array_size_out(*e, b, st1, o);
                                match x {
                                    Some(b2) => (Some((b2, a)), st2),
                                    None => (None, st2),
                                }
                            },
                        },
                        DerivedDeclarator::Function(ps) => {
                            let (x, st2) = params_out(ps@, ps@.len() as int, a + "("@, st1, o);
                            match x {
                                None => (None, st2),
                                Some(a2) => (Some((b, a2 + ")"@)), st2),
                            }
                        },
                        DerivedDeclarator::KRFunction(ids) => (Some((b, kr_text(ids@, a + "("@) + ")"@)), if ids@.len() > 0 { st1.warned("!! YO FOUND KR FUNC "@ + id) } else { st1 }),
                        DerivedDeclarator::Block => (Some((b, a)), st1),
                    },
                }
            }
        }),
{
    reveal(declarator_out);
    reveal(derived_out);
    reveal(params_out);
}

/// One step of `params_out`: its definition, with the calls it makes left folded.
pub proof fn unfold_params_out(s: Seq<ParameterDeclaration>, n: int, acc: Seq<char>, st: TState, o: Seq<Seq<char>>)
    ensures
        params_out(s, n, acc, st, o) == ({
            if s.len() == 0 {
                (Some(acc), st)
            } else {
                let (r, st1) = params_out(s.drop_last(), n, acc, st, o);
                match r {
                    None => (None, st1),
                    Some(a) => {
                        let i = s.len() - 1;
                        let (x, st2) = param_decl_out(s.last(), st1, o, i as nat);
                        match x {
                            None => (None, st2),
                            Some(x) => {
                                let a1 = a + x;
                                if i < n - 1 {
                                    (Some(a1 + ", "@), st2)
                                } else {
                                    (Some(a1), st2)
                                }
                            },
                        }
                    },
                }
            }
        }),
{
    reveal(declarator_out);
    reveal(derived_out);
    reveal(params_out);
}

} // verus!
