//! Declarators with initializers, parameters and call arguments.
use vstd::prelude::*;
use crate::ast::{Expression, InitDeclarator, ParameterDeclaration};
use crate::model::{
    args_out, declarator_out, ds_list_out, empty_text, expr_out, init_declarator_out,
    initializer_out, param_decl_out, spec_checked,
};
use crate::state::{State, TState, follows, prefix_of};
use crate::text::{concat2, dec, decimal, opt_view, shrunk};
use crate::specifiers::{shrink_specifiers, transpile_specifier_list};
use crate::declarator_parts::{transpile_initializer};
use crate::declarators::{transpile_declarator};
use crate::expressions::{transpile_expression};

verus! {

broadcast use {
    crate::state::lemma_prefix_trans,
    crate::state::lemma_prefix_refl,
    crate::state::lemma_text_prefix_trans,
    crate::state::lemma_text_prefix_refl,
};

pub fn transpile_init_declarator(node: &InitDeclarator, state: &mut State) -> (r: Option<String>)
    requires
        old(state)@.tags_ok(),
    ensures
        follows(old(state)@, final(state)@),
        forall|o: Seq<Seq<char>>| #[trigger] prefix_of(final(state)@.drawn, o) ==> init_declarator_out(*node, old(state)@, o) == (opt_view(r), final(state)@),
    decreases node, 0int,
{
    proof {
        reveal(init_declarator_out);
    }
    let empty = String::new();
    let mut code = match transpile_declarator(&node.declarator, &empty, state, &empty) {
        Some(d) => d,
        None => {
            return None;
        },
    };
    match &node.initializer {
        Some(init) => match transpile_initializer(init, state) {
            Some(x) => {
                code.append(" = ");
                code.append(x.as_str());
            },
            None => {},
        },
        None => {},
    }
    Some(code)
}

/// A parameter; an unnamed one is called `$A_index`.
pub fn transpile_parameter_declaration(node: &ParameterDeclaration, state: &mut State, index: usize) -> (r: Option<String>)
    requires
        old(state)@.tags_ok(),
    ensures
        follows(old(state)@, final(state)@),
        forall|o: Seq<Seq<char>>| #[trigger] prefix_of(final(state)@.drawn, o) ==> param_decl_out(*node, old(state)@, o, index as nat) == (opt_view(r), final(state)@),
    decreases node, 0int,
{
    proof {
        reveal(param_decl_out);
    }
    let spec = match transpile_specifier_list(&node.specifiers, state) {
        Some(s) => shrink_specifiers(s, state),
        None => {
            return None;
        },
    };
    let default_arg_name = concat2("$A_", decimal(index as u64).as_str());
    match &node.declarator {
        Some(declarator) => transpile_declarator(declarator, &spec, state, &default_arg_name),
        None => {
            let mut code = spec;
            code.append(default_arg_name.as_str());
            Some(code)
        },
    }
}

/// The arguments of a call, each in parentheses, separated by `, `.
pub(crate) fn transpile_arguments(args: &Vec<Expression>, code: &mut String, state: &mut State) -> (ok: bool)
    requires
        old(state)@.tags_ok(),
    ensures
        follows(old(state)@, final(state)@),
        forall|o: Seq<Seq<char>>| #[trigger] prefix_of(final(state)@.drawn, o) ==> args_out(args@, args@.len() as int, old(code)@, old(state)@, o) == (if ok { Some(final(code)@) } else { None::<Seq<char>> }, final(state)@),
    decreases args, 0int,
{
    proof {
        reveal(args_out);
    }
    let ghost s0 = state@;
    let ghost acc0 = code@;
    let mut ok = true;
    let n = args.len();
    let mut i: usize = 0;
    while i < n
        invariant
            n == args@.len(),
            i <= n,
            follows(s0, state@),
            forall|o: Seq<Seq<char>>| #[trigger] prefix_of(state@.drawn, o) ==> args_out(args@.take(i as int), n as int, acc0, s0, o) == (if ok { Some(code@) } else { None::<Seq<char>> }, state@),
        decreases n - i,
    {
        proof {
            reveal(args_out);
        }
        assert(args@.take(i + 1).drop_last() =~= args@.take(i as int));
        if ok {
            match transpile_expression(&args[i], state) {
                Some(x) => {
                    code.append(x.as_str());
                    if i < n - 1 {
                        code.append(", ");
                    }
                },
                None => {
                    ok = false;
                },
            }
        }
        i = i + 1;
    }
    assert(args@.take(n as int) =~= args@);
    ok
}

/// One step of `init_declarator_out`: its definition, with the calls it makes left folded.
pub proof fn unfold_init_declarator_out(d: InitDeclarator, st: TState, o: Seq<Seq<char>>)
    ensures
        init_declarator_out(d, st, o) == ({
            let (r, st1) = declarator_out(d.declarator, empty_text(), st, o, empty_text());
            match r {
                None => (None, st1),
                Some(dc) => match d.initializer {
                    Some(init) => {
                        let (x, st2) = initializer_out(init, st1, o);
                        match x {
                            Some(x) => (Some(dc + " = "@ + x), st2),
                            None => (Some(dc), st2),
                        }
                    },
                    None => (Some(dc), st1),
                },
            }
        }),
{
    reveal(init_declarator_out);
}

/// One step of `param_decl_out`: its definition, with the calls it makes left folded.
pub proof fn unfold_param_decl_out(p: ParameterDeclaration, st: TState, o: Seq<Seq<char>>, index: nat)
    ensures
        param_decl_out(p, st, o, index) == ({
            let (r, st1) = ds_list_out(p.specifiers@, empty_text(), st, o);
            match r {
                None => (None, st1),
                Some(sp) => {
                    let st1 = spec_checked(sp, st1);
                    let spec = shrunk(sp);
                    let default = "$A_"@ + dec(index);
                    match p.declarator {
                        Some(d) => declarator_out(d, spec, st1, o, default),
                        None => (Some(spec + default), st1),
                    }
                },
            }
        }),
{
    reveal(param_decl_out);
}

/// One step of `args_out`: its definition, with the calls it makes left folded.
pub proof fn unfold_args_out(s: Seq<Expression>, n: int, acc: Seq<char>, st: TState, o: Seq<Seq<char>>)
    ensures
        args_out(s, n, acc, st, o) == ({
            if s.len() == 0 {
                (Some(acc), st)
            } else {
                let (r, st1) = args_out(s.drop_last(), n, acc, st, o);
                match r {
                    None => (None, st1),
                    Some(a) => {
                        let i = s.len() - 1;
                        let (x, st2) = expr_out(s.last(), st1, o);
                        match x {
                            None => (None, st2),
                            Some(x) => {
                                let a1 = a + x;
                                if i < n - 1 {
                                    (Some(a1 + ", "@), st2)
                                } else {
                                    (Some(a1), st2)
                                }
                            },
                        }
                    },
                }
            }
        }),
{
    reveal(args_out);
}

} // verus!
