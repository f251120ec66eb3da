//! Statements, for-loop initializers and the declarators of a declaration.
use vstd::prelude::*;
use crate::ast::{Declaration, Expression, ForInitializer, InitDeclarator, Statement};
use crate::model::{
    DeclFlags, block_items_out, decl_items_out, decl_name, declaration_out, declares_fn,
    do_while_out, empty_text, expr_out, for_init_out, for_out, if_out, init_declarator_out,
    stmt_out, switch_out, while_out,
};
use crate::state::{State, TState, follows, prefix_of};
use crate::text::{concat2, opt_view, text};
use crate::init_declarators::{transpile_init_declarator};
use crate::expressions::{transpile_expression};
use crate::control::{
    transpile_do_while_statement, transpile_for_statement, transpile_if_statement,
    transpile_while_statement,
};
use crate::blocks::{transpile_block_items, transpile_switch_statement};
use crate::declarations::{transpile_declaration};
use crate::leaves::{declarator_declares_fn, get_decl_name};

verus! {

broadcast use {
    crate::state::lemma_prefix_trans,
    crate::state::lemma_prefix_refl,
    crate::state::lemma_text_prefix_trans,
    crate::state::lemma_text_prefix_refl,
};

pub fn transpile_statement(node: &Statement, state: &mut State) -> (r: Option<String>)
    requires
        old(state)@.tags_ok(),
    ensures
        follows(old(state)@, final(state)@),
        forall|o: Seq<Seq<char>>| #[trigger] prefix_of(final(state)@.drawn, o) ==> stmt_out(*node, old(state)@, o) == (opt_view(r), final(state)@),
    decreases node, 0int,
{
    proof {
        reveal(stmt_out);
    }
    match node {
        Statement::Labeled(_) => Some(String::new()),
        Statement::Compound(items) => transpile_block_items(items, state),
        Statement::Expression(e) => match e {
            Some(e) => match transpile_expression(e, state) {
                Some(x) => {
                    let mut code = x;
                    code.append(";\n");
                    Some(code)
                },
                None => None,
            },
            None => Some(String::new()),
        },
        Statement::If(i) => transpile_if_statement(i, state),
        Statement::Switch(s) => transpile_switch_statement(s, state),
        Statement::While(w) => transpile_while_statement(w, state),
        Statement::DoWhile(d) => transpile_do_while_statement(d, state),
        Statement::For(f) => transpile_for_statement(f, state),
        Statement::Goto => Some(String::new()),
        Statement::Continue => Some(text("continue;\n")),
        Statement::Break => Some(text("break;\n")),
        Statement::Return(e) => match e {
            Some(e) => match transpile_expression(e, state) {
                Some(x) => {
                    let mut code = concat2("return ", x.as_str());
                    code.append(";\n");
                    Some(code)
                },
                None => None,
            },
            None => Some(text("return;\n")),
        },
        Statement::Asm => Some(String::new()),
    }
}

pub fn transpile_for_initializer(node: &ForInitializer, state: &mut State) -> (r: Option<String>)
    requires
        old(state)@.tags_ok(),
    ensures
        follows(old(state)@, final(state)@),
        forall|o: Seq<Seq<char>>| #[trigger] prefix_of(final(state)@.drawn, o) ==> for_init_out(*node, old(state)@, o) == (opt_view(r), final(state)@),
    decreases node, 0int,
{
    proof {
        reveal(for_init_out);
    }
    match node {
        ForInitializer::Expression(e) => match transpile_expression(e, state) {
            Some(x) => {
                let mut code = x;
                code.append(";");
                Some(code)
            },
            None => None,
        },
        ForInitializer::Declaration(d) => transpile_declaration(d, state, false),
        ForInitializer::Empty => Some(text("0;")),
        ForInitializer::StaticAssert => Some(text("0;")),
    }
}

pub open spec fn flags_view(spec: String, is_typedef: bool, td_name: String, td_body: bool, is_extern: bool) -> DeclFlags {
    DeclFlags { spec: spec@, is_typedef, td_name: td_name@, td_body, is_extern }
}

/// The declarators of a declaration, given what its specifiers said.
pub(crate) fn transpile_declarators(
    decls: &Vec<InitDeclarator>,
    spec: &String,
    is_typedef: bool,
    td_name: &String,
    td_body: bool,
    is_extern: bool,
    state: &mut State,
) -> (r: Option<String>)
    requires
        old(state)@.tags_ok(),
    ensures
        follows(old(state)@, final(state)@),
        forall|o: Seq<Seq<char>>| #[trigger] prefix_of(final(state)@.drawn, o) ==> decl_items_out(decls@, flags_view(*spec, is_typedef, *td_name, td_body, is_extern), empty_text(), old(state)@, o) == (opt_view(r), final(state)@),
    decreases decls, 0int,
{
    proof {
        reveal(decl_items_out);
    }
    let ghost s0 = state@;
    let ghost f = flags_view(*spec, is_typedef, *td_name, td_body, is_extern);
    let mut code = String::new();
    let mut ok = true;
    let n = decls.len();
    let mut i: usize = 0;
    while i < n
        invariant
            n == decls@.len(),
            i <= n,
            f == flags_view(*spec, is_typedef, *td_name, td_body, is_extern),
            follows(s0, state@),
            forall|o: Seq<Seq<char>>| #[trigger] prefix_of(state@.drawn, o) ==> decl_items_out(decls@.take(i as int), f, empty_text(), s0, o) == (if ok { Some(code@) } else { None::<Seq<char>> }, state@),
        decreases n - i,
    {
        proof {
            reveal(decl_items_out);
        }
        assert(decls@.take(i + 1).drop_last() =~= decls@.take(i as int));
        if ok {
            let decl = &decls[i];
            let name = get_decl_name(decl);
            let is_fn = declarator_declares_fn(decl);
            match name {
                Some(n) if is_typedef => {
                    let key = concat2("$T_", n.as_str());
                    if td_name.unicode_len() > 0 {
                        if td_body {
                            code.append(spec.as_str());
                            code.append(";\n");
                        }
                        state.add_typedef(key, td_name.clone());
                    } else {
                        state.add_typedef(key, spec.clone());
                    }
                },
                Some(n) if is_fn => {
                    let prefixed_name = concat2("$I_", n.as_str());
                    if !is_extern {
                        code.append("\\begin_fn_decl ");
                        code.append(prefixed_name.as_str());
                        code.append("\n");
                        state.add_undef_fn(prefixed_name.as_str());
                    }
                    code.append(spec.as_str());
                    code.append(" ");
                    match transpile_init_declarator(decl, state) {
                        Some(x) => {
                            code.append(x.as_str());
                            code.append("{}\n");
                            if !is_extern {
                                code.append("\\end_fn_decl ");
                                code.append(prefixed_name.as_str());
                                code.append("\n");
                            }
                        },
                        None => {
                            ok = false;
                        },
                    }
                },
                None if is_fn => {},
                _ => match transpile_init_declarator(decl, state) {
                    Some(x) => {
                        code.append(spec.as_str());
                        code.append(" ");
                        code.append(x.as_str());
                        code.append(";\n");
                    },
                    None => {
                        ok = false;
                    },
                },
            }
        }
        i = i + 1;
    }
    assert(decls@.take(n as int) =~= decls@);
    if ok {
        Some(code)
    } else {
        None
    }
}

/// One step of `stmt_out`: its definition, with the calls it makes left folded.
pub proof fn unfold_stmt_out(s: Statement, st: TState, o: Seq<Seq<char>>)
    ensures
        stmt_out(s, st, o) == ({
            match s {
                Statement::Labeled(_) => (Some(empty_text()), st),
                Statement::Compound(items) => block_items_out(items@, empty_text(), st, o),
                Statement::Expression(e) => match e {
                    Some(e) => {
                        let (x, st1) = expr_out(*e, st, o);
                        match x {
                            None => (None, st1),
                            Some(x) => (Some(x + ";\n"@), st1),
                        }
                    },
                    None => (Some(empty_text()), st),
                },
                Statement::If(i) => if_out(i, st, o),
                Statement::Switch(sw) => switch_out(sw, st, o),
                Statement::While(w) => while_out(w, st, o),
                Statement::DoWhile(d) => do_while_out(d, st, o),
                Statement::For(f) => for_out(f, st, o),
                Statement::Goto => (Some(empty_text()), st),
                Statement::Continue => (Some("continue;\n"@), st),
                Statement::Break => (Some("break;\n"@), st),
                Statement::Return(e) => match e {
                    Some(e) => {
                        let (x, st1) = expr_out(*e, st, o);
                        match x {
                            None => (None, st1),
                            Some(x) => (Some("return "@ + x + ";\n"@), st1),
                        }
                    },
                    None => (Some("return;\n"@), st),
                },
                Statement::Asm => (Some(empty_text()), st),
            }
        }),
{
    reveal(stmt_out);
}

/// One step of `for_init_out`: its definition, with the calls it makes left folded.
pub proof fn unfold_for_init_out(fi: ForInitializer, st: TState, o: Seq<Seq<char>>)
    ensures
        for_init_out(fi, st, o) == ({
            match fi {
                ForInitializer::Expression(e) => {
                    let (x, st1) = expr_out(*e, st, o);
                    match x {
                        None => (None, st1),
                        Some(x) => (Some(x + ";"@), st1),
                    }
                },
                ForInitializer::Declaration(d) => declaration_out(d, st, o, false),
                ForInitializer::Empty => (Some("0;"@), st),
                ForInitializer::StaticAssert => (Some("0;"@), st),
            }
        }),
{
    reveal(for_init_out);
}

/// One step of `decl_items_out`: its definition, with the calls it makes left folded.
pub proof fn unfold_decl_items_out(s: Seq<InitDeclarator>, f: DeclFlags, acc: Seq<char>, st: TState, o: Seq<Seq<char>>)
    ensures
        decl_items_out(s, f, acc, st, o) == ({
            if s.len() == 0 {
                (Some(acc), st)
            } else {
                let (r, st1) = decl_items_out(s.drop_last(), f, acc, st, o);
                match r {
                    None => (None, st1),
                    Some(a) => {
                        let dl = s.last();
                        let name = decl_name(dl);
                        if name is Some && f.is_typedef {
                            let key = "$T_"@ + name->0;
                            if f.td_name.len() > 0 {
                                let a1 = if f.td_body { a + f.spec + ";\n"@ } else { a };
                                (Some(a1), st1.with_typedef(key, f.td_name))
                            } else {
                                (Some(a), st1.with_typedef(key, f.spec))
                            }
                        } else if declares_fn(dl) {
                            match name {
                                None => (Some(a), st1),
                                Some(n) => {
                                    let pn = "$I_"@ + n;
                                    let a1 = if !f.is_extern { a + "\\begin_fn_decl "@ + pn + "\n"@ } else { a };
                                    let st2 = if !f.is_extern { st1.with_undef(pn) } else { st1 };
                                    let a2 = a1 + f.spec + " "@;
                                    let (x, st3) = init_declarator_out(dl, st2, o);
                                    match x {
                                        None => (None, st3),
                                        Some(x) => {
                                            let a3 = a2 + x + "{}\n"@;
                                            let a4 = if !f.is_extern { a3 + "\\end_fn_decl "@ + pn + "\n"@ } else { a3 };
                                            (Some(a4), st3)
                                        },
                                    }
                                },
                            }
                        } else {
                            let (x, st2) = init_declarator_out(dl, st1, o);
                            match x {
                                None => (None, st2),
                                Some(x) => (Some(a + f.spec + " "@ + x + ";\n"@), st2),
                            }
                        }
                    },
                }
            }
        }),
{
    reveal(decl_items_out);
}

} // verus!
