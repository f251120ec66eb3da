//! Compound statements, switch statements and function definitions.
use vstd::prelude::*;
use crate::ast::{
    BlockItem, Expression, FunctionDefinition, Label, LabeledStatement, Statement, SwitchStatement,
};
use crate::model::{
    Cases, block_item_out, block_items_out, case_out, cases_out, collect_cases, declarator_out,
    ds_list_out, empty_text, fn_def_out, inside, items_warnings, label_chain, label_warnings,
    lemma_switch_cases_inside, single_cases, spec_checked, stmt_out, switch_cases, switch_head,
    switch_out, switch_warnings,
};
use crate::state::{State, TState, follows, names_view, prefix_of};
use crate::text::{concat2, opt_view, shrunk, text};
use crate::specifiers::{shrink_specifiers, transpile_specifier_list};
use crate::declarators::{transpile_declarator};
use crate::control::{transpile_block_item, transpile_case};
use crate::statements::{transpile_statement};

verus! {

broadcast use {
    crate::state::lemma_prefix_trans,
    crate::state::lemma_prefix_refl,
    crate::state::lemma_text_prefix_trans,
    crate::state::lemma_text_prefix_refl,
};

/// The items of a compound statement, one after the other.
pub(crate) fn transpile_block_items(items: &Vec<BlockItem>, state: &mut State) -> (r: Option<String>)
    requires
        old(state)@.tags_ok(),
    ensures
        follows(old(state)@, final(state)@),
        forall|o: Seq<Seq<char>>| #[trigger] prefix_of(final(state)@.drawn, o) ==> block_items_out(items@, empty_text(), old(state)@, o) == (opt_view(r), final(state)@),
    decreases items, 0int,
{
    proof {
        reveal(block_items_out);
    }
    let ghost s0 = state@;
    let mut code = String::new();
    let mut ok = true;
    let n = items.len();
    let mut i: usize = 0;
    while i < n
        invariant
            n == items@.len(),
            i <= n,
            follows(s0, state@),
            forall|o: Seq<Seq<char>>| #[trigger] prefix_of(state@.drawn, o) ==> block_items_out(items@.take(i as int), empty_text(), s0, o) == (if ok { Some(code@) } else { None::<Seq<char>> }, state@),
        decreases n - i,
    {
        proof {
            reveal(block_items_out);
        }
        assert(items@.take(i + 1).drop_last() =~= items@.take(i as int));
        if ok {
            match transpile_block_item(&items[i], state) {
                Some(x) => {
                    code.append(x.as_str());
                },
                None => {
                    ok = false;
                },
            }
        }
        i = i + 1;
    }
    assert(items@.take(n as int) =~= items@);
    if ok {
        Some(code)
    } else {
        None
    }
}

pub open spec fn exprs_view(v: Seq<&Expression>) -> Seq<Expression> {
    v.map_values(|e: &Expression| *e)
}

pub open spec fn stmts_view(v: Seq<&Statement>) -> Seq<Statement> {
    v.map_values(|s: &Statement| *s)
}

pub open spec fn cases_view(v: Seq<(&Expression, Vec<&Statement>)>) -> Cases {
    v.map_values(|c: (&Expression, Vec<&Statement>)| (*c.0, stmts_view(c.1@)))
}

pub open spec fn stmt_view(s: Option<&Statement>) -> Option<Statement> {
    match s {
        Some(s) => Some(*s),
        None => None,
    }
}

/// Follows a chain of labels: the case expressions go to `inner`, the
/// statement after a `default` label to `dflt`; gives back the statement
/// the chain ends in.
pub(crate) fn follow_labels<'a>(l: &'a LabeledStatement, inner: &mut Vec<&'a Expression>, dflt: &mut Option<&'a Statement>, ws: &mut Vec<String>) -> (tail: &'a Statement)
    ensures
        label_chain(*l, exprs_view(old(inner)@), stmt_view(*old(dflt))) == (exprs_view(final(inner)@), *tail, stmt_view(*final(dflt))),
        names_view(final(ws)@) == names_view(old(ws)@) + label_warnings(*l),
    decreases l,
{
    match &l.label {
        Label::Case(e) => {
            inner.push(&**e);
            assert(exprs_view(inner@) =~= exprs_view(old(inner)@).push(**e));
        },
        Label::Default => {
            *dflt = Some(&*l.statement);
        },
        _ => {
            ws.push(text("!! Unknown label"));
        },
    }
    let ghost w1 = names_view(ws@);
    assert(w1 =~= names_view(old(ws)@) + (match l.label {
        Label::Case(_) => Seq::<Seq<char>>::empty(),
        Label::Default => Seq::<Seq<char>>::empty(),
        _ => seq!["!! Unknown label"@],
    }));
    match &*l.statement {
        Statement::Labeled(l2) => {
            let t = follow_labels(l2, inner, dflt, ws);
            assert(names_view(ws@) =~= names_view(old(ws)@) + label_warnings(*l));
            t
        },
        other => other,
    }
}

/// The cases of a switch body, each case expression with the statements
/// run for it, and the default statement.
pub(crate) fn collect_switch_cases<'a>(sw: &'a SwitchStatement) -> (r: (Vec<(&'a Expression, Vec<&'a Statement>)>, Option<&'a Statement>, Vec<String>))
    ensures
        switch_cases(*sw) == (cases_view(r.0@), stmt_view(r.1)),
        names_view(r.2@) == switch_warnings(*sw),
{
    let mut ws: Vec<String> = Vec::new();
    let mut cases: Vec<(&'a Expression, Vec<&'a Statement>)> = Vec::new();
    let mut dflt: Option<&'a Statement> = None;
    match &*sw.statement {
        Statement::Compound(items) => {
            let n = items.len();
            let mut i: usize = 0;
            assert(items@.take(0) =~= Seq::<BlockItem>::empty());
            assert(cases_view(cases@) =~= Seq::<(Expression, Seq<Statement>)>::empty());
            assert(names_view(ws@) =~= Seq::<Seq<char>>::empty());
            while i < n
                invariant
                    n == items@.len(),
                    i <= n,
                    collect_cases(items@.take(i as int)) == (cases_view(cases@), stmt_view(dflt)),
                    names_view(ws@) == items_warnings(items@.take(i as int)),
                decreases n - i,
            {
                assert(items@.take(i + 1).drop_last() =~= items@.take(i as int));
                assert(items@.take(i + 1).last() == items@[i as int]);
                match &items[i] {
                    BlockItem::Statement(s) => match s {
                        Statement::Labeled(l) => {
                            let mut inner: Vec<&'a Expression> = Vec::new();
                            assert(exprs_view(inner@) =~= Seq::<Expression>::empty());
                            let tail = follow_labels(l, &mut inner, &mut dflt, &mut ws);
                            let ghost before = cases_view(cases@);
                            let ghost es = exprs_view(inner@);
                            let m = inner.len();
                            let mut j: usize = 0;
                            assert(single_cases(es.take(0), *tail) =~= Seq::<(Expression, Seq<Statement>)>::empty());
                            assert(before + Seq::<(Expression, Seq<Statement>)>::empty() =~= before);
                            while j < m
                                invariant
                                    m == inner@.len(),
                                    es == exprs_view(inner@),
                                    j <= m,
                                    cases_view(cases@) == before + single_cases(es.take(j as int), *tail),
                                decreases m - j,
                            {
                                let ghost prev = cases@;
                                let mut v: Vec<&'a Statement> = Vec::new();
                                v.push(tail);
                                assert(stmts_view(v@) =~= seq![*tail]);
                                assert(single_cases(es.take(j + 1), *tail) =~= single_cases(es.take(j as int), *tail).push((es[j as int], seq![*tail])));
                                cases.push((inner[j], v));
                                assert(cases_view(cases@) =~= cases_view(prev).push((es[j as int], seq![*tail])));
                                j = j + 1;
                            }
                            assert(es.take(m as int) =~= es);
                        },
                        other => {
                            let k = cases.len();
                            if k > 0 {
                                let ghost before = cases_view(cases@);
                                let (e, mut v) = cases.pop().unwrap();
                                v.push(other);
                                cases.push((e, v));
                                assert(stmts_view(v@) =~= before.last().1.push(*other));
                                assert(cases_view(cases@) =~= before.update(before.len() - 1, (before.last().0, before.last().1.push(*other))));
                            } else {
                                let ghost w0 = names_view(ws@);
                                ws.push(text("!! Unknown switch statement (dangling statement with no label before it)"));
                                assert(names_view(ws@) =~= w0.push("!! Unknown switch statement (dangling statement with no label before it)"@));
                            }
                        },
                    },
                    _ => {},
                }
                i = i + 1;
            }
            assert(items@.take(n as int) =~= items@);
        },
        _ => {
            assert(cases_view(cases@) =~= Seq::<(Expression, Seq<Statement>)>::empty());
            ws.push(text("!! Unknown switch statement (not compound)"));
            assert(names_view(ws@) =~= seq!["!! Unknown switch statement (not compound)"@]);
        },
    }
    (cases, dflt, ws)
}

/// The head of the one-pass loop that a switch becomes.
pub(crate) fn switch_head_text(id: &str) -> (r: String)
    ensures
        r@ == switch_head(id@),
{
    let mut code = concat2("for (u8 $_", id);
    code.append(" = 0; $_");
    code.append(id);
    code.append(" == 0; $_");
    code.append(id);
    code.append(" = 1) {\n");
    code
}

/// A switch: a one-pass loop holding an `if`/`else if` chain over the cases
/// and the default statement in an `else`.
pub fn transpile_switch_statement(node: &SwitchStatement, state: &mut State) -> (r: Option<String>)
    requires
        old(state)@.tags_ok(),
    ensures
        follows(old(state)@, final(state)@),
        forall|o: Seq<Seq<char>>| #[trigger] prefix_of(final(state)@.drawn, o) ==> switch_out(*node, old(state)@, o) == (opt_view(r), final(state)@),
    decreases node, 2int,
{
    proof {
        reveal(switch_out);
        reveal(cases_out);
    }
    proof {
        lemma_switch_cases_inside(*node);
    }
    let ghost s0 = state@;
    let (cases, default_statement, warnings) = collect_switch_cases(node);
    state.warn_all(warnings);
    let ghost cv = cases_view(cases@);
    let switch_id = state.draw_tag();
    let mut code = switch_head_text(switch_id.as_str());
    let ghost s1 = state@;
    assert(prefix_of(s0.drawn, s1.drawn));
    let ghost acc0 = code@;
    let mut ok = true;
    let n = cases.len();
    let mut i: usize = 0;
    while i < n
        invariant
            n == cases@.len(),
            cv == cases_view(cases@),
            switch_cases(*node).0 == cv,
            i <= n,
            follows(s1, state@),
            forall|o: Seq<Seq<char>>| #[trigger] prefix_of(state@.drawn, o) ==> cases_out(*node, i as int, acc0, s1, o) == (if ok { Some(code@) } else { None::<Seq<char>> }, state@),
        decreases n - i,
    {
        proof {
            reveal(cases_out);
        }
        let ghost si = state@;
        let ghost ci = code@;
        let ghost oki = ok;
        if ok {
            assert(cv[i as int] == (*cases@[i as int].0, stmts_view(cases@[i as int].1@)));
            ok = transpile_case(node, i, cases[i].0, &cases[i].1, &mut code, state);
        }
        assert forall|o: Seq<Seq<char>>| #[trigger] prefix_of(state@.drawn, o) implies cases_out(*node, i + 1, acc0, s1, o) == (if ok { Some(code@) } else { None::<Seq<char>> }, state@) by {
            assert(prefix_of(si.drawn, o));
            assert(cases_out(*node, i as int, acc0, s1, o) == (if oki { Some(ci) } else { None::<Seq<char>> }, si));
        }
        i = i + 1;
    }
    if !ok {
        return None;
    }
    let ghost s2 = state@;
    let ghost c2 = code@;
    match default_statement {
        Some(d) => {
            if n > 0 {
                code.append("else {\n");
            }
            let mark = state.anon_count();
            assert(inside(*node, *d));
            let x = transpile_statement(d, state);
            let ghost s3 = state@;
            state.forget_anon(mark);
            match &x {
                Some(x) => {
                    code.append(x.as_str());
                    if n > 0 {
                        code.append("}\n");
                    }
                },
                None => {
                    assert forall|o: Seq<Seq<char>>| #[trigger] prefix_of(state@.drawn, o) implies switch_out(*node, s0, o) == (None::<Seq<char>>, state@) by {
                        assert(prefix_of(s2.drawn, o));
                        assert(cases_out(*node, n as int, acc0, s1, o) == (Some(c2), s2));
                        assert(stmt_out(*d, s2, o) == (None::<Seq<char>>, s3));
                    }
                    return None;
                },
            }
            code.append("}\n");
            assert forall|o: Seq<Seq<char>>| #[trigger] prefix_of(state@.drawn, o) implies switch_out(*node, s0, o) == (Some(code@), state@) by {
                assert(prefix_of(s2.drawn, o));
                assert(cases_out(*node, n as int, acc0, s1, o) == (Some(c2), s2));
                assert(stmt_out(*d, s2, o) == (opt_view(x), s3));
            }
            Some(code)
        },
        None => {
            code.append("}\n");
            assert forall|o: Seq<Seq<char>>| #[trigger] prefix_of(state@.drawn, o) implies switch_out(*node, s0, o) == (Some(code@), state@) by {
                assert(cases_out(*node, n as int, acc0, s1, o) == (Some(c2), s2));
            }
            Some(code)
        },
    }
}

/// A function definition: its declarator line, then its body in braces.
pub fn transpile_function_definition(node: &FunctionDefinition, state: &mut State) -> (r: Option<String>)
    requires
        old(state)@.tags_ok(),
    ensures
        follows(old(state)@, final(state)@),
        forall|o: Seq<Seq<char>>| #[trigger] prefix_of(final(state)@.drawn, o) ==> fn_def_out(*node, old(state)@, o) == (opt_view(r), final(state)@),
{
    proof {
        reveal(fn_def_out);
    }
    let spec = match transpile_specifier_list(&node.specifiers, state) {
        Some(s) => shrink_specifiers(s, state),
        None => {
            return None;
        },
    };
    let mut code = match transpile_declarator(&node.declarator, &spec, state, &String::new()) {
        Some(d) => d,
        None => {
            return None;
        },
    };
    code.append("\n");
    code.append("{\n");
    match transpile_statement(&node.statement, state) {
        Some(b) => {
            code.append(b.as_str());
        },
        None => {},
    }
    code.append("}\n");
    code.append("\n");
    Some(code)
}

/// One step of `block_items_out`: its definition, with the calls it makes left folded.
pub proof fn unfold_block_items_out(s: Seq<BlockItem>, acc: Seq<char>, st: TState, o: Seq<Seq<char>>)
    ensures
        block_items_out(s, acc, st, o) == ({
            if s.len() == 0 {
                (Some(acc), st)
            } else {
                let (r, st1) = block_items_out(s.drop_last(), acc, st, o);
                match r {
                    None => (None, st1),
                    Some(a) => {
                        let (x, st2) = block_item_out(s.last(), st1, o);
                        match x {
                            None => (None, st2),
                            Some(x) => (Some(a + x), st2),
                        }
                    },
                }
            }
        }),
{
    reveal(block_items_out);
}

/// One step of `switch_out`: its definition, with the calls it makes left folded.
pub proof fn unfold_switch_out(sw: SwitchStatement, st: TState, o: Seq<Seq<char>>)
    ensures
        switch_out(sw, st, o) == ({
            let (cases, dflt) = switch_cases(sw);
            let (id, st1) = st.warned_all(switch_warnings(sw)).draw(o);
            let (r, st2) = cases_out(sw, cases.len() as int, switch_head(id), st1, o);
            match r {
                None => (None, st2),
                Some(code) => match dflt {
                    Some(d) => {
                        let code1 = if cases.len() > 0 { code + "else {\n"@ } else { code };
                        let (x, st3) = stmt_out(d, st2, o);
                        let st4 = st3.forget_anon(st2.anon.len() as int);
                        match x {
                            None => (None, st4),
                            Some(x) => {
                                let code2 = code1 + x;
                                let code3 = if cases.len() > 0 { code2 + "}\n"@ } else { code2 };
                                (Some(code3 + "}\n"@), st4)
                            },
                        }
                    },
                    None => (Some(code + "}\n"@), st2),
                },
            }
        }),
{
    reveal(switch_out);
    reveal(cases_out);
}

/// One step of `cases_out`: its definition, with the calls it makes left folded.
pub proof fn unfold_cases_out(sw: SwitchStatement, k: int, acc: Seq<char>, st: TState, o: Seq<Seq<char>>)
    ensures
        cases_out(sw, k, acc, st, o) == ({
            if k <= 0 || k > switch_cases(sw).0.len() {
                (Some(acc), st)
            } else {
                let (r, st1) = cases_out(sw, k - 1, acc, st, o);
                match r {
                    None => (None, st1),
                    Some(a) => case_out(sw, k - 1, a, st1, o),
                }
            }
        }),
{
    reveal(switch_out);
    reveal(cases_out);
}

/// One step of `fn_def_out`: its definition, with the calls it makes left folded.
pub proof fn unfold_fn_def_out(f: FunctionDefinition, st: TState, o: Seq<Seq<char>>)
    ensures
        fn_def_out(f, st, o) == ({
            let (r, st1) = ds_list_out(f.specifiers@, empty_text(), st, o);
            match r {
                None => (None, st1),
                Some(sp) => {
                    let st1 = spec_checked(sp, st1);
                    let (d, st2) = declarator_out(f.declarator, shrunk(sp), st1, o, empty_text());
                    match d {
                        None => (None, st2),
                        Some(d) => {
                            let head = d + "\n"@ + "{\n"@;
                            let (b, st3) = stmt_out(f.statement, st2, o);
                            let body = match b {
                                Some(b) => head + b,
                                None => head,
                            };
                            (Some(body + "}\n"@ + "\n"@), st3)
                        },
                    }
                },
            }
        }),
{
    reveal(fn_def_out);
}

} // verus!
