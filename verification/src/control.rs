//! Branches, loops, switch cases and block items.
use vstd::prelude::*;
use crate::ast::{
    BlockItem, Declaration, DoWhileStatement, Expression, ForStatement, IfStatement, Statement,
    SwitchStatement, WhileStatement,
};
use crate::model::{
    block_item_out, case_out, case_stmts_out, declaration_out, do_while_out, empty_text, expr_out,
    for_init_out, for_out, if_out, inside, lemma_switch_cases_inside, stmt_out, switch_cases,
    while_out,
};
use crate::state::{State, TState, follows, prefix_of};
use crate::text::{concat2, opt_view, text};
use crate::expressions::{transpile_expression};
use crate::statements::{transpile_for_initializer, transpile_statement};
use crate::blocks::{stmts_view};
use crate::declarations::{transpile_declaration};

verus! {

broadcast use {
    crate::state::lemma_prefix_trans,
    crate::state::lemma_prefix_refl,
    crate::state::lemma_text_prefix_trans,
    crate::state::lemma_text_prefix_refl,
};

pub fn transpile_if_statement(node: &IfStatement, state: &mut State) -> (r: Option<String>)
    requires
        old(state)@.tags_ok(),
    ensures
        follows(old(state)@, final(state)@),
        forall|o: Seq<Seq<char>>| #[trigger] prefix_of(final(state)@.drawn, o) ==> if_out(*node, old(state)@, o) == (opt_view(r), final(state)@),
    decreases node, 0int,
{
    proof {
        reveal(if_out);
    }
    let c = match transpile_expression(&node.condition, state) {
        Some(c) => c,
        None => {
            return None;
        },
    };
    let t = match transpile_statement(&node.then_statement, state) {
        Some(t) => t,
        None => {
            return None;
        },
    };
    let mut code = concat2("if (", c.as_str());
    code.append(") {\n");
    code.append(t.as_str());
    code.append("}\n");
    match &node.else_statement {
        Some(e) => match transpile_statement(e, state) {
            Some(x) => {
                code.append("else {\n");
                code.append(x.as_str());
                code.append("}\n");
                Some(code)
            },
            None => None,
        },
        None => Some(code),
    }
}

pub fn transpile_while_statement(node: &WhileStatement, state: &mut State) -> (r: Option<String>)
    requires
        old(state)@.tags_ok(),
    ensures
        follows(old(state)@, final(state)@),
        forall|o: Seq<Seq<char>>| #[trigger] prefix_of(final(state)@.drawn, o) ==> while_out(*node, old(state)@, o) == (opt_view(r), final(state)@),
    decreases node, 0int,
{
    proof {
        reveal(while_out);
    }
    let c = match transpile_expression(&node.expression, state) {
        Some(c) => c,
        None => {
            return None;
        },
    };
    match transpile_statement(&node.statement, state) {
        Some(b) => {
            let mut code = concat2("while (", c.as_str());
            code.append(") {\n");
            code.append(b.as_str());
            code.append("}\n");
            Some(code)
        },
        None => None,
    }
}

/// A do-while loop: its body once, then a while loop with the same body.
pub fn transpile_do_while_statement(node: &DoWhileStatement, state: &mut State) -> (r: Option<String>)
    requires
        old(state)@.tags_ok(),
    ensures
        follows(old(state)@, final(state)@),
        forall|o: Seq<Seq<char>>| #[trigger] prefix_of(final(state)@.drawn, o) ==> do_while_out(*node, old(state)@, o) == (opt_view(r), final(state)@),
    decreases node, 0int,
{
    proof {
        reveal(do_while_out);
    }
    let b = match transpile_statement(&node.statement, state) {
        Some(b) => b,
        None => {
            return None;
        },
    };
    match transpile_expression(&node.expression, state) {
        Some(c) => {
            let mut code = b.clone();
            code.append("while (");
            code.append(c.as_str());
            code.append(") {\n");
            code.append(b.as_str());
            code.append("}\n");
            Some(code)
        },
        None => None,
    }
}

#[verifier::rlimit(40)]
pub fn transpile_for_statement(node: &ForStatement, state: &mut State) -> (r: Option<String>)
    requires
        old(state)@.tags_ok(),
    ensures
        follows(old(state)@, final(state)@),
        forall|o: Seq<Seq<char>>| #[trigger] prefix_of(final(state)@.drawn, o) ==> for_out(*node, old(state)@, o) == (opt_view(r), final(state)@),
    decreases node, 0int,
{
    proof {
        reveal(for_out);
    }
    let ghost s0 = state@;
    let init = match transpile_for_initializer(&node.initializer, state) {
        Some(x) => x,
        None => {
            return None;
        },
    };
    let ghost s1 = state@;
    let cond = match &node.condition {
        Some(c) => transpile_expression(c, state),
        None => Some(text("1")),
    };
    let ghost s2 = state@;
    assert(prefix_of(s0.drawn, s2.drawn));
    let cond = match cond {
        Some(x) => x,
        None => {
            assert forall|o: Seq<Seq<char>>| #[trigger] prefix_of(state@.drawn, o) implies for_out(*node, s0, o) == (None::<Seq<char>>, state@) by {
                assert(prefix_of(s1.drawn, o));
                assert(for_init_out(node.initializer, s0, o) == (Some(init@), s1));
            }
            return None;
        },
    };
    let step = match &node.step {
        Some(p) => transpile_expression(p, state),
        None => Some(text("0")),
    };
    let ghost s3 = state@;
    assert(prefix_of(s0.drawn, s3.drawn));
    let step = match step {
        Some(x) => x,
        None => {
            assert forall|o: Seq<Seq<char>>| #[trigger] prefix_of(state@.drawn, o) implies for_out(*node, s0, o) == (None::<Seq<char>>, state@) by {
                assert(prefix_of(s1.drawn, o));
                assert(prefix_of(s2.drawn, o));
                assert(for_init_out(node.initializer, s0, o) == (Some(init@), s1));
            }
            return None;
        },
    };
    let body = transpile_statement(&node.statement, state);
    let ghost s4 = state@;
    assert(prefix_of(s0.drawn, s4.drawn));
    match body {
        Some(b) => {
            let mut code = concat2("for (", init.as_str());
            code.append(cond.as_str());
            code.append("; ");
            code.append(step.as_str());
            code.append(") {\n");
            code.append(b.as_str());
            code.append("}\n");
            assert forall|o: Seq<Seq<char>>| #[trigger] prefix_of(state@.drawn, o) implies for_out(*node, s0, o) == (Some(code@), state@) by {
                assert(prefix_of(s1.drawn, o));
                assert(prefix_of(s2.drawn, o));
                assert(prefix_of(s3.drawn, o));
                assert(for_init_out(node.initializer, s0, o) == (Some(init@), s1));
                assert(stmt_out(*node.statement, s3, o) == (Some(b@), s4));
            }
            Some(code)
        },
        None => {
            assert forall|o: Seq<Seq<char>>| #[trigger] prefix_of(state@.drawn, o) implies for_out(*node, s0, o) == (None::<Seq<char>>, state@) by {
                assert(prefix_of(s1.drawn, o));
                assert(prefix_of(s2.drawn, o));
                assert(prefix_of(s3.drawn, o));
                assert(for_init_out(node.initializer, s0, o) == (Some(init@), s1));
                assert(stmt_out(*node.statement, s3, o) == (None::<Seq<char>>, s4));
            }
            None
        },
    }
}

/// Case `i` of a switch, whose expression and statements are given, written
/// after `code`; false where it cannot be written.
#[verifier::rlimit(40)]
pub(crate) fn transpile_case(node: &SwitchStatement, i: usize, expr: &Expression, stmts: &Vec<&Statement>, code: &mut String, state: &mut State) -> (ok: bool)
    requires
        old(state)@.tags_ok(),
        i < switch_cases(*node).0.len(),
        switch_cases(*node).0[i as int] == (*expr, stmts_view(stmts@)),
    ensures
        follows(old(state)@, final(state)@),
        forall|o: Seq<Seq<char>>| #[trigger] prefix_of(final(state)@.drawn, o) ==> case_out(*node, i as int, old(code)@, old(state)@, o) == (if ok { Some(final(code)@) } else { None::<Seq<char>> }, final(state)@),
    decreases node, 1int,
{
    proof {
        reveal(case_out);
        reveal(case_stmts_out);
    }
    proof {
        lemma_switch_cases_inside(*node);
    }
    let ghost cv = switch_cases(*node).0;
    let ghost s0 = state@;
    let ghost a0 = code@;
    if i > 0 {
        code.append("else ");
    }
    let ghost a1 = code@;
    let x = match transpile_expression(&node.expression, state) {
        Some(x) => x,
        None => {
            return false;
        },
    };
    let ghost s2 = state@;
    let mark = state.anon_count();
    assert(inside(*node, cv[i as int].0));
    let y = transpile_expression(expr, state);
    let ghost s3 = state@;
    state.forget_anon(mark);
    let ghost s3b = state@;
    assert(prefix_of(s0.drawn, s3b.drawn));
    let y = match y {
        Some(y) => y,
        None => {
            assert forall|o: Seq<Seq<char>>| #[trigger] prefix_of(state@.drawn, o) implies case_out(*node, i as int, a0, s0, o) == (None::<Seq<char>>, state@) by {
                assert(prefix_of(s2.drawn, o));
                assert(expr_out(*node.expression, s0, o) == (Some(x@), s2));
                assert(expr_out(*expr, s2, o) == (None::<Seq<char>>, s3));
            }
            return false;
        },
    };
    code.append("if (");
    code.append(x.as_str());
    code.append(" == ");
    code.append(y.as_str());
    code.append(") {\n");
    let ghost acc2 = code@;
    let m = stmts.len();
    let mut j: usize = 0;
    while j < m
        invariant
            m == stmts@.len(),
            i < cv.len(),
            cv == switch_cases(*node).0,
            stmts_view(stmts@) == cv[i as int].1,
            j <= m,
            follows(s3b, state@),
            forall|o: Seq<Seq<char>>| #[trigger] prefix_of(state@.drawn, o) ==> case_stmts_out(*node, i as int, j as int, acc2, s3b, o) == (code@, state@),
        decreases m - j,
    {
        proof {
            reveal(case_stmts_out);
        }
        proof {
            lemma_switch_cases_inside(*node);
        }
        let ghost sj = state@;
        let ghost cj = code@;
        let mark = state.anon_count();
        assert(stmts_view(stmts@)[j as int] == *stmts@[j as int]);
        assert(inside(*node, cv[i as int].1[j as int]));
        let x = transpile_statement(stmts[j], state);
        let ghost sx = state@;
        state.forget_anon(mark);
        match &x {
            Some(x) => {
                code.append(x.as_str());
            },
            None => {},
        }
        assert forall|o: Seq<Seq<char>>| #[trigger] prefix_of(state@.drawn, o) implies case_stmts_out(*node, i as int, j + 1, acc2, s3b, o) == (code@, state@) by {
            assert(prefix_of(sj.drawn, o));
            assert(case_stmts_out(*node, i as int, j as int, acc2, s3b, o) == (cj, sj));
            assert(stmt_out(*stmts@[j as int], sj, o) == (opt_view(x), sx));
        }
        j = j + 1;
    }
    let ghost cl = code@;
    code.append("}\n");
    assert forall|o: Seq<Seq<char>>| #[trigger] prefix_of(state@.drawn, o) implies case_out(*node, i as int, a0, s0, o) == (Some(code@), state@) by {
        assert(prefix_of(s3b.drawn, o));
        assert(prefix_of(s2.drawn, o));
        assert(expr_out(*node.expression, s0, o) == (Some(x@), s2));
        assert(expr_out(*expr, s2, o) == (Some(y@), s3));
        assert(case_stmts_out(*node, i as int, m as int, acc2, s3b, o) == (cl, state@));
    }
    true
}

pub fn transpile_block_item(node: &BlockItem, state: &mut State) -> (r: Option<String>)
    requires
        old(state)@.tags_ok(),
    ensures
        follows(old(state)@, final(state)@),
        forall|o: Seq<Seq<char>>| #[trigger] prefix_of(final(state)@.drawn, o) ==> block_item_out(*node, old(state)@, o) == (opt_view(r), final(state)@),
    decreases node, 0int,
{
    proof {
        reveal(block_item_out);
    }
    match node {
        BlockItem::Declaration(d) => {
            let ghost s0 = state@;
            let r = transpile_declaration(d, state, false);
            assert forall|o: Seq<Seq<char>>| #[trigger] prefix_of(state@.drawn, o) implies block_item_out(*node, s0, o) == (opt_view(r), state@) by {
                assert(declaration_out(*d, s0, o, false) == (opt_view(r), state@));
            }
            r
        },
        BlockItem::StaticAssert => Some(String::new()),
        BlockItem::Statement(s) => {
            let ghost s0 = state@;
            let r = transpile_statement(s, state);
            assert forall|o: Seq<Seq<char>>| #[trigger] prefix_of(state@.drawn, o) implies block_item_out(*node, s0, o) == (opt_view(r), state@) by {
                assert(stmt_out(*s, s0, o) == (opt_view(r), state@));
            }
            r
        },
    }
}

/// One step of `if_out`: its definition, with the calls it makes left folded.
pub proof fn unfold_if_out(i: IfStatement, st: TState, o: Seq<Seq<char>>)
    ensures
        if_out(i, st, o) == ({
            let (c, st1) = expr_out(*i.condition, st, o);
            match c {
                None => (None, st1),
                Some(c) => {
                    let (t, st2) = stmt_out(*i.then_statement, st1, o);
                    match t {
                        None => (None, st2),
                        Some(t) => {
                            let code = "if ("@ + c + ") {\n"@ + t + "}\n"@;
                            match i.else_statement {
                                Some(e) => {
                                    let (x, st3) = stmt_out(*e, st2, o);
                                    match x {
                                        None => (None, st3),
                                        Some(x) => (Some(code + "else {\n"@ + x + "}\n"@), st3),
                                    }
                                },
                                None => (Some(code), st2),
                            }
                        },
                    }
                },
            }
        }),
{
    reveal(if_out);
}

/// One step of `while_out`: its definition, with the calls it makes left folded.
pub proof fn unfold_while_out(w: WhileStatement, st: TState, o: Seq<Seq<char>>)
    ensures
        while_out(w, st, o) == ({
            let (c, st1) = expr_out(*w.expression, st, o);
            match c {
                None => (None, st1),
                Some(c) => {
                    let (b, st2) = stmt_out(*w.statement, st1, o);
                    match b {
                        None => (None, st2),
                        Some(b) => (Some("while ("@ + c + ") {\n"@ + b + "}\n"@), st2),
                    }
                },
            }
        }),
{
    reveal(while_out);
}

/// One step of `do_while_out`: its definition, with the calls it makes left folded.
pub proof fn unfold_do_while_out(d: DoWhileStatement, st: TState, o: Seq<Seq<char>>)
    ensures
        do_while_out(d, st, o) == ({
            let (b, st1) = stmt_out(*d.statement, st, o);
            match b {
                None => (None, st1),
                Some(b) => {
                    let (c, st2) = expr_out(*d.expression, st1, o);
                    match c {
                        None => (None, st2),
                        Some(c) => (Some(b + "while ("@ + c + ") {\n"@ + b + "}\n"@), st2),
                    }
                },
            }
        }),
{
    reveal(do_while_out);
}

/// One step of `for_out`: its definition, with the calls it makes left folded.
pub proof fn unfold_for_out(f: ForStatement, st: TState, o: Seq<Seq<char>>)
    ensures
        for_out(f, st, o) == ({
            let (i, st1) = for_init_out(f.initializer, st, o);
            match i {
                None => (None, st1),
                Some(i) => {
                    let (c, st2) = match f.condition {
                        Some(c) => expr_out(*c, st1, o),
                        None => (Some("1"@), st1),
                    };
                    match c {
                        None => (None, st2),
                        Some(c) => {
                            let (p, st3) = match f.step {
                                Some(p) => expr_out(*p, st2, o),
                                None => (Some("0"@), st2),
                            };
                            match p {
                                None => (None, st3),
                                Some(p) => {
                                    let (b, st4) = stmt_out(*f.statement, st3, o);
                                    match b {
                                        None => (None, st4),
                                        Some(b) => (Some("for ("@ + i + c + "; "@ + p + ") {\n"@ + b + "}\n"@), st4),
                                    }
                                },
                            }
                        },
                    }
                },
            }
        }),
{
    reveal(for_out);
}

/// One step of `case_out`: its definition, with the calls it makes left folded.
pub proof fn unfold_case_out(sw: SwitchStatement, i: int, acc: Seq<char>, st: TState, o: Seq<Seq<char>>)
    ensures
        case_out(sw, i, acc, st, o) == ({
            let cases = switch_cases(sw).0;
            if i < 0 || i >= cases.len() {
                (Some(acc), st)
            } else {
                let c = cases[i];
                let a1 = if i > 0 { acc + "else "@ } else { acc };
                let (x, st2) = expr_out(*sw.expression, st, o);
                match x {
                    None => (None, st2),
                    Some(x) => {
                        let (y, st3) = expr_out(c.0, st2, o);
                        let st3b = st3.forget_anon(st2.anon.len() as int);
                        match y {
                            None => (None, st3b),
                            Some(y) => {
                                let a2 = a1 + "if ("@ + x + " == "@ + y + ") {\n"@;
                                let (a3, st4) = case_stmts_out(sw, i, c.1.len() as int, a2, st3b, o);
                                (Some(a3 + "}\n"@), st4)
                            },
                        }
                    },
                }
            }
        }),
{
    reveal(case_out);
    reveal(case_stmts_out);
}

/// One step of `case_stmts_out`: its definition, with the calls it makes left folded.
pub proof fn unfold_case_stmts_out(sw: SwitchStatement, i: int, j: int, acc: Seq<char>, st: TState, o: Seq<Seq<char>>)
    ensures
        case_stmts_out(sw, i, j, acc, st, o) == ({
            let cases = switch_cases(sw).0;
            if i < 0 || i >= cases.len() || j <= 0 || j > cases[i].1.len() {
                (acc, st)
            } else {
                let (a, st1) = case_stmts_out(sw, i, j - 1, acc, st, o);
                let (x, st2) = stmt_out(cases[i].1[j - 1], st1, o);
                let st2b = st2.forget_anon(st1.anon.len() as int);
                match x {
                    Some(x) => (a + x, st2b),
                    None => (a, st2b),
                }
            }
        }),
{
    reveal(case_out);
    reveal(case_stmts_out);
}

/// One step of `block_item_out`: its definition, with the calls it makes left folded.
pub proof fn unfold_block_item_out(b: BlockItem, st: TState, o: Seq<Seq<char>>)
    ensures
        block_item_out(b, st, o) == ({
            match b {
                BlockItem::Declaration(d) => declaration_out(d, st, o, false),
                BlockItem::StaticAssert => (Some(empty_text()), st),
                BlockItem::Statement(s) => stmt_out(s, st, o),
            }
        }),
{
    reveal(block_item_out);
}

} // verus!
