//! Properties of the translation that hold across calls.
use vstd::prelude::*;
use crate::ast::{
    ArraySize, BinaryOperator, BlockItem, LabeledStatement, DeclarationSpecifier, Declarator, DeclaratorKind, DerivedDeclarator,
    DoWhileStatement, Expression, Statement, StorageClassSpecifier, StructType, SwitchStatement, TypeSpecifier,
};
use crate::markers::{begin_marker, find_from, resolved};
use crate::model::{
    DeclFlags, args_out, array_size_out, binary_symbol, binary_text, block_item_out, block_items_out, case_out, cases_out,
    collect_cases, decl_spec_out, decl_specs_out, declarator_out, ds_list_out, empty_decls_text,
    derived_out, do_while_out, expr_np_out, expr_out, for_out, if_out, params_out, piece_ok, pieces_ok, stmt_out,
    storage_text, struct_or_enum, switch_cases, switch_head, switch_out, switch_warnings, type_name_out, type_spec_out, while_out,
};
use crate::expressions::unfold_expr_out;
use crate::init_declarators::unfold_args_out;
use crate::operands::unfold_expr_np_out;
use crate::blocks::{unfold_block_items_out, unfold_cases_out, unfold_switch_out};
use crate::control::{unfold_case_out, unfold_do_while_out};
use crate::declarators::{unfold_declarator_out, unfold_derived_out};
use crate::statements::unfold_stmt_out;
use crate::declarations::unfold_decl_specs_out;
use crate::specifiers::unfold_ds_list_out;
use crate::structs::unfold_decl_spec_out;
use crate::state::{TState, lemma_text_prefix_extend, text_prefix, lemma_set_add_once, lemma_set_del_once, lookup, no_repeats, set_add, set_del};
use crate::text::{dec, digit_char, digit_value, digits_value, replaced, shrunk, u64_from_decimal};

verus! {

/// Reading a typedef back gives the one recorded last under its name, and
/// recording one leaves every other name as it was.
pub proof fn law_typedef_read_after_write(st: TState, k: Seq<char>, v: Seq<char>, other: Seq<char>)
    ensures
        lookup(st.with_typedef(k, v).typedefs, k) == Some(v),
        other != k ==> lookup(st.with_typedef(k, v).typedefs, other) == lookup(st.typedefs, other),
{
    assert(st.with_typedef(k, v).typedefs.drop_last() =~= st.typedefs);
}

proof fn lemma_set_del(s: Seq<Seq<char>>, x: Seq<char>, y: Seq<char>)
    ensures
        set_del(s, x).contains(y) <==> (s.contains(y) && y != x),
    decreases s.len(),
{
    if s.len() > 0 {
        lemma_set_del(s.drop_last(), x, y);
        assert(s =~= s.drop_last().push(s.last()));
        if set_del(s.drop_last(), x).contains(y) {
            let i = choose|i: int| 0 <= i < set_del(s.drop_last(), x).len() && set_del(s.drop_last(), x)[i] == y;
            if s.last() != x {
                assert(set_del(s, x)[i] == y);
            }
        }
        if s.contains(y) && y != x {
            let i = choose|i: int| 0 <= i < s.len() && s[i] == y;
            if i < s.len() - 1 {
                assert(s.drop_last()[i] == y);
            } else {
                assert(set_del(s, x).last() == y);
            }
        }
    }
}

/// The name sets of the state never hold a name twice: adding a name that is
/// there already, or removing one, keeps every name once.
pub proof fn law_names_without_repetition(s: Seq<Seq<char>>, x: Seq<char>)
    requires
        no_repeats(s),
    ensures
        no_repeats(set_add(s, x)),
        no_repeats(set_del(s, x)),
{
    lemma_set_add_once(s, x);
    lemma_set_del_once(s, x);
}

/// A function recorded as declared but not defined is found among those
/// names until its definition removes it; removing a name leaves the others.
pub proof fn law_undefined_functions(st: TState, n: Seq<char>, other: Seq<char>)
    ensures
        st.with_undef(n).undef_fns.contains(n),
        !st.without_undef(n).undef_fns.contains(n),
        other != n ==> (st.without_undef(n).undef_fns.contains(other) <==> st.undef_fns.contains(other)),
{
    lemma_set_del(st.undef_fns, n, n);
    lemma_set_del(st.undef_fns, n, other);
    if !st.undef_fns.contains(n) {
        assert(set_add(st.undef_fns, n).last() == n);
    }
}

/// An untagged struct keeps the tag it is given: once a specifier has named
/// it, naming it again finds the same name and changes nothing.
pub proof fn law_struct_tag_kept(s: StructType, st: TState, o: Seq<Seq<char>>)
    ensures
        ({
            let ds = DeclarationSpecifier::TypeSpecifier(TypeSpecifier::Struct(s));
            let (r, st1) = struct_or_enum(ds, st, o);
            struct_or_enum(ds, st1, o) == (r, st1)
        }),
{
    let ds = DeclarationSpecifier::TypeSpecifier(TypeSpecifier::Struct(s));
    let (r, st1) = struct_or_enum(ds, st, o);
    if s.identifier is None && lookup(st.anon, s.anon_id) is None {
        let (tag, st0) = st.draw(o);
        assert(st1.anon.drop_last() =~= st0.anon);
    }
}

proof fn lemma_dec(n: nat)
    ensures
        digits_value(dec(n), 10) == Some(n),
        dec(n).len() > 0,
        '0' <= dec(n)[0] <= '9',
    decreases n,
{
    let d = n % 10;
    assert(digit_char(d) as int == d + 48);
    assert(digit_value(digit_char(d), 10) == Some(d));
    if n >= 10 {
        lemma_dec(n / 10);
        let s = dec(n / 10);
        assert(dec(n).drop_last() =~= s);
        assert(dec(n).last() == digit_char(d));
        assert(dec(n)[0] == s[0]);
        assert((n / 10) * 10 + d == n);
    } else {
        assert(seq![digit_char(n)].drop_last() =~= Seq::<char>::empty());
        assert(digits_value(Seq::<char>::empty(), 10) == Some(0nat));
        assert(d == n);
    }
}

/// Writing a number in decimal and reading the text back as a `u64` gives
/// the number again.
pub proof fn law_decimal_round_trip(n: u64)
    ensures
        u64_from_decimal(dec(n as nat)) == Some(n as int),
{
    lemma_dec(n as nat);
}

/// Replacing a pattern that starts with a backslash leaves a text without
/// backslashes as it is.
proof fn lemma_replaced_plain(s: Seq<char>, p: Seq<char>, t: Seq<char>)
    requires
        p.len() > 0,
        p[0] == '\\',
        !s.contains('\\'),
    ensures
        replaced(s, p, t) == s,
    decreases s.len(),
{
    if s.len() >= p.len() {
        assert(s.take(p.len() as int)[0] == s[0]);
        assert(s.skip(1).len() < s.len());
        assert(!s.skip(1).contains('\\')) by {
            if s.skip(1).contains('\\') {
                let i = choose|i: int| 0 <= i < s.skip(1).len() && s.skip(1)[i] == '\\';
                assert(s[i + 1] == '\\');
            }
        }
        lemma_replaced_plain(s.skip(1), p, t);
        assert(seq![s[0]] + s.skip(1) =~= s);
    }
}

/// Specifier text without any C keyword marker (a struct or typedef name)
/// comes out of the keyword folding unchanged.
pub proof fn law_shrunk_plain(s: Seq<char>)
    requires
        !s.contains('\\'),
    ensures
        shrunk(s) == s,
{
    reveal(shrunk);
    reveal_strlit("\\unsigned \\long \\long \\int");
    reveal_strlit("\\signed \\long \\long \\int");
    reveal_strlit("\\long \\long \\int");
    reveal_strlit("\\unsigned \\short \\int");
    reveal_strlit("\\signed \\short \\int");
    reveal_strlit("\\unsigned \\long \\long");
    reveal_strlit("\\signed \\long \\long");
    reveal_strlit("\\long \\unsigned \\int");
    reveal_strlit("\\unsigned \\long \\int");
    reveal_strlit("\\signed \\long \\int");
    reveal_strlit("\\short \\int");
    reveal_strlit("\\long \\long");
    reveal_strlit("\\long \\int");
    reveal_strlit("\\unsigned \\char");
    reveal_strlit("\\signed \\char");
    reveal_strlit("\\unsigned \\short");
    reveal_strlit("\\signed \\short");
    reveal_strlit("\\unsigned \\long");
    reveal_strlit("\\signed \\long");
    reveal_strlit("\\unsigned \\int");
    reveal_strlit("\\signed \\int");
    reveal_strlit("\\long \\double");
    reveal_strlit("\\unsigned");
    reveal_strlit("\\signed");
    reveal_strlit("\\int");
    reveal_strlit("\\short");
    reveal_strlit("\\char");
    reveal_strlit("\\long");
    reveal_strlit("\\float");
    reveal_strlit("\\double");
    reveal_strlit("\\bool");
    reveal_strlit("\\void");
    lemma_replaced_plain(s, "\\unsigned \\long \\long \\int"@, "u64"@);
    lemma_replaced_plain(s, "\\signed \\long \\long \\int"@, "i64"@);
    lemma_replaced_plain(s, "\\long \\long \\int"@, "i64"@);
    lemma_replaced_plain(s, "\\unsigned \\short \\int"@, "u16"@);
    lemma_replaced_plain(s, "\\signed \\short \\int"@, "i16"@);
    lemma_replaced_plain(s, "\\unsigned \\long \\long"@, "u64"@);
    lemma_replaced_plain(s, "\\signed \\long \\long"@, "i64"@);
    lemma_replaced_plain(s, "\\long \\unsigned \\int"@, "u32"@);
    lemma_replaced_plain(s, "\\unsigned \\long \\int"@, "u32"@);
    lemma_replaced_plain(s, "\\signed \\long \\int"@, "i32"@);
    lemma_replaced_plain(s, "\\short \\int"@, "i16"@);
    lemma_replaced_plain(s, "\\long \\long"@, "i64"@);
    lemma_replaced_plain(s, "\\long \\int"@, "i32"@);
    lemma_replaced_plain(s, "\\unsigned \\char"@, "u8"@);
    lemma_replaced_plain(s, "\\signed \\char"@, "i8"@);
    lemma_replaced_plain(s, "\\unsigned \\short"@, "u16"@);
    lemma_replaced_plain(s, "\\signed \\short"@, "i16"@);
    lemma_replaced_plain(s, "\\unsigned \\long"@, "u32"@);
    lemma_replaced_plain(s, "\\signed \\long"@, "i32"@);
    lemma_replaced_plain(s, "\\unsigned \\int"@, "u32"@);
    lemma_replaced_plain(s, "\\signed \\int"@, "i32"@);
    lemma_replaced_plain(s, "\\long \\double"@, "f64"@);
    lemma_replaced_plain(s, "\\unsigned"@, "u32"@);
    lemma_replaced_plain(s, "\\signed"@, "i32"@);
    lemma_replaced_plain(s, "\\int"@, "i32"@);
    lemma_replaced_plain(s, "\\short"@, "i16"@);
    lemma_replaced_plain(s, "\\char"@, "i8"@);
    lemma_replaced_plain(s, "\\long"@, "i32"@);
    lemma_replaced_plain(s, "\\float"@, "f32"@);
    lemma_replaced_plain(s, "\\double"@, "f64"@);
    lemma_replaced_plain(s, "\\bool"@, "i8"@);
    lemma_replaced_plain(s, "\\void"@, "v0"@);
}

/// No occurrence of `q` anywhere in `s`.
spec fn free_of(s: Seq<char>, q: Seq<char>) -> bool {
    forall|i: int| 0 <= i && i + q.len() <= s.len() ==> #[trigger] s.subrange(i, i + q.len()) != q
}

/// A keyword pattern of the folding: no digit in it, and it does not end
/// with a letter that starts a short type name.
spec fn keyword_like(q: Seq<char>) -> bool {
    &&& q.len() > 0
    &&& forall|i: int| 0 <= i < q.len() ==> !is_digit(#[trigger] q[i])
    &&& q.last() != 'u' && q.last() != 'i' && q.last() != 'f' && q.last() != 'v'
}

/// A short type name: a letter that starts type names, then only digits.
spec fn type_name_like(t: Seq<char>) -> bool {
    &&& t.len() >= 2
    &&& (t[0] == 'u' || t[0] == 'i' || t[0] == 'f' || t[0] == 'v')
    &&& forall|i: int| 1 <= i < t.len() ==> is_digit(#[trigger] t[i])
}

spec fn is_digit(c: char) -> bool {
    '0' <= c && c <= '9'
}

/// A text that cannot be part of a keyword pattern: it holds a digit or ends
/// with the first letter of `t`.
spec fn marked(x: Seq<char>, t: Seq<char>) -> bool {
    (exists|m: int| 0 <= m < x.len() && is_digit(#[trigger] x[m])) || (x.len() > 0 && x.last() == t[0])
}

/// Each prefix of a replaced text is the same prefix of the original text, or
/// it is marked by a replacement.
proof fn lemma_replaced_prefix(s: Seq<char>, p: Seq<char>, t: Seq<char>, k: int)
    requires
        type_name_like(t),
        0 <= k <= replaced(s, p, t).len(),
    ensures
        (k <= s.len() && replaced(s, p, t).take(k) == s.take(k)) || marked(replaced(s, p, t).take(k), t),
    decreases s.len(),
{
    let r = replaced(s, p, t);
    if p.len() == 0 || s.len() < p.len() {
    } else if s.take(p.len() as int) == p {
        if k >= 2 {
            assert(r.take(k)[1] == t[1]);
            assert(is_digit(r.take(k)[1]));
        } else if k == 1 {
            assert(r.take(k).last() == t[0]);
        } else {
            assert(r.take(k) =~= s.take(k));
        }
    } else {
        let r2 = replaced(s.skip(1), p, t);
        assert(r == seq![s[0]] + r2);
        if k == 0 {
            assert(r.take(k) =~= s.take(k));
        } else {
            lemma_replaced_prefix(s.skip(1), p, t, k - 1);
            if k - 1 <= s.skip(1).len() && r2.take(k - 1) == s.skip(1).take(k - 1) {
                assert(r.take(k) =~= seq![s[0]] + r2.take(k - 1));
                assert(s.take(k) =~= seq![s[0]] + s.skip(1).take(k - 1));
            } else {
                let x = r2.take(k - 1);
                assert(r.take(k) =~= seq![s[0]] + x);
                if exists|m: int| 0 <= m < x.len() && is_digit(#[trigger] x[m]) {
                    let m = choose|m: int| 0 <= m < x.len() && is_digit(#[trigger] x[m]);
                    assert(r.take(k)[m + 1] == x[m]);
                } else {
                    assert(r.take(k).last() == x.last());
                }
            }
        }
    }
}

/// A marked text is no keyword pattern.
proof fn lemma_marked_not_keyword(x: Seq<char>, q: Seq<char>, t: Seq<char>)
    requires
        keyword_like(q),
        marked(x, t),
        type_name_like(t),
        x.len() == q.len(),
    ensures
        x != q,
{
    if exists|m: int| 0 <= m < x.len() && is_digit(#[trigger] x[m]) {
        let m = choose|m: int| 0 <= m < x.len() && is_digit(#[trigger] x[m]);
        if x == q {
            assert(!is_digit(q[m]));
        }
    }
}

/// Replacing `p` by a short type name creates no keyword pattern, and leaves
/// no occurrence of `p` itself.
proof fn lemma_replaced_free(s: Seq<char>, p: Seq<char>, t: Seq<char>, q: Seq<char>)
    requires
        keyword_like(q),
        type_name_like(t),
        p.len() > 0,
        free_of(s, q) || q == p,
    ensures
        free_of(replaced(s, p, t), q),
    decreases s.len(),
{
    let r = replaced(s, p, t);
    if s.len() < p.len() {
        if q == p {
            assert forall|i: int| 0 <= i && i + q.len() <= r.len() implies #[trigger] r.subrange(i, i + q.len()) != q by {}
        }
    } else if s.take(p.len() as int) == p {
        let r2 = replaced(s.skip(p.len() as int), p, t);
        assert(free_of(s.skip(p.len() as int), q) || q == p) by {
            if free_of(s, q) {
                assert forall|i: int| 0 <= i && i + q.len() <= s.skip(p.len() as int).len() implies #[trigger] s.skip(p.len() as int).subrange(i, i + q.len()) != q by {
                    assert(s.skip(p.len() as int).subrange(i, i + q.len()) =~= s.subrange(i + p.len(), i + p.len() + q.len()));
                }
            }
        }
        lemma_replaced_free(s.skip(p.len() as int), p, t, q);
        assert(r == t + r2);
        assert forall|i: int| 0 <= i && i + q.len() <= r.len() implies #[trigger] r.subrange(i, i + q.len()) != q by {
            let w = r.subrange(i, i + q.len());
            if i >= t.len() {
                assert(w =~= r2.subrange(i - t.len(), i - t.len() + q.len()));
            } else if i >= 1 {
                assert(w[0] == t[i]);
                assert(marked(w, t));
                lemma_marked_not_keyword(w, q, t);
            } else if q.len() >= 2 {
                assert(w[1] == t[1]);
                assert(marked(w, t));
                lemma_marked_not_keyword(w, q, t);
            } else {
                assert(w.last() == t[0]);
                lemma_marked_not_keyword(w, q, t);
            }
        }
    } else {
        let r2 = replaced(s.skip(1), p, t);
        assert(free_of(s.skip(1), q) || q == p) by {
            if free_of(s, q) {
                assert forall|i: int| 0 <= i && i + q.len() <= s.skip(1).len() implies #[trigger] s.skip(1).subrange(i, i + q.len()) != q by {
                    assert(s.skip(1).subrange(i, i + q.len()) =~= s.subrange(i + 1, i + 1 + q.len()));
                }
            }
        }
        lemma_replaced_free(s.skip(1), p, t, q);
        assert(r == seq![s[0]] + r2);
        assert forall|i: int| 0 <= i && i + q.len() <= r.len() implies #[trigger] r.subrange(i, i + q.len()) != q by {
            let w = r.subrange(i, i + q.len());
            if i >= 1 {
                assert(w =~= r2.subrange(i - 1, i - 1 + q.len()));
            } else {
                lemma_replaced_prefix(s.skip(1), p, t, q.len() - 1);
                let x = r2.take(q.len() - 1);
                assert(w =~= seq![s[0]] + x);
                if q.len() - 1 <= s.skip(1).len() && x == s.skip(1).take(q.len() - 1) {
                    assert(w =~= s.subrange(0, q.len() as int));
                    assert(s.take(q.len() as int) =~= s.subrange(0, q.len() as int));
                } else {
                    if exists|m: int| 0 <= m < x.len() && is_digit(#[trigger] x[m]) {
                        let m = choose|m: int| 0 <= m < x.len() && is_digit(#[trigger] x[m]);
                        assert(w[m + 1] == x[m]);
                    } else {
                        assert(w.last() == x.last());
                    }
                    lemma_marked_not_keyword(w, q, t);
                }
            }
        }
    }
}

/// Replacing a pattern that does not occur changes nothing.
proof fn lemma_replaced_absent(s: Seq<char>, p: Seq<char>, t: Seq<char>)
    requires
        p.len() > 0,
        free_of(s, p),
    ensures
        replaced(s, p, t) == s,
    decreases s.len(),
{
    if s.len() >= p.len() {
        let i0: int = 0;
        assert(s.subrange(i0, i0 + p.len()) != p);
        assert(s.subrange(i0, i0 + p.len()) =~= s.take(p.len() as int));
        assert forall|i: int| 0 <= i && i + p.len() <= s.skip(1).len() implies #[trigger] s.skip(1).subrange(i, i + p.len()) != p by {
            assert(s.skip(1).subrange(i, i + p.len()) =~= s.subrange(i + 1, i + 1 + p.len()));
        }
        lemma_replaced_absent(s.skip(1), p, t);
        assert(s.take(p.len() as int) != p);
        assert(replaced(s, p, t) == seq![s[0]] + replaced(s.skip(1), p, t));
        assert(seq![s[0]] + s.skip(1) =~= s);
    }
}

/// The keyword pattern of the `k`-th folding step.
spec fn fold_pattern(k: int) -> Seq<char> {
    if k == 0 {
        "\\unsigned \\long \\long \\int"@
    } else if k == 1 {
        "\\signed \\long \\long \\int"@
    } else if k == 2 {
        "\\long \\long \\int"@
    } else if k == 3 {
        "\\unsigned \\short \\int"@
    } else if k == 4 {
        "\\signed \\short \\int"@
    } else if k == 5 {
        "\\unsigned \\long \\long"@
    } else if k == 6 {
        "\\signed \\long \\long"@
    } else if k == 7 {
        "\\long \\unsigned \\int"@
    } else if k == 8 {
        "\\unsigned \\long \\int"@
    } else if k == 9 {
        "\\signed \\long \\int"@
    } else if k == 10 {
        "\\short \\int"@
    } else if k == 11 {
        "\\long \\long"@
    } else if k == 12 {
        "\\long \\int"@
    } else if k == 13 {
        "\\unsigned \\char"@
    } else if k == 14 {
        "\\signed \\char"@
    } else if k == 15 {
        "\\unsigned \\short"@
    } else if k == 16 {
        "\\signed \\short"@
    } else if k == 17 {
        "\\unsigned \\long"@
    } else if k == 18 {
        "\\signed \\long"@
    } else if k == 19 {
        "\\unsigned \\int"@
    } else if k == 20 {
        "\\signed \\int"@
    } else if k == 21 {
        "\\long \\long"@
    } else if k == 22 {
        "\\long \\double"@
    } else if k == 23 {
        "\\unsigned"@
    } else if k == 24 {
        "\\signed"@
    } else if k == 25 {
        "\\int"@
    } else if k == 26 {
        "\\short"@
    } else if k == 27 {
        "\\char"@
    } else if k == 28 {
        "\\long"@
    } else if k == 29 {
        "\\float"@
    } else if k == 30 {
        "\\double"@
    } else if k == 31 {
        "\\bool"@
    } else {
        "\\void"@
    }
}

/// The short type name of the `k`-th folding step.
spec fn fold_text(k: int) -> Seq<char> {
    if k == 0 {
        "u64"@
    } else if k == 1 {
        "i64"@
    } else if k == 2 {
        "i64"@
    } else if k == 3 {
        "u16"@
    } else if k == 4 {
        "i16"@
    } else if k == 5 {
        "u64"@
    } else if k == 6 {
        "i64"@
    } else if k == 7 {
        "u32"@
    } else if k == 8 {
        "u32"@
    } else if k == 9 {
        "i32"@
    } else if k == 10 {
        "i16"@
    } else if k == 11 {
        "i64"@
    } else if k == 12 {
        "i32"@
    } else if k == 13 {
        "u8"@
    } else if k == 14 {
        "i8"@
    } else if k == 15 {
        "u16"@
    } else if k == 16 {
        "i16"@
    } else if k == 17 {
        "u32"@
    } else if k == 18 {
        "i32"@
    } else if k == 19 {
        "u32"@
    } else if k == 20 {
        "i32"@
    } else if k == 21 {
        "i64"@
    } else if k == 22 {
        "f64"@
    } else if k == 23 {
        "u32"@
    } else if k == 24 {
        "i32"@
    } else if k == 25 {
        "i32"@
    } else if k == 26 {
        "i16"@
    } else if k == 27 {
        "i8"@
    } else if k == 28 {
        "i32"@
    } else if k == 29 {
        "f32"@
    } else if k == 30 {
        "f64"@
    } else if k == 31 {
        "i8"@
    } else {
        "v0"@
    }
}

/// The folding steps from the `k`-th on.
spec fn fold_from(s: Seq<char>, k: int) -> Seq<char>
    decreases 33 - k,
{
    if k >= 33 || k < 0 {
        s
    } else {
        fold_from(replaced(s, fold_pattern(k), fold_text(k)), k + 1)
    }
}

proof fn lemma_fold_steps_shape(k: int)
    requires
        0 <= k < 33,
    ensures
        keyword_like(fold_pattern(k)),
        type_name_like(fold_text(k)),
{
    reveal_strlit("\\unsigned \\long \\long \\int");
    reveal_strlit("u64");
    reveal_strlit("\\signed \\long \\long \\int");
    reveal_strlit("i64");
    reveal_strlit("\\long \\long \\int");
    reveal_strlit("i64");
    reveal_strlit("\\unsigned \\short \\int");
    reveal_strlit("u16");
    reveal_strlit("\\signed \\short \\int");
    reveal_strlit("i16");
    reveal_strlit("\\unsigned \\long \\long");
    reveal_strlit("u64");
    reveal_strlit("\\signed \\long \\long");
    reveal_strlit("i64");
    reveal_strlit("\\long \\unsigned \\int");
    reveal_strlit("u32");
    reveal_strlit("\\unsigned \\long \\int");
    reveal_strlit("u32");
    reveal_strlit("\\signed \\long \\int");
    reveal_strlit("i32");
    reveal_strlit("\\short \\int");
    reveal_strlit("i16");
    reveal_strlit("\\long \\long");
    reveal_strlit("i64");
    reveal_strlit("\\long \\int");
    reveal_strlit("i32");
    reveal_strlit("\\unsigned \\char");
    reveal_strlit("u8");
    reveal_strlit("\\signed \\char");
    reveal_strlit("i8");
    reveal_strlit("\\unsigned \\short");
    reveal_strlit("u16");
    reveal_strlit("\\signed \\short");
    reveal_strlit("i16");
    reveal_strlit("\\unsigned \\long");
    reveal_strlit("u32");
    reveal_strlit("\\signed \\long");
    reveal_strlit("i32");
    reveal_strlit("\\unsigned \\int");
    reveal_strlit("u32");
    reveal_strlit("\\signed \\int");
    reveal_strlit("i32");
    reveal_strlit("\\long \\long");
    reveal_strlit("i64");
    reveal_strlit("\\long \\double");
    reveal_strlit("f64");
    reveal_strlit("\\unsigned");
    reveal_strlit("u32");
    reveal_strlit("\\signed");
    reveal_strlit("i32");
    reveal_strlit("\\int");
    reveal_strlit("i32");
    reveal_strlit("\\short");
    reveal_strlit("i16");
    reveal_strlit("\\char");
    reveal_strlit("i8");
    reveal_strlit("\\long");
    reveal_strlit("i32");
    reveal_strlit("\\float");
    reveal_strlit("f32");
    reveal_strlit("\\double");
    reveal_strlit("f64");
    reveal_strlit("\\bool");
    reveal_strlit("i8");
    reveal_strlit("\\void");
    reveal_strlit("v0");
    assert(forall|i: int| 0 <= i < fold_pattern(k).len() ==> !is_digit(#[trigger] fold_pattern(k)[i]));
    assert(forall|i: int| 1 <= i < fold_text(k).len() ==> is_digit(#[trigger] fold_text(k)[i]));
}

/// Later steps keep a text free of a keyword pattern.
proof fn lemma_fold_keeps_free(s: Seq<char>, k: int, q: Seq<char>)
    requires
        0 <= k <= 33,
        keyword_like(q),
        free_of(s, q),
    ensures
        free_of(fold_from(s, k), q),
    decreases 33 - k,
{
    if k < 33 {
        lemma_fold_steps_shape(k);
        lemma_replaced_free(s, fold_pattern(k), fold_text(k), q);
        lemma_fold_keeps_free(replaced(s, fold_pattern(k), fold_text(k)), k + 1, q);
    }
}

/// After the steps from `k` on, none of their patterns occurs.
proof fn lemma_fold_clears(s: Seq<char>, k: int, j: int)
    requires
        0 <= k <= j < 33,
    ensures
        free_of(fold_from(s, k), fold_pattern(j)),
    decreases 33 - k,
{
    lemma_fold_steps_shape(k);
    lemma_fold_steps_shape(j);
    let s1 = replaced(s, fold_pattern(k), fold_text(k));
    if k == j {
        lemma_replaced_free(s, fold_pattern(k), fold_text(k), fold_pattern(k));
        lemma_fold_keeps_free(s1, k + 1, fold_pattern(j));
    } else {
        lemma_fold_clears(s1, k + 1, j);
    }
}

/// The steps from `k` on leave a text without their patterns unchanged.
proof fn lemma_fold_fixed(s: Seq<char>, k: int)
    requires
        0 <= k <= 33,
        forall|j: int| k <= j < 33 ==> free_of(s, #[trigger] fold_pattern(j)),
    ensures
        fold_from(s, k) == s,
    decreases 33 - k,
{
    if k < 33 {
        lemma_fold_steps_shape(k);
        lemma_replaced_absent(s, fold_pattern(k), fold_text(k));
        lemma_fold_fixed(s, k + 1);
    }
}

proof fn lemma_shrunk_is_fold(s: Seq<char>)
    ensures
        shrunk(s) == fold_from(s, 0),
{
    reveal(shrunk);
    reveal_with_fuel(fold_from, 34);
}

/// Folding the keywords twice gives the same text as folding them once: no
/// keyword pattern is left after the folding, and no short type name can
/// complete one.
pub proof fn law_shrunk_idempotent(s: Seq<char>)
    ensures
        shrunk(shrunk(s)) == shrunk(s),
{
    let x = shrunk(s);
    lemma_shrunk_is_fold(s);
    lemma_shrunk_is_fold(x);
    assert forall|j: int| 0 <= j < 33 implies free_of(x, #[trigger] fold_pattern(j)) by {
        lemma_fold_clears(s, 0, j);
    }
    lemma_fold_fixed(x, 0);
}

/// Hoisting a nested class only appends to the hoisted text: what was
/// hoisted before stays at its start.
pub proof fn law_hoisting_appends(st: TState, code: Seq<char>)
    ensures
        text_prefix(st.nested, st.with_nested(code).nested),
{
    lemma_text_prefix_extend(st.nested, code + ";\n"@);
    assert(st.with_nested(code).nested =~= st.nested + (code + ";\n"@));
}

/// The names that `d` does not hold.
pub open spec fn not_in(d: Seq<Seq<char>>) -> spec_fn(Seq<char>) -> bool {
    |n: Seq<char>| !d.contains(n)
}

/// A struct defined with a body never gets an empty class: the section of
/// empty classes is the one written for the declared names that were never
/// defined, and it is empty when all of them were.
pub proof fn law_empty_classes_skip_defined(e: Seq<Seq<char>>, d: Seq<Seq<char>>)
    ensures
        empty_decls_text(e, d) == empty_decls_text(e.filter(not_in(d)), Seq::<Seq<char>>::empty()),
        (forall|i: int| 0 <= i < e.len() ==> d.contains(#[trigger] e[i])) ==> empty_decls_text(e, d) == Seq::<char>::empty(),
    decreases e.len(),
{
    let p = not_in(d);
    if e.len() == 0 {
        assert(e.filter(p) == e) by {
            reveal(Seq::filter);
        }
    } else {
        assert forall|i: int| 0 <= i < e.drop_last().len() && (forall|k: int| 0 <= k < e.len() ==> d.contains(#[trigger] e[k])) implies d.contains(#[trigger] e.drop_last()[i]) by {
            assert(e.drop_last()[i] == e[i]);
        }
        law_empty_classes_skip_defined(e.drop_last(), d);
        let f = e.drop_last().filter(p);
        assert(p(e.last()) == !d.contains(e.last()));
        assert(e.filter(p) == if p(e.last()) { f.push(e.last()) } else { f }) by {
            reveal(Seq::filter);
        }
        if !d.contains(e.last()) {
            let g = f.push(e.last());
            assert(g.drop_last() =~= f);
            assert(g.last() == e.last());
            assert(!Seq::<Seq<char>>::empty().contains(e.last()));
            assert(empty_decls_text(g, Seq::<Seq<char>>::empty()) == empty_decls_text(f, Seq::<Seq<char>>::empty()) + "class "@ + e.last() + " {};\n"@);
        }
        if forall|k: int| 0 <= k < e.len() ==> d.contains(#[trigger] e[k]) {
            assert(d.contains(e[e.len() - 1]));
        }
    }
}

/// Each declared name adds one line `class NAME {};` to the section of
/// empty classes, after the lines of the names before it, unless a struct
/// of that name was defined, in which case it adds nothing.
pub proof fn law_empty_class_lines(e: Seq<Seq<char>>, d: Seq<Seq<char>>, n: Seq<char>)
    ensures
        !d.contains(n) ==> empty_decls_text(e.push(n), d) == empty_decls_text(e, d) + "class "@ + n + " {};\n"@,
        d.contains(n) ==> empty_decls_text(e.push(n), d) == empty_decls_text(e, d),
        empty_decls_text(Seq::<Seq<char>>::empty(), d) == Seq::<char>::empty(),
{
    assert(e.push(n).drop_last() =~= e);
}

/// A case label in a switch body starts new cases after the ones before it:
/// the cases collected so far are kept, in order, at the start.
pub proof fn law_labeled_statement_keeps_cases(items: Seq<BlockItem>, l: LabeledStatement)
    ensures
        ({
            let (c, d) = collect_cases(items);
            let (c2, d2) = collect_cases(items.push(BlockItem::Statement(Statement::Labeled(l))));
            &&& c.len() <= c2.len()
            &&& forall|i: int| 0 <= i < c.len() ==> c2[i] == c[i]
        }),
{
    let x = items.push(BlockItem::Statement(Statement::Labeled(l)));
    assert(x.drop_last() =~= items);
    assert(x.last() == BlockItem::Statement(Statement::Labeled(l)));
}

/// A statement without a label in a switch body belongs to the most recent
/// case: it is appended to that case's statements, every earlier case and
/// the default statement stay as they were.
pub proof fn law_unlabeled_statement_joins_last_case(items: Seq<BlockItem>, s: Statement)
    requires
        !(s is Labeled),
        collect_cases(items).0.len() > 0,
    ensures
        ({
            let (c, d) = collect_cases(items);
            let (c2, d2) = collect_cases(items.push(BlockItem::Statement(s)));
            &&& c2.len() == c.len()
            &&& d2 == d
            &&& c2.last() == (c.last().0, c.last().1.push(s))
            &&& forall|i: int| 0 <= i < c.len() - 1 ==> c2[i] == c[i]
        }),
{
    let x = items.push(BlockItem::Statement(s));
    assert(x.drop_last() =~= items);
    assert(x.last() == BlockItem::Statement(s));
}

/// The storage classes `static`, `_Thread_local` and `register` are written
/// as nothing and never make a specifier fail.
pub proof fn law_ignored_storage_classes(sc: StorageClassSpecifier, st: TState, o: Seq<Seq<char>>, is_decl: bool)
    requires
        sc is Static || sc is ThreadLocal || sc is Register,
    ensures
        storage_text(sc) == Some(Seq::<char>::empty()),
        decl_spec_out(DeclarationSpecifier::StorageClass(sc), st, o, is_decl) == (Some(Seq::<char>::empty()), st),
{
    unfold_decl_spec_out(DeclarationSpecifier::StorageClass(sc), st, o, is_decl);
}

/// Adding `static` (or `_Thread_local`, or `register`) to the specifiers of
/// a declaration or a function definition keeps it translatable exactly
/// when it was: the specifier text only gains a space, and the state is the
/// same.
pub proof fn law_static_keeps_declaration(s: Seq<DeclarationSpecifier>, sc: StorageClassSpecifier, is_fn_def: bool, top: bool, acc: Seq<char>, st: TState, o: Seq<Seq<char>>)
    requires
        sc is Static || sc is ThreadLocal || sc is Register,
    ensures
        ({
            let (r, st1) = decl_specs_out(s, is_fn_def, top, st, o);
            decl_specs_out(s.push(DeclarationSpecifier::StorageClass(sc)), is_fn_def, top, st, o) == (match r {
                None => None,
                Some(f) => Some(DeclFlags { spec: f.spec + " "@, ..f }),
            }, st1)
        }),
        ({
            let (r, st1) = ds_list_out(s, acc, st, o);
            ds_list_out(s.push(DeclarationSpecifier::StorageClass(sc)), acc, st, o) == (match r {
                None => None,
                Some(a) => Some(a + " "@),
            }, st1)
        }),
{
    let x = s.push(DeclarationSpecifier::StorageClass(sc));
    assert(x.drop_last() =~= s);
    unfold_decl_specs_out(x, is_fn_def, top, st, o);
    unfold_ds_list_out(x, acc, st, o);
    let (r, st1) = decl_specs_out(s, is_fn_def, top, st, o);
    if let Some(f) = r {
        unfold_decl_spec_out(DeclarationSpecifier::StorageClass(sc), st1, o, !is_fn_def && !f.is_typedef && top);
    }
    let (r2, st2) = ds_list_out(s, acc, st, o);
    unfold_decl_spec_out(DeclarationSpecifier::StorageClass(sc), st2, o, false);
    reveal_strlit("\\typedef");
    reveal_strlit("\\extern");
    assert(Seq::<char>::empty() != "\\typedef"@);
    assert(Seq::<char>::empty() != "\\extern"@);
    assert(Seq::<char>::empty() + " "@ =~= " "@);
}

/// Each binary operator is written with its own C symbol between the texts
/// of its operands (an index as `l[r]`).
pub proof fn law_binary_operator_symbols(l: Seq<char>, r: Seq<char>)
    ensures
        binary_text(BinaryOperator::Index, l, r) == l + "["@ + r + "]"@,
        binary_text(BinaryOperator::Multiply, l, r) == l + "*"@ + r,
        binary_text(BinaryOperator::Divide, l, r) == l + "/"@ + r,
        binary_text(BinaryOperator::Modulo, l, r) == l + "%"@ + r,
        binary_text(BinaryOperator::Plus, l, r) == l + "+"@ + r,
        binary_text(BinaryOperator::Minus, l, r) == l + "-"@ + r,
        binary_text(BinaryOperator::ShiftLeft, l, r) == l + "<<"@ + r,
        binary_text(BinaryOperator::ShiftRight, l, r) == l + ">>"@ + r,
        binary_text(BinaryOperator::Less, l, r) == l + "<"@ + r,
        binary_text(BinaryOperator::Greater, l, r) == l + ">"@ + r,
        binary_text(BinaryOperator::LessOrEqual, l, r) == l + "<="@ + r,
        binary_text(BinaryOperator::GreaterOrEqual, l, r) == l + ">="@ + r,
        binary_text(BinaryOperator::Equals, l, r) == l + "=="@ + r,
        binary_text(BinaryOperator::NotEquals, l, r) == l + "!="@ + r,
        binary_text(BinaryOperator::BitwiseAnd, l, r) == l + "&"@ + r,
        binary_text(BinaryOperator::BitwiseXor, l, r) == l + "^"@ + r,
        binary_text(BinaryOperator::BitwiseOr, l, r) == l + "|"@ + r,
        binary_text(BinaryOperator::LogicalAnd, l, r) == l + "&"@ + r,
        binary_text(BinaryOperator::LogicalOr, l, r) == l + "|"@ + r,
        binary_text(BinaryOperator::Assign, l, r) == l + "="@ + r,
        binary_text(BinaryOperator::AssignMultiply, l, r) == l + "*="@ + r,
        binary_text(BinaryOperator::AssignDivide, l, r) == l + "/="@ + r,
        binary_text(BinaryOperator::AssignModulo, l, r) == l + "%="@ + r,
        binary_text(BinaryOperator::AssignPlus, l, r) == l + "+="@ + r,
        binary_text(BinaryOperator::AssignMinus, l, r) == l + "-="@ + r,
        binary_text(BinaryOperator::AssignShiftLeft, l, r) == l + "<<="@ + r,
        binary_text(BinaryOperator::AssignShiftRight, l, r) == l + ">>="@ + r,
        binary_text(BinaryOperator::AssignBitwiseAnd, l, r) == l + "&="@ + r,
        binary_text(BinaryOperator::AssignBitwiseXor, l, r) == l + "^="@ + r,
        binary_text(BinaryOperator::AssignBitwiseOr, l, r) == l + "|="@ + r,
{
}

/// The first and last characters and the length of an operator symbol.
spec fn symbol_key(s: Seq<char>) -> (char, char, nat) {
    (s[0], s[s.len() - 1], s.len())
}

/// No two operators other than the logical ones are written with the same
/// symbol, so the text tells which operator it came from.
pub proof fn law_binary_symbols_distinct(a: BinaryOperator, b: BinaryOperator)
    requires
        a != b,
        !(a is LogicalAnd || a is LogicalOr),
        !(b is LogicalAnd || b is LogicalOr),
    ensures
        binary_symbol(a) != binary_symbol(b),
{
    reveal_strlit("!=");
    reveal_strlit("%");
    reveal_strlit("%=");
    reveal_strlit("&");
    reveal_strlit("&=");
    reveal_strlit("*");
    reveal_strlit("*=");
    reveal_strlit("+");
    reveal_strlit("+=");
    reveal_strlit("-");
    reveal_strlit("-=");
    reveal_strlit("/");
    reveal_strlit("/=");
    reveal_strlit("<");
    reveal_strlit("<<");
    reveal_strlit("<<=");
    reveal_strlit("<=");
    reveal_strlit("=");
    reveal_strlit("==");
    reveal_strlit(">");
    reveal_strlit(">=");
    reveal_strlit(">>");
    reveal_strlit(">>=");
    reveal_strlit("^");
    reveal_strlit("^=");
    reveal_strlit("|");
    reveal_strlit("|=");
    reveal_strlit("[");
    let ka = symbol_key(binary_symbol(a));
    let kb = symbol_key(binary_symbol(b));
    match a {
        BinaryOperator::Index => {},
        BinaryOperator::Multiply => {},
        BinaryOperator::Divide => {},
        BinaryOperator::Modulo => {},
        BinaryOperator::Plus => {},
        BinaryOperator::Minus => {},
        BinaryOperator::ShiftLeft => {},
        BinaryOperator::ShiftRight => {},
        BinaryOperator::Less => {},
        BinaryOperator::Greater => {},
        BinaryOperator::LessOrEqual => {},
        BinaryOperator::GreaterOrEqual => {},
        BinaryOperator::Equals => {},
        BinaryOperator::NotEquals => {},
        BinaryOperator::BitwiseAnd => {},
        BinaryOperator::BitwiseXor => {},
        BinaryOperator::BitwiseOr => {},
        BinaryOperator::Assign => {},
        BinaryOperator::AssignMultiply => {},
        BinaryOperator::AssignDivide => {},
        BinaryOperator::AssignModulo => {},
        BinaryOperator::AssignPlus => {},
        BinaryOperator::AssignMinus => {},
        BinaryOperator::AssignShiftLeft => {},
        BinaryOperator::AssignShiftRight => {},
        BinaryOperator::AssignBitwiseAnd => {},
        BinaryOperator::AssignBitwiseXor => {},
        BinaryOperator::AssignBitwiseOr => {},
        _ => {},
    }
    match b {
        BinaryOperator::Index => {},
        BinaryOperator::Multiply => {},
        BinaryOperator::Divide => {},
        BinaryOperator::Modulo => {},
        BinaryOperator::Plus => {},
        BinaryOperator::Minus => {},
        BinaryOperator::ShiftLeft => {},
        BinaryOperator::ShiftRight => {},
        BinaryOperator::Less => {},
        BinaryOperator::Greater => {},
        BinaryOperator::LessOrEqual => {},
        BinaryOperator::GreaterOrEqual => {},
        BinaryOperator::Equals => {},
        BinaryOperator::NotEquals => {},
        BinaryOperator::BitwiseAnd => {},
        BinaryOperator::BitwiseXor => {},
        BinaryOperator::BitwiseOr => {},
        BinaryOperator::Assign => {},
        BinaryOperator::AssignMultiply => {},
        BinaryOperator::AssignDivide => {},
        BinaryOperator::AssignModulo => {},
        BinaryOperator::AssignPlus => {},
        BinaryOperator::AssignMinus => {},
        BinaryOperator::AssignShiftLeft => {},
        BinaryOperator::AssignShiftRight => {},
        BinaryOperator::AssignBitwiseAnd => {},
        BinaryOperator::AssignBitwiseXor => {},
        BinaryOperator::AssignBitwiseOr => {},
        _ => {},
    }
    assert(ka != kb);
}

/// The text of a translated expression is wrapped in parentheses.
pub proof fn law_expression_parenthesized(e: Expression, st: TState, o: Seq<Seq<char>>)
    ensures
        expr_out(e, st, o).0 matches Some(x) ==> x.len() >= 2 && x[0] == '(' && x[x.len() - 1] == ')',
{
    unfold_expr_out(e, st, o);
    reveal_strlit("(");
    reveal_strlit(")");
}

/// An expression made of parts cannot be written when one of its parts, taken
/// in order, cannot: no partial text comes out.
pub proof fn law_expression_parts(e: Expression, st: TState, o: Seq<Seq<char>>)
    ensures
        e matches Expression::Member(op, inner, id) ==> (expr_out(*inner, st, o).0 is None ==> expr_np_out(e, st, o).0 is None),
        e matches Expression::UnaryOperator(op, inner) ==> (expr_out(*inner, st, o).0 is None ==> expr_np_out(e, st, o).0 is None),
        e matches Expression::BinaryOperator(op, lhs, rhs) ==> ((expr_out(*lhs, st, o).0 is None || expr_out(*rhs, expr_out(*lhs, st, o).1, o).0 is None) ==> expr_np_out(e, st, o).0 is None),
        e matches Expression::Cast(tn, inner) ==> ((type_name_out(tn, st, o).0 is None || expr_out(*inner, type_name_out(tn, st, o).1, o).0 is None) ==> expr_np_out(e, st, o).0 is None),
        e matches Expression::Call(callee, args) ==> (match *callee {
            Expression::Identifier(n) => (args_out(args@, args@.len() as int, "$I_"@ + n@ + "("@, st, o).0 is None ==> expr_np_out(e, st, o).0 is None),
            _ => expr_np_out(e, st, o).0 is None,
        }),
{
    unfold_expr_np_out(e, st, o);
}

proof fn lemma_args_prefix_none(s: Seq<Expression>, j: int, n: int, acc: Seq<char>, st: TState, o: Seq<Seq<char>>)
    requires
        0 <= j <= s.len(),
        args_out(s.take(j), n, acc, st, o).0 is None,
    ensures
        args_out(s, n, acc, st, o).0 is None,
    decreases s.len(),
{
    if s.len() == j {
        assert(s.take(j) =~= s);
    } else {
        assert(s.drop_last().take(j) =~= s.take(j));
        lemma_args_prefix_none(s.drop_last(), j, n, acc, st, o);
        unfold_args_out(s, n, acc, st, o);
    }
}

/// A call cannot be written when one of its arguments cannot be, after the
/// arguments before it were written: no partial argument list comes out.
pub proof fn law_call_argument_fails(args: Seq<Expression>, k: int, acc: Seq<char>, st: TState, o: Seq<Seq<char>>)
    requires
        0 <= k < args.len(),
    ensures
        ({
            let (r, st1) = args_out(args.take(k), args.len() as int, acc, st, o);
            (r is None || expr_out(args[k], st1, o).0 is None) ==> args_out(args, args.len() as int, acc, st, o).0 is None
        }),
{
    let n = args.len() as int;
    let p = args.take(k + 1);
    assert(p.drop_last() =~= args.take(k));
    assert(p.last() == args[k]);
    unfold_args_out(p, n, acc, st, o);
    let (r, st1) = args_out(args.take(k), n, acc, st, o);
    if r is None || expr_out(args[k], st1, o).0 is None {
        lemma_args_prefix_none(args, k + 1, n, acc, st, o);
    }
}

/// A switch cannot be written exactly when its chain of cases cannot, or it
/// has a default statement that cannot be written.
pub proof fn law_switch_outcome(sw: SwitchStatement, st: TState, o: Seq<Seq<char>>)
    ensures
        ({
            let (cases, dflt) = switch_cases(sw);
            let (id, st1) = st.warned_all(switch_warnings(sw)).draw(o);
            let (r, st2) = cases_out(sw, cases.len() as int, switch_head(id), st1, o);
            switch_out(sw, st, o).0 is None <==> (r is None || (dflt matches Some(d) && stmt_out(d, st2, o).0 is None))
        }),
{
    unfold_switch_out(sw, st, o);
}

/// A case of a switch cannot be written exactly when the switched expression
/// or its case expression cannot; a statement of the case that cannot be
/// written is left out and never makes the case fail.
pub proof fn law_case_outcome(sw: SwitchStatement, i: int, acc: Seq<char>, st: TState, o: Seq<Seq<char>>)
    requires
        0 <= i < switch_cases(sw).0.len(),
    ensures
        case_out(sw, i, acc, st, o).0 is None <==> (expr_out(*sw.expression, st, o).0 is None || expr_out(switch_cases(sw).0[i].0, expr_out(*sw.expression, st, o).1, o).0 is None),
{
    unfold_case_out(sw, i, acc, st, o);
}

/// The first `k` cases cannot be written exactly when the first `k - 1`
/// cannot, or case `k - 1` cannot after them.
pub proof fn law_cases_outcome(sw: SwitchStatement, k: int, acc: Seq<char>, st: TState, o: Seq<Seq<char>>)
    requires
        0 < k <= switch_cases(sw).0.len(),
    ensures
        ({
            let (r, st1) = cases_out(sw, k - 1, acc, st, o);
            cases_out(sw, k, acc, st, o).0 is None <==> (r is None || case_out(sw, k - 1, r->0, st1, o).0 is None)
        }),
{
    unfold_cases_out(sw, k, acc, st, o);
}

/// A string literal whose pieces each hold at least two characters, starting
/// and ending with a double quote, is written as their insides joined in one
/// pair of quotes.
pub proof fn law_string_literal_quoted(ps: Seq<String>)
    requires
        forall|i: int| 0 <= i < ps.len() ==> (#[trigger] ps[i])@.len() >= 2 && ps[i]@[0] == '"' && ps[i]@.last() == '"',
    ensures
        pieces_ok(ps),
{
    assert forall|i: int| 0 <= i < ps.len() implies piece_ok(#[trigger] ps[i]@) by {
        assert(ps[i]@[0] == '"');
        assert(('"' as u32) == 34);
    }
}

/// A do-while loop is written as its body followed by a while loop over the
/// same body: the body is translated once and its text used twice, and the
/// loop cannot be written when its body or its condition cannot.
pub proof fn law_do_while_body_twice(d: DoWhileStatement, st: TState, o: Seq<Seq<char>>)
    ensures
        ({
            let (b, st1) = stmt_out(*d.statement, st, o);
            let (c, st2) = expr_out(*d.expression, st1, o);
            &&& b is None ==> do_while_out(d, st, o) == (None::<Seq<char>>, st1)
            &&& (b is Some && c is None) ==> do_while_out(d, st, o) == (None::<Seq<char>>, st2)
            &&& b matches Some(bt) ==> (c matches Some(ct) ==> do_while_out(d, st, o) == (
                Some(bt + "while ("@ + ct + ") {\n"@ + bt + "}\n"@),
                st2,
            ))
        }),
{
    unfold_do_while_out(d, st, o);
}

/// A declaration specifier: an alignment cannot be written and is reported,
/// function specifiers, extensions and type qualifiers are written as
/// nothing, a storage class by its own text (`auto` is reported) and a type
/// specifier as a type specifier.
pub proof fn law_declaration_specifier(ds: DeclarationSpecifier, st: TState, o: Seq<Seq<char>>, is_decl: bool)
    ensures
        ds is Alignment ==> decl_spec_out(ds, st, o, is_decl) == (None::<Seq<char>>, st.warned("!! alignment keyword not supported"@)),
        (ds is Function || ds is Extension || ds is TypeQualifier) ==> decl_spec_out(ds, st, o, is_decl) == (Some(Seq::<char>::empty()), st),
        ds matches DeclarationSpecifier::StorageClass(sc) ==> decl_spec_out(ds, st, o, is_decl) == (storage_text(sc), if sc is Auto { st.warned("!! auto keyword not supported"@) } else { st }),
        ds matches DeclarationSpecifier::TypeSpecifier(ts) ==> decl_spec_out(ds, st, o, is_decl) == type_spec_out(ts, st, o, is_decl),
{
    unfold_decl_spec_out(ds, st, o, is_decl);
}

/// A statement: labels (with the statement they label), gotos and inline
/// assembly are written as nothing, a compound statement as its items in
/// order, and each kind of loop or branch by its own translation.
pub proof fn law_statement_kinds(s: Statement, st: TState, o: Seq<Seq<char>>)
    ensures
        (s is Labeled || s is Goto || s is Asm) ==> stmt_out(s, st, o) == (Some(Seq::<char>::empty()), st),
        s matches Statement::Compound(items) ==> stmt_out(s, st, o) == block_items_out(items@, Seq::<char>::empty(), st, o),
        s matches Statement::If(i) ==> stmt_out(s, st, o) == if_out(i, st, o),
        s matches Statement::Switch(sw) ==> stmt_out(s, st, o) == switch_out(sw, st, o),
        s matches Statement::While(w) ==> stmt_out(s, st, o) == while_out(w, st, o),
        s matches Statement::DoWhile(d) ==> stmt_out(s, st, o) == do_while_out(d, st, o),
        s matches Statement::For(f) ==> stmt_out(s, st, o) == for_out(f, st, o),
{
    unfold_stmt_out(s, st, o);
}

/// A compound statement cannot be written when one of its items cannot;
/// otherwise it is the texts of its items one after another.
pub proof fn law_block_items(s: Seq<BlockItem>, acc: Seq<char>, st: TState, o: Seq<Seq<char>>)
    ensures
        s.len() == 0 ==> block_items_out(s, acc, st, o) == (Some(acc), st),
        s.len() > 0 ==> ({
            let (r, st1) = block_items_out(s.drop_last(), acc, st, o);
            &&& r is None ==> block_items_out(s, acc, st, o) == (None::<Seq<char>>, st1)
            &&& r matches Some(t) ==> ({
                let (x, st2) = block_item_out(s.last(), st1, o);
                &&& x is None ==> block_items_out(s, acc, st, o) == (None::<Seq<char>>, st2)
                &&& x matches Some(x) ==> block_items_out(s, acc, st, o) == (Some(t + x), st2)
            })
        }),
{
    unfold_block_items_out(s, acc, st, o);
}

/// A declarator is the specifier text, the text before the name, the name
/// (`$I_` and the identifier, or the default for an abstract declarator) and
/// the text after it; a parenthesized inner declarator, or a part that cannot
/// be written, gives no text.
pub proof fn law_declarator_shape(d: Declarator, spec: Seq<char>, st: TState, o: Seq<Seq<char>>, default: Seq<char>)
    ensures
        d.kind is Declarator ==> declarator_out(d, spec, st, o, default) == (None::<Seq<char>>, st.warned("!! function pointer declarator not supported"@)),
        !(d.kind is Declarator) ==> ({
            let id = match d.kind {
                DeclaratorKind::Identifier(n) => "$I_"@ + n@,
                _ => default,
            };
            let (r, st1) = derived_out(d.derived@, id, st, o);
            &&& r is None ==> declarator_out(d, spec, st, o, default) == (None::<Seq<char>>, st1)
            &&& r matches Some((b, a)) ==> declarator_out(d, spec, st, o, default) == (Some(spec + b + id + a), st1)
        }),
{
    unfold_declarator_out(d, spec, st, o, default);
}

/// Each derived declarator adds to the text before or after the name: a
/// pointer, or an array without a size, adds `*` before it; an array with a
/// size adds the size in brackets before it; a parameter list adds the
/// parameters in parentheses after it. Nothing is written when an earlier
/// part cannot be.
pub proof fn law_derived_step(s: Seq<DerivedDeclarator>, id: Seq<char>, st: TState, o: Seq<Seq<char>>)
    requires
        s.len() > 0,
    ensures
        ({
            let (r, st1) = derived_out(s.drop_last(), id, st, o);
            &&& r is None ==> derived_out(s, id, st, o) == (None::<(Seq<char>, Seq<char>)>, st1)
            &&& r matches Some((b, a)) ==> ({
                &&& s.last() is Pointer ==> derived_out(s, id, st, o) == (Some((b + "*"@, a)), st1)
                &&& s.last() matches DerivedDeclarator::Array(size) ==> ((size is Unknown || size is VariableUnknown) ==> derived_out(s, id, st, o) == (Some((b + "*"@, a)), st1))
                &&& s.last() matches DerivedDeclarator::Array(size) ==> (match size {
                    ArraySize::VariableExpression(e) | ArraySize::StaticExpression(e) => {
                        let (x, st2) = array_size_out(*e, b, st1, o);
                        &&& x is None ==> derived_out(s, id, st, o) == (None::<(Seq<char>, Seq<char>)>, st2)
                        &&& x matches Some(b2) ==> derived_out(s, id, st, o) == (Some((b2, a)), st2)
                    },
                    _ => true,
                })
                &&& s.last() matches DerivedDeclarator::Function(ps) ==> ({
                    let (x, st2) = params_out(ps@, ps@.len() as int, a + "("@, st1, o);
                    &&& x is None ==> derived_out(s, id, st, o) == (None::<(Seq<char>, Seq<char>)>, st2)
                    &&& x matches Some(a2) ==> derived_out(s, id, st, o) == (Some((b, a2 + ")"@)), st2)
                })
            })
        }),
{
    unfold_derived_out(s, id, st, o);
}

/// A text without any begin marker comes out of marker resolution as it is.
pub proof fn law_resolve_plain(t: Seq<u8>, undef: Seq<Seq<u8>>)
    requires
        find_from(t, begin_marker(), 0) is None,
    ensures
        resolved(t, undef) == Some(t),
{
}

/// Marker resolution leaves no begin marker behind.
pub proof fn law_resolve_complete(t: Seq<u8>, undef: Seq<Seq<u8>>)
    ensures
        resolved(t, undef) matches Some(v) ==> find_from(v, begin_marker(), 0) is None,
    decreases t.len(),
{
    if let Some(p) = find_from(t, begin_marker(), 0) {
        crate::markers::lemma_step_shrinks(t, p, undef);
        if let Some(t2) = crate::markers::resolve_step(t, p, undef) {
            law_resolve_complete(t2, undef);
        }
    }
}

} // verus!
