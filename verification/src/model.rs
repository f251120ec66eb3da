//! What the translation produces, stated as functions from a syntax tree and
//! a translation state to the generated text and the next state.
//!
//! `None` as the text means that the construct is not supported and is
//! skipped by the caller. The argument `o` is the sequence of all random tags
//! the translation draws, in order; each tag is read from it at the position
//! given by the number of tags drawn so far.
use vstd::prelude::*;
use crate::ast::{
    ArraySize, BinaryOperator, BlockItem, Constant, Declaration, DeclarationSpecifier, Declarator,
    DeclaratorKind, DerivedDeclarator, DoWhileStatement, Expression, ExternalDeclaration,
    ForInitializer, ForStatement, FunctionDefinition, IfStatement, InitDeclarator, Initializer,
    IntegerBase, Label, LabeledStatement, MemberOperator, ParameterDeclaration,
    SpecifierQualifier, Statement, StorageClassSpecifier, StructDeclaration, StructDeclarator,
    StructField, StructType, SwitchStatement, TranslationUnit, TypeName, TypeSpecifier,
    UnaryOperator, WhileStatement,
};
use crate::outside::{regex_captures_of, regex_match_of};
use crate::state::{TState, lookup};
use crate::text::{begins_with, dec, digit_value, digits_value, i64_from_radix, int_text, keep_numeric, shrunk, trimmed_has_space, u64_from_decimal};

verus! {

pub open spec fn empty_text() -> Seq<char> {
    Seq::<char>::empty()
}

/// The marker for a storage class: typedef and extern are passed on as
/// markers, the others are dropped, `auto` is not supported.
pub open spec fn storage_text(sc: StorageClassSpecifier) -> Option<Seq<char>> {
    match sc {
        StorageClassSpecifier::Typedef => Some("\\typedef"@),
        StorageClassSpecifier::Extern => Some("\\extern"@),
        StorageClassSpecifier::Static => Some(empty_text()),
        StorageClassSpecifier::ThreadLocal => Some(empty_text()),
        StorageClassSpecifier::Auto => None,
        StorageClassSpecifier::Register => Some(empty_text()),
    }
}

/// A unary operator applied to the text of its operand.
pub open spec fn unary_text(op: UnaryOperator, x: Seq<char>) -> Seq<char> {
    match op {
        UnaryOperator::PostIncrement => x + "++"@,
        UnaryOperator::PostDecrement => x + "--"@,
        UnaryOperator::PreIncrement => "++"@ + x,
        UnaryOperator::PreDecrement => "--"@ + x,
        UnaryOperator::Address => "&"@ + x,
        UnaryOperator::Indirection => "*"@ + x,
        UnaryOperator::Plus => "+"@ + x,
        UnaryOperator::Minus => "-"@ + x,
        UnaryOperator::Complement => "~"@ + x,
        UnaryOperator::Negate => "!"@ + x,
    }
}

/// The operator symbol written between the operands; logical and/or are
/// written as their bitwise forms.
pub open spec fn binary_symbol(op: BinaryOperator) -> Seq<char> {
    match op {
        BinaryOperator::Index => "["@,
        BinaryOperator::Multiply => "*"@,
        BinaryOperator::Divide => "/"@,
        BinaryOperator::Modulo => "%"@,
        BinaryOperator::Plus => "+"@,
        BinaryOperator::Minus => "-"@,
        BinaryOperator::ShiftLeft => "<<"@,
        BinaryOperator::ShiftRight => ">>"@,
        BinaryOperator::Less => "<"@,
        BinaryOperator::Greater => ">"@,
        BinaryOperator::LessOrEqual => "<="@,
        BinaryOperator::GreaterOrEqual => ">="@,
        BinaryOperator::Equals => "=="@,
        BinaryOperator::NotEquals => "!="@,
        BinaryOperator::BitwiseAnd => "&"@,
        BinaryOperator::BitwiseXor => "^"@,
        BinaryOperator::BitwiseOr => "|"@,
        BinaryOperator::LogicalAnd => "&"@,
        BinaryOperator::LogicalOr => "|"@,
        BinaryOperator::Assign => "="@,
        BinaryOperator::AssignMultiply => "*="@,
        BinaryOperator::AssignDivide => "/="@,
        BinaryOperator::AssignModulo => "%="@,
        BinaryOperator::AssignPlus => "+="@,
        BinaryOperator::AssignMinus => "-="@,
        BinaryOperator::AssignShiftLeft => "<<="@,
        BinaryOperator::AssignShiftRight => ">>="@,
        BinaryOperator::AssignBitwiseAnd => "&="@,
        BinaryOperator::AssignBitwiseXor => "^="@,
        BinaryOperator::AssignBitwiseOr => "|="@,
    }
}

/// A binary operator applied to the texts of its operands; indexing closes
/// its bracket.
pub open spec fn binary_text(op: BinaryOperator, l: Seq<char>, r: Seq<char>) -> Seq<char> {
    match op {
        BinaryOperator::Index => l + "["@ + r + "]"@,
        _ => l + binary_symbol(op) + r,
    }
}

/// The regular expression for a shift of two decimal numbers, `(a)<<(b)`.
pub open spec fn shift_pattern() -> Seq<char> {
    "^\\((\\d+)\\)<<\\((\\d+)\\)$"@
}

/// The regular expression for a decimal number.
pub open spec fn number_pattern() -> Seq<char> {
    "^(\\d+)$"@
}

/// The value of an array size, given what the shift pattern captured in it
/// and whether it matches the number pattern: a shift of two numbers is
/// computed on `u64`, a number stays as it is, anything else becomes 0.
/// `None` where the computation cannot go on: a group missing, a number
/// that `u64` cannot hold, or a shift by 64 or more.
pub open spec fn imm_from(expr: Seq<char>, shift: Option<Seq<Option<Seq<char>>>>, is_number: bool) -> Option<Seq<char>> {
    match shift {
        Some(g) => {
            if g.len() > 2 && g[1] is Some && g[2] is Some {
                match (u64_from_decimal(g[1]->0), u64_from_decimal(g[2]->0)) {
                    (Some(l), Some(r)) => {
                        if r < 64 {
                            Some(dec(((l as u64) << (r as u64)) as nat))
                        } else {
                            None
                        }
                    },
                    _ => None,
                }
            } else {
                None
            }
        },
        None => if is_number {
            Some(expr)
        } else {
            Some("0"@)
        },
    }
}

/// The value of an array size expression, computed through the two regular
/// expressions.
pub open spec fn imm_text(expr: Seq<char>) -> Option<Seq<char>> {
    imm_from(expr, regex_captures_of(shift_pattern(), expr), regex_match_of(number_pattern(), expr))
}

/// The enumerators as constants numbered from 0, separated by `;` lines;
/// `n` is the number of enumerators in the whole list.
pub open spec fn enum_items(s: Seq<String>, n: int) -> Seq<char>
    decreases s.len(),
{
    if s.len() == 0 {
        empty_text()
    } else {
        let i = s.len() - 1;
        let item = enum_items(s.drop_last(), n) + "i32 "@ + "$I_"@ + s.last()@ + " = "@ + dec(i as nat);
        if i < n - 1 {
            item + ";\n"@
        } else {
            item
        }
    }
}

/// An enum becomes `i32` constants, or `i32` when it lists no enumerator.
pub open spec fn enum_text(names: Seq<String>) -> Seq<char> {
    if names.len() == 0 {
        "i32"@
    } else {
        enum_items(names, names.len() as int)
    }
}

/// A piece of a string literal can be cut from its first to its last
/// character when these are ASCII and distinct.
pub open spec fn piece_ok(z: Seq<char>) -> bool {
    z.len() >= 2 && (z[0] as u32) < 128 && (z.last() as u32) < 128
}

/// Every piece of a string literal starts and ends with a double quote.
pub open spec fn pieces_quoted(s: Seq<String>) -> bool {
    forall|i: int| 0 <= i < s.len() ==> (#[trigger] s[i])@.len() > 0 && s[i]@[0] == '"' && s[i]@.last() == '"'
}

pub open spec fn pieces_ok(s: Seq<String>) -> bool {
    forall|i: int| 0 <= i < s.len() ==> piece_ok(#[trigger] s[i]@)
}

/// The pieces with their first and last characters (the quotes) cut off,
/// appended to `acc`.
pub open spec fn pieces_text(s: Seq<String>, acc: Seq<char>) -> Seq<char>
    decreases s.len(),
{
    if s.len() == 0 {
        acc
    } else {
        let z = s.last()@;
        pieces_text(s.drop_last(), acc) + z.subrange(1, z.len() - 1)
    }
}

/// `s` is a non-empty string of digits of `radix`.
pub open spec fn digit_string(s: Seq<char>, radix: nat) -> bool {
    s.len() > 0 && forall|i: int| 0 <= i < s.len() ==> (#[trigger] digit_value(s[i], radix)) is Some
}

/// The text of an integer constant written with the digits of its base: the
/// digits themselves in decimal; in another base the decimal digits of its
/// value, or `None` when the value is above `i64::MAX`.
pub open spec fn integer_text(base: IntegerBase, n: Seq<char>) -> Option<Seq<char>> {
    match base {
        IntegerBase::Decimal => Some(n),
        _ => match digits_value(n, radix_of(base)) {
            Some(v) => if v <= i64::MAX { Some(dec(v)) } else { None },
            None => None,
        },
    }
}

pub open spec fn radix_of(base: IntegerBase) -> nat {
    match base {
        IntegerBase::Decimal => 10,
        IntegerBase::Octal => 8,
        IntegerBase::Hexadecimal => 16,
        IntegerBase::Binary => 2,
    }
}

/// Whether `c` is a letter that ends a floating constant as its type suffix.
pub open spec fn float_suffix(c: char) -> bool {
    c == 'f' || c == 'F' || c == 'l' || c == 'L'
}

/// The number of a floating constant as written (exponent and all), without
/// a trailing type suffix letter.
pub open spec fn float_text(n: Seq<char>) -> Seq<char> {
    if n.len() > 0 && float_suffix(n.last()) {
        n.drop_last()
    } else {
        n
    }
}

/// A constant as written in the target language: the numeric characters of
/// an integer after a non-decimal one is converted to decimal, the number of
/// a floating constant as written without a type suffix, a character
/// constant as it is. `None` where the integer does not fit in `i64`.
pub open spec fn constant_text(c: Constant) -> Option<Seq<char>> {
    match c {
        Constant::Character(s) => Some(s@),
        Constant::Integer(base, n) => match base {
            IntegerBase::Decimal => Some(keep_numeric(n@)),
            _ => match i64_from_radix(n@, radix_of(base)) {
                Some(v) => Some(keep_numeric(int_text(v))),
                None => None,
            },
        },
        Constant::Float(n) => Some(float_text(n@)),
    }
}

pub open spec fn member_text(op: MemberOperator) -> Seq<char> {
    match op {
        MemberOperator::Direct => "."@,
        MemberOperator::Indirect => "->"@,
    }
}

/// The names of an old-style parameter list, written one after the other.
pub open spec fn kr_text(s: Seq<String>, acc: Seq<char>) -> Seq<char>
    decreases s.len(),
{
    if s.len() == 0 {
        acc
    } else {
        kr_text(s.drop_last(), acc) + s.last()@
    }
}

/// A derived declarator that makes a function.
pub open spec fn is_fn_derived(d: DerivedDeclarator) -> bool {
    d is Function || d is KRFunction
}

pub open spec fn declares_fn(d: InitDeclarator) -> bool {
    exists|i: int| 0 <= i < d.declarator.derived@.len() && is_fn_derived(#[trigger] d.declarator.derived@[i])
}

pub open spec fn declaration_has_fn(d: Declaration) -> bool {
    exists|i: int| 0 <= i < d.declarators@.len() && declares_fn(#[trigger] d.declarators@[i])
}

/// The name a declarator declares, when it declares one directly.
pub open spec fn decl_name(d: InitDeclarator) -> Option<Seq<char>> {
    match d.declarator.kind {
        DeclaratorKind::Identifier(n) => Some(n@),
        _ => None,
    }
}

/// For a struct or enum specifier: the type name it stands for and whether
/// it has a body. An untagged struct gets its generated tag here when it has
/// none yet.
pub open spec fn struct_or_enum(ds: DeclarationSpecifier, st: TState, o: Seq<Seq<char>>) -> (Option<(Seq<char>, bool)>, TState) {
    match ds {
        DeclarationSpecifier::TypeSpecifier(ts) => match ts {
            TypeSpecifier::Struct(s) => match s.identifier {
                Some(id) => (Some(("$T_"@ + id@, s.declarations is Some)), st),
                None => match lookup(st.anon, s.anon_id) {
                    Some(n) => (Some(("$T_"@ + n, s.declarations is Some)), st),
                    None => {
                        let (tag, st1) = st.draw(o);
                        let un = "anon_"@ + tag;
                        (Some(("$T_"@ + un, s.declarations is Some)), st1.with_anon(s.anon_id, un))
                    },
                },
            },
            TypeSpecifier::Enum(e) => (Some(("i32"@, e.enumerators@.len() != 0)), st),
            _ => (None, st),
        },
        _ => (None, st),
    }
}

/// What the specifiers of a declaration have said so far: the specifier
/// text, whether it is a typedef, the struct or enum a typedef names and
/// whether that has a body, and whether it is extern.
pub struct DeclFlags {
    pub spec: Seq<char>,
    pub is_typedef: bool,
    pub td_name: Seq<char>,
    pub td_body: bool,
    pub is_extern: bool,
}

pub open spec fn no_flags() -> DeclFlags {
    DeclFlags { spec: empty_text(), is_typedef: false, td_name: empty_text(), td_body: false, is_extern: false }
}

/// The cases of a chain of labels `case a: case b: default: stmt`: the case
/// expressions found (after `inner`), the statement the chain ends in, and
/// the statement after the last `default` label.
pub open spec fn label_chain(l: LabeledStatement, inner: Seq<Expression>, dflt: Option<Statement>) -> (Seq<Expression>, Statement, Option<Statement>)
    decreases l,
{
    let inner1 = match l.label {
        Label::Case(e) => inner.push(*e),
        _ => inner,
    };
    let dflt1 = match l.label {
        Label::Default => Some(*l.statement),
        _ => dflt,
    };
    match *l.statement {
        Statement::Labeled(l2) => label_chain(l2, inner1, dflt1),
        other => (inner1, other, dflt1),
    }
}

pub type Cases = Seq<(Expression, Seq<Statement>)>;

/// Each case expression with the one statement that its label chain ends in.
pub open spec fn single_cases(es: Seq<Expression>, tail: Statement) -> Cases {
    es.map_values(|e: Expression| (e, seq![tail]))
}

/// The cases of a switch body: each case expression with the statements run
/// for it (the statement its label chain ends in, then the unlabeled
/// statements that follow), and the default statement.
pub open spec fn collect_cases(items: Seq<BlockItem>) -> (Cases, Option<Statement>)
    decreases items.len(),
{
    if items.len() == 0 {
        (Seq::empty(), None)
    } else {
        let (cases, dflt) = collect_cases(items.drop_last());
        match items.last() {
            BlockItem::Statement(s) => match s {
                Statement::Labeled(l) => {
                    let (inner, tail, d2) = label_chain(l, Seq::empty(), dflt);
                    (cases + single_cases(inner, tail), d2)
                },
                other => {
                    if cases.len() > 0 {
                        let c = cases.last();
                        (cases.update(cases.len() - 1, (c.0, c.1.push(other))), dflt)
                    } else {
                        (cases, dflt)
                    }
                },
            },
            _ => (cases, dflt),
        }
    }
}

/// The diagnostics about a chain of labels: one for each label that is
/// neither a case nor a default.
pub open spec fn label_warnings(l: LabeledStatement) -> Seq<Seq<char>>
    decreases l,
{
    let w = match l.label {
        Label::Case(_) => Seq::<Seq<char>>::empty(),
        Label::Default => Seq::<Seq<char>>::empty(),
        _ => seq!["!! Unknown label"@],
    };
    match *l.statement {
        Statement::Labeled(l2) => w + label_warnings(l2),
        _ => w,
    }
}

/// The diagnostics about the items of a switch body: unknown labels, and
/// statements with no case label before them.
pub open spec fn items_warnings(items: Seq<BlockItem>) -> Seq<Seq<char>>
    decreases items.len(),
{
    if items.len() == 0 {
        Seq::empty()
    } else {
        let w = items_warnings(items.drop_last());
        match items.last() {
            BlockItem::Statement(s) => match s {
                Statement::Labeled(l) => w + label_warnings(l),
                _ => if collect_cases(items.drop_last()).0.len() > 0 {
                    w
                } else {
                    w.push("!! Unknown switch statement (dangling statement with no label before it)"@)
                },
            },
            _ => w,
        }
    }
}

/// The diagnostics written before a switch is translated.
pub open spec fn switch_warnings(sw: SwitchStatement) -> Seq<Seq<char>> {
    match *sw.statement {
        Statement::Compound(items) => items_warnings(items@),
        _ => seq!["!! Unknown switch statement (not compound)"@],
    }
}

pub open spec fn switch_cases(sw: SwitchStatement) -> (Cases, Option<Statement>) {
    match *sw.statement {
        Statement::Compound(items) => collect_cases(items@),
        _ => (Seq::empty(), None),
    }
}

/// `x` lies inside `t`.
pub open spec fn inside<A, B>(t: A, x: B) -> bool {
    decreases_to!(t => x)
}

pub proof fn lemma_label_chain_inside(b: Seq<BlockItem>, l: LabeledStatement, inner: Seq<Expression>, dflt: Option<Statement>)
    requires
        inside(b, l),
        forall|k: int| 0 <= k < inner.len() ==> inside(b, #[trigger] inner[k]),
        dflt matches Some(d) ==> inside(b, d),
    ensures
        ({
            let (i2, tail, d2) = label_chain(l, inner, dflt);
            &&& forall|k: int| 0 <= k < i2.len() ==> inside(b, #[trigger] i2[k])
            &&& inside(b, tail)
            &&& d2 matches Some(d) ==> inside(b, d)
        }),
    decreases l,
{
    let inner1 = match l.label {
        Label::Case(e) => inner.push(*e),
        _ => inner,
    };
    let dflt1 = match l.label {
        Label::Default => Some(*l.statement),
        _ => dflt,
    };
    match l.label {
        Label::Case(e) => {
            assert(decreases_to!(l => l.label));
            assert(inside(b, *e));
        },
        _ => {},
    }
    assert(forall|k: int| 0 <= k < inner1.len() ==> inside(b, #[trigger] inner1[k]));
    assert(decreases_to!(l => *l.statement));
    match *l.statement {
        Statement::Labeled(l2) => {
            assert(inside(b, l2));
            lemma_label_chain_inside(b, l2, inner1, dflt1);
        },
        _ => {},
    }
}

pub proof fn lemma_collect_cases_inside(items: Seq<BlockItem>)
    ensures
        ({
            let (cases, dflt) = collect_cases(items);
            &&& forall|k: int| 0 <= k < cases.len() ==> inside(items, (#[trigger] cases[k]).0)
            &&& forall|k: int, j: int| 0 <= k < cases.len() && 0 <= j < cases[k].1.len() ==> inside(items, #[trigger] cases[k].1[j])
            &&& dflt matches Some(d) ==> inside(items, d)
        }),
    decreases items.len(),
{
    if items.len() > 0 {
        let pre = items.drop_last();
        lemma_collect_cases_inside(pre);
        assert(decreases_to!(items => pre));
        assert(decreases_to!(items => items.last()));
        let (cases, dflt) = collect_cases(pre);
        match items.last() {
            BlockItem::Statement(s) => {
                assert(inside(items, s));
                match s {
                    Statement::Labeled(l) => {
                        assert(inside(items, l));
                        lemma_label_chain_inside(items, l, Seq::empty(), dflt);
                    },
                    _ => {},
                }
            },
            _ => {},
        }
    }
}

pub proof fn lemma_switch_cases_inside(sw: SwitchStatement)
    ensures
        ({
            let (cases, dflt) = switch_cases(sw);
            &&& forall|k: int| 0 <= k < cases.len() ==> inside(sw, (#[trigger] cases[k]).0)
            &&& forall|k: int, j: int| 0 <= k < cases.len() && 0 <= j < cases[k].1.len() ==> inside(sw, #[trigger] cases[k].1[j])
            &&& dflt matches Some(d) ==> inside(sw, d)
        }),
{
    match *sw.statement {
        Statement::Compound(items) => {
            assert(decreases_to!(sw => *sw.statement));
            assert(inside(sw, items@));
            lemma_collect_cases_inside(items@);
        },
        _ => {},
    }
}


pub type Out = (Option<Seq<char>>, TState);

/// A list of specifiers and qualifiers, each followed by a space, after
/// `acc`; `None` as soon as one is not supported.
#[verifier::opaque]
pub open spec fn sq_list_out(s: Seq<SpecifierQualifier>, acc: Seq<char>, st: TState, o: Seq<Seq<char>>) -> Out
    decreases s, 0int, 0int,
{
    if s.len() == 0 {
        (Some(acc), st)
    } else {
        let (r, st1) = sq_list_out(s.drop_last(), acc, st, o);
        match r {
            None => (None, st1),
            Some(a) => {
                let (x, st2) = specifier_qualifier_out(s.last(), st1, o);
                match x {
                    None => (None, st2),
                    Some(x) => (Some(a + x + " "@), st2),
                }
            },
        }
    }
}

#[verifier::opaque]
pub open spec fn specifier_qualifier_out(sq: SpecifierQualifier, st: TState, o: Seq<Seq<char>>) -> Out
    decreases sq, 0int, 0int,
{
    match sq {
        SpecifierQualifier::TypeSpecifier(ts) => type_spec_out(ts, st, o, false),
        SpecifierQualifier::TypeQualifier(_) => (Some(empty_text()), st),
        SpecifierQualifier::Extension => (Some(empty_text()), st),
    }
}

/// A type specifier. Basic types become their keyword markers, an enum its
/// constants, a typedef name what it was defined as (or the bare name when
/// it is unknown), a struct its class.
#[verifier::opaque]
pub open spec fn type_spec_out(ts: TypeSpecifier, st: TState, o: Seq<Seq<char>>, is_decl: bool) -> Out
    decreases ts, 0int, 0int,
{
    match ts {
        TypeSpecifier::Void => (Some("\\void"@), st),
        TypeSpecifier::Char => (Some("\\char"@), st),
        TypeSpecifier::Short => (Some("\\short"@), st),
        TypeSpecifier::Int => (Some("\\int"@), st),
        TypeSpecifier::Long => (Some("\\long"@), st),
        TypeSpecifier::Float => (Some("\\float"@), st),
        TypeSpecifier::Double => (Some("\\double"@), st),
        TypeSpecifier::Signed => (Some("\\signed"@), st),
        TypeSpecifier::Unsigned => (Some("\\unsigned"@), st),
        TypeSpecifier::Bool => (Some("\\bool"@), st),
        TypeSpecifier::Complex => (None, st.warned("!! complex keyword not supported"@)),
        TypeSpecifier::Atomic => (None, st.warned("!! atomic keyword not supported"@)),
        TypeSpecifier::Struct(s) => struct_out(s, st, o, is_decl),
        TypeSpecifier::Enum(e) => (Some(enum_text(e.enumerators@)), st),
        TypeSpecifier::TypedefName(id) => match lookup(st.typedefs, "$T_"@ + id@) {
            Some(v) => (Some(v), st),
            None => (Some(id@), st.warned("!! Unknown typedef: "@ + ("$T_"@ + id@))),
        },
        TypeSpecifier::TypeOf => (None, st.warned("!! typeof keyword not supported"@)),
        TypeSpecifier::TS18661Float => (None, st.warned("!! ts18661float not supported"@)),
    }
}

/// A struct type. Its name is `$T_` and its tag (a generated `anon_` tag when
/// it has none). Without a body it is remembered as declared and stands for
/// its name (nothing at a top-level declaration). With a body it becomes
/// `class NAME {...}`; inside another struct the class is hoisted and the
/// struct stands for its name.
#[verifier::opaque]
pub open spec fn struct_out(t: StructType, st: TState, o: Seq<Seq<char>>, is_decl: bool) -> Out
    decreases t, 0int, 0int,
{
    if st.depth >= i32::MAX {
        (None, st.aborting())
    } else {
        let is_nested = st.depth > 0;
        let st1 = st.with_depth(st.depth + 1);
        let (name, st2) = match t.identifier {
            Some(id) => ("$T_"@ + id@, st1),
            None => match lookup(st1.anon, t.anon_id) {
                Some(n) => ("$T_"@ + n, st1),
                None => {
                    let (tag, st1b) = st1.draw(o);
                    let un = "anon_"@ + tag;
                    ("$T_"@ + un, st1b.with_anon(t.anon_id, un))
                },
            },
        };
        match t.declarations {
            None => {
                let st3 = if !st2.defined_structs.contains(name) && !st2.empty_structs.contains(name) {
                    st2.with_empty(name)
                } else {
                    st2
                };
                let st4 = st3.with_depth(st3.depth - 1);
                if is_decl {
                    (None, st4)
                } else {
                    (Some(name), st4)
                }
            },
            Some(d) => {
                let st3 = st2.with_defined(name);
                let (body, st4) = struct_body_out(d@, "class "@ + name + " {\n"@, st3, o);
                match body {
                    None => (None, st4.with_depth(st4.depth - 1)),
                    Some(b) => {
                        let code = b + "}"@;
                        if is_nested {
                            let st5 = st4.with_nested(code);
                            (Some(name), st5.with_depth(st5.depth - 1))
                        } else {
                            (Some(code), st4.with_depth(st4.depth - 1))
                        }
                    },
                }
            },
        }
    }
}

#[verifier::opaque]
pub open spec fn struct_body_out(s: Seq<StructDeclaration>, acc: Seq<char>, st: TState, o: Seq<Seq<char>>) -> Out
    decreases s, 0int, 0int,
{
    if s.len() == 0 {
        (Some(acc), st)
    } else {
        let (r, st1) = struct_body_out(s.drop_last(), acc, st, o);
        match r {
            None => (None, st1),
            Some(a) => {
                let (x, st2) = struct_decl_out(s.last(), st1, o);
                match x {
                    None => (None, st2),
                    Some(x) => (Some(a + x), st2),
                }
            },
        }
    }
}

#[verifier::opaque]
pub open spec fn struct_decl_out(d: StructDeclaration, st: TState, o: Seq<Seq<char>>) -> Out
    decreases d, 0int, 0int,
{
    match d {
        StructDeclaration::Field(f) => struct_field_out(f, st, o),
        StructDeclaration::StaticAssert => (Some(empty_text()), st),
    }
}

/// A struct field: one `spec declarator;` line per declarator; a declarator
/// that cannot be written is left out.
#[verifier::opaque]
pub open spec fn struct_field_out(f: StructField, st: TState, o: Seq<Seq<char>>) -> Out
    decreases f, 0int, 0int,
{
    let (r, st1) = sq_list_out(f.specifiers@, empty_text(), st, o);
    match r {
        None => (None, st1),
        Some(sp) => {
            let st1 = spec_checked(sp, st1);
            let (code, st2) = struct_declarators_out(f.declarators@, shrunk(sp), empty_text(), st1, o);
            (Some(code), st2)
        },
    }
}

#[verifier::opaque]
pub open spec fn struct_declarators_out(s: Seq<StructDeclarator>, spec: Seq<char>, acc: Seq<char>, st: TState, o: Seq<Seq<char>>) -> (Seq<char>, TState)
    decreases s, 0int, 0int,
{
    if s.len() == 0 {
        (acc, st)
    } else {
        let (a, st1) = struct_declarators_out(s.drop_last(), spec, acc, st, o);
        let (x, st2) = struct_declarator_out(s.last(), spec, st1, o);
        match x {
            Some(x) => (a + x + ";\n"@, st2),
            None => (a, st2),
        }
    }
}

#[verifier::opaque]
pub open spec fn struct_declarator_out(d: StructDeclarator, spec: Seq<char>, st: TState, o: Seq<Seq<char>>) -> Out
    decreases d, 0int, 0int,
{
    match d.declarator {
        Some(decl) => declarator_out(decl, spec, st, o, empty_text()),
        None => (Some(empty_text()), st),
    }
}

#[verifier::opaque]
pub open spec fn decl_spec_out(ds: DeclarationSpecifier, st: TState, o: Seq<Seq<char>>, is_decl: bool) -> Out
    decreases ds, 0int, 0int,
{
    match ds {
        DeclarationSpecifier::StorageClass(sc) => (storage_text(sc), if sc is Auto { st.warned("!! auto keyword not supported"@) } else { st }),
        DeclarationSpecifier::TypeSpecifier(ts) => type_spec_out(ts, st, o, is_decl),
        DeclarationSpecifier::TypeQualifier(_) => (Some(empty_text()), st),
        DeclarationSpecifier::Function => (Some(empty_text()), st),
        DeclarationSpecifier::Alignment => (None, st.warned("!! alignment keyword not supported"@)),
        DeclarationSpecifier::Extension => (Some(empty_text()), st),
    }
}

/// A list of declaration specifiers, each followed by a space, after `acc`.
#[verifier::opaque]
pub open spec fn ds_list_out(s: Seq<DeclarationSpecifier>, acc: Seq<char>, st: TState, o: Seq<Seq<char>>) -> Out
    decreases s, 0int, 0int,
{
    if s.len() == 0 {
        (Some(acc), st)
    } else {
        let (r, st1) = ds_list_out(s.drop_last(), acc, st, o);
        match r {
            None => (None, st1),
            Some(a) => {
                let (x, st2) = decl_spec_out(s.last(), st1, o, false);
                match x {
                    None => (None, st2),
                    Some(x) => (Some(a + x + " "@), st2),
                }
            },
        }
    }
}

#[verifier::opaque]
pub open spec fn initializer_out(i: Initializer, st: TState, o: Seq<Seq<char>>) -> Out
    decreases i, 0int, 0int,
{
    match i {
        Initializer::Expression(e) => expr_out(*e, st, o),
        Initializer::List => (None, st.warned("!! initializer list not supported"@)),
    }
}

/// A declarator with its initializer, `decl = init`; an initializer that
/// cannot be written is left out.
#[verifier::opaque]
pub open spec fn init_declarator_out(d: InitDeclarator, st: TState, o: Seq<Seq<char>>) -> Out
    decreases d, 0int, 0int,
{
    let (r, st1) = declarator_out(d.declarator, empty_text(), st, o, empty_text());
    match r {
        None => (None, st1),
        Some(dc) => match d.initializer {
            Some(init) => {
                let (x, st2) = initializer_out(init, st1, o);
                match x {
                    Some(x) => (Some(dc + " = "@ + x), st2),
                    None => (Some(dc), st2),
                }
            },
            None => (Some(dc), st1),
        },
    }
}

/// The parameter at position `index`; an unnamed one is called `$A_index`.
#[verifier::opaque]
pub open spec fn param_decl_out(p: ParameterDeclaration, st: TState, o: Seq<Seq<char>>, index: nat) -> Out
    decreases p, 0int, 0int,
{
    let (r, st1) = ds_list_out(p.specifiers@, empty_text(), st, o);
    match r {
        None => (None, st1),
        Some(sp) => {
            let st1 = spec_checked(sp, st1);
            let spec = shrunk(sp);
            let default = "$A_"@ + dec(index);
            match p.declarator {
                Some(d) => declarator_out(d, spec, st1, o, default),
                None => (Some(spec + default), st1),
            }
        },
    }
}

/// Parameters separated by `, `, after `acc`; `n` is the length of the whole
/// list.
#[verifier::opaque]
pub open spec fn params_out(s: Seq<ParameterDeclaration>, n: int, acc: Seq<char>, st: TState, o: Seq<Seq<char>>) -> Out
    decreases s, 0int, 0int,
{
    if s.len() == 0 {
        (Some(acc), st)
    } else {
        let (r, st1) = params_out(s.drop_last(), n, acc, st, o);
        match r {
            None => (None, st1),
            Some(a) => {
                let i = s.len() - 1;
                let (x, st2) = param_decl_out(s.last(), st1, o, i as nat);
                match x {
                    None => (None, st2),
                    Some(x) => {
                        let a1 = a + x;
                        if i < n - 1 {
                            (Some(a1 + ", "@), st2)
                        } else {
                            (Some(a1), st2)
                        }
                    },
                }
            },
        }
    }
}

/// The text written before the name (pointers and array sizes) and after it
/// (parameter lists).
#[verifier::opaque]
pub open spec fn derived_out(s: Seq<DerivedDeclarator>, id: Seq<char>, st: TState, o: Seq<Seq<char>>) -> (Option<(Seq<char>, Seq<char>)>, TState)
    decreases s, 0int, 0int,
{
    if s.len() == 0 {
        (Some((empty_text(), empty_text())), st)
    } else {
        let (r, st1) = derived_out(s.drop_last(), id, st, o);
        match r {
            None => (None, st1),
            Some((b, a)) => match s.last() {
                DerivedDeclarator::Pointer => (Some((b + "*"@, a)), st1),
                DerivedDeclarator::Array(size) => match size {
                    ArraySize::Unknown => (Some((b + "*"@, a)), st1),
                    ArraySize::VariableUnknown => (Some((b + "*"@, a)), st1),
                    ArraySize::VariableExpression(e) => {
                        let (x, st2) = array_size_out(*e, b, st1, o);
                        match x {
                            Some(b2) => (Some((b2, a)), st2),
                            None => (None, st2),
                        }
                    },
                    ArraySize::StaticExpression(e) => {
                        let (x, st2) = array_size_out(*e, b, st1, o);
                        match x {
                            Some(b2) => (Some((b2, a)), st2),
                            None => (None, st2),
                        }
                    },
                },
                DerivedDeclarator::Function(ps) => {
                    let (x, st2) = params_out(ps@, ps@.len() as int, a + "("@, st1, o);
                    match x {
                        None => (None, st2),
                        Some(a2) => (Some((b, a2 + ")"@)), st2),
                    }
                },
                DerivedDeclarator::KRFunction(ids) => (Some((b, kr_text(ids@, a + "("@) + ")"@)), if ids@.len() > 0 { st1.warned("!! YO FOUND KR FUNC "@ + id) } else { st1 }),
                DerivedDeclarator::Block => (Some((b, a)), st1),
            },
        }
    }
}

/// The text before the name, `b`, followed by an array size `[value]` with
/// the value of the size expression.
#[verifier::opaque]
pub open spec fn array_size_out(e: Expression, b: Seq<char>, st: TState, o: Seq<Seq<char>>) -> Out
    decreases e, 2int, 0int,
{
    let (x, st1) = expr_np_out(e, st, o);
    match x {
        None => (None, st1),
        Some(x) => match imm_text(x) {
            None => (None, st1.aborting()),
            Some(v) => (Some(b + "["@ + v + "]"@), st1),
        },
    }
}

/// A declarator: the specifier text, the pointer and array text, the name
/// (`$I_name`, or `default` for an abstract declarator) and the parameter
/// lists. A parenthesized inner declarator is not supported.
#[verifier::opaque]
pub open spec fn declarator_out(d: Declarator, spec: Seq<char>, st: TState, o: Seq<Seq<char>>, default: Seq<char>) -> Out
    decreases d, 0int, 0int,
{
    let id = match d.kind {
        DeclaratorKind::Identifier(n) => Some("$I_"@ + n@),
        DeclaratorKind::Abstract => Some(default),
        DeclaratorKind::Declarator => None,
    };
    match id {
        None => (None, st.warned("!! function pointer declarator not supported"@)),
        Some(id) => {
            let (r, st1) = derived_out(d.derived@, id, st, o);
            match r {
                None => (None, st1),
                Some((b, a)) => (Some(spec + b + id + a), st1),
            }
        },
    }
}

#[verifier::opaque]
pub open spec fn type_name_out(tn: TypeName, st: TState, o: Seq<Seq<char>>) -> Out
    decreases tn, 0int, 0int,
{
    let (r, st1) = sq_list_out(tn.specifiers@, empty_text(), st, o);
    match r {
        None => (None, st1),
        Some(sp) => {
            let st1 = spec_checked(sp, st1);
            let spec = shrunk(sp);
            match tn.declarator {
                Some(d) => declarator_out(d, spec, st1, o, empty_text()),
                None => (Some(spec), st1),
            }
        },
    }
}

/// An expression in parentheses.
#[verifier::opaque]
pub open spec fn expr_out(e: Expression, st: TState, o: Seq<Seq<char>>) -> Out
    decreases e, 1int, 0int,
{
    let (r, st1) = expr_np_out(e, st, o);
    match r {
        Some(x) => (Some("("@ + x + ")"@), st1),
        None => (None, st1),
    }
}

/// Call arguments separated by `, `, after `acc`; `n` is the number of
/// arguments.
#[verifier::opaque]
pub open spec fn args_out(s: Seq<Expression>, n: int, acc: Seq<char>, st: TState, o: Seq<Seq<char>>) -> Out
    decreases s, 0int, 0int,
{
    if s.len() == 0 {
        (Some(acc), st)
    } else {
        let (r, st1) = args_out(s.drop_last(), n, acc, st, o);
        match r {
            None => (None, st1),
            Some(a) => {
                let i = s.len() - 1;
                let (x, st2) = expr_out(s.last(), st1, o);
                match x {
                    None => (None, st2),
                    Some(x) => {
                        let a1 = a + x;
                        if i < n - 1 {
                            (Some(a1 + ", "@), st2)
                        } else {
                            (Some(a1), st2)
                        }
                    },
                }
            },
        }
    }
}

/// An expression without the outer parentheses. Names become `$I_name`, each
/// operand is parenthesized, a cast is written `[type](expr)`, `sizeof` is 0.
#[verifier::opaque]
pub open spec fn expr_np_out(e: Expression, st: TState, o: Seq<Seq<char>>) -> Out
    decreases e, 0int, 0int,
{
    match e {
        Expression::Identifier(n) => (Some("$I_"@ + n@), st),
        Expression::Constant(c) => match constant_text(c) {
            Some(t) => (Some(t), st),
            None => (None, st.aborting()),
        },
        Expression::StringLiteral(pieces) => {
            let st0 = if pieces_quoted(pieces@) { st } else { st.warned("!! Invalid string literal"@) };
            if pieces_ok(pieces@) {
                (Some(pieces_text(pieces@, "\""@) + "\""@), st0)
            } else {
                (None, st0.aborting())
            }
        },
        Expression::GenericSelection => (None, st.warned("!! generic selection not supported"@)),
        Expression::Member(op, inner, id) => {
            let (x, st1) = expr_out(*inner, st, o);
            match x {
                None => (None, st1),
                Some(x) => (Some(x + member_text(op) + "$I_"@ + id@), st1),
            }
        },
        Expression::Call(callee, args) => match *callee {
            Expression::Identifier(n) => {
                let (r, st1) = args_out(args@, args@.len() as int, "$I_"@ + n@ + "("@, st, o);
                match r {
                    None => (None, st1),
                    Some(c) => (Some(c + ")"@), st1),
                }
            },
            _ => (None, st.warned("!! Unknown callee"@)),
        },
        Expression::CompoundLiteral => (None, st.warned("!! compound literal not supported"@)),
        Expression::SizeOfTy => (Some("0"@), st),
        Expression::SizeOfVal => (Some("0"@), st),
        Expression::AlignOf => (None, st.warned("!! alignof keyword not supported"@)),
        Expression::UnaryOperator(op, inner) => {
            let (x, st1) = expr_out(*inner, st, o);
            match x {
                None => (None, st1),
                Some(x) => (Some(unary_text(op, x)), st1),
            }
        },
        Expression::Cast(tn, inner) => {
            let (t, st1) = type_name_out(tn, st, o);
            match t {
                None => (None, st1),
                Some(t) => {
                    let (x, st2) = expr_out(*inner, st1, o);
                    match x {
                        None => (None, st2),
                        Some(x) => (Some("["@ + t + "]"@ + "("@ + x + ")"@), st2),
                    }
                },
            }
        },
        Expression::BinaryOperator(op, l, r) => {
            let (x, st1) = expr_out(*l, st, o);
            match x {
                None => (None, st1),
                Some(x) => {
                    let (y, st2) = expr_out(*r, st1, o);
                    match y {
                        None => (None, st2),
                        Some(y) => (Some(binary_text(op, x, y)), st2),
                    }
                },
            }
        },
        Expression::Conditional => (None, st.warned("!! ternaries not supported"@)),
        Expression::Comma => (None, st.warned("!! comma statements not supported"@)),
        Expression::OffsetOf => (None, st.warned("!! offsetof keyword not supported"@)),
        Expression::VaArg => (None, st.warned("!! variadic arguments not supported"@)),
        Expression::Statement(s) => stmt_out(*s, st, o),
    }
}

#[verifier::opaque]
pub open spec fn block_item_out(b: BlockItem, st: TState, o: Seq<Seq<char>>) -> Out
    decreases b, 0int, 0int,
{
    match b {
        BlockItem::Declaration(d) => declaration_out(d, st, o, false),
        BlockItem::StaticAssert => (Some(empty_text()), st),
        BlockItem::Statement(s) => stmt_out(s, st, o),
    }
}

#[verifier::opaque]
pub open spec fn block_items_out(s: Seq<BlockItem>, acc: Seq<char>, st: TState, o: Seq<Seq<char>>) -> Out
    decreases s, 0int, 0int,
{
    if s.len() == 0 {
        (Some(acc), st)
    } else {
        let (r, st1) = block_items_out(s.drop_last(), acc, st, o);
        match r {
            None => (None, st1),
            Some(a) => {
                let (x, st2) = block_item_out(s.last(), st1, o);
                match x {
                    None => (None, st2),
                    Some(x) => (Some(a + x), st2),
                }
            },
        }
    }
}

/// A statement. Labels, gotos and inline assembly are dropped; a do-while
/// loop becomes its body followed by a while loop with the same body.
#[verifier::opaque]
pub open spec fn stmt_out(s: Statement, st: TState, o: Seq<Seq<char>>) -> Out
    decreases s, 0int, 0int,
{
    match s {
        Statement::Labeled(_) => (Some(empty_text()), st),
        Statement::Compound(items) => block_items_out(items@, empty_text(), st, o),
        Statement::Expression(e) => match e {
            Some(e) => {
                let (x, st1) = expr_out(*e, st, o);
                match x {
                    None => (None, st1),
                    Some(x) => (Some(x + ";\n"@), st1),
                }
            },
            None => (Some(empty_text()), st),
        },
        Statement::If(i) => if_out(i, st, o),
        Statement::Switch(sw) => switch_out(sw, st, o),
        Statement::While(w) => while_out(w, st, o),
        Statement::DoWhile(d) => do_while_out(d, st, o),
        Statement::For(f) => for_out(f, st, o),
        Statement::Goto => (Some(empty_text()), st),
        Statement::Continue => (Some("continue;\n"@), st),
        Statement::Break => (Some("break;\n"@), st),
        Statement::Return(e) => match e {
            Some(e) => {
                let (x, st1) = expr_out(*e, st, o);
                match x {
                    None => (None, st1),
                    Some(x) => (Some("return "@ + x + ";\n"@), st1),
                }
            },
            None => (Some("return;\n"@), st),
        },
        Statement::Asm => (Some(empty_text()), st),
    }
}

#[verifier::opaque]
pub open spec fn if_out(i: IfStatement, st: TState, o: Seq<Seq<char>>) -> Out
    decreases i, 0int, 0int,
{
    let (c, st1) = expr_out(*i.condition, st, o);
    match c {
        None => (None, st1),
        Some(c) => {
            let (t, st2) = stmt_out(*i.then_statement, st1, o);
            match t {
                None => (None, st2),
                Some(t) => {
                    let code = "if ("@ + c + ") {\n"@ + t + "}\n"@;
                    match i.else_statement {
                        Some(e) => {
                            let (x, st3) = stmt_out(*e, st2, o);
                            match x {
                                None => (None, st3),
                                Some(x) => (Some(code + "else {\n"@ + x + "}\n"@), st3),
                            }
                        },
                        None => (Some(code), st2),
                    }
                },
            }
        },
    }
}

#[verifier::opaque]
pub open spec fn while_out(w: WhileStatement, st: TState, o: Seq<Seq<char>>) -> Out
    decreases w, 0int, 0int,
{
    let (c, st1) = expr_out(*w.expression, st, o);
    match c {
        None => (None, st1),
        Some(c) => {
            let (b, st2) = stmt_out(*w.statement, st1, o);
            match b {
                None => (None, st2),
                Some(b) => (Some("while ("@ + c + ") {\n"@ + b + "}\n"@), st2),
            }
        },
    }
}

#[verifier::opaque]
pub open spec fn do_while_out(d: DoWhileStatement, st: TState, o: Seq<Seq<char>>) -> Out
    decreases d, 0int, 0int,
{
    let (b, st1) = stmt_out(*d.statement, st, o);
    match b {
        None => (None, st1),
        Some(b) => {
            let (c, st2) = expr_out(*d.expression, st1, o);
            match c {
                None => (None, st2),
                Some(c) => (Some(b + "while ("@ + c + ") {\n"@ + b + "}\n"@), st2),
            }
        },
    }
}

#[verifier::opaque]
pub open spec fn for_init_out(fi: ForInitializer, st: TState, o: Seq<Seq<char>>) -> Out
    decreases fi, 0int, 0int,
{
    match fi {
        ForInitializer::Expression(e) => {
            let (x, st1) = expr_out(*e, st, o);
            match x {
                None => (None, st1),
                Some(x) => (Some(x + ";"@), st1),
            }
        },
        ForInitializer::Declaration(d) => declaration_out(d, st, o, false),
        ForInitializer::Empty => (Some("0;"@), st),
        ForInitializer::StaticAssert => (Some("0;"@), st),
    }
}

/// A for loop; a missing condition is `1`, a missing step is `0`.
#[verifier::opaque]
pub open spec fn for_out(f: ForStatement, st: TState, o: Seq<Seq<char>>) -> Out
    decreases f, 0int, 0int,
{
    let (i, st1) = for_init_out(f.initializer, st, o);
    match i {
        None => (None, st1),
        Some(i) => {
            let (c, st2) = match f.condition {
                Some(c) => expr_out(*c, st1, o),
                None => (Some("1"@), st1),
            };
            match c {
                None => (None, st2),
                Some(c) => {
                    let (p, st3) = match f.step {
                        Some(p) => expr_out(*p, st2, o),
                        None => (Some("0"@), st2),
                    };
                    match p {
                        None => (None, st3),
                        Some(p) => {
                            let (b, st4) = stmt_out(*f.statement, st3, o);
                            match b {
                                None => (None, st4),
                                Some(b) => (Some("for ("@ + i + c + "; "@ + p + ") {\n"@ + b + "}\n"@), st4),
                            }
                        },
                    }
                },
            }
        },
    }
}

/// The head of the one-pass loop a switch becomes, so that `break` leaves it.
pub open spec fn switch_head(id: Seq<char>) -> Seq<char> {
    "for (u8 $_"@ + id + " = 0; $_"@ + id + " == 0; $_"@ + id + " = 1) {\n"@
}

/// A switch becomes a one-pass loop holding an `if`/`else if` chain that
/// compares the scrutinee with each case, then the default statement in an
/// `else`. The cases are read from copies of the body, so tags generated
/// while writing them are forgotten afterwards.
#[verifier::opaque]
pub open spec fn switch_out(sw: SwitchStatement, st: TState, o: Seq<Seq<char>>) -> Out
    decreases sw, switch_cases(sw).0.len() + 1, 0int,
{
    proof {
        lemma_switch_cases_inside(sw);
    }
    let (cases, dflt) = switch_cases(sw);
    let (id, st1) = st.warned_all(switch_warnings(sw)).draw(o);
    let (r, st2) = cases_out(sw, cases.len() as int, switch_head(id), st1, o);
    match r {
        None => (None, st2),
        Some(code) => match dflt {
            Some(d) => {
                let code1 = if cases.len() > 0 { code + "else {\n"@ } else { code };
                let (x, st3) = stmt_out(d, st2, o);
                let st4 = st3.forget_anon(st2.anon.len() as int);
                match x {
                    None => (None, st4),
                    Some(x) => {
                        let code2 = code1 + x;
                        let code3 = if cases.len() > 0 { code2 + "}\n"@ } else { code2 };
                        (Some(code3 + "}\n"@), st4)
                    },
                }
            },
            None => (Some(code + "}\n"@), st2),
        },
    }
}

/// The first `k` cases of a switch, after `acc`.
#[verifier::opaque]
pub open spec fn cases_out(sw: SwitchStatement, k: int, acc: Seq<char>, st: TState, o: Seq<Seq<char>>) -> Out
    decreases sw, k, 0int,
{
    if k <= 0 || k > switch_cases(sw).0.len() {
        (Some(acc), st)
    } else {
        let (r, st1) = cases_out(sw, k - 1, acc, st, o);
        match r {
            None => (None, st1),
            Some(a) => case_out(sw, k - 1, a, st1, o),
        }
    }
}

/// Case `i` of a switch after `acc` (the earlier cases): `if (x == c) {...}`,
/// after an `else` unless it is the first. The tags generated while writing
/// the case, which is read from a copy, are forgotten afterwards.
#[verifier::opaque]
pub open spec fn case_out(sw: SwitchStatement, i: int, acc: Seq<char>, st: TState, o: Seq<Seq<char>>) -> Out
    decreases sw, i, (if 0 <= i < switch_cases(sw).0.len() { switch_cases(sw).0[i].1.len() + 1 } else { 0 }),
{
    proof {
        lemma_switch_cases_inside(sw);
    }
    let cases = switch_cases(sw).0;
    if i < 0 || i >= cases.len() {
        (Some(acc), st)
    } else {
        let c = cases[i];
        let a1 = if i > 0 { acc + "else "@ } else { acc };
        let (x, st2) = expr_out(*sw.expression, st, o);
        match x {
            None => (None, st2),
            Some(x) => {
                let (y, st3) = expr_out(c.0, st2, o);
                let st3b = st3.forget_anon(st2.anon.len() as int);
                match y {
                    None => (None, st3b),
                    Some(y) => {
                        let a2 = a1 + "if ("@ + x + " == "@ + y + ") {\n"@;
                        let (a3, st4) = case_stmts_out(sw, i, c.1.len() as int, a2, st3b, o);
                        (Some(a3 + "}\n"@), st4)
                    },
                }
            },
        }
    }
}

/// The first `j` statements of case `i`, after `acc`; a statement that
/// cannot be written is left out.
#[verifier::opaque]
pub open spec fn case_stmts_out(sw: SwitchStatement, i: int, j: int, acc: Seq<char>, st: TState, o: Seq<Seq<char>>) -> (Seq<char>, TState)
    decreases sw, i, j,
{
    proof {
        lemma_switch_cases_inside(sw);
    }
    let cases = switch_cases(sw).0;
    if i < 0 || i >= cases.len() || j <= 0 || j > cases[i].1.len() {
        (acc, st)
    } else {
        let (a, st1) = case_stmts_out(sw, i, j - 1, acc, st, o);
        let (x, st2) = stmt_out(cases[i].1[j - 1], st1, o);
        let st2b = st2.forget_anon(st1.anon.len() as int);
        match x {
            Some(x) => (a + x, st2b),
            None => (a, st2b),
        }
    }
}

/// The specifiers of a declaration, read in order. A typedef or extern
/// marker sets its flag; the others are added to the specifier text. For a
/// typedef, the struct or enum it names is noted.
#[verifier::opaque]
pub open spec fn decl_specs_out(s: Seq<DeclarationSpecifier>, is_fn_def: bool, top: bool, st: TState, o: Seq<Seq<char>>) -> (Option<DeclFlags>, TState)
    decreases s, 0int, 0int,
{
    if s.len() == 0 {
        (Some(no_flags()), st)
    } else {
        let (r, st1) = decl_specs_out(s.drop_last(), is_fn_def, top, st, o);
        match r {
            None => (None, st1),
            Some(f) => {
                let (se, st2) = struct_or_enum(s.last(), st1, o);
                let f1 = match se {
                    Some((nm, body)) => if f.is_typedef {
                        DeclFlags { td_name: nm, td_body: body, ..f }
                    } else {
                        f
                    },
                    None => f,
                };
                let (x, st3) = decl_spec_out(s.last(), st2, o, !is_fn_def && !f.is_typedef && top);
                match x {
                    None => (None, st3),
                    Some(sp) => {
                        if sp == "\\typedef"@ {
                            (Some(DeclFlags { is_typedef: true, ..f1 }), st3)
                        } else if sp == "\\extern"@ {
                            (Some(DeclFlags { is_extern: true, ..f1 }), st3)
                        } else {
                            (Some(DeclFlags { spec: f1.spec + sp + " "@, ..f1 }), st3)
                        }
                    },
                }
            },
        }
    }
}

/// The declarators of a declaration, after `acc`. A typedef records the new
/// type name (and writes a struct it defines); a function declaration is
/// written as an empty definition between markers unless it is extern, and
/// its name is noted as declared; other declarators become `spec decl;`.
#[verifier::opaque]
pub open spec fn decl_items_out(s: Seq<InitDeclarator>, f: DeclFlags, acc: Seq<char>, st: TState, o: Seq<Seq<char>>) -> Out
    decreases s, 0int, 0int,
{
    if s.len() == 0 {
        (Some(acc), st)
    } else {
        let (r, st1) = decl_items_out(s.drop_last(), f, acc, st, o);
        match r {
            None => (None, st1),
            Some(a) => {
                let dl = s.last();
                let name = decl_name(dl);
                if name is Some && f.is_typedef {
                    let key = "$T_"@ + name->0;
                    if f.td_name.len() > 0 {
                        let a1 = if f.td_body { a + f.spec + ";\n"@ } else { a };
                        (Some(a1), st1.with_typedef(key, f.td_name))
                    } else {
                        (Some(a), st1.with_typedef(key, f.spec))
                    }
                } else if declares_fn(dl) {
                    match name {
                        None => (Some(a), st1),
                        Some(n) => {
                            let pn = "$I_"@ + n;
                            let a1 = if !f.is_extern { a + "\\begin_fn_decl "@ + pn + "\n"@ } else { a };
                            let st2 = if !f.is_extern { st1.with_undef(pn) } else { st1 };
                            let a2 = a1 + f.spec + " "@;
                            let (x, st3) = init_declarator_out(dl, st2, o);
                            match x {
                                None => (None, st3),
                                Some(x) => {
                                    let a3 = a2 + x + "{}\n"@;
                                    let a4 = if !f.is_extern { a3 + "\\end_fn_decl "@ + pn + "\n"@ } else { a3 };
                                    (Some(a4), st3)
                                },
                            }
                        },
                    }
                } else {
                    let (x, st2) = init_declarator_out(dl, st1, o);
                    match x {
                        None => (None, st2),
                        Some(x) => (Some(a + f.spec + " "@ + x + ";\n"@), st2),
                    }
                }
            },
        }
    }
}

/// The state after folding the specifier text `sp` into type names: the
/// folding reports the specifiers it could not fold, when the folded text
/// still holds a space inside it and `sp` held a keyword marker.
pub open spec fn spec_checked(sp: Seq<char>, st: TState) -> TState {
    if trimmed_has_space(shrunk(sp)) && sp.contains('\\') {
        st.warned("!! Unknown specifiers: "@ + sp)
    } else {
        st
    }
}

/// A declaration: its specifiers, folded into type names, then each
/// declarator; without declarators, the specifier text and `;`. At the top
/// level a bare struct declaration without a body writes nothing.
#[verifier::opaque]
pub open spec fn declaration_out(d: Declaration, st: TState, o: Seq<Seq<char>>, top: bool) -> Out
    decreases d, 0int, 0int,
{
    let (r, st1) = decl_specs_out(d.specifiers@, declaration_has_fn(d), top, st, o);
    match r {
        None => (None, st1),
        Some(f) => {
            let st1 = spec_checked(f.spec, st1);
            let spec = shrunk(f.spec);
            if d.declarators@.len() == 0 {
                (Some(spec + ";\n"@), if f.is_typedef { st1.warned("!! Typedef without declarators: "@ + spec) } else { st1 })
            } else {
                decl_items_out(d.declarators@, DeclFlags { spec: spec, ..f }, empty_text(), st1, o)
            }
        },
    }
}


/// A function definition: its declarator line, then the body in braces (an
/// empty body when the body cannot be written), then a blank line.
#[verifier::opaque]
pub open spec fn fn_def_out(f: FunctionDefinition, st: TState, o: Seq<Seq<char>>) -> Out {
    let (r, st1) = ds_list_out(f.specifiers@, empty_text(), st, o);
    match r {
        None => (None, st1),
        Some(sp) => {
            let st1 = spec_checked(sp, st1);
            let (d, st2) = declarator_out(f.declarator, shrunk(sp), st1, o, empty_text());
            match d {
                None => (None, st2),
                Some(d) => {
                    let head = d + "\n"@ + "{\n"@;
                    let (b, st3) = stmt_out(f.statement, st2, o);
                    let body = match b {
                        Some(b) => head + b,
                        None => head,
                    };
                    (Some(body + "}\n"@ + "\n"@), st3)
                },
            }
        },
    }
}

/// The top-level items, split into class declarations (text that begins
/// with `class`) and all other code. A function definition takes its name
/// off the set of functions declared but not yet defined.
#[verifier::opaque]
pub open spec fn items_out(s: Seq<ExternalDeclaration>, st: TState, o: Seq<Seq<char>>) -> (Seq<char>, Seq<char>, TState)
    decreases s.len(),
{
    if s.len() == 0 {
        (empty_text(), empty_text(), st)
    } else {
        let (c, other, st1) = items_out(s.drop_last(), st, o);
        match s.last() {
            ExternalDeclaration::Declaration(d) => {
                let (x, st2) = declaration_out(d, st1, o, true);
                match x {
                    Some(x) => if begins_with(x, "class"@) {
                        (c + x, other, st2)
                    } else {
                        (c, other + x, st2)
                    },
                    None => (c, other, st2),
                }
            },
            ExternalDeclaration::StaticAssert => (c, other, st1),
            ExternalDeclaration::FunctionDefinition(f) => {
                let (x, st2) = fn_def_out(f, st1, o);
                match x {
                    Some(x) => {
                        let st3 = match f.declarator.kind {
                            DeclaratorKind::Identifier(n) => st2.without_undef("$I_"@ + n@),
                            _ => st2.warned("!! Unknown function definition"@),
                        };
                        (c, other + x, st3)
                    },
                    None => (c, other, st2),
                }
            },
        }
    }
}

/// An empty class for each struct declared without a body and never
/// defined, in the order of first declaration.
pub open spec fn empty_decls_text(empty: Seq<Seq<char>>, defined: Seq<Seq<char>>) -> Seq<char>
    decreases empty.len(),
{
    if empty.len() == 0 {
        empty_text()
    } else {
        let pre = empty_decls_text(empty.drop_last(), defined);
        let name = empty.last();
        if defined.contains(name) {
            pre
        } else {
            pre + "class "@ + name + " {};\n"@
        }
    }
}

/// The whole output: the hoisted nested struct classes, the empty classes of
/// structs that are only declared, the top-level classes, then the rest of
/// the code, each under a comment line.
#[verifier::opaque]
pub open spec fn transpile_out(u: TranslationUnit, st: TState, o: Seq<Seq<char>>) -> (Seq<char>, TState) {
    let (c, other, st1) = items_out(u.items@, st, o);
    let e = empty_decls_text(st1.empty_structs, st1.defined_structs);
    (
        "// hoisted nested struct decls:\n"@ + st1.nested + "\n// hoisted empty struct decls:\n"@ + e
            + "\n// non-empty struct decls:\n"@ + c + "\n// other code:\n"@ + other,
        st1,
    )
}

} // verus!
