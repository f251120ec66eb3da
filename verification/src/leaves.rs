//! The pieces of the translation that need no state: storage classes,
//! operators, constants, string literals, enums and array sizes.
use vstd::prelude::*;
use crate::ast::{
    BinaryOperator, Constant, Declaration, DeclaratorKind, DerivedDeclarator, EnumType,
    InitDeclarator, IntegerBase, MemberOperator, StorageClassSpecifier, TypeQualifier,
    UnaryOperator,
};
use crate::model::{
    binary_symbol, binary_text, constant_text, decl_name, declaration_has_fn, declares_fn,
    digit_string, empty_text, enum_items, enum_text, float_text, imm_from, imm_text, integer_text,
    is_fn_derived, member_text, piece_ok, pieces_ok, pieces_quoted, pieces_text, radix_of, storage_text,
    unary_text,
};
use crate::outside::{captures_view, regex_captures, regex_is_match};
use crate::text::{
    all_ascii, ascii_digits_of, concat2, dec, decimal, digit_char, digit_value, digits_value,
    i64_radix_text, opt_view, parse_u64, retain_numeric, text,
};

verus! {

broadcast use {
    crate::state::lemma_prefix_trans,
    crate::state::lemma_prefix_refl,
    crate::state::lemma_text_prefix_trans,
    crate::state::lemma_text_prefix_refl,
};

/// The marker for a storage class specifier.
pub fn transpile_storage_class_specifier(node: &StorageClassSpecifier) -> (r: Option<String>)
    ensures
        opt_view(r) == storage_text(*node),
{
    match node {
        StorageClassSpecifier::Typedef => Some(text("\\typedef")),
        StorageClassSpecifier::Extern => Some(text("\\extern")),
        StorageClassSpecifier::Static => Some(String::new()),
        StorageClassSpecifier::ThreadLocal => Some(String::new()),
        StorageClassSpecifier::Auto => None,
        StorageClassSpecifier::Register => Some(String::new()),
    }
}

/// Type qualifiers are dropped.
pub fn transpile_type_qualifier(node: &TypeQualifier) -> (r: String)
    ensures
        r@ == empty_text(),
{
    String::new()
}

/// A unary operator applied to the text of its operand.
pub fn transpile_unary_operator(node: &UnaryOperator, operand: String) -> (r: String)
    ensures
        r@ == unary_text(*node, operand@),
{
    match node {
        UnaryOperator::PostIncrement => {
            let mut s = operand;
            s.append("++");
            s
        },
        UnaryOperator::PostDecrement => {
            let mut s = operand;
            s.append("--");
            s
        },
        UnaryOperator::PreIncrement => concat2("++", operand.as_str()),
        UnaryOperator::PreDecrement => concat2("--", operand.as_str()),
        UnaryOperator::Address => concat2("&", operand.as_str()),
        UnaryOperator::Indirection => concat2("*", operand.as_str()),
        UnaryOperator::Plus => concat2("+", operand.as_str()),
        UnaryOperator::Minus => concat2("-", operand.as_str()),
        UnaryOperator::Complement => concat2("~", operand.as_str()),
        UnaryOperator::Negate => concat2("!", operand.as_str()),
    }
}

pub(crate) fn binary_symbol_text(op: &BinaryOperator) -> (r: &'static str)
    ensures
        r@ == binary_symbol(*op),
{
    match op {
        BinaryOperator::Index => "[",
        BinaryOperator::Multiply => "*",
        BinaryOperator::Divide => "/",
        BinaryOperator::Modulo => "%",
        BinaryOperator::Plus => "+",
        BinaryOperator::Minus => "-",
        BinaryOperator::ShiftLeft => "<<",
        BinaryOperator::ShiftRight => ">>",
        BinaryOperator::Less => "<",
        BinaryOperator::Greater => ">",
        BinaryOperator::LessOrEqual => "<=",
        BinaryOperator::GreaterOrEqual => ">=",
        BinaryOperator::Equals => "==",
        BinaryOperator::NotEquals => "!=",
        BinaryOperator::BitwiseAnd => "&",
        BinaryOperator::BitwiseXor => "^",
        BinaryOperator::BitwiseOr => "|",
        BinaryOperator::LogicalAnd => "&",
        BinaryOperator::LogicalOr => "|",
        BinaryOperator::Assign => "=",
        BinaryOperator::AssignMultiply => "*=",
        BinaryOperator::AssignDivide => "/=",
        BinaryOperator::AssignModulo => "%=",
        BinaryOperator::AssignPlus => "+=",
        BinaryOperator::AssignMinus => "-=",
        BinaryOperator::AssignShiftLeft => "<<=",
        BinaryOperator::AssignShiftRight => ">>=",
        BinaryOperator::AssignBitwiseAnd => "&=",
        BinaryOperator::AssignBitwiseXor => "^=",
        BinaryOperator::AssignBitwiseOr => "|=",
    }
}

/// A binary operator applied to the texts of its operands.
pub fn transpile_binary_operator(node: &BinaryOperator, lhs: String, rhs: String) -> (r: String)
    ensures
        r@ == binary_text(*node, lhs@, rhs@),
{
    let mut s = lhs;
    s.append(binary_symbol_text(node));
    s.append(rhs.as_str());
    match node {
        BinaryOperator::Index => {
            s.append("]");
        },
        _ => {},
    }
    s
}

pub(crate) fn member_symbol_text(op: &MemberOperator) -> (r: &'static str)
    ensures
        r@ == member_text(*op),
{
    match op {
        MemberOperator::Direct => ".",
        MemberOperator::Indirect => "->",
    }
}

/// The value of an array size given what the two regular expressions found
/// in it: the groups the shift pattern captured, and whether it is a number.
pub fn eval_imm_captures(expr: &str, shift: &Option<Vec<Option<String>>>, is_number: bool) -> (r: Option<String>)
    ensures
        opt_view(r) == imm_from(expr@, captures_view(*shift), is_number),
{
    match shift {
        Some(groups) => {
            if groups.len() > 2 {
                match (&groups[1], &groups[2]) {
                    (Some(a), Some(b)) => match (parse_u64(a.as_str()), parse_u64(b.as_str())) {
                        (Some(l), Some(r)) => {
                            if r < 64 {
                                Some(decimal(l << r))
                            } else {
                                None
                            }
                        },
                        _ => None,
                    },
                    _ => None,
                }
            } else {
                None
            }
        },
        None => {
            if is_number {
                Some(text(expr))
            } else {
                Some(text("0"))
            }
        },
    }
}

/// The value of an array size: a shift of two numbers is computed, a number
/// is kept, anything else becomes 0; `None` where that computation cannot go
/// on.
pub fn eval_imm_expr(expr: &str) -> (r: Option<String>)
    ensures
        opt_view(r) == imm_text(expr@),
{
    let shift = regex_captures("^\\((\\d+)\\)<<\\((\\d+)\\)$", expr);
    let is_number = match &shift {
        Some(_) => false,
        None => regex_is_match("^(\\d+)$", expr),
    };
    eval_imm_captures(expr, &shift, is_number)
}

/// The constants of an enum.
pub fn transpile_enum(node: &EnumType) -> (r: String)
    ensures
        r@ == enum_text(node.enumerators@),
{
    let n = node.enumerators.len();
    if n == 0 {
        return text("i32");
    }
    let mut code = String::new();
    let mut i: usize = 0;
    while i < n
        invariant
            n == node.enumerators@.len(),
            i <= n,
            code@ == enum_items(node.enumerators@.take(i as int), n as int),
        decreases n - i,
    {
        assert(node.enumerators@.take(i + 1).drop_last() =~= node.enumerators@.take(i as int));
        code.append("i32 ");
        code.append("$I_");
        code.append(node.enumerators[i].as_str());
        code.append(" = ");
        code.append(decimal(i as u64).as_str());
        if i < n - 1 {
            code.append(";\n");
        }
        i = i + 1;
    }
    assert(node.enumerators@.take(n as int) =~= node.enumerators@);
    code
}

proof fn lemma_digit_string_value(s: Seq<char>, radix: nat)
    requires
        radix <= 36,
        forall|i: int| 0 <= i < s.len() ==> (#[trigger] digit_value(s[i], radix)) is Some,
    ensures
        digits_value(s, radix) is Some,
        all_ascii(s),
    decreases s.len(),
{
    if s.len() > 0 {
        assert forall|i: int| 0 <= i < s.drop_last().len() implies (#[trigger] digit_value(s.drop_last()[i], radix)) is Some by {
            assert(s.drop_last()[i] == s[i]);
        }
        lemma_digit_string_value(s.drop_last(), radix);
        assert(digit_value(s[s.len() - 1], radix) is Some);
    }
    assert forall|i: int| 0 <= i < s.len() implies #[trigger] s[i] <= '\u{7f}' by {
        assert(digit_value(s[i], radix) is Some);
    }
}

proof fn lemma_ascii_digits_of_digits(s: Seq<char>)
    requires
        forall|i: int| 0 <= i < s.len() ==> '0' <= #[trigger] s[i] && s[i] <= '9',
    ensures
        ascii_digits_of(s) == s,
        all_ascii(s),
    decreases s.len(),
{
    if s.len() > 0 {
        assert forall|i: int| 0 <= i < s.drop_last().len() implies '0' <= #[trigger] s.drop_last()[i] && s.drop_last()[i] <= '9' by {
            assert(s.drop_last()[i] == s[i]);
        }
        lemma_ascii_digits_of_digits(s.drop_last());
        assert(s.drop_last().push(s.last()) =~= s);
        assert('0' <= s[s.len() - 1]);
    }
    assert forall|i: int| 0 <= i < s.len() implies #[trigger] s[i] <= '\u{7f}' by {
        assert('0' <= s[i] && s[i] <= '9');
    }
}

proof fn lemma_dec_digits(n: nat)
    ensures
        forall|i: int| 0 <= i < dec(n).len() ==> '0' <= #[trigger] dec(n)[i] && dec(n)[i] <= '9',
        dec(n).len() > 0,
    decreases n,
{
    assert(digit_char(n % 10) as int == n % 10 + 48);
    if n >= 10 {
        lemma_dec_digits(n / 10);
        assert forall|i: int| 0 <= i < dec(n).len() implies '0' <= #[trigger] dec(n)[i] && dec(n)[i] <= '9' by {
            if i < dec(n / 10).len() {
                assert(dec(n)[i] == dec(n / 10)[i]);
            }
        }
    }
}

/// A constant; `None` where an integer does not fit in `i64`. An integer
/// written with the digits of its base comes out as those digits in decimal,
/// and in another base as the decimal digits of its value.
pub fn transpile_constant(node: &Constant) -> (r: Option<String>)
    ensures
        opt_view(r) == constant_text(*node),
        *node matches Constant::Integer(base, n) ==> (digit_string(n@, radix_of(base)) ==> opt_view(r) == integer_text(base, n@)),
        *node matches Constant::Integer(IntegerBase::Decimal, n) ==> (all_ascii(n@) ==> opt_view(r) == Some(ascii_digits_of(n@))),
{
    match node {
        Constant::Character(s) => Some(s.clone()),
        Constant::Integer(base, n) => {
            let ghost is_digits = digit_string(n@, radix_of(*base));
            proof {
                if is_digits {
                    lemma_digit_string_value(n@, radix_of(*base));
                }
            }
            let radix: u64 = match base {
                IntegerBase::Decimal => {
                    proof {
                        if is_digits {
                            assert forall|i: int| 0 <= i < n@.len() implies '0' <= #[trigger] n@[i] && n@[i] <= '9' by {
                                assert(digit_value(n@[i], 10) is Some);
                            }
                            lemma_ascii_digits_of_digits(n@);
                        }
                    }
                    return Some(retain_numeric(n.as_str()));
                },
                IntegerBase::Octal => 8,
                IntegerBase::Hexadecimal => 16,
                IntegerBase::Binary => 2,
            };
            proof {
                if is_digits {
                    assert(digit_value(n@[0], radix as nat) is Some);
                }
            }
            match i64_radix_text(n.as_str(), radix) {
                Some(t) => {
                    proof {
                        if is_digits {
                            let v = digits_value(n@, radix as nat)->0;
                            lemma_dec_digits(v);
                            lemma_ascii_digits_of_digits(dec(v));
                        }
                    }
                    Some(retain_numeric(t.as_str()))
                },
                None => None,
            }
        },
        Constant::Float(n) => Some(float_number(n.as_str())),
    }
}

/// The number of a floating constant as written, without a trailing type
/// suffix letter (`f`, `F`, `l` or `L`) where the text still holds one.
pub fn float_number(n: &str) -> (r: String)
    ensures
        r@ == float_text(n@),
{
    let m = n.unicode_len();
    if m > 0 {
        let c = n.get_char(m - 1);
        if c == 'f' || c == 'F' || c == 'l' || c == 'L' {
            return text(n.substring_char(0, m - 1));
        }
    }
    text(n)
}

/// Whether every piece of a string literal starts and ends with a double
/// quote.
pub fn string_pieces_quoted(pieces: &Vec<String>) -> (r: bool)
    ensures
        r == pieces_quoted(pieces@),
{
    let n = pieces.len();
    let mut i: usize = 0;
    while i < n
        invariant
            n == pieces@.len(),
            i <= n,
            forall|j: int| 0 <= j < i ==> (#[trigger] pieces@[j])@.len() > 0 && pieces@[j]@[0] == '"' && pieces@[j]@.last() == '"',
        decreases n - i,
    {
        let z = pieces[i].as_str();
        let m = z.unicode_len();
        if m == 0 || z.get_char(0) != '"' || z.get_char(m - 1) != '"' {
            return false;
        }
        i = i + 1;
    }
    true
}

/// A string literal: its pieces joined without their quotes, in one pair of
/// quotes; `None` where a piece cannot be cut.
pub fn transpile_string_literal(pieces: &Vec<String>) -> (r: Option<String>)
    ensures
        opt_view(r) == (if pieces_ok(pieces@) { Some(pieces_text(pieces@, "\""@) + "\""@) } else { None::<Seq<char>> }),
{
    let n = pieces.len();
    let mut code = text("\"");
    let mut i: usize = 0;
    while i < n
        invariant
            n == pieces@.len(),
            i <= n,
            forall|j: int| 0 <= j < i ==> piece_ok(#[trigger] pieces@[j]@),
            code@ == pieces_text(pieces@.take(i as int), "\""@),
        decreases n - i,
    {
        assert(pieces@.take(i + 1).drop_last() =~= pieces@.take(i as int));
        let z = pieces[i].as_str();
        let m = z.unicode_len();
        if m < 2 {
            assert(!piece_ok(pieces@[i as int]@));
            return None;
        }
        let first = z.get_char(0);
        let last = z.get_char(m - 1);
        if (first as u32) >= 128 || (last as u32) >= 128 {
            assert(!piece_ok(pieces@[i as int]@));
            return None;
        }
        code.append(z.substring_char(1, m - 1));
        i = i + 1;
    }
    assert(pieces@.take(n as int) =~= pieces@);
    code.append("\"");
    Some(code)
}

/// The name a declarator declares directly, if any.
pub fn get_decl_name(node: &InitDeclarator) -> (r: Option<String>)
    ensures
        opt_view(r) == decl_name(*node),
{
    match &node.declarator.kind {
        DeclaratorKind::Identifier(ident) => Some(ident.clone()),
        _ => None,
    }
}

pub(crate) fn declarator_declares_fn(d: &InitDeclarator) -> (r: bool)
    ensures
        r == declares_fn(*d),
{
    let n = d.declarator.derived.len();
    let mut i: usize = 0;
    while i < n
        invariant
            n == d.declarator.derived@.len(),
            i <= n,
            forall|j: int| 0 <= j < i ==> !is_fn_derived(#[trigger] d.declarator.derived@[j]),
        decreases n - i,
    {
        match &d.declarator.derived[i] {
            DerivedDeclarator::Function(_) => {
                assert(is_fn_derived(d.declarator.derived@[i as int]));
                return true;
            },
            DerivedDeclarator::KRFunction(_) => {
                assert(is_fn_derived(d.declarator.derived@[i as int]));
                return true;
            },
            _ => {},
        }
        i = i + 1;
    }
    false
}

pub(crate) fn declaration_declares_fn(d: &Declaration) -> (r: bool)
    ensures
        r == declaration_has_fn(*d),
{
    let n = d.declarators.len();
    let mut i: usize = 0;
    while i < n
        invariant
            n == d.declarators@.len(),
            i <= n,
            forall|j: int| 0 <= j < i ==> !declares_fn(#[trigger] d.declarators@[j]),
        decreases n - i,
    {
        if declarator_declares_fn(&d.declarators[i]) {
            return true;
        }
        i = i + 1;
    }
    false
}

} // verus!
