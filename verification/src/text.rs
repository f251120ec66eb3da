//! Text helpers with their specifications: decimal formatting, number
//! parsing in a radix, substring replacement and character filters.
use vstd::prelude::*;
use crate::outside::{push_char, char_is_numeric, char_is_whitespace, char_numeric, char_whitespace};

verus! {

/// The text a translation step gives back, as a sequence of characters.
pub open spec fn opt_view(r: Option<String>) -> Option<Seq<char>> {
    match r {
        Some(s) => Some(s@),
        None => None,
    }
}

/// The ASCII digit for `d < 10`.
pub open spec fn digit_char(d: nat) -> char {
    (d + 48) as char
}

/// The decimal representation of `n`, without sign or leading zeros.
pub open spec fn dec(n: nat) -> Seq<char>
    decreases n,
{
    if n < 10 {
        seq![digit_char(n)]
    } else {
        dec(n / 10).push(digit_char(n % 10))
    }
}

fn digit(d: u64) -> (c: char)
    requires
        d < 10,
    ensures
        c == digit_char(d as nat),
{
    ((d as u8) + 48u8) as char
}

/// Formats `n` in decimal.
pub fn decimal(n: u64) -> (r: String)
    ensures
        r@ == dec(n as nat),
    decreases n,
{
    if n < 10 {
        let mut s = String::new();
        push_char(&mut s, digit(n));
        s
    } else {
        let mut s = decimal(n / 10);
        push_char(&mut s, digit(n % 10));
        s
    }
}


/// The value of `c` as a digit in `radix`, as `char::to_digit` reads it.
pub open spec fn digit_value(c: char, radix: nat) -> Option<nat> {
    let v: int = if '0' <= c && c <= '9' {
        c as int - 48
    } else if 'a' <= c && c <= 'z' {
        c as int - 87
    } else if 'A' <= c && c <= 'Z' {
        c as int - 55
    } else {
        36
    };
    if v < radix {
        Some(v as nat)
    } else {
        None
    }
}

/// The value of a string of digits in `radix` (0 for the empty string), or
/// `None` when some character is not such a digit.
pub open spec fn digits_value(s: Seq<char>, radix: nat) -> Option<nat>
    decreases s.len(),
{
    if s.len() == 0 {
        Some(0)
    } else {
        match (digits_value(s.drop_last(), radix), digit_value(s.last(), radix)) {
            (Some(v), Some(d)) => Some(v * radix + d),
            _ => None,
        }
    }
}

/// The number that the `from_str_radix` of an integer type with range
/// `min..=max` reads from `s`: an optional `+` (or `-` when `signed`), then at
/// least one digit; `None` for anything else or a value out of range.
pub open spec fn int_from_radix(s: Seq<char>, radix: nat, signed: bool, min: int, max: int) -> Option<int> {
    if s.len() == 0 {
        None
    } else if (s[0] == '+' || s[0] == '-') && s.len() == 1 {
        None
    } else if s[0] == '+' {
        match digits_value(s.drop_first(), radix) {
            Some(v) => if v <= max { Some(v as int) } else { None },
            None => None,
        }
    } else if s[0] == '-' && signed {
        match digits_value(s.drop_first(), radix) {
            Some(v) => if -v >= min { Some(-v) } else { None },
            None => None,
        }
    } else {
        match digits_value(s, radix) {
            Some(v) => if v <= max { Some(v as int) } else { None },
            None => None,
        }
    }
}

/// The number that `i64::from_str_radix` reads from `s`.
pub open spec fn i64_from_radix(s: Seq<char>, radix: nat) -> Option<int> {
    int_from_radix(s, radix, true, i64::MIN as int, i64::MAX as int)
}

/// The number that `u64::from_str` reads from `s`.
pub open spec fn u64_from_decimal(s: Seq<char>) -> Option<int> {
    int_from_radix(s, 10, false, 0, u64::MAX as int)
}

/// Reading more digits never gives a smaller value.
proof fn lemma_digits_extend(t: Seq<char>, u: Seq<char>, radix: nat)
    requires
        radix >= 1,
    ensures
        digits_value(t + u, radix) matches Some(w) ==> (digits_value(t, radix) matches Some(v) && v <= w),
    decreases u.len(),
{
    if u.len() == 0 {
        assert(t + u =~= t);
    } else {
        let tu = t + u;
        assert(tu.drop_last() =~= t + u.drop_last());
        lemma_digits_extend(t, u.drop_last(), radix);
        if let Some(w) = digits_value(tu, radix) {
            let w1 = digits_value(tu.drop_last(), radix).unwrap();
            let d = digit_value(tu.last(), radix).unwrap();
            assert(w == w1 * radix + d);
            assert(w1 * radix >= w1) by (nonlinear_arith)
                requires radix >= 1;
        }
    }
}

fn digit_of(c: char, radix: u64) -> (r: Option<u64>)
    requires
        radix <= 36,
    ensures
        match r {
            Some(d) => digit_value(c, radix as nat) == Some(d as nat),
            None => digit_value(c, radix as nat) is None,
        },
{
    let v: u64 = if '0' <= c && c <= '9' {
        (c as u64) - 48
    } else if 'a' <= c && c <= 'z' {
        (c as u64) - 87
    } else if 'A' <= c && c <= 'Z' {
        (c as u64) - 55
    } else {
        36
    };
    if v < radix {
        Some(v)
    } else {
        None
    }
}

/// Reads the digits of `s` from character `start` on, giving up as soon as
/// the value passes `limit`.
fn digits_upto(s: &str, start: usize, radix: u64, limit: u128) -> (r: Option<u128>)
    requires
        2 <= radix <= 36,
        start <= s@.len(),
        limit < 0x1_0000_0000_0000_0000,
    ensures
        match r {
            Some(v) => digits_value(s@.skip(start as int), radix as nat) == Some(v as nat) && v <= limit,
            None => match digits_value(s@.skip(start as int), radix as nat) {
                Some(v) => v > limit,
                None => true,
            },
        },
{
    let n = s.unicode_len();
    let mut acc: u128 = 0;
    let mut i = start;
    assert(s@.subrange(start as int, start as int) =~= Seq::<char>::empty());
    while i < n
        invariant
            n == s@.len(),
            start <= i <= n,
            2 <= radix <= 36,
            limit < 0x1_0000_0000_0000_0000,
            acc <= limit,
            digits_value(s@.subrange(start as int, i as int), radix as nat) == Some(acc as nat),
        decreases n - i,
    {
        let c = s.get_char(i);
        let ghost pre = s@.subrange(start as int, i as int);
        let ghost next = s@.subrange(start as int, i + 1);
        let ghost rest = s@.subrange(i + 1, n as int);
        assert(next.drop_last() =~= pre);
        assert(next + rest =~= s@.skip(start as int));
        proof { lemma_digits_extend(next, rest, radix as nat); }
        match digit_of(c, radix) {
            None => {
                return None;
            },
            Some(d) => {
                assert(acc * (radix as u128) <= limit * 36) by (nonlinear_arith)
                    requires acc <= limit, radix <= 36;
                let v = acc * (radix as u128) + (d as u128);
                if v > limit {
                    return None;
                }
                acc = v;
                i = i + 1;
            },
        }
    }
    assert(s@.subrange(start as int, n as int) =~= s@.skip(start as int));
    Some(acc)
}

/// The decimal text of `v`, with a `-` for a negative value (what
/// `i64::to_string` writes).
pub open spec fn int_text(v: int) -> Seq<char> {
    if v < 0 {
        "-"@ + dec((-v) as nat)
    } else {
        dec(v as nat)
    }
}

/// The decimal text (`to_string`) of what `i64::from_str_radix(s, radix)`
/// reads, or `None` where that call fails.
pub fn i64_radix_text(s: &str, radix: u64) -> (r: Option<String>)
    requires
        2 <= radix <= 36,
    ensures
        match r {
            Some(t) => i64_from_radix(s@, radix as nat) matches Some(v) && t@ == int_text(v),
            None => i64_from_radix(s@, radix as nat) is None,
        },
{
    let n = s.unicode_len();
    if n == 0 {
        return None;
    }
    let c = s.get_char(0);
    if (c == '+' || c == '-') && n == 1 {
        return None;
    }
    assert(s@.skip(1) =~= s@.drop_first());
    assert(s@.skip(0) =~= s@);
    if c == '+' {
        match digits_upto(s, 1, radix, 0x7fff_ffff_ffff_ffff) {
            Some(v) => Some(decimal(v as u64)),
            None => None,
        }
    } else if c == '-' {
        match digits_upto(s, 1, radix, 0x8000_0000_0000_0000) {
            Some(v) => {
                if v == 0 {
                    Some(decimal(0))
                } else {
                    Some(concat2("-", decimal(v as u64).as_str()))
                }
            },
            None => None,
        }
    } else {
        match digits_upto(s, 0, radix, 0x7fff_ffff_ffff_ffff) {
            Some(v) => Some(decimal(v as u64)),
            None => None,
        }
    }
}

/// What `u64::from_str` (that is, `s.parse::<u64>()`) reads from `s`.
pub fn parse_u64(s: &str) -> (r: Option<u64>)
    ensures
        match r {
            Some(m) => u64_from_decimal(s@) == Some(m as int),
            None => u64_from_decimal(s@) is None,
        },
{
    let n = s.unicode_len();
    if n == 0 {
        return None;
    }
    let c = s.get_char(0);
    if (c == '+' || c == '-') && n == 1 {
        return None;
    }
    assert(s@.skip(1) =~= s@.drop_first());
    assert(s@.skip(0) =~= s@);
    if c == '+' {
        match digits_upto(s, 1, 10, 0xffff_ffff_ffff_ffff) {
            Some(v) => Some(v as u64),
            None => None,
        }
    } else {
        match digits_upto(s, 0, 10, 0xffff_ffff_ffff_ffff) {
            Some(v) => Some(v as u64),
            None => None,
        }
    }
}


/// `s` with every occurrence of `p` replaced by `t`, scanning from the left
/// and never letting two replaced occurrences overlap (the rule of
/// `str::replace`). An empty `p` leaves `s` as it is.
pub open spec fn replaced(s: Seq<char>, p: Seq<char>, t: Seq<char>) -> Seq<char>
    decreases s.len(),
{
    if p.len() == 0 || s.len() < p.len() {
        s
    } else if s.take(p.len() as int) == p {
        t + replaced(s.skip(p.len() as int), p, t)
    } else {
        seq![s[0]] + replaced(s.skip(1), p, t)
    }
}

fn occurs_at(s: &str, i: usize, p: &str, m: usize) -> (r: bool)
    requires
        m == p@.len(),
        i + m <= s@.len(),
    ensures
        r == (s@.subrange(i as int, i + m) == p@),
{
    let _ = s.unicode_len();
    let mut k: usize = 0;
    while k < m
        invariant
            m == p@.len(),
            i + m <= s@.len(),
            s@.len() <= usize::MAX,
            k <= m,
            forall|j: int| 0 <= j < k ==> s@[i + j] == p@[j],
        decreases m - k,
    {
        if s.get_char(i + k) != p.get_char(k) {
            assert(s@.subrange(i as int, i + m)[k as int] != p@[k as int]);
            return false;
        }
        k = k + 1;
    }
    assert(s@.subrange(i as int, i + m) =~= p@);
    true
}

/// Replaces every occurrence of `p` in `s` by `t`, as `str::replace` does.
pub fn replace_all(s: &str, p: &str, t: &str) -> (r: String)
    ensures
        r@ == replaced(s@, p@, t@),
{
    let n = s.unicode_len();
    let m = p.unicode_len();
    let mut r = String::new();
    if m == 0 {
        r.append(s);
        return r;
    }
    let mut i: usize = 0;
    assert(s@.skip(0) =~= s@);
    while i < n
        invariant
            n == s@.len(),
            m == p@.len(),
            m > 0,
            i <= n,
            r@ + replaced(s@.skip(i as int), p@, t@) == replaced(s@, p@, t@),
        decreases n - i,
    {
        let ghost rest = s@.skip(i as int);
        if n - i >= m && occurs_at(s, i, p, m) {
            assert(rest.take(m as int) =~= s@.subrange(i as int, i + m));
            assert(rest.skip(m as int) =~= s@.skip(i + m));
            r.append(t);
            assert(r@ + replaced(s@.skip(i + m), p@, t@) =~= replaced(s@, p@, t@));
            i = i + m;
        } else {
            if n - i >= m {
                assert(rest.take(m as int) =~= s@.subrange(i as int, i + m));
            }
            assert(rest.skip(1) =~= s@.skip(i + 1));
            let c = s.get_char(i);
            push_char(&mut r, c);
            assert(replaced(rest, p@, t@) =~= seq![c] + replaced(s@.skip(i + 1), p@, t@));
            assert(r@ + replaced(s@.skip(i + 1), p@, t@) =~= replaced(s@, p@, t@));
            i = i + 1;
        }
    }
    assert(s@.skip(n as int) =~= Seq::<char>::empty());
    assert(r@ + Seq::<char>::empty() =~= r@);
    r
}

/// The characters of `s` for which `char::is_numeric` holds, in order (what
/// `String::retain(|c| c.is_numeric())` keeps).
pub open spec fn keep_numeric(s: Seq<char>) -> Seq<char>
    decreases s.len(),
{
    if s.len() == 0 {
        s
    } else if char_numeric(s.last()) {
        keep_numeric(s.drop_last()).push(s.last())
    } else {
        keep_numeric(s.drop_last())
    }
}

/// The characters of `s` that are ASCII digits, in order.
pub open spec fn ascii_digits_of(s: Seq<char>) -> Seq<char>
    decreases s.len(),
{
    if s.len() == 0 {
        s
    } else if '0' <= s.last() && s.last() <= '9' {
        ascii_digits_of(s.drop_last()).push(s.last())
    } else {
        ascii_digits_of(s.drop_last())
    }
}

/// Every character of `s` is ASCII.
pub open spec fn all_ascii(s: Seq<char>) -> bool {
    forall|i: int| 0 <= i < s.len() ==> #[trigger] s[i] <= '\u{7f}'
}

/// `s` with the whitespace at both ends cut off (what `str::trim` gives)
/// still holds a space: some space has a character that is not whitespace
/// at or before it and one at or after it.
pub open spec fn trimmed_has_space(s: Seq<char>) -> bool {
    exists|j: int|
        0 <= j < s.len() && #[trigger] s[j] == ' ' && (exists|i: int| 0 <= i <= j && !char_whitespace(#[trigger] s[i])) && (exists|k: int|
            j <= k < s.len() && !char_whitespace(#[trigger] s[k]))
}

/// Whether `s` with the whitespace at both ends cut off holds a space.
pub fn trim_has_space(s: &str) -> (r: bool)
    ensures
        r == trimmed_has_space(s@),
{
    let n = s.unicode_len();
    let mut first: usize = 0;
    let mut stop = false;
    while !stop && first < n
        invariant
            n == s@.len(),
            first <= n,
            forall|i: int| 0 <= i < first ==> char_whitespace(#[trigger] s@[i]),
            stop ==> first < n && !char_whitespace(s@[first as int]),
        decreases n - first + (if stop { 0int } else { 1int }),
    {
        if char_is_whitespace(s.get_char(first)) {
            first = first + 1;
        } else {
            stop = true;
        }
    }
    let mut end: usize = n;
    stop = false;
    while !stop && end > first
        invariant
            n == s@.len(),
            first <= end <= n,
            forall|i: int| 0 <= i < first ==> char_whitespace(#[trigger] s@[i]),
            forall|i: int| end <= i < n ==> char_whitespace(#[trigger] s@[i]),
            first < end ==> !char_whitespace(s@[first as int]),
            stop ==> end > first && !char_whitespace(s@[end - 1]),
        decreases end + (if stop { 0int } else { 1int }),
    {
        if char_is_whitespace(s.get_char(end - 1)) {
            end = end - 1;
        } else {
            stop = true;
        }
    }
    let mut j: usize = first;
    while j < end
        invariant
            n == s@.len(),
            first <= j <= end <= n,
            forall|i: int| first <= i < j ==> #[trigger] s@[i] != ' ',
            forall|i: int| 0 <= i < first ==> char_whitespace(#[trigger] s@[i]),
            forall|i: int| end <= i < n ==> char_whitespace(#[trigger] s@[i]),
            first < end ==> !char_whitespace(s@[first as int]),
            first < end ==> !char_whitespace(s@[end - 1]),
        decreases end - j,
    {
        if s.get_char(j) == ' ' {
            proof {
                assert(!char_whitespace(s@[first as int]));
                assert(!char_whitespace(s@[end - 1]));
                assert(s@[j as int] == ' ');
            }
            return true;
        }
        j = j + 1;
    }
    proof {
        if trimmed_has_space(s@) {
            let jj = choose|jj: int|
                0 <= jj < s@.len() && #[trigger] s@[jj] == ' ' && (exists|i: int| 0 <= i <= jj && !char_whitespace(#[trigger] s@[i])) && (exists|k: int|
                    jj <= k < s@.len() && !char_whitespace(#[trigger] s@[k]));
            let ii = choose|i: int| 0 <= i <= jj && !char_whitespace(#[trigger] s@[i]);
            let kk = choose|k: int| jj <= k < s@.len() && !char_whitespace(#[trigger] s@[k]);
            assert(ii >= first);
            assert(kk < end);
            assert(s@[jj] != ' ');
        }
    }
    false
}

/// Whether `s` holds the character `c`.
pub fn has_char(s: &str, c: char) -> (r: bool)
    ensures
        r == s@.contains(c),
{
    let n = s.unicode_len();
    let mut i: usize = 0;
    while i < n
        invariant
            n == s@.len(),
            i <= n,
            forall|j: int| 0 <= j < i ==> #[trigger] s@[j] != c,
        decreases n - i,
    {
        if s.get_char(i) == c {
            assert(s@[i as int] == c);
            return true;
        }
        i = i + 1;
    }
    false
}

/// Keeps the numeric characters of `s`. On ASCII text these are its digits.
pub fn retain_numeric(s: &str) -> (r: String)
    ensures
        r@ == keep_numeric(s@),
        all_ascii(s@) ==> r@ == ascii_digits_of(s@),
{
    let n = s.unicode_len();
    let mut r = String::new();
    let mut i: usize = 0;
    assert(s@.take(0) =~= Seq::<char>::empty());
    while i < n
        invariant
            n == s@.len(),
            i <= n,
            r@ == keep_numeric(s@.take(i as int)),
            all_ascii(s@) ==> r@ == ascii_digits_of(s@.take(i as int)),
        decreases n - i,
    {
        let c = s.get_char(i);
        assert(s@.take(i + 1).drop_last() =~= s@.take(i as int));
        assert(s@.take(i + 1).last() == c);
        assert(all_ascii(s@) ==> c <= '\u{7f}') by {
            if all_ascii(s@) {
                assert(s@[i as int] <= '\u{7f}');
            }
        }
        if char_is_numeric(c) {
            push_char(&mut r, c);
        }
        i = i + 1;
    }
    assert(s@.take(n as int) =~= s@);
    r
}

/// Whether two strings hold the same characters.
pub fn same_text(a: &str, b: &str) -> (r: bool)
    ensures
        r == (a@ == b@),
{
    let n = a.unicode_len();
    if n != b.unicode_len() {
        return false;
    }
    let mut i: usize = 0;
    while i < n
        invariant
            n == a@.len(),
            n == b@.len(),
            i <= n,
            forall|j: int| 0 <= j < i ==> a@[j] == b@[j],
        decreases n - i,
    {
        if a.get_char(i) != b.get_char(i) {
            return false;
        }
        i = i + 1;
    }
    assert(a@ =~= b@);
    true
}

/// Whether `s` begins with `p`.
pub open spec fn begins_with(s: Seq<char>, p: Seq<char>) -> bool {
    p.len() <= s.len() && s.take(p.len() as int) == p
}

/// Whether `s` begins with `p`, as `str::starts_with` answers.
pub fn starts_with(s: &str, p: &str) -> (r: bool)
    ensures
        r == begins_with(s@, p@),
{
    let n = s.unicode_len();
    let m = p.unicode_len();
    if m > n {
        return false;
    }
    let r = occurs_at(s, 0, p, m);
    assert(s@.subrange(0, m as int) =~= s@.take(m as int));
    r
}

/// Copies a string slice into a new `String`.
pub fn text(s: &str) -> (r: String)
    ensures
        r@ == s@,
{
    String::from_str(s)
}

/// The concatenation of two strings.
pub fn concat2(a: &str, b: &str) -> (r: String)
    ensures
        r@ == a@ + b@,
{
    let mut r = String::from_str(a);
    r.append(b);
    r
}


/// The type specifier text after the spelled-out C type keywords have been
/// folded into the short type names of the target language (`\unsigned
/// \long \long \int` becomes `u64`, `\char` becomes `i8`, and so on), longest
/// keyword sequences first.
#[verifier::opaque]
pub open spec fn shrunk(s: Seq<char>) -> Seq<char> {
    let s0 = replaced(s, "\\unsigned \\long \\long \\int"@, "u64"@);
    let s1 = replaced(s0, "\\signed \\long \\long \\int"@, "i64"@);
    let s2 = replaced(s1, "\\long \\long \\int"@, "i64"@);
    let s3 = replaced(s2, "\\unsigned \\short \\int"@, "u16"@);
    let s4 = replaced(s3, "\\signed \\short \\int"@, "i16"@);
    let s5 = replaced(s4, "\\unsigned \\long \\long"@, "u64"@);
    let s6 = replaced(s5, "\\signed \\long \\long"@, "i64"@);
    let s7 = replaced(s6, "\\long \\unsigned \\int"@, "u32"@);
    let s8 = replaced(s7, "\\unsigned \\long \\int"@, "u32"@);
    let s9 = replaced(s8, "\\signed \\long \\int"@, "i32"@);
    let s10 = replaced(s9, "\\short \\int"@, "i16"@);
    let s11 = replaced(s10, "\\long \\long"@, "i64"@);
    let s12 = replaced(s11, "\\long \\int"@, "i32"@);
    let s13 = replaced(s12, "\\unsigned \\char"@, "u8"@);
    let s14 = replaced(s13, "\\signed \\char"@, "i8"@);
    let s15 = replaced(s14, "\\unsigned \\short"@, "u16"@);
    let s16 = replaced(s15, "\\signed \\short"@, "i16"@);
    let s17 = replaced(s16, "\\unsigned \\long"@, "u32"@);
    let s18 = replaced(s17, "\\signed \\long"@, "i32"@);
    let s19 = replaced(s18, "\\unsigned \\int"@, "u32"@);
    let s20 = replaced(s19, "\\signed \\int"@, "i32"@);
    let s21 = replaced(s20, "\\long \\long"@, "i64"@);
    let s22 = replaced(s21, "\\long \\double"@, "f64"@);
    let s23 = replaced(s22, "\\unsigned"@, "u32"@);
    let s24 = replaced(s23, "\\signed"@, "i32"@);
    let s25 = replaced(s24, "\\int"@, "i32"@);
    let s26 = replaced(s25, "\\short"@, "i16"@);
    let s27 = replaced(s26, "\\char"@, "i8"@);
    let s28 = replaced(s27, "\\long"@, "i32"@);
    let s29 = replaced(s28, "\\float"@, "f32"@);
    let s30 = replaced(s29, "\\double"@, "f64"@);
    let s31 = replaced(s30, "\\bool"@, "i8"@);
    let s32 = replaced(s31, "\\void"@, "v0"@);
    s32
}

/// Folds the C type keywords of a specifier list into the target type names.
pub fn shrink_spec(real_input: String) -> (r: String)
    ensures
        r@ == shrunk(real_input@),
{
    reveal(shrunk);
    let input = real_input;
    let input = replace_all(input.as_str(), "\\unsigned \\long \\long \\int", "u64");
    let input = replace_all(input.as_str(), "\\signed \\long \\long \\int", "i64");
    let input = replace_all(input.as_str(), "\\long \\long \\int", "i64");
    let input = replace_all(input.as_str(), "\\unsigned \\short \\int", "u16");
    let input = replace_all(input.as_str(), "\\signed \\short \\int", "i16");
    let input = replace_all(input.as_str(), "\\unsigned \\long \\long", "u64");
    let input = replace_all(input.as_str(), "\\signed \\long \\long", "i64");
    let input = replace_all(input.as_str(), "\\long \\unsigned \\int", "u32");
    let input = replace_all(input.as_str(), "\\unsigned \\long \\int", "u32");
    let input = replace_all(input.as_str(), "\\signed \\long \\int", "i32");
    let input = replace_all(input.as_str(), "\\short \\int", "i16");
    let input = replace_all(input.as_str(), "\\long \\long", "i64");
    let input = replace_all(input.as_str(), "\\long \\int", "i32");
    let input = replace_all(input.as_str(), "\\unsigned \\char", "u8");
    let input = replace_all(input.as_str(), "\\signed \\char", "i8");
    let input = replace_all(input.as_str(), "\\unsigned \\short", "u16");
    let input = replace_all(input.as_str(), "\\signed \\short", "i16");
    let input = replace_all(input.as_str(), "\\unsigned \\long", "u32");
    let input = replace_all(input.as_str(), "\\signed \\long", "i32");
    let input = replace_all(input.as_str(), "\\unsigned \\int", "u32");
    let input = replace_all(input.as_str(), "\\signed \\int", "i32");
    let input = replace_all(input.as_str(), "\\long \\long", "i64");
    let input = replace_all(input.as_str(), "\\long \\double", "f64");
    let input = replace_all(input.as_str(), "\\unsigned", "u32");
    let input = replace_all(input.as_str(), "\\signed", "i32");
    let input = replace_all(input.as_str(), "\\int", "i32");
    let input = replace_all(input.as_str(), "\\short", "i16");
    let input = replace_all(input.as_str(), "\\char", "i8");
    let input = replace_all(input.as_str(), "\\long", "i32");
    let input = replace_all(input.as_str(), "\\float", "f32");
    let input = replace_all(input.as_str(), "\\double", "f64");
    let input = replace_all(input.as_str(), "\\bool", "i8");
    let input = replace_all(input.as_str(), "\\void", "v0");
    input
}

} // verus!
