//! The last pass over the generated text. Each function declaration that is
//! not extern is written between a `\begin_fn_decl NAME` line and an
//! `\end_fn_decl NAME` line. When the function was never defined, only the
//! two marker lines are removed, so that the empty definition stays; when it
//! was defined later, the whole block is removed.
//!
//! The pass works on the UTF-8 bytes of the text, as the positions that
//! `str::find` gives and `String::replace_range` takes are byte offsets.
use vstd::prelude::*;
use vstd::utf8::{encode_utf8, is_ascii_chars, is_ascii_chars_encode_utf8};
use crate::state::State;

verus! {

/// The bytes that open a marked declaration.
pub open spec fn begin_marker() -> Seq<u8> {
    encode_utf8("\\begin_fn_decl "@)
}

/// The bytes that open the line closing a marked declaration.
pub open spec fn end_marker() -> Seq<u8> {
    encode_utf8("\\end_fn_decl "@)
}

/// A line end.
pub open spec fn newline() -> Seq<u8> {
    seq![10u8]
}

/// `p` occurs in `t` at position `i`.
pub open spec fn occurs(t: Seq<u8>, p: Seq<u8>, i: int) -> bool {
    0 <= i && i + p.len() <= t.len() && t.subrange(i, i + p.len()) == p
}

/// The first position at or after `from` where `p` occurs in `t`.
pub open spec fn find_from(t: Seq<u8>, p: Seq<u8>, from: int) -> Option<int>
    decreases t.len() + 1 - from,
{
    if from < 0 || from + p.len() > t.len() {
        None
    } else if occurs(t, p, from) {
        Some(from)
    } else {
        find_from(t, p, from + 1)
    }
}

/// `i` is the start of a character in the UTF-8 text `t`, or its end.
pub open spec fn boundary(t: Seq<u8>, i: int) -> bool {
    i == t.len() || (0 <= i < t.len() && !(128 <= t[i] < 192))
}

/// `t` without the bytes from `a` up to `b`.
pub open spec fn cut(t: Seq<u8>, a: int, b: int) -> Seq<u8> {
    t.subrange(0, a) + t.subrange(b, t.len() as int)
}

/// The name written after the begin marker at `p`: the rest of its line.
pub open spec fn marked_name(t: Seq<u8>, p: int) -> Seq<u8> {
    let s = p + begin_marker().len();
    match find_from(t, newline(), s) {
        Some(k) => t.subrange(s, k),
        None => t.subrange(s, t.len() as int),
    }
}

/// Resolves the block whose begin marker is at `p`. The end marker is the
/// first line that starts with the end marker and the name (searched from
/// the start of the text). For a name in `undef`, the end marker line and
/// then the begin marker line are removed (the second removal at the
/// positions found before the first); otherwise the text from the begin
/// marker to the end of the end marker's line goes. `None` where the text
/// has no such end marker or line end, or where a removal would not start
/// and end at character starts in order.
pub open spec fn resolve_step(t: Seq<u8>, p: int, undef: Seq<Seq<u8>>) -> Option<Seq<u8>> {
    let name = marked_name(t, p);
    match find_from(t, end_marker() + name, 0) {
        None => None,
        Some(q) => match (find_from(t, newline(), q), find_from(t, newline(), p)) {
            (Some(e), Some(bend)) => {
                if undef.contains(name) {
                    let t1 = cut(t, q, e);
                    if p <= bend && boundary(t1, p) && boundary(t1, bend) {
                        Some(cut(t1, p, bend))
                    } else {
                        None
                    }
                } else if p <= e {
                    Some(cut(t, p, e))
                } else {
                    None
                }
            },
            _ => None,
        },
    }
}

/// Resolves marked blocks, always the first remaining begin marker, until
/// none is left. `None` where a step cannot be done.
pub open spec fn resolved(t: Seq<u8>, undef: Seq<Seq<u8>>) -> Option<Seq<u8>>
    decreases t.len(),
{
    match find_from(t, begin_marker(), 0) {
        None => Some(t),
        Some(p) => {
            proof {
                lemma_step_shrinks(t, p, undef);
            }
            match resolve_step(t, p, undef) {
                None => None,
                Some(t2) => resolved(t2, undef),
            }
        },
    }
}

/// What the search finds is an occurrence, at or after where it started.
pub proof fn lemma_find_from(t: Seq<u8>, p: Seq<u8>, from: int)
    ensures
        find_from(t, p, from) matches Some(i) ==> from <= i && occurs(t, p, i),
    decreases t.len() + 1 - from,
{
    if !(from < 0 || from + p.len() > t.len()) && !occurs(t, p, from) {
        lemma_find_from(t, p, from + 1);
    }
}

/// The two markers are ASCII: each starts with a backslash.
pub proof fn lemma_markers()
    ensures
        begin_marker().len() == 15,
        end_marker().len() == 13,
        begin_marker()[0] == 92u8,
        end_marker()[0] == 92u8,
{
    reveal_strlit("\\begin_fn_decl ");
    reveal_strlit("\\end_fn_decl ");
    assert(is_ascii_chars("\\begin_fn_decl "@));
    assert(is_ascii_chars("\\end_fn_decl "@));
    is_ascii_chars_encode_utf8("\\begin_fn_decl "@);
    is_ascii_chars_encode_utf8("\\end_fn_decl "@);
}

/// A step makes the text shorter.
pub proof fn lemma_step_shrinks(t: Seq<u8>, p: int, undef: Seq<Seq<u8>>)
    requires
        find_from(t, begin_marker(), 0) == Some(p),
    ensures
        resolve_step(t, p, undef) matches Some(t2) ==> t2.len() < t.len(),
{
    lemma_markers();
    lemma_find_from(t, begin_marker(), 0);
    assert(t[p] == t.subrange(p, p + begin_marker().len())[0]);
    let name = marked_name(t, p);
    lemma_find_from(t, end_marker() + name, 0);
    if let Some(q) = find_from(t, end_marker() + name, 0) {
        assert(t[q] == t.subrange(q, q + (end_marker() + name).len())[0]);
        lemma_find_from(t, newline(), q);
        lemma_find_from(t, newline(), p);
        if let (Some(e), Some(bend)) = (find_from(t, newline(), q), find_from(t, newline(), p)) {
            assert(t[e] == t.subrange(e, e + 1)[0]);
        }
    }
}

/// Whether `p` occurs in `t` at `i`.
fn occurs_at(t: &[u8], p: &[u8], i: usize) -> (r: bool)
    requires
        i + p@.len() <= t@.len(),
    ensures
        r == occurs(t@, p@, i as int),
{
    let n = t.len();
    let m = p.len();
    let mut k: usize = 0;
    while k < m
        invariant
            m == p@.len(),
            n == t@.len(),
            i + m <= n,
            k <= m,
            forall|j: int| 0 <= j < k ==> t@[i + j] == p@[j],
        decreases m - k,
    {
        if t[i + k] != p[k] {
            assert(t@.subrange(i as int, i + m)[k as int] != p@[k as int]);
            return false;
        }
        k = k + 1;
    }
    assert(t@.subrange(i as int, i + m) =~= p@);
    true
}

/// The first position at or after `from` where `p` occurs in `t`.
fn find_bytes(t: &[u8], p: &[u8], from: usize) -> (r: Option<usize>)
    ensures
        match r {
            Some(i) => find_from(t@, p@, from as int) == Some(i as int),
            None => find_from(t@, p@, from as int) is None,
        },
{
    let n = t.len();
    let m = p.len();
    if from > n || n - from < m {
        return None;
    }
    if m == 0 {
        assert(t@.subrange(from as int, from as int) =~= p@);
        return Some(from);
    }
    let mut i = from;
    while n - i >= m
        invariant
            n == t@.len(),
            m == p@.len(),
            m >= 1,
            from <= i <= n,
            find_from(t@, p@, from as int) == find_from(t@, p@, i as int),
        decreases n - i,
    {
        if occurs_at(t, p, i) {
            return Some(i);
        }
        i = i + 1;
    }
    None
}

/// `t` without the bytes from `a` up to `b`.
fn cut_bytes(t: &[u8], a: usize, b: usize) -> (r: Vec<u8>)
    requires
        a <= b <= t@.len(),
    ensures
        r@ == cut(t@, a as int, b as int),
{
    let mut r: Vec<u8> = Vec::new();
    let mut i: usize = 0;
    while i < a
        invariant
            a <= b <= t@.len(),
            i <= a,
            r@ == t@.subrange(0, i as int),
        decreases a - i,
    {
        r.push(t[i]);
        i = i + 1;
    }
    let n = t.len();
    let mut j: usize = b;
    while j < n
        invariant
            a <= b <= j <= n,
            n == t@.len(),
            r@ == t@.subrange(0, a as int) + t@.subrange(b as int, j as int),
        decreases n - j,
    {
        r.push(t[j]);
        j = j + 1;
    }
    r
}

fn is_boundary(t: &[u8], i: usize) -> (r: bool)
    ensures
        r == boundary(t@, i as int),
{
    i == t.len() || (i < t.len() && !(128 <= t[i] && t[i] < 192))
}

/// Whether the name occurs among the names of functions declared but not
/// defined.
fn is_undefined(state: &State, name: &[u8]) -> (r: bool)
    ensures
        r == undef_bytes(state@.undef_fns).contains(name@),
{
    let n = state.undef_fn_count();
    let mut i: usize = 0;
    while i < n
        invariant
            n == state@.undef_fns.len(),
            i <= n,
            forall|j: int| 0 <= j < i ==> undef_bytes(state@.undef_fns)[j] != name@,
        decreases n - i,
    {
        let u = state.undef_fn_at(i).as_str().as_bytes();
        if u.len() == name.len() && occurs_at(u, name, 0) {
            assert(u@.subrange(0, name@.len() as int) =~= u@);
            assert(undef_bytes(state@.undef_fns)[i as int] == name@);
            return true;
        }
        assert(u@.len() == name@.len() ==> u@.subrange(0, name@.len() as int) =~= u@);
        i = i + 1;
    }
    false
}

/// The UTF-8 bytes of each name.
pub open spec fn undef_bytes(names: Seq<Seq<char>>) -> Seq<Seq<u8>> {
    names.map_values(|n: Seq<char>| encode_utf8(n))
}

/// A copy of the bytes of `t` from `a` up to `b`.
fn sub_bytes(t: &[u8], a: usize, b: usize) -> (r: Vec<u8>)
    requires
        a <= b <= t@.len(),
    ensures
        r@ == t@.subrange(a as int, b as int),
{
    let mut r: Vec<u8> = Vec::new();
    let mut i: usize = a;
    while i < b
        invariant
            a <= i <= b <= t@.len(),
            r@ == t@.subrange(a as int, i as int),
        decreases b - i,
    {
        r.push(t[i]);
        i = i + 1;
    }
    r
}

/// The bytes of `a` followed by those of `b`.
fn concat_bytes(a: &[u8], b: &[u8]) -> (r: Vec<u8>)
    ensures
        r@ == a@ + b@,
{
    let mut r = sub_bytes(a, 0, a.len());
    let n = b.len();
    let mut i: usize = 0;
    assert(a@.subrange(0, a@.len() as int) =~= a@);
    while i < n
        invariant
            n == b@.len(),
            i <= n,
            r@ == a@ + b@.subrange(0, i as int),
        decreases n - i,
    {
        r.push(b[i]);
        i = i + 1;
    }
    assert(b@.subrange(0, n as int) =~= b@);
    r
}

/// One resolution step for the begin marker at `p`.
fn resolve_one(t: &[u8], p: usize, state: &State) -> (r: Option<Vec<u8>>)
    requires
        find_from(t@, begin_marker(), 0) == Some(p as int),
    ensures
        match r {
            Some(v) => resolve_step(t@, p as int, undef_bytes(state@.undef_fns)) == Some(v@),
            None => resolve_step(t@, p as int, undef_bytes(state@.undef_fns)) is None,
        },
{
    proof {
        lemma_markers();
        lemma_find_from(t@, begin_marker(), 0);
    }
    let begin = "\\begin_fn_decl ".as_bytes();
    let end = "\\end_fn_decl ".as_bytes();
    let line_end: Vec<u8> = vec![10u8];
    assert(line_end@ =~= newline());
    let tl = t.len();
    assert(p + begin@.len() <= tl);
    let s = p + begin.len();
    let name_end = match find_bytes(t, line_end.as_slice(), s) {
        Some(k) => k,
        None => t.len(),
    };
    proof {
        lemma_find_from(t@, newline(), s as int);
    }
    let name = sub_bytes(t, s, name_end);
    assert(name@ == marked_name(t@, p as int));
    let pattern = concat_bytes(end, name.as_slice());
    let q = match find_bytes(t, pattern.as_slice(), 0) {
        Some(q) => q,
        None => {
            return None;
        },
    };
    let e = match find_bytes(t, line_end.as_slice(), q) {
        Some(e) => e,
        None => {
            return None;
        },
    };
    let bend = match find_bytes(t, line_end.as_slice(), p) {
        Some(b) => b,
        None => {
            return None;
        },
    };
    proof {
        lemma_find_from(t@, newline(), q as int);
        lemma_find_from(t@, newline(), p as int);
    }
    if is_undefined(state, name.as_slice()) {
        let t1 = cut_bytes(t, q, e);
        if p <= bend && is_boundary(t1.as_slice(), p) && is_boundary(t1.as_slice(), bend) {
            Some(cut_bytes(t1.as_slice(), p, bend))
        } else {
            None
        }
    } else if p <= e {
        Some(cut_bytes(t, p, e))
    } else {
        None
    }
}

/// Resolves the marked function declarations in `text`, given the functions
/// that `state` records as declared but never defined. The result is the
/// UTF-8 bytes of the final text, in which no begin marker is left; `None`
/// where the markers cannot be resolved (an end marker or a line end is
/// missing, or a removal does not fall on character starts).
pub fn resolve_fn_decls(text: &str, state: &State) -> (r: Option<Vec<u8>>)
    ensures
        match r {
            Some(v) => resolved(encode_utf8(text@), undef_bytes(state@.undef_fns)) == Some(v@),
            None => resolved(encode_utf8(text@), undef_bytes(state@.undef_fns)) is None,
        },
        r matches Some(v) ==> find_from(v@, begin_marker(), 0) is None,
{
    let ghost u = undef_bytes(state@.undef_fns);
    let begin = "\\begin_fn_decl ".as_bytes();
    let bytes = text.as_bytes();
    let mut t = cut_bytes(bytes, 0, 0);
    assert(t@ =~= encode_utf8(text@));
    loop
        invariant
            u == undef_bytes(state@.undef_fns),
            begin@ == begin_marker(),
            resolved(t@, u) == resolved(encode_utf8(text@), u),
        decreases t@.len(),
    {
        match find_bytes(t.as_slice(), begin, 0) {
            None => {
                return Some(t);
            },
            Some(p) => {
                proof {
                    lemma_step_shrinks(t@, p as int, u);
                }
                match resolve_one(t.as_slice(), p, state) {
                    None => {
                        return None;
                    },
                    Some(t2) => {
                        t = t2;
                    },
                }
            },
        }
    }
}

} // verus!
