//! The translation state: the typedef table, the sets of struct and function
//! names seen so far, the struct nesting depth and the hoisted nested struct
//! declarations, together with its mathematical model.
use vstd::prelude::*;
use crate::outside::{is_alnum, rand_str};
use crate::text::{same_text, text};

verus! {

/// The model of the translation state.
///
/// The typedef table and the table of generated struct tags are logs of
/// insertions: a lookup finds the latest entry for a key, which is what a
/// hash map holds after the same insertions. The name sets are sequences
/// without repetition, in insertion order. `aborted` records that the
/// translation met an input on which it cannot go on (the program stops
/// there). `warnings` lists the diagnostics written so far about parts of
/// the input that are not translated, in order. `drawn` lists the random
/// tags drawn so far, in order.
#[verifier::ext_equal]
pub struct TState {
    pub typedefs: Seq<(Seq<char>, Seq<char>)>,
    pub undef_fns: Seq<Seq<char>>,
    pub depth: int,
    pub nested: Seq<char>,
    pub empty_structs: Seq<Seq<char>>,
    pub defined_structs: Seq<Seq<char>>,
    pub anon: Seq<(u64, Seq<char>)>,
    pub aborted: bool,
    pub warnings: Seq<Seq<char>>,
    pub drawn: Seq<Seq<char>>,
}

/// The latest value recorded for `k`.
pub open spec fn lookup<K>(log: Seq<(K, Seq<char>)>, k: K) -> Option<Seq<char>>
    decreases log.len(),
{
    if log.len() == 0 {
        None
    } else if log.last().0 == k {
        Some(log.last().1)
    } else {
        lookup(log.drop_last(), k)
    }
}

/// `s` with `x` added at the end unless it is already there.
pub open spec fn set_add(s: Seq<Seq<char>>, x: Seq<char>) -> Seq<Seq<char>> {
    if s.contains(x) {
        s
    } else {
        s.push(x)
    }
}

/// No name occurs twice in `s`.
pub open spec fn no_repeats(s: Seq<Seq<char>>) -> bool {
    forall|i: int, j: int| 0 <= i < j < s.len() ==> s[i] != s[j]
}

/// `s` without `x`.
pub open spec fn set_del(s: Seq<Seq<char>>, x: Seq<char>) -> Seq<Seq<char>>
    decreases s.len(),
{
    if s.len() == 0 {
        s
    } else if s.last() == x {
        set_del(s.drop_last(), x)
    } else {
        set_del(s.drop_last(), x).push(s.last())
    }
}

/// `a` is a prefix of `b`.
#[verifier::opaque]
pub open spec fn prefix_of(a: Seq<Seq<char>>, b: Seq<Seq<char>>) -> bool {
    a.len() <= b.len() && forall|i: int| 0 <= i < a.len() ==> #[trigger] a[i] == b[i]
}

/// Being a prefix is transitive.
pub broadcast proof fn lemma_prefix_trans(a: Seq<Seq<char>>, b: Seq<Seq<char>>, c: Seq<Seq<char>>)
    requires
        #[trigger] prefix_of(a, b),
        #[trigger] prefix_of(b, c),
    ensures
        prefix_of(a, c),
{
    reveal(prefix_of);
}

/// Every sequence is a prefix of itself.
pub broadcast proof fn lemma_prefix_refl(a: Seq<Seq<char>>)
    ensures
        #[trigger] prefix_of(a, a),
{
    reveal(prefix_of);
}

/// Every tag in `d` is six letters or digits.
#[verifier::opaque]
pub open spec fn all_tags(d: Seq<Seq<char>>) -> bool {
    forall|i: int| 0 <= i < d.len() ==> is_tag(#[trigger] d[i])
}

/// What every translation step keeps: the drawn tags are well formed and
/// only ever extended, the struct nesting depth is back where it was, and
/// the hoisted nested struct text is only ever extended.
/// The text `a` is the start of the text `b`.
#[verifier::opaque]
pub open spec fn text_prefix(a: Seq<char>, b: Seq<char>) -> bool {
    a.len() <= b.len() && b.subrange(0, a.len() as int) == a
}

/// Being the start of a text is transitive.
pub broadcast proof fn lemma_text_prefix_trans(a: Seq<char>, b: Seq<char>, c: Seq<char>)
    requires
        #[trigger] text_prefix(a, b),
        #[trigger] text_prefix(b, c),
    ensures
        text_prefix(a, c),
{
    reveal(text_prefix);
    assert(c.subrange(0, a.len() as int) =~= c.subrange(0, b.len() as int).subrange(0, a.len() as int));
}

/// Every text is the start of itself.
pub broadcast proof fn lemma_text_prefix_refl(a: Seq<char>)
    ensures
        #[trigger] text_prefix(a, a),
{
    reveal(text_prefix);
    assert(a.subrange(0, a.len() as int) =~= a);
}

/// A text is the start of itself followed by anything.
pub proof fn lemma_text_prefix_extend(a: Seq<char>, b: Seq<char>)
    ensures
        text_prefix(a, a + b),
{
    reveal(text_prefix);
    assert((a + b).subrange(0, a.len() as int) =~= a);
}

pub open spec fn follows(a: TState, b: TState) -> bool {
    b.tags_ok() && prefix_of(a.drawn, b.drawn) && b.depth == a.depth && text_prefix(a.nested, b.nested)
}

/// A generated tag: six ASCII letters or digits.
pub open spec fn is_tag(s: Seq<char>) -> bool {
    s.len() == 6 && forall|i: int| 0 <= i < 6 ==> is_alnum(#[trigger] s[i])
}

/// The first `n` entries of `s` (all of `s` when it is shorter), what
/// `Vec::truncate` keeps.
pub open spec fn keep_first<T>(s: Seq<T>, n: int) -> Seq<T> {
    if n <= s.len() {
        s.take(n)
    } else {
        s
    }
}

impl TState {
    /// No name occurs twice in the sets of undefined functions, of structs
    /// declared without a body and of structs defined with one.
    pub open spec fn names_once(self) -> bool {
        no_repeats(self.undef_fns) && no_repeats(self.empty_structs) && no_repeats(self.defined_structs)
    }

    /// Every random tag drawn so far is six letters or digits.
    pub open spec fn tags_ok(self) -> bool {
        all_tags(self.drawn)
    }

    pub open spec fn with_typedef(self, k: Seq<char>, v: Seq<char>) -> TState {
        TState { typedefs: self.typedefs.push((k, v)), ..self }
    }

    pub open spec fn with_anon(self, id: u64, name: Seq<char>) -> TState {
        TState { anon: self.anon.push((id, name)), ..self }
    }

    pub open spec fn with_undef(self, name: Seq<char>) -> TState {
        TState { undef_fns: set_add(self.undef_fns, name), ..self }
    }

    pub open spec fn without_undef(self, name: Seq<char>) -> TState {
        TState { undef_fns: set_del(self.undef_fns, name), ..self }
    }

    pub open spec fn with_empty(self, name: Seq<char>) -> TState {
        TState { empty_structs: set_add(self.empty_structs, name), ..self }
    }

    pub open spec fn with_defined(self, name: Seq<char>) -> TState {
        TState { defined_structs: set_add(self.defined_structs, name), ..self }
    }

    pub open spec fn with_depth(self, d: int) -> TState {
        TState { depth: d, ..self }
    }

    pub open spec fn with_nested(self, code: Seq<char>) -> TState {
        TState { nested: self.nested + code + ";\n"@, ..self }
    }

    pub open spec fn aborting(self) -> TState {
        TState { aborted: true, ..self }
    }

    /// The state after writing the diagnostics `msgs`, in order.
    pub open spec fn warned_all(self, msgs: Seq<Seq<char>>) -> TState {
        TState { warnings: self.warnings + msgs, ..self }
    }

    /// The state after writing the diagnostic `msg`.
    pub open spec fn warned(self, msg: Seq<char>) -> TState {
        TState { warnings: self.warnings.push(msg), ..self }
    }

    /// The tags given inside a copy of a subtree are forgotten once the copy
    /// has been translated: the table keeps its first `n` entries.
    pub open spec fn forget_anon(self, n: int) -> TState {
        TState { anon: keep_first(self.anon, n), ..self }
    }

    /// The next random tag, read from the sequence `o` of all tags the
    /// translation draws, and the state that records it.
    pub open spec fn draw(self, o: Seq<Seq<char>>) -> (Seq<char>, TState) {
        let t = o[self.drawn.len() as int];
        (t, TState { drawn: self.drawn.push(t), ..self })
    }
}

pub open spec fn pairs_view<K>(v: Seq<(K, String)>) -> Seq<(K, Seq<char>)> {
    v.map_values(|p: (K, String)| (p.0, p.1@))
}

pub open spec fn typedefs_view(v: Seq<(String, String)>) -> Seq<(Seq<char>, Seq<char>)> {
    v.map_values(|p: (String, String)| (p.0@, p.1@))
}

pub open spec fn names_view(v: Seq<String>) -> Seq<Seq<char>> {
    v.map_values(|s: String| s@)
}

/// The state of one translation.
pub struct State {
    typedefs: Vec<(String, String)>,
    undef_fn_decls: NameSet,
    struct_decl_depth: i32,
    nested_struct_decls: String,
    empty_struct_decls: NameSet,
    non_empty_struct_decls: NameSet,
    anon_names: Vec<(u64, String)>,
    aborted: bool,
    warnings: Vec<String>,
    drawn: Ghost<Seq<Seq<char>>>,
}

impl View for State {
    type V = TState;

    closed spec fn view(&self) -> TState {
        TState {
            typedefs: typedefs_view(self.typedefs@),
            undef_fns: self.undef_fn_decls@,
            depth: self.struct_decl_depth as int,
            nested: self.nested_struct_decls@,
            empty_structs: self.empty_struct_decls@,
            defined_structs: self.non_empty_struct_decls@,
            anon: pairs_view(self.anon_names@),
            aborted: self.aborted,
            warnings: names_view(self.warnings@),
            drawn: self.drawn@,
        }
    }
}

/// The state a translation starts from: three builtin typedefs.
pub open spec fn initial_state() -> TState {
    TState {
        typedefs: seq![
            ("$T___builtin_va_list"@, "v0*"@),
            ("$T___sighandler_t"@, "v0*"@),
            ("$T___compar_fn_t"@, "v0*"@),
        ],
        undef_fns: Seq::empty(),
        depth: 0,
        nested: Seq::empty(),
        empty_structs: Seq::empty(),
        defined_structs: Seq::empty(),
        anon: Seq::empty(),
        aborted: false,
        warnings: Seq::empty(),
        drawn: Seq::empty(),
    }
}

proof fn lemma_set_del_has(s: Seq<Seq<char>>, x: Seq<char>, y: Seq<char>)
    ensures
        set_del(s, x).contains(y) ==> s.contains(y),
    decreases s.len(),
{
    if s.len() > 0 {
        lemma_set_del_has(s.drop_last(), x, y);
        if set_del(s, x).contains(y) {
            let d = set_del(s.drop_last(), x);
            let i = choose|i: int| 0 <= i < set_del(s, x).len() && set_del(s, x)[i] == y;
            if s.last() == x || i < d.len() {
                assert(d[i] == y);
                let k = choose|k: int| 0 <= k < s.drop_last().len() && s.drop_last()[k] == y;
                assert(s[k] == y);
            } else {
                assert(s[s.len() - 1] == y);
            }
        }
    }
}

/// Removing a name from a set without repetition keeps it without repetition.
pub proof fn lemma_set_del_once(s: Seq<Seq<char>>, x: Seq<char>)
    requires
        no_repeats(s),
    ensures
        no_repeats(set_del(s, x)),
    decreases s.len(),
{
    if s.len() > 0 {
        let pre = s.drop_last();
        assert(no_repeats(pre));
        lemma_set_del_once(pre, x);
        if s.last() != x {
            lemma_set_del_has(pre, x, s.last());
            assert(!pre.contains(s.last())) by {
                if pre.contains(s.last()) {
                    let i = choose|i: int| 0 <= i < pre.len() && pre[i] == s.last();
                    assert(s[i] == s[s.len() - 1]);
                }
            }
            let d = set_del(pre, x);
            assert forall|i: int, j: int| 0 <= i < j < d.push(s.last()).len() implies d.push(s.last())[i] != d.push(s.last())[j] by {
                if j == d.len() {
                    assert(d.contains(d[i]));
                }
            }
        }
    }
}

/// Adding a name to a set without repetition keeps it without repetition.
pub proof fn lemma_set_add_once(s: Seq<Seq<char>>, x: Seq<char>)
    requires
        no_repeats(s),
    ensures
        no_repeats(set_add(s, x)),
{
    if !s.contains(x) {
        assert forall|i: int, j: int| 0 <= i < j < s.push(x).len() implies s.push(x)[i] != s.push(x)[j] by {
            if j == s.len() {
                assert(s.contains(s[i]));
            }
        }
    }
}

fn names_contain(v: &Vec<String>, x: &str) -> (r: bool)
    ensures
        r == names_view(v@).contains(x@),
{
    let n = v.len();
    let mut i: usize = 0;
    while i < n
        invariant
            n == v.len(),
            i <= n,
            forall|j: int| 0 <= j < i ==> names_view(v@)[j] != x@,
        decreases n - i,
    {
        if same_text(v[i].as_str(), x) {
            assert(names_view(v@)[i as int] == x@);
            return true;
        }
        i = i + 1;
    }
    false
}

fn names_add(v: &mut Vec<String>, x: &str)
    ensures
        names_view(final(v)@) == set_add(names_view(old(v)@), x@),
{
    if !names_contain(v, x) {
        v.push(text(x));
        assert(names_view(v@) =~= names_view(old(v)@).push(x@));
    }
}

fn names_remove(v: &mut Vec<String>, x: &str)
    ensures
        names_view(final(v)@) == set_del(names_view(old(v)@), x@),
{
    let mut kept: Vec<String> = Vec::new();
    let n = v.len();
    let mut i: usize = 0;
    while i < n
        invariant
            n == v.len(),
            i <= n,
            names_view(kept@) == set_del(names_view(v@.take(i as int)), x@),
        decreases n - i,
    {
        assert(names_view(v@.take(i + 1)).drop_last() =~= names_view(v@.take(i as int)));
        if same_text(v[i].as_str(), x) {
        } else {
            kept.push(v[i].clone());
            assert(names_view(kept@) =~= set_del(names_view(v@.take(i as int)), x@).push(v@[i as int]@));
        }
        i = i + 1;
    }
    assert(v@.take(n as int) =~= v@);
    *v = kept;
}

/// A set of names in the order of their first insertion, which never holds
/// a name twice.
pub struct NameSet {
    names: Vec<String>,
}

impl View for NameSet {
    type V = Seq<Seq<char>>;

    closed spec fn view(&self) -> Seq<Seq<char>> {
        names_view(self.names@)
    }
}

impl NameSet {
    #[verifier::type_invariant]
    closed spec fn without_repetition(self) -> bool {
        no_repeats(names_view(self.names@))
    }

    /// The empty set.
    pub fn new() -> (r: NameSet)
        ensures
            r@ == Seq::<Seq<char>>::empty(),
    {
        let r = NameSet { names: Vec::new() };
        assert(r@ =~= Seq::<Seq<char>>::empty());
        r
    }

    /// The number of names; no name occurs twice.
    pub fn len(&self) -> (n: usize)
        ensures
            n == self@.len(),
            no_repeats(self@),
    {
        proof {
            use_type_invariant(self);
        }
        self.names.len()
    }

    /// The name inserted `i`-th among those present.
    pub fn at(&self, i: usize) -> (r: &String)
        requires
            i < self@.len(),
        ensures
            r@ == self@[i as int],
    {
        &self.names[i]
    }

    pub fn contains(&self, x: &str) -> (r: bool)
        ensures
            r == self@.contains(x@),
    {
        names_contain(&self.names, x)
    }

    /// Adds `x` at the end unless it is there already.
    pub fn insert(&mut self, x: &str)
        ensures
            final(self)@ == set_add(old(self)@, x@),
    {
        proof {
            use_type_invariant(&*self);
            lemma_set_add_once(self@, x@);
        }
        let mut v: Vec<String> = Vec::new();
        std::mem::swap(&mut v, &mut self.names);
        names_add(&mut v, x);
        self.names = v;
    }

    /// Removes `x`, keeping the order of the others.
    pub fn remove(&mut self, x: &str)
        ensures
            final(self)@ == set_del(old(self)@, x@),
    {
        proof {
            use_type_invariant(&*self);
            lemma_set_del_once(self@, x@);
        }
        let mut v: Vec<String> = Vec::new();
        std::mem::swap(&mut v, &mut self.names);
        names_remove(&mut v, x);
        self.names = v;
    }
}

impl State {
    /// A fresh state with the builtin typedefs.
    pub fn new() -> (s: State)
        ensures
            s@ == initial_state(),
            s@.tags_ok(),
            s@.names_once(),
    {
        proof {
            reveal(all_tags);
        }
        let mut typedefs: Vec<(String, String)> = Vec::new();
        typedefs.push((text("$T___builtin_va_list"), text("v0*")));
        typedefs.push((text("$T___sighandler_t"), text("v0*")));
        typedefs.push((text("$T___compar_fn_t"), text("v0*")));
        let s = State {
            typedefs,
            undef_fn_decls: NameSet::new(),
            struct_decl_depth: 0,
            nested_struct_decls: String::new(),
            empty_struct_decls: NameSet::new(),
            non_empty_struct_decls: NameSet::new(),
            anon_names: Vec::new(),
            aborted: false,
            warnings: Vec::new(),
            drawn: Ghost(Seq::empty()),
        };
        assert(s@.typedefs =~= initial_state().typedefs);
        assert(s@.undef_fns =~= Seq::<Seq<char>>::empty());
        assert(s@.empty_structs =~= Seq::<Seq<char>>::empty());
        assert(s@.defined_structs =~= Seq::<Seq<char>>::empty());
        assert(s@.anon =~= Seq::<(u64, Seq<char>)>::empty());
        assert(s@.warnings =~= Seq::<Seq<char>>::empty());
        s
    }

    /// The latest typedef recorded under `key`.
    pub fn lookup_typedef(&self, key: &str) -> (r: Option<String>)
        ensures
            match r {
                Some(v) => lookup(self@.typedefs, key@) == Some(v@),
                None => lookup(self@.typedefs, key@) is None,
            },
    {
        let mut i = self.typedefs.len();
        assert(typedefs_view(self.typedefs@.take(i as int)) =~= self@.typedefs);
        while i > 0
            invariant
                i <= self.typedefs.len(),
                lookup(typedefs_view(self.typedefs@.take(i as int)), key@) == lookup(self@.typedefs, key@),
            decreases i,
        {
            let ghost pre = typedefs_view(self.typedefs@.take(i as int));
            assert(pre.drop_last() =~= typedefs_view(self.typedefs@.take(i - 1)));
            assert(pre.last() == (self.typedefs@[i - 1].0@, self.typedefs@[i - 1].1@));
            if same_text(self.typedefs[i - 1].0.as_str(), key) {
                return Some(self.typedefs[i - 1].1.clone());
            }
            i = i - 1;
        }
        None
    }

    /// Every typedef recorded, in the order of recording.
    pub fn typedefs(&self) -> (r: &Vec<(String, String)>)
        ensures
            typedefs_view(r@) == self@.typedefs,
    {
        &self.typedefs
    }

    /// Records that `key` names the type `value`.
    pub fn add_typedef(&mut self, key: String, value: String)
        ensures
            final(self)@ == old(self)@.with_typedef(key@, value@),
    {
        self.typedefs.push((key, value));
        assert(self@.typedefs =~= old(self)@.typedefs.push((key@, value@)));
    }

    /// The tag generated earlier for the untagged struct `id`.
    pub fn lookup_anon(&self, id: u64) -> (r: Option<String>)
        ensures
            match r {
                Some(v) => lookup(self@.anon, id) == Some(v@),
                None => lookup(self@.anon, id) is None,
            },
    {
        let mut i = self.anon_names.len();
        assert(pairs_view(self.anon_names@.take(i as int)) =~= self@.anon);
        while i > 0
            invariant
                i <= self.anon_names.len(),
                lookup(pairs_view(self.anon_names@.take(i as int)), id) == lookup(self@.anon, id),
            decreases i,
        {
            let ghost pre = pairs_view(self.anon_names@.take(i as int));
            assert(pre.drop_last() =~= pairs_view(self.anon_names@.take(i - 1)));
            if self.anon_names[i - 1].0 == id {
                return Some(self.anon_names[i - 1].1.clone());
            }
            i = i - 1;
        }
        None
    }

    /// Records the tag generated for the untagged struct `id`.
    pub fn add_anon(&mut self, id: u64, name: String)
        ensures
            final(self)@ == old(self)@.with_anon(id, name@),
    {
        self.anon_names.push((id, name));
        assert(self@.anon =~= old(self)@.anon.push((id, name@)));
    }

    /// The number of generated tags recorded.
    pub fn anon_count(&self) -> (n: usize)
        ensures
            n == self@.anon.len(),
    {
        self.anon_names.len()
    }

    /// Forgets the generated tags recorded after the first `n`.
    pub fn forget_anon(&mut self, n: usize)
        ensures
            final(self)@ == old(self)@.forget_anon(n as int),
    {
        self.anon_names.truncate(n);
        assert(self@.anon =~= keep_first(old(self)@.anon, n as int));
    }

    /// The number of functions declared but not defined.
    pub fn undef_fn_count(&self) -> (n: usize)
        ensures
            n == self@.undef_fns.len(),
            self@.names_once(),
    {
        proof {
            use_type_invariant(&self.undef_fn_decls);
            use_type_invariant(&self.empty_struct_decls);
            use_type_invariant(&self.non_empty_struct_decls);
        }
        self.undef_fn_decls.len()
    }

    pub fn undef_fn_at(&self, i: usize) -> (r: &String)
        requires
            i < self@.undef_fns.len(),
        ensures
            r@ == self@.undef_fns[i as int],
    {
        self.undef_fn_decls.at(i)
    }

    pub fn is_undef_fn(&self, name: &str) -> (r: bool)
        ensures
            r == self@.undef_fns.contains(name@),
    {
        self.undef_fn_decls.contains(name)
    }

    pub fn add_undef_fn(&mut self, name: &str)
        ensures
            final(self)@ == old(self)@.with_undef(name@),
    {
        self.undef_fn_decls.insert(name);
    }

    pub fn remove_undef_fn(&mut self, name: &str)
        ensures
            final(self)@ == old(self)@.without_undef(name@),
    {
        self.undef_fn_decls.remove(name);
    }

    pub fn is_empty_struct(&self, name: &str) -> (r: bool)
        ensures
            r == self@.empty_structs.contains(name@),
    {
        self.empty_struct_decls.contains(name)
    }

    pub fn add_empty_struct(&mut self, name: &str)
        ensures
            final(self)@ == old(self)@.with_empty(name@),
    {
        self.empty_struct_decls.insert(name);
    }

    pub fn is_defined_struct(&self, name: &str) -> (r: bool)
        ensures
            r == self@.defined_structs.contains(name@),
    {
        self.non_empty_struct_decls.contains(name)
    }

    pub fn add_defined_struct(&mut self, name: &str)
        ensures
            final(self)@ == old(self)@.with_defined(name@),
    {
        self.non_empty_struct_decls.insert(name);
    }

    /// The number of structs declared without a body, in insertion order.
    pub fn empty_struct_count(&self) -> (n: usize)
        ensures
            n == self@.empty_structs.len(),
            self@.names_once(),
    {
        proof {
            use_type_invariant(&self.undef_fn_decls);
            use_type_invariant(&self.empty_struct_decls);
            use_type_invariant(&self.non_empty_struct_decls);
        }
        self.empty_struct_decls.len()
    }

    pub fn empty_struct_at(&self, i: usize) -> (r: &String)
        requires
            i < self@.empty_structs.len(),
        ensures
            r@ == self@.empty_structs[i as int],
    {
        self.empty_struct_decls.at(i)
    }

    pub fn depth(&self) -> (d: i32)
        ensures
            d == self@.depth,
    {
        self.struct_decl_depth
    }

    pub fn set_depth(&mut self, d: i32)
        ensures
            final(self)@ == old(self)@.with_depth(d as int),
    {
        self.struct_decl_depth = d;
    }

    /// Appends a nested struct declaration and its `;` line end.
    pub fn add_nested(&mut self, code: &str)
        ensures
            final(self)@ == old(self)@.with_nested(code@),
            text_prefix(old(self)@.nested, final(self)@.nested),
    {
        self.nested_struct_decls.append(code);
        self.nested_struct_decls.append(";\n");
        proof {
            lemma_text_prefix_extend(old(self)@.nested, code@ + ";\n"@);
            assert(self@.nested =~= old(self)@.nested + (code@ + ";\n"@));
        }
    }

    pub fn nested(&self) -> (r: &String)
        ensures
            r@ == self@.nested,
    {
        &self.nested_struct_decls
    }

    pub fn is_aborted(&self) -> (r: bool)
        ensures
            r == self@.aborted,
    {
        self.aborted
    }

    /// Writes a diagnostic about a part of the input that is not translated.
    pub fn warn(&mut self, msg: String)
        ensures
            final(self)@ == old(self)@.warned(msg@),
    {
        self.warnings.push(msg);
        assert(self@.warnings =~= old(self)@.warnings.push(msg@));
    }

    /// Writes the diagnostics `msgs`, in order.
    pub fn warn_all(&mut self, msgs: Vec<String>)
        ensures
            final(self)@ == old(self)@.warned_all(names_view(msgs@)),
    {
        let n = msgs.len();
        let mut i: usize = 0;
        while i < n
            invariant
                n == msgs@.len(),
                i <= n,
                self@ == old(self)@.warned_all(names_view(msgs@.take(i as int))),
            decreases n - i,
        {
            assert(names_view(msgs@.take(i + 1)) =~= names_view(msgs@.take(i as int)).push(msgs@[i as int]@));
            self.warn(msgs[i].clone());
            assert(self@.warnings =~= old(self)@.warnings + names_view(msgs@.take(i + 1)));
            i = i + 1;
        }
        assert(msgs@.take(n as int) =~= msgs@);
        assert(self@ =~= old(self)@.warned_all(names_view(msgs@)));
    }

    /// The diagnostics written so far, in order.
    pub fn warnings(&self) -> (r: &Vec<String>)
        ensures
            names_view(r@) == self@.warnings,
    {
        &self.warnings
    }

    pub fn abort(&mut self)
        ensures
            final(self)@ == old(self)@.aborting(),
    {
        self.aborted = true;
    }

    /// Draws a random tag and records it.
    pub fn draw_tag(&mut self) -> (t: String)
        requires
            old(self)@.tags_ok(),
        ensures
            final(self)@.tags_ok(),
            final(self)@ == (TState { drawn: old(self)@.drawn.push(t@), ..old(self)@ }),
            prefix_of(old(self)@.drawn, final(self)@.drawn),
            forall|o: Seq<Seq<char>>| #[trigger] prefix_of(final(self)@.drawn, o) ==> o[old(self)@.drawn.len() as int] == t@,
            is_tag(t@),
    {
        let t = rand_str(6);
        self.drawn = Ghost(self.drawn@.push(t@));
        proof {
            reveal(prefix_of);
            reveal(all_tags);
            assert(is_tag(t@));
            assert forall|i: int| 0 <= i < self@.drawn.len() implies is_tag(#[trigger] self@.drawn[i]) by {
                if i < old(self)@.drawn.len() {
                    assert(self@.drawn[i] == old(self)@.drawn[i]);
                }
            }
            assert forall|o: Seq<Seq<char>>| #[trigger] prefix_of(self@.drawn, o) implies o[old(self)@.drawn.len() as int] == t@ by {
                assert(self@.drawn[old(self)@.drawn.len() as int] == t@);
            }
        }
        t
    }
}

} // verus!
