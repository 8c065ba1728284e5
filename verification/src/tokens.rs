//! The token model shared by both front ends, with the spec-level view of a
//! token and the searching, splitting and copying helpers the parsers use.

use vstd::prelude::*;

verus! {

broadcast use vstd::std_specs::vec::axiom_vec_decreases_to_view, vstd::seq::axiom_seq_index_decreases, vstd::seq::axiom_seq_subrange_decreases;

/// Delimiter of a bracketed token group.
#[derive(Clone, Copy, Debug, PartialEq, Eq, Structural)]
pub enum Delim {
    Paren,
    Bracket,
    Brace,
}

/// One token of the source or target language. A bracketed piece of text is
/// a single `Group` token holding the tokens between the brackets, so a
/// token sequence is flat at each nesting level.
#[derive(Debug, PartialEq, Eq)]
pub enum Tok {
    Ident(String),
    Punct(char),
    IntLit(u64),
    StrLit(Vec<char>),
    Group(Delim, Vec<Tok>),
}

/// The mathematical value of one token: identifier and string-literal text
/// as character sequences, groups as token-value sequences.
#[verifier::ext_equal]
pub enum TokV {
    Ident(Seq<char>),
    Punct(char),
    IntLit(u64),
    StrLit(Seq<char>),
    Group(Delim, Seq<TokV>),
}

pub open spec fn tok_view(t: Tok) -> TokV
    decreases t,
{
    match t {
        Tok::Ident(s) => TokV::Ident(s@),
        Tok::Punct(c) => TokV::Punct(c),
        Tok::IntLit(n) => TokV::IntLit(n),
        Tok::StrLit(cs) => TokV::StrLit(cs@),
        Tok::Group(d, ts) => {
            proof {
                assert(decreases_to!(ts => ts@));
            }
            TokV::Group(d, toks_view_rec(ts@))
        },
    }
}

pub open spec fn toks_view_rec(s: Seq<Tok>) -> Seq<TokV>
    decreases s,
{
    if s.len() == 0 {
        Seq::empty()
    } else {
        proof {
            assert(decreases_to!(s => s[0]));
            assert(decreases_to!(s => s.drop_first()));
        }
        seq![tok_view(s[0])] + toks_view_rec(s.drop_first())
    }
}

impl View for Tok {
    type V = TokV;

    open spec fn view(&self) -> TokV {
        tok_view(*self)
    }
}

/// The values of a token sequence.
pub open spec fn tv(ts: Seq<Tok>) -> Seq<TokV> {
    Seq::new(ts.len(), |i: int| tok_view(ts[i]))
}

pub proof fn lemma_toks_view_rec(s: Seq<Tok>)
    ensures
        toks_view_rec(s) == tv(s),
    decreases s.len(),
{
    if s.len() == 0 {
        assert(toks_view_rec(s) =~= tv(s));
    } else {
        lemma_toks_view_rec(s.drop_first());
        assert(toks_view_rec(s) =~= tv(s));
    }
}

/// The value of a group token is the group of its tokens' values.
pub proof fn lemma_tok_view_group(d: Delim, ts: Vec<Tok>)
    ensures
        tok_view(Tok::Group(d, ts)) == TokV::Group(d, tv(ts@)),
{
    lemma_toks_view_rec(ts@);
}

pub proof fn lemma_tv_concat(a: Seq<Tok>, b: Seq<Tok>)
    ensures
        tv(a + b) == tv(a) + tv(b),
{
    assert(tv(a + b) =~= tv(a) + tv(b));
}

pub proof fn lemma_tv_push(ts: Seq<Tok>, t: Tok)
    ensures
        tv(ts.push(t)) == tv(ts).push(tok_view(t)),
{
    assert(tv(ts.push(t)) =~= tv(ts).push(tok_view(t)));
}

/// Copies one token, preserving its value.
pub fn clone_tok(t: &Tok) -> (r: Tok)
    ensures
        r@ == t@,
    decreases *t,
{
    match t {
        Tok::Ident(s) => Tok::Ident(s.clone()),
        Tok::Punct(c) => Tok::Punct(*c),
        Tok::IntLit(n) => Tok::IntLit(*n),
        Tok::StrLit(cs) => {
            let mut out: Vec<char> = Vec::new();
            let mut i: usize = 0;
            while i < cs.len()
                invariant
                    i <= cs@.len(),
                    out@ == cs@.subrange(0, i as int),
                decreases cs@.len() - i,
            {
                out.push(cs[i]);
                i = i + 1;
            }
            proof {
                assert(out@ =~= cs@);
            }
            Tok::StrLit(out)
        },
        Tok::Group(d, ts) => {
            let mut out: Vec<Tok> = Vec::new();
            let mut i: usize = 0;
            while i < ts.len()
                invariant
                    *t == Tok::Group(*d, *ts),
                    i <= ts@.len(),
                    tv(out@) == tv(ts@).subrange(0, i as int),
                decreases ts@.len() - i,
            {
                proof {
                    assert(decreases_to!(*t => t->Group_1));
                    assert(t->Group_1 == *ts);
                    assert(decreases_to!(*ts => ts@));
                    assert(decreases_to!(ts@ => ts@[i as int]));
                }
                let c = clone_tok(&ts[i]);
                proof {
                    lemma_tv_push(out@, c);
                }
                out.push(c);
                i = i + 1;
                proof {
                    assert(tv(out@) =~= tv(ts@).subrange(0, i as int));
                }
            }
            proof {
                assert(tv(out@) =~= tv(ts@));
                lemma_tok_view_group(*d, out);
                assert(*t == Tok::Group(*d, *ts));
                lemma_tok_view_group(*d, *ts);
            }
            Tok::Group(*d, out)
        },
    }
}

/// Copies the tokens of `v` from index `a` (inclusive) to `b` (exclusive).
pub fn subcopy(v: &Vec<Tok>, a: usize, b: usize) -> (r: Vec<Tok>)
    requires
        a <= b <= v@.len(),
    ensures
        tv(r@) == tv(v@).subrange(a as int, b as int),
{
    let mut out: Vec<Tok> = Vec::new();
    let mut i: usize = a;
    while i < b
        invariant
            a <= i <= b <= v@.len(),
            tv(out@) == tv(v@).subrange(a as int, i as int),
        decreases b - i,
    {
        let c = clone_tok(&v[i]);
        proof {
            lemma_tv_push(out@, c);
        }
        out.push(c);
        i = i + 1;
        proof {
            assert(tv(out@) =~= tv(v@).subrange(a as int, i as int));
        }
    }
    out
}

/// What a search looks for: an identifier with the given text, or a
/// punctuation token with the given character.
pub enum Matcher {
    Kw(Seq<char>),
    Sep(char),
}

pub open spec fn is_ident(t: TokV, name: Seq<char>) -> bool {
    t matches TokV::Ident(s) && s == name
}

pub open spec fn is_punct(t: TokV, c: char) -> bool {
    t matches TokV::Punct(cc) && cc == c
}

pub open spec fn tok_matches(t: TokV, m: Matcher) -> bool {
    match m {
        Matcher::Kw(n) => is_ident(t, n),
        Matcher::Sep(c) => is_punct(t, c),
    }
}

/// Index of the first token at or after `from` that `m` matches, or the
/// length of `s` if there is none.
pub open spec fn find_tok(s: Seq<TokV>, m: Matcher, from: int) -> int
    decreases s.len() - from when 0 <= from <= s.len()
{
    if from >= s.len() {
        s.len() as int
    } else if tok_matches(s[from], m) {
        from
    } else {
        find_tok(s, m, from + 1)
    }
}

pub proof fn lemma_find_tok(s: Seq<TokV>, m: Matcher, from: int)
    requires
        0 <= from <= s.len(),
    ensures
        from <= find_tok(s, m, from) <= s.len(),
        forall|k: int| from <= k < find_tok(s, m, from) ==> !tok_matches(s[k], m),
        find_tok(s, m, from) < s.len() ==> tok_matches(s[find_tok(s, m, from)], m),
    decreases s.len() - from,
{
    if from < s.len() && !tok_matches(s[from], m) {
        lemma_find_tok(s, m, from + 1);
    }
}

pub proof fn lemma_find_tok_is(s: Seq<TokV>, m: Matcher, from: int, j: int)
    requires
        0 <= from <= j <= s.len(),
        forall|k: int| from <= k < j ==> !tok_matches(s[k], m),
        j < s.len() ==> tok_matches(s[j], m),
    ensures
        find_tok(s, m, from) == j,
    decreases j - from,
{
    if from < j {
        lemma_find_tok_is(s, m, from + 1, j);
    }
}

/// The values of a sequence of token segments.
pub open spec fn tvv(ss: Seq<Vec<Tok>>) -> Seq<Seq<TokV>> {
    Seq::new(ss.len(), |i: int| tv(ss[i]@))
}

/// Splits `s` on its top-level occurrences of the punctuation `c`: one
/// segment when no separator occurs, and each separator ends a segment, so
/// a trailing separator leaves an empty final segment.
pub open spec fn split_tok(s: Seq<TokV>, c: char) -> Seq<Seq<TokV>>
    decreases s.len(),
{
    let j0 = find_tok(s, Matcher::Sep(c), 0);
    let j = if 0 <= j0 <= s.len() {
        j0
    } else {
        s.len() as int
    };
    if j >= s.len() {
        seq![s]
    } else {
        seq![s.subrange(0, j)] + split_tok(s.skip(j + 1), c)
    }
}

/// The segments of a separated list: an empty list has none, and an empty
/// segment left by a trailing separator is dropped.
pub open spec fn segments(s: Seq<TokV>, c: char) -> Seq<Seq<TokV>> {
    if s.len() == 0 {
        Seq::empty()
    } else {
        let g = split_tok(s, c);
        if g.last().len() == 0 {
            g.drop_last()
        } else {
            g
        }
    }
}

/// Splits the tokens of `v` on top-level occurrences of `c`.
pub fn split_toks(v: &Vec<Tok>, c: char) -> (r: Vec<Vec<Tok>>)
    ensures
        tvv(r@) == split_tok(tv(v@), c),
{
    let ghost s = tv(v@);
    let mut out: Vec<Vec<Tok>> = Vec::new();
    let mut start: usize = 0;
    proof {
        assert(s.skip(0) =~= s);
        assert(tvv(out@) + split_tok(s, c) =~= split_tok(s, c));
    }
    loop
        invariant
            start <= v@.len(),
            s == tv(v@),
            split_tok(s, c) == tvv(out@) + split_tok(s.skip(start as int), c),
        decreases v@.len() - start,
    {
        let ghost rest = s.skip(start as int);
        let j = find_punct(v, c, start);
        proof {
            lemma_find_tok(s, Matcher::Sep(c), start as int);
            lemma_find_tok_is(rest, Matcher::Sep(c), 0, j - start);
        }
        if j == v.len() {
            let seg = subcopy(v, start, j);
            proof {
                assert(tv(seg@) =~= rest);
                assert(split_tok(rest, c) =~= seq![rest]);
                assert(tvv(out@.push(seg)) =~= tvv(out@).push(rest));
                assert(tvv(out@).push(rest) =~= tvv(out@) + seq![rest]);
                assert(split_tok(s, c) =~= tvv(out@.push(seg)));
            }
            out.push(seg);
            return out;
        }
        let seg = subcopy(v, start, j);
        proof {
            assert(tv(seg@) =~= rest.subrange(0, j - start));
            assert(rest.skip(j - start + 1) =~= s.skip(j + 1));
            assert(tvv(out@.push(seg)) =~= tvv(out@).push(tv(seg@)));
            assert(split_tok(s, c) =~= tvv(out@.push(seg)) + split_tok(s.skip(j + 1), c));
        }
        out.push(seg);
        start = j + 1;
    }
}

/// The segments of `v` separated by top-level `c`, a trailing separator
/// allowed.
pub fn split_segments(v: &Vec<Tok>, c: char) -> (r: Vec<Vec<Tok>>)
    ensures
        tvv(r@) == segments(tv(v@), c),
{
    if v.len() == 0 {
        let r: Vec<Vec<Tok>> = Vec::new();
        proof {
            assert(tvv(r@) =~= segments(tv(v@), c));
        }
        return r;
    }
    let mut segs = split_toks(v, c);
    proof {
        lemma_find_tok(tv(v@), Matcher::Sep(c), 0);
        assert(split_tok(tv(v@), c).len() > 0);
    }
    if segs[segs.len() - 1].len() == 0 {
        let ghost before = segs@;
        let _ = segs.pop();
        proof {
            assert(tvv(segs@) =~= tvv(before).drop_last());
        }
    }
    proof {
        assert(tvv(segs@) =~= segments(tv(v@), c));
    }
    segs
}

/// Does `t` read as the identifier `kw`?
pub fn is_kw(t: &Tok, kw: &str) -> (r: bool)
    ensures
        r == is_ident(t@, kw@),
{
    match t {
        Tok::Ident(s) => *s == kw.to_owned(),
        _ => false,
    }
}

/// Does `t` read as the punctuation character `c`?
pub fn is_sep(t: &Tok, c: char) -> (r: bool)
    ensures
        r == is_punct(t@, c),
{
    match t {
        Tok::Punct(cc) => *cc == c,
        _ => false,
    }
}

/// First index at or after `from` whose token is the identifier `kw`.
pub fn find_ident(ts: &Vec<Tok>, kw: &str, from: usize) -> (j: usize)
    requires
        from <= ts@.len(),
    ensures
        j as int == find_tok(tv(ts@), Matcher::Kw(kw@), from as int),
        from <= j <= ts@.len(),
{
    let mut i: usize = from;
    while i < ts.len()
        invariant
            from <= i <= ts@.len(),
            forall|k: int| from <= k < i ==> !tok_matches(tv(ts@)[k], Matcher::Kw(kw@)),
        decreases ts@.len() - i,
    {
        if is_kw(&ts[i], kw) {
            proof {
                lemma_find_tok_is(tv(ts@), Matcher::Kw(kw@), from as int, i as int);
            }
            return i;
        }
        i = i + 1;
    }
    proof {
        lemma_find_tok_is(tv(ts@), Matcher::Kw(kw@), from as int, ts@.len() as int);
    }
    i
}

/// First index at or after `from` whose token is the punctuation `c`.
pub fn find_punct(ts: &Vec<Tok>, c: char, from: usize) -> (j: usize)
    requires
        from <= ts@.len(),
    ensures
        j as int == find_tok(tv(ts@), Matcher::Sep(c), from as int),
        from <= j <= ts@.len(),
{
    let mut i: usize = from;
    while i < ts.len()
        invariant
            from <= i <= ts@.len(),
            forall|k: int| from <= k < i ==> !tok_matches(tv(ts@)[k], Matcher::Sep(c)),
        decreases ts@.len() - i,
    {
        if is_sep(&ts[i], c) {
            proof {
                lemma_find_tok_is(tv(ts@), Matcher::Sep(c), from as int, i as int);
            }
            return i;
        }
        i = i + 1;
    }
    proof {
        lemma_find_tok_is(tv(ts@), Matcher::Sep(c), from as int, ts@.len() as int);
    }
    i
}

} // verus!
