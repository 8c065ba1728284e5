//! The comprehension front end: a recursive-descent parser for
//! `MAPPING "for" PATTERN "in" ITERABLE ("if" CONDITION)*` and a code
//! generator that renders the result as a lazy iterator pipeline.
//!
//! An expression is a run of tokens; the keyword `for` is a hard boundary
//! the mapping never crosses, and `if` begins each filter condition, so an
//! expression run ends at the first of those keywords at its own nesting
//! level (bracketed text is a single group token) or at the end of input.

use vstd::prelude::*;

use crate::errors::{CompileError, ErrKind, SpecResult};
use crate::tokens::{
    find_ident, find_tok, is_ident, is_kw, lemma_tok_view_group, subcopy, tv, Delim, Matcher, Tok,
    TokV,
};

verus! {

/// Spec-level `for` / `in` / `if` clause: the bound pattern, the iterable,
/// and the ordered filter conditions.
#[verifier::ext_equal]
pub struct ClauseV {
    pub pattern: Seq<char>,
    pub iterable: Seq<TokV>,
    pub conditions: Seq<Seq<TokV>>,
}

/// Spec-level comprehension: a mapping expression and its clause.
#[verifier::ext_equal]
pub struct CompV {
    pub mapping: Seq<TokV>,
    pub pattern: Seq<char>,
    pub iterable: Seq<TokV>,
    pub conditions: Seq<Seq<TokV>>,
}

/// The condition loop, started at position `i`: as long as an `if` keyword
/// followed by a nonempty condition run stands at the cursor, one condition
/// is consumed; the first failing attempt consumes nothing and stops the
/// loop. Returns the conditions and the final cursor.
pub open spec fn parse_conds(s: Seq<TokV>, i: int) -> (Seq<Seq<TokV>>, int)
    decreases s.len() - i when 0 <= i <= s.len()
{
    if i < s.len() && is_ident(s[i], "if"@) {
        let e0 = find_tok(s, Matcher::Kw("if"@), i + 1);
        let e = if e0 <= s.len() {
            e0
        } else {
            s.len() as int
        };
        if e > i + 1 {
            let r = parse_conds(s, e);
            (seq![s.subrange(i + 1, e)] + r.0, r.1)
        } else {
            (Seq::empty(), i)
        }
    } else {
        (Seq::empty(), i)
    }
}

/// The `for` / `in` / `if` clause expected at position `i`: the parsed
/// clause and the cursor after it, or the position and kind of the failure.
pub open spec fn clause_spec(s: Seq<TokV>, i: int) -> SpecResult<(ClauseV, int)> {
    if !(0 <= i < s.len() && is_ident(s[i], "for"@)) {
        SpecResult::Bad(i, ErrKind::Syntax)
    } else if !(i + 1 < s.len() && s[i + 1] matches TokV::Ident(_)) {
        SpecResult::Bad(i + 1, ErrKind::Syntax)
    } else if !(i + 2 < s.len() && is_ident(s[i + 2], "in"@)) {
        SpecResult::Bad(i + 2, ErrKind::Syntax)
    } else {
        let e = find_tok(s, Matcher::Kw("if"@), i + 3);
        if e == i + 3 {
            SpecResult::Bad(i + 3, ErrKind::Syntax)
        } else {
            let pc = parse_conds(s, e);
            SpecResult::Good(
                (
                    ClauseV {
                        pattern: s[i + 1]->Ident_0,
                        iterable: s.subrange(i + 3, e),
                        conditions: pc.0,
                    },
                    pc.1,
                ),
            )
        }
    }
}

/// A whole comprehension: a nonempty mapping run ended by `for`, the
/// clause, and nothing after it.
pub open spec fn comp_spec(s: Seq<TokV>) -> SpecResult<CompV> {
    let f = find_tok(s, Matcher::Kw("for"@), 0);
    if f >= s.len() {
        SpecResult::Bad(s.len() as int, ErrKind::Syntax)
    } else if f == 0 {
        SpecResult::Bad(0, ErrKind::Syntax)
    } else {
        match clause_spec(s, f) {
            SpecResult::Bad(p, k) => SpecResult::Bad(p, k),
            SpecResult::Good(pair) => if pair.1 < s.len() {
                SpecResult::Bad(pair.1, ErrKind::Syntax)
            } else {
                SpecResult::Good(
                    CompV {
                        mapping: s.subrange(0, f),
                        pattern: pair.0.pattern,
                        iterable: pair.0.iterable,
                        conditions: pair.0.conditions,
                    },
                )
            },
        }
    }
}

/// The conjunction the generated filter tests: `true`, with each condition
/// appended as `&& (condition)`; vacuously `true` when there is none.
pub open spec fn conds_tokens(cs: Seq<Seq<TokV>>) -> Seq<TokV>
    decreases cs.len(),
{
    if cs.len() == 0 {
        seq![TokV::Ident("true"@)]
    } else {
        conds_tokens(cs.drop_last()) + seq![
            TokV::Punct('&'),
            TokV::Punct('&'),
            TokV::Group(Delim::Paren, cs.last()),
        ]
    }
}

/// The generated pipeline: obtain an iterator over the iterable, and for
/// each element bind the pattern, test the conjunction of the conditions,
/// and yield the mapping when it holds.
pub open spec fn comp_output(c: CompV) -> Seq<TokV> {
    seq![
        TokV::Punct(':'),
        TokV::Punct(':'),
        TokV::Ident("core"@),
        TokV::Punct(':'),
        TokV::Punct(':'),
        TokV::Ident("iter"@),
        TokV::Punct(':'),
        TokV::Punct(':'),
        TokV::Ident("IntoIterator"@),
        TokV::Punct(':'),
        TokV::Punct(':'),
        TokV::Ident("into_iter"@),
        TokV::Group(Delim::Paren, c.iterable),
        TokV::Punct('.'),
        TokV::Ident("filter_map"@),
        TokV::Group(
            Delim::Paren,
            seq![
                TokV::Ident("move"@),
                TokV::Punct('|'),
                TokV::Ident(c.pattern),
                TokV::Punct('|'),
                TokV::Group(
                    Delim::Brace,
                    seq![
                        TokV::Ident("if"@),
                        TokV::Group(Delim::Paren, conds_tokens(c.conditions)),
                        TokV::Group(
                            Delim::Brace,
                            seq![TokV::Ident("Some"@), TokV::Group(Delim::Paren, c.mapping)],
                        ),
                        TokV::Ident("else"@),
                        TokV::Group(Delim::Brace, seq![TokV::Ident("None"@)]),
                    ],
                ),
            ],
        ),
    ]
}

/// The single binding form of a clause: one identifier.
pub struct Pattern {
    pub name: String,
}

impl View for Pattern {
    type V = Seq<char>;

    open spec fn view(&self) -> Seq<char> {
        self.name@
    }
}

/// One filter condition: the expression run after its `if`.
pub struct Condition {
    pub tokens: Vec<Tok>,
}

impl View for Condition {
    type V = Seq<TokV>;

    open spec fn view(&self) -> Seq<TokV> {
        tv(self.tokens@)
    }
}

/// The mapping expression of a comprehension.
pub struct Mapping {
    pub tokens: Vec<Tok>,
}

impl View for Mapping {
    type V = Seq<TokV>;

    open spec fn view(&self) -> Seq<TokV> {
        tv(self.tokens@)
    }
}

pub open spec fn conds_view(cs: Seq<Condition>) -> Seq<Seq<TokV>> {
    Seq::new(cs.len(), |i: int| cs[i]@)
}

/// The `for` / `in` / `if` clause of a comprehension.
pub struct ForIfClause {
    pub pattern: Pattern,
    pub iterable_expression: Vec<Tok>,
    pub conditions: Vec<Condition>,
}

impl View for ForIfClause {
    type V = ClauseV;

    open spec fn view(&self) -> ClauseV {
        ClauseV {
            pattern: self.pattern@,
            iterable: tv(self.iterable_expression@),
            conditions: conds_view(self.conditions@),
        }
    }
}

/// One parsed comprehension.
pub struct Comprehension {
    pub mapping: Mapping,
    pub for_if_clause: ForIfClause,
}

impl View for Comprehension {
    type V = CompV;

    open spec fn view(&self) -> CompV {
        CompV {
            mapping: self.mapping@,
            pattern: self.for_if_clause.pattern@,
            iterable: tv(self.for_if_clause.iterable_expression@),
            conditions: conds_view(self.for_if_clause.conditions@),
        }
    }
}

impl Pattern {
    /// Parses the single binding form: the token must be an identifier.
    pub fn parse(t: &Tok, pos: usize) -> (r: Result<Pattern, CompileError>)
        ensures
            match r {
                Ok(p) => t@ matches TokV::Ident(n) && p@ == n,
                Err(e) => !(t@ matches TokV::Ident(_)) && e.pos == pos && e.kind is Syntax,
            },
    {
        match t {
            Tok::Ident(s) => Ok(Pattern { name: s.clone() }),
            _ => Err(CompileError { pos, kind: ErrKind::Syntax }),
        }
    }
}

/// Collects conditions until an attempt fails; a failed attempt consumes
/// nothing, so the cursor it returns is exactly where the last successful
/// attempt ended.
pub fn parse_zero_or_more(input: &Vec<Tok>, from: usize) -> (r: (Vec<Condition>, usize))
    requires
        from <= input@.len(),
    ensures
        conds_view(r.0@) == parse_conds(tv(input@), from as int).0,
        r.1 as int == parse_conds(tv(input@), from as int).1,
        from <= r.1 <= input@.len(),
    decreases input@.len() - from,
{
    let ghost s = tv(input@);
    if from < input.len() && is_kw(&input[from], "if") {
        let e = find_ident(input, "if", from + 1);
        if e > from + 1 {
            let cond = Condition { tokens: subcopy(input, from + 1, e) };
            let (rest, j) = parse_zero_or_more(input, e);
            let mut out: Vec<Condition> = Vec::new();
            out.push(cond);
            let mut rest_mut = rest;
            out.append(&mut rest_mut);
            proof {
                assert(conds_view(out@) =~= seq![s.subrange(from + 1, e as int)] + parse_conds(
                    s,
                    e as int,
                ).0);
            }
            (out, j)
        } else {
            (Vec::new(), from)
        }
    } else {
        (Vec::new(), from)
    }
}

impl ForIfClause {
    /// Parses `"for" PATTERN "in" ITERABLE ("if" CONDITION)*` starting at
    /// `from`; returns the clause and the cursor after it.
    pub fn parse(input: &Vec<Tok>, from: usize) -> (r: Result<(ForIfClause, usize), CompileError>)
        requires
            from <= input@.len(),
        ensures
            match r {
                Ok(p) => clause_spec(tv(input@), from as int) == SpecResult::Good(
                    (p.0@, p.1 as int),
                ) && p.1 <= input@.len(),
                Err(e) => clause_spec(tv(input@), from as int) == SpecResult::<(ClauseV, int)>::Bad(
                    e.pos as int,
                    e.kind,
                ),
            },
    {
        let ghost s = tv(input@);
        if !(from < input.len() && is_kw(&input[from], "for")) {
            return Err(CompileError { pos: from, kind: ErrKind::Syntax });
        }
        if input.len() - from < 2 {
            return Err(CompileError { pos: from + 1, kind: ErrKind::Syntax });
        }
        let pattern = match Pattern::parse(&input[from + 1], from + 1) {
            Ok(p) => p,
            Err(e) => {
                return Err(e);
            },
        };
        if !(input.len() - from > 2 && is_kw(&input[from + 2], "in")) {
            return Err(CompileError { pos: from + 2, kind: ErrKind::Syntax });
        }
        let e = find_ident(input, "if", from + 3);
        if e == from + 3 {
            return Err(CompileError { pos: from + 3, kind: ErrKind::Syntax });
        }
        let iterable_expression = subcopy(input, from + 3, e);
        let (conditions, j) = parse_zero_or_more(input, e);
        let clause = ForIfClause { pattern, iterable_expression, conditions };
        proof {
            assert(clause_spec(s, from as int) =~~= SpecResult::Good((clause@, j as int)));
        }
        Ok((clause, j))
    }
}

impl Comprehension {
    /// Parses a whole comprehension: the mapping run, then the clause,
    /// with no tokens left over.
    pub fn parse(input: &Vec<Tok>) -> (r: Result<Comprehension, CompileError>)
        ensures
            match r {
                Ok(c) => comp_spec(tv(input@)) == SpecResult::Good(c@),
                Err(e) => comp_spec(tv(input@)) == SpecResult::<CompV>::Bad(e.pos as int, e.kind),
            },
    {
        let ghost s = tv(input@);
        let f = find_ident(input, "for", 0);
        if f == input.len() {
            return Err(CompileError { pos: f, kind: ErrKind::Syntax });
        }
        if f == 0 {
            return Err(CompileError { pos: 0, kind: ErrKind::Syntax });
        }
        match ForIfClause::parse(input, f) {
            Err(e) => Err(e),
            Ok((clause, j)) => {
                if j < input.len() {
                    Err(CompileError { pos: j, kind: ErrKind::Syntax })
                } else {
                    let mapping = Mapping { tokens: subcopy(input, 0, f) };
                    let c = Comprehension { mapping, for_if_clause: clause };
                    proof {
                        assert(comp_spec(s) =~~= SpecResult::Good(c@));
                    }
                    Ok(c)
                }
            },
        }
    }

    /// Renders the comprehension as its iterator pipeline.
    pub fn to_tokens(self) -> (r: Vec<Tok>)
        ensures
            tv(r@) == comp_output(self@),
    {
        let ghost cv = self@;
        let Comprehension { mapping, for_if_clause } = self;
        let ForIfClause { pattern, iterable_expression, conditions } = for_if_clause;

        let conj = conds_to_tokens(conditions);
        proof {
            lemma_tok_view_group(Delim::Paren, conj);
        }
        let cond_grp = Tok::Group(Delim::Paren, conj);
        proof {
            lemma_tok_view_group(Delim::Paren, mapping.tokens);
        }
        let some_grp = Tok::Group(Delim::Paren, mapping.tokens);
        let mut then_v: Vec<Tok> = Vec::new();
        then_v.push(Tok::Ident("Some".to_owned()));
        then_v.push(some_grp);
        proof {
            assert(tv(then_v@) =~~= seq![
                TokV::Ident("Some"@),
                TokV::Group(Delim::Paren, cv.mapping),
            ]);
            lemma_tok_view_group(Delim::Brace, then_v);
        }
        let mut else_v: Vec<Tok> = Vec::new();
        else_v.push(Tok::Ident("None".to_owned()));
        proof {
            assert(tv(else_v@) =~~= seq![TokV::Ident("None"@)]);
            lemma_tok_view_group(Delim::Brace, else_v);
        }
        let mut body_v: Vec<Tok> = Vec::new();
        body_v.push(Tok::Ident("if".to_owned()));
        body_v.push(cond_grp);
        body_v.push(Tok::Group(Delim::Brace, then_v));
        body_v.push(Tok::Ident("else".to_owned()));
        body_v.push(Tok::Group(Delim::Brace, else_v));
        proof {
            assert(tv(body_v@) =~~= seq![
                TokV::Ident("if"@),
                TokV::Group(Delim::Paren, conds_tokens(cv.conditions)),
                TokV::Group(
                    Delim::Brace,
                    seq![TokV::Ident("Some"@), TokV::Group(Delim::Paren, cv.mapping)],
                ),
                TokV::Ident("else"@),
                TokV::Group(Delim::Brace, seq![TokV::Ident("None"@)]),
            ]);
            lemma_tok_view_group(Delim::Brace, body_v);
        }
        let mut clos_v: Vec<Tok> = Vec::new();
        clos_v.push(Tok::Ident("move".to_owned()));
        clos_v.push(Tok::Punct('|'));
        clos_v.push(pattern.to_tokens());
        clos_v.push(Tok::Punct('|'));
        clos_v.push(Tok::Group(Delim::Brace, body_v));
        proof {
            assert(tv(clos_v@) =~~= seq![
                TokV::Ident("move"@),
                TokV::Punct('|'),
                TokV::Ident(cv.pattern),
                TokV::Punct('|'),
                TokV::Group(
                    Delim::Brace,
                    seq![
                        TokV::Ident("if"@),
                        TokV::Group(Delim::Paren, conds_tokens(cv.conditions)),
                        TokV::Group(
                            Delim::Brace,
                            seq![TokV::Ident("Some"@), TokV::Group(Delim::Paren, cv.mapping)],
                        ),
                        TokV::Ident("else"@),
                        TokV::Group(Delim::Brace, seq![TokV::Ident("None"@)]),
                    ],
                ),
            ]);
            lemma_tok_view_group(Delim::Paren, clos_v);
            lemma_tok_view_group(Delim::Paren, iterable_expression);
        }
        let mut out: Vec<Tok> = Vec::new();
        out.push(Tok::Punct(':'));
        out.push(Tok::Punct(':'));
        out.push(Tok::Ident("core".to_owned()));
        out.push(Tok::Punct(':'));
        out.push(Tok::Punct(':'));
        out.push(Tok::Ident("iter".to_owned()));
        out.push(Tok::Punct(':'));
        out.push(Tok::Punct(':'));
        out.push(Tok::Ident("IntoIterator".to_owned()));
        out.push(Tok::Punct(':'));
        out.push(Tok::Punct(':'));
        out.push(Tok::Ident("into_iter".to_owned()));
        out.push(Tok::Group(Delim::Paren, iterable_expression));
        out.push(Tok::Punct('.'));
        out.push(Tok::Ident("filter_map".to_owned()));
        out.push(Tok::Group(Delim::Paren, clos_v));
        proof {
            assert(tv(out@) =~~= comp_output(cv));
        }
        out
    }
}

impl Pattern {
    /// Renders the pattern as its identifier token.
    pub fn to_tokens(self) -> (r: Tok)
        ensures
            r@ == TokV::Ident(self@),
    {
        Tok::Ident(self.name)
    }
}

impl Condition {
    /// Renders the condition as its expression run.
    pub fn to_tokens(self) -> (r: Vec<Tok>)
        ensures
            tv(r@) == self@,
    {
        self.tokens
    }
}

/// Renders the conjunction of the conditions: `true`, then `&& (...)` for
/// each condition in order.
fn conds_to_tokens(conds: Vec<Condition>) -> (r: Vec<Tok>)
    ensures
        tv(r@) == conds_tokens(conds_view(conds@)),
{
    let ghost all = conds_view(conds@);
    let mut out: Vec<Tok> = Vec::new();
    out.push(Tok::Ident("true".to_owned()));
    let ghost mut done: Seq<Seq<TokV>> = Seq::empty();
    proof {
        assert(tv(out@) =~= conds_tokens(done));
    }
    let mut rest = conds;
    while rest.len() > 0
        invariant
            tv(out@) == conds_tokens(done),
            done + conds_view(rest@) =~= all,
        decreases rest@.len(),
    {
        let c = rest.remove(0);
        out.push(Tok::Punct('&'));
        out.push(Tok::Punct('&'));
        let ghost cvw = c@;
        let ct = c.tokens;
        proof {
            lemma_tok_view_group(Delim::Paren, ct);
        }
        out.push(Tok::Group(Delim::Paren, ct));
        proof {
            let done2 = done.push(cvw);
            assert(done2.drop_last() =~= done);
            assert(tv(out@) =~= conds_tokens(done2));
            assert(done2 + conds_view(rest@) =~= all);
            done = done2;
        }
    }
    proof {
        assert(conds_view(rest@) =~= Seq::<Seq<TokV>>::empty());
        assert(done =~= all);
    }
    out
}

} // verus!
