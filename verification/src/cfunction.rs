//! The restricted-C function front end: the type mapper and a
//! recursive-descent parser for
//! `TYPE NAME "(" PARAMS ")" "{" STATEMENTS "}"`, where `TYPE` is `int` or
//! `void`, parameters are `TYPE NAME` pairs separated by commas, and the
//! body is a flat list of statements separated by semicolons (a trailing
//! separator is allowed in both lists). A statement is an opaque run of
//! tokens; only direct calls to registered names are rewritten later, so a
//! statement must already be valid in the target language otherwise.

use vstd::prelude::*;

use crate::errors::{CompileError, ErrKind, SpecResult};
use crate::tokens::{
    lemma_tok_view_group, segments, split_segments, subcopy, tv, tvv, Delim, Tok, TokV,
};

verus! {

/// The two primitive types of the source language, as mapped to the target:
/// `int` becomes the 32-bit integer, `void` the unit type.
#[derive(Clone, Copy, Debug, PartialEq, Eq, Structural)]
pub enum TypeTag {
    Int32,
    Unit,
}

/// The target type for a source type name: only `int` and `void` resolve.
pub open spec fn type_of_name(n: Seq<char>) -> Option<TypeTag> {
    if n == "int"@ {
        Some(TypeTag::Int32)
    } else if n == "void"@ {
        Some(TypeTag::Unit)
    } else {
        None
    }
}

/// What mapping one type token yields: a tag, the unsupported-type error
/// for any other identifier, or the unresolvable-token error for a token
/// that is no identifier at all.
pub open spec fn map_type(t: TokV, pos: int) -> SpecResult<TypeTag> {
    match t {
        TokV::Ident(n) => match type_of_name(n) {
            Some(tt) => SpecResult::Good(tt),
            None => SpecResult::Bad(pos, ErrKind::UnsupportedType),
        },
        _ => SpecResult::Bad(pos, ErrKind::UnresolvableToken),
    }
}

/// Spec-level parameter: its type tag and its name.
#[verifier::ext_equal]
pub struct ParamV {
    pub ty: TypeTag,
    pub name: Seq<char>,
}

/// One parameter segment must be exactly a type token and a name.
pub open spec fn param_spec(seg: Seq<TokV>, idx: int) -> SpecResult<ParamV> {
    if seg.len() == 0 {
        SpecResult::Bad(idx, ErrKind::Syntax)
    } else {
        match map_type(seg[0], idx) {
            SpecResult::Bad(p, k) => SpecResult::Bad(p, k),
            SpecResult::Good(tt) => if !(seg.len() == 2 && seg[1] matches TokV::Ident(_)) {
                SpecResult::Bad(idx, ErrKind::Syntax)
            } else {
                SpecResult::Good(ParamV { ty: tt, name: seg[1]->Ident_0 })
            },
        }
    }
}

/// The parameter segments from index `i` on, left to right; the first
/// failing segment decides the error.
pub open spec fn params_spec_from(segs: Seq<Seq<TokV>>, i: int) -> SpecResult<Seq<ParamV>>
    decreases segs.len() - i when 0 <= i <= segs.len()
{
    if i >= segs.len() {
        SpecResult::Good(Seq::empty())
    } else {
        match param_spec(segs[i], i) {
            SpecResult::Bad(p, k) => SpecResult::Bad(p, k),
            SpecResult::Good(p) => match params_spec_from(segs, i + 1) {
                SpecResult::Bad(q, k) => SpecResult::Bad(q, k),
                SpecResult::Good(r) => SpecResult::Good(seq![p] + r),
            },
        }
    }
}

/// The statement segments from index `i` on: each must be nonempty.
pub open spec fn stmts_spec_from(segs: Seq<Seq<TokV>>, i: int) -> SpecResult<Seq<Seq<TokV>>>
    decreases segs.len() - i when 0 <= i <= segs.len()
{
    if i >= segs.len() {
        SpecResult::Good(Seq::empty())
    } else if segs[i].len() == 0 {
        SpecResult::Bad(i, ErrKind::Syntax)
    } else {
        match stmts_spec_from(segs, i + 1) {
            SpecResult::Bad(q, k) => SpecResult::Bad(q, k),
            SpecResult::Good(r) => SpecResult::Good(seq![segs[i]] + r),
        }
    }
}

/// Spec-level parsed function: return type, name, parameters, statements.
#[verifier::ext_equal]
pub struct CFuncV {
    pub ret: TypeTag,
    pub name: Seq<char>,
    pub params: Seq<ParamV>,
    pub body: Seq<Seq<TokV>>,
}

/// A whole function: exactly a type token, a name, a parenthesized
/// parameter list and a braced body, with nothing after them.
pub open spec fn cfunc_parse_spec(s: Seq<TokV>) -> SpecResult<CFuncV> {
    if s.len() == 0 {
        SpecResult::Bad(0, ErrKind::UnresolvableToken)
    } else {
        match map_type(s[0], 0) {
            SpecResult::Bad(p, k) => SpecResult::Bad(p, k),
            SpecResult::Good(ret) => if !(s.len() >= 2 && s[1] matches TokV::Ident(_)) {
                SpecResult::Bad(1, ErrKind::Syntax)
            } else if !(s.len() >= 3 && s[2] matches TokV::Group(Delim::Paren, _)) {
                SpecResult::Bad(2, ErrKind::Syntax)
            } else if !(s.len() >= 4 && s[3] matches TokV::Group(Delim::Brace, _)) {
                SpecResult::Bad(3, ErrKind::Syntax)
            } else if s.len() > 4 {
                SpecResult::Bad(4, ErrKind::Syntax)
            } else {
                match params_spec_from(segments(s[2]->Group_1, ','), 0) {
                    SpecResult::Bad(p, k) => SpecResult::Bad(p, k),
                    SpecResult::Good(params) => match stmts_spec_from(
                        segments(s[3]->Group_1, ';'),
                        0,
                    ) {
                        SpecResult::Bad(p, k) => SpecResult::Bad(p, k),
                        SpecResult::Good(body) => SpecResult::Good(
                            CFuncV { ret, name: s[1]->Ident_0, params, body },
                        ),
                    },
                }
            },
        }
    }
}

/// For every type identifier outside `int` and `void` at the head of the
/// input, function parsing fails with the unsupported-type error at that
/// token; `int` and `void` alone pass the type mapper.
pub proof fn lemma_only_void_and_int(s: Seq<TokV>, n: Seq<char>)
    requires
        s.len() > 0,
        s[0] == TokV::Ident(n),
        n != "int"@,
        n != "void"@,
    ensures
        cfunc_parse_spec(s) == SpecResult::<CFuncV>::Bad(0, ErrKind::UnsupportedType),
        map_type(s[0], 0) == SpecResult::<TypeTag>::Bad(0, ErrKind::UnsupportedType),
{
}

/// Maps one source type token to the target type. Any identifier outside
/// `int` and `void` is the unsupported-type error; a token that is no
/// identifier is the unresolvable-token error.
pub fn c_to_rust_type(t: &Tok, pos: usize) -> (r: Result<TypeTag, CompileError>)
    ensures
        match r {
            Ok(tt) => map_type(t@, pos as int) == SpecResult::<TypeTag>::Good(tt),
            Err(e) => map_type(t@, pos as int) == SpecResult::<TypeTag>::Bad(e.pos as int, e.kind)
                && e.pos == pos,
        },
{
    match t {
        Tok::Ident(s) => {
            if *s == "int".to_owned() {
                Ok(TypeTag::Int32)
            } else if *s == "void".to_owned() {
                Ok(TypeTag::Unit)
            } else {
                Err(CompileError { pos, kind: ErrKind::UnsupportedType })
            }
        },
        _ => Err(CompileError { pos, kind: ErrKind::UnresolvableToken }),
    }
}

/// One parameter: its type and its name.
pub struct Parameter {
    pub param_type: TypeTag,
    pub param_name: String,
}

impl View for Parameter {
    type V = ParamV;

    open spec fn view(&self) -> ParamV {
        ParamV { ty: self.param_type, name: self.param_name@ }
    }
}

/// The parameter list of a function.
pub struct ParameterList {
    pub parameters: Vec<Parameter>,
}

pub open spec fn params_view(ps: Seq<Parameter>) -> Seq<ParamV> {
    Seq::new(ps.len(), |i: int| ps[i]@)
}

impl View for ParameterList {
    type V = Seq<ParamV>;

    open spec fn view(&self) -> Seq<ParamV> {
        params_view(self.parameters@)
    }
}

/// One statement of a function body: an opaque run of tokens.
pub struct Statement {
    pub tokens: Vec<Tok>,
}

impl View for Statement {
    type V = Seq<TokV>;

    open spec fn view(&self) -> Seq<TokV> {
        tv(self.tokens@)
    }
}

/// The flat statement list of a function body.
pub struct FunctionBody {
    pub statements: Vec<Statement>,
}

pub open spec fn stmts_view(ss: Seq<Statement>) -> Seq<Seq<TokV>> {
    Seq::new(ss.len(), |i: int| ss[i]@)
}

impl View for FunctionBody {
    type V = Seq<Seq<TokV>>;

    open spec fn view(&self) -> Seq<Seq<TokV>> {
        stmts_view(self.statements@)
    }
}

/// One parsed restricted-C function.
pub struct CFunction {
    pub return_type: TypeTag,
    pub function_name: String,
    pub function_params: ParameterList,
    pub function_body: FunctionBody,
}

impl View for CFunction {
    type V = CFuncV;

    open spec fn view(&self) -> CFuncV {
        CFuncV {
            ret: self.return_type,
            name: self.function_name@,
            params: self.function_params@,
            body: self.function_body@,
        }
    }
}

impl Parameter {
    /// Parses one parameter segment: a type token, then a name.
    pub fn parse(seg: &Vec<Tok>, idx: usize) -> (r: Result<Parameter, CompileError>)
        ensures
            match r {
                Ok(p) => param_spec(tv(seg@), idx as int) == SpecResult::<ParamV>::Good(p@),
                Err(e) => param_spec(tv(seg@), idx as int) == SpecResult::<ParamV>::Bad(
                    e.pos as int,
                    e.kind,
                ),
            },
    {
        if seg.len() == 0 {
            return Err(CompileError { pos: idx, kind: ErrKind::Syntax });
        }
        let tt = match c_to_rust_type(&seg[0], idx) {
            Ok(tt) => tt,
            Err(e) => {
                return Err(e);
            },
        };
        if seg.len() != 2 {
            return Err(CompileError { pos: idx, kind: ErrKind::Syntax });
        }
        match &seg[1] {
            Tok::Ident(n) => Ok(Parameter { param_type: tt, param_name: n.clone() }),
            _ => Err(CompileError { pos: idx, kind: ErrKind::Syntax }),
        }
    }
}

impl ParameterList {
    /// Parses the inside of the parameter parentheses: `TYPE NAME` pairs
    /// separated by commas, possibly empty, a trailing comma allowed.
    pub fn parse(inner: &Vec<Tok>) -> (r: Result<ParameterList, CompileError>)
        ensures
            match r {
                Ok(ps) => params_spec_from(segments(tv(inner@), ','), 0) == SpecResult::<
                    Seq<ParamV>,
                >::Good(ps@),
                Err(e) => params_spec_from(segments(tv(inner@), ','), 0) == SpecResult::<
                    Seq<ParamV>,
                >::Bad(e.pos as int, e.kind),
            },
    {
        let ghost segsv = segments(tv(inner@), ',');
        let segs = split_segments(inner, ',');
        let mut parameters: Vec<Parameter> = Vec::new();
        let mut i: usize = 0;
        while i < segs.len()
            invariant
                i <= segs@.len(),
                segsv == segments(tv(inner@), ','),
                tvv(segs@) == segsv,
                params_view(parameters@) =~~= params_spec_goods(segsv, 0, i as int),
                params_ok_to(segsv, i as int),
            decreases segs@.len() - i,
        {
            proof {
                assert(segsv[i as int] == tv(segs@[i as int]@));
            }
            let p = match Parameter::parse(&segs[i], i) {
                Ok(p) => p,
                Err(e) => {
                    proof {
                        lemma_params_spec_bad(segsv, 0, i as int, e.pos as int, e.kind);
                    }
                    return Err(e);
                },
            };
            let ghost oldps = parameters@;
            let ghost pv = p@;
            parameters.push(p);
            proof {
                let npv = params_view(parameters@);
                let gv = params_spec_goods(segsv, 0, i + 1);
                assert(parameters@ == oldps.push(p));
                assert(params_view(oldps) =~~= params_spec_goods(segsv, 0, i as int));
                assert(params_view(oldps).len() == i as int);
                assert(oldps.len() == i as int);
                assert(npv.len() == gv.len());
                assert forall|j: int| 0 <= j < npv.len() implies npv[j] == gv[j] by {
                    assert(npv[j] == parameters@[j]@);
                    assert(gv[j] == param_spec(segsv[0 + j], 0 + j)->Good_0);
                    if j < i {
                        assert(parameters@[j] == oldps[j]);
                        assert(params_view(oldps)[j] == oldps[j]@);
                        assert(params_view(oldps)[j] == params_spec_goods(segsv, 0, i as int)[j]);
                    } else {
                        assert(parameters@[j] == p);
                        assert(pv == param_spec(segsv[i as int], i as int)->Good_0);
                    }
                }
                assert(npv =~= gv);
            }
            i = i + 1;
        }
        proof {
            lemma_params_spec_good(segsv, 0);
        }
        Ok(ParameterList { parameters })
    }
}

/// The parameters of the segments in `[from, to)`, each assumed good.
pub open spec fn params_spec_goods(segs: Seq<Seq<TokV>>, from: int, to: int) -> Seq<ParamV> {
    Seq::new((to - from) as nat, |i: int| param_spec(segs[from + i], from + i)->Good_0)
}

/// Every segment before `to` parses as a parameter.
pub open spec fn params_ok_to(segs: Seq<Seq<TokV>>, to: int) -> bool {
    &&& 0 <= to <= segs.len()
    &&& forall|k: int| 0 <= k < to ==> #[trigger] param_spec(segs[k], k) matches SpecResult::Good(_)
}

/// When a segment fails, the whole list fails with that segment's error.
pub proof fn lemma_params_spec_bad(segs: Seq<Seq<TokV>>, from: int, bad: int, p: int, k: ErrKind)
    requires
        0 <= from <= bad < segs.len(),
        forall|j: int| from <= j < bad ==> #[trigger] param_spec(segs[j], j) matches
            SpecResult::Good(_),
        param_spec(segs[bad], bad) == SpecResult::<ParamV>::Bad(p, k),
    ensures
        params_spec_from(segs, from) == SpecResult::<Seq<ParamV>>::Bad(p, k),
    decreases segs.len() - from,
{
    if from < bad {
        lemma_params_spec_bad(segs, from + 1, bad, p, k);
    }
}

/// When every segment parses, the whole list is exactly those parameters.
pub proof fn lemma_params_spec_good(segs: Seq<Seq<TokV>>, from: int)
    requires
        0 <= from <= segs.len(),
        forall|j: int| from <= j < segs.len() ==> #[trigger] param_spec(segs[j], j) matches
            SpecResult::Good(_),
    ensures
        params_spec_from(segs, from) == SpecResult::<Seq<ParamV>>::Good(
            params_spec_goods(segs, from, segs.len() as int),
        ),
    decreases segs.len() - from,
{
    if from >= segs.len() {
        assert(params_spec_goods(segs, from, segs.len() as int) =~= Seq::<ParamV>::empty());
    } else {
        lemma_params_spec_good(segs, from + 1);
        assert(params_spec_goods(segs, from, segs.len() as int) =~= seq![
            param_spec(segs[from], from)->Good_0,
        ] + params_spec_goods(segs, from + 1, segs.len() as int));
    }
}

/// The statements of the segments in `[from, to)`.
pub open spec fn stmts_spec_goods(segs: Seq<Seq<TokV>>, from: int, to: int) -> Seq<Seq<TokV>> {
    Seq::new((to - from) as nat, |i: int| segs[from + i])
}

pub proof fn lemma_stmts_spec_bad(segs: Seq<Seq<TokV>>, from: int, bad: int)
    requires
        0 <= from <= bad < segs.len(),
        forall|j: int| from <= j < bad ==> #[trigger] segs[j].len() != 0,
        segs[bad].len() == 0,
    ensures
        stmts_spec_from(segs, from) == SpecResult::<Seq<Seq<TokV>>>::Bad(bad, ErrKind::Syntax),
    decreases segs.len() - from,
{
    if from < bad {
        lemma_stmts_spec_bad(segs, from + 1, bad);
    }
}

pub proof fn lemma_stmts_spec_good(segs: Seq<Seq<TokV>>, from: int)
    requires
        0 <= from <= segs.len(),
        forall|j: int| from <= j < segs.len() ==> #[trigger] segs[j].len() != 0,
    ensures
        stmts_spec_from(segs, from) == SpecResult::<Seq<Seq<TokV>>>::Good(
            stmts_spec_goods(segs, from, segs.len() as int),
        ),
    decreases segs.len() - from,
{
    if from >= segs.len() {
        assert(stmts_spec_goods(segs, from, segs.len() as int) =~= Seq::<Seq<TokV>>::empty());
    } else {
        lemma_stmts_spec_good(segs, from + 1);
        assert(stmts_spec_goods(segs, from, segs.len() as int) =~= seq![segs[from]]
            + stmts_spec_goods(segs, from + 1, segs.len() as int));
    }
}

impl FunctionBody {
    /// Parses the inside of the body braces: statements separated by
    /// semicolons, a trailing semicolon allowed, no statement empty.
    pub fn parse(inner: &Vec<Tok>) -> (r: Result<FunctionBody, CompileError>)
        ensures
            match r {
                Ok(b) => stmts_spec_from(segments(tv(inner@), ';'), 0) == SpecResult::<
                    Seq<Seq<TokV>>,
                >::Good(b@),
                Err(e) => stmts_spec_from(segments(tv(inner@), ';'), 0) == SpecResult::<
                    Seq<Seq<TokV>>,
                >::Bad(e.pos as int, e.kind),
            },
    {
        let ghost segsv = segments(tv(inner@), ';');
        let segs = split_segments(inner, ';');
        let mut statements: Vec<Statement> = Vec::new();
        let mut i: usize = 0;
        while i < segs.len()
            invariant
                i <= segs@.len(),
                segsv == segments(tv(inner@), ';'),
                tvv(segs@) == segsv,
                stmts_view(statements@) =~~= stmts_spec_goods(segsv, 0, i as int),
                forall|k: int| 0 <= k < i ==> #[trigger] segsv[k].len() != 0,
            decreases segs@.len() - i,
        {
            proof {
                assert(segsv[i as int] == tv(segs@[i as int]@));
            }
            if segs[i].len() == 0 {
                proof {
                    lemma_stmts_spec_bad(segsv, 0, i as int);
                }
                return Err(CompileError { pos: i, kind: ErrKind::Syntax });
            }
            let ghost oldst = statements@;
            let seg = subcopy(&segs[i], 0, segs[i].len());
            let ghost segv = tv(seg@);
            let st = Statement { tokens: seg };
            statements.push(st);
            proof {
                assert(segv =~= segsv[i as int]);
                assert(statements@ == oldst.push(st));
                assert(stmts_view(oldst) =~~= stmts_spec_goods(segsv, 0, i as int));
                assert(stmts_view(oldst).len() == i as int);
                assert(oldst.len() == i as int);
                let nsv = stmts_view(statements@);
                let gv = stmts_spec_goods(segsv, 0, i + 1);
                assert(nsv.len() == gv.len());
                assert forall|j: int| 0 <= j < nsv.len() implies nsv[j] == gv[j] by {
                    assert(nsv[j] == statements@[j]@);
                    assert(gv[j] == segsv[0 + j]);
                    if j < i {
                        assert(statements@[j] == oldst[j]);
                        assert(stmts_view(oldst)[j] == oldst[j]@);
                        assert(stmts_view(oldst)[j] == stmts_spec_goods(segsv, 0, i as int)[j]);
                    } else {
                        assert(statements@[j] == st);
                        assert(st@ == segv);
                    }
                }
                assert(nsv =~= gv);
            }
            i = i + 1;
        }
        proof {
            lemma_stmts_spec_good(segsv, 0);
        }
        Ok(FunctionBody { statements })
    }
}

impl CFunction {
    /// Parses a whole function: type, name, parenthesized parameters,
    /// braced body, and nothing after them.
    pub fn parse(input: &Vec<Tok>) -> (r: Result<CFunction, CompileError>)
        ensures
            match r {
                Ok(f) => cfunc_parse_spec(tv(input@)) == SpecResult::<CFuncV>::Good(f@),
                Err(e) => cfunc_parse_spec(tv(input@)) == SpecResult::<CFuncV>::Bad(
                    e.pos as int,
                    e.kind,
                ),
            },
    {
        let ghost s = tv(input@);
        if input.len() == 0 {
            return Err(CompileError { pos: 0, kind: ErrKind::UnresolvableToken });
        }
        let return_type = match c_to_rust_type(&input[0], 0) {
            Ok(tt) => tt,
            Err(e) => {
                return Err(e);
            },
        };
        if input.len() < 2 {
            return Err(CompileError { pos: 1, kind: ErrKind::Syntax });
        }
        let function_name = match &input[1] {
            Tok::Ident(n) => n.clone(),
            _ => {
                return Err(CompileError { pos: 1, kind: ErrKind::Syntax });
            },
        };
        if input.len() < 3 {
            return Err(CompileError { pos: 2, kind: ErrKind::Syntax });
        }
        let ps = match &input[2] {
            Tok::Group(Delim::Paren, ps) => ps,
            _ => {
                return Err(CompileError { pos: 2, kind: ErrKind::Syntax });
            },
        };
        proof {
            assert(input@[2] == Tok::Group(Delim::Paren, *ps));
            lemma_tok_view_group(Delim::Paren, *ps);
        }
        if input.len() < 4 {
            return Err(CompileError { pos: 3, kind: ErrKind::Syntax });
        }
        let bs = match &input[3] {
            Tok::Group(Delim::Brace, bs) => bs,
            _ => {
                return Err(CompileError { pos: 3, kind: ErrKind::Syntax });
            },
        };
        proof {
            assert(input@[3] == Tok::Group(Delim::Brace, *bs));
            lemma_tok_view_group(Delim::Brace, *bs);
        }
        if input.len() > 4 {
            return Err(CompileError { pos: 4, kind: ErrKind::Syntax });
        }
        let function_params = match ParameterList::parse(ps) {
            Ok(pl) => pl,
            Err(e) => {
                return Err(e);
            },
        };
        let function_body = match FunctionBody::parse(bs) {
            Ok(fb) => fb,
            Err(e) => {
                return Err(e);
            },
        };
        let f = CFunction { return_type, function_name, function_params, function_body };
        proof {
            assert(cfunc_parse_spec(s) =~~= SpecResult::<CFuncV>::Good(f@));
        }
        Ok(f)
    }
}

} // verus!
