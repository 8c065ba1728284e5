//! The call-substitution table, the statement transpiler, and code
//! generation for parsed functions. A statement is rewritten only when its
//! whole top-level form is a direct call to a registered name: the callee
//! is renamed to the table's target and string-literal arguments go through
//! the format-string converter. Calls nested inside other expressions and
//! calls to unregistered names pass through verbatim.

use vstd::prelude::*;

use crate::cfunction::{
    params_view, stmts_view, CFuncV, CFunction, FunctionBody, ParamV, Parameter, ParameterList,
    Statement, TypeTag,
};
use crate::format::{convert_format_string, fmt_fix};
use crate::tokens::{
    lemma_tok_view_group, lemma_tv_concat, segments, split_segments, subcopy, tv, tvv, Delim, Tok,
    TokV,
};

verus! {

/// The call-substitution table, immutable for the whole process: the one
/// entry maps `printf` to the target's `print!` primitive.
pub open spec fn call_target(name: Seq<char>) -> Option<Seq<TokV>> {
    if name == "printf"@ {
        Some(seq![TokV::Ident("print"@), TokV::Punct('!')])
    } else {
        None
    }
}

/// Looks a callee name up in the call-substitution table.
pub fn lookup_call(name: &String) -> (r: Option<Vec<Tok>>)
    ensures
        match r {
            Some(t) => call_target(name@) == Some(tv(t@)),
            None => call_target(name@) is None,
        },
{
    if *name == "printf".to_owned() {
        let mut t: Vec<Tok> = Vec::new();
        t.push(Tok::Ident("print".to_owned()));
        t.push(Tok::Punct('!'));
        proof {
            assert(tv(t@) =~= seq![TokV::Ident("print"@), TokV::Punct('!')]);
        }
        Some(t)
    } else {
        None
    }
}

/// What one argument becomes: a lone string literal has its format
/// specifiers rewritten; any other argument is copied unchanged.
pub open spec fn conv_arg(seg: Seq<TokV>) -> Seq<TokV> {
    if seg.len() == 1 {
        match seg[0] {
            TokV::StrLit(cs) => seq![TokV::StrLit(fmt_fix(cs))],
            _ => seg,
        }
    } else {
        seg
    }
}

/// The rewritten argument tokens: each argument in input order, a comma
/// after each.
pub open spec fn args_out(segs: Seq<Seq<TokV>>) -> Seq<TokV>
    decreases segs.len(),
{
    if segs.len() == 0 {
        Seq::empty()
    } else {
        conv_arg(segs[0]) + seq![TokV::Punct(',')] + args_out(segs.drop_first())
    }
}

/// What one statement becomes: a direct call to a registered name is
/// replaced by the target with rewritten arguments; everything else is
/// copied unchanged. The scan is shallow by design: only the statement's
/// own outermost form is inspected.
pub open spec fn transpile_stmt_spec(st: Seq<TokV>) -> Seq<TokV> {
    if st.len() == 2 {
        match (st[0], st[1]) {
            (TokV::Ident(n), TokV::Group(Delim::Paren, args)) => match call_target(n) {
                Some(tgt) => tgt + seq![
                    TokV::Group(Delim::Paren, args_out(segments(args, ','))),
                ],
                None => st,
            },
            _ => st,
        }
    } else {
        st
    }
}

/// The generated body: each transpiled statement in order, a semicolon
/// after each.
pub open spec fn body_out(stmts: Seq<Seq<TokV>>) -> Seq<TokV>
    decreases stmts.len(),
{
    if stmts.len() == 0 {
        Seq::empty()
    } else {
        transpile_stmt_spec(stmts[0]) + seq![TokV::Punct(';')] + body_out(stmts.drop_first())
    }
}

/// The target tokens of a type tag.
pub open spec fn type_tokens(t: TypeTag) -> Seq<TokV> {
    match t {
        TypeTag::Int32 => seq![TokV::Ident("i32"@)],
        TypeTag::Unit => seq![TokV::Group(Delim::Paren, Seq::empty())],
    }
}

/// The generated tokens of one parameter: `name : type`.
pub open spec fn param_tokens(p: ParamV) -> Seq<TokV> {
    seq![TokV::Ident(p.name), TokV::Punct(':')] + type_tokens(p.ty)
}

/// The generated parameter list, comma-separated.
pub open spec fn params_out(ps: Seq<ParamV>) -> Seq<TokV>
    decreases ps.len(),
{
    if ps.len() == 0 {
        Seq::empty()
    } else if ps.len() == 1 {
        param_tokens(ps[0])
    } else {
        params_out(ps.drop_last()) + seq![TokV::Punct(',')] + param_tokens(ps.last())
    }
}

/// The generated function definition:
/// `fn name ( params ) -> type { body }`.
pub open spec fn cfunc_output(f: CFuncV) -> Seq<TokV> {
    seq![
        TokV::Ident("fn"@),
        TokV::Ident(f.name),
        TokV::Group(Delim::Paren, params_out(f.params)),
        TokV::Punct('-'),
        TokV::Punct('>'),
    ] + type_tokens(f.ret) + seq![TokV::Group(Delim::Brace, body_out(f.body))]
}

/// Rewrites the arguments of a substituted call: a lone string-literal
/// argument goes through the format-string converter, any other argument is
/// copied unchanged, and order is kept.
pub fn transpile_args(args: Vec<Tok>) -> (r: Vec<Tok>)
    ensures
        tv(r@) == args_out(segments(tv(args@), ',')),
{
    let ghost segsv = segments(tv(args@), ',');
    let segs = split_segments(&args, ',');
    let mut out: Vec<Tok> = Vec::new();
    let mut i: usize = 0;
    proof {
        assert(segsv.skip(0) =~= segsv);
        assert(tv(out@) + args_out(segsv) =~= args_out(segsv));
    }
    while i < segs.len()
        invariant
            i <= segs@.len(),
            segsv == segments(tv(args@), ','),
            tvv(segs@) == segsv,
            args_out(segsv) == tv(out@) + args_out(segsv.skip(i as int)),
        decreases segs@.len() - i,
    {
        let ghost out0 = tv(out@);
        let ghost segv = segsv[i as int];
        proof {
            assert(segv == tv(segs@[i as int]@));
            assert(segsv.skip(i as int).drop_first() =~= segsv.skip(i + 1));
            assert(segsv.skip(i as int)[0] == segv);
        }
        let is_lit = segs[i].len() == 1 && (match &segs[i][0] {
            Tok::StrLit(_) => true,
            _ => false,
        });
        if is_lit {
            match crate::tokens::clone_tok(&segs[i][0]) {
                Tok::StrLit(cs) => {
                    let ghost csv = cs@;
                    let fixed = convert_format_string(cs);
                    out.push(Tok::StrLit(fixed));
                    proof {
                        assert(conv_arg(segv) =~= seq![TokV::StrLit(fmt_fix(csv))]);
                    }
                },
                _ => {
                    proof {
                        assert(false);
                    }
                },
            }
        } else {
            let mut cp = subcopy(&segs[i], 0, segs[i].len());
            proof {
                assert(tv(cp@) =~= segv);
                assert(conv_arg(segv) == segv);
                lemma_tv_concat(out@, cp@);
            }
            out.append(&mut cp);
        }
        out.push(Tok::Punct(','));
        proof {
            assert(tv(out@) =~= out0 + conv_arg(segv) + seq![TokV::Punct(',')]);
            assert(args_out(segsv) == tv(out@) + args_out(segsv.skip(i + 1)));
        }
        i = i + 1;
    }
    proof {
        assert(segsv.skip(i as int) =~= Seq::<Seq<TokV>>::empty());
        assert(tv(out@) =~= args_out(segsv));
    }
    out
}

/// Transpiles one statement: a direct call to a registered name is
/// replaced; every other statement passes through verbatim.
pub fn transpile_statement(st: Statement) -> (r: Vec<Tok>)
    ensures
        tv(r@) == transpile_stmt_spec(st@),
{
    let ghost stv = st@;
    let mut toks = st.tokens;
    let is_call = toks.len() == 2 && (match &toks[0] {
        Tok::Ident(_) => true,
        _ => false,
    }) && (match &toks[1] {
        Tok::Group(Delim::Paren, _) => true,
        _ => false,
    });
    if !is_call {
        return toks;
    }
    let tgt = match &toks[0] {
        Tok::Ident(n) => lookup_call(n),
        _ => None,
    };
    let mut tgt = match tgt {
        Some(t) => t,
        None => {
            return toks;
        },
    };
    let args_grp = toks.pop();
    match args_grp {
        Some(Tok::Group(d, args)) => {
            proof {
                lemma_tok_view_group(d, args);
            }
            let new_args = transpile_args(args);
            proof {
                lemma_tok_view_group(Delim::Paren, new_args);
                lemma_tv_concat(tgt@, seq![Tok::Group(Delim::Paren, new_args)]);
            }
            let ghost tgtv = tv(tgt@);
            tgt.push(Tok::Group(Delim::Paren, new_args));
            proof {
                assert(tv(tgt@) =~~= transpile_stmt_spec(stv));
            }
            tgt
        },
        _ => {
            proof {
                assert(false);
            }
            toks
        },
    }
}

impl FunctionBody {
    /// Renders the transpiled body: each statement in order, rewritten when
    /// it is a registered direct call, a semicolon after each.
    pub fn to_tokens(self) -> (r: Vec<Tok>)
        ensures
            tv(r@) == body_out(self@),
    {
        let ghost all = self@;
        let mut sts = self.statements;
        let mut out: Vec<Tok> = Vec::new();
        proof {
            assert(tv(out@) + body_out(all) =~= body_out(all));
        }
        while sts.len() > 0
            invariant
                body_out(all) == tv(out@) + body_out(stmts_view(sts@)),
            decreases sts@.len(),
        {
            let ghost before = stmts_view(sts@);
            let st = sts.remove(0);
            let ghost stv = st@;
            proof {
                assert(before[0] == stv);
                assert(stmts_view(sts@) =~= before.drop_first());
            }
            let mut ts = transpile_statement(st);
            proof {
                lemma_tv_concat(out@, ts@);
            }
            out.append(&mut ts);
            out.push(Tok::Punct(';'));
            proof {
                assert(tv(out@) =~= tv(out@));
                assert(body_out(all) == tv(out@) + body_out(stmts_view(sts@)));
            }
        }
        proof {
            assert(stmts_view(sts@) =~= Seq::<Seq<TokV>>::empty());
            assert(tv(out@) =~= body_out(all));
        }
        out
    }
}

impl Parameter {
    /// Renders one parameter as `name : type`.
    pub fn to_tokens(self) -> (r: Vec<Tok>)
        ensures
            tv(r@) == param_tokens(self@),
    {
        let ghost pv = self@;
        let mut out: Vec<Tok> = Vec::new();
        out.push(Tok::Ident(self.param_name));
        out.push(Tok::Punct(':'));
        match self.param_type {
            TypeTag::Int32 => {
                out.push(Tok::Ident("i32".to_owned()));
            },
            TypeTag::Unit => {
                let empty: Vec<Tok> = Vec::new();
                proof {
                    lemma_tok_view_group(Delim::Paren, empty);
                    assert(tv(empty@) =~= Seq::<TokV>::empty());
                }
                out.push(Tok::Group(Delim::Paren, empty));
            },
        }
        proof {
            assert(tv(out@) =~~= param_tokens(pv));
        }
        out
    }
}

impl ParameterList {
    /// Renders the parameter list, comma-separated.
    pub fn to_tokens(self) -> (r: Vec<Tok>)
        ensures
            tv(r@) == params_out(self@),
    {
        let ghost all = self@;
        let mut ps = self.parameters;
        let mut out: Vec<Tok> = Vec::new();
        let mut first: bool = true;
        let ghost mut done: Seq<ParamV> = Seq::empty();
        proof {
            assert(tv(out@) =~= params_out(done));
        }
        while ps.len() > 0
            invariant
                tv(out@) == params_out(done),
                first == (done.len() == 0),
                done + params_view(ps@) =~= all,
            decreases ps@.len(),
        {
            let ghost before = params_view(ps@);
            let p = ps.remove(0);
            let ghost pv = p@;
            proof {
                assert(before[0] == pv);
                assert(params_view(ps@) =~= before.drop_first());
            }
            if !first {
                out.push(Tok::Punct(','));
            }
            let mut pt = p.to_tokens();
            proof {
                lemma_tv_concat(out@, pt@);
            }
            out.append(&mut pt);
            first = false;
            proof {
                let done2 = done.push(pv);
                assert(done2.drop_last() =~= done);
                assert(done2.last() == pv);
                assert(tv(out@) =~= params_out(done2));
                assert(done2 + params_view(ps@) =~= all);
                done = done2;
            }
        }
        proof {
            assert(params_view(ps@) =~= Seq::<ParamV>::empty());
            assert(done =~= all);
        }
        out
    }
}

impl CFunction {
    /// Renders the whole generated function definition.
    pub fn to_tokens(self) -> (r: Vec<Tok>)
        ensures
            tv(r@) == cfunc_output(self@),
    {
        let ghost fv = self@;
        let CFunction { return_type, function_name, function_params, function_body } = self;
        let params_toks = function_params.to_tokens();
        proof {
            lemma_tok_view_group(Delim::Paren, params_toks);
        }
        let mut out: Vec<Tok> = Vec::new();
        out.push(Tok::Ident("fn".to_owned()));
        out.push(Tok::Ident(function_name));
        out.push(Tok::Group(Delim::Paren, params_toks));
        out.push(Tok::Punct('-'));
        out.push(Tok::Punct('>'));
        match return_type {
            TypeTag::Int32 => {
                out.push(Tok::Ident("i32".to_owned()));
            },
            TypeTag::Unit => {
                let empty: Vec<Tok> = Vec::new();
                proof {
                    lemma_tok_view_group(Delim::Paren, empty);
                    assert(tv(empty@) =~= Seq::<TokV>::empty());
                }
                out.push(Tok::Group(Delim::Paren, empty));
            },
        }
        let body_toks = function_body.to_tokens();
        proof {
            lemma_tok_view_group(Delim::Brace, body_toks);
        }
        out.push(Tok::Group(Delim::Brace, body_toks));
        proof {
            assert(tv(out@) =~~= cfunc_output(fv));
        }
        out
    }
}

} // verus!
