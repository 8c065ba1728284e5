//! A miniature source-to-source compiler with two front ends that share one
//! architecture: a comprehension-expression compiler that turns a mapping /
//! filter comprehension into a lazy iterator pipeline, and a restricted-C
//! function transpiler that parses a tiny subset of C function syntax and
//! emits an equivalent Rust function definition, with table-driven call-name
//! substitution and C-style format-string conversion.
//!
//! Input and output are sequences of [`tokens::Tok`]; turning program text
//! into tokens and splicing the result back into a program is the caller's
//! concern. Each entry point is a pure transform from a token sequence to a
//! token sequence or one positioned error; no state is kept between calls.

use vstd::prelude::*;

pub mod cfunction;
pub mod comprehension;
pub mod errors;
pub mod format;
pub mod tokens;
pub mod transpile;

use crate::cfunction::{cfunc_parse_spec, CFuncV, CFunction};
use crate::comprehension::{comp_output, comp_spec, CompV, Comprehension};
use crate::errors::{CompileError, SpecResult};
use crate::tokens::{tv, Tok};
use crate::transpile::cfunc_output;

verus! {

/// Compiles one comprehension invocation: parses
/// `MAPPING "for" PATTERN "in" ITERABLE ("if" CONDITION)*` and renders the
/// equivalent lazy iterator pipeline, or fails with a positioned syntax
/// error and no partial output.
pub fn comp(input: &Vec<Tok>) -> (r: Result<Vec<Tok>, CompileError>)
    ensures
        match r {
            Ok(out) => comp_spec(tv(input@)) matches SpecResult::Good(c) && tv(out@)
                == comp_output(c),
            Err(e) => comp_spec(tv(input@)) == SpecResult::<CompV>::Bad(e.pos as int, e.kind),
        },
{
    match Comprehension::parse(input) {
        Ok(c) => Ok(c.to_tokens()),
        Err(e) => Err(e),
    }
}

/// Compiles one restricted-C function: parses the signature, parameter list
/// and flat statement body, rewrites registered direct calls, and renders
/// the equivalent Rust function definition, or fails with one positioned
/// error and no partial output.
pub fn cfunc(input: &Vec<Tok>) -> (r: Result<Vec<Tok>, CompileError>)
    ensures
        match r {
            Ok(out) => cfunc_parse_spec(tv(input@)) matches SpecResult::Good(f) && tv(out@)
                == cfunc_output(f),
            Err(e) => cfunc_parse_spec(tv(input@)) == SpecResult::<CFuncV>::Bad(
                e.pos as int,
                e.kind,
            ),
        },
{
    match CFunction::parse(input) {
        Ok(f) => Ok(f.to_tokens()),
        Err(e) => Err(e),
    }
}

} // verus!
