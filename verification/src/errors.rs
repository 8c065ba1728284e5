//! Compile errors. Every failure of a compile is terminal and carries a
//! position: the index of the offending token in the token run being parsed
//! at that point, or, for a parameter or statement list, the index of the
//! offending list element.

use vstd::prelude::*;

verus! {

/// The three kinds of failure a compile can end in.
#[derive(Clone, Copy, Debug, PartialEq, Eq, Structural)]
pub enum ErrKind {
    /// A required grammar element is missing or malformed.
    Syntax,
    /// A type identifier outside the supported set was encountered.
    UnsupportedType,
    /// A token expected to resolve to a type identifier is not an identifier.
    UnresolvableToken,
}

/// A positioned diagnostic; no partial output accompanies it.
#[derive(Clone, Copy, Debug, PartialEq, Eq, Structural)]
pub struct CompileError {
    pub pos: usize,
    pub kind: ErrKind,
}

/// Spec-level outcome of a parse: the parsed value, or the position and
/// kind of the error the parse ends in.
#[verifier::ext_equal]
pub enum SpecResult<A> {
    Good(A),
    Bad(int, ErrKind),
}

impl CompileError {
    /// The user-facing diagnostic text for this error.
    pub fn message(&self) -> (r: String)
        ensures
            self.kind is Syntax ==> r@ == "invalid syntax"@,
            self.kind is UnsupportedType ==> r@ == "Only void and int supported"@,
            self.kind is UnresolvableToken ==> r@ == "Unable to convert token to String"@,
    {
        match self.kind {
            ErrKind::Syntax => "invalid syntax".to_owned(),
            ErrKind::UnsupportedType => "Only void and int supported".to_owned(),
            ErrKind::UnresolvableToken => "Unable to convert token to String".to_owned(),
        }
    }
}

} // verus!
