//! The annotation language: its abstract syntax, its parser, and the
//! per-declaration, per-field and per-case aggregation of parsed entries
//! into validated attribute sets.

use vstd::prelude::*;

pub mod ast;
pub mod declaration;
pub mod field;
pub mod parse;
pub mod variant;

verus! {

use crate::decl::Span;

/// Everything that can go wrong while parsing annotation text or resolving
/// the parsed entries.  Every variant that a specific annotation causes
/// carries that annotation's location.
#[derive(Clone, Copy, Debug, PartialEq, Eq, Structural)]
pub enum AttributeError {
    /// The annotation text fails the grammar.
    MalformedAttribute { span: Span },
    /// A literal is not a well-formed absolute identifier.
    InvalidIri { span: Span },
    /// A prefix literal violates the prefix character rules.
    InvalidPrefix { span: Span },
    /// More than one type annotation on one record declaration; the span is
    /// the second occurrence's.
    MultipleTypes { span: Span },
    /// More than one identifier-valued annotation at a single site; the span
    /// is the second occurrence's.
    MultipleIris { span: Span },
    /// A tagged-union case carries no identifier annotation at either site;
    /// the span is the case's own.
    MissingIri { span: Span },
}

} // verus!
