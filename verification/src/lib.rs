//! Annotation-resolution front end for linked-data type declarations.
//!
//! The crate reads the small declarative annotations attached to a data-type
//! declaration (a record, a tagged union, their fields and cases) and resolves
//! them into a validated metadata tree that describes how the type maps onto a
//! subject-predicate-object graph model.  The host front end hands each
//! declaration over as plain text blocks (see [`decl`]); the metadata tree it
//! gets back is described in [`rdf_metadata`].

use vstd::prelude::*;

pub mod attributes;
pub mod decl;
pub mod iri;
pub mod prefix_mappings;
pub mod rdf_metadata;
pub mod text;

verus! {

use crate::attributes::AttributeError;
use crate::decl::Span;

/// Everything that can abort the build of one declaration's metadata tree.
/// Every error carries a source location; a single invalid annotation aborts
/// its declaration's build and no partial tree is produced.
#[derive(Clone, Copy, Debug, PartialEq, Eq, Structural)]
pub enum Error {
    /// An annotation failed to parse or to resolve.
    InvalidAttribute { source: AttributeError },
    /// A tagged-union case has no payload field; the span is the case's.
    UnitVariant { span: Span },
    /// A tagged-union case has more than one payload field; the span is the
    /// second field's.
    StructVariant { span: Span },
    /// The declaration is an untagged union, which is unsupported; the span
    /// is the union keyword's.
    UnionType { span: Span },
}

} // verus!
