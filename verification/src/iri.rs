//! Absolute identifiers (IRIs).
//!
//! Whether a string is a well-formed absolute IRI is decided by the `iref`
//! crate, which implements the RFC 3987 grammar; this crate only names that
//! judgement ([`is_absolute_iri`]) and carries validated text around in its
//! own owned type, [`IriBuf`].

use vstd::prelude::*;

verus! {

use crate::prefix_mappings::Error;

/// Whether `s` is a well-formed absolute IRI under the RFC 3987 grammar.
/// The judgement is made by the `iref` crate and depends on the characters
/// alone; this crate states nothing further about it.
pub uninterp spec fn is_absolute_iri(s: Seq<char>) -> bool;

/// Relies on `iref::Iri::new`: it validates a string against the RFC 3987
/// `IRI` grammar, a decision that depends on the characters alone.
#[verifier::external_body]
pub(crate) fn check_absolute_iri(s: &str) -> (r: bool)
    ensures
        r == is_absolute_iri(s@),
{
    iref::Iri::new(s).is_ok()
}

/// An owned absolute identifier.
///
/// A value of this type is either a literal that passed [`is_absolute_iri`]
/// validation, or the concatenation of a registered namespace identifier and
/// a compact identifier's local part (see
/// [`crate::prefix_mappings::PrefixMappings::expand`]).
#[derive(Debug, PartialEq, Eq)]
pub struct IriBuf {
    text: String,
}

impl View for IriBuf {
    type V = Seq<char>;

    closed spec fn view(&self) -> Seq<char> {
        self.text@
    }
}

impl DeepView for IriBuf {
    type V = Seq<char>;

    open spec fn deep_view(&self) -> Seq<char> {
        self.view()
    }
}

impl Clone for IriBuf {
    fn clone(&self) -> (r: Self)
        ensures
            r == *self,
    {
        IriBuf { text: self.text.clone() }
    }
}

impl IriBuf {
    /// Crate-internal constructor for text whose shape is already accounted
    /// for by the caller's contract (a validated literal, or a concatenation
    /// built by expansion).
    pub(crate) fn from_text(text: String) -> (r: IriBuf)
        ensures
            r@ == text@,
    {
        IriBuf { text }
    }

    /// Validates `text` as an absolute IRI and takes ownership of it.
    pub fn new(text: String) -> (r: Result<IriBuf, Error>)
        ensures
            is_absolute_iri(text@) ==> (r matches Ok(i) && i@ == text@),
            !is_absolute_iri(text@) ==> r == Err::<IriBuf, Error>(Error::InvalidIri),
    {
        if check_absolute_iri(text.as_str()) {
            Ok(IriBuf { text })
        } else {
            Err(Error::InvalidIri)
        }
    }

    pub fn as_str(&self) -> (r: &str)
        ensures
            r@ == self@,
    {
        self.text.as_str()
    }

    pub fn into_inner(self) -> (r: String)
        ensures
            r@ == self@,
    {
        self.text
    }
}

} // verus!
