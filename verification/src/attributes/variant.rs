//! Resolution of a tagged-union case's predicate path from its two
//! annotation sites.
//!
//! A case may carry identifier annotations at the case itself (the outer
//! site) and at its sole payload field (the inner site).  One annotated site
//! yields a direct subject-to-object edge; both sites annotated yield a
//! two-hop path through an anonymous intermediate node; neither is an error.

use vstd::prelude::*;

verus! {

use crate::attributes::AttributeError;
use crate::attributes::ast::{LitStrView, VariantAttribute, VariantAttributeView};
use crate::attributes::parse::{parse_variant_attributes, spec_parse_variant_blocks};
use crate::decl::{AnnotationBlock, AnnotationBlockView, Span};
use crate::iri::{is_absolute_iri, IriBuf};
use crate::prefix_mappings::{spec_expanded, PrefixMappings};

/// How a case's subject is linked to its object.
#[derive(Debug, PartialEq, Eq)]
pub enum PredicatePath {
    /// A two-hop path: the subject is linked to an anonymous intermediate
    /// node by `to_blank`, and that node to the object by `from_blank`.
    ChainedPath { to_blank: IriBuf, from_blank: IriBuf },
    /// A single edge from subject to object.
    Predicate(IriBuf),
}

pub enum PredicatePathView {
    ChainedPath { to_blank: Seq<char>, from_blank: Seq<char> },
    Predicate(Seq<char>),
}

impl DeepView for PredicatePath {
    type V = PredicatePathView;

    open spec fn deep_view(&self) -> PredicatePathView {
        match self {
            PredicatePath::ChainedPath { to_blank, from_blank } => PredicatePathView::ChainedPath {
                to_blank: to_blank.deep_view(),
                from_blank: from_blank.deep_view(),
            },
            PredicatePath::Predicate(p) => PredicatePathView::Predicate(p.deep_view()),
        }
    }
}

/// The resolved attributes of one tagged-union case: exactly one predicate
/// path.
#[derive(Debug, PartialEq, Eq)]
pub struct VariantAttributes {
    pub predicate_path: PredicatePath,
}

pub struct VariantAttributesView {
    pub predicate_path: PredicatePathView,
}

impl DeepView for VariantAttributes {
    type V = VariantAttributesView;

    open spec fn deep_view(&self) -> VariantAttributesView {
        VariantAttributesView { predicate_path: self.predicate_path.deep_view() }
    }
}

pub open spec fn spec_variant_lit(v: VariantAttributeView) -> LitStrView {
    match v {
        VariantAttributeView::Iri(l) => l,
    }
}

/// One annotation site's entries reduced to at most one resolved identifier:
/// a second entry fails with `MultipleIris` at its own location, and a
/// single entry resolves through the expansion rule against `m`.
pub open spec fn spec_unpack_variant_attrs(
    entries: Seq<VariantAttributeView>,
    m: Map<Seq<char>, Seq<char>>,
) -> Result<Option<Seq<char>>, AttributeError> {
    if entries.len() >= 2 {
        Err(AttributeError::MultipleIris { span: spec_variant_lit(entries[1]).span })
    } else if entries.len() == 1 {
        let lit = spec_variant_lit(entries[0]);
        if !is_absolute_iri(lit.value) {
            Err(AttributeError::InvalidIri { span: lit.span })
        } else {
            Ok(Some(spec_expanded(m, lit.value)))
        }
    } else {
        Ok(None)
    }
}

/// The whole per-case resolution: parse both sites (inner first), reduce
/// each site to at most one identifier, then apply the four-row table: both
/// absent is `MissingIri`; one present is a direct edge with that
/// identifier; both present is a chained path with the inner identifier
/// leading to the intermediate node and the outer one leaving it.
pub open spec fn spec_variant_attributes(
    inner: Seq<AnnotationBlockView>,
    outer: Seq<AnnotationBlockView>,
    m: Map<Seq<char>, Seq<char>>,
    case_span: Span,
) -> Result<VariantAttributesView, AttributeError> {
    match spec_parse_variant_blocks(inner) {
        Err(e) => Err(e),
        Ok(ie) => match spec_parse_variant_blocks(outer) {
            Err(e) => Err(e),
            Ok(oe) => match (spec_unpack_variant_attrs(ie, m), spec_unpack_variant_attrs(oe, m)) {
                (Err(e), _) => Err(e),
                (Ok(_), Err(e)) => Err(e),
                (Ok(None), Ok(None)) => Err(AttributeError::MissingIri { span: case_span }),
                (Ok(None), Ok(Some(o))) => Ok(
                    VariantAttributesView { predicate_path: PredicatePathView::Predicate(o) },
                ),
                (Ok(Some(i)), Ok(None)) => Ok(
                    VariantAttributesView { predicate_path: PredicatePathView::Predicate(i) },
                ),
                (Ok(Some(i)), Ok(Some(o))) => Ok(
                    VariantAttributesView {
                        predicate_path: PredicatePathView::ChainedPath {
                            to_blank: i,
                            from_blank: o,
                        },
                    },
                ),
            },
        },
    }
}

fn unpack_variant_attrs(entries: &Vec<VariantAttribute>, prefix_mappings: &PrefixMappings) -> (r:
    Result<Option<IriBuf>, AttributeError>)
    ensures
        (match spec_unpack_variant_attrs(entries.deep_view(), prefix_mappings@) {
            Ok(o) => r matches Ok(v) && v.deep_view() == o,
            Err(e) => r == Err::<Option<IriBuf>, AttributeError>(e),
        }),
{
    if entries.len() >= 2 {
        match &entries[1] {
            VariantAttribute::Iri(lit) => Err(AttributeError::MultipleIris { span: lit.span }),
        }
    } else if entries.len() == 1 {
        match &entries[0] {
            VariantAttribute::Iri(lit) => {
                match prefix_mappings.expand(lit.value.clone()) {
                    Err(_) => Err(AttributeError::InvalidIri { span: lit.span }),
                    Ok(iri) => Ok(Some(iri)),
                }
            },
        }
    } else {
        Ok(None)
    }
}

impl VariantAttributes {
    /// Resolves one case's predicate path from the annotation blocks of its
    /// payload field (`inner_attrs`) and of the case itself (`outer_attrs`),
    /// against the enclosing union's registry.
    pub fn try_from_attrs(
        inner_attrs: &Vec<AnnotationBlock>,
        outer_attrs: &Vec<AnnotationBlock>,
        prefix_mappings: &PrefixMappings,
        case_span: Span,
    ) -> (r: Result<VariantAttributes, AttributeError>)
        ensures
            (match spec_variant_attributes(
                inner_attrs.deep_view(),
                outer_attrs.deep_view(),
                prefix_mappings@,
                case_span,
            ) {
                Ok(a) => r matches Ok(v) && v.deep_view() == a,
                Err(e) => r == Err::<VariantAttributes, AttributeError>(e),
            }),
    {
        let inner_entries = match parse_variant_attributes(inner_attrs) {
            Err(e) => {
                return Err(e);
            },
            Ok(v) => v,
        };
        let outer_entries = match parse_variant_attributes(outer_attrs) {
            Err(e) => {
                return Err(e);
            },
            Ok(v) => v,
        };
        let inner_iri = match unpack_variant_attrs(&inner_entries, prefix_mappings) {
            Err(e) => {
                return Err(e);
            },
            Ok(v) => v,
        };
        let outer_iri = match unpack_variant_attrs(&outer_entries, prefix_mappings) {
            Err(e) => {
                return Err(e);
            },
            Ok(v) => v,
        };
        match (inner_iri, outer_iri) {
            (None, None) => Err(AttributeError::MissingIri { span: case_span }),
            (None, Some(o)) => Ok(
                VariantAttributes { predicate_path: PredicatePath::Predicate(o) },
            ),
            (Some(i), None) => Ok(
                VariantAttributes { predicate_path: PredicatePath::Predicate(i) },
            ),
            (Some(i), Some(o)) => Ok(
                VariantAttributes {
                    predicate_path: PredicatePath::ChainedPath { to_blank: i, from_blank: o },
                },
            ),
        }
    }
}

} // verus!
