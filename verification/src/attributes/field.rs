//! Aggregation of a field's parsed annotation entries into a validated
//! attribute set.

use vstd::prelude::*;

verus! {

use crate::attributes::AttributeError;
use crate::attributes::ast::{FieldAttribute, FieldAttributeView};
use crate::attributes::parse::{parse_field_attributes, spec_parse_field_blocks};
use crate::decl::{AnnotationBlock, AnnotationBlockView};
use crate::iri::{is_absolute_iri, IriBuf};
use crate::prefix_mappings::{spec_expanded, PrefixMappings};

/// The validated attribute set of one record field.  The four flags and the
/// predicate are independent: no combination is itself disallowed.
#[derive(Debug, PartialEq, Eq)]
pub struct FieldAttributes {
    pub flatten: bool,
    pub is_graph: bool,
    pub ignore: bool,
    pub predicate: Option<IriBuf>,
    pub is_id: bool,
}

pub struct FieldAttributesView {
    pub flatten: bool,
    pub is_graph: bool,
    pub ignore: bool,
    pub predicate: Option<Seq<char>>,
    pub is_id: bool,
}

impl DeepView for FieldAttributes {
    type V = FieldAttributesView;

    open spec fn deep_view(&self) -> FieldAttributesView {
        FieldAttributesView {
            flatten: self.flatten,
            is_graph: self.is_graph,
            ignore: self.ignore,
            predicate: self.predicate.deep_view(),
            is_id: self.is_id,
        }
    }
}

/// The attribute set of a field without annotations: all flags off, no
/// predicate.
pub open spec fn spec_field_defaults() -> FieldAttributesView {
    FieldAttributesView {
        flatten: false,
        is_graph: false,
        ignore: false,
        predicate: None,
        is_id: false,
    }
}

/// Folds parsed field entries in order over the enclosing declaration's
/// registry `m`: each keyword entry sets its flag (repeats are idempotent); a
/// bare literal resolves to the predicate through the expansion rule; a
/// second literal fails with `MultipleIris` at its own location.
pub open spec fn spec_field_fold(
    entries: Seq<FieldAttributeView>,
    m: Map<Seq<char>, Seq<char>>,
    acc: FieldAttributesView,
) -> Result<FieldAttributesView, AttributeError>
    decreases entries.len(),
{
    if entries.len() == 0 {
        Ok(acc)
    } else {
        match entries[0] {
            FieldAttributeView::Ignore => spec_field_fold(
                entries.drop_first(),
                m,
                FieldAttributesView { ignore: true, ..acc },
            ),
            FieldAttributeView::Flatten => spec_field_fold(
                entries.drop_first(),
                m,
                FieldAttributesView { flatten: true, ..acc },
            ),
            FieldAttributeView::Id => spec_field_fold(
                entries.drop_first(),
                m,
                FieldAttributesView { is_id: true, ..acc },
            ),
            FieldAttributeView::Graph => spec_field_fold(
                entries.drop_first(),
                m,
                FieldAttributesView { is_graph: true, ..acc },
            ),
            FieldAttributeView::Iri(lit) => {
                if acc.predicate is Some {
                    Err(AttributeError::MultipleIris { span: lit.span })
                } else if !is_absolute_iri(lit.value) {
                    Err(AttributeError::InvalidIri { span: lit.span })
                } else {
                    spec_field_fold(
                        entries.drop_first(),
                        m,
                        FieldAttributesView { predicate: Some(spec_expanded(m, lit.value)), ..acc },
                    )
                }
            },
        }
    }
}

/// The whole per-field aggregation: parse every block, then fold the entries
/// against the enclosing declaration's registry.
pub open spec fn spec_field_attributes(
    blocks: Seq<AnnotationBlockView>,
    m: Map<Seq<char>, Seq<char>>,
) -> Result<FieldAttributesView, AttributeError> {
    match spec_parse_field_blocks(blocks) {
        Err(e) => Err(e),
        Ok(entries) => spec_field_fold(entries, m, spec_field_defaults()),
    }
}

impl FieldAttributes {
    /// Aggregates a field's annotation blocks against the enclosing
    /// declaration's prefix registry.
    pub fn try_from_attrs(attrs: &Vec<AnnotationBlock>, prefix_mappings: &PrefixMappings) -> (r:
        Result<FieldAttributes, AttributeError>)
        ensures
            (match spec_field_attributes(attrs.deep_view(), prefix_mappings@) {
                Ok(a) => r matches Ok(v) && v.deep_view() == a,
                Err(e) => r == Err::<FieldAttributes, AttributeError>(e),
            }),
    {
        match parse_field_attributes(attrs) {
            Err(e) => Err(e),
            Ok(entries) => {
                let ghost ev = entries.deep_view();
                let ghost m = prefix_mappings@;
                let mut out = FieldAttributes {
                    flatten: false,
                    is_graph: false,
                    ignore: false,
                    predicate: None,
                    is_id: false,
                };
                let mut i: usize = 0;
                proof {
                    assert(ev.skip(0) =~= ev);
                    assert(out.deep_view() == spec_field_defaults());
                }
                while i < entries.len()
                    invariant
                        i <= entries.len(),
                        entries.deep_view() == ev,
                        prefix_mappings@ == m,
                        spec_field_attributes(attrs.deep_view(), m) == spec_field_fold(
                            ev,
                            m,
                            spec_field_defaults(),
                        ),
                        spec_field_fold(ev, m, spec_field_defaults()) == spec_field_fold(
                            ev.skip(i as int),
                            m,
                            out.deep_view(),
                        ),
                    decreases entries.len() - i,
                {
                    let ghost i0 = i as int;
                    proof {
                        assert(ev.skip(i0)[0] == ev[i0]);
                        assert(ev[i0] == entries@[i0].deep_view());
                        assert(ev.skip(i0).drop_first() =~= ev.skip(i0 + 1));
                    }
                    match &entries[i] {
                        FieldAttribute::Ignore => {
                            out.ignore = true;
                        },
                        FieldAttribute::Flatten => {
                            out.flatten = true;
                        },
                        FieldAttribute::Id => {
                            out.is_id = true;
                        },
                        FieldAttribute::Graph => {
                            out.is_graph = true;
                        },
                        FieldAttribute::Iri(lit) => {
                            if out.predicate.is_some() {
                                return Err(AttributeError::MultipleIris { span: lit.span });
                            }
                            match prefix_mappings.expand(lit.value.clone()) {
                                Err(_) => {
                                    return Err(AttributeError::InvalidIri { span: lit.span });
                                },
                                Ok(iri) => {
                                    out.predicate = Some(iri);
                                },
                            }
                        },
                    }
                    i = i + 1;
                }
                proof {
                    assert(ev.skip(i as int) =~= Seq::<FieldAttributeView>::empty());
                }
                Ok(out)
            },
        }
    }
}

} // verus!
