//! Aggregation of a declaration's own parsed annotation entries: the prefix
//! registry, and (for records) the optional type identifier.

use vstd::prelude::*;

verus! {

use crate::attributes::AttributeError;
use crate::attributes::ast::{
    EnumAttribute, EnumAttributeView, PrefixAttribute, PrefixAttributeView, StructAttribute,
    StructAttributeView, TypeAttribute, TypeAttributeView,
};
use crate::attributes::parse::{
    parse_enum_attributes, parse_struct_attributes, spec_parse_enum_blocks,
    spec_parse_struct_blocks,
};
use crate::decl::{AnnotationBlock, AnnotationBlockView};
use crate::iri::{is_absolute_iri, IriBuf};
use crate::prefix_mappings::{is_valid_prefix, spec_expanded, Prefix, PrefixMappings};

/// Declaration-level attributes of a record: its own prefix registry and an
/// optional absolute type identifier.
#[derive(Debug, PartialEq, Eq)]
pub struct RdfStructAttributes {
    pub prefix_mappings: PrefixMappings,
    pub type_iri: Option<IriBuf>,
}

pub struct RdfStructAttributesView {
    pub prefix_mappings: Map<Seq<char>, Seq<char>>,
    pub type_iri: Option<Seq<char>>,
}

impl DeepView for RdfStructAttributes {
    type V = RdfStructAttributesView;

    open spec fn deep_view(&self) -> RdfStructAttributesView {
        RdfStructAttributesView {
            prefix_mappings: self.prefix_mappings@,
            type_iri: self.type_iri.deep_view(),
        }
    }
}

/// Declaration-level attributes of a tagged union: its prefix registry only;
/// the grammar refuses a type annotation here.
#[derive(Debug, PartialEq, Eq)]
pub struct RdfEnumAttributes {
    pub prefix_mappings: PrefixMappings,
}

pub struct RdfEnumAttributesView {
    pub prefix_mappings: Map<Seq<char>, Seq<char>>,
}

impl DeepView for RdfEnumAttributes {
    type V = RdfEnumAttributesView;

    open spec fn deep_view(&self) -> RdfEnumAttributesView {
        RdfEnumAttributesView { prefix_mappings: self.prefix_mappings@ }
    }
}

/// The prefix entries of a record declaration's parsed entries, in order.
pub open spec fn spec_struct_prefixes(entries: Seq<StructAttributeView>) -> Seq<
    PrefixAttributeView,
>
    decreases entries.len(),
{
    if entries.len() == 0 {
        Seq::empty()
    } else {
        match entries[0] {
            StructAttributeView::Prefix(p) => seq![p] + spec_struct_prefixes(entries.drop_first()),
            StructAttributeView::Type(_) => spec_struct_prefixes(entries.drop_first()),
        }
    }
}

/// The type entries of a record declaration's parsed entries, in order.
pub open spec fn spec_struct_types(entries: Seq<StructAttributeView>) -> Seq<TypeAttributeView>
    decreases entries.len(),
{
    if entries.len() == 0 {
        Seq::empty()
    } else {
        match entries[0] {
            StructAttributeView::Type(t) => seq![t] + spec_struct_types(entries.drop_first()),
            StructAttributeView::Prefix(_) => spec_struct_types(entries.drop_first()),
        }
    }
}

/// The prefix entries of a tagged-union declaration's parsed entries (every
/// entry is one).
pub open spec fn spec_enum_prefixes(entries: Seq<EnumAttributeView>) -> Seq<PrefixAttributeView>
    decreases entries.len(),
{
    if entries.len() == 0 {
        Seq::empty()
    } else {
        match entries[0] {
            EnumAttributeView::Prefix(p) => seq![p] + spec_enum_prefixes(entries.drop_first()),
        }
    }
}

/// Folds prefix bindings left to right into a registry: each binding's
/// namespace literal must be a well-formed absolute identifier and its
/// prefix literal a valid prefix, else the first offender's error is raised;
/// a later binding of the same prefix wins.
pub open spec fn spec_prefix_fold(
    ps: Seq<PrefixAttributeView>,
    acc: Map<Seq<char>, Seq<char>>,
) -> Result<Map<Seq<char>, Seq<char>>, AttributeError>
    decreases ps.len(),
{
    if ps.len() == 0 {
        Ok(acc)
    } else {
        let pm = ps[0].mapping;
        if !is_absolute_iri(pm.iri.value) {
            Err(AttributeError::InvalidIri { span: pm.iri.span })
        } else if !is_valid_prefix(pm.prefix.value) {
            Err(AttributeError::InvalidPrefix { span: pm.prefix.span })
        } else {
            spec_prefix_fold(ps.drop_first(), acc.insert(pm.prefix.value, pm.iri.value))
        }
    }
}

/// Declaration-level resolution for records: build the registry from every
/// prefix entry, reject a second type entry at its own location, and resolve
/// the surviving type identifier (if any) against the registry just built,
/// so it may itself use compact-identifier syntax.
pub open spec fn spec_struct_attrs_entries(entries: Seq<StructAttributeView>) -> Result<
    RdfStructAttributesView,
    AttributeError,
> {
    match spec_prefix_fold(spec_struct_prefixes(entries), Map::empty()) {
        Err(e) => Err(e),
        Ok(m) => {
            let ts = spec_struct_types(entries);
            if ts.len() >= 2 {
                Err(AttributeError::MultipleTypes { span: ts[1].identifier.span })
            } else if ts.len() == 1 {
                if !is_absolute_iri(ts[0].identifier.value) {
                    Err(AttributeError::InvalidIri { span: ts[0].identifier.span })
                } else {
                    Ok(
                        RdfStructAttributesView {
                            prefix_mappings: m,
                            type_iri: Some(spec_expanded(m, ts[0].identifier.value)),
                        },
                    )
                }
            } else {
                Ok(RdfStructAttributesView { prefix_mappings: m, type_iri: None })
            }
        },
    }
}

/// The whole record-declaration aggregation: parse every block, then resolve
/// the entries.
pub open spec fn spec_struct_attributes(blocks: Seq<AnnotationBlockView>) -> Result<
    RdfStructAttributesView,
    AttributeError,
> {
    match spec_parse_struct_blocks(blocks) {
        Err(e) => Err(e),
        Ok(entries) => spec_struct_attrs_entries(entries),
    }
}

/// The whole tagged-union-declaration aggregation: parse every block, then
/// fold the prefix bindings.
pub open spec fn spec_enum_attributes(blocks: Seq<AnnotationBlockView>) -> Result<
    RdfEnumAttributesView,
    AttributeError,
> {
    match spec_parse_enum_blocks(blocks) {
        Err(e) => Err(e),
        Ok(entries) => match spec_prefix_fold(spec_enum_prefixes(entries), Map::empty()) {
            Err(e) => Err(e),
            Ok(m) => Ok(RdfEnumAttributesView { prefix_mappings: m }),
        },
    }
}

/// Builds a registry from a list of prefix annotations by folding
/// [`spec_prefix_fold`]: validates each binding and inserts it, later
/// bindings of one prefix winning.
pub fn prefix_mappings_from_attrs(attrs: &Vec<PrefixAttribute>) -> (r: Result<
    PrefixMappings,
    AttributeError,
>)
    ensures
        (match spec_prefix_fold(attrs.deep_view(), Map::empty()) {
            Ok(m) => r matches Ok(v) && v@ == m,
            Err(e) => r == Err::<PrefixMappings, AttributeError>(e),
        }),
{
    let ghost pv = attrs.deep_view();
    let mut mappings = PrefixMappings::new();
    let mut i: usize = 0;
    proof {
        assert(pv.skip(0) =~= pv);
    }
    while i < attrs.len()
        invariant
            i <= attrs.len(),
            attrs.deep_view() == pv,
            spec_prefix_fold(pv, Map::empty()) == spec_prefix_fold(pv.skip(i as int), mappings@),
        decreases attrs.len() - i,
    {
        let ghost i0 = i as int;
        proof {
            assert(pv.skip(i0)[0] == pv[i0]);
            assert(pv[i0] == attrs@[i0].deep_view());
            assert(pv.skip(i0).drop_first() =~= pv.skip(i0 + 1));
        }
        let iri = match IriBuf::new(attrs[i].mapping.iri.value.clone()) {
            Err(_) => {
                return Err(AttributeError::InvalidIri { span: attrs[i].mapping.iri.span });
            },
            Ok(iri) => iri,
        };
        let prefix = match Prefix::new(attrs[i].mapping.prefix.value.as_str()) {
            Err(_) => {
                return Err(AttributeError::InvalidPrefix { span: attrs[i].mapping.prefix.span });
            },
            Ok(p) => p,
        };
        let _prev = mappings.insert_prefix_mapping(prefix, iri);
        i = i + 1;
    }
    proof {
        assert(pv.skip(i as int) =~= Seq::<PrefixAttributeView>::empty());
    }
    Ok(mappings)
}

impl RdfStructAttributes {
    /// Aggregates a record declaration's own annotation blocks.
    pub fn try_from_attrs(attrs: &Vec<AnnotationBlock>) -> (r: Result<
        RdfStructAttributes,
        AttributeError,
    >)
        ensures
            (match spec_struct_attributes(attrs.deep_view()) {
                Ok(a) => r matches Ok(v) && v.deep_view() == a,
                Err(e) => r == Err::<RdfStructAttributes, AttributeError>(e),
            }),
    {
        let entries = match parse_struct_attributes(attrs) {
            Err(e) => {
                return Err(e);
            },
            Ok(es) => es,
        };
        let ghost ev = entries.deep_view();
        let mut prefixes: Vec<PrefixAttribute> = Vec::new();
        let mut types: Vec<TypeAttribute> = Vec::new();
        let mut rest = entries;
        proof {
            assert(prefixes.deep_view() =~= Seq::<PrefixAttributeView>::empty());
            assert(types.deep_view() =~= Seq::<TypeAttributeView>::empty());
            assert(Seq::<PrefixAttributeView>::empty() + spec_struct_prefixes(ev)
                =~= spec_struct_prefixes(ev));
            assert(Seq::<TypeAttributeView>::empty() + spec_struct_types(ev) =~= spec_struct_types(
                ev,
            ));
        }
        while rest.len() > 0
            invariant
                spec_struct_prefixes(ev) == prefixes.deep_view() + spec_struct_prefixes(
                    rest.deep_view(),
                ),
                spec_struct_types(ev) == types.deep_view() + spec_struct_types(rest.deep_view()),
            decreases rest.len(),
        {
            let ghost rem0 = rest.deep_view();
            let ghost pre0 = prefixes.deep_view();
            let ghost ty0 = types.deep_view();
            let e = rest.remove(0);
            proof {
                assert(rest.deep_view() =~= rem0.drop_first());
                assert(rem0[0] == e.deep_view());
            }
            match e {
                StructAttribute::Prefix(p) => {
                    let ghost pv = p.deep_view();
                    prefixes.push(p);
                    proof {
                        assert(prefixes.deep_view() =~= pre0.push(pv));
                        assert(spec_struct_prefixes(rem0) == seq![pv] + spec_struct_prefixes(
                            rem0.drop_first(),
                        ));
                        assert(pre0 + (seq![pv] + spec_struct_prefixes(rem0.drop_first()))
                            =~= pre0.push(pv) + spec_struct_prefixes(rem0.drop_first()));
                    }
                },
                StructAttribute::Type(t) => {
                    let ghost tv = t.deep_view();
                    types.push(t);
                    proof {
                        assert(types.deep_view() =~= ty0.push(tv));
                        assert(spec_struct_types(rem0) == seq![tv] + spec_struct_types(
                            rem0.drop_first(),
                        ));
                        assert(ty0 + (seq![tv] + spec_struct_types(rem0.drop_first()))
                            =~= ty0.push(tv) + spec_struct_types(rem0.drop_first()));
                    }
                },
            }
        }
        proof {
            assert(rest.deep_view() =~= Seq::<StructAttributeView>::empty());
            assert(prefixes.deep_view() + Seq::<PrefixAttributeView>::empty() =~= prefixes.deep_view());
            assert(types.deep_view() + Seq::<TypeAttributeView>::empty() =~= types.deep_view());
            assert(spec_struct_prefixes(ev) == prefixes.deep_view());
            assert(spec_struct_types(ev) == types.deep_view());
        }
        let mappings = match prefix_mappings_from_attrs(&prefixes) {
            Err(e) => {
                return Err(e);
            },
            Ok(m) => m,
        };
        if types.len() >= 2 {
            proof {
                assert(types@[1].deep_view() == spec_struct_types(ev)[1]);
            }
            return Err(AttributeError::MultipleTypes { span: types[1].identifier.span });
        }
        if types.len() == 1 {
            proof {
                assert(types@[0].deep_view() == spec_struct_types(ev)[0]);
            }
            match mappings.expand(types[0].identifier.value.clone()) {
                Err(_) => {
                    return Err(AttributeError::InvalidIri { span: types[0].identifier.span });
                },
                Ok(iri) => {
                    return Ok(RdfStructAttributes { prefix_mappings: mappings, type_iri: Some(iri) });
                },
            }
        }
        Ok(RdfStructAttributes { prefix_mappings: mappings, type_iri: None })
    }
}

impl RdfEnumAttributes {
    /// Aggregates a tagged-union declaration's own annotation blocks.
    pub fn try_from_attrs(attrs: &Vec<AnnotationBlock>) -> (r: Result<
        RdfEnumAttributes,
        AttributeError,
    >)
        ensures
            (match spec_enum_attributes(attrs.deep_view()) {
                Ok(a) => r matches Ok(v) && v.deep_view() == a,
                Err(e) => r == Err::<RdfEnumAttributes, AttributeError>(e),
            }),
    {
        let entries = match parse_enum_attributes(attrs) {
            Err(e) => {
                return Err(e);
            },
            Ok(es) => es,
        };
        let ghost ev = entries.deep_view();
        let ghost pv = spec_enum_prefixes(ev);
        let mut mappings = PrefixMappings::new();
        let mut i: usize = 0;
        proof {
            assert(ev.skip(0) =~= ev);
        }
        while i < entries.len()
            invariant
                i <= entries.len(),
                entries.deep_view() == ev,
                spec_parse_enum_blocks(attrs.deep_view()) == Ok::<
                    Seq<EnumAttributeView>,
                    AttributeError,
                >(ev),
                spec_prefix_fold(spec_enum_prefixes(ev), Map::empty()) == spec_prefix_fold(
                    spec_enum_prefixes(ev.skip(i as int)),
                    mappings@,
                ),
            decreases entries.len() - i,
        {
            let ghost i0 = i as int;
            proof {
                assert(ev.skip(i0)[0] == ev[i0]);
                assert(ev[i0] == entries@[i0].deep_view());
                assert(ev.skip(i0).drop_first() =~= ev.skip(i0 + 1));
            }
            match &entries[i] {
                EnumAttribute::Prefix(p) => {
                    let ghost pav = p.deep_view();
                    proof {
                        assert(spec_enum_prefixes(ev.skip(i0)) == seq![pav] + spec_enum_prefixes(
                            ev.skip(i0 + 1),
                        ));
                        assert((seq![pav] + spec_enum_prefixes(ev.skip(i0 + 1)))[0] == pav);
                        assert((seq![pav] + spec_enum_prefixes(ev.skip(i0 + 1))).drop_first()
                            =~= spec_enum_prefixes(ev.skip(i0 + 1)));
                    }
                    let iri = match IriBuf::new(p.mapping.iri.value.clone()) {
                        Err(_) => {
                            return Err(AttributeError::InvalidIri { span: p.mapping.iri.span });
                        },
                        Ok(iri) => iri,
                    };
                    let prefix = match Prefix::new(p.mapping.prefix.value.as_str()) {
                        Err(_) => {
                            return Err(
                                AttributeError::InvalidPrefix { span: p.mapping.prefix.span },
                            );
                        },
                        Ok(pf) => pf,
                    };
                    let _prev = mappings.insert_prefix_mapping(prefix, iri);
                },
            }
            i = i + 1;
        }
        proof {
            assert(ev.skip(i as int) =~= Seq::<EnumAttributeView>::empty());
            assert(spec_prefix_fold(spec_enum_prefixes(ev), Map::empty()) == Ok::<
                Map<Seq<char>, Seq<char>>,
                AttributeError,
            >(mappings@));
        }
        Ok(RdfEnumAttributes { prefix_mappings: mappings })
    }
}

} // verus!
