//! The metadata tree and its builder.
//!
//! [`RdfType::try_from_derive`] walks one declaration: it aggregates the
//! declaration's own annotations, then every field's (for a record) or every
//! case's (for a tagged union) in declared order, failing fast on the first
//! error.  The resulting tree is immutable and a pure function of the
//! declaration.

use vstd::prelude::*;

verus! {

use crate::attributes::declaration::{
    spec_enum_attributes, spec_struct_attributes, RdfEnumAttributes, RdfEnumAttributesView,
    RdfStructAttributes, RdfStructAttributesView,
};
use crate::attributes::field::{spec_field_attributes, FieldAttributes, FieldAttributesView};
use crate::attributes::variant::{
    spec_variant_attributes, PredicatePath, VariantAttributes, VariantAttributesView,
};
use crate::decl::{DeclData, DeclDataView, Declaration, DeclarationView, FieldDecl, FieldDeclView,
    VariantDecl, VariantDeclView};
use crate::iri::IriBuf;
use crate::Error;

/// The root of the metadata tree: a record or a tagged union.
#[derive(Debug, PartialEq, Eq)]
pub enum RdfType {
    Enum(RdfEnum),
    Struct(RdfStruct),
}

/// A tagged-union node: its declaration-level attributes, its name, and its
/// cases in declared order.
#[derive(Debug, PartialEq, Eq)]
pub struct RdfEnum {
    attributes: RdfEnumAttributes,
    pub ident: String,
    pub variants: Vec<RdfVariant>,
}

/// One case node: its resolved attributes and the textual rendering of its
/// payload type.
#[derive(Debug, PartialEq, Eq)]
pub struct RdfVariant {
    attributes: VariantAttributes,
    pub ty: String,
}

/// A record node: its declaration-level attributes, its name, and its fields
/// in declared order.
#[derive(Debug, PartialEq, Eq)]
pub struct RdfStruct {
    attributes: RdfStructAttributes,
    pub ident: String,
    pub fields: Vec<RdfField>,
}

/// One field node: its resolved attributes and the textual rendering of its
/// type.
#[derive(Debug, PartialEq, Eq)]
pub struct RdfField {
    attributes: FieldAttributes,
    pub ty: String,
}

pub enum RdfTypeView {
    Enum(RdfEnumView),
    Struct(RdfStructView),
}

pub struct RdfEnumView {
    pub attributes: RdfEnumAttributesView,
    pub ident: Seq<char>,
    pub variants: Seq<RdfVariantView>,
}

pub struct RdfVariantView {
    pub attributes: VariantAttributesView,
    pub ty: Seq<char>,
}

pub struct RdfStructView {
    pub attributes: RdfStructAttributesView,
    pub ident: Seq<char>,
    pub fields: Seq<RdfFieldView>,
}

pub struct RdfFieldView {
    pub attributes: FieldAttributesView,
    pub ty: Seq<char>,
}

impl DeepView for RdfVariant {
    type V = RdfVariantView;

    closed spec fn deep_view(&self) -> RdfVariantView {
        RdfVariantView { attributes: self.attributes.deep_view(), ty: self.ty@ }
    }
}

impl DeepView for RdfField {
    type V = RdfFieldView;

    closed spec fn deep_view(&self) -> RdfFieldView {
        RdfFieldView { attributes: self.attributes.deep_view(), ty: self.ty@ }
    }
}

impl DeepView for RdfEnum {
    type V = RdfEnumView;

    closed spec fn deep_view(&self) -> RdfEnumView {
        RdfEnumView {
            attributes: self.attributes.deep_view(),
            ident: self.ident@,
            variants: self.variants.deep_view(),
        }
    }
}

impl DeepView for RdfStruct {
    type V = RdfStructView;

    closed spec fn deep_view(&self) -> RdfStructView {
        RdfStructView {
            attributes: self.attributes.deep_view(),
            ident: self.ident@,
            fields: self.fields.deep_view(),
        }
    }
}

impl DeepView for RdfType {
    type V = RdfTypeView;

    open spec fn deep_view(&self) -> RdfTypeView {
        match self {
            RdfType::Enum(e) => RdfTypeView::Enum(e.deep_view()),
            RdfType::Struct(s) => RdfTypeView::Struct(s.deep_view()),
        }
    }
}

/// Prepends already-built nodes to a build result.
pub open spec fn build_continue<T>(acc: Seq<T>, rest: Result<Seq<T>, Error>) -> Result<
    Seq<T>,
    Error,
> {
    match rest {
        Ok(ts) => Ok(acc + ts),
        Err(e) => Err(e),
    }
}

proof fn lemma_build_continue_app<T>(acc: Seq<T>, more: Seq<T>, rest: Result<Seq<T>, Error>)
    ensures
        build_continue(acc, build_continue(more, rest)) == build_continue(acc + more, rest),
{
    match rest {
        Ok(ts) => {
            assert(acc + (more + ts) =~= (acc + more) + ts);
        },
        Err(_) => {},
    }
}

/// One field node: the field's annotations aggregated against the enclosing
/// record's registry `m`.
pub open spec fn spec_build_field(f: FieldDeclView, m: Map<Seq<char>, Seq<char>>) -> Result<
    RdfFieldView,
    Error,
> {
    match spec_field_attributes(f.attrs, m) {
        Err(e) => Err(Error::InvalidAttribute { source: e }),
        Ok(a) => Ok(RdfFieldView { attributes: a, ty: f.ty }),
    }
}

/// Every field node in declared order; the first failing field aborts the
/// build.
pub open spec fn spec_build_fields(fs: Seq<FieldDeclView>, m: Map<Seq<char>, Seq<char>>) -> Result<
    Seq<RdfFieldView>,
    Error,
>
    decreases fs.len(),
{
    if fs.len() == 0 {
        Ok(Seq::empty())
    } else {
        match spec_build_field(fs[0], m) {
            Err(e) => Err(e),
            Ok(f) => build_continue(seq![f], spec_build_fields(fs.drop_first(), m)),
        }
    }
}

/// One case node: the structural preconditions (exactly one payload field),
/// then predicate-path resolution from the two annotation sites.
pub open spec fn spec_build_variant(v: VariantDeclView, m: Map<Seq<char>, Seq<char>>) -> Result<
    RdfVariantView,
    Error,
> {
    if v.fields.len() == 0 {
        Err(Error::UnitVariant { span: v.span })
    } else if v.fields.len() > 1 {
        Err(Error::StructVariant { span: v.fields[1].span })
    } else {
        match spec_variant_attributes(v.fields[0].attrs, v.attrs, m, v.span) {
            Err(e) => Err(Error::InvalidAttribute { source: e }),
            Ok(a) => Ok(RdfVariantView { attributes: a, ty: v.fields[0].ty }),
        }
    }
}

/// Every case node in declared order; the first failing case aborts the
/// build.
pub open spec fn spec_build_variants(
    vs: Seq<VariantDeclView>,
    m: Map<Seq<char>, Seq<char>>,
) -> Result<Seq<RdfVariantView>, Error>
    decreases vs.len(),
{
    if vs.len() == 0 {
        Ok(Seq::empty())
    } else {
        match spec_build_variant(vs[0], m) {
            Err(e) => Err(e),
            Ok(v) => build_continue(seq![v], spec_build_variants(vs.drop_first(), m)),
        }
    }
}

/// The whole build of one declaration: dispatch on its shape, aggregate the
/// declaration-level attributes, then every field or case in declared order.
/// An untagged union is recognized but unsupported.
pub open spec fn spec_build(d: DeclarationView) -> Result<RdfTypeView, Error> {
    match d.data {
        DeclDataView::Struct(fields) => match spec_struct_attributes(d.attrs) {
            Err(e) => Err(Error::InvalidAttribute { source: e }),
            Ok(a) => match spec_build_fields(fields, a.prefix_mappings) {
                Err(e) => Err(e),
                Ok(fs) => Ok(
                    RdfTypeView::Struct(
                        RdfStructView { attributes: a, ident: d.ident, fields: fs },
                    ),
                ),
            },
        },
        DeclDataView::Enum(variants) => match spec_enum_attributes(d.attrs) {
            Err(e) => Err(Error::InvalidAttribute { source: e }),
            Ok(a) => match spec_build_variants(variants, a.prefix_mappings) {
                Err(e) => Err(e),
                Ok(vs) => Ok(
                    RdfTypeView::Enum(RdfEnumView { attributes: a, ident: d.ident, variants: vs }),
                ),
            },
        },
        DeclDataView::Union(span) => Err(Error::UnionType { span }),
    }
}

impl RdfField {
    fn try_from_field(field: &FieldDecl, prefix_mappings: &crate::prefix_mappings::PrefixMappings)
        -> (r: Result<RdfField, Error>)
        ensures
            (match spec_build_field(field.deep_view(), prefix_mappings@) {
                Ok(f) => r matches Ok(v) && v.deep_view() == f,
                Err(e) => r == Err::<RdfField, Error>(e),
            }),
    {
        match FieldAttributes::try_from_attrs(&field.attrs, prefix_mappings) {
            Err(e) => Err(Error::InvalidAttribute { source: e }),
            Ok(a) => Ok(RdfField { attributes: a, ty: field.ty.clone() }),
        }
    }

    pub fn is_flattened(&self) -> (r: bool)
        ensures
            r == self.deep_view().attributes.flatten,
    {
        self.attributes.flatten
    }

    pub fn is_graph(&self) -> (r: bool)
        ensures
            r == self.deep_view().attributes.is_graph,
    {
        self.attributes.is_graph
    }

    pub fn is_ignored(&self) -> (r: bool)
        ensures
            r == self.deep_view().attributes.ignore,
    {
        self.attributes.ignore
    }

    pub fn predicate(&self) -> (r: Option<&IriBuf>)
        ensures
            (match r {
                Some(i) => self.deep_view().attributes.predicate == Some(i@),
                None => self.deep_view().attributes.predicate is None,
            }),
    {
        self.attributes.predicate.as_ref()
    }

    pub fn is_id(&self) -> (r: bool)
        ensures
            r == self.deep_view().attributes.is_id,
    {
        self.attributes.is_id
    }
}

impl RdfVariant {
    fn from_variant(
        variant: &VariantDecl,
        prefix_mappings: &crate::prefix_mappings::PrefixMappings,
    ) -> (r: Result<RdfVariant, Error>)
        ensures
            (match spec_build_variant(variant.deep_view(), prefix_mappings@) {
                Ok(v) => r matches Ok(o) && o.deep_view() == v,
                Err(e) => r == Err::<RdfVariant, Error>(e),
            }),
    {
        if variant.fields.len() == 0 {
            return Err(Error::UnitVariant { span: variant.span });
        }
        if variant.fields.len() > 1 {
            return Err(Error::StructVariant { span: variant.fields[1].span });
        }
        match VariantAttributes::try_from_attrs(
            &variant.fields[0].attrs,
            &variant.attrs,
            prefix_mappings,
            variant.span,
        ) {
            Err(e) => Err(Error::InvalidAttribute { source: e }),
            Ok(a) => Ok(RdfVariant { attributes: a, ty: variant.fields[0].ty.clone() }),
        }
    }

    pub fn predicate_path(&self) -> (r: &PredicatePath)
        ensures
            r.deep_view() == self.deep_view().attributes.predicate_path,
    {
        &self.attributes.predicate_path
    }
}

impl RdfStruct {
    pub fn type_iri(&self) -> (r: Option<&IriBuf>)
        ensures
            (match r {
                Some(i) => self.deep_view().attributes.type_iri == Some(i@),
                None => self.deep_view().attributes.type_iri is None,
            }),
    {
        self.attributes.type_iri.as_ref()
    }
}

impl RdfType {
    /// Builds the metadata tree for one declaration: a pure, fail-fast walk
    /// whose result is pinned down by [`spec_build`].
    pub fn try_from_derive(decl: &Declaration) -> (r: Result<RdfType, Error>)
        ensures
            (match spec_build(decl.deep_view()) {
                Ok(t) => r matches Ok(v) && v.deep_view() == t,
                Err(e) => r == Err::<RdfType, Error>(e),
            }),
    {
        match &decl.data {
            DeclData::Struct(fields) => {
                let attrs = match RdfStructAttributes::try_from_attrs(&decl.attrs) {
                    Err(e) => {
                        return Err(Error::InvalidAttribute { source: e });
                    },
                    Ok(a) => a,
                };
                let ghost m = attrs.prefix_mappings@;
                let ghost fv = fields.deep_view();
                let mut out_fields: Vec<RdfField> = Vec::new();
                let mut i: usize = 0;
                proof {
                    assert(out_fields.deep_view() =~= Seq::<RdfFieldView>::empty());
                    assert(fv.skip(0) =~= fv);
                }
                while i < fields.len()
                    invariant
                        i <= fields.len(),
                        fields.deep_view() == fv,
                        attrs.prefix_mappings@ == m,
                        decl.data matches DeclData::Struct(fs2) && fs2.deep_view() == fv,
                        spec_struct_attributes(decl.attrs.deep_view()) matches Ok(a2)
                            && a2 == attrs.deep_view(),
                        spec_build_fields(fv, m) == build_continue(
                            out_fields.deep_view(),
                            spec_build_fields(fv.skip(i as int), m),
                        ),
                    decreases fields.len() - i,
                {
                    let ghost out0 = out_fields.deep_view();
                    let ghost i0 = i as int;
                    proof {
                        assert(fv.skip(i0)[0] == fv[i0]);
                        assert(fv[i0] == fields@[i0].deep_view());
                        assert(fv.skip(i0).drop_first() =~= fv.skip(i0 + 1));
                    }
                    match RdfField::try_from_field(&fields[i], &attrs.prefix_mappings) {
                        Err(e) => {
                            return Err(e);
                        },
                        Ok(f) => {
                            let ghost fdv = f.deep_view();
                            out_fields.push(f);
                            proof {
                                assert(out_fields.deep_view() =~= out0 + seq![fdv]);
                                assert(spec_build_fields(fv.skip(i0), m) == build_continue(
                                    seq![fdv],
                                    spec_build_fields(fv.skip(i0 + 1), m),
                                ));
                                lemma_build_continue_app(
                                    out0,
                                    seq![fdv],
                                    spec_build_fields(fv.skip(i0 + 1), m),
                                );
                            }
                        },
                    }
                    i = i + 1;
                }
                proof {
                    assert(fv.skip(i as int) =~= Seq::<FieldDeclView>::empty());
                    assert(out_fields.deep_view() + Seq::<RdfFieldView>::empty()
                        =~= out_fields.deep_view());
                }
                Ok(
                    RdfType::Struct(
                        RdfStruct {
                            attributes: attrs,
                            ident: decl.ident.clone(),
                            fields: out_fields,
                        },
                    ),
                )
            },
            DeclData::Enum(variants) => {
                let attrs = match RdfEnumAttributes::try_from_attrs(&decl.attrs) {
                    Err(e) => {
                        return Err(Error::InvalidAttribute { source: e });
                    },
                    Ok(a) => a,
                };
                let ghost m = attrs.prefix_mappings@;
                let ghost vv = variants.deep_view();
                let mut out_variants: Vec<RdfVariant> = Vec::new();
                let mut i: usize = 0;
                proof {
                    assert(out_variants.deep_view() =~= Seq::<RdfVariantView>::empty());
                    assert(vv.skip(0) =~= vv);
                }
                while i < variants.len()
                    invariant
                        i <= variants.len(),
                        variants.deep_view() == vv,
                        attrs.prefix_mappings@ == m,
                        decl.data matches DeclData::Enum(vs2) && vs2.deep_view() == vv,
                        spec_enum_attributes(decl.attrs.deep_view()) matches Ok(a2)
                            && a2 == attrs.deep_view(),
                        spec_build_variants(vv, m) == build_continue(
                            out_variants.deep_view(),
                            spec_build_variants(vv.skip(i as int), m),
                        ),
                    decreases variants.len() - i,
                {
                    let ghost out0 = out_variants.deep_view();
                    let ghost i0 = i as int;
                    proof {
                        assert(vv.skip(i0)[0] == vv[i0]);
                        assert(vv[i0] == variants@[i0].deep_view());
                        assert(vv.skip(i0).drop_first() =~= vv.skip(i0 + 1));
                    }
                    match RdfVariant::from_variant(&variants[i], &attrs.prefix_mappings) {
                        Err(e) => {
                            return Err(e);
                        },
                        Ok(v) => {
                            let ghost vdv = v.deep_view();
                            out_variants.push(v);
                            proof {
                                assert(out_variants.deep_view() =~= out0 + seq![vdv]);
                                assert(spec_build_variants(vv.skip(i0), m) == build_continue(
                                    seq![vdv],
                                    spec_build_variants(vv.skip(i0 + 1), m),
                                ));
                                lemma_build_continue_app(
                                    out0,
                                    seq![vdv],
                                    spec_build_variants(vv.skip(i0 + 1), m),
                                );
                            }
                        },
                    }
                    i = i + 1;
                }
                proof {
                    assert(vv.skip(i as int) =~= Seq::<VariantDeclView>::empty());
                    assert(out_variants.deep_view() + Seq::<RdfVariantView>::empty()
                        =~= out_variants.deep_view());
                }
                Ok(
                    RdfType::Enum(
                        RdfEnum {
                            attributes: attrs,
                            ident: decl.ident.clone(),
                            variants: out_variants,
                        },
                    ),
                )
            },
            DeclData::Union(span) => Err(Error::UnionType { span: *span }),
        }
    }
}

/// Building is deterministic: structurally equal declarations always build
/// structurally equal metadata trees (there is no hidden ordering or
/// identity nondeterminism).
pub proof fn lemma_build_deterministic(d1: DeclarationView, d2: DeclarationView)
    requires
        d1 == d2,
    ensures
        spec_build(d1) == spec_build(d2),
{
}

/// A successfully built record's field nodes line up one-to-one with the
/// declared fields, in declaration order.
pub proof fn lemma_build_fields_ordered(fs: Seq<FieldDeclView>, m: Map<Seq<char>, Seq<char>>)
    ensures
        spec_build_fields(fs, m) matches Ok(rs) ==> rs.len() == fs.len() && (forall|i: int|
            0 <= i < fs.len() ==> spec_build_field(fs[i], m) == Ok::<RdfFieldView, Error>(
                #[trigger] rs[i],
            )),
    decreases fs.len(),
{
    if fs.len() > 0 {
        lemma_build_fields_ordered(fs.drop_first(), m);
        match spec_build_field(fs[0], m) {
            Ok(f) => {
                match spec_build_fields(fs.drop_first(), m) {
                    Ok(rest) => {
                        assert(spec_build_fields(fs, m) == Ok::<Seq<RdfFieldView>, Error>(
                            seq![f] + rest,
                        ));
                        assert(forall|i: int|
                            1 <= i < fs.len() ==> fs.drop_first()[i - 1] == fs[i]);
                        assert(forall|i: int|
                            1 <= i < fs.len() ==> (seq![f] + rest)[i] == rest[i - 1]);
                        assert((seq![f] + rest)[0] == f);
                    },
                    Err(_) => {},
                }
            },
            Err(_) => {},
        }
    }
}

/// A successfully built tagged union's case nodes line up one-to-one with
/// the declared cases, in declaration order.
pub proof fn lemma_build_variants_ordered(vs: Seq<VariantDeclView>, m: Map<Seq<char>, Seq<char>>)
    ensures
        spec_build_variants(vs, m) matches Ok(rs) ==> rs.len() == vs.len() && (forall|i: int|
            0 <= i < vs.len() ==> spec_build_variant(vs[i], m) == Ok::<RdfVariantView, Error>(
                #[trigger] rs[i],
            )),
    decreases vs.len(),
{
    if vs.len() > 0 {
        lemma_build_variants_ordered(vs.drop_first(), m);
        match spec_build_variant(vs[0], m) {
            Ok(v) => {
                match spec_build_variants(vs.drop_first(), m) {
                    Ok(rest) => {
                        assert(spec_build_variants(vs, m) == Ok::<Seq<RdfVariantView>, Error>(
                            seq![v] + rest,
                        ));
                        assert(forall|i: int|
                            1 <= i < vs.len() ==> vs.drop_first()[i - 1] == vs[i]);
                        assert(forall|i: int|
                            1 <= i < vs.len() ==> (seq![v] + rest)[i] == rest[i - 1]);
                        assert((seq![v] + rest)[0] == v);
                    },
                    Err(_) => {},
                }
            },
            Err(_) => {},
        }
    }
}

} // verus!
