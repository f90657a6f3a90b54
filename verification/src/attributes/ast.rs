//! Abstract syntax of parsed annotation entries, one closed shape set per
//! annotation context (record declaration, tagged-union declaration, case,
//! field).

use vstd::prelude::*;

verus! {

use crate::decl::Span;

/// A string literal together with its location.
#[derive(Debug)]
pub struct LitStr {
    pub value: String,
    pub span: Span,
}

pub struct LitStrView {
    pub value: Seq<char>,
    pub span: Span,
}

impl DeepView for LitStr {
    type V = LitStrView;

    open spec fn deep_view(&self) -> LitStrView {
        LitStrView { value: self.value@, span: self.span }
    }
}

/// A type annotation on a record declaration: `type = "..."`.
#[derive(Debug)]
pub struct TypeAttribute {
    pub identifier: LitStr,
}

pub struct TypeAttributeView {
    pub identifier: LitStrView,
}

impl DeepView for TypeAttribute {
    type V = TypeAttributeView;

    open spec fn deep_view(&self) -> TypeAttributeView {
        TypeAttributeView { identifier: self.identifier.deep_view() }
    }
}

/// A prefix binding: `"prefix" = "namespace"`.
#[derive(Debug)]
pub struct PrefixMapping {
    pub prefix: LitStr,
    pub iri: LitStr,
}

pub struct PrefixMappingView {
    pub prefix: LitStrView,
    pub iri: LitStrView,
}

impl DeepView for PrefixMapping {
    type V = PrefixMappingView;

    open spec fn deep_view(&self) -> PrefixMappingView {
        PrefixMappingView { prefix: self.prefix.deep_view(), iri: self.iri.deep_view() }
    }
}

/// A prefix annotation: `prefix("prefix" = "namespace")`.
#[derive(Debug)]
pub struct PrefixAttribute {
    pub mapping: PrefixMapping,
}

pub struct PrefixAttributeView {
    pub mapping: PrefixMappingView,
}

impl DeepView for PrefixAttribute {
    type V = PrefixAttributeView;

    open spec fn deep_view(&self) -> PrefixAttributeView {
        PrefixAttributeView { mapping: self.mapping.deep_view() }
    }
}

/// An annotation entry on a record declaration.
#[derive(Debug)]
pub enum StructAttribute {
    Type(TypeAttribute),
    Prefix(PrefixAttribute),
}

pub enum StructAttributeView {
    Type(TypeAttributeView),
    Prefix(PrefixAttributeView),
}

impl DeepView for StructAttribute {
    type V = StructAttributeView;

    open spec fn deep_view(&self) -> StructAttributeView {
        match self {
            StructAttribute::Type(t) => StructAttributeView::Type(t.deep_view()),
            StructAttribute::Prefix(p) => StructAttributeView::Prefix(p.deep_view()),
        }
    }
}

/// An annotation entry on a tagged-union declaration; a `type = "..."` entry
/// is a grammar-level hard error here.
#[derive(Debug)]
pub enum EnumAttribute {
    Prefix(PrefixAttribute),
}

pub enum EnumAttributeView {
    Prefix(PrefixAttributeView),
}

impl DeepView for EnumAttribute {
    type V = EnumAttributeView;

    open spec fn deep_view(&self) -> EnumAttributeView {
        match self {
            EnumAttribute::Prefix(p) => EnumAttributeView::Prefix(p.deep_view()),
        }
    }
}

/// An annotation entry on a tagged-union case: a bare identifier literal.
#[derive(Debug)]
pub enum VariantAttribute {
    Iri(LitStr),
}

pub enum VariantAttributeView {
    Iri(LitStrView),
}

impl DeepView for VariantAttribute {
    type V = VariantAttributeView;

    open spec fn deep_view(&self) -> VariantAttributeView {
        match self {
            VariantAttribute::Iri(l) => VariantAttributeView::Iri(l.deep_view()),
        }
    }
}

/// An annotation entry on a record field.
#[derive(Debug)]
pub enum FieldAttribute {
    /// The field takes no part in the graph mapping.
    Ignore,
    /// The predicate identifier for the field.
    Iri(LitStr),
    /// The field's contents are flattened into the enclosing node.
    Flatten,
    /// The field holds the node's identifier.
    Id,
    /// The field holds a graph value.
    Graph,
}

pub enum FieldAttributeView {
    Ignore,
    Iri(LitStrView),
    Flatten,
    Id,
    Graph,
}

impl DeepView for FieldAttribute {
    type V = FieldAttributeView;

    open spec fn deep_view(&self) -> FieldAttributeView {
        match self {
            FieldAttribute::Ignore => FieldAttributeView::Ignore,
            FieldAttribute::Iri(l) => FieldAttributeView::Iri(l.deep_view()),
            FieldAttribute::Flatten => FieldAttributeView::Flatten,
            FieldAttribute::Id => FieldAttributeView::Id,
            FieldAttribute::Graph => FieldAttributeView::Graph,
        }
    }
}

} // verus!
