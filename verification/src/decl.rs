//! The declaration model handed over by the host front end.
//!
//! The host language attaches annotation blocks to a declaration, to its
//! fields and to its cases.  Each block arrives here as plain text together
//! with an opaque tag chosen by the host; every error the crate raises points
//! back into a block through a [`Span`].

use vstd::prelude::*;

verus! {

/// A source location: the host's tag for an annotation block together with a
/// character range inside that block's text.  For locations that do not lie
/// inside an annotation block (a case without fields, a union keyword) the
/// host picks the tag and the range is empty.
#[derive(Clone, Copy, Debug, PartialEq, Eq, Structural)]
pub struct Span {
    pub tag: u64,
    pub start: usize,
    pub end: usize,
}

/// One annotation block: the text between the host language's annotation
/// delimiters, and the host's tag for the block.
#[derive(Debug)]
pub struct AnnotationBlock {
    pub text: String,
    pub tag: u64,
}

pub struct AnnotationBlockView {
    pub text: Seq<char>,
    pub tag: u64,
}

impl DeepView for AnnotationBlock {
    type V = AnnotationBlockView;

    open spec fn deep_view(&self) -> AnnotationBlockView {
        AnnotationBlockView { text: self.text@, tag: self.tag }
    }
}

/// A declared field: its annotation blocks, the textual rendering of its
/// payload type, and its own location.
#[derive(Debug)]
pub struct FieldDecl {
    pub attrs: Vec<AnnotationBlock>,
    pub ty: String,
    pub span: Span,
}

pub struct FieldDeclView {
    pub attrs: Seq<AnnotationBlockView>,
    pub ty: Seq<char>,
    pub span: Span,
}

impl DeepView for FieldDecl {
    type V = FieldDeclView;

    open spec fn deep_view(&self) -> FieldDeclView {
        FieldDeclView { attrs: self.attrs.deep_view(), ty: self.ty@, span: self.span }
    }
}

/// A declared case of a tagged union: the annotation blocks attached to the
/// case itself (the outer site), its payload fields (each carrying the inner
/// site's blocks), and the case's own location.
#[derive(Debug)]
pub struct VariantDecl {
    pub attrs: Vec<AnnotationBlock>,
    pub fields: Vec<FieldDecl>,
    pub span: Span,
}

pub struct VariantDeclView {
    pub attrs: Seq<AnnotationBlockView>,
    pub fields: Seq<FieldDeclView>,
    pub span: Span,
}

impl DeepView for VariantDecl {
    type V = VariantDeclView;

    open spec fn deep_view(&self) -> VariantDeclView {
        VariantDeclView {
            attrs: self.attrs.deep_view(),
            fields: self.fields.deep_view(),
            span: self.span,
        }
    }
}

/// The shape of a declaration: a record with ordered fields, a tagged union
/// with ordered cases, or an untagged union (recognized but unsupported; the
/// span is the union keyword's location).
#[derive(Debug)]
pub enum DeclData {
    Struct(Vec<FieldDecl>),
    Enum(Vec<VariantDecl>),
    Union(Span),
}

pub enum DeclDataView {
    Struct(Seq<FieldDeclView>),
    Enum(Seq<VariantDeclView>),
    Union(Span),
}

impl DeepView for DeclData {
    type V = DeclDataView;

    open spec fn deep_view(&self) -> DeclDataView {
        match self {
            DeclData::Struct(fields) => DeclDataView::Struct(fields.deep_view()),
            DeclData::Enum(variants) => DeclDataView::Enum(variants.deep_view()),
            DeclData::Union(span) => DeclDataView::Union(*span),
        }
    }
}

/// One whole type declaration as the host front end hands it over: its own
/// annotation blocks, its name, and its shape.
#[derive(Debug)]
pub struct Declaration {
    pub attrs: Vec<AnnotationBlock>,
    pub ident: String,
    pub data: DeclData,
}

pub struct DeclarationView {
    pub attrs: Seq<AnnotationBlockView>,
    pub ident: Seq<char>,
    pub data: DeclDataView,
}

impl DeepView for Declaration {
    type V = DeclarationView;

    open spec fn deep_view(&self) -> DeclarationView {
        DeclarationView {
            attrs: self.attrs.deep_view(),
            ident: self.ident@,
            data: self.data.deep_view(),
        }
    }
}

} // verus!
