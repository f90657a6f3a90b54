use ld_metadata::attributes::ast::{LitStr, PrefixAttribute, PrefixMapping};
use ld_metadata::attributes::declaration::prefix_mappings_from_attrs;
use ld_metadata::attributes::variant::{PredicatePath, VariantAttributes};
use ld_metadata::attributes::AttributeError;
use ld_metadata::decl::{AnnotationBlock, DeclData, Declaration, FieldDecl, Span, VariantDecl};
use ld_metadata::iri::IriBuf;
use ld_metadata::prefix_mappings::{Error as PrefixError, Prefix, PrefixMappings};
use ld_metadata::rdf_metadata::RdfType;
use ld_metadata::Error;

fn block(text: &str, tag: u64) -> AnnotationBlock {
    AnnotationBlock { text: text.to_string(), tag }
}

fn sp(tag: u64) -> Span {
    Span { tag, start: 0, end: 0 }
}

fn lit(s: &str) -> LitStr {
    LitStr { value: s.to_string(), span: sp(0) }
}

fn prefix_attr(prefix: &str, iri: &str) -> PrefixAttribute {
    PrefixAttribute { mapping: PrefixMapping { prefix: lit(prefix), iri: lit(iri) } }
}

fn field(texts: &[&str], ty: &str, tag: u64) -> FieldDecl {
    let mut attrs = Vec::new();
    for (i, t) in texts.iter().enumerate() {
        attrs.push(block(t, tag * 100 + i as u64));
    }
    FieldDecl { attrs, ty: ty.to_string(), span: sp(tag) }
}

// ---------------------------------------------------------------------------
// Prefix validity
// ---------------------------------------------------------------------------

#[test]
fn test_prefix_rejects_invalid_strings() {
    assert!(matches!(Prefix::new(""), Err(PrefixError::InvalidPrefix)));
    assert!(matches!(Prefix::new("with:colon"), Err(PrefixError::InvalidPrefix)));
    assert!(matches!(Prefix::new("9abc"), Err(PrefixError::InvalidPrefix)));
    assert!(matches!(Prefix::new("-abc"), Err(PrefixError::InvalidPrefix)));
    assert!(matches!(Prefix::new("ab c"), Err(PrefixError::InvalidPrefix)));
    assert!(matches!(Prefix::new("ab/c"), Err(PrefixError::InvalidPrefix)));
}

#[test]
fn test_prefix_accepts_valid_strings_and_round_trips() {
    for s in ["ex", "Ex", "_x", "a1", "a-b.c_d", "z9.-_"] {
        let p = Prefix::new(s).unwrap();
        assert_eq!(p.as_str(), s);
        assert_eq!(p.into_inner(), s);
    }
}

// ---------------------------------------------------------------------------
// Identifier expansion
// ---------------------------------------------------------------------------

#[test]
fn test_resolve_compact_identifier() {
    let registry =
        prefix_mappings_from_attrs(&vec![prefix_attr("ex", "http://example.org/")]).unwrap();
    let iri = registry.expand("ex:Resource".to_string()).unwrap();
    assert_eq!(iri.as_str(), "http://example.org/Resource");
}

#[test]
fn test_resolve_unbound_prefix_falls_back_to_the_literal() {
    let registry = PrefixMappings::new();
    let iri = registry.expand("ex:Resource".to_string()).unwrap();
    assert_eq!(iri.as_str(), "ex:Resource");
}

#[test]
fn test_resolve_absolute_identifier_unchanged() {
    let registry =
        prefix_mappings_from_attrs(&vec![prefix_attr("ex", "http://example.org/")]).unwrap();
    let iri = registry.expand("http://x/y".to_string()).unwrap();
    assert_eq!(iri.as_str(), "http://x/y");
}

#[test]
fn test_resolve_rejects_malformed_identifier() {
    let registry =
        prefix_mappings_from_attrs(&vec![prefix_attr("ex", "http://example.org/")]).unwrap();
    let result = registry.expand("not a valid iri".to_string());
    assert!(matches!(result, Err(PrefixError::InvalidIri)));
}

#[test]
fn test_iri_buf_validates() {
    assert!(IriBuf::new("http://example.org/ok".to_string()).is_ok());
    assert!(matches!(
        IriBuf::new("no scheme here".to_string()),
        Err(PrefixError::InvalidIri)
    ));
}

// ---------------------------------------------------------------------------
// Predicate-path table
// ---------------------------------------------------------------------------

#[test]
fn test_predicate_path_table() {
    let registry = PrefixMappings::new();

    let result = VariantAttributes::try_from_attrs(&vec![], &vec![], &registry, sp(5));
    match result.unwrap_err() {
        AttributeError::MissingIri { span } => assert_eq!(span.tag, 5),
        other => panic!("Expected MissingIri error, got {:?}", other),
    }

    let outer_only = VariantAttributes::try_from_attrs(
        &vec![],
        &vec![block("\"http://e/outer\"", 0)],
        &registry,
        sp(5),
    )
    .unwrap();
    match &outer_only.predicate_path {
        PredicatePath::Predicate(p) => assert_eq!(p.as_str(), "http://e/outer"),
        other => panic!("Expected a direct predicate, got {:?}", other),
    }

    let inner_only = VariantAttributes::try_from_attrs(
        &vec![block("\"http://e/inner\"", 0)],
        &vec![],
        &registry,
        sp(5),
    )
    .unwrap();
    match &inner_only.predicate_path {
        PredicatePath::Predicate(p) => assert_eq!(p.as_str(), "http://e/inner"),
        other => panic!("Expected a direct predicate, got {:?}", other),
    }

    let both = VariantAttributes::try_from_attrs(
        &vec![block("\"http://e/inner\"", 0)],
        &vec![block("\"http://e/outer\"", 1)],
        &registry,
        sp(5),
    )
    .unwrap();
    match &both.predicate_path {
        PredicatePath::ChainedPath { to_blank, from_blank } => {
            assert_eq!(to_blank.as_str(), "http://e/inner");
            assert_eq!(from_blank.as_str(), "http://e/outer");
        }
        other => panic!("Expected a chained path, got {:?}", other),
    }
}

// ---------------------------------------------------------------------------
// Case arity
// ---------------------------------------------------------------------------

#[test]
fn test_unit_variant_is_rejected() {
    let decl = Declaration {
        attrs: vec![],
        ident: "Shape".to_string(),
        data: DeclData::Enum(vec![VariantDecl { attrs: vec![], fields: vec![], span: sp(3) }]),
    };
    match RdfType::try_from_derive(&decl).unwrap_err() {
        Error::UnitVariant { span } => assert_eq!(span.tag, 3),
        other => panic!("Expected UnitVariant error, got {:?}", other),
    }
}

#[test]
fn test_struct_variant_is_rejected() {
    let decl = Declaration {
        attrs: vec![],
        ident: "Shape".to_string(),
        data: DeclData::Enum(vec![VariantDecl {
            attrs: vec![block("\"http://e/p\"", 0)],
            fields: vec![field(&[], "A", 1), field(&[], "B", 2)],
            span: sp(3),
        }]),
    };
    match RdfType::try_from_derive(&decl).unwrap_err() {
        Error::StructVariant { span } => assert_eq!(span.tag, 2),
        other => panic!("Expected StructVariant error, got {:?}", other),
    }
}

#[test]
fn test_untagged_union_is_rejected() {
    let decl = Declaration {
        attrs: vec![],
        ident: "U".to_string(),
        data: DeclData::Union(sp(9)),
    };
    match RdfType::try_from_derive(&decl).unwrap_err() {
        Error::UnionType { span } => assert_eq!(span.tag, 9),
        other => panic!("Expected UnionType error, got {:?}", other),
    }
}

// ---------------------------------------------------------------------------
// End-to-end build, idempotence, ordering
// ---------------------------------------------------------------------------

fn person_decl() -> Declaration {
    Declaration {
        attrs: vec![
            block("prefix(\"ex\" = \"http://example.org/\")", 0),
            block("type = \"ex:Person\"", 1),
        ],
        ident: "Person".to_string(),
        data: DeclData::Struct(vec![field(&["\"ex:name\""], "String", 2)]),
    }
}

#[test]
fn test_end_to_end_record_build() {
    let tree = RdfType::try_from_derive(&person_decl()).unwrap();
    match tree {
        RdfType::Struct(s) => {
            assert_eq!(s.ident, "Person");
            assert_eq!(s.type_iri().unwrap().as_str(), "http://example.org/Person");
            assert_eq!(s.fields.len(), 1);
            let f = &s.fields[0];
            assert_eq!(f.predicate().unwrap().as_str(), "http://example.org/name");
            assert!(!f.is_ignored());
            assert!(!f.is_flattened());
            assert!(!f.is_graph());
            assert!(!f.is_id());
            assert_eq!(f.ty, "String");
        }
        other => panic!("Expected a record node, got {:?}", other),
    }
}

#[test]
fn test_building_twice_yields_equal_trees() {
    let tree1 = RdfType::try_from_derive(&person_decl()).unwrap();
    let tree2 = RdfType::try_from_derive(&person_decl()).unwrap();
    assert_eq!(tree1, tree2);
}

#[test]
fn test_field_order_matches_declaration_order() {
    let decl = Declaration {
        attrs: vec![],
        ident: "Pair".to_string(),
        data: DeclData::Struct(vec![
            field(&["\"http://e/first\""], "A", 1),
            field(&["\"http://e/second\""], "B", 2),
        ]),
    };
    let tree = RdfType::try_from_derive(&decl).unwrap();
    match tree {
        RdfType::Struct(s) => {
            assert_eq!(s.fields.len(), 2);
            assert_eq!(s.fields[0].predicate().unwrap().as_str(), "http://e/first");
            assert_eq!(s.fields[0].ty, "A");
            assert_eq!(s.fields[1].predicate().unwrap().as_str(), "http://e/second");
            assert_eq!(s.fields[1].ty, "B");
        }
        other => panic!("Expected a record node, got {:?}", other),
    }
}

#[test]
fn test_enum_build_resolves_cases_in_order() {
    let decl = Declaration {
        attrs: vec![block("prefix(\"ex\" = \"http://example.org/\")", 0)],
        ident: "Link".to_string(),
        data: DeclData::Enum(vec![
            VariantDecl {
                attrs: vec![block("\"ex:direct\"", 1)],
                fields: vec![field(&[], "A", 2)],
                span: sp(2),
            },
            VariantDecl {
                attrs: vec![block("\"ex:leave\"", 3)],
                fields: vec![field(&["\"ex:enter\""], "B", 4)],
                span: sp(4),
            },
        ]),
    };
    let tree = RdfType::try_from_derive(&decl).unwrap();
    match tree {
        RdfType::Enum(e) => {
            assert_eq!(e.ident, "Link");
            assert_eq!(e.variants.len(), 2);
            match e.variants[0].predicate_path() {
                PredicatePath::Predicate(p) => {
                    assert_eq!(p.as_str(), "http://example.org/direct")
                }
                other => panic!("Expected a direct predicate, got {:?}", other),
            }
            assert_eq!(e.variants[0].ty, "A");
            match e.variants[1].predicate_path() {
                PredicatePath::ChainedPath { to_blank, from_blank } => {
                    assert_eq!(to_blank.as_str(), "http://example.org/enter");
                    assert_eq!(from_blank.as_str(), "http://example.org/leave");
                }
                other => panic!("Expected a chained path, got {:?}", other),
            }
            assert_eq!(e.variants[1].ty, "B");
        }
        other => panic!("Expected a tagged-union node, got {:?}", other),
    }
}

#[test]
fn test_invalid_annotation_aborts_the_build() {
    let decl = Declaration {
        attrs: vec![block("type = \"not a valid iri\"", 0)],
        ident: "Broken".to_string(),
        data: DeclData::Struct(vec![]),
    };
    match RdfType::try_from_derive(&decl).unwrap_err() {
        Error::InvalidAttribute { source } => {
            assert!(matches!(source, AttributeError::InvalidIri { .. }));
        }
        other => panic!("Expected InvalidAttribute error, got {:?}", other),
    }
}
