use ld_metadata::attributes::ast::{LitStr, PrefixAttribute, PrefixMapping};
use ld_metadata::attributes::declaration::{
    prefix_mappings_from_attrs, RdfEnumAttributes, RdfStructAttributes,
};
use ld_metadata::attributes::field::FieldAttributes;
use ld_metadata::attributes::variant::{PredicatePath, VariantAttributes};
use ld_metadata::attributes::AttributeError;
use ld_metadata::decl::{AnnotationBlock, Span};
use ld_metadata::iri::IriBuf;
use ld_metadata::prefix_mappings::{Prefix, PrefixMappings};
use std::str::FromStr;

const TEST_IRI: &str = "http://example.org/test";
const TEST_PREFIX: &str = "ex";
const TEST_PREFIX_IRI: &str = "http://example.org/";

fn block(text: &str, tag: u64) -> AnnotationBlock {
    AnnotationBlock { text: text.to_string(), tag }
}

fn lit(s: &str) -> LitStr {
    LitStr { value: s.to_string(), span: Span { tag: 0, start: 0, end: 0 } }
}

fn prefix_attr(prefix: &str, iri: &str) -> PrefixAttribute {
    PrefixAttribute { mapping: PrefixMapping { prefix: lit(prefix), iri: lit(iri) } }
}

#[test]
fn test_prefix_mappings_from_vec_prefix_attribute() {
    let prefix_attr1 = prefix_attr(TEST_PREFIX, TEST_PREFIX_IRI);
    let prefix_attr2 = prefix_attr("foo", "http://foo.org/");

    let prefix_mappings = prefix_mappings_from_attrs(&vec![prefix_attr1, prefix_attr2]).unwrap();

    let prefix1 = Prefix::from_str(TEST_PREFIX).unwrap();
    let prefix2 = Prefix::from_str("foo").unwrap();
    assert!(prefix_mappings.get(prefix1).is_some());
    assert_eq!(
        prefix_mappings.get(prefix2).unwrap().as_str(),
        "http://foo.org/"
    );
}

#[test]
fn test_struct_attributes_from_attributes() {
    let attrs = vec![
        block("prefix(\"ex\" = \"http://example.org/\")", 0),
        block("type = \"http://example.org/test\"", 1),
    ];

    let struct_attrs = RdfStructAttributes::try_from_attrs(&attrs).unwrap();

    assert!(struct_attrs.type_iri.is_some());
    assert_eq!(struct_attrs.type_iri.unwrap().as_str(), TEST_IRI);
}

#[test]
fn test_struct_attributes_with_prefixed_type() {
    let attrs = vec![
        block("prefix(\"ex\" = \"http://example.org/\")", 0),
        block("type = \"ex:resource\"", 1),
    ];

    let struct_attrs = RdfStructAttributes::try_from_attrs(&attrs).unwrap();

    assert!(struct_attrs.type_iri.is_some());
    assert_eq!(
        struct_attrs.type_iri.unwrap().as_str(),
        &format!("{}resource", TEST_PREFIX_IRI)
    );
}

#[test]
fn test_struct_attributes_multiple_types_error() {
    let attrs = vec![
        block("type = \"http://example.org/test\"", 0),
        block("type = \"http://another.org/type\"", 1),
    ];

    let result = RdfStructAttributes::try_from_attrs(&attrs);
    assert!(result.is_err());
    match result.unwrap_err() {
        AttributeError::MultipleTypes { span } => {
            assert_eq!(span.tag, 1);
        }
        other => panic!("Expected MultipleTypes error, got {:?}", other),
    }
}

#[test]
fn test_enum_attributes_from_attributes() {
    let attrs = vec![block("prefix(\"ex\" = \"http://example.org/\")", 0)];

    let enum_attrs = RdfEnumAttributes::try_from_attrs(&attrs).unwrap();

    let prefix = Prefix::from_str(TEST_PREFIX).unwrap();
    let mappings = &enum_attrs.prefix_mappings;
    assert!(mappings.get(prefix).is_some());
}

#[test]
fn test_invalid_iri_in_prefix_attribute() {
    let attr = prefix_attr(TEST_PREFIX, "not a valid iri with spaces");

    let result = prefix_mappings_from_attrs(&vec![attr]);
    assert!(result.is_err());
    match result.unwrap_err() {
        AttributeError::InvalidIri { .. } => {}
        other => panic!("Expected InvalidIri error, got {:?}", other),
    }
}

#[test]
fn test_invalid_prefix_in_prefix_attribute() {
    let attr = prefix_attr("invalid:prefix", TEST_PREFIX_IRI);

    let result = prefix_mappings_from_attrs(&vec![attr]);
    assert!(result.is_err());
    match result.unwrap_err() {
        AttributeError::InvalidPrefix { .. } => {}
        other => panic!("Expected InvalidPrefix error, got {:?}", other),
    }
}

#[test]
fn test_empty_struct_attributes() {
    let struct_attrs = RdfStructAttributes::try_from_attrs(&vec![]).unwrap();

    assert!(struct_attrs.type_iri.is_none());
    let prefix = Prefix::from_str("nonexistent").unwrap();
    assert!(struct_attrs.prefix_mappings.get(prefix).is_none());
}

#[test]
fn test_field_multiple_iris_error() {
    let mappings = PrefixMappings::new();
    let attrs = vec![
        block("\"http://example.org/a\"", 0),
        block("\"http://example.org/b\"", 1),
    ];
    let result = FieldAttributes::try_from_attrs(&attrs, &mappings);
    match result.unwrap_err() {
        AttributeError::MultipleIris { span } => {
            assert_eq!(span.tag, 1);
        }
        other => panic!("Expected MultipleIris error, got {:?}", other),
    }
}

#[test]
fn test_field_flags_and_predicate_are_independent() {
    let mappings = PrefixMappings::new();
    let attrs = vec![
        block("ignore", 0),
        block("\"http://example.org/a\"", 1),
        block("flatten, id, graph", 2),
    ];
    let field = FieldAttributes::try_from_attrs(&attrs, &mappings).unwrap();
    assert!(field.ignore);
    assert!(field.flatten);
    assert!(field.is_id);
    assert!(field.is_graph);
    assert_eq!(field.predicate.unwrap().as_str(), "http://example.org/a");
}

#[test]
fn test_field_repeated_flags_are_idempotent() {
    let mappings = PrefixMappings::new();
    let attrs = vec![block("ignore", 0), block("ignore", 1)];
    let field = FieldAttributes::try_from_attrs(&attrs, &mappings).unwrap();
    assert!(field.ignore);
    assert!(!field.flatten);
    assert!(field.predicate.is_none());
}

#[test]
fn test_variant_multiple_iris_error() {
    let mappings = PrefixMappings::new();
    let inner = vec![
        block("\"http://example.org/a\"", 0),
        block("\"http://example.org/b\"", 1),
    ];
    let outer = vec![];
    let result = VariantAttributes::try_from_attrs(&inner, &outer, &mappings, Span { tag: 9, start: 0, end: 0 });
    match result.unwrap_err() {
        AttributeError::MultipleIris { span } => {
            assert_eq!(span.tag, 1);
        }
        other => panic!("Expected MultipleIris error, got {:?}", other),
    }
}

#[test]
fn test_variant_predicate_resolves_against_registry() {
    let attrs = vec![prefix_attr(TEST_PREFIX, TEST_PREFIX_IRI)];
    let mappings = prefix_mappings_from_attrs(&attrs).unwrap();
    let inner = vec![block("\"ex:knows\"", 0)];
    let outer = vec![];
    let variant = VariantAttributes::try_from_attrs(&inner, &outer, &mappings, Span { tag: 9, start: 0, end: 0 }).unwrap();
    match variant.predicate_path {
        PredicatePath::Predicate(iri) => {
            assert_eq!(iri.as_str(), "http://example.org/knows");
        }
        other => panic!("Expected a direct predicate, got {:?}", other),
    }
}

#[test]
fn test_insert_prefix_mapping_returns_previous_binding() {
    let mut mappings = PrefixMappings::new();
    let prev = mappings.insert_prefix_mapping(
        Prefix::new("ex").unwrap(),
        IriBuf::new("http://one.example/".to_string()).unwrap(),
    );
    assert!(prev.is_none());
    let prev = mappings.insert_prefix_mapping(
        Prefix::new("ex").unwrap(),
        IriBuf::new("http://two.example/".to_string()).unwrap(),
    );
    assert_eq!(prev.unwrap().as_str(), "http://one.example/");
    let prefix = Prefix::new("ex").unwrap();
    assert_eq!(mappings.get(prefix).unwrap().as_str(), "http://two.example/");
}

#[test]
fn test_merge_prefers_the_merged_registry() {
    let mut mappings = prefix_mappings_from_attrs(&vec![
        prefix_attr("ex", "http://one.example/"),
        prefix_attr("keep", "http://keep.example/"),
    ])
    .unwrap();
    let other = prefix_mappings_from_attrs(&vec![prefix_attr("ex", "http://two.example/")])
        .unwrap();
    mappings.merge(other);
    assert_eq!(
        mappings.get(Prefix::new("ex").unwrap()).unwrap().as_str(),
        "http://two.example/"
    );
    assert_eq!(
        mappings.get(Prefix::new("keep").unwrap()).unwrap().as_str(),
        "http://keep.example/"
    );
}

#[test]
fn test_later_binding_of_same_prefix_wins() {
    let mappings = prefix_mappings_from_attrs(&vec![
        prefix_attr("ex", "http://one.example/"),
        prefix_attr("ex", "http://two.example/"),
    ])
    .unwrap();
    let prefix = Prefix::new("ex").unwrap();
    assert_eq!(mappings.get(prefix).unwrap().as_str(), "http://two.example/");
}
