use ld_metadata::attributes::ast::{
    EnumAttribute, FieldAttribute, PrefixMapping, StructAttribute, TypeAttribute, VariantAttribute,
};
use ld_metadata::attributes::parse::{
    lex, parse_enum_attributes, parse_field_attributes, parse_struct_attributes,
    parse_variant_attributes,
};
use ld_metadata::attributes::AttributeError;
use ld_metadata::decl::{AnnotationBlock, Span};

const IRI: &str = "http://foo/";
const PREFIX: &str = "foo";

fn block(text: &str, tag: u64) -> AnnotationBlock {
    AnnotationBlock { text: text.to_string(), tag }
}

fn sp() -> Span {
    Span { tag: 0, start: 0, end: 0 }
}

#[test]
fn test_struct_attribute_parse() {
    let attrs = parse_struct_attributes(&vec![block("type = \"http://foo/\"", 0)]).unwrap();
    assert_eq!(attrs.len(), 1);
    match &attrs[0] {
        StructAttribute::Type(t) => {
            assert_eq!(t.identifier.value, IRI);
        }
        _ => panic!(),
    }
}

#[test]
fn test_struct_prefix_attribute_parse() {
    let attrs =
        parse_struct_attributes(&vec![block("prefix(\"foo\" = \"http://foo/\")", 0)]).unwrap();
    match &attrs[0] {
        StructAttribute::Prefix(prefix_attr) => {
            assert_eq!(prefix_attr.mapping.prefix.value, PREFIX);
            assert_eq!(prefix_attr.mapping.iri.value, IRI);
        }
        _ => panic!(),
    }
}

#[test]
fn test_enum_prefix_attribute_parse() {
    let attrs =
        parse_enum_attributes(&vec![block("prefix(\"foo\" = \"http://foo/\")", 0)]).unwrap();
    match &attrs[0] {
        EnumAttribute::Prefix(prefix_attr) => {
            assert_eq!(prefix_attr.mapping.prefix.value, PREFIX);
            assert_eq!(prefix_attr.mapping.iri.value, IRI);
        }
    }
}

#[test]
fn test_variant_attribute_parse() {
    let attrs = parse_variant_attributes(&vec![block("\"http://foo/\"", 0)]).unwrap();
    match &attrs[0] {
        VariantAttribute::Iri(iri) => {
            assert_eq!(iri.value, IRI);
        }
    }
}

#[test]
fn test_type_attribute_parse() {
    let toks = lex(&block("type = \"http://foo/\"", 0)).unwrap();
    let (type_attr, next) = TypeAttribute::parse(&toks, 0, sp()).unwrap();
    assert_eq!(type_attr.identifier.value, IRI);
    assert_eq!(next, 3);
}

#[test]
fn test_prefix_mapping_parse() {
    let toks = lex(&block("\"foo\" = \"http://foo/\"", 0)).unwrap();
    let (mapping, _) = PrefixMapping::parse(&toks, 0, sp()).unwrap();
    assert_eq!(mapping.prefix.value, PREFIX);
    assert_eq!(mapping.iri.value, IRI);
}

#[test]
fn test_error_on_invalid_attribute() {
    let result = parse_struct_attributes(&vec![block("unknown = \"value\"", 0)]);
    assert!(result.is_err());

    let result = parse_enum_attributes(&vec![block("typ = \"not allowed\"", 0)]);
    assert!(result.is_err());
}

#[test]
fn test_field_ignore_parse() {
    let attrs = parse_field_attributes(&vec![block("ignore", 0)]).unwrap();
    match attrs[0] {
        FieldAttribute::Ignore => {}
        _ => panic!("Expected Ignore variant"),
    }
}

#[test]
fn test_field_iri_parse() {
    let attrs = parse_field_attributes(&vec![block("\"http://foo/\"", 0)]).unwrap();
    match &attrs[0] {
        FieldAttribute::Iri(iri) => assert_eq!(iri.value, IRI),
        _ => panic!("Expected Iri variant"),
    }
}

#[test]
fn test_field_flatten_parse() {
    let attrs = parse_field_attributes(&vec![block("flatten", 0)]).unwrap();
    match attrs[0] {
        FieldAttribute::Flatten => {}
        _ => panic!("Expected Flatten variant"),
    }
}

#[test]
fn test_field_id_and_graph_parse() {
    let id_attrs = parse_field_attributes(&vec![block("id", 0)]).unwrap();
    let graph_attrs = parse_field_attributes(&vec![block("graph", 0)]).unwrap();

    match id_attrs[0] {
        FieldAttribute::Id => {}
        _ => panic!("Expected Id variant"),
    }

    match graph_attrs[0] {
        FieldAttribute::Graph => {}
        _ => panic!("Expected Graph variant"),
    }
}

#[test]
fn test_empty_block_has_no_entries() {
    let attrs = parse_struct_attributes(&vec![block("", 0)]).unwrap();
    assert_eq!(attrs.len(), 0);
    let attrs = parse_field_attributes(&vec![block("   \t ", 0)]).unwrap();
    assert_eq!(attrs.len(), 0);
}

#[test]
fn test_two_entries_in_one_block() {
    let attrs = parse_field_attributes(&vec![block("ignore, flatten", 0)]).unwrap();
    assert_eq!(attrs.len(), 2);
    assert!(matches!(attrs[0], FieldAttribute::Ignore));
    assert!(matches!(attrs[1], FieldAttribute::Flatten));
}

#[test]
fn test_unterminated_literal_is_malformed() {
    let result = parse_field_attributes(&vec![block("\"http://foo/", 7)]);
    match result.unwrap_err() {
        AttributeError::MalformedAttribute { span } => {
            assert_eq!(span.tag, 7);
            assert_eq!(span.start, 0);
        }
        other => panic!("Expected MalformedAttribute error, got {:?}", other),
    }
}

#[test]
fn test_unexpected_character_is_malformed() {
    let result = parse_struct_attributes(&vec![block("%", 0)]);
    assert!(matches!(
        result.unwrap_err(),
        AttributeError::MalformedAttribute { .. }
    ));
}

#[test]
fn test_type_without_eq_is_malformed() {
    let result = parse_struct_attributes(&vec![block("type \"http://foo/\"", 0)]);
    assert!(matches!(
        result.unwrap_err(),
        AttributeError::MalformedAttribute { .. }
    ));
}

#[test]
fn test_prefix_without_binding_is_malformed() {
    let result = parse_struct_attributes(&vec![block("prefix", 0)]);
    assert!(matches!(
        result.unwrap_err(),
        AttributeError::MalformedAttribute { .. }
    ));
}
