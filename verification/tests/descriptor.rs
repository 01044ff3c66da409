use cairo_macros::json_derive::normalize_type;
use cairo_macros::parse::{parse_struct_info, Node, NodeKind};

fn n(kind: NodeKind, text: &str, size: usize) -> Node {
    Node { kind, text: text.to_string(), subtree_size: size }
}

fn three_field_decl() -> Vec<Node> {
    vec![
        n(NodeKind::DeclKeyword, "struct", 0),
        n(NodeKind::Ident, "Order", 0),
        n(NodeKind::GenericParamListEmpty, "", 0),
        n(NodeKind::Member, "id: felt252", 2),
        n(NodeKind::Ident, "id", 0),
        n(NodeKind::TypeClause, "felt252", 0),
        n(NodeKind::Member, "name: ByteArray", 2),
        n(NodeKind::Ident, "name", 0),
        n(NodeKind::TypeClause, "ByteArray", 0),
        n(NodeKind::Member, "price: u256", 2),
        n(NodeKind::Ident, "price", 0),
        n(NodeKind::TypeClause, "u256", 0),
    ]
}

#[test]
fn descriptor_preserves_field_order() {
    let s = parse_struct_info(&three_field_decl());
    assert_eq!(s.name, "Order");
    assert!(s.generic_params.is_none());
    let names: Vec<&str> = s.fields.iter().map(|f| f.name.as_str()).collect();
    assert_eq!(names, vec!["id", "name", "price"]);
    let types: Vec<&str> = s.fields.iter().map(|f| f.field_type.as_str()).collect();
    assert_eq!(types, vec!["felt252", "ByteArray", "u256"]);
}

#[test]
fn descriptor_collects_generic_params_in_order() {
    let nodes = vec![
        n(NodeKind::DeclKeyword, "struct", 0),
        n(NodeKind::Ident, "Pair", 0),
        n(NodeKind::GenericParamList, "<T, U>", 2),
        n(NodeKind::Ident, "T", 0),
        n(NodeKind::Ident, "U", 0),
        n(NodeKind::Member, "a: T", 2),
        n(NodeKind::Ident, "a", 0),
        n(NodeKind::TypeClause, "T", 0),
    ];
    let s = parse_struct_info(&nodes);
    assert_eq!(s.name, "Pair");
    assert_eq!(s.generic_params, Some(vec!["T".to_string(), "U".to_string()]));
    assert_eq!(s.fields.len(), 1);
    assert_eq!(s.fields[0].name, "a");
    assert_eq!(s.fields[0].field_type, "T");
}

#[test]
fn descriptor_generic_params_none_when_no_list_written() {
    let nodes = vec![
        n(NodeKind::DeclKeyword, "struct", 0),
        n(NodeKind::Ident, "Unit", 0),
        n(NodeKind::GenericParamListEmpty, "", 0),
    ];
    let s = parse_struct_info(&nodes);
    assert!(s.generic_params.is_none());
    assert_eq!(s.fields.len(), 0);
}

#[test]
fn descriptor_drops_unnamed_member_silently() {
    let nodes = vec![
        n(NodeKind::DeclKeyword, "struct", 0),
        n(NodeKind::Ident, "Partial", 0),
        n(NodeKind::GenericParamListEmpty, "", 0),
        n(NodeKind::Member, "", 0),
        n(NodeKind::Member, "ok: u64", 2),
        n(NodeKind::Ident, "ok", 0),
        n(NodeKind::TypeClause, "u64", 0),
    ];
    let s = parse_struct_info(&nodes);
    assert_eq!(s.fields.len(), 1);
    assert_eq!(s.fields[0].name, "ok");
}

#[test]
fn descriptor_defaults_missing_type_clause() {
    let nodes = vec![
        n(NodeKind::DeclKeyword, "struct", 0),
        n(NodeKind::Ident, "Loose", 0),
        n(NodeKind::GenericParamListEmpty, "", 0),
        n(NodeKind::Member, "tag", 1),
        n(NodeKind::Ident, "tag", 0),
    ];
    let s = parse_struct_info(&nodes);
    assert_eq!(s.fields.len(), 1);
    assert_eq!(s.fields[0].field_type, "ByteArray");
}

#[test]
fn normalize_is_deterministic() {
    assert_eq!(normalize_type("felt252"), normalize_type("felt252"));
    assert_eq!(normalize_type("core::integer::u64"), normalize_type("core::integer::u64"));
}

#[test]
fn normalize_whitespace_insensitive() {
    assert_eq!(normalize_type("  felt252  "), "felt252");
    assert_eq!(normalize_type(" u256"), normalize_type("u256"));
    assert_eq!(normalize_type("Array < ByteArray >"), "Array<ByteArray>");
}

#[test]
fn normalize_namespace_prefix_insensitive() {
    assert_eq!(normalize_type("core::felt252"), normalize_type("felt252"));
    assert_eq!(normalize_type("core::byte_array::ByteArray"), "ByteArray");
    assert_eq!(normalize_type("core::array::Array<core::byte_array::ByteArray>"), "Array<ByteArray>");
}

#[test]
fn normalize_categories() {
    assert_eq!(normalize_type("felt252"), "felt252");
    assert_eq!(normalize_type("bool"), "bool");
    assert_eq!(normalize_type("u256"), "u256");
    assert_eq!(normalize_type("Decimal"), "Decimal");
    assert_eq!(normalize_type("cubit::f128::decimal::Decimal"), "Decimal");
    assert_eq!(normalize_type("ByteArray"), "ByteArray");
    assert_eq!(normalize_type(""), "ByteArray");
    // Unknown types fall back to the text-string category.
    assert_eq!(normalize_type("SomeCustomType"), "ByteArray");
    assert_eq!(normalize_type("core::integer::u256"), "ByteArray");
}
