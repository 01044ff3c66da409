use cairo_macros::num_traits::{add, div, mul, sub, add_assign};
use cairo_macros::parse::{Node, NodeKind};
use cairo_macros::print_traits::print_struct;
use cairo_macros::json_derive::{json_deserialize, json_serialize};
use cairo_macros::zero_trait::zero;

fn n(kind: NodeKind, text: &str, size: usize) -> Node {
    Node { kind, text: text.to_string(), subtree_size: size }
}

fn point_decl() -> Vec<Node> {
    vec![
        n(NodeKind::DeclKeyword, "struct", 0),
        n(NodeKind::Ident, "Point", 0),
        n(NodeKind::GenericParamListEmpty, "", 0),
        n(NodeKind::Member, "x: u64", 2),
        n(NodeKind::Ident, "x", 0),
        n(NodeKind::TypeClause, "u64", 0),
        n(NodeKind::Member, "y: u64", 2),
        n(NodeKind::Ident, "y", 0),
        n(NodeKind::TypeClause, "u64", 0),
    ]
}

fn generic_pair_decl() -> Vec<Node> {
    vec![
        n(NodeKind::DeclKeyword, "struct", 0),
        n(NodeKind::Ident, "Pair", 0),
        n(NodeKind::GenericParamList, "<T>", 1),
        n(NodeKind::Ident, "T", 0),
        n(NodeKind::Member, "a: T", 2),
        n(NodeKind::Ident, "a", 0),
        n(NodeKind::TypeClause, "T", 0),
        n(NodeKind::Member, "b: T", 2),
        n(NodeKind::Ident, "b", 0),
        n(NodeKind::TypeClause, "T", 0),
    ]
}

#[test]
fn add_impl_applies_operator_per_field() {
    let out = add(&point_decl());
    assert_eq!(
        out,
        "\n\nimpl PointAdd\nof core::traits::Add<Point> {\n    fn add(lhs: Point, rhs: Point) -> Point {\n        Point { x: lhs.x + rhs.x, y: lhs.y + rhs.y }\n    }\n}\n"
    );
}

#[test]
fn sub_mul_div_impls_use_their_operators() {
    let s = sub(&point_decl());
    assert!(s.contains("core::traits::Sub<Point>"));
    assert!(s.contains("x: lhs.x - rhs.x, y: lhs.y - rhs.y"));
    let m = mul(&point_decl());
    assert!(m.contains("core::traits::Mul<Point>"));
    assert!(m.contains("x: lhs.x * rhs.x, y: lhs.y * rhs.y"));
    let d = div(&point_decl());
    assert!(d.contains("core::traits::Div<Point>"));
    assert!(d.contains("x: lhs.x / rhs.x, y: lhs.y / rhs.y"));
}

#[test]
fn add_impl_generic_params_carry_two_bounds() {
    let out = add(&generic_pair_decl());
    assert_eq!(
        out,
        "\n\nimpl PairAdd<T,\n+core::traits::Add<T>,\n+core::traits::Drop<T>>\nof core::traits::Add<Pair<T>> {\n    fn add(lhs: Pair<T>, rhs: Pair<T>) -> Pair<T> {\n        Pair { a: lhs.a + rhs.a, b: lhs.b + rhs.b }\n    }\n}\n"
    );
}

#[test]
fn add_assign_impl_mutates_fields_in_order() {
    let out = add_assign(&point_decl());
    assert_eq!(
        out,
        "\n\nimpl PointAddAssign\nof core::ops::AddAssign<Point, Point> {\n    fn add_assign(ref self: Point, rhs: Point) {\n        self.x += rhs.x;\n        self.y += rhs.y;\n    }\n}\n"
    );
}

#[test]
fn zero_impl_composes_per_field_zeros() {
    let out = zero(&point_decl());
    assert_eq!(
        out,
        "\n\nimpl PointZeroImpl\nof core::num::traits::Zero<Point> {\n    fn zero() -> Point {\n        Point { x: core::num::traits::Zero::zero(), y: core::num::traits::Zero::zero() }\n    }\n\n    fn is_zero(self: @Point) -> bool {\n        self.x.is_zero() && self.y.is_zero()\n    }\n\n    fn is_non_zero(self: @Point) -> bool {\n        !self.is_zero()\n    }\n}\n"
    );
}

fn single_field_decl(name: &str, field: &str, ty: &str) -> Vec<Node> {
    vec![
        n(NodeKind::DeclKeyword, "struct", 0),
        n(NodeKind::Ident, name, 0),
        n(NodeKind::GenericParamListEmpty, "", 0),
        n(NodeKind::Member, "", 2),
        n(NodeKind::Ident, field, 0),
        n(NodeKind::TypeClause, ty, 0),
    ]
}

#[test]
fn json_serialize_number_field_exact() {
    let out = json_serialize(&single_field_decl("U", "id", "felt252"));
    assert_eq!(
        out,
        "\npub impl UJsonSerializeImpl of alexandria_json::json::JsonSerialize<U> {\n    fn to_json(self: @U) -> alexandria_json::json::JsonValue {\n        let mut fields = array![];\n        // Field: id, Type: felt252, Normalized: felt252\n        fields.append((\"id\", alexandria_json::json::JsonValue::Number(*self.id)));\n        alexandria_json::json::JsonValue::Object(fields)\n    }\n}"
    );
}

#[test]
fn json_deserialize_number_field_exact() {
    let out = json_deserialize(&single_field_decl("U", "id", "felt252"));
    assert_eq!(
        out,
        "\npub impl UJsonDeserializeImpl of alexandria_json::json::JsonDeserialize<U> {\n    fn from_json(value: alexandria_json::json::JsonValue) -> Result<U, alexandria_json::json::JsonError> {\n        let id = alexandria_json::json::JsonValueHelper::as_number(@alexandria_json::json::JsonValueHelper::get_object_field(@value, \"id\")?)?;\n        \n        Result::Ok(U { id })\n    }\n}"
    );
}

fn all_category_decl() -> Vec<Node> {
    vec![
        n(NodeKind::DeclKeyword, "struct", 0),
        n(NodeKind::Ident, "User", 0),
        n(NodeKind::GenericParamListEmpty, "", 0),
        n(NodeKind::Member, "", 2),
        n(NodeKind::Ident, "id", 0),
        n(NodeKind::TypeClause, "felt252", 0),
        n(NodeKind::Member, "", 2),
        n(NodeKind::Ident, "name", 0),
        n(NodeKind::TypeClause, "ByteArray", 0),
        n(NodeKind::Member, "", 2),
        n(NodeKind::Ident, "price", 0),
        n(NodeKind::TypeClause, "Decimal", 0),
        n(NodeKind::Member, "", 2),
        n(NodeKind::Ident, "active", 0),
        n(NodeKind::TypeClause, "bool", 0),
        n(NodeKind::Member, "", 2),
        n(NodeKind::Ident, "total", 0),
        n(NodeKind::TypeClause, "u256", 0),
        n(NodeKind::Member, "", 2),
        n(NodeKind::Ident, "tags", 0),
        n(NodeKind::TypeClause, "Array<ByteArray>", 0),
    ]
}

#[test]
fn json_round_trip_accessors_match_constructors() {
    // One field of each supported category: the deserializer must read
    // back exactly the JSON shape the serializer wrote for that field.
    let ser = json_serialize(&all_category_decl());
    let de = json_deserialize(&all_category_decl());

    assert!(ser.contains("fields.append((\"id\", alexandria_json::json::JsonValue::Number(*self.id)));"));
    assert!(de.contains("let id = alexandria_json::json::JsonValueHelper::as_number("));

    assert!(ser.contains("fields.append((\"name\", alexandria_json::json::JsonValue::String(self.name.clone())));"));
    assert!(de.contains("let name = alexandria_json::json::JsonValueHelper::as_string("));

    assert!(ser.contains("fields.append((\"price\", alexandria_json::json::JsonValue::Decimal(*self.price)));"));
    assert!(de.contains("let price = alexandria_json::json::JsonValueHelper::as_decimal("));

    assert!(ser.contains("fields.append((\"active\", alexandria_json::json::JsonValue::Bool(*self.active)));"));
    assert!(de.contains("let active = alexandria_json::json::JsonValueHelper::as_bool("));

    assert!(ser.contains("fields.append((\"total\", alexandria_json::json::JsonValue::Number((*self.total).try_into().unwrap())));"));
    assert!(de.contains("let total = alexandria_json::json::JsonValueHelper::as_u256("));

    assert!(ser.contains("fields.append((\"tags\", alexandria_json::json::JsonValue::Array(tags_json)));"));
    assert!(de.contains("let tags_array = alexandria_json::json::JsonValueHelper::as_array(@tags_json)?;"));

    // Field order in both bodies follows declaration order.
    let order = ["\"id\"", "\"name\"", "\"price\"", "\"active\"", "\"total\"", "\"tags\""];
    let mut last = 0;
    for key in order {
        let at = ser[last..].find(key).expect("key order in serializer");
        last += at;
    }
    assert!(de.contains("Result::Ok(User { id, name, price, active, total, tags })"));
}

#[test]
fn display_impl_interleaves_names_and_placeholders() {
    let out = print_struct(&point_decl());
    assert_eq!(out.diagnostics.len(), 0);
    assert!(out.content.contains("use PointPrintMacro::PointDisplay;"));
    assert!(out.content.contains("format!(\"Point(x: {}, y: {})\", self.x, self.y)"));
    assert!(!out.content.contains("ContractAddressDisplay"));
    assert!(!out.content.contains("DisplayArray"));
}

#[test]
fn display_impl_exact_for_single_field() {
    let out = print_struct(&single_field_decl("One", "a", "u64"));
    assert_eq!(out.diagnostics.len(), 0);
    assert_eq!(
        out.content,
        "\n        use OnePrintMacro::OneDisplay;\n        pub mod OnePrintMacro {\n            use super::One;\n            use core::fmt::{Display, Formatter, Error};\n            pub impl OneDisplay of Display<One> {\n                fn fmt(self: @One, ref f: Formatter) -> Result<(), Error> {\n                    let str: ByteArray = format!(\"One(a: {})\", self.a);\n                    f.buffer.append(@str);\n                    Ok(())\n                }\n            }\n    \n}"
    );
}

#[test]
fn display_impl_emits_address_and_array_helpers() {
    let nodes = vec![
        n(NodeKind::DeclKeyword, "struct", 0),
        n(NodeKind::Ident, "Holder", 0),
        n(NodeKind::GenericParamListEmpty, "", 0),
        n(NodeKind::Member, "", 2),
        n(NodeKind::Ident, "owner", 0),
        n(NodeKind::TypeClause, "ContractAddress", 0),
        n(NodeKind::Member, "", 2),
        n(NodeKind::Ident, "vals", 0),
        n(NodeKind::TypeClause, "Array::u64", 0),
        n(NodeKind::Member, "", 2),
        n(NodeKind::Ident, "more", 0),
        n(NodeKind::TypeClause, "Array::u64", 0),
        n(NodeKind::Member, "", 2),
        n(NodeKind::Ident, "felts", 0),
        n(NodeKind::TypeClause, "Array::felt252", 0),
    ];
    let out = print_struct(&nodes);
    assert_eq!(out.diagnostics.len(), 0);
    assert!(out.content.contains("impl ContractAddressDisplay of Display<ContractAddress>"));
    // One helper per distinct element kind, the namespaced spelling for
    // integer widths and the plain one for the base literal type.
    assert_eq!(out.content.matches("impl DisplayArrayu64 ").count(), 1);
    assert!(out.content.contains("Display<core::array::Array::<core::integer::u64>>"));
    assert!(out.content.contains("Display<core::array::Array::<core::felt252>>"));
}

#[test]
fn display_rejects_one_unsupported_type_naming_it() {
    let out = print_struct(&single_field_decl("Odd", "blob", "CustomBlob"));
    assert_eq!(out.content, "");
    assert_eq!(out.diagnostics.len(), 1);
    assert_eq!(
        out.diagnostics[0],
        "PrintStruct does not support the following field types: CustomBlob"
    );
}

#[test]
fn display_rejects_all_unsupported_types_together() {
    let nodes = vec![
        n(NodeKind::DeclKeyword, "struct", 0),
        n(NodeKind::Ident, "Odd", 0),
        n(NodeKind::GenericParamListEmpty, "", 0),
        n(NodeKind::Member, "", 2),
        n(NodeKind::Ident, "a", 0),
        n(NodeKind::TypeClause, "CustomBlob", 0),
        n(NodeKind::Member, "", 2),
        n(NodeKind::Ident, "b", 0),
        n(NodeKind::TypeClause, "u64", 0),
        n(NodeKind::Member, "", 2),
        n(NodeKind::Ident, "c", 0),
        n(NodeKind::TypeClause, "OtherThing", 0),
    ];
    let out = print_struct(&nodes);
    assert_eq!(out.content, "");
    assert_eq!(out.diagnostics.len(), 1);
    assert!(out.diagnostics[0].contains("CustomBlob"));
    assert!(out.diagnostics[0].contains("OtherThing"));
    assert!(out.diagnostics[0].starts_with("PrintStruct does not support the following field types: "));
}
