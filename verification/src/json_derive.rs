//! JSON (de)serialization derivation. Both generators walk the fields in
//! declaration order and dispatch on the same normalized type category; the
//! serializer appends one `(key, value)` pair per field, the deserializer
//! extracts one field per key and fails fast on the first missing key or
//! mismatched value.

use vstd::prelude::*;

use crate::parse::{
    decl_view, parse_struct_info, struct_info_view, wf_decl, DescView, FieldInfo, Node, StructInfo,
};
use crate::text::{
    despace_spec, has_sub, join_spec, join_strings, remove_all_spec, str_contains, str_despace,
    str_eq, str_remove_all, str_trim, trim_spec,
};

verus! {

/// The type-expression text after whitespace and the standard namespace
/// prefixes are stripped.
pub open spec fn spec_clean_type(s: Seq<char>) -> Seq<char> {
    remove_all_spec(
        remove_all_spec(remove_all_spec(despace_spec(trim_spec(s)), "core::"@), "byte_array::"@),
        "array::"@,
    )
}

/// The closed category a raw type-expression text normalizes to: one of
/// `Array<ByteArray>`, `felt252`, `bool`, `u256`, `Decimal` or `ByteArray`,
/// with `ByteArray` the default for empty or unrecognized text.
pub open spec fn spec_normalize_type(s: Seq<char>) -> Seq<char> {
    let clean = spec_clean_type(s);
    if has_sub(clean, "Array<ByteArray>"@) || has_sub(clean, "Array<byte_array::ByteArray>"@) {
        "Array<ByteArray>"@
    } else if clean == "felt252"@ {
        "felt252"@
    } else if clean == "bool"@ {
        "bool"@
    } else if clean == "u256"@ {
        "u256"@
    } else if clean == "Decimal"@ || has_sub(clean, "decimal::Decimal"@) || has_sub(
        clean,
        "parser::decimal::Decimal"@,
    ) {
        "Decimal"@
    } else {
        "ByteArray"@
    }
}

/// Maps raw Cairo type text to its semantic category, insensitive to
/// whitespace and to the standard namespace prefixes.
pub fn normalize_type(type_str: &str) -> (r: String)
    ensures
        r@ == spec_normalize_type(type_str@),
{
    proof {
        reveal_strlit("core::");
        reveal_strlit("byte_array::");
        reveal_strlit("array::");
    }
    let t = str_trim(type_str);
    let d = str_despace(t);
    let c1 = str_remove_all(d.as_str(), "core::");
    let c2 = str_remove_all(c1.as_str(), "byte_array::");
    let clean = str_remove_all(c2.as_str(), "array::");
    if str_contains(clean.as_str(), "Array<ByteArray>") || str_contains(
        clean.as_str(),
        "Array<byte_array::ByteArray>",
    ) {
        "Array<ByteArray>".to_owned()
    } else if str_eq(clean.as_str(), "felt252") {
        "felt252".to_owned()
    } else if str_eq(clean.as_str(), "bool") {
        "bool".to_owned()
    } else if str_eq(clean.as_str(), "u256") {
        "u256".to_owned()
    } else if str_eq(clean.as_str(), "Decimal") || str_contains(clean.as_str(), "decimal::Decimal")
        || str_contains(clean.as_str(), "parser::decimal::Decimal") {
        "Decimal".to_owned()
    } else {
        "ByteArray".to_owned()
    }
}

/// Normalization is pure: it is a function of the type-expression text
/// alone, and its ensures ties the executable result to it, so two calls
/// on identical text yield identical categories. The lemmas below state
/// the insensitivity half of that law: whitespace at either end and the
/// standard namespace prefixes do not change the category.
pub proof fn lemma_normalize_ws_prepend(c: char, s: Seq<char>)
    requires
        crate::text::is_ws_char(c),
    ensures
        spec_normalize_type(seq![c] + s) == spec_normalize_type(s),
{
    crate::text::lemma_trim_prepend_ws(s, c);
}

/// Normalization is insensitive to one whitespace character appended.
pub proof fn lemma_normalize_ws_append(c: char, s: Seq<char>)
    requires
        crate::text::is_ws_char(c),
    ensures
        spec_normalize_type(s + seq![c]) == spec_normalize_type(s),
{
    crate::text::lemma_trim_append_ws(s, c);
}

proof fn lemma_clean_id_pieces(s: Seq<char>)
    requires
        forall|i: int| 0 <= i < s.len() ==> !crate::text::is_ws_char(s[i]),
    ensures
        trim_spec(s) == s,
        despace_spec(s) == s,
{
    crate::text::lemma_trim_id(s);
    assert(forall|i: int| 0 <= i < s.len() ==> s[i] != ' ');
    crate::text::lemma_despace_id(s);
}

/// The cleaned form of a whitespace-free text with one of the standard
/// namespace prefixes prepended equals the cleaned form without it.
proof fn lemma_clean_prefix(p: Seq<char>, s: Seq<char>)
    requires
        p == "core::"@ || p == "byte_array::"@ || p == "array::"@,
        forall|i: int| 0 <= i < s.len() ==> !crate::text::is_ws_char(s[i]),
    ensures
        spec_clean_type(p + s) == spec_clean_type(s),
{
    reveal_strlit("core::");
    reveal_strlit("byte_array::");
    reveal_strlit("array::");
    let core_p = "core::"@;
    let ba_p = "byte_array::"@;
    let arr_p = "array::"@;
    assert(forall|i: int| 0 <= i < p.len() ==> !crate::text::is_ws_char(p[i]));
    assert(forall|i: int| 0 <= i < (p + s).len() ==> !crate::text::is_ws_char((p + s)[i]));
    lemma_clean_id_pieces(p + s);
    lemma_clean_id_pieces(s);
    let r1 = remove_all_spec(s, core_p);
    let r2 = remove_all_spec(r1, ba_p);
    if p == core_p {
        crate::text::lemma_remove_all_head_match(s, core_p);
    } else if p == ba_p {
        assert(forall|o: int| 0 <= o < p.len() ==> p[o] != core_p[0]);
        crate::text::lemma_remove_all_unmatched_prefix(p, s, core_p);
        crate::text::lemma_remove_all_head_match(r1, ba_p);
    } else {
        assert(forall|o: int| 0 <= o < p.len() ==> p[o] != core_p[0]);
        crate::text::lemma_remove_all_unmatched_prefix(p, s, core_p);
        assert(forall|o: int| 0 <= o < p.len() ==> p[o] != ba_p[0]);
        crate::text::lemma_remove_all_unmatched_prefix(p, r1, ba_p);
        crate::text::lemma_remove_all_head_match(r2, arr_p);
    }
}

/// Namespace-prefix insensitivity: for a whitespace-free type text, the
/// `core::`-prefixed spelling normalizes to the same category.
pub proof fn lemma_normalize_core_prefix(s: Seq<char>)
    requires
        forall|i: int| 0 <= i < s.len() ==> !crate::text::is_ws_char(s[i]),
    ensures
        spec_normalize_type("core::"@ + s) == spec_normalize_type(s),
{
    lemma_clean_prefix("core::"@, s);
}

/// Namespace-prefix insensitivity for the `byte_array::` spelling.
pub proof fn lemma_normalize_byte_array_prefix(s: Seq<char>)
    requires
        forall|i: int| 0 <= i < s.len() ==> !crate::text::is_ws_char(s[i]),
    ensures
        spec_normalize_type("byte_array::"@ + s) == spec_normalize_type(s),
{
    lemma_clean_prefix("byte_array::"@, s);
}

/// Namespace-prefix insensitivity for the `array::` spelling.
pub proof fn lemma_normalize_array_prefix(s: Seq<char>)
    requires
        forall|i: int| 0 <= i < s.len() ==> !crate::text::is_ws_char(s[i]),
    ensures
        spec_normalize_type("array::"@ + s) == spec_normalize_type(s),
{
    lemma_clean_prefix("array::"@, s);
}

/// A deserialization statement that looks the key up and converts it with
/// one accessor: `let f = ...::acc(@...::get_object_field(@value, "f")?)?;`.
pub open spec fn spec_simple_accessor_line(f: Seq<char>, acc: Seq<char>) -> Seq<char> {
    "let "@ + f + " = alexandria_json::json::JsonValueHelper::"@ + acc
        + "(@alexandria_json::json::JsonValueHelper::get_object_field(@value, \""@ + f
        + "\")?)?;"@
}

/// The deserialization statements for an array-of-strings field: fetch the
/// key, read it as an array, and append each element as a string.
pub open spec fn spec_array_deser_lines(f: Seq<char>) -> Seq<char> {
    "let "@ + f + "_json = alexandria_json::json::JsonValueHelper::get_object_field(@value, \""@
        + f + "\")?;\n        let "@ + f
        + "_array = alexandria_json::json::JsonValueHelper::as_array(@"@ + f
        + "_json)?;\n        let mut "@ + f + " = array![];\n        let mut "@ + f
        + "_i = 0;\n        while "@ + f + "_i < "@ + f + "_array.len() {\n            let "@ + f
        + "_item = alexandria_json::json::JsonValueHelper::as_string("@ + f + "_array.at("@ + f
        + "_i))?;\n            "@ + f + ".append("@ + f + "_item);\n            "@ + f
        + "_i += 1;\n        };"@
}

/// The accessor the deserializer pairs with a category.
pub open spec fn spec_accessor_of(cat: Seq<char>) -> Seq<char> {
    if cat == "felt252"@ {
        "as_number"@
    } else if cat == "bool"@ {
        "as_bool"@
    } else if cat == "u256"@ {
        "as_u256"@
    } else if cat == "Decimal"@ {
        "as_decimal"@
    } else {
        "as_string"@
    }
}

/// The extraction statement(s) one field contributes to `from_json`.
pub open spec fn spec_field_deserialization(f: (Seq<char>, Seq<char>)) -> Seq<char> {
    let cat = spec_normalize_type(f.1);
    if cat == "Array<ByteArray>"@ {
        spec_array_deser_lines(f.0)
    } else {
        spec_simple_accessor_line(f.0, spec_accessor_of(cat))
    }
}

fn simple_accessor_line(f: &str, acc: &str) -> (r: String)
    ensures
        r@ == spec_simple_accessor_line(f@, acc@),
{
    let mut out = String::new();
    out.append("let ");
    assert(out@ =~= "let "@);
    out.append(f);
    out.append(" = alexandria_json::json::JsonValueHelper::");
    out.append(acc);
    out.append("(@alexandria_json::json::JsonValueHelper::get_object_field(@value, \"");
    out.append(f);
    out.append("\")?)?;");
    out
}

fn array_deser_lines(f: &str) -> (r: String)
    ensures
        r@ == spec_array_deser_lines(f@),
{
    let mut out = String::new();
    out.append("let ");
    assert(out@ =~= "let "@);
    out.append(f);
    out.append("_json = alexandria_json::json::JsonValueHelper::get_object_field(@value, \"");
    out.append(f);
    out.append("\")?;\n        let ");
    out.append(f);
    out.append("_array = alexandria_json::json::JsonValueHelper::as_array(@");
    out.append(f);
    out.append("_json)?;\n        let mut ");
    out.append(f);
    out.append(" = array![];\n        let mut ");
    out.append(f);
    out.append("_i = 0;\n        while ");
    out.append(f);
    out.append("_i < ");
    out.append(f);
    out.append("_array.len() {\n            let ");
    out.append(f);
    out.append("_item = alexandria_json::json::JsonValueHelper::as_string(");
    out.append(f);
    out.append("_array.at(");
    out.append(f);
    out.append("_i))?;\n            ");
    out.append(f);
    out.append(".append(");
    out.append(f);
    out.append("_item);\n            ");
    out.append(f);
    out.append("_i += 1;\n        };");
    out
}

/// Emits the extraction statement(s) for one field of `from_json`,
/// dispatching on the field's normalized type category.
pub fn generate_field_deserialization(field: &FieldInfo) -> (r: String)
    ensures
        r@ == spec_field_deserialization((field.name@, field.field_type@)),
{
    proof {
        reveal_strlit("felt252");
        reveal_strlit("bool");
        reveal_strlit("u256");
        reveal_strlit("Decimal");
        reveal_strlit("Array<ByteArray>");
        reveal_strlit("ByteArray");
    }
    let cat = normalize_type(field.field_type.as_str());
    assert(cat@ == spec_normalize_type(field.field_type@));
    if str_eq(cat.as_str(), "felt252") {
        simple_accessor_line(field.name.as_str(), "as_number")
    } else if str_eq(cat.as_str(), "bool") {
        simple_accessor_line(field.name.as_str(), "as_bool")
    } else if str_eq(cat.as_str(), "Array<ByteArray>") {
        array_deser_lines(field.name.as_str())
    } else if str_eq(cat.as_str(), "u256") {
        simple_accessor_line(field.name.as_str(), "as_u256")
    } else if str_eq(cat.as_str(), "Decimal") {
        simple_accessor_line(field.name.as_str(), "as_decimal")
    } else {
        simple_accessor_line(field.name.as_str(), "as_string")
    }
}

/// The serialization statement appending one `(key, value)` pair whose
/// value wraps the field's own content:
/// `fields.append(("f", alexandria_json::json::JsonValue::Ctor(expr)));`.
pub open spec fn spec_append_pair_line(f: Seq<char>, ctor: Seq<char>, expr: Seq<char>) -> Seq<
    char,
> {
    "fields.append((\""@ + f + "\", alexandria_json::json::JsonValue::"@ + ctor + "("@ + expr
        + ")));"@
}

/// The serialization statements for an array-of-strings field: copy each
/// element into a JSON array, then append it under the field's key.
pub open spec fn spec_array_ser_lines(f: Seq<char>) -> Seq<char> {
    "let mut "@ + f + "_json = array![];\n        let mut "@ + f + "_i = 0;\n        while "@ + f
        + "_i < self."@ + f + ".len() {\n            "@ + f
        + "_json.append(alexandria_json::json::JsonValue::String(self."@ + f + ".at("@ + f
        + "_i).clone()));\n            "@ + f
        + "_i += 1;\n        };\n        fields.append((\""@ + f
        + "\", alexandria_json::json::JsonValue::Array("@ + f + "_json)));"@
}

/// The JSON value constructor the serializer pairs with a category.
pub open spec fn spec_ctor_of(cat: Seq<char>) -> Seq<char> {
    if cat == "felt252"@ || cat == "u256"@ {
        "Number"@
    } else if cat == "bool"@ {
        "Bool"@
    } else if cat == "Decimal"@ {
        "Decimal"@
    } else {
        "String"@
    }
}

/// The value expression the serializer wraps for a category.
pub open spec fn spec_ser_expr(f: Seq<char>, cat: Seq<char>) -> Seq<char> {
    if cat == "felt252"@ || cat == "bool"@ || cat == "Decimal"@ {
        "*self."@ + f
    } else if cat == "u256"@ {
        "(*self."@ + f + ").try_into().unwrap()"@
    } else {
        "self."@ + f + ".clone()"@
    }
}

/// The comment the serializer writes above each field's statement.
pub open spec fn spec_ser_comment(f: (Seq<char>, Seq<char>)) -> Seq<char> {
    "// Field: "@ + f.0 + ", Type: "@ + f.1 + ", Normalized: "@ + spec_normalize_type(f.1)
}

/// The statement(s) one field contributes to `to_json`, under its comment.
pub open spec fn spec_field_serialization(f: (Seq<char>, Seq<char>)) -> Seq<char> {
    let cat = spec_normalize_type(f.1);
    let code = if cat == "Array<ByteArray>"@ {
        spec_array_ser_lines(f.0)
    } else {
        spec_append_pair_line(f.0, spec_ctor_of(cat), spec_ser_expr(f.0, cat))
    };
    spec_ser_comment(f) + "\n        "@ + code
}

fn append_pair_line(f: &str, ctor: &str, expr: &str) -> (r: String)
    ensures
        r@ == spec_append_pair_line(f@, ctor@, expr@),
{
    let mut out = String::new();
    out.append("fields.append((\"");
    assert(out@ =~= "fields.append((\""@);
    out.append(f);
    out.append("\", alexandria_json::json::JsonValue::");
    out.append(ctor);
    out.append("(");
    out.append(expr);
    out.append(")));");
    out
}

fn array_ser_lines(f: &str) -> (r: String)
    ensures
        r@ == spec_array_ser_lines(f@),
{
    let mut out = String::new();
    out.append("let mut ");
    assert(out@ =~= "let mut "@);
    out.append(f);
    out.append("_json = array![];\n        let mut ");
    out.append(f);
    out.append("_i = 0;\n        while ");
    out.append(f);
    out.append("_i < self.");
    out.append(f);
    out.append(".len() {\n            ");
    out.append(f);
    out.append("_json.append(alexandria_json::json::JsonValue::String(self.");
    out.append(f);
    out.append(".at(");
    out.append(f);
    out.append("_i).clone()));\n            ");
    out.append(f);
    out.append("_i += 1;\n        };\n        fields.append((\"");
    out.append(f);
    out.append("\", alexandria_json::json::JsonValue::Array(");
    out.append(f);
    out.append("_json)));");
    out
}

fn ser_expr(f: &str, cat: &str) -> (r: String)
    ensures
        r@ == spec_ser_expr(f@, cat@),
{
    let mut out = String::new();
    if str_eq(cat, "felt252") || str_eq(cat, "bool") || str_eq(cat, "Decimal") {
        out.append("*self.");
        assert(out@ =~= "*self."@);
        out.append(f);
    } else if str_eq(cat, "u256") {
        out.append("(*self.");
        assert(out@ =~= "(*self."@);
        out.append(f);
        out.append(").try_into().unwrap()");
    } else {
        out.append("self.");
        assert(out@ =~= "self."@);
        out.append(f);
        out.append(".clone()");
    }
    out
}

/// Emits the statement(s) for one field of `to_json`, dispatching on the
/// field's normalized type category, under a comment naming the detection.
pub fn generate_field_serialization(field: &FieldInfo) -> (r: String)
    ensures
        r@ == spec_field_serialization((field.name@, field.field_type@)),
{
    proof {
        reveal_strlit("felt252");
        reveal_strlit("bool");
        reveal_strlit("u256");
        reveal_strlit("Decimal");
        reveal_strlit("Array<ByteArray>");
        reveal_strlit("ByteArray");
    }
    let cat = normalize_type(field.field_type.as_str());
    let mut out = String::new();
    out.append("// Field: ");
    assert(out@ =~= "// Field: "@);
    out.append(field.name.as_str());
    out.append(", Type: ");
    out.append(field.field_type.as_str());
    out.append(", Normalized: ");
    out.append(cat.as_str());
    out.append("\n        ");
    let code: String;
    if str_eq(cat.as_str(), "Array<ByteArray>") {
        code = array_ser_lines(field.name.as_str());
    } else {
        let ctor: &str;
        if str_eq(cat.as_str(), "felt252") || str_eq(cat.as_str(), "u256") {
            ctor = "Number";
        } else if str_eq(cat.as_str(), "bool") {
            ctor = "Bool";
        } else if str_eq(cat.as_str(), "Decimal") {
            ctor = "Decimal";
        } else {
            ctor = "String";
        }
        assert(ctor@ == spec_ctor_of(cat@));
        let expr = ser_expr(field.name.as_str(), cat.as_str());
        code = append_pair_line(field.name.as_str(), ctor, expr.as_str());
    }
    out.append(code.as_str());
    out
}

/// The extraction statements of all fields, joined one per line.
pub open spec fn spec_deser_extractions(d: DescView) -> Seq<char> {
    join_spec(
        d.fields.map_values(|f: (Seq<char>, Seq<char>)| spec_field_deserialization(f)),
        "\n        "@,
    )
}

/// The field names joined for the final constructor call.
pub open spec fn spec_field_names_joined(d: DescView) -> Seq<char> {
    join_spec(d.fields.map_values(|f: (Seq<char>, Seq<char>)| f.0), ", "@)
}

/// The full `JsonDeserialize` implementation for a descriptor: one
/// extraction per field and a final constructor call listing the fields in
/// declaration order.
pub open spec fn spec_json_deserialize_impl(d: DescView) -> Seq<char> {
    "\npub impl "@ + d.name + "JsonDeserializeImpl of alexandria_json::json::JsonDeserialize<"@
        + d.name + "> {\n    fn from_json(value: alexandria_json::json::JsonValue) -> Result<"@
        + d.name + ", alexandria_json::json::JsonError> {\n        "@ + spec_deser_extractions(d)
        + "\n        \n        Result::Ok("@ + d.name + " { "@ + spec_field_names_joined(d)
        + " })\n    }\n}"@
}

/// The serialization statements of all fields, joined one per line.
pub open spec fn spec_ser_statements(d: DescView) -> Seq<char> {
    join_spec(
        d.fields.map_values(|f: (Seq<char>, Seq<char>)| spec_field_serialization(f)),
        "\n        "@,
    )
}

/// The full `JsonSerialize` implementation for a descriptor: one appended
/// `(key, value)` pair per field, in declaration order, wrapped as an
/// object.
pub open spec fn spec_json_serialize_impl(d: DescView) -> Seq<char> {
    "\npub impl "@ + d.name + "JsonSerializeImpl of alexandria_json::json::JsonSerialize<"@
        + d.name + "> {\n    fn to_json(self: @"@ + d.name
        + ") -> alexandria_json::json::JsonValue {\n        let mut fields = array![];\n        "@
        + spec_ser_statements(d)
        + "\n        alexandria_json::json::JsonValue::Object(fields)\n    }\n}"@
}

/// Generates the `JsonDeserialize` implementation text for a descriptor.
pub fn generate_json_deserialize_impl(s: &StructInfo) -> (r: String)
    ensures
        r@ == spec_json_deserialize_impl(struct_info_view(*s)),
{
    let ghost fv = struct_info_view(*s).fields;
    let mut pieces: Vec<String> = Vec::new();
    let mut names: Vec<String> = Vec::new();
    let mut i: usize = 0;
    let n = s.fields.len();
    assert(pieces.deep_view() =~= fv.take(0).map_values(
        |f: (Seq<char>, Seq<char>)| spec_field_deserialization(f),
    ));
    assert(names.deep_view() =~= fv.take(0).map_values(|f: (Seq<char>, Seq<char>)| f.0));
    while i < n
        invariant
            n == s.fields.len(),
            i <= n,
            fv == struct_info_view(*s).fields,
            fv.len() == n,
            pieces.deep_view() == fv.take(i as int).map_values(
                |f: (Seq<char>, Seq<char>)| spec_field_deserialization(f),
            ),
            names.deep_view() == fv.take(i as int).map_values(|f: (Seq<char>, Seq<char>)| f.0),
        decreases n - i,
    {
        let piece = generate_field_deserialization(&s.fields[i]);
        proof {
            assert(fv[i as int] == (s.fields[i as int].name@, s.fields[i as int].field_type@));
            assert(fv.take(i as int + 1).map_values(
                |f: (Seq<char>, Seq<char>)| spec_field_deserialization(f),
            ) =~= fv.take(i as int).map_values(
                |f: (Seq<char>, Seq<char>)| spec_field_deserialization(f),
            ).push(spec_field_deserialization(fv[i as int])));
            assert(fv.take(i as int + 1).map_values(|f: (Seq<char>, Seq<char>)| f.0) =~= fv.take(
                i as int,
            ).map_values(|f: (Seq<char>, Seq<char>)| f.0).push(fv[i as int].0));
        }
        pieces.push(piece);
        names.push(s.fields[i].name.clone());
        i += 1;
    }
    assert(fv.take(n as int) =~= fv);
    let extractions = join_strings(&pieces, "\n        ");
    let names_joined = join_strings(&names, ", ");

    let mut out = String::new();
    out.append("\npub impl ");
    assert(out@ =~= "\npub impl "@);
    out.append(s.name.as_str());
    out.append("JsonDeserializeImpl of alexandria_json::json::JsonDeserialize<");
    out.append(s.name.as_str());
    out.append("> {\n    fn from_json(value: alexandria_json::json::JsonValue) -> Result<");
    out.append(s.name.as_str());
    out.append(", alexandria_json::json::JsonError> {\n        ");
    out.append(extractions.as_str());
    out.append("\n        \n        Result::Ok(");
    out.append(s.name.as_str());
    out.append(" { ");
    out.append(names_joined.as_str());
    out.append(" })\n    }\n}");
    out
}

/// Generates the `JsonSerialize` implementation text for a descriptor.
pub fn generate_json_serialize_impl(s: &StructInfo) -> (r: String)
    ensures
        r@ == spec_json_serialize_impl(struct_info_view(*s)),
{
    let ghost fv = struct_info_view(*s).fields;
    let mut pieces: Vec<String> = Vec::new();
    let mut i: usize = 0;
    let n = s.fields.len();
    assert(pieces.deep_view() =~= fv.take(0).map_values(
        |f: (Seq<char>, Seq<char>)| spec_field_serialization(f),
    ));
    while i < n
        invariant
            n == s.fields.len(),
            i <= n,
            fv == struct_info_view(*s).fields,
            fv.len() == n,
            pieces.deep_view() == fv.take(i as int).map_values(
                |f: (Seq<char>, Seq<char>)| spec_field_serialization(f),
            ),
        decreases n - i,
    {
        let piece = generate_field_serialization(&s.fields[i]);
        proof {
            assert(fv[i as int] == (s.fields[i as int].name@, s.fields[i as int].field_type@));
            assert(fv.take(i as int + 1).map_values(
                |f: (Seq<char>, Seq<char>)| spec_field_serialization(f),
            ) =~= fv.take(i as int).map_values(
                |f: (Seq<char>, Seq<char>)| spec_field_serialization(f),
            ).push(spec_field_serialization(fv[i as int])));
        }
        pieces.push(piece);
        i += 1;
    }
    assert(fv.take(n as int) =~= fv);
    let statements = join_strings(&pieces, "\n        ");

    let mut out = String::new();
    out.append("\npub impl ");
    assert(out@ =~= "\npub impl "@);
    out.append(s.name.as_str());
    out.append("JsonSerializeImpl of alexandria_json::json::JsonSerialize<");
    out.append(s.name.as_str());
    out.append("> {\n    fn to_json(self: @");
    out.append(s.name.as_str());
    out.append(") -> alexandria_json::json::JsonValue {\n        let mut fields = array![];\n        ");
    out.append(statements.as_str());
    out.append("\n        alexandria_json::json::JsonValue::Object(fields)\n    }\n}");
    out
}

/// Normalization is total: every type text lands in the closed category
/// set.
pub proof fn lemma_normalize_codomain(ty: Seq<char>)
    ensures
        spec_normalize_type(ty) == "Array<ByteArray>"@ || spec_normalize_type(ty) == "felt252"@
            || spec_normalize_type(ty) == "bool"@ || spec_normalize_type(ty) == "u256"@
            || spec_normalize_type(ty) == "Decimal"@ || spec_normalize_type(ty) == "ByteArray"@,
{
}

/// Round-trip dispatch agreement: the serializer and the deserializer
/// share one category table, so for every field the emitted extraction
/// reads back exactly the JSON shape the emitted append writes — number
/// with number (the 256-bit integer included, narrowed on the way out),
/// boolean with boolean, decimal with decimal, string with string, and
/// the string-array loop forms with each other.
pub proof fn lemma_json_dispatch_pairing(f: (Seq<char>, Seq<char>))
    ensures
        ({
            let cat = spec_normalize_type(f.1);
            &&& cat == "Array<ByteArray>"@ ==> spec_field_deserialization(f)
                == spec_array_deser_lines(f.0) && spec_field_serialization(f) == spec_ser_comment(
                f,
            ) + "\n        "@ + spec_array_ser_lines(f.0)
            &&& cat != "Array<ByteArray>"@ ==> spec_field_deserialization(f)
                == spec_simple_accessor_line(f.0, spec_accessor_of(cat))
                && spec_field_serialization(f) == spec_ser_comment(f) + "\n        "@
                + spec_append_pair_line(f.0, spec_ctor_of(cat), spec_ser_expr(f.0, cat))
            &&& cat == "felt252"@ ==> spec_accessor_of(cat) == "as_number"@ && spec_ctor_of(cat)
                == "Number"@
            &&& cat == "bool"@ ==> spec_accessor_of(cat) == "as_bool"@ && spec_ctor_of(cat)
                == "Bool"@
            &&& cat == "u256"@ ==> spec_accessor_of(cat) == "as_u256"@ && spec_ctor_of(cat)
                == "Number"@
            &&& cat == "Decimal"@ ==> spec_accessor_of(cat) == "as_decimal"@ && spec_ctor_of(cat)
                == "Decimal"@
            &&& cat == "ByteArray"@ ==> spec_accessor_of(cat) == "as_string"@ && spec_ctor_of(cat)
                == "String"@
        }),
{
    reveal_strlit("Array<ByteArray>");
    reveal_strlit("felt252");
    reveal_strlit("bool");
    reveal_strlit("u256");
    reveal_strlit("Decimal");
    reveal_strlit("ByteArray");
    assert("bool"@ != "u256"@) by {
        assert("bool"@[0] == 'b' && "u256"@[0] == 'u');
    }
    assert("Decimal"@ != "felt252"@) by {
        assert("Decimal"@[0] == 'D' && "felt252"@[0] == 'f');
    }
    let cat = spec_normalize_type(f.1);
    if cat == "Array<ByteArray>"@ {
        assert(spec_field_deserialization(f) == spec_array_deser_lines(f.0));
        assert(spec_field_serialization(f) == spec_ser_comment(f) + "\n        "@
            + spec_array_ser_lines(f.0));
    } else {
        assert(spec_field_deserialization(f) == spec_simple_accessor_line(
            f.0,
            spec_accessor_of(cat),
        ));
        assert(spec_field_serialization(f) == spec_ser_comment(f) + "\n        "@
            + spec_append_pair_line(f.0, spec_ctor_of(cat), spec_ser_expr(f.0, cat)));
    }
}

/// Derives the `JsonDeserialize` implementation for a declaration.
pub fn json_deserialize(nodes: &Vec<Node>) -> (r: String)
    requires
        wf_decl(nodes@),
    ensures
        r@ == spec_json_deserialize_impl(decl_view(nodes@)),
{
    let s = parse_struct_info(nodes);
    generate_json_deserialize_impl(&s)
}

/// Derives the `JsonSerialize` implementation for a declaration.
pub fn json_serialize(nodes: &Vec<Node>) -> (r: String)
    requires
        wf_decl(nodes@),
    ensures
        r@ == spec_json_serialize_impl(decl_view(nodes@)),
{
    let s = parse_struct_info(nodes);
    generate_json_serialize_impl(&s)
}

} // verus!
