//! Display derivation. Validation collects every field whose type falls
//! outside the display whitelist and reports them all in one diagnostic; on
//! success the generator emits a format template interleaving field names
//! and placeholders in declaration order, plus auxiliary display
//! implementations for the address type and for each distinct supported
//! array element kind among the fields.

use vstd::prelude::*;

use crate::parse::{
    decl_view, generic_params_text, parse_struct_info, spec_generic_params_text, struct_info_view,
    wf_decl, DescView, Node, StructInfo,
};
use crate::text::{
    has_sub, join_spec, join_strings, seq_contains_str, starts_with_spec, str_contains, str_eq,
    str_starts_with, vec_contains_str,
};
use crate::MacroOutput;

verus! {

/// One field's slot in the format template: `name: {}`.
pub open spec fn fmt_piece(f: (Seq<char>, Seq<char>)) -> Seq<char> {
    f.0 + ": {}"@
}

/// One field's accessor in the format call: `self.name`.
pub open spec fn access_piece(f: (Seq<char>, Seq<char>)) -> Seq<char> {
    "self."@ + f.0
}

/// Some field's declared type mentions the address type.
pub open spec fn spec_needs_contract_display(fields: Seq<(Seq<char>, Seq<char>)>) -> bool {
    exists|i: int| 0 <= i < fields.len() && has_sub(fields[i].1, "ContractAddress"@)
}

/// The auxiliary display implementation for the address type.
pub open spec fn spec_contract_display_impl() -> Seq<char> {
    "\n        use starknet::ContractAddress;\n        impl ContractAddressDisplay of Display<ContractAddress> {\n            fn fmt(self: @ContractAddress, ref f: Formatter) -> Result<(), Error> {\n                let str: ByteArray = format!(\"0x{:x}\", *self);\n                f.buffer.append(@str);\n                Ok(())\n            }\n        }\n        "@
}

/// The distinct supported array element kinds among the fields from index
/// `i` on, given those already collected: a field of type `Array::<kind>`
/// contributes its kind once, at its first occurrence, when the kind is a
/// supported primitive.
pub open spec fn spec_array_inners_from(
    fields: Seq<(Seq<char>, Seq<char>)>,
    prims: Seq<Seq<char>>,
    i: int,
    acc: Seq<Seq<char>>,
) -> Seq<Seq<char>>
    decreases fields.len() - i,
{
    if i < 0 || i >= fields.len() {
        acc
    } else {
        let ty = fields[i].1;
        if starts_with_spec(ty, "Array::"@) && seq_contains_str(prims, ty.skip(7))
            && !seq_contains_str(acc, ty.skip(7)) {
            spec_array_inners_from(fields, prims, i + 1, acc.push(ty.skip(7)))
        } else {
            spec_array_inners_from(fields, prims, i + 1, acc)
        }
    }
}

pub open spec fn spec_array_inners(
    fields: Seq<(Seq<char>, Seq<char>)>,
    prims: Seq<Seq<char>>,
) -> Seq<Seq<char>> {
    spec_array_inners_from(fields, prims, 0, Seq::empty())
}

/// The element type spelling inside the emitted array implementation: the
/// base numeric literal type keeps its name, any other width needs the
/// namespaced spelling.
pub open spec fn spec_inner_extended(inner: Seq<char>) -> Seq<char> {
    if inner == "felt252"@ {
        inner
    } else {
        "integer::"@ + inner
    }
}

/// The auxiliary display implementation for one array element kind: it
/// renders the array as a parenthesized comma-joined sequence, built over
/// an index-driven loop.
pub open spec fn spec_array_display_impl(inner: Seq<char>) -> Seq<char> {
    let ext = spec_inner_extended(inner);
    "\n    impl DisplayArray"@ + inner + " of Display<core::array::Array::<core::"@ + ext
        + ">> {\n        fn fmt(self: @core::array::Array::<core::"@ + ext
        + ">, ref f: Formatter) -> Result<(), Error> {\n            let mut str: ByteArray = format!(\"Array(\");\n            let mut first = true;\n            let mut index = 0;\n            loop {\n                if index >= self.len() {\n                    break;\n                }\n                if !first {\n                    str = format!(\"{}, \", str);\n                } else {\n                    first = false;\n                }\n                str = format!(\"{}{}\", str, *self.at(index));\n                index += 1;\n            }\n            str = format!(\"{})\", str);\n            f.buffer.append(@str);\n            Ok(())\n        }\n    }\n    "@
}

/// The array implementations concatenated, one per collected kind.
pub open spec fn spec_array_display_impls(inners: Seq<Seq<char>>) -> Seq<char>
    decreases inners.len(),
{
    if inners.len() == 0 {
        Seq::empty()
    } else {
        spec_array_display_impls(inners.drop_last()) + spec_array_display_impl(inners.last())
    }
}

/// The opening of the emitted module: the display implementation for the
/// aggregate itself, interleaving each field's name and a placeholder in
/// declaration order, then the comma-joined accessors.
pub open spec fn spec_display_header(d: DescView) -> Seq<char> {
    let gp_text = spec_generic_params_text(d.generic_params);
    let fmt_string = join_spec(
        d.fields.map_values(|f: (Seq<char>, Seq<char>)| fmt_piece(f)),
        ", "@,
    );
    let accesses = join_spec(
        d.fields.map_values(|f: (Seq<char>, Seq<char>)| access_piece(f)),
        ", "@,
    );
    "\n        use "@ + d.name + "PrintMacro::"@ + d.name + "Display;\n        pub mod "@ + d.name
        + "PrintMacro {\n            use super::"@ + d.name
        + ";\n            use core::fmt::{Display, Formatter, Error};\n            pub impl "@
        + d.name + "Display of Display<"@ + d.name + gp_text + "> {\n                fn fmt(self: @"@
        + d.name + gp_text
        + ", ref f: Formatter) -> Result<(), Error> {\n                    let str: ByteArray = format!(\""@
        + d.name + "("@ + fmt_string + ")\", "@ + accesses
        + ");\n                    f.buffer.append(@str);\n                    Ok(())\n                }\n            }\n    "@
}

/// The full display module for a descriptor.
pub open spec fn spec_display_impl(d: DescView, prims: Seq<Seq<char>>) -> Seq<char> {
    spec_display_header(d) + (if spec_needs_contract_display(d.fields) {
        spec_contract_display_impl()
    } else {
        Seq::<char>::empty()
    }) + spec_array_display_impls(spec_array_inners(d.fields, prims)) + "\n}"@
}

/// Generates the display module text for an extracted descriptor, with
/// auxiliary implementations for each supported array element kind among
/// its fields.
pub fn generate_display_impl(s: &StructInfo, supported_primitives: &Vec<String>) -> (r: String)
    ensures
        r@ == spec_display_impl(struct_info_view(*s), supported_primitives.deep_view()),
{
    proof {
        reveal_strlit("Array::");
        reveal_strlit("felt252");
    }
    let ghost fv = struct_info_view(*s).fields;
    let ghost prims = supported_primitives.deep_view();
    let gp_text = generic_params_text(&s.generic_params);

    // The format template slots and the accessors, in declaration order.
    let mut fmt_pieces: Vec<String> = Vec::new();
    let mut access_pieces: Vec<String> = Vec::new();
    let mut i: usize = 0;
    let n = s.fields.len();
    assert(fmt_pieces.deep_view() =~= fv.take(0).map_values(
        |f: (Seq<char>, Seq<char>)| fmt_piece(f),
    ));
    assert(access_pieces.deep_view() =~= fv.take(0).map_values(
        |f: (Seq<char>, Seq<char>)| access_piece(f),
    ));
    while i < n
        invariant
            n == s.fields.len(),
            i <= n,
            fv == struct_info_view(*s).fields,
            fv.len() == n,
            fmt_pieces.deep_view() == fv.take(i as int).map_values(
                |f: (Seq<char>, Seq<char>)| fmt_piece(f),
            ),
            access_pieces.deep_view() == fv.take(i as int).map_values(
                |f: (Seq<char>, Seq<char>)| access_piece(f),
            ),
        decreases n - i,
    {
        let mut fp = String::new();
        fp.append(s.fields[i].name.as_str());
        assert(fp@ =~= s.fields[i as int].name@);
        fp.append(": {}");
        let mut ap = String::new();
        ap.append("self.");
        assert(ap@ =~= "self."@);
        ap.append(s.fields[i].name.as_str());
        proof {
            assert(fv[i as int] == (s.fields[i as int].name@, s.fields[i as int].field_type@));
            assert(fp@ == fmt_piece(fv[i as int]));
            assert(ap@ == access_piece(fv[i as int]));
            assert(fv.take(i as int + 1).map_values(|f: (Seq<char>, Seq<char>)| fmt_piece(f))
                =~= fv.take(i as int).map_values(|f: (Seq<char>, Seq<char>)| fmt_piece(f)).push(
                fmt_piece(fv[i as int]),
            ));
            assert(fv.take(i as int + 1).map_values(|f: (Seq<char>, Seq<char>)| access_piece(f))
                =~= fv.take(i as int).map_values(|f: (Seq<char>, Seq<char>)| access_piece(f)).push(
                access_piece(fv[i as int]),
            ));
        }
        fmt_pieces.push(fp);
        access_pieces.push(ap);
        i += 1;
    }
    assert(fv.take(n as int) =~= fv);
    let fmt_string = join_strings(&fmt_pieces, ", ");
    let accesses = join_strings(&access_pieces, ", ");

    let mut out = String::new();
    out.append("\n        use ");
    assert(out@ =~= "\n        use "@);
    out.append(s.name.as_str());
    out.append("PrintMacro::");
    out.append(s.name.as_str());
    out.append("Display;\n        pub mod ");
    out.append(s.name.as_str());
    out.append("PrintMacro {\n            use super::");
    out.append(s.name.as_str());
    out.append(
        ";\n            use core::fmt::{Display, Formatter, Error};\n            pub impl ",
    );
    out.append(s.name.as_str());
    out.append("Display of Display<");
    out.append(s.name.as_str());
    out.append(gp_text.as_str());
    out.append("> {\n                fn fmt(self: @");
    out.append(s.name.as_str());
    out.append(gp_text.as_str());
    out.append(
        ", ref f: Formatter) -> Result<(), Error> {\n                    let str: ByteArray = format!(\"",
    );
    out.append(s.name.as_str());
    out.append("(");
    out.append(fmt_string.as_str());
    out.append(")\", ");
    out.append(accesses.as_str());
    out.append(
        ");\n                    f.buffer.append(@str);\n                    Ok(())\n                }\n            }\n    ",
    );
    assert(out@ == spec_display_header(struct_info_view(*s)));

    // The address display implementation, only when some field needs it.
    let mut needs_contract = false;
    i = 0;
    while i < n
        invariant
            n == s.fields.len(),
            i <= n,
            fv == struct_info_view(*s).fields,
            fv.len() == n,
            needs_contract ==> spec_needs_contract_display(fv),
            !needs_contract ==> (forall|j: int|
                0 <= j < i ==> !has_sub(fv[j].1, "ContractAddress"@)),
        decreases n - i,
    {
        if !needs_contract {
            if str_contains(s.fields[i].field_type.as_str(), "ContractAddress") {
                proof {
                    assert(fv[i as int] == (
                        s.fields[i as int].name@,
                        s.fields[i as int].field_type@,
                    ));
                    assert(has_sub(fv[i as int].1, "ContractAddress"@));
                }
                needs_contract = true;
            }
        }
        i += 1;
    }
    if needs_contract {
        out.append(
            "\n        use starknet::ContractAddress;\n        impl ContractAddressDisplay of Display<ContractAddress> {\n            fn fmt(self: @ContractAddress, ref f: Formatter) -> Result<(), Error> {\n                let str: ByteArray = format!(\"0x{:x}\", *self);\n                f.buffer.append(@str);\n                Ok(())\n            }\n        }\n        ",
        );
    } else {
        assert(!spec_needs_contract_display(fv));
    }

    // One auxiliary implementation per distinct supported array element
    // kind, in first-occurrence order.
    let mut printed: Vec<String> = Vec::new();
    i = 0;
    assert(printed.deep_view() =~= Seq::<Seq<char>>::empty());
    while i < n
        invariant
            n == s.fields.len(),
            i <= n,
            fv == struct_info_view(*s).fields,
            fv.len() == n,
            prims == supported_primitives.deep_view(),
            spec_array_inners(fv, prims) == spec_array_inners_from(
                fv,
                prims,
                i as int,
                printed.deep_view(),
            ),
        decreases n - i,
    {
        proof {
            reveal_strlit("Array::");
            assert(fv[i as int] == (s.fields[i as int].name@, s.fields[i as int].field_type@));
        }
        let ty = &s.fields[i].field_type;
        if str_starts_with(ty.as_str(), "Array::") {
            let tyn = ty.as_str().unicode_len();
            let inner = ty.as_str().substring_char(7, tyn);
            assert(inner@ =~= fv[i as int].1.skip(7));
            if vec_contains_str(supported_primitives, inner) && !vec_contains_str(
                &printed,
                inner,
            ) {
                let ghost old_printed = printed.deep_view();
                printed.push(inner.to_owned());
                assert(printed.deep_view() =~= old_printed.push(fv[i as int].1.skip(7)));
            }
        }
        i += 1;
    }

    let m = printed.len();
    let ghost inners = spec_array_inners(fv, prims);
    assert(inners == printed.deep_view());
    let mut k: usize = 0;
    let ghost out_before = out@;
    assert(out@ =~= out_before + spec_array_display_impls(inners.take(0)));
    while k < m
        invariant
            m == printed.len(),
            k <= m,
            printed.deep_view() == inners,
            inners.len() == m,
            out@ == out_before + spec_array_display_impls(inners.take(k as int)),
        decreases m - k,
    {
        proof {
            reveal_strlit("felt252");
        }
        let inner = &printed[k];
        let mut ext = String::new();
        if str_eq(inner.as_str(), "felt252") {
            ext.append(inner.as_str());
            assert(ext@ =~= inner@);
        } else {
            ext.append("integer::");
            assert(ext@ =~= "integer::"@);
            ext.append(inner.as_str());
        }
        assert(ext@ == spec_inner_extended(inners[k as int]));
        let mut piece = String::new();
        piece.append("\n    impl DisplayArray");
        assert(piece@ =~= "\n    impl DisplayArray"@);
        piece.append(inner.as_str());
        piece.append(" of Display<core::array::Array::<core::");
        piece.append(ext.as_str());
        piece.append(
            ">> {\n        fn fmt(self: @core::array::Array::<core::",
        );
        piece.append(ext.as_str());
        piece.append(
            ">, ref f: Formatter) -> Result<(), Error> {\n            let mut str: ByteArray = format!(\"Array(\");\n            let mut first = true;\n            let mut index = 0;\n            loop {\n                if index >= self.len() {\n                    break;\n                }\n                if !first {\n                    str = format!(\"{}, \", str);\n                } else {\n                    first = false;\n                }\n                str = format!(\"{}{}\", str, *self.at(index));\n                index += 1;\n            }\n            str = format!(\"{})\", str);\n            f.buffer.append(@str);\n            Ok(())\n        }\n    }\n    ",
        );
        proof {
            assert(piece@ == spec_array_display_impl(inners[k as int]));
            assert(inners.take(k as int + 1).drop_last() =~= inners.take(k as int));
            assert(inners.take(k as int + 1).last() == inners[k as int]);
        }
        out.append(piece.as_str());
        k += 1;
    }
    assert(inners.take(m as int) =~= inners);
    out.append("\n}");
    out
}

/// The primitive scalar type names the display generator accepts.
pub open spec fn spec_supported_primitives() -> Seq<Seq<char>> {
    seq![
        "u8"@,
        "u16"@,
        "u32"@,
        "u64"@,
        "u128"@,
        "u256"@,
        "i8"@,
        "i16"@,
        "i32"@,
        "i64"@,
        "i128"@,
        "i256"@,
        "felt252"@,
        "bool"@,
    ]
}

fn supported_primitives_vec() -> (r: Vec<String>)
    ensures
        r.deep_view() == spec_supported_primitives(),
{
    let mut v: Vec<String> = Vec::new();
    v.push("u8".to_owned());
    v.push("u16".to_owned());
    v.push("u32".to_owned());
    v.push("u64".to_owned());
    v.push("u128".to_owned());
    v.push("u256".to_owned());
    v.push("i8".to_owned());
    v.push("i16".to_owned());
    v.push("i32".to_owned());
    v.push("i64".to_owned());
    v.push("i128".to_owned());
    v.push("i256".to_owned());
    v.push("felt252".to_owned());
    v.push("bool".to_owned());
    assert(v.deep_view() =~= spec_supported_primitives());
    v
}

/// A declared type the display whitelist accepts: a supported primitive,
/// the address type under either spelling, or an array of a supported
/// primitive under either spelling.
pub open spec fn spec_display_supported(ty: Seq<char>, prims: Seq<Seq<char>>) -> bool {
    ||| seq_contains_str(prims, ty)
    ||| ty == "ContractAddress"@
    ||| ty == "core::starknet::ContractAddress"@
    ||| (starts_with_spec(ty, "Array::"@) && seq_contains_str(prims, ty.skip(7)))
    ||| (starts_with_spec(ty, "core::array::Array::<"@) && ty.len() > 21 && ty.last() == '>' && {
        let inner = ty.subrange(21, ty.len() - 1);
        inner == "core::starknet::ContractAddress"@ || (starts_with_spec(
            inner,
            "core::integer::"@,
        ) && seq_contains_str(prims, inner.skip(15)))
    })
}

/// The declared types of the fields that fall outside the whitelist, in
/// declaration order, duplicates kept.
pub open spec fn spec_unsupported_types(
    fields: Seq<(Seq<char>, Seq<char>)>,
    prims: Seq<Seq<char>>,
) -> Seq<Seq<char>> {
    fields.map_values(|f: (Seq<char>, Seq<char>)| f.1).filter(
        |ty: Seq<char>| !spec_display_supported(ty, prims),
    )
}

fn display_supported(ty: &str, prims: &Vec<String>) -> (r: bool)
    ensures
        r == spec_display_supported(ty@, prims.deep_view()),
{
    proof {
        reveal_strlit("Array::");
        reveal_strlit("core::array::Array::<");
        reveal_strlit("core::integer::");
    }
    if vec_contains_str(prims, ty) {
        return true;
    }
    if str_eq(ty, "ContractAddress") || str_eq(ty, "core::starknet::ContractAddress") {
        return true;
    }
    let n = ty.unicode_len();
    if str_starts_with(ty, "Array::") {
        let inner = ty.substring_char(7, n);
        assert(inner@ =~= ty@.skip(7));
        if vec_contains_str(prims, inner) {
            return true;
        }
    }
    if str_starts_with(ty, "core::array::Array::<") && n > 21 && ty.get_char(n - 1) == '>' {
        let inner = ty.substring_char(21, n - 1);
        assert(inner@ =~= ty@.subrange(21, ty@.len() - 1));
        if str_eq(inner, "core::starknet::ContractAddress") {
            return true;
        }
        if str_starts_with(inner, "core::integer::") {
            let deeper = inner.substring_char(15, n - 1 - 21);
            assert(deeper@ =~= inner@.skip(15));
            if vec_contains_str(prims, deeper) {
                return true;
            }
        }
    }
    false
}

/// The display derivation: when every field's type is on the whitelist,
/// emits the display module; otherwise emits no source and one diagnostic
/// listing every offending type together.
pub fn print_struct(nodes: &Vec<Node>) -> (r: MacroOutput)
    requires
        wf_decl(nodes@),
    ensures
        ({
            let uns = spec_unsupported_types(decl_view(nodes@).fields, spec_supported_primitives());
            &&& uns.len() == 0 ==> r.content@ == spec_display_impl(
                decl_view(nodes@),
                spec_supported_primitives(),
            ) && r.diagnostics@.len() == 0
            &&& uns.len() > 0 ==> r.content@.len() == 0 && r.diagnostics.deep_view() == seq![
                "PrintStruct does not support the following field types: "@ + join_spec(
                    uns,
                    ", "@,
                ),
            ]
        }),
{
    let s = parse_struct_info(nodes);
    let prims = supported_primitives_vec();
    let ghost fv = struct_info_view(s).fields;
    let ghost uns = spec_unsupported_types(fv, prims.deep_view());

    let mut unsupported: Vec<String> = Vec::new();
    let mut i: usize = 0;
    let n = s.fields.len();
    proof {
        reveal(Seq::filter);
        assert(fv.take(0).map_values(|f: (Seq<char>, Seq<char>)| f.1) =~= Seq::<
            Seq<char>,
        >::empty());
        assert(unsupported.deep_view() =~= spec_unsupported_types(fv.take(0), prims.deep_view()));
    }
    while i < n
        invariant
            n == s.fields.len(),
            i <= n,
            fv == struct_info_view(s).fields,
            fv.len() == n,
            prims.deep_view() == spec_supported_primitives(),
            unsupported.deep_view() == spec_unsupported_types(fv.take(i as int), prims.deep_view()),
        decreases n - i,
    {
        let ok = display_supported(s.fields[i].field_type.as_str(), &prims);
        proof {
            reveal(Seq::filter);
            assert(fv[i as int] == (s.fields[i as int].name@, s.fields[i as int].field_type@));
            let tys = fv.take(i as int + 1).map_values(|f: (Seq<char>, Seq<char>)| f.1);
            assert(tys.drop_last() =~= fv.take(i as int).map_values(
                |f: (Seq<char>, Seq<char>)| f.1,
            ));
            assert(tys.last() == fv[i as int].1);
        }
        if !ok {
            unsupported.push(s.fields[i].field_type.clone());
        }
        i += 1;
    }
    assert(fv.take(n as int) =~= fv);

    if unsupported.len() > 0 {
        let joined = join_strings(&unsupported, ", ");
        let mut msg = String::new();
        msg.append("PrintStruct does not support the following field types: ");
        assert(msg@ =~= "PrintStruct does not support the following field types: "@);
        msg.append(joined.as_str());
        let mut diagnostics: Vec<String> = Vec::new();
        diagnostics.push(msg);
        assert(diagnostics.deep_view() =~= Seq::<Seq<char>>::empty().push(diagnostics[0]@));
        assert(uns.len() > 0) by {
            assert(unsupported.deep_view().len() > 0);
        }
        MacroOutput { content: String::new(), diagnostics }
    } else {
        assert(uns.len() == 0) by {
            assert(unsupported.deep_view().len() == 0);
        }
        let content = generate_display_impl(&s, &prims);
        MacroOutput { content, diagnostics: Vec::new() }
    }
}

} // verus!
