//! Zero-identity derivation: `zero()` builds the aggregate from each field
//! type's own zero, `is_zero()` is the conjunction of the per-field zero
//! tests in declaration order, and `is_non_zero()` is its negation.

use vstd::prelude::*;

use crate::parse::{
    decl_view, generic_params_text, gp_list, gp_view, parse_struct_info, spec_generic_params_text,
    struct_info_view, wf_decl, DescView, Node, StructInfo,
};
use crate::text::{join_spec, join_strings};

verus! {

/// The two bounds one generic parameter carries: the parameter has a zero
/// identity of its own, and it can be dropped.
pub open spec fn zero_bound_pair(p: Seq<char>) -> Seq<char> {
    "+core::num::traits::Zero<"@ + p + ">,\n+core::traits::Drop<"@ + p + ">"@
}

/// The bound clause `<params, bounds>`, empty when there is no generic
/// parameter.
pub open spec fn spec_zero_bounds_text(gp: Option<Seq<Seq<char>>>) -> Seq<char> {
    let ps = gp_list(gp);
    if ps.len() == 0 {
        Seq::empty()
    } else {
        "<"@ + join_spec(ps, ", "@) + ",\n"@ + join_spec(
            ps.map_values(|p: Seq<char>| zero_bound_pair(p)),
            ",\n"@,
        ) + ">"@
    }
}

/// One field's slot in the generated `zero()` constructor call.
pub open spec fn zero_member_piece(f: (Seq<char>, Seq<char>)) -> Seq<char> {
    f.0 + ": core::num::traits::Zero::zero()"@
}

/// One field's conjunct in the generated `is_zero()` body.
pub open spec fn is_zero_member_piece(f: (Seq<char>, Seq<char>)) -> Seq<char> {
    "self."@ + f.0 + ".is_zero()"@
}

/// The full zero-identity implementation for a descriptor.
pub open spec fn spec_zero_trait_impl(d: DescView) -> Seq<char> {
    let gp_text = spec_generic_params_text(d.generic_params);
    let bounds = spec_zero_bounds_text(d.generic_params);
    let zero_fn = join_spec(
        d.fields.map_values(|f: (Seq<char>, Seq<char>)| zero_member_piece(f)),
        ", "@,
    );
    let is_zero_fn = join_spec(
        d.fields.map_values(|f: (Seq<char>, Seq<char>)| is_zero_member_piece(f)),
        " && "@,
    );
    "\n\nimpl "@ + d.name + "ZeroImpl"@ + bounds + "\nof core::num::traits::Zero<"@ + d.name
        + gp_text + "> {\n    fn zero() -> "@ + d.name + gp_text + " {\n        "@ + d.name
        + " { "@ + zero_fn + " }\n    }\n\n    fn is_zero(self: @"@ + d.name + gp_text
        + ") -> bool {\n        "@ + is_zero_fn
        + "\n    }\n\n    fn is_non_zero(self: @"@ + d.name + gp_text
        + ") -> bool {\n        !self.is_zero()\n    }\n}\n"@
}

fn zero_bounds_text(gp: &Option<Vec<String>>) -> (r: String)
    ensures
        r@ == spec_zero_bounds_text(gp_view(*gp)),
{
    match gp {
        None => String::new(),
        Some(ps) => {
            if ps.len() == 0 {
                String::new()
            } else {
                let ghost psv = ps.deep_view();
                let mut pieces: Vec<String> = Vec::new();
                let mut i: usize = 0;
                let n = ps.len();
                assert(pieces.deep_view() =~= psv.take(0).map_values(
                    |p: Seq<char>| zero_bound_pair(p),
                ));
                while i < n
                    invariant
                        n == ps.len(),
                        i <= n,
                        psv == ps.deep_view(),
                        pieces.deep_view() == psv.take(i as int).map_values(
                            |p: Seq<char>| zero_bound_pair(p),
                        ),
                    decreases n - i,
                {
                    let mut piece = String::new();
                    piece.append("+core::num::traits::Zero<");
                    assert(piece@ =~= "+core::num::traits::Zero<"@);
                    piece.append(ps[i].as_str());
                    piece.append(">,\n+core::traits::Drop<");
                    piece.append(ps[i].as_str());
                    piece.append(">");
                    proof {
                        assert(piece@ == zero_bound_pair(psv[i as int]));
                        assert(psv.take(i as int + 1).map_values(
                            |p: Seq<char>| zero_bound_pair(p),
                        ) =~= psv.take(i as int).map_values(|p: Seq<char>| zero_bound_pair(p)).push(
                            zero_bound_pair(psv[i as int]),
                        ));
                    }
                    pieces.push(piece);
                    i += 1;
                }
                assert(psv.take(n as int) =~= psv);
                let bounds = join_strings(&pieces, ",\n");
                let params_joined = join_strings(ps, ", ");
                let mut out = String::new();
                out.append("<");
                assert(out@ =~= "<"@);
                out.append(params_joined.as_str());
                out.append(",\n");
                out.append(bounds.as_str());
                out.append(">");
                out
            }
        },
    }
}

/// Generates the zero-identity implementation text for an extracted
/// descriptor.
pub fn generate_zero_trait_impl(s: &StructInfo) -> (r: String)
    ensures
        r@ == spec_zero_trait_impl(struct_info_view(*s)),
{
    let gp_text = generic_params_text(&s.generic_params);
    let bounds = zero_bounds_text(&s.generic_params);
    let ghost fv = struct_info_view(*s).fields;

    let mut zero_pieces: Vec<String> = Vec::new();
    let mut is_zero_pieces: Vec<String> = Vec::new();
    let mut i: usize = 0;
    let n = s.fields.len();
    assert(zero_pieces.deep_view() =~= fv.take(0).map_values(
        |f: (Seq<char>, Seq<char>)| zero_member_piece(f),
    ));
    assert(is_zero_pieces.deep_view() =~= fv.take(0).map_values(
        |f: (Seq<char>, Seq<char>)| is_zero_member_piece(f),
    ));
    while i < n
        invariant
            n == s.fields.len(),
            i <= n,
            fv == struct_info_view(*s).fields,
            fv.len() == n,
            zero_pieces.deep_view() == fv.take(i as int).map_values(
                |f: (Seq<char>, Seq<char>)| zero_member_piece(f),
            ),
            is_zero_pieces.deep_view() == fv.take(i as int).map_values(
                |f: (Seq<char>, Seq<char>)| is_zero_member_piece(f),
            ),
        decreases n - i,
    {
        let mut zp = String::new();
        zp.append(s.fields[i].name.as_str());
        assert(zp@ =~= s.fields[i as int].name@);
        zp.append(": core::num::traits::Zero::zero()");
        let mut izp = String::new();
        izp.append("self.");
        assert(izp@ =~= "self."@);
        izp.append(s.fields[i].name.as_str());
        izp.append(".is_zero()");
        proof {
            assert(fv[i as int] == (s.fields[i as int].name@, s.fields[i as int].field_type@));
            assert(zp@ == zero_member_piece(fv[i as int]));
            assert(izp@ == is_zero_member_piece(fv[i as int]));
            assert(fv.take(i as int + 1).map_values(
                |f: (Seq<char>, Seq<char>)| zero_member_piece(f),
            ) =~= fv.take(i as int).map_values(
                |f: (Seq<char>, Seq<char>)| zero_member_piece(f),
            ).push(zero_member_piece(fv[i as int])));
            assert(fv.take(i as int + 1).map_values(
                |f: (Seq<char>, Seq<char>)| is_zero_member_piece(f),
            ) =~= fv.take(i as int).map_values(
                |f: (Seq<char>, Seq<char>)| is_zero_member_piece(f),
            ).push(is_zero_member_piece(fv[i as int])));
        }
        zero_pieces.push(zp);
        is_zero_pieces.push(izp);
        i += 1;
    }
    assert(fv.take(n as int) =~= fv);
    let zero_fn = join_strings(&zero_pieces, ", ");
    let is_zero_fn = join_strings(&is_zero_pieces, " && ");

    let mut out = String::new();
    out.append("\n\nimpl ");
    assert(out@ =~= "\n\nimpl "@);
    out.append(s.name.as_str());
    out.append("ZeroImpl");
    out.append(bounds.as_str());
    out.append("\nof core::num::traits::Zero<");
    out.append(s.name.as_str());
    out.append(gp_text.as_str());
    out.append("> {\n    fn zero() -> ");
    out.append(s.name.as_str());
    out.append(gp_text.as_str());
    out.append(" {\n        ");
    out.append(s.name.as_str());
    out.append(" { ");
    out.append(zero_fn.as_str());
    out.append(" }\n    }\n\n    fn is_zero(self: @");
    out.append(s.name.as_str());
    out.append(gp_text.as_str());
    out.append(") -> bool {\n        ");
    out.append(is_zero_fn.as_str());
    out.append("\n    }\n\n    fn is_non_zero(self: @");
    out.append(s.name.as_str());
    out.append(gp_text.as_str());
    out.append(") -> bool {\n        !self.is_zero()\n    }\n}\n");
    out
}

/// Derives the zero-identity implementation for a declaration.
pub fn zero(nodes: &Vec<Node>) -> (r: String)
    requires
        wf_decl(nodes@),
    ensures
        r@ == spec_zero_trait_impl(decl_view(nodes@)),
{
    let s = parse_struct_info(nodes);
    generate_zero_trait_impl(&s)
}

/// The value of the conjunction the generated `is_zero()` body evaluates:
/// each element of `checks` is one field's own zero test.
pub open spec fn conj(checks: Seq<bool>) -> bool {
    forall|i: int| 0 <= i < checks.len() ==> checks[i]
}

/// Zero-identity law, field-wise composition: when every field type's own
/// `zero`/`is_zero` pair is self-consistent — each field of the generated
/// `zero()` passes its own zero test — the generated `is_zero()` accepts the
/// generated `zero()`, since it is exactly the conjunction of those tests.
pub proof fn lemma_zero_is_zero(checks: Seq<bool>)
    requires
        forall|i: int| 0 <= i < checks.len() ==> checks[i],
    ensures
        conj(checks),
{
}

/// Zero-identity law, negative direction: when any field fails its zero
/// test, the conjunction is false, so the generated `is_non_zero()` — its
/// negation — holds.
pub proof fn lemma_non_zero_field_makes_non_zero(checks: Seq<bool>, i: int)
    requires
        0 <= i < checks.len(),
        !checks[i],
    ensures
        !conj(checks),
{
}

} // verus!
