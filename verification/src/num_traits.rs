//! Member-wise arithmetic operator derivation: one trait implementation per
//! operator, applying the operator field by field in declaration order, and
//! the compound-assign variants that mutate each field in place.

use vstd::prelude::*;

use crate::parse::{
    decl_view, generic_params_text, gp_list, gp_view, parse_struct_info, spec_generic_params_text,
    struct_info_view, wf_decl, DescView, Node, StructInfo,
};
use crate::text::{join_spec, join_strings};

verus! {

/// One derivable operator: the trait it implements, the method that trait
/// requires, and the operator symbol the generated body applies.
pub struct OpInfo {
    pub trait_name: String,
    pub fn_name: String,
    pub operator: String,
}

/// The mathematical content of an [`OpInfo`].
pub ghost struct OpView {
    pub trait_name: Seq<char>,
    pub fn_name: Seq<char>,
    pub operator: Seq<char>,
}

pub open spec fn op_view(op: OpInfo) -> OpView {
    OpView { trait_name: op.trait_name@, fn_name: op.fn_name@, operator: op.operator@ }
}

pub open spec fn add_op() -> OpView {
    OpView { trait_name: "Add"@, fn_name: "add"@, operator: "+"@ }
}

pub open spec fn sub_op() -> OpView {
    OpView { trait_name: "Sub"@, fn_name: "sub"@, operator: "-"@ }
}

pub open spec fn mul_op() -> OpView {
    OpView { trait_name: "Mul"@, fn_name: "mul"@, operator: "*"@ }
}

pub open spec fn div_op() -> OpView {
    OpView { trait_name: "Div"@, fn_name: "div"@, operator: "/"@ }
}

/// The two bounds one generic parameter carries in an operator
/// implementation: the parameter supports the operator itself, and it can be
/// dropped; joined as consecutive lines of the bound clause.
pub open spec fn op_bound_pair(p: Seq<char>, trait_name: Seq<char>) -> Seq<char> {
    "+core::traits::"@ + trait_name + "<"@ + p + ">,\n+core::traits::Drop<"@ + p + ">"@
}

/// As `op_bound_pair`, for a compound-assign implementation.
pub open spec fn op_assign_bound_pair(p: Seq<char>, trait_name: Seq<char>) -> Seq<char> {
    "+core::ops::"@ + trait_name + "Assign<"@ + p + ", "@ + p + ">,\n+core::traits::Drop<"@ + p
        + ">"@
}

/// The bound clause `<params, bounds>`: two bounds per generic parameter,
/// one pair per line; empty when there is no generic parameter.
pub open spec fn spec_op_bounds_text(gp: Option<Seq<Seq<char>>>, trait_name: Seq<char>) -> Seq<
    char,
> {
    let ps = gp_list(gp);
    if ps.len() == 0 {
        Seq::empty()
    } else {
        "<"@ + join_spec(ps, ", "@) + ",\n"@ + join_spec(
            ps.map_values(|p: Seq<char>| op_bound_pair(p, trait_name)),
            ",\n"@,
        ) + ">"@
    }
}

/// As `spec_op_bounds_text`, for a compound-assign implementation.
pub open spec fn spec_op_assign_bounds_text(
    gp: Option<Seq<Seq<char>>>,
    trait_name: Seq<char>,
) -> Seq<char> {
    let ps = gp_list(gp);
    if ps.len() == 0 {
        Seq::empty()
    } else {
        "<"@ + join_spec(ps, ", "@) + ",\n"@ + join_spec(
            ps.map_values(|p: Seq<char>| op_assign_bound_pair(p, trait_name)),
            ",\n"@,
        ) + ">"@
    }
}

/// One field's slot in the generated constructor call:
/// `name: lhs.name <op> rhs.name`.
pub open spec fn op_member_piece(f: (Seq<char>, Seq<char>), operator: Seq<char>) -> Seq<char> {
    f.0 + ": lhs."@ + f.0 + " "@ + operator + " rhs."@ + f.0
}

/// One field's statement in the generated compound-assign body:
/// `self.name <op>= rhs.name`.
pub open spec fn op_assign_member_piece(f: (Seq<char>, Seq<char>), operator: Seq<char>) -> Seq<
    char,
> {
    "self."@ + f.0 + " "@ + operator + "= rhs."@ + f.0
}

/// The full operator implementation for a descriptor: the result is built by
/// one constructor call whose slots apply the operator to each field of both
/// operands, in declaration order.
pub open spec fn spec_op_trait_impl(op: OpView, d: DescView) -> Seq<char> {
    let gp_text = spec_generic_params_text(d.generic_params);
    let bounds = spec_op_bounds_text(d.generic_params, op.trait_name);
    let members = join_spec(
        d.fields.map_values(|f: (Seq<char>, Seq<char>)| op_member_piece(f, op.operator)),
        ", "@,
    );
    "\n\nimpl "@ + d.name + op.trait_name + bounds + "\nof core::traits::"@ + op.trait_name + "<"@
        + d.name + gp_text + "> {\n    fn "@ + op.fn_name + "(lhs: "@ + d.name + gp_text
        + ", rhs: "@ + d.name + gp_text + ") -> "@ + d.name + gp_text + " {\n        "@ + d.name
        + " { "@ + members + " }\n    }\n}\n"@
}

/// The full compound-assign implementation for a descriptor: the body
/// applies `<op>=` to each field of `self`, in declaration order.
pub open spec fn spec_op_assign_trait_impl(op: OpView, d: DescView) -> Seq<char> {
    let gp_text = spec_generic_params_text(d.generic_params);
    let bounds = spec_op_assign_bounds_text(d.generic_params, op.trait_name);
    let members = join_spec(
        d.fields.map_values(|f: (Seq<char>, Seq<char>)| op_assign_member_piece(f, op.operator)),
        ";\n        "@,
    );
    "\n\nimpl "@ + d.name + op.trait_name + "Assign"@ + bounds + "\nof core::ops::"@
        + op.trait_name + "Assign<"@ + d.name + gp_text + ", "@ + d.name + gp_text
        + "> {\n    fn "@ + op.fn_name + "_assign(ref self: "@ + d.name + gp_text + ", rhs: "@
        + d.name + gp_text + ") {\n        "@ + members + ";\n    }\n}\n"@
}

fn op_bounds_text(gp: &Option<Vec<String>>, trait_name: &str, assign: bool) -> (r: String)
    ensures
        !assign ==> r@ == spec_op_bounds_text(gp_view(*gp), trait_name@),
        assign ==> r@ == spec_op_assign_bounds_text(gp_view(*gp), trait_name@),
{
    match gp {
        None => String::new(),
        Some(ps) => {
            if ps.len() == 0 {
                String::new()
            } else {
                let ghost psv = ps.deep_view();
                let mut pieces: Vec<String> = Vec::new();
                let mut i: usize = 0;
                let n = ps.len();
                assert(pieces.deep_view() =~= psv.take(0).map_values(
                    |p: Seq<char>| op_bound_pair(p, trait_name@),
                ));
                assert(pieces.deep_view() =~= psv.take(0).map_values(
                    |p: Seq<char>| op_assign_bound_pair(p, trait_name@),
                ));
                while i < n
                    invariant
                        n == ps.len(),
                        i <= n,
                        psv == ps.deep_view(),
                        !assign ==> pieces.deep_view() == psv.take(i as int).map_values(
                            |p: Seq<char>| op_bound_pair(p, trait_name@),
                        ),
                        assign ==> pieces.deep_view() == psv.take(i as int).map_values(
                            |p: Seq<char>| op_assign_bound_pair(p, trait_name@),
                        ),
                    decreases n - i,
                {
                    let mut piece = String::new();
                    if assign {
                        piece.append("+core::ops::");
                        assert(piece@ =~= "+core::ops::"@);
                        piece.append(trait_name);
                        piece.append("Assign<");
                        piece.append(ps[i].as_str());
                        piece.append(", ");
                        piece.append(ps[i].as_str());
                        piece.append(">,\n+core::traits::Drop<");
                        piece.append(ps[i].as_str());
                        piece.append(">");
                        assert(piece@ == op_assign_bound_pair(psv[i as int], trait_name@));
                    } else {
                        piece.append("+core::traits::");
                        assert(piece@ =~= "+core::traits::"@);
                        piece.append(trait_name);
                        piece.append("<");
                        piece.append(ps[i].as_str());
                        piece.append(">,\n+core::traits::Drop<");
                        piece.append(ps[i].as_str());
                        piece.append(">");
                        assert(piece@ == op_bound_pair(psv[i as int], trait_name@));
                    }
                    proof {
                        assert(psv.take(i as int + 1).map_values(
                            |p: Seq<char>| op_bound_pair(p, trait_name@),
                        ) =~= psv.take(i as int).map_values(
                            |p: Seq<char>| op_bound_pair(p, trait_name@),
                        ).push(op_bound_pair(psv[i as int], trait_name@)));
                        assert(psv.take(i as int + 1).map_values(
                            |p: Seq<char>| op_assign_bound_pair(p, trait_name@),
                        ) =~= psv.take(i as int).map_values(
                            |p: Seq<char>| op_assign_bound_pair(p, trait_name@),
                        ).push(op_assign_bound_pair(psv[i as int], trait_name@)));
                    }
                    pieces.push(piece);
                    i += 1;
                }
                assert(psv.take(n as int) =~= psv);
                let bounds = join_strings(&pieces, ",\n");
                let params_joined = join_strings(ps, ", ");
                let mut out = String::new();
                out.append("<");
                assert(out@ =~= "<"@);
                out.append(params_joined.as_str());
                out.append(",\n");
                out.append(bounds.as_str());
                out.append(">");
                out
            }
        },
    }
}

/// Generates the operator implementation text for an extracted descriptor.
pub fn generate_op_trait_impl(op_info: &OpInfo, s: &StructInfo) -> (r: String)
    ensures
        r@ == spec_op_trait_impl(op_view(*op_info), struct_info_view(*s)),
{
    let gp_text = generic_params_text(&s.generic_params);
    let bounds = op_bounds_text(&s.generic_params, op_info.trait_name.as_str(), false);
    let ghost fv = struct_info_view(*s).fields;
    let mut pieces: Vec<String> = Vec::new();
    let mut i: usize = 0;
    let n = s.fields.len();
    assert(pieces.deep_view() =~= fv.take(0).map_values(
        |f: (Seq<char>, Seq<char>)| op_member_piece(f, op_info.operator@),
    ));
    while i < n
        invariant
            n == s.fields.len(),
            i <= n,
            fv == struct_info_view(*s).fields,
            fv.len() == n,
            pieces.deep_view() == fv.take(i as int).map_values(
                |f: (Seq<char>, Seq<char>)| op_member_piece(f, op_info.operator@),
            ),
        decreases n - i,
    {
        let mut piece = String::new();
        piece.append(s.fields[i].name.as_str());
        assert(piece@ =~= s.fields[i as int].name@);
        piece.append(": lhs.");
        piece.append(s.fields[i].name.as_str());
        piece.append(" ");
        piece.append(op_info.operator.as_str());
        piece.append(" rhs.");
        piece.append(s.fields[i].name.as_str());
        proof {
            assert(fv[i as int] == (s.fields[i as int].name@, s.fields[i as int].field_type@));
            assert(piece@ == op_member_piece(fv[i as int], op_info.operator@));
            assert(fv.take(i as int + 1).map_values(
                |f: (Seq<char>, Seq<char>)| op_member_piece(f, op_info.operator@),
            ) =~= fv.take(i as int).map_values(
                |f: (Seq<char>, Seq<char>)| op_member_piece(f, op_info.operator@),
            ).push(op_member_piece(fv[i as int], op_info.operator@)));
        }
        pieces.push(piece);
        i += 1;
    }
    assert(fv.take(n as int) =~= fv);
    let members = join_strings(&pieces, ", ");

    let mut out = String::new();
    out.append("\n\nimpl ");
    assert(out@ =~= "\n\nimpl "@);
    out.append(s.name.as_str());
    out.append(op_info.trait_name.as_str());
    out.append(bounds.as_str());
    out.append("\nof core::traits::");
    out.append(op_info.trait_name.as_str());
    out.append("<");
    out.append(s.name.as_str());
    out.append(gp_text.as_str());
    out.append("> {\n    fn ");
    out.append(op_info.fn_name.as_str());
    out.append("(lhs: ");
    out.append(s.name.as_str());
    out.append(gp_text.as_str());
    out.append(", rhs: ");
    out.append(s.name.as_str());
    out.append(gp_text.as_str());
    out.append(") -> ");
    out.append(s.name.as_str());
    out.append(gp_text.as_str());
    out.append(" {\n        ");
    out.append(s.name.as_str());
    out.append(" { ");
    out.append(members.as_str());
    out.append(" }\n    }\n}\n");
    out
}

/// Generates the compound-assign implementation text for an extracted
/// descriptor.
pub fn generate_op_assign_trait_impl(op_info: &OpInfo, s: &StructInfo) -> (r: String)
    ensures
        r@ == spec_op_assign_trait_impl(op_view(*op_info), struct_info_view(*s)),
{
    let gp_text = generic_params_text(&s.generic_params);
    let bounds = op_bounds_text(&s.generic_params, op_info.trait_name.as_str(), true);
    let ghost fv = struct_info_view(*s).fields;
    let mut pieces: Vec<String> = Vec::new();
    let mut i: usize = 0;
    let n = s.fields.len();
    assert(pieces.deep_view() =~= fv.take(0).map_values(
        |f: (Seq<char>, Seq<char>)| op_assign_member_piece(f, op_info.operator@),
    ));
    while i < n
        invariant
            n == s.fields.len(),
            i <= n,
            fv == struct_info_view(*s).fields,
            fv.len() == n,
            pieces.deep_view() == fv.take(i as int).map_values(
                |f: (Seq<char>, Seq<char>)| op_assign_member_piece(f, op_info.operator@),
            ),
        decreases n - i,
    {
        let mut piece = String::new();
        piece.append("self.");
        assert(piece@ =~= "self."@);
        piece.append(s.fields[i].name.as_str());
        piece.append(" ");
        piece.append(op_info.operator.as_str());
        piece.append("= rhs.");
        piece.append(s.fields[i].name.as_str());
        proof {
            assert(fv[i as int] == (s.fields[i as int].name@, s.fields[i as int].field_type@));
            assert(piece@ == op_assign_member_piece(fv[i as int], op_info.operator@));
            assert(fv.take(i as int + 1).map_values(
                |f: (Seq<char>, Seq<char>)| op_assign_member_piece(f, op_info.operator@),
            ) =~= fv.take(i as int).map_values(
                |f: (Seq<char>, Seq<char>)| op_assign_member_piece(f, op_info.operator@),
            ).push(op_assign_member_piece(fv[i as int], op_info.operator@)));
        }
        pieces.push(piece);
        i += 1;
    }
    assert(fv.take(n as int) =~= fv);
    let members = join_strings(&pieces, ";\n        ");

    let mut out = String::new();
    out.append("\n\nimpl ");
    assert(out@ =~= "\n\nimpl "@);
    out.append(s.name.as_str());
    out.append(op_info.trait_name.as_str());
    out.append("Assign");
    out.append(bounds.as_str());
    out.append("\nof core::ops::");
    out.append(op_info.trait_name.as_str());
    out.append("Assign<");
    out.append(s.name.as_str());
    out.append(gp_text.as_str());
    out.append(", ");
    out.append(s.name.as_str());
    out.append(gp_text.as_str());
    out.append("> {\n    fn ");
    out.append(op_info.fn_name.as_str());
    out.append("_assign(ref self: ");
    out.append(s.name.as_str());
    out.append(gp_text.as_str());
    out.append(", rhs: ");
    out.append(s.name.as_str());
    out.append(gp_text.as_str());
    out.append(") {\n        ");
    out.append(members.as_str());
    out.append(";\n    }\n}\n");
    out
}

/// Derives the member-wise `Add` implementation for a declaration.
pub fn add(nodes: &Vec<Node>) -> (r: String)
    requires
        wf_decl(nodes@),
    ensures
        r@ == spec_op_trait_impl(add_op(), decl_view(nodes@)),
{
    let op = OpInfo {
        trait_name: "Add".to_owned(),
        fn_name: "add".to_owned(),
        operator: "+".to_owned(),
    };
    let s = parse_struct_info(nodes);
    generate_op_trait_impl(&op, &s)
}

/// Derives the member-wise `Sub` implementation for a declaration.
pub fn sub(nodes: &Vec<Node>) -> (r: String)
    requires
        wf_decl(nodes@),
    ensures
        r@ == spec_op_trait_impl(sub_op(), decl_view(nodes@)),
{
    let op = OpInfo {
        trait_name: "Sub".to_owned(),
        fn_name: "sub".to_owned(),
        operator: "-".to_owned(),
    };
    let s = parse_struct_info(nodes);
    generate_op_trait_impl(&op, &s)
}

/// Derives the member-wise `Mul` implementation for a declaration.
pub fn mul(nodes: &Vec<Node>) -> (r: String)
    requires
        wf_decl(nodes@),
    ensures
        r@ == spec_op_trait_impl(mul_op(), decl_view(nodes@)),
{
    let op = OpInfo {
        trait_name: "Mul".to_owned(),
        fn_name: "mul".to_owned(),
        operator: "*".to_owned(),
    };
    let s = parse_struct_info(nodes);
    generate_op_trait_impl(&op, &s)
}

/// Derives the member-wise `Div` implementation for a declaration.
pub fn div(nodes: &Vec<Node>) -> (r: String)
    requires
        wf_decl(nodes@),
    ensures
        r@ == spec_op_trait_impl(div_op(), decl_view(nodes@)),
{
    let op = OpInfo {
        trait_name: "Div".to_owned(),
        fn_name: "div".to_owned(),
        operator: "/".to_owned(),
    };
    let s = parse_struct_info(nodes);
    generate_op_trait_impl(&op, &s)
}

/// Derives the member-wise `AddAssign` implementation for a declaration.
pub fn add_assign(nodes: &Vec<Node>) -> (r: String)
    requires
        wf_decl(nodes@),
    ensures
        r@ == spec_op_assign_trait_impl(add_op(), decl_view(nodes@)),
{
    let op = OpInfo {
        trait_name: "Add".to_owned(),
        fn_name: "add".to_owned(),
        operator: "+".to_owned(),
    };
    let s = parse_struct_info(nodes);
    generate_op_assign_trait_impl(&op, &s)
}

/// Derives the member-wise `SubAssign` implementation for a declaration.
pub fn sub_assign(nodes: &Vec<Node>) -> (r: String)
    requires
        wf_decl(nodes@),
    ensures
        r@ == spec_op_assign_trait_impl(sub_op(), decl_view(nodes@)),
{
    let op = OpInfo {
        trait_name: "Sub".to_owned(),
        fn_name: "sub".to_owned(),
        operator: "-".to_owned(),
    };
    let s = parse_struct_info(nodes);
    generate_op_assign_trait_impl(&op, &s)
}

/// Derives the member-wise `MulAssign` implementation for a declaration.
pub fn mul_assign(nodes: &Vec<Node>) -> (r: String)
    requires
        wf_decl(nodes@),
    ensures
        r@ == spec_op_assign_trait_impl(mul_op(), decl_view(nodes@)),
{
    let op = OpInfo {
        trait_name: "Mul".to_owned(),
        fn_name: "mul".to_owned(),
        operator: "*".to_owned(),
    };
    let s = parse_struct_info(nodes);
    generate_op_assign_trait_impl(&op, &s)
}

/// Derives the member-wise `DivAssign` implementation for a declaration.
pub fn div_assign(nodes: &Vec<Node>) -> (r: String)
    requires
        wf_decl(nodes@),
    ensures
        r@ == spec_op_assign_trait_impl(div_op(), decl_view(nodes@)),
{
    let op = OpInfo {
        trait_name: "Div".to_owned(),
        fn_name: "div".to_owned(),
        operator: "/".to_owned(),
    };
    let s = parse_struct_info(nodes);
    generate_op_assign_trait_impl(&op, &s)
}

} // verus!
