//! Declaration descriptor extraction.
//!
//! A parsed declaration reaches the library as a minimal typed parse tree:
//! the preorder walk of the host parser's syntax tree, flattened into a
//! vector of [`Node`]s. Each node carries its category, its source text and
//! the number of entries its subtree occupies after it, so a subtree is the
//! contiguous range `i + 1 .. i + 1 + subtree_size`. One forward scan over
//! this walk recovers the declaration's name, its generic parameters and its
//! fields, in declaration order.

use vstd::prelude::*;

use crate::text::{join_spec, join_strings};

verus! {

/// The closed set of node categories the extractor distinguishes; every
/// other node of the host tree maps to `Other`.
#[derive(Clone, Copy, PartialEq, Eq, Structural, Debug)]
pub enum NodeKind {
    /// The declaration keyword of a record type.
    DeclKeyword,
    /// An identifier token.
    Ident,
    /// A written generic-parameter list subtree.
    GenericParamList,
    /// The marker that stands where a generic-parameter list could be but
    /// none is written.
    GenericParamListEmpty,
    /// One member (field or variant) subtree.
    Member,
    /// A type-clause subtree; its text is the type expression verbatim.
    TypeClause,
    /// Any other node.
    Other,
}

/// One entry of the flattened preorder walk.
pub struct Node {
    pub kind: NodeKind,
    pub text: String,
    /// How many entries the node's descendants occupy right after it.
    pub subtree_size: usize,
}

/// One field of a declaration: its name and its declared type text.
pub struct FieldInfo {
    pub name: String,
    pub field_type: String,
}

/// The extracted descriptor of a declaration.
pub struct StructInfo {
    pub name: String,
    pub generic_params: Option<Vec<String>>,
    pub fields: Vec<FieldInfo>,
}

/// Index of the first node at or after `i` of kind `k`, or `-1`.
pub open spec fn find_kind_from(nodes: Seq<Node>, i: int, k: NodeKind) -> int
    decreases nodes.len() - i,
{
    if i < 0 || i >= nodes.len() {
        -1
    } else if nodes[i].kind == k {
        i
    } else {
        find_kind_from(nodes, i + 1, k)
    }
}

/// Index of the first node at or after `i` of kind `k1` or `k2`, or `-1`.
pub open spec fn find_kind2_from(nodes: Seq<Node>, i: int, k1: NodeKind, k2: NodeKind) -> int
    decreases nodes.len() - i,
{
    if i < 0 || i >= nodes.len() {
        -1
    } else if nodes[i].kind == k1 || nodes[i].kind == k2 {
        i
    } else {
        find_kind2_from(nodes, i + 1, k1, k2)
    }
}

/// Index of the first node of kind `k` in `i .. end`, or `-1`.
pub open spec fn find_kind_in(nodes: Seq<Node>, i: int, end: int, k: NodeKind) -> int
    decreases end - i,
{
    if i < 0 || i >= end || i >= nodes.len() {
        -1
    } else if nodes[i].kind == k {
        i
    } else {
        find_kind_in(nodes, i + 1, end, k)
    }
}

/// Where the subtree of the node at `j` ends, clamped to the walk's length.
pub open spec fn subtree_end(nodes: Seq<Node>, j: int) -> int {
    let e = j + 1 + nodes[j].subtree_size;
    if e > nodes.len() {
        nodes.len() as int
    } else {
        e
    }
}

/// The texts of the identifier nodes in `i .. end`, in order.
pub open spec fn idents_in(nodes: Seq<Node>, i: int, end: int) -> Seq<Seq<char>>
    decreases end - i,
{
    if i < 0 || i >= end || i >= nodes.len() {
        Seq::empty()
    } else if nodes[i].kind == NodeKind::Ident {
        seq![nodes[i].text@] + idents_in(nodes, i + 1, end)
    } else {
        idents_in(nodes, i + 1, end)
    }
}

/// Index of the declaration keyword.
pub open spec fn kw_idx(nodes: Seq<Node>) -> int {
    find_kind_from(nodes, 0, NodeKind::DeclKeyword)
}

/// Index of the name token: the first identifier after the keyword.
pub open spec fn name_idx(nodes: Seq<Node>) -> int {
    if kw_idx(nodes) < 0 {
        -1
    } else {
        find_kind_from(nodes, kw_idx(nodes) + 1, NodeKind::Ident)
    }
}

pub open spec fn spec_struct_name(nodes: Seq<Node>) -> Seq<char> {
    if name_idx(nodes) >= 0 {
        nodes[name_idx(nodes)].text@
    } else {
        Seq::empty()
    }
}

/// Where the scan for the generic-parameter marker resumes: right after the
/// name token, or past the end when the keyword was never found (the forward
/// scan is then already exhausted).
pub open spec fn gp_start(nodes: Seq<Node>) -> int {
    if kw_idx(nodes) < 0 || name_idx(nodes) < 0 {
        nodes.len() as int
    } else {
        name_idx(nodes) + 1
    }
}

/// Index of the first generic-parameter marker (written list or empty
/// marker) at or after `gp_start`, or `-1`.
pub open spec fn gp_idx(nodes: Seq<Node>) -> int {
    find_kind2_from(
        nodes,
        gp_start(nodes),
        NodeKind::GenericParamList,
        NodeKind::GenericParamListEmpty,
    )
}

/// The generic parameters: the identifiers inside the written list, in
/// order; `None` when the empty marker comes first or no marker exists.
pub open spec fn spec_generic_params(nodes: Seq<Node>) -> Option<Seq<Seq<char>>> {
    let g = gp_idx(nodes);
    if g >= 0 && nodes[g].kind == NodeKind::GenericParamList {
        Some(idents_in(nodes, g + 1, subtree_end(nodes, g)))
    } else {
        None
    }
}

/// The field a member subtree at `j` contributes: its first identifier as
/// the name and its first type clause as the type, defaulting to the text
/// string type when no type clause is written; a member without a named
/// identifier contributes nothing.
pub open spec fn member_field(nodes: Seq<Node>, j: int) -> Seq<(Seq<char>, Seq<char>)> {
    let end = subtree_end(nodes, j);
    let ni = find_kind_in(nodes, j + 1, end, NodeKind::Ident);
    if ni >= 0 && nodes[ni].text@.len() > 0 {
        let ti = find_kind_in(nodes, j + 1, end, NodeKind::TypeClause);
        let ty = if ti >= 0 && nodes[ti].text@.len() > 0 {
            nodes[ti].text@
        } else {
            "ByteArray"@
        };
        seq![(nodes[ni].text@, ty)]
    } else {
        Seq::empty()
    }
}

/// The fields contributed by all member subtrees at or after `i`, in order.
pub open spec fn spec_fields_from(nodes: Seq<Node>, i: int) -> Seq<(Seq<char>, Seq<char>)>
    decreases nodes.len() - i,
{
    if i < 0 || i >= nodes.len() {
        Seq::empty()
    } else if nodes[i].kind == NodeKind::Member {
        member_field(nodes, i) + spec_fields_from(nodes, i + 1)
    } else {
        spec_fields_from(nodes, i + 1)
    }
}

pub open spec fn spec_fields(nodes: Seq<Node>) -> Seq<(Seq<char>, Seq<char>)> {
    spec_fields_from(nodes, 0)
}

/// The host compiler hands the extractor a syntactically valid declaration:
/// when the declaration keyword is present, a name token follows it.
pub open spec fn wf_decl(nodes: Seq<Node>) -> bool {
    kw_idx(nodes) >= 0 ==> name_idx(nodes) >= 0
}

/// The name/type pairs a vector of fields holds.
pub open spec fn fields_view(fs: Seq<FieldInfo>) -> Seq<(Seq<char>, Seq<char>)> {
    fs.map_values(|f: FieldInfo| (f.name@, f.field_type@))
}

/// The mathematical content of a descriptor: the declaration's name, its
/// generic parameters and its fields as plain character sequences.
pub ghost struct DescView {
    pub name: Seq<char>,
    pub generic_params: Option<Seq<Seq<char>>>,
    pub fields: Seq<(Seq<char>, Seq<char>)>,
}

pub open spec fn struct_info_view(s: StructInfo) -> DescView {
    DescView {
        name: s.name@,
        generic_params: gp_view(s.generic_params),
        fields: fields_view(s.fields@),
    }
}

/// The descriptor a flattened declaration denotes.
pub open spec fn decl_view(nodes: Seq<Node>) -> DescView {
    DescView {
        name: spec_struct_name(nodes),
        generic_params: spec_generic_params(nodes),
        fields: spec_fields(nodes),
    }
}

/// The generic parameters as sequences of characters.
pub open spec fn gp_view(g: Option<Vec<String>>) -> Option<Seq<Seq<char>>> {
    match g {
        Some(v) => Some(v.deep_view()),
        None => None,
    }
}

/// The indices, in order, of the member subtrees that contribute a field:
/// those carrying a named first identifier.
pub open spec fn named_member_indices(nodes: Seq<Node>, i: int) -> Seq<int>
    decreases nodes.len() - i,
{
    if i < 0 || i >= nodes.len() {
        Seq::empty()
    } else if nodes[i].kind == NodeKind::Member && member_field(nodes, i).len() > 0 {
        seq![i] + named_member_indices(nodes, i + 1)
    } else {
        named_member_indices(nodes, i + 1)
    }
}

proof fn lemma_field_order_from(nodes: Seq<Node>, i: int)
    ensures
        spec_fields_from(nodes, i).len() == named_member_indices(nodes, i).len(),
        forall|k: int|
            0 <= k < spec_fields_from(nodes, i).len() ==> spec_fields_from(nodes, i)[k]
                == member_field(nodes, #[trigger] named_member_indices(nodes, i)[k])[0],
    decreases nodes.len() - i,
{
    if i < 0 || i >= nodes.len() {
    } else {
        lemma_field_order_from(nodes, i + 1);
        let fs = spec_fields_from(nodes, i);
        let ix = named_member_indices(nodes, i);
        let fs1 = spec_fields_from(nodes, i + 1);
        let ix1 = named_member_indices(nodes, i + 1);
        if nodes[i].kind == NodeKind::Member && member_field(nodes, i).len() > 0 {
            assert(member_field(nodes, i).len() == 1);
            assert(fs == member_field(nodes, i) + fs1);
            assert(ix == seq![i] + ix1);
            assert forall|k: int| 0 <= k < fs.len() implies fs[k] == member_field(
                nodes,
                #[trigger] ix[k],
            )[0] by {
                if k == 0 {
                    assert(fs[0] == member_field(nodes, i)[0]);
                    assert(ix[0] == i);
                } else {
                    assert(fs[k] == fs1[k - 1]);
                    assert(ix[k] == ix1[k - 1]);
                }
            }
        } else if nodes[i].kind == NodeKind::Member {
            assert(member_field(nodes, i) + fs1 =~= fs1);
        }
    }
}

/// Field-order law: the extractor yields exactly one field per named
/// member subtree, and the k-th field is the field of the k-th such
/// member — declaration order is preserved exactly.
pub proof fn lemma_field_order(nodes: Seq<Node>)
    ensures
        spec_fields(nodes).len() == named_member_indices(nodes, 0).len(),
        forall|k: int|
            0 <= k < spec_fields(nodes).len() ==> spec_fields(nodes)[k] == member_field(
                nodes,
                #[trigger] named_member_indices(nodes, 0)[k],
            )[0],
{
    lemma_field_order_from(nodes, 0);
}

proof fn lemma_find_kind2_props(nodes: Seq<Node>, i: int, k1: NodeKind, k2: NodeKind)
    requires
        i >= 0,
    ensures
        find_kind2_from(nodes, i, k1, k2) >= -1,
        find_kind2_from(nodes, i, k1, k2) == -1 ==> (forall|j: int|
            i <= j < nodes.len() ==> nodes[j].kind != k1 && nodes[j].kind != k2),
        find_kind2_from(nodes, i, k1, k2) >= 0 ==> {
            let r = find_kind2_from(nodes, i, k1, k2);
            &&& i <= r < nodes.len()
            &&& (nodes[r].kind == k1 || nodes[r].kind == k2)
            &&& forall|j: int| i <= j < r ==> nodes[j].kind != k1 && nodes[j].kind != k2
        },
    decreases nodes.len() - i,
{
    if i < 0 || i >= nodes.len() {
    } else if nodes[i].kind == k1 || nodes[i].kind == k2 {
    } else {
        lemma_find_kind2_props(nodes, i + 1, k1, k2);
        let r = find_kind2_from(nodes, i, k1, k2);
        assert(r == find_kind2_from(nodes, i + 1, k1, k2));
        if r == -1 {
            assert forall|j: int|
                i <= j < nodes.len() implies nodes[j].kind != k1 && nodes[j].kind != k2 by {
                if j > i {
                    assert(nodes[j].kind != k1 && nodes[j].kind != k2);
                }
            }
        } else {
            assert forall|j: int| i <= j < r implies nodes[j].kind != k1 && nodes[j].kind
                != k2 by {
                if j > i {
                    assert(nodes[j].kind != k1 && nodes[j].kind != k2);
                }
            }
        }
    }
}

/// Generic-parameter law: when the scanned region carries at most one
/// kind of generic-parameter marker — as a syntactically valid
/// declaration does — the descriptor's generic parameters are present
/// exactly when a written generic-parameter list is.
pub proof fn lemma_generic_params_presence(nodes: Seq<Node>)
    requires
        !((exists|j: int|
            gp_start(nodes) <= j < nodes.len() && nodes[j].kind == NodeKind::GenericParamList) && (
        exists|j: int|
            gp_start(nodes) <= j < nodes.len() && nodes[j].kind
                == NodeKind::GenericParamListEmpty)),
    ensures
        (spec_generic_params(nodes) is Some) <==> (exists|j: int|
            gp_start(nodes) <= j < nodes.len() && nodes[j].kind == NodeKind::GenericParamList),
{
    let start = gp_start(nodes);
    lemma_find_kind2_props(
        nodes,
        start,
        NodeKind::GenericParamList,
        NodeKind::GenericParamListEmpty,
    );
    let g = gp_idx(nodes);
    if g >= 0 && nodes[g].kind == NodeKind::GenericParamList {
        assert(start <= g < nodes.len());
    } else if g >= 0 {
        assert(nodes[g].kind == NodeKind::GenericParamListEmpty);
        assert forall|j: int|
            start <= j < nodes.len() implies nodes[j].kind != NodeKind::GenericParamList by {}
    }
}

/// The generic parameters, with an absent list and an empty one alike read
/// as no parameters.
pub open spec fn gp_list(gp: Option<Seq<Seq<char>>>) -> Seq<Seq<char>> {
    match gp {
        Some(ps) => ps,
        None => Seq::empty(),
    }
}

/// The `<T, U>` suffix generators append to the type name: empty when no
/// generic parameter is present.
pub open spec fn spec_generic_params_text(gp: Option<Seq<Seq<char>>>) -> Seq<char> {
    if gp_list(gp).len() == 0 {
        Seq::empty()
    } else {
        "<"@ + join_spec(gp_list(gp), ", "@) + ">"@
    }
}

pub fn generic_params_text(gp: &Option<Vec<String>>) -> (r: String)
    ensures
        r@ == spec_generic_params_text(gp_view(*gp)),
{
    match gp {
        None => String::new(),
        Some(ps) => {
            if ps.len() == 0 {
                String::new()
            } else {
                let mut out = String::new();
                out.append("<");
                assert(out@ =~= "<"@);
                let joined = join_strings(ps, ", ");
                out.append(joined.as_str());
                out.append(">");
                out
            }
        },
    }
}

fn find_kind(nodes: &Vec<Node>, start: usize, k: NodeKind) -> (r: Option<usize>)
    ensures
        match r {
            Some(i) => start <= i < nodes@.len() && nodes@[i as int].kind == k
                && find_kind_from(nodes@, start as int, k) == i,
            None => find_kind_from(nodes@, start as int, k) == -1,
        },
{
    let n = nodes.len();
    let mut i: usize = start;
    if start > n {
        return None;
    }
    while i < n
        invariant
            n == nodes@.len(),
            start <= i <= n,
            find_kind_from(nodes@, start as int, k) == find_kind_from(nodes@, i as int, k),
        decreases n - i,
    {
        if nodes[i].kind == k {
            return Some(i);
        }
        i += 1;
    }
    None
}

fn find_kind2(nodes: &Vec<Node>, start: usize, k1: NodeKind, k2: NodeKind) -> (r: Option<usize>)
    ensures
        match r {
            Some(i) => start <= i < nodes@.len() && (nodes@[i as int].kind == k1
                || nodes@[i as int].kind == k2) && find_kind2_from(nodes@, start as int, k1, k2)
                == i,
            None => find_kind2_from(nodes@, start as int, k1, k2) == -1,
        },
{
    let n = nodes.len();
    let mut i: usize = start;
    if start > n {
        return None;
    }
    while i < n
        invariant
            n == nodes@.len(),
            start <= i <= n,
            find_kind2_from(nodes@, start as int, k1, k2) == find_kind2_from(
                nodes@,
                i as int,
                k1,
                k2,
            ),
        decreases n - i,
    {
        if nodes[i].kind == k1 || nodes[i].kind == k2 {
            return Some(i);
        }
        i += 1;
    }
    None
}

fn find_kind_bounded(nodes: &Vec<Node>, start: usize, end: usize, k: NodeKind) -> (r: Option<
    usize,
>)
    requires
        end <= nodes@.len(),
    ensures
        match r {
            Some(i) => start <= i < end && nodes@[i as int].kind == k && find_kind_in(
                nodes@,
                start as int,
                end as int,
                k,
            ) == i,
            None => find_kind_in(nodes@, start as int, end as int, k) == -1,
        },
{
    let mut i: usize = start;
    if start > end {
        return None;
    }
    while i < end
        invariant
            end <= nodes@.len(),
            start <= i <= end,
            find_kind_in(nodes@, start as int, end as int, k) == find_kind_in(
                nodes@,
                i as int,
                end as int,
                k,
            ),
        decreases end - i,
    {
        if nodes[i].kind == k {
            return Some(i);
        }
        i += 1;
    }
    None
}

/// `subtree_end` as executable code, without overflow.
fn subtree_end_exec(nodes: &Vec<Node>, j: usize) -> (r: usize)
    requires
        j < nodes@.len(),
    ensures
        r == subtree_end(nodes@, j as int),
        r <= nodes@.len(),
{
    let n = nodes.len();
    let size = nodes[j].subtree_size;
    if size > n - (j + 1) {
        n
    } else {
        j + 1 + size
    }
}

fn collect_idents(nodes: &Vec<Node>, start: usize, end: usize) -> (r: Vec<String>)
    requires
        end <= nodes@.len(),
    ensures
        r.deep_view() == idents_in(nodes@, start as int, end as int),
{
    let mut out: Vec<String> = Vec::new();
    let mut i: usize = start;
    if start > end {
        assert(out.deep_view() =~= idents_in(nodes@, start as int, end as int));
        return out;
    }
    while i < end
        invariant
            end <= nodes@.len(),
            start <= i <= end,
            out.deep_view() + idents_in(nodes@, i as int, end as int) == idents_in(
                nodes@,
                start as int,
                end as int,
            ),
        decreases end - i,
    {
        if nodes[i].kind == NodeKind::Ident {
            proof {
                let ov = out.deep_view();
                let t = nodes@[i as int].text@;
                let rest = idents_in(nodes@, i as int + 1, end as int);
                assert(idents_in(nodes@, i as int, end as int) == seq![t] + rest);
                assert(ov + (seq![t] + rest) =~= ov.push(t) + rest);
            }
            out.push(nodes[i].text.clone());
        }
        i += 1;
    }
    assert(idents_in(nodes@, end as int, end as int) == Seq::<Seq<char>>::empty());
    assert(out.deep_view() + Seq::<Seq<char>>::empty() =~= out.deep_view());
    out
}

/// Walks the flattened declaration into its descriptor: the name token after
/// the declaration keyword, the generic parameters when a written list comes
/// before the empty marker, and one field per named member subtree, in
/// declaration order.
pub fn parse_struct_info(nodes: &Vec<Node>) -> (r: StructInfo)
    requires
        wf_decl(nodes@),
    ensures
        struct_info_view(r) == decl_view(nodes@),
        r.name@ == spec_struct_name(nodes@),
        gp_view(r.generic_params) == spec_generic_params(nodes@),
        fields_view(r.fields@) == spec_fields(nodes@),
{
    let n = nodes.len();

    // The type name: the first identifier token after the keyword.
    let kw = find_kind(nodes, 0, NodeKind::DeclKeyword);
    let mut name = String::new();
    let mut after_name: usize = n;
    match kw {
        None => {},
        Some(ki) => {
            match find_kind(nodes, ki + 1, NodeKind::Ident) {
                Some(ni) => {
                    name = nodes[ni].text.clone();
                    after_name = ni + 1;
                },
                None => {
                    proof {
                        assert(false);
                    }
                },
            }
        },
    }
    assert(name@ == spec_struct_name(nodes@));
    assert(after_name as int == gp_start(nodes@));

    // Generic parameters, when a written list comes first.
    let mut generic_params: Option<Vec<String>> = None;
    match find_kind2(
        nodes,
        after_name,
        NodeKind::GenericParamList,
        NodeKind::GenericParamListEmpty,
    ) {
        Some(gi) => {
            if nodes[gi].kind == NodeKind::GenericParamList {
                let end = subtree_end_exec(nodes, gi);
                let params = collect_idents(nodes, gi + 1, end);
                generic_params = Some(params);
            }
        },
        None => {},
    }
    assert(gp_view(generic_params) == spec_generic_params(nodes@));

    // Fields: one per named member subtree, in order.
    let mut fields: Vec<FieldInfo> = Vec::new();
    let mut j: usize = 0;
    assert(fields_view(fields@) =~= Seq::<(Seq<char>, Seq<char>)>::empty());
    while j < n
        invariant
            n == nodes@.len(),
            j <= n,
            fields_view(fields@) + spec_fields_from(nodes@, j as int) == spec_fields(nodes@),
        decreases n - j,
    {
        if nodes[j].kind == NodeKind::Member {
            let end = subtree_end_exec(nodes, j);
            match find_kind_bounded(nodes, j + 1, end, NodeKind::Ident) {
                Some(ni) => {
                    if !nodes[ni].text.as_str().is_empty() {
                        let field_name = nodes[ni].text.clone();
                        let field_type: String;
                        match find_kind_bounded(nodes, j + 1, end, NodeKind::TypeClause) {
                            Some(ti) => {
                                if !nodes[ti].text.as_str().is_empty() {
                                    field_type = nodes[ti].text.clone();
                                } else {
                                    field_type = "ByteArray".to_owned();
                                }
                            },
                            None => {
                                field_type = "ByteArray".to_owned();
                            },
                        }
                        proof {
                            let fv = fields_view(fields@);
                            let mf = member_field(nodes@, j as int);
                            let rest = spec_fields_from(nodes@, j as int + 1);
                            assert(mf == seq![(field_name@, field_type@)]);
                            assert(spec_fields_from(nodes@, j as int) == mf + rest);
                            assert(fv + (mf + rest) =~= (fv + mf) + rest);
                        }
                        let fi = FieldInfo { name: field_name, field_type };
                        proof {
                            let fv = fields_view(fields@);
                            assert(fields_view(fields@.push(fi)) =~= fv + seq![
                                (fi.name@, fi.field_type@),
                            ]);
                        }
                        fields.push(fi);
                    } else {
                        assert(member_field(nodes@, j as int) =~= Seq::<
                            (Seq<char>, Seq<char>),
                        >::empty());
                        assert(Seq::<(Seq<char>, Seq<char>)>::empty() + spec_fields_from(
                            nodes@,
                            j as int + 1,
                        ) =~= spec_fields_from(nodes@, j as int + 1));
                    }
                },
                None => {
                    assert(member_field(nodes@, j as int) =~= Seq::<
                        (Seq<char>, Seq<char>),
                    >::empty());
                    assert(Seq::<(Seq<char>, Seq<char>)>::empty() + spec_fields_from(
                        nodes@,
                        j as int + 1,
                    ) =~= spec_fields_from(nodes@, j as int + 1));
                },
            }
        }
        j += 1;
    }
    assert(spec_fields_from(nodes@, n as int) == Seq::<(Seq<char>, Seq<char>)>::empty());
    assert(fields_view(fields@) + Seq::<(Seq<char>, Seq<char>)>::empty() =~= fields_view(
        fields@,
    ));

    StructInfo { name, generic_params, fields }
}

} // verus!
