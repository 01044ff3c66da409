//! Event-wrapper synthesis for an annotated event enum: after three
//! validation checks, one companion data-carrier struct is emitted per
//! variant, named after the variant's payload type, and the enum is
//! re-emitted with only the triggering attribute line removed.

use vstd::prelude::*;

use crate::text::{
    find_char, find_char_idx, has_sub, join_spec, join_strings, lines_spec, starts_with_spec,
    str_contains, str_eq, str_lines, str_starts_with, str_trim, trim_spec,
};
use crate::MacroOutput;

verus! {

/// The line, trimmed, carries the event-marker annotation.
pub open spec fn line_has_event_attr(l: Seq<char>) -> bool {
    starts_with_spec(trim_spec(l), "#[event]"@)
}

/// The line, trimmed, opens a derive list that names the event trait.
pub open spec fn line_has_event_derive(l: Seq<char>) -> bool {
    starts_with_spec(trim_spec(l), "#[derive("@) && has_sub(trim_spec(l), "starknet::Event"@)
}

/// The line, trimmed, declares a public enum.
pub open spec fn line_has_pub_enum(l: Seq<char>) -> bool {
    has_sub(trim_spec(l), "pub enum"@)
}

pub open spec fn spec_has_event_attr(s: Seq<char>) -> bool {
    exists|i: int| 0 <= i < lines_spec(s).len() && line_has_event_attr(lines_spec(s)[i])
}

pub open spec fn spec_has_event_derive(s: Seq<char>) -> bool {
    exists|i: int| 0 <= i < lines_spec(s).len() && line_has_event_derive(lines_spec(s)[i])
}

pub open spec fn spec_has_pub_enum(s: Seq<char>) -> bool {
    exists|i: int| 0 <= i < lines_spec(s).len() && line_has_pub_enum(lines_spec(s)[i])
}

fn trim_of<'a>(l: &'a String) -> (r: &'a str)
    ensures
        r@ == trim_spec(l@),
{
    str_trim(l.as_str())
}

/// Checks the three preconditions in fixed order — event marker present,
/// derive list naming the event trait present, public enum — and returns
/// the diagnostic of the first violated one.
pub fn validate_event_enum(input: &str) -> (r: Result<(), String>)
    ensures
        r is Ok <==> spec_has_event_attr(input@) && spec_has_event_derive(input@)
            && spec_has_pub_enum(input@),
        r matches Err(m) ==> (!spec_has_event_attr(input@) && m@
            == "#[generate_events] can only be used on enums with #[event]"@) || (
        spec_has_event_attr(input@) && !spec_has_event_derive(input@) && m@
            == "#[generate_events] can only be used on enums that derive starknet::Event"@) || (
        spec_has_event_attr(input@) && spec_has_event_derive(input@) && !spec_has_pub_enum(input@)
            && m@ == "#[generate_events] can only be used on public enums."@),
{
    let lines = str_lines(input);
    let ghost lv = lines_spec(input@);
    let n = lines.len();

    let mut has_attr = false;
    let mut i: usize = 0;
    while i < n
        invariant
            n == lines.len(),
            lines.deep_view() == lv,
            lv == lines_spec(input@),
            i <= n,
            has_attr ==> spec_has_event_attr(input@),
            !has_attr ==> (forall|j: int| 0 <= j < i ==> !line_has_event_attr(lv[j])),
        decreases n - i,
    {
        if !has_attr {
            let t = trim_of(&lines[i]);
            if str_starts_with(t, "#[event]") {
                proof {
                    assert(lines.deep_view()[i as int] == lines[i as int]@);
                    assert(lines.deep_view().len() == lines@.len());
                    assert((i as int) < lines_spec(input@).len());
                    assert(line_has_event_attr(lines_spec(input@)[i as int]));
                }
                has_attr = true;
            }
        }
        i += 1;
    }
    if !has_attr {
        assert(!spec_has_event_attr(input@));
        return Err("#[generate_events] can only be used on enums with #[event]".to_owned());
    }

    let mut has_derive = false;
    i = 0;
    while i < n
        invariant
            n == lines.len(),
            lines.deep_view() == lv,
            lv == lines_spec(input@),
            i <= n,
            has_derive ==> spec_has_event_derive(input@),
            !has_derive ==> (forall|j: int| 0 <= j < i ==> !line_has_event_derive(lv[j])),
        decreases n - i,
    {
        if !has_derive {
            let t = trim_of(&lines[i]);
            if str_starts_with(t, "#[derive(") && str_contains(t, "starknet::Event") {
                proof {
                    assert(lines.deep_view()[i as int] == lines[i as int]@);
                    assert(0 <= (i as int) && (i as int) < lines_spec(input@).len()
                        && line_has_event_derive(lines_spec(input@)[i as int]));
                }
                has_derive = true;
            }
        }
        i += 1;
    }
    if !has_derive {
        assert(!spec_has_event_derive(input@));
        return Err(
            "#[generate_events] can only be used on enums that derive starknet::Event".to_owned(),
        );
    }

    let mut has_pub = false;
    i = 0;
    while i < n
        invariant
            n == lines.len(),
            lines.deep_view() == lv,
            lv == lines_spec(input@),
            i <= n,
            has_pub ==> spec_has_pub_enum(input@),
            !has_pub ==> (forall|j: int| 0 <= j < i ==> !line_has_pub_enum(lv[j])),
        decreases n - i,
    {
        if !has_pub {
            let t = trim_of(&lines[i]);
            if str_contains(t, "pub enum") {
                proof {
                    assert(lines.deep_view()[i as int] == lines[i as int]@);
                    assert(0 <= (i as int) && (i as int) < lines_spec(input@).len()
                        && line_has_pub_enum(lines_spec(input@)[i as int]));
                }
                has_pub = true;
            }
        }
        i += 1;
    }
    if !has_pub {
        assert(!spec_has_pub_enum(input@));
        return Err("#[generate_events] can only be used on public enums.".to_owned());
    }
    Ok(())
}

/// Trailing commas removed, as `str::trim_end_matches(',')` leaves it.
pub open spec fn strip_commas_spec(s: Seq<char>) -> Seq<char>
    decreases s.len(),
{
    if s.len() > 0 && s.last() == ',' {
        strip_commas_spec(s.drop_last())
    } else {
        s
    }
}

fn strip_trailing_commas<'a>(s: &'a str) -> (r: &'a str)
    ensures
        r@ == strip_commas_spec(s@),
{
    let n = s.unicode_len();
    let mut b: usize = n;
    assert(s@.take(n as int) =~= s@);
    while b > 0 && s.get_char(b - 1) == ','
        invariant
            n == s@.len(),
            b <= n,
            strip_commas_spec(s@) == strip_commas_spec(s@.take(b as int)),
        decreases b,
    {
        assert(s@.take(b as int).last() == s@[b - 1]);
        assert(s@.take(b as int).drop_last() =~= s@.take(b as int - 1));
        b -= 1;
    }
    assert(strip_commas_spec(s@.take(b as int)) == s@.take(b as int)) by {
        if b > 0 {
            assert(s@.take(b as int).last() == s@[b - 1]);
        }
    }
    s.substring_char(0, b)
}

/// The payload type name a member line yields: the text after the colon,
/// trimmed, trailing commas removed, trimmed again.
pub open spec fn spec_member_name(t: Seq<char>) -> Seq<char> {
    let idx = find_char_idx(t, ':');
    trim_spec(strip_commas_spec(trim_spec(t.skip(idx + 1))))
}

/// The payload type names collected by the scan from line `i` onward, in
/// the given scan state: names come from colon-carrying lines between the
/// `pub enum` opener and the closing brace line.
pub open spec fn spec_names_from(lines: Seq<Seq<char>>, i: int, inside: bool) -> Seq<Seq<char>>
    decreases lines.len() - i,
{
    if i < 0 || i >= lines.len() {
        Seq::empty()
    } else {
        let t = trim_spec(lines[i]);
        if has_sub(t, "pub enum"@) {
            spec_names_from(lines, i + 1, true)
        } else if inside && t == "}"@ {
            Seq::empty()
        } else if inside && find_char_idx(t, ':') >= 0 {
            let name = spec_member_name(t);
            (if name.len() > 0 {
                seq![name]
            } else {
                Seq::<Seq<char>>::empty()
            }) + spec_names_from(lines, i + 1, inside)
        } else {
            spec_names_from(lines, i + 1, inside)
        }
    }
}

pub open spec fn spec_struct_names(s: Seq<char>) -> Seq<Seq<char>> {
    spec_names_from(lines_spec(s), 0, false)
}

/// Collects the payload type name of each variant line of the enum body.
pub fn extract_struct_names(input: &str) -> (r: Vec<String>)
    ensures
        r.deep_view() == spec_struct_names(input@),
{
    let lines = str_lines(input);
    let ghost lv = lines_spec(input@);
    let ghost full = spec_struct_names(input@);
    let n = lines.len();
    let mut names: Vec<String> = Vec::new();
    let mut inside = false;
    let mut done = false;
    let mut i: usize = 0;
    assert(names.deep_view() =~= Seq::<Seq<char>>::empty());
    assert(full == names.deep_view() + spec_names_from(lv, 0, false));
    while i < n && !done
        invariant
            n == lines.len(),
            lines.deep_view() == lv,
            i <= n,
            !done ==> full == names.deep_view() + spec_names_from(lv, i as int, inside),
            done ==> full == names.deep_view(),
        decreases n - i,
    {
        let t = trim_of(&lines[i]);
        assert(t@ == trim_spec(lv[i as int]));
        if str_contains(t, "pub enum") {
            assert(spec_names_from(lv, i as int, inside) == spec_names_from(
                lv,
                i as int + 1,
                true,
            ));
            inside = true;
        } else if inside && str_eq(t, "}") {
            proof {
                reveal_strlit("}");
                assert(spec_names_from(lv, i as int, inside) =~= Seq::<Seq<char>>::empty());
                assert(names.deep_view() + Seq::<Seq<char>>::empty() =~= names.deep_view());
            }
            done = true;
        } else {
            proof {
                reveal_strlit("}");
            }
            match find_char(t, ':') {
                Some(idx) => {
                    if inside {
                        proof {
                            crate::text::lemma_find_char(t@, ':');
                        }
                        let tlen = t.unicode_len();
                        let after = t.substring_char(idx + 1, tlen);
                        assert(after@ =~= t@.skip(idx + 1));
                        let t2 = str_trim(after);
                        let t3 = strip_trailing_commas(t2);
                        let t4 = str_trim(t3);
                        assert(t4@ == spec_member_name(t@));
                        proof {
                            let name = spec_member_name(trim_spec(lv[i as int]));
                            let rest = spec_names_from(lv, i as int + 1, inside);
                            if name.len() > 0 {
                                assert(spec_names_from(lv, i as int, inside) == seq![name] + rest);
                                assert(names.deep_view() + (seq![name] + rest)
                                    =~= names.deep_view().push(name) + rest);
                            } else {
                                assert(spec_names_from(lv, i as int, inside)
                                    == Seq::<Seq<char>>::empty() + rest);
                                assert(names.deep_view() + (Seq::<Seq<char>>::empty() + rest)
                                    =~= names.deep_view() + rest);
                            }
                        }
                        if !t4.is_empty() {
                            names.push(t4.to_owned());
                        }
                    } else {
                        assert(spec_names_from(lv, i as int, inside) == spec_names_from(
                            lv,
                            i as int + 1,
                            inside,
                        ));
                    }
                },
                None => {
                    assert(spec_names_from(lv, i as int, inside) == spec_names_from(
                        lv,
                        i as int + 1,
                        inside,
                    ));
                },
            }
        }
        i += 1;
    }
    proof {
        if !done {
            assert(spec_names_from(lv, n as int, inside) =~= Seq::<Seq<char>>::empty());
            assert(names.deep_view() + Seq::<Seq<char>>::empty() =~= names.deep_view());
        }
    }
    names
}

/// The companion struct emitted for one payload type name: a public struct
/// of that name holding a single read-only span of field elements.
pub open spec fn spec_event_struct(name: Seq<char>) -> Seq<char> {
    "#[derive(Drop, starknet::Event)]\npub struct "@ + name
        + " {\n    pub data: Span<felt252>,\n}"@
}

pub open spec fn spec_generate_structs(names: Seq<Seq<char>>) -> Seq<char> {
    join_spec(names.map_values(|nm: Seq<char>| spec_event_struct(nm)), "\n\n"@)
}

/// Emits one data-carrier struct per collected payload type name, in order,
/// one blank line apart.
pub fn generate_structs(struct_names: &Vec<String>) -> (r: String)
    ensures
        r@ == spec_generate_structs(struct_names.deep_view()),
{
    let ghost nv = struct_names.deep_view();
    let mut pieces: Vec<String> = Vec::new();
    let mut i: usize = 0;
    let n = struct_names.len();
    assert(pieces.deep_view() =~= nv.take(0).map_values(|nm: Seq<char>| spec_event_struct(nm)));
    while i < n
        invariant
            n == struct_names.len(),
            i <= n,
            nv == struct_names.deep_view(),
            pieces.deep_view() == nv.take(i as int).map_values(
                |nm: Seq<char>| spec_event_struct(nm),
            ),
        decreases n - i,
    {
        let mut piece = String::new();
        piece.append("#[derive(Drop, starknet::Event)]\npub struct ");
        assert(piece@ =~= "#[derive(Drop, starknet::Event)]\npub struct "@);
        piece.append(struct_names[i].as_str());
        piece.append(" {\n    pub data: Span<felt252>,\n}");
        proof {
            assert(piece@ == spec_event_struct(nv[i as int]));
            assert(nv.take(i as int + 1).map_values(|nm: Seq<char>| spec_event_struct(nm))
                =~= nv.take(i as int).map_values(|nm: Seq<char>| spec_event_struct(nm)).push(
                spec_event_struct(nv[i as int]),
            ));
        }
        pieces.push(piece);
        i += 1;
    }
    assert(nv.take(n as int) =~= nv);
    join_strings(&pieces, "\n\n")
}

/// A line survives cleaning unless, trimmed, it starts with the triggering
/// attribute.
pub open spec fn line_kept(l: Seq<char>) -> bool {
    !starts_with_spec(trim_spec(l), "#[generate_events]"@)
}

/// The declaration with only the triggering attribute lines removed, all
/// other lines re-joined in original order.
pub open spec fn spec_clean_enum(s: Seq<char>) -> Seq<char> {
    join_spec(lines_spec(s).filter(|l: Seq<char>| line_kept(l)), "\n"@)
}

/// Re-emits the declaration without the triggering attribute line.
pub fn clean_enum(input: &str) -> (r: String)
    ensures
        r@ == spec_clean_enum(input@),
{
    let lines = str_lines(input);
    let ghost lv = lines_spec(input@);
    let n = lines.len();
    let mut kept: Vec<String> = Vec::new();
    let mut i: usize = 0;
    proof {
        reveal(Seq::filter);
        assert(lv.take(0) =~= Seq::<Seq<char>>::empty());
        assert(kept.deep_view() =~= lv.take(0).filter(|l: Seq<char>| line_kept(l)));
    }
    while i < n
        invariant
            n == lines.len(),
            lines.deep_view() == lv,
            i <= n,
            kept.deep_view() == lv.take(i as int).filter(|l: Seq<char>| line_kept(l)),
        decreases n - i,
    {
        let t = trim_of(&lines[i]);
        proof {
            reveal(Seq::filter);
            assert(lv.take(i as int + 1).drop_last() =~= lv.take(i as int));
            assert(lv.take(i as int + 1).last() == lv[i as int]);
        }
        if !str_starts_with(t, "#[generate_events]") {
            assert(line_kept(lv[i as int]));
            kept.push(lines[i].clone());
        } else {
            assert(!line_kept(lv[i as int]));
        }
        i += 1;
    }
    assert(lv.take(n as int) =~= lv);
    join_strings(&kept, "\n")
}

/// The output on success: the cleaned enum, a line break, then the
/// synthesized companion structs.
pub open spec fn spec_events_output(s: Seq<char>) -> Seq<char> {
    spec_clean_enum(s) + "\n"@ + spec_generate_structs(spec_struct_names(s))
}

/// The event-wrapper generator: validates the annotated enum, then emits
/// the cleaned enum followed by one companion struct per variant; on a
/// violated precondition it emits no source and exactly the diagnostic of
/// the first violated check.
pub fn generate_events(input: &str) -> (r: MacroOutput)
    ensures
        spec_has_event_attr(input@) && spec_has_event_derive(input@) && spec_has_pub_enum(input@)
            ==> r.content@ == spec_events_output(input@) && r.diagnostics@.len() == 0,
        !spec_has_event_attr(input@) ==> r.content@.len() == 0 && r.diagnostics.deep_view()
            == seq!["#[generate_events] can only be used on enums with #[event]"@],
        spec_has_event_attr(input@) && !spec_has_event_derive(input@) ==> r.content@.len() == 0
            && r.diagnostics.deep_view()
            == seq!["#[generate_events] can only be used on enums that derive starknet::Event"@],
        spec_has_event_attr(input@) && spec_has_event_derive(input@) && !spec_has_pub_enum(input@)
            ==> r.content@.len() == 0 && r.diagnostics.deep_view()
            == seq!["#[generate_events] can only be used on public enums."@],
{
    match validate_event_enum(input) {
        Err(m) => {
            let mut diagnostics: Vec<String> = Vec::new();
            diagnostics.push(m);
            assert(diagnostics.deep_view() =~= Seq::<Seq<char>>::empty().push(diagnostics[0]@));
            MacroOutput { content: String::new(), diagnostics }
        },
        Ok(()) => {
            let struct_names = extract_struct_names(input);
            let structs = generate_structs(&struct_names);
            let cleaned = clean_enum(input);
            let mut output = cleaned;
            output.append("\n");
            output.append(structs.as_str());
            MacroOutput { content: output, diagnostics: Vec::new() }
        },
    }
}

} // verus!
