//! Verified text utilities: equality, search, trimming, splitting, joining
//! and occurrence removal over `&str` / `String`, specified on `Seq<char>`.

use vstd::prelude::*;
use vstd::string::StringExecFns;
use vstd::string::StrSliceExecFns;

verus! {

/// The characters with the Unicode `White_Space` property, the set that
/// `char::is_whitespace` recognizes.
pub open spec fn is_ws_char(c: char) -> bool {
    ||| c == '\u{0009}'
    ||| c == '\u{000A}'
    ||| c == '\u{000B}'
    ||| c == '\u{000C}'
    ||| c == '\u{000D}'
    ||| c == '\u{0020}'
    ||| c == '\u{0085}'
    ||| c == '\u{00A0}'
    ||| c == '\u{1680}'
    ||| c == '\u{2000}'
    ||| c == '\u{2001}'
    ||| c == '\u{2002}'
    ||| c == '\u{2003}'
    ||| c == '\u{2004}'
    ||| c == '\u{2005}'
    ||| c == '\u{2006}'
    ||| c == '\u{2007}'
    ||| c == '\u{2008}'
    ||| c == '\u{2009}'
    ||| c == '\u{200A}'
    ||| c == '\u{2028}'
    ||| c == '\u{2029}'
    ||| c == '\u{202F}'
    ||| c == '\u{205F}'
    ||| c == '\u{3000}'
}

pub fn char_is_ws(c: char) -> (r: bool)
    ensures
        r == is_ws_char(c),
{
    c == '\u{0009}' || c == '\u{000A}' || c == '\u{000B}' || c == '\u{000C}' || c == '\u{000D}'
        || c == '\u{0020}' || c == '\u{0085}' || c == '\u{00A0}' || c == '\u{1680}'
        || c == '\u{2000}' || c == '\u{2001}' || c == '\u{2002}' || c == '\u{2003}'
        || c == '\u{2004}' || c == '\u{2005}' || c == '\u{2006}' || c == '\u{2007}'
        || c == '\u{2008}' || c == '\u{2009}' || c == '\u{200A}' || c == '\u{2028}'
        || c == '\u{2029}' || c == '\u{202F}' || c == '\u{205F}' || c == '\u{3000}'
}

/// Relies on `String::push`: appends exactly the one character `c`.
#[verifier::external_body]
pub fn push_char(s: &mut String, c: char)
    ensures
        final(s)@ == old(s)@.push(c),
{
    s.push(c);
}

pub fn str_eq(a: &str, b: &str) -> (r: bool)
    ensures
        r == (a@ == b@),
{
    let sa: String = a.to_owned();
    let sb: String = b.to_owned();
    sa == sb
}

pub open spec fn starts_with_spec(s: Seq<char>, p: Seq<char>) -> bool {
    p.len() <= s.len() && s.take(p.len() as int) == p
}

pub fn str_starts_with(s: &str, p: &str) -> (r: bool)
    ensures
        r == starts_with_spec(s@, p@),
{
    let n = s.unicode_len();
    let m = p.unicode_len();
    if m > n {
        return false;
    }
    let pre = s.substring_char(0, m);
    assert(pre@ == s@.take(p@.len() as int));
    str_eq(pre, p)
}

/// The pattern `p` occurs in `s` starting at index `i`.
pub open spec fn contains_at(s: Seq<char>, p: Seq<char>, i: int) -> bool {
    0 <= i && i + p.len() <= s.len() && s.subrange(i, i + p.len()) == p
}

pub open spec fn has_sub(s: Seq<char>, p: Seq<char>) -> bool {
    exists|i: int| contains_at(s, p, i)
}

pub fn str_contains(s: &str, p: &str) -> (r: bool)
    ensures
        r == has_sub(s@, p@),
{
    let n = s.unicode_len();
    let m = p.unicode_len();
    if m > n {
        assert(forall|i: int| !contains_at(s@, p@, i));
        return false;
    }
    if m == 0 {
        assert(s@.subrange(0, 0) =~= p@);
        assert(contains_at(s@, p@, 0));
        return true;
    }
    let mut i: usize = 0;
    while i <= n - m
        invariant
            n == s@.len(),
            m == p@.len(),
            1 <= m <= n,
            i <= n - m + 1,
            forall|j: int| 0 <= j < i ==> !contains_at(s@, p@, j),
        decreases n - m - i + 1,
    {
        let cand = s.substring_char(i, i + m);
        if str_eq(cand, p) {
            assert(contains_at(s@, p@, i as int));
            return true;
        }
        i += 1;
    }
    assert(forall|j: int| j >= i ==> !contains_at(s@, p@, j));
    false
}

/// Index of the first occurrence of `c` in `s`, or `-1` if there is none.
pub open spec fn find_char_idx(s: Seq<char>, c: char) -> int
    decreases s.len(),
{
    if s.len() == 0 {
        -1
    } else if s[0] == c {
        0
    } else {
        let r = find_char_idx(s.skip(1), c);
        if r < 0 {
            -1
        } else {
            r + 1
        }
    }
}

pub proof fn lemma_find_char(s: Seq<char>, c: char)
    ensures
        find_char_idx(s, c) >= -1,
        find_char_idx(s, c) == -1 ==> (forall|i: int| 0 <= i < s.len() ==> s[i] != c),
        find_char_idx(s, c) >= 0 ==> {
            let r = find_char_idx(s, c);
            &&& r < s.len()
            &&& s[r] == c
            &&& forall|i: int| 0 <= i < r ==> s[i] != c
        },
    decreases s.len(),
{
    if s.len() == 0 {
    } else if s[0] == c {
    } else {
        lemma_find_char(s.skip(1), c);
        assert(forall|i: int| 1 <= i < s.len() ==> s[i] == s.skip(1)[i - 1]);
    }
}

pub fn find_char(s: &str, c: char) -> (r: Option<usize>)
    ensures
        find_char_idx(s@, c) == -1 ==> r is None,
        find_char_idx(s@, c) >= 0 ==> r == Some(find_char_idx(s@, c) as usize),
{
    let n = s.unicode_len();
    let mut i: usize = 0;
    proof {
        lemma_find_char(s@, c);
    }
    while i < n
        invariant
            n == s@.len(),
            i <= n,
            forall|j: int| 0 <= j < i ==> s@[j] != c,
            find_char_idx(s@, c) == -1 ==> (forall|k: int| 0 <= k < s@.len() ==> s@[k] != c),
            find_char_idx(s@, c) >= 0 ==> {
                let r = find_char_idx(s@, c);
                &&& r < s@.len()
                &&& s@[r] == c
                &&& forall|k: int| 0 <= k < r ==> s@[k] != c
            },
        decreases n - i,
    {
        if s.get_char(i) == c {
            assert(find_char_idx(s@, c) == i as int);
            return Some(i);
        }
        i += 1;
    }
    assert(find_char_idx(s@, c) == -1);
    None
}

/// Leading whitespace removed.
pub open spec fn ltrim_spec(s: Seq<char>) -> Seq<char>
    decreases s.len(),
{
    if s.len() > 0 && is_ws_char(s[0]) {
        ltrim_spec(s.skip(1))
    } else {
        s
    }
}

/// Trailing whitespace removed.
pub open spec fn rtrim_spec(s: Seq<char>) -> Seq<char>
    decreases s.len(),
{
    if s.len() > 0 && is_ws_char(s.last()) {
        rtrim_spec(s.drop_last())
    } else {
        s
    }
}

/// What `str::trim` returns: both ends stripped of whitespace.
pub open spec fn trim_spec(s: Seq<char>) -> Seq<char> {
    rtrim_spec(ltrim_spec(s))
}

pub fn str_trim<'a>(s: &'a str) -> (r: &'a str)
    ensures
        r@ == trim_spec(s@),
{
    let n = s.unicode_len();
    let mut a: usize = 0;
    assert(s@.skip(0) =~= s@);
    while a < n && char_is_ws(s.get_char(a))
        invariant
            n == s@.len(),
            a <= n,
            ltrim_spec(s@) == ltrim_spec(s@.skip(a as int)),
        decreases n - a,
    {
        assert(s@.skip(a as int).skip(1) =~= s@.skip(a as int + 1));
        a += 1;
    }
    assert(ltrim_spec(s@) == s@.skip(a as int)) by {
        if a < n {
            assert(s@.skip(a as int)[0] == s@[a as int]);
        } else {
            assert(s@.skip(a as int).len() == 0);
        }
    }
    let mut b: usize = n;
    while b > a && char_is_ws(s.get_char(b - 1))
        invariant
            n == s@.len(),
            a <= b <= n,
            ltrim_spec(s@) == s@.skip(a as int),
            rtrim_spec(s@.skip(a as int)) == rtrim_spec(s@.subrange(a as int, b as int)),
        decreases b,
    {
        assert(s@.subrange(a as int, b as int).last() == s@[b - 1]);
        assert(s@.subrange(a as int, b as int).drop_last() =~= s@.subrange(a as int, b as int - 1));
        b -= 1;
    }
    assert(rtrim_spec(s@.subrange(a as int, b as int)) == s@.subrange(a as int, b as int)) by {
        if b > a {
            assert(s@.subrange(a as int, b as int).last() == s@[b - 1]);
        } else {
            assert(s@.subrange(a as int, b as int).len() == 0);
        }
    }
    s.substring_char(a, b)
}

/// All ASCII space characters removed, as `str::replace(" ", "")` leaves it.
pub open spec fn despace_spec(s: Seq<char>) -> Seq<char>
    decreases s.len(),
{
    if s.len() == 0 {
        Seq::empty()
    } else if s.last() == ' ' {
        despace_spec(s.drop_last())
    } else {
        despace_spec(s.drop_last()).push(s.last())
    }
}

pub fn str_despace(s: &str) -> (r: String)
    ensures
        r@ == despace_spec(s@),
{
    let n = s.unicode_len();
    let mut out = String::new();
    let mut i: usize = 0;
    while i < n
        invariant
            n == s@.len(),
            i <= n,
            out@ == despace_spec(s@.take(i as int)),
        decreases n - i,
    {
        let c = s.get_char(i);
        assert(s@.take(i as int + 1).drop_last() =~= s@.take(i as int));
        assert(s@.take(i as int + 1).last() == s@[i as int]);
        if c != ' ' {
            push_char(&mut out, c);
        }
        i += 1;
    }
    assert(s@.take(n as int) =~= s@);
    out
}

/// Every occurrence of `p` removed from `s`, scanning left to right without
/// overlap, as `str::replace(p, "")` leaves it.
pub open spec fn remove_all_spec(s: Seq<char>, p: Seq<char>) -> Seq<char>
    decreases s.len(),
{
    if p.len() == 0 || s.len() < p.len() {
        s
    } else if s.take(p.len() as int) == p {
        remove_all_spec(s.skip(p.len() as int), p)
    } else {
        seq![s[0]] + remove_all_spec(s.skip(1), p)
    }
}

pub fn str_remove_all(s: &str, p: &str) -> (r: String)
    requires
        p@.len() > 0,
    ensures
        r@ == remove_all_spec(s@, p@),
{
    let n = s.unicode_len();
    let m = p.unicode_len();
    let mut out = String::new();
    let mut i: usize = 0;
    proof {
        assert(s@.skip(0) =~= s@);
        assert(out@ + remove_all_spec(s@, p@) =~= remove_all_spec(s@, p@));
    }
    while i < n
        invariant
            n == s@.len(),
            m == p@.len(),
            1 <= m,
            i <= n,
            remove_all_spec(s@, p@) == out@ + remove_all_spec(s@.skip(i as int), p@),
        decreases n - i,
    {
        let tail_len = n - i;
        if tail_len >= m && str_eq(s.substring_char(i, i + m), p) {
            proof {
                assert(s@.skip(i as int).take(m as int) =~= s@.subrange(
                    i as int,
                    i as int + m as int,
                ));
                assert(s@.skip(i as int).skip(m as int) =~= s@.skip(i as int + m as int));
            }
            i += m;
        } else {
            let c = s.get_char(i);
            proof {
                let tail = s@.skip(i as int);
                assert(tail[0] == s@[i as int]);
                if tail.len() >= m {
                    assert(tail.take(m as int) =~= s@.subrange(i as int, i as int + m as int));
                }
                assert(tail.skip(1) =~= s@.skip(i as int + 1));
                assert(remove_all_spec(tail, p@) == seq![s@[i as int]] + remove_all_spec(
                    s@.skip(i as int + 1),
                    p@,
                ));
                assert(out@ + (seq![s@[i as int]] + remove_all_spec(s@.skip(i as int + 1), p@))
                    =~= out@.push(s@[i as int]) + remove_all_spec(s@.skip(i as int + 1), p@));
            }
            push_char(&mut out, c);
            i += 1;
        }
    }
    proof {
        assert(s@.skip(n as int).len() == 0);
        assert(out@ + remove_all_spec(s@.skip(n as int), p@) =~= out@);
    }
    assert(s@.skip(0) =~= s@);
    out
}

/// The segments of `s` between occurrences of `sep`, empties kept, as
/// `str::split(sep)` yields them.
pub open spec fn split_spec(s: Seq<char>, sep: char) -> Seq<Seq<char>>
    decreases s.len(),
{
    if s.len() == 0 {
        seq![Seq::empty()]
    } else if s[0] == sep {
        seq![Seq::<char>::empty()] + split_spec(s.skip(1), sep)
    } else {
        let rest = split_spec(s.skip(1), sep);
        seq![seq![s[0]] + rest[0]] + rest.skip(1)
    }
}

pub proof fn lemma_split_spec_len(s: Seq<char>, sep: char)
    ensures
        split_spec(s, sep).len() >= 1,
    decreases s.len(),
{
    if s.len() == 0 {
    } else {
        lemma_split_spec_len(s.skip(1), sep);
    }
}

pub fn split_by_char(s: &str, sep: char) -> (r: Vec<String>)
    ensures
        r.deep_view() == split_spec(s@, sep),
        r.len() >= 1,
{
    let n = s.unicode_len();
    let mut parts: Vec<String> = Vec::new();
    let mut cur = String::new();
    let mut i: usize = 0;
    proof {
        lemma_split_spec_len(s@, sep);
        assert(s@.skip(0) =~= s@);
        let sp = split_spec(s@, sep);
        assert(cur@ + sp[0] =~= sp[0]);
        assert(parts.deep_view() =~= Seq::<Seq<char>>::empty());
        assert(parts.deep_view() + seq![cur@ + sp[0]] + sp.skip(1) =~= sp);
    }
    while i < n
        invariant
            n == s@.len(),
            i <= n,
            split_spec(s@, sep) == parts.deep_view() + seq![
                cur@ + split_spec(s@.skip(i as int), sep)[0],
            ] + split_spec(s@.skip(i as int), sep).skip(1),
        decreases n - i,
    {
        let c = s.get_char(i);
        proof {
            let tail = s@.skip(i as int);
            assert(tail[0] == s@[i as int]);
            assert(tail.skip(1) =~= s@.skip(i as int + 1));
            lemma_split_spec_len(s@.skip(i as int + 1), sep);
        }
        if c == sep {
            let done = cur;
            cur = String::new();
            proof {
                let tail2 = split_spec(s@.skip(i as int + 1), sep);
                assert((seq![Seq::<char>::empty()] + tail2)[0] == Seq::<char>::empty());
                assert((seq![Seq::<char>::empty()] + tail2).skip(1) =~= tail2);
                assert(done@ + Seq::<char>::empty() =~= done@);
                assert(parts.deep_view().push(done@) =~= parts.deep_view() + seq![done@]);
                assert(parts.deep_view() + seq![done@] + seq![
                    Seq::<char>::empty() + tail2[0],
                ] + tail2.skip(1) =~= parts.deep_view() + seq![done@ + Seq::<char>::empty()]
                    + tail2);
            }
            parts.push(done);
            proof {
                let tail2 = split_spec(s@.skip(i as int + 1), sep);
                assert(parts.deep_view() + seq![Seq::<char>::empty() + tail2[0]] + tail2.skip(1)
                    =~= split_spec(s@, sep));
            }
        } else {
            proof {
                let rest = split_spec(s@.skip(i as int + 1), sep);
                let here = split_spec(s@.skip(i as int), sep);
                assert(here == seq![seq![s@[i as int]] + rest[0]] + rest.skip(1));
                assert(here[0] == seq![s@[i as int]] + rest[0]);
                assert(here.skip(1) =~= rest.skip(1));
                assert(cur@ + (seq![s@[i as int]] + rest[0]) =~= cur@.push(s@[i as int])
                    + rest[0]);
            }
            push_char(&mut cur, c);
        }
        i += 1;
    }
    proof {
        assert(s@.skip(n as int).len() == 0);
        let last = split_spec(s@.skip(n as int), sep);
        assert(last == seq![Seq::<char>::empty()]);
        assert(last[0] == Seq::<char>::empty());
        assert(cur@ + Seq::<char>::empty() =~= cur@);
        assert(last.skip(1) =~= Seq::<Seq<char>>::empty());
        assert(parts.deep_view() + seq![cur@ + last[0]] + last.skip(1) =~= parts.deep_view().push(
            cur@,
        ));
        assert(s@.skip(0) =~= s@);
    }
    parts.push(cur);
    proof {
        lemma_split_spec_len(s@, sep);
    }
    parts
}

/// One trailing carriage return removed, as `str::lines` strips it from a
/// segment that a line feed terminated.
pub open spec fn strip_cr_spec(t: Seq<char>) -> Seq<char> {
    if t.len() > 0 && t.last() == '\r' {
        t.drop_last()
    } else {
        t
    }
}

/// What `str::lines` yields: segments split at line feeds, a trailing
/// carriage return stripped from each terminated segment, and no final empty
/// segment when the text ends with a line feed.
pub open spec fn lines_spec(s: Seq<char>) -> Seq<Seq<char>> {
    let parts = split_spec(s, '\n');
    if parts.last().len() == 0 {
        parts.drop_last().map_values(|t: Seq<char>| strip_cr_spec(t))
    } else {
        parts.drop_last().map_values(|t: Seq<char>| strip_cr_spec(t)) + seq![parts.last()]
    }
}

fn strip_cr(t: String) -> (r: String)
    ensures
        r@ == strip_cr_spec(t@),
{
    let n = t.as_str().unicode_len();
    if n > 0 && t.as_str().get_char(n - 1) == '\r' {
        let r = t.as_str().substring_char(0, n - 1).to_owned();
        assert(r@ =~= t@.drop_last());
        r
    } else {
        t
    }
}

pub fn str_lines(s: &str) -> (r: Vec<String>)
    ensures
        r.deep_view() == lines_spec(s@),
{
    let mut parts = split_by_char(s, '\n');
    let ghost all = split_spec(s@, '\n');
    proof {
        lemma_split_spec_len(s@, '\n');
    }
    let ghost body = all.drop_last();
    let ghost stripped = body.map_values(|t: Seq<char>| strip_cr_spec(t));
    let last = match parts.pop() {
        Some(l) => l,
        None => {
            return Vec::new();
        },
    };
    assert(parts.deep_view() =~= body);
    assert(last@ == all.last());
    let mut out: Vec<String> = Vec::new();
    let mut i: usize = 0;
    let k = parts.len();
    assert(out.deep_view() =~= stripped.take(0));
    while i < k
        invariant
            k == parts.len(),
            i <= k,
            parts.deep_view() == body,
            stripped == body.map_values(|t: Seq<char>| strip_cr_spec(t)),
            k == body.len(),
            out.deep_view() =~= stripped.take(i as int),
        decreases k - i,
    {
        let seg = strip_cr(parts[i].clone());
        proof {
            assert(parts.deep_view()[i as int] == parts[i as int].deep_view());
            assert(seg@ == strip_cr_spec(body[i as int]));
            assert(stripped[i as int] == strip_cr_spec(body[i as int]));
            assert(stripped.take(i as int + 1) =~= stripped.take(i as int).push(
                stripped[i as int],
            ));
        }
        out.push(seg);
        i += 1;
    }
    assert(out.deep_view() =~= stripped);
    let last_len = last.as_str().unicode_len();
    if last_len > 0 {
        out.push(last);
        assert(out.deep_view() =~= stripped + seq![all.last()]);
    }
    out
}

/// The parts joined with `sep` between consecutive parts.
pub open spec fn join_spec(parts: Seq<Seq<char>>, sep: Seq<char>) -> Seq<char>
    decreases parts.len(),
{
    if parts.len() == 0 {
        Seq::empty()
    } else if parts.len() == 1 {
        parts[0]
    } else {
        join_spec(parts.drop_last(), sep) + sep + parts.last()
    }
}

pub fn join_strings(parts: &Vec<String>, sep: &str) -> (r: String)
    ensures
        r@ == join_spec(parts.deep_view(), sep@),
{
    let mut out = String::new();
    let mut i: usize = 0;
    let n = parts.len();
    while i < n
        invariant
            n == parts.len(),
            i <= n,
            out@ == join_spec(parts.deep_view().take(i as int), sep@),
        decreases n - i,
    {
        if i > 0 {
            out.append(sep);
        }
        out.append(parts[i].as_str());
        proof {
            let dv = parts.deep_view();
            assert(dv.take(i as int + 1).drop_last() =~= dv.take(i as int));
            assert(dv.take(i as int + 1).last() == dv[i as int]);
        }
        i += 1;
    }
    assert(parts.deep_view().take(n as int) =~= parts.deep_view());
    out
}

/// A string without whitespace trims to itself.
pub proof fn lemma_trim_id(s: Seq<char>)
    requires
        forall|i: int| 0 <= i < s.len() ==> !is_ws_char(s[i]),
    ensures
        trim_spec(s) == s,
{
}

/// A string without ASCII spaces despaces to itself.
pub proof fn lemma_despace_id(s: Seq<char>)
    requires
        forall|i: int| 0 <= i < s.len() ==> s[i] != ' ',
    ensures
        despace_spec(s) == s,
    decreases s.len(),
{
    if s.len() > 0 {
        lemma_despace_id(s.drop_last());
        assert(despace_spec(s.drop_last()).push(s.last()) =~= s);
    }
}

pub proof fn lemma_ltrim_append(s: Seq<char>, c: char)
    ensures
        ltrim_spec(s + seq![c]) == if ltrim_spec(s).len() == 0 {
            ltrim_spec(seq![c])
        } else {
            ltrim_spec(s) + seq![c]
        },
    decreases s.len(),
{
    if s.len() == 0 {
        assert(s + seq![c] =~= seq![c]);
    } else if is_ws_char(s[0]) {
        assert((s + seq![c])[0] == s[0]);
        assert((s + seq![c]).skip(1) =~= s.skip(1) + seq![c]);
        lemma_ltrim_append(s.skip(1), c);
    } else {
        assert((s + seq![c])[0] == s[0]);
    }
}

/// Trimming is insensitive to one whitespace character prepended.
pub proof fn lemma_trim_prepend_ws(s: Seq<char>, c: char)
    requires
        is_ws_char(c),
    ensures
        trim_spec(seq![c] + s) == trim_spec(s),
{
    assert((seq![c] + s)[0] == c);
    assert((seq![c] + s).skip(1) =~= s);
}

/// Trimming is insensitive to one whitespace character appended.
pub proof fn lemma_trim_append_ws(s: Seq<char>, c: char)
    requires
        is_ws_char(c),
    ensures
        trim_spec(s + seq![c]) == trim_spec(s),
{
    lemma_ltrim_append(s, c);
    if ltrim_spec(s).len() == 0 {
        assert(ltrim_spec(seq![c]) =~= Seq::<char>::empty()) by {
            assert(seq![c][0] == c);
            assert(ltrim_spec(Seq::<char>::empty()) =~= Seq::<char>::empty());
            assert(seq![c].skip(1) =~= Seq::<char>::empty());
        }
    } else {
        let t = ltrim_spec(s);
        assert((t + seq![c]).last() == c);
        assert((t + seq![c]).drop_last() =~= t);
    }
}

/// Removing a pattern from a text that begins with that very pattern
/// removes the head occurrence and goes on in the rest.
pub proof fn lemma_remove_all_head_match(s: Seq<char>, p: Seq<char>)
    requires
        p.len() > 0,
    ensures
        remove_all_spec(p + s, p) == remove_all_spec(s, p),
{
    assert((p + s).take(p.len() as int) =~= p);
    assert((p + s).skip(p.len() as int) =~= s);
}

/// Removing a pattern leaves untouched a leading region in which no
/// character equals the pattern's first character.
pub proof fn lemma_remove_all_unmatched_prefix(pre: Seq<char>, s: Seq<char>, p: Seq<char>)
    requires
        p.len() > 0,
        forall|o: int| 0 <= o < pre.len() ==> pre[o] != p[0],
    ensures
        remove_all_spec(pre + s, p) == pre + remove_all_spec(s, p),
    decreases pre.len(),
{
    if pre.len() == 0 {
        assert(pre + s =~= s);
        assert(pre + remove_all_spec(s, p) =~= remove_all_spec(s, p));
    } else {
        let w = pre + s;
        assert(w[0] == pre[0]);
        if w.len() < p.len() {
            assert(s.len() < p.len());
            assert(remove_all_spec(s, p) == s);
        } else {
            assert(w.take(p.len() as int)[0] == pre[0]);
            assert(w.take(p.len() as int) != p);
            assert(w.skip(1) =~= pre.skip(1) + s);
            lemma_remove_all_unmatched_prefix(pre.skip(1), s, p);
            assert(seq![w[0]] + (pre.skip(1) + remove_all_spec(s, p)) =~= pre + remove_all_spec(
                s,
                p,
            ));
        }
    }
}

/// `v` holds a string equal to `x`.
pub open spec fn seq_contains_str(v: Seq<Seq<char>>, x: Seq<char>) -> bool {
    exists|i: int| 0 <= i < v.len() && v[i] == x
}

pub fn vec_contains_str(v: &Vec<String>, x: &str) -> (r: bool)
    ensures
        r == seq_contains_str(v.deep_view(), x@),
{
    let n = v.len();
    let mut i: usize = 0;
    while i < n
        invariant
            n == v.len(),
            i <= n,
            forall|j: int| 0 <= j < i ==> v.deep_view()[j] != x@,
        decreases n - i,
    {
        if str_eq(v[i].as_str(), x) {
            assert(v.deep_view()[i as int] == x@);
            return true;
        }
        i += 1;
    }
    false
}

} // verus!
