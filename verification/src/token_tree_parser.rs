//! Simple string-based parsing of an inline macro's argument token tree:
//! the parenthesized text is split at commas into trimmed, non-empty
//! argument strings.

use vstd::prelude::*;

use crate::text::{split_spec, str_trim, trim_spec};

verus! {

/// Leading `(` characters removed, as `str::trim_start_matches('(')`
/// leaves it.
pub open spec fn strip_open_parens(s: Seq<char>) -> Seq<char>
    decreases s.len(),
{
    if s.len() > 0 && s[0] == '(' {
        strip_open_parens(s.skip(1))
    } else {
        s
    }
}

/// Trailing `)` characters removed, as `str::trim_end_matches(')')`
/// leaves it.
pub open spec fn strip_close_parens(s: Seq<char>) -> Seq<char>
    decreases s.len(),
{
    if s.len() > 0 && s.last() == ')' {
        strip_close_parens(s.drop_last())
    } else {
        s
    }
}

/// The argument strings an argument token tree's text yields: the content
/// between the parentheses, split at commas, each piece trimmed, empty
/// pieces dropped.
pub open spec fn spec_parse_args(s: Seq<char>) -> Seq<Seq<char>> {
    let content = strip_close_parens(strip_open_parens(s));
    if content.len() == 0 {
        Seq::empty()
    } else {
        split_spec(content, ',').map_values(|t: Seq<char>| trim_spec(t)).filter(
            |t: Seq<char>| t.len() > 0,
        )
    }
}

/// Parses comma-separated macro arguments out of their token tree text.
pub struct TokenTreeParser;

impl TokenTreeParser {
    /// Splits the parenthesized argument text at commas into trimmed,
    /// non-empty argument strings.
    pub fn parse_simple_string(token_text: &str) -> (r: Vec<String>)
        ensures
            r.deep_view() == spec_parse_args(token_text@),
    {
        let n = token_text.unicode_len();
        let mut a: usize = 0;
        assert(token_text@.skip(0) =~= token_text@);
        while a < n && token_text.get_char(a) == '('
            invariant
                n == token_text@.len(),
                a <= n,
                strip_open_parens(token_text@) == strip_open_parens(token_text@.skip(a as int)),
            decreases n - a,
        {
            assert(token_text@.skip(a as int)[0] == token_text@[a as int]);
            assert(token_text@.skip(a as int).skip(1) =~= token_text@.skip(a as int + 1));
            a += 1;
        }
        assert(strip_open_parens(token_text@) == token_text@.skip(a as int)) by {
            if a < n {
                assert(token_text@.skip(a as int)[0] == token_text@[a as int]);
            }
        }
        let mut b: usize = n;
        while b > a && token_text.get_char(b - 1) == ')'
            invariant
                n == token_text@.len(),
                a <= b <= n,
                strip_open_parens(token_text@) == token_text@.skip(a as int),
                strip_close_parens(token_text@.skip(a as int)) == strip_close_parens(
                    token_text@.subrange(a as int, b as int),
                ),
            decreases b,
        {
            assert(token_text@.subrange(a as int, b as int).last() == token_text@[b - 1]);
            assert(token_text@.subrange(a as int, b as int).drop_last() =~= token_text@.subrange(
                a as int,
                b as int - 1,
            ));
            b -= 1;
        }
        assert(strip_close_parens(token_text@.subrange(a as int, b as int))
            == token_text@.subrange(a as int, b as int)) by {
            if b > a {
                assert(token_text@.subrange(a as int, b as int).last() == token_text@[b - 1]);
            }
        }
        let content = token_text.substring_char(a, b);
        let ghost cv = token_text@.subrange(a as int, b as int);

        if content.is_empty() {
            let r: Vec<String> = Vec::new();
            assert(r.deep_view() =~= Seq::<Seq<char>>::empty());
            return r;
        }

        let parts = crate::text::split_by_char(content, ',');
        let ghost pv = split_spec(cv, ',');
        let mut out: Vec<String> = Vec::new();
        let mut i: usize = 0;
        let k = parts.len();
        proof {
            reveal(Seq::filter);
            assert(pv.take(0).map_values(|t: Seq<char>| trim_spec(t)) =~= Seq::<
                Seq<char>,
            >::empty());
            assert(out.deep_view() =~= pv.take(0).map_values(|t: Seq<char>| trim_spec(t)).filter(
                |t: Seq<char>| t.len() > 0,
            ));
        }
        while i < k
            invariant
                k == parts.len(),
                i <= k,
                parts.deep_view() == pv,
                out.deep_view() == pv.take(i as int).map_values(|t: Seq<char>| trim_spec(t)).filter(
                    |t: Seq<char>| t.len() > 0,
                ),
            decreases k - i,
        {
            let t = str_trim(parts[i].as_str());
            proof {
                reveal(Seq::filter);
                assert(parts.deep_view()[i as int] == parts[i as int]@);
                let mapped = pv.take(i as int + 1).map_values(|t2: Seq<char>| trim_spec(t2));
                assert(mapped.drop_last() =~= pv.take(i as int).map_values(
                    |t2: Seq<char>| trim_spec(t2),
                ));
                assert(mapped.last() == trim_spec(pv[i as int]));
            }
            if !t.is_empty() {
                out.push(t.to_owned());
            }
            i += 1;
        }
        assert(pv.take(k as int) =~= pv);
        out
    }
}

} // verus!
