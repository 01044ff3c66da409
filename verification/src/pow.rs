//! Compile-time power folding: two literal macro arguments, base and
//! exponent, are parsed and the decimal text of `base ^ exponent` is
//! substituted as the expansion's source text.

use vstd::prelude::*;

use crate::token_tree_parser::{spec_parse_args, TokenTreeParser};
use crate::MacroOutput;

verus! {

pub open spec fn is_digit(c: char) -> bool {
    48 <= (c as u32) && (c as u32) <= 57
}

pub open spec fn digit_val(c: char) -> nat {
    ((c as u32) - 48) as nat
}

fn char_is_digit(c: char) -> (r: bool)
    ensures
        r == is_digit(c),
{
    let u = c as u32;
    48 <= u && u <= 57
}

/// The literal without one optional leading sign.
pub open spec fn lit_body(s: Seq<char>) -> Seq<char> {
    if s.len() > 0 && (s[0] == '+' || s[0] == '-') {
        s.skip(1)
    } else {
        s
    }
}

/// The texts an arbitrary-precision integer parser accepts: an optional
/// sign, then a digit, then digits or underscore separators.
pub open spec fn is_int_literal(s: Seq<char>) -> bool {
    let b = lit_body(s);
    &&& b.len() > 0
    &&& is_digit(b[0])
    &&& forall|i: int| 0 <= i < b.len() ==> is_digit(b[i]) || b[i] == '_'
}

/// The value of a digit string, underscores skipped.
pub open spec fn digits_value(s: Seq<char>) -> nat
    decreases s.len(),
{
    if s.len() == 0 {
        0
    } else if s.last() == '_' {
        digits_value(s.drop_last())
    } else {
        digits_value(s.drop_last()) * 10 + digit_val(s.last())
    }
}

/// The signed value of an integer literal.
pub open spec fn int_of_literal(s: Seq<char>) -> int {
    if s.len() > 0 && s[0] == '-' {
        -(digits_value(lit_body(s)) as int)
    } else {
        digits_value(lit_body(s)) as int
    }
}

pub open spec fn digit_char(d: nat) -> char {
    if d == 0 {
        '0'
    } else if d == 1 {
        '1'
    } else if d == 2 {
        '2'
    } else if d == 3 {
        '3'
    } else if d == 4 {
        '4'
    } else if d == 5 {
        '5'
    } else if d == 6 {
        '6'
    } else if d == 7 {
        '7'
    } else if d == 8 {
        '8'
    } else {
        '9'
    }
}

/// The decimal digits of a natural number, most significant first.
pub open spec fn dec_digits(n: nat) -> Seq<char>
    decreases n,
{
    if n < 10 {
        seq![digit_char(n)]
    } else {
        dec_digits(n / 10).push(digit_char(n % 10))
    }
}

/// The canonical decimal text of an integer: a minus sign for negative
/// values, then the digits without leading zeros.
pub open spec fn dec_str_of(v: int) -> Seq<char> {
    if v < 0 {
        seq!['-'] + dec_digits((-v) as nat)
    } else {
        dec_digits(v as nat)
    }
}

fn is_int_literal_exec(s: &str) -> (r: bool)
    ensures
        r == is_int_literal(s@),
{
    let n = s.unicode_len();
    if n == 0 {
        return false;
    }
    let first = s.get_char(0);
    let start: usize = if first == '+' || first == '-' {
        1
    } else {
        0
    };
    let ghost b = lit_body(s@);
    assert(b =~= s@.skip(start as int));
    if start == n {
        return false;
    }
    if !char_is_digit(s.get_char(start)) {
        assert(b[0] == s@[start as int]);
        return false;
    }
    let mut i: usize = start;
    while i < n
        invariant
            n == s@.len(),
            start <= i <= n,
            b == s@.skip(start as int),
            b == lit_body(s@),
            forall|j: int| 0 <= j < i - start ==> is_digit(b[j]) || b[j] == '_',
        decreases n - i,
    {
        let c = s.get_char(i);
        if !char_is_digit(c) && c != '_' {
            assert(b[i - start] == s@[i as int]);
            assert(!(is_digit(b[i - start]) || b[i - start] == '_'));
            return false;
        }
        assert(b[i - start] == s@[i as int]);
        i += 1;
    }
    assert(b[0] == s@[start as int]);
    true
}

/// Parses the exponent: the value of the literal when it is one and fits
/// the machine word that exponentiation takes, and nothing otherwise.
fn parse_exponent(s: &str) -> (r: Option<usize>)
    ensures
        r is Some <==> is_int_literal(s@) && 0 <= int_of_literal(s@) <= usize::MAX,
        r matches Some(v) ==> v as int == int_of_literal(s@),
{
    if !is_int_literal_exec(s) {
        return None;
    }
    let n = s.unicode_len();
    let first = s.get_char(0);
    let neg = first == '-';
    let start: usize = if first == '+' || first == '-' {
        1
    } else {
        0
    };
    let ghost b = lit_body(s@);
    assert(b =~= s@.skip(start as int));
    let mut acc: usize = 0;
    let mut overflow = false;
    let mut i: usize = start;
    assert(s@.subrange(start as int, start as int) =~= Seq::<char>::empty());
    while i < n
        invariant
            n == s@.len(),
            start <= i <= n,
            b == s@.skip(start as int),
            b == lit_body(s@),
            is_int_literal(s@),
            !overflow ==> acc as nat == digits_value(s@.subrange(start as int, i as int)),
            overflow ==> digits_value(s@.subrange(start as int, i as int)) > usize::MAX,
        decreases n - i,
    {
        let c = s.get_char(i);
        let ghost pre = s@.subrange(start as int, i as int);
        let ghost cur = s@.subrange(start as int, i as int + 1);
        proof {
            assert(b[i - start] == s@[i as int]);
            assert(cur.drop_last() =~= pre);
            assert(cur.last() == s@[i as int]);
        }
        if c != '_' {
            assert(is_digit(c));
            let d = (c as u32 - 48) as usize;
            assert(d == digit_val(c));
            assert(d <= 9);
            if overflow || acc > (usize::MAX - d) / 10 {
                proof {
                    if !overflow {
                        assert(acc * 10 + d > usize::MAX) by (nonlinear_arith)
                            requires
                                acc > (usize::MAX - d) / 10,
                                d <= 9,
                        ;
                    } else {
                        assert(digits_value(pre) * 10 + digit_val(c) > usize::MAX) by (
                        nonlinear_arith)
                            requires
                                digits_value(pre) > usize::MAX,
                        ;
                    }
                }
                overflow = true;
            } else {
                proof {
                    assert(acc * 10 + d <= usize::MAX) by (nonlinear_arith)
                        requires
                            acc <= (usize::MAX - d) / 10,
                            d <= usize::MAX,
                    ;
                }
                acc = acc * 10 + d;
            }
        }
        i += 1;
    }
    assert(s@.subrange(start as int, n as int) =~= b);
    if overflow {
        proof {
            if neg {
                assert(int_of_literal(s@) < 0);
            } else {
                assert(int_of_literal(s@) > usize::MAX);
            }
        }
        None
    } else if neg && acc > 0 {
        assert(int_of_literal(s@) < 0);
        None
    } else {
        assert(acc as int == int_of_literal(s@));
        Some(acc)
    }
}

/// Relies on `num_bigint::BigInt::from_str` (a signed decimal literal with
/// optional underscore separators parses to its value), `num_traits::pow`
/// over `bigdecimal::BigDecimal` (exact integer exponentiation by repeated
/// multiplication), and `BigDecimal`'s `Display` (an integer-valued,
/// scale-zero decimal prints as its plain signed decimal digits).
#[verifier::external_body]
fn big_pow(base: &str, exp: usize) -> (r: String)
    requires
        is_int_literal(base@),
    ensures
        r@ == dec_str_of(vstd::arithmetic::power::pow(int_of_literal(base@), exp as nat)),
{
    let b: bigdecimal::num_bigint::BigInt = base.parse().unwrap();
    let d = bigdecimal::BigDecimal::from(b);
    let result: bigdecimal::BigDecimal = bigdecimal::num_traits::pow(d, exp);
    result.to_string()
}

/// The literal power folder: expects exactly two literal arguments, base
/// and exponent, and expands to the decimal text of `base ^ exponent`; a
/// wrong arity, a non-numeric base or an unusable exponent each yield
/// their diagnostic and no source.
pub fn pow(args: &str) -> (r: MacroOutput)
    ensures
        ({
            let a = spec_parse_args(args@);
            &&& a.len() != 2 ==> r.content@.len() == 0 && r.diagnostics.deep_view() == seq![
                "Invalid number of arguments"@,
            ]
            &&& a.len() == 2 && !is_int_literal(a[0]) ==> r.content@.len() == 0
                && r.diagnostics.deep_view() == seq!["Invalid base value"@]
            &&& a.len() == 2 && is_int_literal(a[0]) && !(is_int_literal(a[1]) && 0
                <= int_of_literal(a[1]) <= usize::MAX) ==> r.content@.len() == 0
                && r.diagnostics.deep_view() == seq!["Invalid exponent value"@]
            &&& a.len() == 2 && is_int_literal(a[0]) && is_int_literal(a[1]) && 0 <= int_of_literal(
                a[1],
            ) <= usize::MAX ==> r.content@ == dec_str_of(
                vstd::arithmetic::power::pow(
                    int_of_literal(a[0]),
                    int_of_literal(a[1]) as nat,
                ),
            ) && r.diagnostics@.len() == 0
        }),
{
    let macro_args = TokenTreeParser::parse_simple_string(args);
    let ghost a = spec_parse_args(args@);
    if macro_args.len() != 2 {
        let mut diagnostics: Vec<String> = Vec::new();
        diagnostics.push("Invalid number of arguments".to_owned());
        assert(diagnostics.deep_view() =~= Seq::<Seq<char>>::empty().push(diagnostics[0]@));
        return MacroOutput { content: String::new(), diagnostics };
    }
    assert(macro_args.deep_view()[0] == macro_args[0]@);
    assert(macro_args.deep_view()[1] == macro_args[1]@);
    if !is_int_literal_exec(macro_args[0].as_str()) {
        let mut diagnostics: Vec<String> = Vec::new();
        diagnostics.push("Invalid base value".to_owned());
        assert(diagnostics.deep_view() =~= Seq::<Seq<char>>::empty().push(diagnostics[0]@));
        return MacroOutput { content: String::new(), diagnostics };
    }
    match parse_exponent(macro_args[1].as_str()) {
        None => {
            let mut diagnostics: Vec<String> = Vec::new();
            diagnostics.push("Invalid exponent value".to_owned());
            assert(diagnostics.deep_view() =~= Seq::<Seq<char>>::empty().push(diagnostics[0]@));
            MacroOutput { content: String::new(), diagnostics }
        },
        Some(exp) => {
            let content = big_pow(macro_args[0].as_str(), exp);
            MacroOutput { content, diagnostics: Vec::new() }
        },
    }
}

} // verus!
