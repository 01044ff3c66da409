use cairo_macros::pow::pow;

#[test]
fn pow_folds_two_to_the_twentieth() {
    let out = pow("(2, 20)");
    assert_eq!(out.diagnostics.len(), 0);
    assert_eq!(out.content, "1048576");
}

#[test]
fn pow_arity_three_is_rejected() {
    let out = pow("(2, 20, 5)");
    assert_eq!(out.content, "");
    assert_eq!(out.diagnostics, vec!["Invalid number of arguments".to_string()]);
}

#[test]
fn pow_non_numeric_base_is_rejected() {
    let out = pow("(abc, 2)");
    assert_eq!(out.content, "");
    assert_eq!(out.diagnostics, vec!["Invalid base value".to_string()]);
}

#[test]
fn pow_negative_exponent_is_rejected() {
    let out = pow("(2, -1)");
    assert_eq!(out.content, "");
    assert_eq!(out.diagnostics, vec!["Invalid exponent value".to_string()]);
}

#[test]
fn pow_non_numeric_exponent_is_rejected() {
    let out = pow("(2, x)");
    assert_eq!(out.content, "");
    assert_eq!(out.diagnostics, vec!["Invalid exponent value".to_string()]);
}

#[test]
fn pow_negative_base_keeps_sign() {
    let out = pow("(-2, 3)");
    assert_eq!(out.diagnostics.len(), 0);
    assert_eq!(out.content, "-8");
}

#[test]
fn pow_zero_exponent_yields_one() {
    let out = pow("(7, 0)");
    assert_eq!(out.diagnostics.len(), 0);
    assert_eq!(out.content, "1");
}

#[test]
fn pow_accepts_underscore_separators() {
    let out = pow("(1_0, 2)");
    assert_eq!(out.diagnostics.len(), 0);
    assert_eq!(out.content, "100");
}

#[test]
fn pow_accepts_leading_plus() {
    let out = pow("(+2, 3)");
    assert_eq!(out.diagnostics.len(), 0);
    assert_eq!(out.content, "8");
}

#[test]
fn pow_large_base_is_exact() {
    let out = pow("(10, 30)");
    assert_eq!(out.diagnostics.len(), 0);
    assert_eq!(out.content, "1000000000000000000000000000000");
}
