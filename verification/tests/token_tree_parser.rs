use cairo_macros::token_tree_parser::TokenTreeParser;

#[test]
fn test_simple_string_parsing() {
    let args = TokenTreeParser::parse_simple_string("(2, 10)");
    assert_eq!(args, vec!["2", "10"]);
}

#[test]
fn test_simple_string_parsing_with_expressions() {
    let args = TokenTreeParser::parse_simple_string("(2 + 3, 4 * 5)");
    assert_eq!(args.len(), 2);
    // The exact format may vary based on tokenization, but should contain the numbers
    assert!(args[0].contains("2") && args[0].contains("3"));
    assert!(args[1].contains("4") && args[1].contains("5"));
}

#[test]
fn test_simple_string_parsing_multiple_args() {
    let args = TokenTreeParser::parse_simple_string("(42, some_var, 100)");
    assert_eq!(args.len(), 3);
    assert_eq!(args[0].trim(), "42");
    assert!(args[1].trim().contains("some_var"));
    assert_eq!(args[2].trim(), "100");
}

#[test]
fn test_simple_string_parsing_empty() {
    let args = TokenTreeParser::parse_simple_string("()");
    assert_eq!(args.len(), 0);
}

#[test]
fn test_simple_string_parsing_drops_empty_pieces() {
    let args = TokenTreeParser::parse_simple_string("(1, , 2)");
    assert_eq!(args, vec!["1", "2"]);
}
