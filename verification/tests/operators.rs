//! The closed operator spelling tables.

use ila_ast::ast::{BinaryOprt, UnaryOprt};
use ila_ast::tso_parser::{parse_binary_oprt_str, parse_unary_oprt_str};

#[test]
fn test_binary_operator_spellings() {
    assert_eq!(parse_binary_oprt_str("="), Some(BinaryOprt::Assign));
    assert_eq!(parse_binary_oprt_str("e"), Some(BinaryOprt::And));
    assert_eq!(parse_binary_oprt_str("ou"), Some(BinaryOprt::Or));
    assert_eq!(parse_binary_oprt_str("=="), Some(BinaryOprt::Eq));
    assert_eq!(parse_binary_oprt_str("!="), Some(BinaryOprt::Neq));
    assert_eq!(parse_binary_oprt_str("<"), Some(BinaryOprt::Lt));
    assert_eq!(parse_binary_oprt_str(">"), Some(BinaryOprt::Gt));
    assert_eq!(parse_binary_oprt_str("<="), Some(BinaryOprt::Le));
    assert_eq!(parse_binary_oprt_str(">="), Some(BinaryOprt::Ge));
    assert_eq!(parse_binary_oprt_str("+"), Some(BinaryOprt::Add));
    assert_eq!(parse_binary_oprt_str("-"), Some(BinaryOprt::Sub));
    assert_eq!(parse_binary_oprt_str("*"), Some(BinaryOprt::Mul));
    assert_eq!(parse_binary_oprt_str("/"), Some(BinaryOprt::Div));
}

#[test]
fn test_binary_operator_unknown_spellings() {
    assert_eq!(parse_binary_oprt_str("%"), None);
    assert_eq!(parse_binary_oprt_str("&&"), None);
    assert_eq!(parse_binary_oprt_str(""), None);
    assert_eq!(parse_binary_oprt_str("não"), None);
}

#[test]
fn test_unary_operator_spellings() {
    assert_eq!(parse_unary_oprt_str("*"), Some(UnaryOprt::Deref));
    assert_eq!(parse_unary_oprt_str("não"), Some(UnaryOprt::Not));
    assert_eq!(parse_unary_oprt_str("-"), Some(UnaryOprt::Neg));
}

#[test]
fn test_unary_operator_unknown_spellings() {
    assert_eq!(parse_unary_oprt_str("+"), None);
    assert_eq!(parse_unary_oprt_str("!"), None);
    assert_eq!(parse_unary_oprt_str(""), None);
    assert_eq!(parse_unary_oprt_str("ou"), None);
}
