//! The two error classes: the user-facing invalid-node error, and the
//! internal defect reports for grammar/engine mismatches.

use ila_ast::ast::{Ast, LexicalPosition};
use ila_ast::cst::{Cst, CstChild, CstNodeData};
use ila_ast::lower::{InternalFault, LowerError};
use ila_ast::tso_parser::{parse_expr, parse_stmt, parse_tree_sitter_output, parse_type_expr};

fn pos(line: usize, column: usize) -> LexicalPosition {
    LexicalPosition { line, column }
}

fn node(kind: &str, text: &str, children: Vec<CstChild>) -> CstNodeData {
    CstNodeData {
        kind: kind.to_string(),
        is_error: false,
        is_missing: false,
        start: pos(0, 0),
        end: pos(0, 0),
        text: text.to_string(),
        children,
    }
}

fn field(name: &str, target: usize) -> CstChild {
    CstChild { field_name: Some(name.to_string()), target }
}

fn bare(target: usize) -> CstChild {
    CstChild { field_name: None, target }
}

#[test]
fn test_error_node_span_reported() {
    // an unterminated construct: the parser marks the function node as an
    // error; the reported span must match that node's span exactly
    let mut function = node("function", "", vec![]);
    function.is_error = true;
    function.start = pos(1, 4);
    function.end = pos(3, 0);
    let cst = Cst { nodes: vec![function, node("program", "", vec![bare(0)])], root: 1 };
    match parse_tree_sitter_output(&cst) {
        Err(LowerError::InvalidNode { start, end }) => {
            assert_eq!(start, pos(1, 4));
            assert_eq!(end, pos(3, 0));
        },
        other => panic!("expected an invalid-node error, got {:?}", other),
    }
}

#[test]
fn test_missing_node_is_invalid() {
    let mut name = node("identifier", "", vec![]);
    name.is_missing = true;
    name.start = pos(0, 9);
    name.end = pos(0, 9);
    let cst = Cst {
        nodes: vec![name, node("raw_type", "", vec![field("name", 0)])],
        root: 1,
    };
    let mut ast = Ast::new();
    match parse_type_expr(&cst, 1, &mut ast) {
        Err(LowerError::InvalidNode { start, end }) => {
            assert_eq!(start, pos(0, 9));
            assert_eq!(end, pos(0, 9));
        },
        other => panic!("expected an invalid-node error, got {:?}", other),
    }
}

#[test]
fn test_error_node_of_any_kind_never_panics() {
    // closed-world dispatch: an error node, whatever its kind tag, yields
    // the invalid-node error from every dispatch family
    let mut weird = node("ERROR", "", vec![]);
    weird.is_error = true;
    weird.start = pos(2, 1);
    weird.end = pos(2, 7);
    let cst = Cst { nodes: vec![weird], root: 0 };
    let expected = LowerError::InvalidNode { start: pos(2, 1), end: pos(2, 7) };
    let mut ast = Ast::new();
    assert_eq!(parse_expr(&cst, 0, &mut ast), Err(expected));
    assert_eq!(parse_stmt(&cst, 0, &mut ast), Err(expected));
    assert_eq!(parse_type_expr(&cst, 0, &mut ast), Err(expected));
}

#[test]
fn test_missing_required_field() {
    // a raw_type node without its `name` field
    let cst = Cst { nodes: vec![node("raw_type", "", vec![])], root: 0 };
    let mut ast = Ast::new();
    assert_eq!(
        parse_type_expr(&cst, 0, &mut ast),
        Err(LowerError::Internal { fault: InternalFault::MissingField }),
    );
}

#[test]
fn test_unrecognized_kind() {
    // an expression node of a kind outside the closed dispatch table
    let cst = Cst { nodes: vec![node("mystery_expr", "", vec![])], root: 0 };
    let mut ast = Ast::new();
    assert_eq!(
        parse_expr(&cst, 0, &mut ast),
        Err(LowerError::Internal { fault: InternalFault::UnexpectedKind }),
    );
    // a root that is not a program node
    let cst2 = Cst { nodes: vec![node("function", "", vec![])], root: 0 };
    assert!(matches!(
        parse_tree_sitter_output(&cst2),
        Err(LowerError::Internal { fault: InternalFault::UnexpectedKind }),
    ));
}

#[test]
fn test_malformed_tree_rejected() {
    // a child reference that does not stand strictly below its parent
    let cst = Cst {
        nodes: vec![
            node("program", "", vec![bare(1)]),
            node("function", "", vec![]),
        ],
        root: 0,
    };
    assert!(matches!(
        parse_tree_sitter_output(&cst),
        Err(LowerError::Internal { fault: InternalFault::MalformedTree }),
    ));
    // a root slot out of bounds
    let cst2 = Cst { nodes: vec![node("program", "", vec![])], root: 7 };
    assert!(matches!(
        parse_tree_sitter_output(&cst2),
        Err(LowerError::Internal { fault: InternalFault::MalformedTree }),
    ));
}

#[test]
fn test_malformed_integer_text() {
    let cst = Cst {
        nodes: vec![
            node("digits", "notanumber", vec![]),
            node("integer", "", vec![field("value", 0)]),
            node("digits", "99999999999999999999", vec![]),
            node("integer", "", vec![field("value", 2)]),
        ],
        root: 3,
    };
    let mut ast = Ast::new();
    assert_eq!(
        parse_expr(&cst, 1, &mut ast),
        Err(LowerError::Internal { fault: InternalFault::MalformedLiteral }),
    );
    // a value outside the 64-bit range is rejected the same way
    assert_eq!(
        parse_expr(&cst, 3, &mut ast),
        Err(LowerError::Internal { fault: InternalFault::MalformedLiteral }),
    );
}

#[test]
fn test_unexpected_operator_spelling() {
    let cst = Cst {
        nodes: vec![
            node("oprt", "%", vec![]),
            node("digits", "1", vec![]),
            node("integer", "", vec![field("value", 1)]),
            node(
                "binary_expr",
                "",
                vec![field("oprt", 0), field("lhs", 2), field("rhs", 2)],
            ),
            node("oprt", "+", vec![]),
            node("unary_expr", "", vec![field("oprt", 4), field("value", 2)]),
        ],
        root: 5,
    };
    let mut ast = Ast::new();
    assert_eq!(
        parse_expr(&cst, 3, &mut ast),
        Err(LowerError::Internal { fault: InternalFault::UnexpectedOperator }),
    );
    // `+` is a binary spelling only, never unary
    assert_eq!(
        parse_expr(&cst, 5, &mut ast),
        Err(LowerError::Internal { fault: InternalFault::UnexpectedOperator }),
    );
}

#[test]
fn test_unexpected_boolean_spelling() {
    let cst = Cst {
        nodes: vec![
            node("kw", "TRUE", vec![]),
            node("boolean", "", vec![field("value", 0)]),
        ],
        root: 1,
    };
    let mut ast = Ast::new();
    assert_eq!(
        parse_expr(&cst, 1, &mut ast),
        Err(LowerError::Internal { fault: InternalFault::UnexpectedBoolean }),
    );
}

#[test]
fn test_first_error_wins() {
    // two error statements in a body: the first one in source order is
    // the one reported
    let mut bad1 = node("expression_stmt", "", vec![]);
    bad1.is_error = true;
    bad1.start = pos(1, 0);
    bad1.end = pos(1, 5);
    let mut bad2 = node("expression_stmt", "", vec![]);
    bad2.is_error = true;
    bad2.start = pos(2, 0);
    bad2.end = pos(2, 5);
    let cst = Cst {
        nodes: vec![
            bad1,
            bad2,
            node("kw", "verdadeiro", vec![]),
            node("boolean", "", vec![field("value", 2)]),
            node(
                "while_loop",
                "",
                vec![field("condition", 3), field("body", 0), field("body", 1)],
            ),
        ],
        root: 4,
    };
    let mut ast = Ast::new();
    assert_eq!(
        parse_stmt(&cst, 4, &mut ast),
        Err(LowerError::InvalidNode { start: pos(1, 0), end: pos(1, 5) }),
    );
}
