//! The AST arena: identifier issuance, typed accessors, the program slot.

use ila_ast::ast::{
    Ast, Expression, ForEachDecl, FunctionParam, LexicalInfo, LexicalPosition, Node, Program,
    ScopeDef, Statement, TypeExpr,
};

fn span(line: usize) -> LexicalInfo {
    LexicalInfo {
        start: LexicalPosition { line, column: 0 },
        end: LexicalPosition { line, column: 10 },
    }
}

#[test]
fn test_arena_starts_empty() {
    let ast = Ast::new();
    assert!(ast.get_program().is_none());
}

#[test]
fn test_identifiers_are_issued_in_order() {
    let mut ast = Ast::new();
    let a = ast.add_identifier_node("a".to_string(), span(0));
    let b = ast.add_identifier_node("b".to_string(), span(1));
    let c = ast.add_identifier_node("c".to_string(), span(2));
    assert_eq!(a.0.id, 0);
    assert_eq!(b.0.id, 1);
    assert_eq!(c.0.id, 2);
    assert_eq!(ast.get_identifier(a), "a");
    assert_eq!(ast.get_identifier(b), "b");
    assert_eq!(ast.get_identifier(c), "c");
}

#[test]
fn test_typed_accessors_round_trip() {
    let mut ast = Ast::new();
    let name = ast.add_identifier_node("x".to_string(), span(0));
    let ty = ast.add_type_expr_node(TypeExpr::RawType { name }, span(0));
    let expr = ast.add_expression_node(Expression::IntegerLiteral { value: 9 }, span(1));
    let stmt = ast.add_statement_node(Statement::Expression { expr }, span(1));
    let param = ast.add_function_param_node(
        FunctionParam { is_mut: true, name, type_expr: ty },
        span(2),
    );
    let decl = ast.add_for_each_decl_node(
        ForEachDecl { is_mut: false, is_ref: true, name },
        span(3),
    );
    let def = ast.add_scope_def_node(
        ScopeDef::Function { name, params: vec![param], return_type: ty, body: vec![stmt] },
        span(4),
    );

    assert_eq!(*ast.get_type_expr(ty), TypeExpr::RawType { name });
    assert_eq!(*ast.get_expression(expr), Expression::IntegerLiteral { value: 9 });
    assert_eq!(*ast.get_statement(stmt), Statement::Expression { expr });
    assert_eq!(*ast.get_function_param(param), FunctionParam { is_mut: true, name, type_expr: ty });
    assert_eq!(*ast.get_for_each_decl(decl), ForEachDecl { is_mut: false, is_ref: true, name });
    assert_eq!(
        *ast.get_scope_def(def),
        ScopeDef::Function { name, params: vec![param], return_type: ty, body: vec![stmt] },
    );
    assert_eq!(*ast.get_lexical_info(def.0), span(4));
    assert!(matches!(ast.get_node(name.0), Node::Identifier(s) if s == "x"));
}

#[test]
fn test_add_node_returns_fresh_ids() {
    let mut ast = Ast::new();
    let first = ast.add_node(Node::Identifier("one".to_string()), span(0));
    let second = ast.add_node(Node::Identifier("two".to_string()), span(1));
    assert_ne!(first, second);
    assert_eq!(first.id + 1, second.id);
    assert_eq!(*ast.get_lexical_info(first), span(0));
    assert_eq!(*ast.get_lexical_info(second), span(1));
}

#[test]
fn test_set_program_stores_value() {
    let mut ast = Ast::new();
    let name = ast.add_identifier_node("main".to_string(), span(0));
    let ty = ast.add_type_expr_node(TypeExpr::RawType { name }, span(0));
    let def = ast.add_scope_def_node(
        ScopeDef::Function { name, params: vec![], return_type: ty, body: vec![] },
        span(0),
    );
    ast.set_program(Program { global_defs: vec![def] });
    let program = ast.get_program().as_ref().expect("program must be set");
    assert_eq!(program.global_defs, vec![def]);
    // a second call overwrites the first
    ast.set_program(Program { global_defs: vec![] });
    assert_eq!(ast.get_program().as_ref().unwrap().global_defs.len(), 0);
}
