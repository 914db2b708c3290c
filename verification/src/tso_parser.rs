//! The executable lowering engine.
//!
//! One lowering function per grammar production, grouped into four
//! dispatch families — type expressions, expressions, statements, scope
//! definitions — plus the program assembler.  Every function is verified
//! to return exactly what the interpreter in [`crate::lower`] specifies.

use vstd::prelude::*;
use crate::ast::{
    Ast, BinaryOprt, Expression, ExprID, ForEachDecl, ForEachDeclID, FunctionParam,
    FunctionParamID, IdentifierID, LexicalInfo, Program, ScopeDef, ScopeDefID, Statement, StmtID,
    TypeExpr, TypeExprID, UnaryOprt,
};
use crate::cst::{
    find_field, lemma_child_target_range, Cst, CstNodeData,
};
use crate::lower::{
    binary_oprt_of, collect_defs, collect_exprs, collect_params, collect_stmts,
    collect_template_args, invalid_err, lower_access_expr_at, lower_binary_expr_at,
    lower_bool_at, lower_break_at, lower_call_expr_at, lower_comp_type_at, lower_conditional_at,
    lower_continue_at, lower_decimal_at, lower_expr_at, lower_expr_stmt_at, lower_for_each_at,
    lower_for_item_at, lower_function_at, lower_function_param_at, lower_identifier_at,
    lower_identifier_expr_at, lower_integer_at, lower_list_at, lower_parem_expr_at,
    lower_program_at, lower_raw_type_at, lower_ref_type_at, lower_return_at, lower_scope_def_at,
    lower_stmt_at, lower_string_at, lower_template_type_at, lower_tso, lower_type_expr_at,
    lower_unary_expr_at, lower_var_decl_at, lower_while_at, node_invalid, span_of, step_matches,
    unary_oprt_of, InternalFault, LowerError,
};
use crate::text::{parse_i64_str, str_eq};

verus! {

/// Packages a parse-tree node's span as a [`LexicalInfo`].
pub fn parse_node_lexical_info(node: &CstNodeData) -> (info: LexicalInfo)
    ensures
        info == span_of(node@),
{
    LexicalInfo { start: node.start, end: node.end }
}

/// Rejects a node the parser marked as an error or as missing, carrying
/// the node's span.
pub fn check_invalid_node(node: &CstNodeData) -> (r: Result<(), LowerError>)
    ensures
        match r {
            Ok(_) => !node_invalid(node@),
            Err(e) => node_invalid(node@) && e == invalid_err(node@),
        },
{
    if node.is_error || node.is_missing {
        Err(LowerError::InvalidNode { start: node.start, end: node.end })
    } else {
        Ok(())
    }
}

/// Lowers an `identifier` leaf.
pub fn parse_identifier(cst: &Cst, i: usize, ast: &mut Ast) -> (r: Result<IdentifierID, LowerError>)
    requires
        cst.wf(),
        i < cst@.len(),
    ensures
        step_matches(old(ast)@, final(ast)@, r, lower_identifier_at(cst@, i as int, old(ast)@.entries)),
{
    let node = &cst.nodes[i];
    if !str_eq(node.kind.as_str(), "identifier") {
        return Err(LowerError::Internal { fault: InternalFault::UnexpectedKind });
    }
    if let Err(e) = check_invalid_node(node) {
        return Err(e);
    }
    let name = node.text.clone();
    let lexical_info = parse_node_lexical_info(node);
    let id = ast.add_identifier_node(name, lexical_info);
    Ok(id)
}

/// Lowers a `raw_type` node.
pub fn parse_raw_type(cst: &Cst, i: usize, ast: &mut Ast) -> (r: Result<TypeExprID, LowerError>)
    requires
        cst.wf(),
        i < cst@.len(),
    ensures
        step_matches(old(ast)@, final(ast)@, r, lower_raw_type_at(cst@, i as int, old(ast)@.entries)),
{
    let node = &cst.nodes[i];
    if !str_eq(node.kind.as_str(), "raw_type") {
        return Err(LowerError::Internal { fault: InternalFault::UnexpectedKind });
    }
    if let Err(e) = check_invalid_node(node) {
        return Err(e);
    }
    let name_t = match find_field(node, "name") {
        None => {
            return Err(LowerError::Internal { fault: InternalFault::MissingField });
        },
        Some(t) => t,
    };
    proof {
        lemma_child_target_range(cst@, i as int, name_t as int);
    }
    let name = match parse_identifier(cst, name_t, ast) {
        Err(e) => {
            return Err(e);
        },
        Ok(x) => x,
    };
    let type_expr = TypeExpr::RawType { name };
    let lexical_info = parse_node_lexical_info(node);
    let id = ast.add_type_expr_node(type_expr, lexical_info);
    Ok(id)
}

/// Lowers a `template_type` node.
#[verifier::loop_isolation(false)]
pub fn parse_template_type(cst: &Cst, i: usize, ast: &mut Ast) -> (r: Result<TypeExprID, LowerError>)
    requires
        cst.wf(),
        i < cst@.len(),
    ensures
        step_matches(old(ast)@, final(ast)@, r, lower_template_type_at(cst@, i as int, old(ast)@.entries)),
    decreases i, 2int, 0int,
{
    let node = &cst.nodes[i];
    if !str_eq(node.kind.as_str(), "template_type") {
        return Err(LowerError::Internal { fault: InternalFault::UnexpectedKind });
    }
    if let Err(e) = check_invalid_node(node) {
        return Err(e);
    }
    let name_t = match find_field(node, "name") {
        None => {
            return Err(LowerError::Internal { fault: InternalFault::MissingField });
        },
        Some(t) => t,
    };
    proof {
        lemma_child_target_range(cst@, i as int, name_t as int);
    }
    let name = match parse_identifier(cst, name_t, ast) {
        Err(e) => {
            return Err(e);
        },
        Ok(x) => x,
    };

    let ghost a_base = ast@.entries;
    let mut args: Vec<TypeExprID> = Vec::new();
    proof {
        let (af, rf) = collect_template_args(cst@, i as int, 0, a_base);
        if rf is Ok {
            assert(Seq::<TypeExprID>::empty() + rf->Ok_0 =~= rf->Ok_0);
        }
    }
    let n_children = node.children.len();
    let mut j: usize = 0;
    while j < n_children
        invariant
            cst.wf(),
            i < cst@.len(),
            n_children == cst@[i as int].children.len(),
            j <= n_children,
            ast@.program == old(ast)@.program,
            ({
                let (af, rf) = collect_template_args(cst@, i as int, j as int, ast@.entries);
                collect_template_args(cst@, i as int, 0, a_base) == (
                    af,
                    match rf {
                        Ok(rest) => Ok(args@ + rest),
                        Err(e) => Err(e),
                    },
                )
            }),
        decreases n_children - j,
    {
        let t = node.children[j].target;
        proof {
            assert(cst@[i as int].children[j as int].target == t as int);
            assert(0 <= (t as int) && (t as int) < (i as int));
        }
        if str_eq(cst.nodes[t].kind.as_str(), "arg") {
            let ghost args_before = args@;
            let ghost a_cur = ast@.entries;
            match parse_type_expr(cst, t, ast) {
                Err(e) => {
                    return Err(e);
                },
                Ok(id) => {
                    args.push(id);
                    proof {
                        let (af, rf) = collect_template_args(
                            cst@,
                            i as int,
                            j + 1,
                            ast@.entries,
                        );
                        assert(args@ =~= args_before + seq![id]);
                        if rf is Ok {
                            assert(args_before + (seq![id] + rf->Ok_0) =~= args@ + rf->Ok_0);
                        }
                    }
                },
            }
        }
        j += 1;
    }
    proof {
        let (af, rf) = collect_template_args(cst@, i as int, j as int, ast@.entries);
        assert(rf is Ok && rf->Ok_0 =~= Seq::<TypeExprID>::empty());
        assert(args@ + Seq::<TypeExprID>::empty() =~= args@);
    }

    let type_expr = TypeExpr::TemplateType { name, type_args: args };
    let lexical_info = parse_node_lexical_info(node);
    let id = ast.add_type_expr_node(type_expr, lexical_info);
    Ok(id)
}

/// Lowers a `ref_type` node.
pub fn parse_ref_type(cst: &Cst, i: usize, ast: &mut Ast) -> (r: Result<TypeExprID, LowerError>)
    requires
        cst.wf(),
        i < cst@.len(),
    ensures
        step_matches(old(ast)@, final(ast)@, r, lower_ref_type_at(cst@, i as int, old(ast)@.entries)),
    decreases i, 2int, 0int,
{
    let node = &cst.nodes[i];
    if !str_eq(node.kind.as_str(), "ref_type") {
        return Err(LowerError::Internal { fault: InternalFault::UnexpectedKind });
    }
    if let Err(e) = check_invalid_node(node) {
        return Err(e);
    }
    let is_mut = find_field(node, "is_mut").is_some();
    let type_t = match find_field(node, "type") {
        None => {
            return Err(LowerError::Internal { fault: InternalFault::MissingField });
        },
        Some(t) => t,
    };
    proof {
        lemma_child_target_range(cst@, i as int, type_t as int);
    }
    let inner = match parse_type_expr(cst, type_t, ast) {
        Err(e) => {
            return Err(e);
        },
        Ok(x) => x,
    };
    let type_expr = TypeExpr::RefType { is_mut, type_expr: inner };
    let lexical_info = parse_node_lexical_info(node);
    let id = ast.add_type_expr_node(type_expr, lexical_info);
    Ok(id)
}

/// Lowers a `comp_type` node.
pub fn parse_comp_type(cst: &Cst, i: usize, ast: &mut Ast) -> (r: Result<TypeExprID, LowerError>)
    requires
        cst.wf(),
        i < cst@.len(),
    ensures
        step_matches(old(ast)@, final(ast)@, r, lower_comp_type_at(cst@, i as int, old(ast)@.entries)),
    decreases i, 2int, 0int,
{
    let node = &cst.nodes[i];
    if !str_eq(node.kind.as_str(), "comp_type") {
        return Err(LowerError::Internal { fault: InternalFault::UnexpectedKind });
    }
    if let Err(e) = check_invalid_node(node) {
        return Err(e);
    }
    let is_mut = find_field(node, "is_mut").is_some();
    let type_t = match find_field(node, "type") {
        None => {
            return Err(LowerError::Internal { fault: InternalFault::MissingField });
        },
        Some(t) => t,
    };
    proof {
        lemma_child_target_range(cst@, i as int, type_t as int);
    }
    let inner = match parse_type_expr(cst, type_t, ast) {
        Err(e) => {
            return Err(e);
        },
        Ok(x) => x,
    };
    let type_expr = TypeExpr::CompType { is_mut, type_expr: inner };
    let lexical_info = parse_node_lexical_info(node);
    let id = ast.add_type_expr_node(type_expr, lexical_info);
    Ok(id)
}

/// Dispatches a type-expression node on its kind tag.
pub fn parse_type_expr(cst: &Cst, i: usize, ast: &mut Ast) -> (r: Result<TypeExprID, LowerError>)
    requires
        cst.wf(),
        i < cst@.len(),
    ensures
        step_matches(old(ast)@, final(ast)@, r, lower_type_expr_at(cst@, i as int, old(ast)@.entries)),
    decreases i, 3int, 0int,
{
    let node = &cst.nodes[i];
    if let Err(e) = check_invalid_node(node) {
        return Err(e);
    }
    if str_eq(node.kind.as_str(), "raw_type") {
        parse_raw_type(cst, i, ast)
    } else if str_eq(node.kind.as_str(), "template_type") {
        parse_template_type(cst, i, ast)
    } else if str_eq(node.kind.as_str(), "ref_type") {
        parse_ref_type(cst, i, ast)
    } else if str_eq(node.kind.as_str(), "comp_type") {
        parse_comp_type(cst, i, ast)
    } else {
        Err(LowerError::Internal { fault: InternalFault::UnexpectedKind })
    }
}

/// Maps a binary operator spelling to its operator, `None` for a spelling
/// outside the closed enumeration.
pub fn parse_binary_oprt_str(oprt: &str) -> (r: Option<BinaryOprt>)
    ensures
        r == binary_oprt_of(oprt@),
{
    if str_eq(oprt, "=") {
        Some(BinaryOprt::Assign)
    } else if str_eq(oprt, "e") {
        Some(BinaryOprt::And)
    } else if str_eq(oprt, "ou") {
        Some(BinaryOprt::Or)
    } else if str_eq(oprt, "==") {
        Some(BinaryOprt::Eq)
    } else if str_eq(oprt, "!=") {
        Some(BinaryOprt::Neq)
    } else if str_eq(oprt, "<") {
        Some(BinaryOprt::Lt)
    } else if str_eq(oprt, ">") {
        Some(BinaryOprt::Gt)
    } else if str_eq(oprt, "<=") {
        Some(BinaryOprt::Le)
    } else if str_eq(oprt, ">=") {
        Some(BinaryOprt::Ge)
    } else if str_eq(oprt, "+") {
        Some(BinaryOprt::Add)
    } else if str_eq(oprt, "-") {
        Some(BinaryOprt::Sub)
    } else if str_eq(oprt, "*") {
        Some(BinaryOprt::Mul)
    } else if str_eq(oprt, "/") {
        Some(BinaryOprt::Div)
    } else {
        None
    }
}

/// Maps a unary operator spelling to its operator, `None` for a spelling
/// outside the closed enumeration.
pub fn parse_unary_oprt_str(oprt: &str) -> (r: Option<UnaryOprt>)
    ensures
        r == unary_oprt_of(oprt@),
{
    if str_eq(oprt, "*") {
        Some(UnaryOprt::Deref)
    } else if str_eq(oprt, "não") {
        Some(UnaryOprt::Not)
    } else if str_eq(oprt, "-") {
        Some(UnaryOprt::Neg)
    } else {
        None
    }
}

/// Lowers a `binary_expr` node.
pub fn parse_binary_expr(cst: &Cst, i: usize, ast: &mut Ast) -> (r: Result<ExprID, LowerError>)
    requires
        cst.wf(),
        i < cst@.len(),
    ensures
        step_matches(old(ast)@, final(ast)@, r, lower_binary_expr_at(cst@, i as int, old(ast)@.entries)),
    decreases i, 2int, 0int,
{
    let node = &cst.nodes[i];
    if !str_eq(node.kind.as_str(), "binary_expr") {
        return Err(LowerError::Internal { fault: InternalFault::UnexpectedKind });
    }
    if let Err(e) = check_invalid_node(node) {
        return Err(e);
    }
    let oprt_t = match find_field(node, "oprt") {
        None => {
            return Err(LowerError::Internal { fault: InternalFault::MissingField });
        },
        Some(t) => t,
    };
    proof {
        lemma_child_target_range(cst@, i as int, oprt_t as int);
    }
    let oprt = match parse_binary_oprt_str(cst.nodes[oprt_t].text.as_str()) {
        None => {
            return Err(LowerError::Internal { fault: InternalFault::UnexpectedOperator });
        },
        Some(op) => op,
    };
    let lhs_t = match find_field(node, "lhs") {
        None => {
            return Err(LowerError::Internal { fault: InternalFault::MissingField });
        },
        Some(t) => t,
    };
    proof {
        lemma_child_target_range(cst@, i as int, lhs_t as int);
    }
    let lhs = match parse_expr(cst, lhs_t, ast) {
        Err(e) => {
            return Err(e);
        },
        Ok(x) => x,
    };
    let rhs_t = match find_field(node, "rhs") {
        None => {
            return Err(LowerError::Internal { fault: InternalFault::MissingField });
        },
        Some(t) => t,
    };
    proof {
        lemma_child_target_range(cst@, i as int, rhs_t as int);
    }
    let rhs = match parse_expr(cst, rhs_t, ast) {
        Err(e) => {
            return Err(e);
        },
        Ok(x) => x,
    };
    let expr = Expression::BinaryOprt { oprt, left: lhs, right: rhs };
    let lexical_info = parse_node_lexical_info(node);
    let id = ast.add_expression_node(expr, lexical_info);
    Ok(id)
}

/// Lowers a `unary_expr` node.
pub fn parse_unary_expr(cst: &Cst, i: usize, ast: &mut Ast) -> (r: Result<ExprID, LowerError>)
    requires
        cst.wf(),
        i < cst@.len(),
    ensures
        step_matches(old(ast)@, final(ast)@, r, lower_unary_expr_at(cst@, i as int, old(ast)@.entries)),
    decreases i, 2int, 0int,
{
    let node = &cst.nodes[i];
    if !str_eq(node.kind.as_str(), "unary_expr") {
        return Err(LowerError::Internal { fault: InternalFault::UnexpectedKind });
    }
    if let Err(e) = check_invalid_node(node) {
        return Err(e);
    }
    let oprt_t = match find_field(node, "oprt") {
        None => {
            return Err(LowerError::Internal { fault: InternalFault::MissingField });
        },
        Some(t) => t,
    };
    proof {
        lemma_child_target_range(cst@, i as int, oprt_t as int);
    }
    let oprt = match parse_unary_oprt_str(cst.nodes[oprt_t].text.as_str()) {
        None => {
            return Err(LowerError::Internal { fault: InternalFault::UnexpectedOperator });
        },
        Some(op) => op,
    };
    let value_t = match find_field(node, "value") {
        None => {
            return Err(LowerError::Internal { fault: InternalFault::MissingField });
        },
        Some(t) => t,
    };
    proof {
        lemma_child_target_range(cst@, i as int, value_t as int);
    }
    let operand = match parse_expr(cst, value_t, ast) {
        Err(e) => {
            return Err(e);
        },
        Ok(x) => x,
    };
    let expr = Expression::UnaryOprt { oprt, operand };
    let lexical_info = parse_node_lexical_info(node);
    let id = ast.add_expression_node(expr, lexical_info);
    Ok(id)
}

/// Lowers an `access_expr` node.
pub fn parse_access_expr(cst: &Cst, i: usize, ast: &mut Ast) -> (r: Result<ExprID, LowerError>)
    requires
        cst.wf(),
        i < cst@.len(),
    ensures
        step_matches(old(ast)@, final(ast)@, r, lower_access_expr_at(cst@, i as int, old(ast)@.entries)),
    decreases i, 2int, 0int,
{
    let node = &cst.nodes[i];
    if !str_eq(node.kind.as_str(), "access_expr") {
        return Err(LowerError::Internal { fault: InternalFault::UnexpectedKind });
    }
    if let Err(e) = check_invalid_node(node) {
        return Err(e);
    }
    let object_t = match find_field(node, "object") {
        None => {
            return Err(LowerError::Internal { fault: InternalFault::MissingField });
        },
        Some(t) => t,
    };
    proof {
        lemma_child_target_range(cst@, i as int, object_t as int);
    }
    let object = match parse_expr(cst, object_t, ast) {
        Err(e) => {
            return Err(e);
        },
        Ok(x) => x,
    };
    let item_t = match find_field(node, "item") {
        None => {
            return Err(LowerError::Internal { fault: InternalFault::MissingField });
        },
        Some(t) => t,
    };
    proof {
        lemma_child_target_range(cst@, i as int, item_t as int);
    }
    let item = match parse_identifier(cst, item_t, ast) {
        Err(e) => {
            return Err(e);
        },
        Ok(x) => x,
    };
    let expr = Expression::Access { object, field_name: item };
    let lexical_info = parse_node_lexical_info(node);
    let id = ast.add_expression_node(expr, lexical_info);
    Ok(id)
}

/// Collects and lowers every child of `i` filling the named grammar
/// field as an expression, in source order.
#[verifier::loop_isolation(false)]
pub fn parse_expr_list(cst: &Cst, i: usize, field: &str, ast: &mut Ast) -> (r: Result<
    Vec<ExprID>,
    LowerError,
>)
    requires
        cst.wf(),
        i < cst@.len(),
    ensures
        ({
            let (af, rf) = collect_exprs(cst@, i as int, field@, 0, old(ast)@.entries);
            &&& final(ast)@.entries == af
            &&& final(ast)@.program == old(ast)@.program
            &&& match (r, rf) {
                (Ok(v), Ok(s)) => v@ == s,
                (Err(e), Err(e2)) => e == e2,
                _ => false,
            }
        }),
    decreases i, 1int, 0int,
{
    let ghost a_base = ast@.entries;
    let mut out: Vec<ExprID> = Vec::new();
    proof {
        let (af, rf) = collect_exprs(cst@, i as int, field@, 0, a_base);
        if rf is Ok {
            assert(Seq::<ExprID>::empty() + rf->Ok_0 =~= rf->Ok_0);
        }
    }
    let n_children = cst.nodes[i].children.len();
    let mut j: usize = 0;
    while j < n_children
        invariant
            j <= n_children,
            ast@.program == old(ast)@.program,
            ({
                let (af, rf) = collect_exprs(cst@, i as int, field@, j as int, ast@.entries);
                collect_exprs(cst@, i as int, field@, 0, a_base) == (
                    af,
                    match rf {
                        Ok(rest) => Ok(out@ + rest),
                        Err(e) => Err(e),
                    },
                )
            }),
        decreases n_children - j,
    {
        let child = &cst.nodes[i].children[j];
        let is_match = match &child.field_name {
            Some(f) => str_eq(f.as_str(), field),
            None => false,
        };
        if is_match {
            let t = child.target;
            proof {
                assert(cst@[i as int].children[j as int].target == t as int);
                assert(0 <= (t as int) && (t as int) < (i as int));
            }
            let ghost out_before = out@;
            match parse_expr(cst, t, ast) {
                Err(e) => {
                    return Err(e);
                },
                Ok(id) => {
                    out.push(id);
                    proof {
                        assert(out@ =~= out_before + seq![id]);
                        let (af2, rf2) = collect_exprs(cst@, i as int, field@, j + 1, ast@.entries);
                        if rf2 is Ok {
                            assert(out_before + (seq![id] + rf2->Ok_0) =~= out@ + rf2->Ok_0);
                        }
                    }
                },
            }
        }
        j += 1;
    }
    proof {
        let (af, rf) = collect_exprs(cst@, i as int, field@, j as int, ast@.entries);
        assert(out@ + Seq::<ExprID>::empty() =~= out@);
    }
    Ok(out)
}

/// Lowers a `call_expr` node.
pub fn parse_call_expr(cst: &Cst, i: usize, ast: &mut Ast) -> (r: Result<ExprID, LowerError>)
    requires
        cst.wf(),
        i < cst@.len(),
    ensures
        step_matches(old(ast)@, final(ast)@, r, lower_call_expr_at(cst@, i as int, old(ast)@.entries)),
    decreases i, 2int, 0int,
{
    let node = &cst.nodes[i];
    if !str_eq(node.kind.as_str(), "call_expr") {
        return Err(LowerError::Internal { fault: InternalFault::UnexpectedKind });
    }
    if let Err(e) = check_invalid_node(node) {
        return Err(e);
    }
    let function_t = match find_field(node, "function") {
        None => {
            return Err(LowerError::Internal { fault: InternalFault::MissingField });
        },
        Some(t) => t,
    };
    proof {
        lemma_child_target_range(cst@, i as int, function_t as int);
    }
    let callee = match parse_expr(cst, function_t, ast) {
        Err(e) => {
            return Err(e);
        },
        Ok(x) => x,
    };
    let args = match parse_expr_list(cst, i, "arg", ast) {
        Err(e) => {
            return Err(e);
        },
        Ok(v) => v,
    };
    let expr = Expression::Call { callee, args };
    let lexical_info = parse_node_lexical_info(node);
    let id = ast.add_expression_node(expr, lexical_info);
    Ok(id)
}

/// Lowers a `parem_expr` node by unwrapping to its inner expression.
pub fn parse_parem_expr(cst: &Cst, i: usize, ast: &mut Ast) -> (r: Result<ExprID, LowerError>)
    requires
        cst.wf(),
        i < cst@.len(),
    ensures
        step_matches(old(ast)@, final(ast)@, r, lower_parem_expr_at(cst@, i as int, old(ast)@.entries)),
    decreases i, 2int, 0int,
{
    let node = &cst.nodes[i];
    if !str_eq(node.kind.as_str(), "parem_expr") {
        return Err(LowerError::Internal { fault: InternalFault::UnexpectedKind });
    }
    if let Err(e) = check_invalid_node(node) {
        return Err(e);
    }
    let expr_t = match find_field(node, "expression") {
        None => {
            return Err(LowerError::Internal { fault: InternalFault::MissingField });
        },
        Some(t) => t,
    };
    proof {
        lemma_child_target_range(cst@, i as int, expr_t as int);
    }
    parse_expr(cst, expr_t, ast)
}

/// Lowers an `identifier` node standing in expression position.
pub fn parse_identifier_expr(cst: &Cst, i: usize, ast: &mut Ast) -> (r: Result<ExprID, LowerError>)
    requires
        cst.wf(),
        i < cst@.len(),
    ensures
        step_matches(old(ast)@, final(ast)@, r, lower_identifier_expr_at(cst@, i as int, old(ast)@.entries)),
{
    let node = &cst.nodes[i];
    if !str_eq(node.kind.as_str(), "identifier") {
        return Err(LowerError::Internal { fault: InternalFault::UnexpectedKind });
    }
    if let Err(e) = check_invalid_node(node) {
        return Err(e);
    }
    let inner = match parse_identifier(cst, i, ast) {
        Err(e) => {
            return Err(e);
        },
        Ok(x) => x,
    };
    let lexical_info = parse_node_lexical_info(node);
    let id = ast.add_expression_node(Expression::Identifier { node_id: inner }, lexical_info);
    Ok(id)
}

/// Lowers a `decimal` node.  The fraction text's value is divided by ten
/// until it is below one before being added to the integer part; with
/// integer division the fraction therefore always collapses to zero.
pub fn parse_decimal_literal(cst: &Cst, i: usize, ast: &mut Ast) -> (r: Result<ExprID, LowerError>)
    requires
        cst.wf(),
        i < cst@.len(),
    ensures
        step_matches(old(ast)@, final(ast)@, r, lower_decimal_at(cst@, i as int, old(ast)@.entries)),
{
    let node = &cst.nodes[i];
    if !str_eq(node.kind.as_str(), "decimal") {
        return Err(LowerError::Internal { fault: InternalFault::UnexpectedKind });
    }
    if let Err(e) = check_invalid_node(node) {
        return Err(e);
    }
    let integer_t = match find_field(node, "integer") {
        None => {
            return Err(LowerError::Internal { fault: InternalFault::MissingField });
        },
        Some(t) => t,
    };
    proof {
        lemma_child_target_range(cst@, i as int, integer_t as int);
    }
    let integer_part = match parse_i64_str(cst.nodes[integer_t].text.as_str()) {
        None => {
            return Err(LowerError::Internal { fault: InternalFault::MalformedLiteral });
        },
        Some(v) => v,
    };
    let fraction_t = match find_field(node, "fraction") {
        None => {
            return Err(LowerError::Internal { fault: InternalFault::MissingField });
        },
        Some(t) => t,
    };
    proof {
        lemma_child_target_range(cst@, i as int, fraction_t as int);
    }
    let mut fraction = match parse_i64_str(cst.nodes[fraction_t].text.as_str()) {
        None => {
            return Err(LowerError::Internal { fault: InternalFault::MalformedLiteral });
        },
        Some(v) => v,
    };
    let ghost fraction_in = fraction;
    while fraction >= 1
        invariant
            crate::lower::divide_down(fraction as int) == crate::lower::divide_down(
                fraction_in as int,
            ),
        decreases fraction,
    {
        fraction = fraction / 10;
    }
    let expr = Expression::DecimalLiteral { integer_part, fraction_part: fraction };
    let lexical_info = parse_node_lexical_info(node);
    let id = ast.add_expression_node(expr, lexical_info);
    Ok(id)
}

/// Lowers an `integer` node.
pub fn parse_integer_literal(cst: &Cst, i: usize, ast: &mut Ast) -> (r: Result<ExprID, LowerError>)
    requires
        cst.wf(),
        i < cst@.len(),
    ensures
        step_matches(old(ast)@, final(ast)@, r, lower_integer_at(cst@, i as int, old(ast)@.entries)),
{
    let node = &cst.nodes[i];
    if !str_eq(node.kind.as_str(), "integer") {
        return Err(LowerError::Internal { fault: InternalFault::UnexpectedKind });
    }
    if let Err(e) = check_invalid_node(node) {
        return Err(e);
    }
    let value_t = match find_field(node, "value") {
        None => {
            return Err(LowerError::Internal { fault: InternalFault::MissingField });
        },
        Some(t) => t,
    };
    proof {
        lemma_child_target_range(cst@, i as int, value_t as int);
    }
    let value = match parse_i64_str(cst.nodes[value_t].text.as_str()) {
        None => {
            return Err(LowerError::Internal { fault: InternalFault::MalformedLiteral });
        },
        Some(v) => v,
    };
    let expr = Expression::IntegerLiteral { value };
    let lexical_info = parse_node_lexical_info(node);
    let id = ast.add_expression_node(expr, lexical_info);
    Ok(id)
}

/// Lowers a `string` node: the content field's text, verbatim.
pub fn parse_string_literal(cst: &Cst, i: usize, ast: &mut Ast) -> (r: Result<ExprID, LowerError>)
    requires
        cst.wf(),
        i < cst@.len(),
    ensures
        step_matches(old(ast)@, final(ast)@, r, lower_string_at(cst@, i as int, old(ast)@.entries)),
{
    let node = &cst.nodes[i];
    if !str_eq(node.kind.as_str(), "string") {
        return Err(LowerError::Internal { fault: InternalFault::UnexpectedKind });
    }
    if let Err(e) = check_invalid_node(node) {
        return Err(e);
    }
    let content_t = match find_field(node, "content") {
        None => {
            return Err(LowerError::Internal { fault: InternalFault::MissingField });
        },
        Some(t) => t,
    };
    proof {
        lemma_child_target_range(cst@, i as int, content_t as int);
    }
    let content = cst.nodes[content_t].text.clone();
    let expr = Expression::StringLiteral { value: content };
    let lexical_info = parse_node_lexical_info(node);
    let id = ast.add_expression_node(expr, lexical_info);
    Ok(id)
}

/// Lowers a `boolean` node: the two fixed keyword spellings.
pub fn parse_bool_literal(cst: &Cst, i: usize, ast: &mut Ast) -> (r: Result<ExprID, LowerError>)
    requires
        cst.wf(),
        i < cst@.len(),
    ensures
        step_matches(old(ast)@, final(ast)@, r, lower_bool_at(cst@, i as int, old(ast)@.entries)),
{
    let node = &cst.nodes[i];
    if !str_eq(node.kind.as_str(), "boolean") {
        return Err(LowerError::Internal { fault: InternalFault::UnexpectedKind });
    }
    if let Err(e) = check_invalid_node(node) {
        return Err(e);
    }
    let value_t = match find_field(node, "value") {
        None => {
            return Err(LowerError::Internal { fault: InternalFault::MissingField });
        },
        Some(t) => t,
    };
    proof {
        lemma_child_target_range(cst@, i as int, value_t as int);
    }
    let value = if str_eq(cst.nodes[value_t].text.as_str(), "verdadeiro") {
        true
    } else if str_eq(cst.nodes[value_t].text.as_str(), "falso") {
        false
    } else {
        return Err(LowerError::Internal { fault: InternalFault::UnexpectedBoolean });
    };
    let expr = Expression::BooleanLiteral { value };
    let lexical_info = parse_node_lexical_info(node);
    let id = ast.add_expression_node(expr, lexical_info);
    Ok(id)
}

/// Lowers a `list` node.
pub fn parse_list_literal(cst: &Cst, i: usize, ast: &mut Ast) -> (r: Result<ExprID, LowerError>)
    requires
        cst.wf(),
        i < cst@.len(),
    ensures
        step_matches(old(ast)@, final(ast)@, r, lower_list_at(cst@, i as int, old(ast)@.entries)),
    decreases i, 2int, 0int,
{
    let node = &cst.nodes[i];
    if !str_eq(node.kind.as_str(), "list") {
        return Err(LowerError::Internal { fault: InternalFault::UnexpectedKind });
    }
    if let Err(e) = check_invalid_node(node) {
        return Err(e);
    }
    let values = match parse_expr_list(cst, i, "item", ast) {
        Err(e) => {
            return Err(e);
        },
        Ok(v) => v,
    };
    let expr = Expression::ListLiteral { values };
    let lexical_info = parse_node_lexical_info(node);
    let id = ast.add_expression_node(expr, lexical_info);
    Ok(id)
}

/// Dispatches an expression node on its kind tag.
pub fn parse_expr(cst: &Cst, i: usize, ast: &mut Ast) -> (r: Result<ExprID, LowerError>)
    requires
        cst.wf(),
        i < cst@.len(),
    ensures
        step_matches(old(ast)@, final(ast)@, r, lower_expr_at(cst@, i as int, old(ast)@.entries)),
    decreases i, 3int, 0int,
{
    let node = &cst.nodes[i];
    if let Err(e) = check_invalid_node(node) {
        return Err(e);
    }
    if str_eq(node.kind.as_str(), "binary_expr") {
        parse_binary_expr(cst, i, ast)
    } else if str_eq(node.kind.as_str(), "unary_expr") {
        parse_unary_expr(cst, i, ast)
    } else if str_eq(node.kind.as_str(), "access_expr") {
        parse_access_expr(cst, i, ast)
    } else if str_eq(node.kind.as_str(), "call_expr") {
        parse_call_expr(cst, i, ast)
    } else if str_eq(node.kind.as_str(), "parem_expr") {
        parse_parem_expr(cst, i, ast)
    } else if str_eq(node.kind.as_str(), "identifier") {
        parse_identifier_expr(cst, i, ast)
    } else if str_eq(node.kind.as_str(), "decimal") {
        parse_decimal_literal(cst, i, ast)
    } else if str_eq(node.kind.as_str(), "integer") {
        parse_integer_literal(cst, i, ast)
    } else if str_eq(node.kind.as_str(), "string") {
        parse_string_literal(cst, i, ast)
    } else if str_eq(node.kind.as_str(), "boolean") {
        parse_bool_literal(cst, i, ast)
    } else if str_eq(node.kind.as_str(), "list") {
        parse_list_literal(cst, i, ast)
    } else {
        Err(LowerError::Internal { fault: InternalFault::UnexpectedKind })
    }
}

/// Lowers a `break_stmt` node.
pub fn parse_break_stmt(cst: &Cst, i: usize, ast: &mut Ast) -> (r: Result<StmtID, LowerError>)
    requires
        cst.wf(),
        i < cst@.len(),
    ensures
        step_matches(old(ast)@, final(ast)@, r, lower_break_at(cst@, i as int, old(ast)@.entries)),
{
    let node = &cst.nodes[i];
    if !str_eq(node.kind.as_str(), "break_stmt") {
        return Err(LowerError::Internal { fault: InternalFault::UnexpectedKind });
    }
    if let Err(e) = check_invalid_node(node) {
        return Err(e);
    }
    let lexical_info = parse_node_lexical_info(node);
    let id = ast.add_statement_node(Statement::Break, lexical_info);
    Ok(id)
}

/// Lowers a `continue_stmt` node.
pub fn parse_continue_stmt(cst: &Cst, i: usize, ast: &mut Ast) -> (r: Result<StmtID, LowerError>)
    requires
        cst.wf(),
        i < cst@.len(),
    ensures
        step_matches(old(ast)@, final(ast)@, r, lower_continue_at(cst@, i as int, old(ast)@.entries)),
{
    let node = &cst.nodes[i];
    if !str_eq(node.kind.as_str(), "continue_stmt") {
        return Err(LowerError::Internal { fault: InternalFault::UnexpectedKind });
    }
    if let Err(e) = check_invalid_node(node) {
        return Err(e);
    }
    let lexical_info = parse_node_lexical_info(node);
    let id = ast.add_statement_node(Statement::Continue, lexical_info);
    Ok(id)
}

/// Lowers a `return_stmt` node with its optional return expression.
pub fn parse_return_stmt(cst: &Cst, i: usize, ast: &mut Ast) -> (r: Result<StmtID, LowerError>)
    requires
        cst.wf(),
        i < cst@.len(),
    ensures
        step_matches(old(ast)@, final(ast)@, r, lower_return_at(cst@, i as int, old(ast)@.entries)),
    decreases i, 2int, 0int,
{
    let node = &cst.nodes[i];
    if !str_eq(node.kind.as_str(), "return_stmt") {
        return Err(LowerError::Internal { fault: InternalFault::UnexpectedKind });
    }
    if let Err(e) = check_invalid_node(node) {
        return Err(e);
    }
    let return_expr = match find_field(node, "return_expr") {
        None => None,
        Some(t) => {
            proof {
                lemma_child_target_range(cst@, i as int, t as int);
            }
            match parse_expr(cst, t, ast) {
                Err(e) => {
                    return Err(e);
                },
                Ok(x) => Some(x),
            }
        },
    };
    let lexical_info = parse_node_lexical_info(node);
    let id = ast.add_statement_node(Statement::Return { expr: return_expr }, lexical_info);
    Ok(id)
}

/// Lowers a `for_item_decl` node: the loop-bound variable's declaration.
pub fn for_each_item(cst: &Cst, i: usize, ast: &mut Ast) -> (r: Result<ForEachDeclID, LowerError>)
    requires
        cst.wf(),
        i < cst@.len(),
    ensures
        step_matches(old(ast)@, final(ast)@, r, lower_for_item_at(cst@, i as int, old(ast)@.entries)),
{
    let node = &cst.nodes[i];
    if !str_eq(node.kind.as_str(), "for_item_decl") {
        return Err(LowerError::Internal { fault: InternalFault::UnexpectedKind });
    }
    if let Err(e) = check_invalid_node(node) {
        return Err(e);
    }
    let is_mut = find_field(node, "is_mut").is_some();
    let is_ref = find_field(node, "is_ref").is_some();
    let name_t = match find_field(node, "name") {
        None => {
            return Err(LowerError::Internal { fault: InternalFault::MissingField });
        },
        Some(t) => t,
    };
    proof {
        lemma_child_target_range(cst@, i as int, name_t as int);
    }
    let name = match parse_identifier(cst, name_t, ast) {
        Err(e) => {
            return Err(e);
        },
        Ok(x) => x,
    };
    let for_each_decl = ForEachDecl { is_mut, is_ref, name };
    let lexical_info = parse_node_lexical_info(node);
    let id = ast.add_for_each_decl_node(for_each_decl, lexical_info);
    Ok(id)
}

/// Collects and lowers every child of `i` filling the named grammar
/// field as a statement, in source order.
#[verifier::loop_isolation(false)]
pub fn parse_stmt_list(cst: &Cst, i: usize, field: &str, ast: &mut Ast) -> (r: Result<
    Vec<StmtID>,
    LowerError,
>)
    requires
        cst.wf(),
        i < cst@.len(),
    ensures
        ({
            let (af, rf) = collect_stmts(cst@, i as int, field@, 0, old(ast)@.entries);
            &&& final(ast)@.entries == af
            &&& final(ast)@.program == old(ast)@.program
            &&& match (r, rf) {
                (Ok(v), Ok(s)) => v@ == s,
                (Err(e), Err(e2)) => e == e2,
                _ => false,
            }
        }),
    decreases i, 1int, 0int,
{
    let ghost a_base = ast@.entries;
    let mut out: Vec<StmtID> = Vec::new();
    proof {
        let (af, rf) = collect_stmts(cst@, i as int, field@, 0, a_base);
        if rf is Ok {
            assert(Seq::<StmtID>::empty() + rf->Ok_0 =~= rf->Ok_0);
        }
    }
    let n_children = cst.nodes[i].children.len();
    let mut j: usize = 0;
    while j < n_children
        invariant
            j <= n_children,
            ast@.program == old(ast)@.program,
            ({
                let (af, rf) = collect_stmts(cst@, i as int, field@, j as int, ast@.entries);
                collect_stmts(cst@, i as int, field@, 0, a_base) == (
                    af,
                    match rf {
                        Ok(rest) => Ok(out@ + rest),
                        Err(e) => Err(e),
                    },
                )
            }),
        decreases n_children - j,
    {
        let child = &cst.nodes[i].children[j];
        let is_match = match &child.field_name {
            Some(f) => str_eq(f.as_str(), field),
            None => false,
        };
        if is_match {
            let t = child.target;
            proof {
                assert(cst@[i as int].children[j as int].target == t as int);
                assert(0 <= (t as int) && (t as int) < (i as int));
            }
            let ghost out_before = out@;
            match parse_stmt(cst, t, ast) {
                Err(e) => {
                    return Err(e);
                },
                Ok(id) => {
                    out.push(id);
                    proof {
                        assert(out@ =~= out_before + seq![id]);
                        let (af2, rf2) = collect_stmts(cst@, i as int, field@, j + 1, ast@.entries);
                        if rf2 is Ok {
                            assert(out_before + (seq![id] + rf2->Ok_0) =~= out@ + rf2->Ok_0);
                        }
                    }
                },
            }
        }
        j += 1;
    }
    proof {
        let (af, rf) = collect_stmts(cst@, i as int, field@, j as int, ast@.entries);
        assert(out@ + Seq::<StmtID>::empty() =~= out@);
    }
    Ok(out)
}

/// Lowers a `for_each_loop` node.
pub fn parse_for_each_stmt(cst: &Cst, i: usize, ast: &mut Ast) -> (r: Result<StmtID, LowerError>)
    requires
        cst.wf(),
        i < cst@.len(),
    ensures
        step_matches(old(ast)@, final(ast)@, r, lower_for_each_at(cst@, i as int, old(ast)@.entries)),
    decreases i, 2int, 1int,
{
    let node = &cst.nodes[i];
    if !str_eq(node.kind.as_str(), "for_each_loop") {
        return Err(LowerError::Internal { fault: InternalFault::UnexpectedKind });
    }
    if let Err(e) = check_invalid_node(node) {
        return Err(e);
    }
    let item_t = match find_field(node, "item") {
        None => {
            return Err(LowerError::Internal { fault: InternalFault::MissingField });
        },
        Some(t) => t,
    };
    proof {
        lemma_child_target_range(cst@, i as int, item_t as int);
    }
    let item = match for_each_item(cst, item_t, ast) {
        Err(e) => {
            return Err(e);
        },
        Ok(x) => x,
    };
    let iterator_t = match find_field(node, "iterator") {
        None => {
            return Err(LowerError::Internal { fault: InternalFault::MissingField });
        },
        Some(t) => t,
    };
    proof {
        lemma_child_target_range(cst@, i as int, iterator_t as int);
    }
    let iterator = match parse_expr(cst, iterator_t, ast) {
        Err(e) => {
            return Err(e);
        },
        Ok(x) => x,
    };
    let body = match parse_stmt_list(cst, i, "body", ast) {
        Err(e) => {
            return Err(e);
        },
        Ok(v) => v,
    };
    let stmt = Statement::ForEach { item, iter_expr: iterator, body_block: body };
    let lexical_info = parse_node_lexical_info(node);
    let id = ast.add_statement_node(stmt, lexical_info);
    Ok(id)
}

/// Lowers a `while_loop` node.
pub fn parse_while_stmt(cst: &Cst, i: usize, ast: &mut Ast) -> (r: Result<StmtID, LowerError>)
    requires
        cst.wf(),
        i < cst@.len(),
    ensures
        step_matches(old(ast)@, final(ast)@, r, lower_while_at(cst@, i as int, old(ast)@.entries)),
    decreases i, 2int, 1int,
{
    let node = &cst.nodes[i];
    if !str_eq(node.kind.as_str(), "while_loop") {
        return Err(LowerError::Internal { fault: InternalFault::UnexpectedKind });
    }
    if let Err(e) = check_invalid_node(node) {
        return Err(e);
    }
    let condition_t = match find_field(node, "condition") {
        None => {
            return Err(LowerError::Internal { fault: InternalFault::MissingField });
        },
        Some(t) => t,
    };
    proof {
        lemma_child_target_range(cst@, i as int, condition_t as int);
    }
    let condition = match parse_expr(cst, condition_t, ast) {
        Err(e) => {
            return Err(e);
        },
        Ok(x) => x,
    };
    let body = match parse_stmt_list(cst, i, "body", ast) {
        Err(e) => {
            return Err(e);
        },
        Ok(v) => v,
    };
    let stmt = Statement::While { cond_expr: condition, body_block: body };
    let lexical_info = parse_node_lexical_info(node);
    let id = ast.add_statement_node(stmt, lexical_info);
    Ok(id)
}

/// Lowers a `conditional` node.
pub fn parse_conditional_stmt(cst: &Cst, i: usize, ast: &mut Ast) -> (r: Result<StmtID, LowerError>)
    requires
        cst.wf(),
        i < cst@.len(),
    ensures
        step_matches(old(ast)@, final(ast)@, r, lower_conditional_at(cst@, i as int, old(ast)@.entries)),
    decreases i, 2int, 1int,
{
    let node = &cst.nodes[i];
    if !str_eq(node.kind.as_str(), "conditional") {
        return Err(LowerError::Internal { fault: InternalFault::UnexpectedKind });
    }
    if let Err(e) = check_invalid_node(node) {
        return Err(e);
    }
    let condition_t = match find_field(node, "condition") {
        None => {
            return Err(LowerError::Internal { fault: InternalFault::MissingField });
        },
        Some(t) => t,
    };
    proof {
        lemma_child_target_range(cst@, i as int, condition_t as int);
    }
    let condition = match parse_expr(cst, condition_t, ast) {
        Err(e) => {
            return Err(e);
        },
        Ok(x) => x,
    };
    let then_block = match parse_stmt_list(cst, i, "then_body", ast) {
        Err(e) => {
            return Err(e);
        },
        Ok(v) => v,
    };
    let else_body = if find_field(node, "has_else").is_some() {
        match parse_stmt_list(cst, i, "else_body", ast) {
            Err(e) => {
                return Err(e);
            },
            Ok(v) => Some(v),
        }
    } else {
        None
    };
    let stmt = Statement::If { cond_expr: condition, then_block, else_body };
    let lexical_info = parse_node_lexical_info(node);
    let id = ast.add_statement_node(stmt, lexical_info);
    Ok(id)
}

/// Lowers a `variable_declaration` node.
pub fn parse_var_decl_stmt(cst: &Cst, i: usize, ast: &mut Ast) -> (r: Result<StmtID, LowerError>)
    requires
        cst.wf(),
        i < cst@.len(),
    ensures
        step_matches(old(ast)@, final(ast)@, r, lower_var_decl_at(cst@, i as int, old(ast)@.entries)),
    decreases i, 2int, 0int,
{
    let node = &cst.nodes[i];
    if !str_eq(node.kind.as_str(), "variable_declaration") {
        return Err(LowerError::Internal { fault: InternalFault::UnexpectedKind });
    }
    if let Err(e) = check_invalid_node(node) {
        return Err(e);
    }
    let is_mut = find_field(node, "is_mut").is_some();
    let name_t = match find_field(node, "name") {
        None => {
            return Err(LowerError::Internal { fault: InternalFault::MissingField });
        },
        Some(t) => t,
    };
    proof {
        lemma_child_target_range(cst@, i as int, name_t as int);
    }
    let name = match parse_identifier(cst, name_t, ast) {
        Err(e) => {
            return Err(e);
        },
        Ok(x) => x,
    };
    let type_t = match find_field(node, "type") {
        None => {
            return Err(LowerError::Internal { fault: InternalFault::MissingField });
        },
        Some(t) => t,
    };
    proof {
        lemma_child_target_range(cst@, i as int, type_t as int);
    }
    let type_expr = match parse_type_expr(cst, type_t, ast) {
        Err(e) => {
            return Err(e);
        },
        Ok(x) => x,
    };
    let initializer = match find_field(node, "initializer") {
        None => None,
        Some(t) => {
            proof {
                lemma_child_target_range(cst@, i as int, t as int);
            }
            match parse_expr(cst, t, ast) {
                Err(e) => {
                    return Err(e);
                },
                Ok(x) => Some(x),
            }
        },
    };
    let stmt = Statement::VarDecl { is_mut, name, type_expr, init_expr: initializer };
    let lexical_info = parse_node_lexical_info(node);
    let id = ast.add_statement_node(stmt, lexical_info);
    Ok(id)
}

/// Lowers an `expression_stmt` node.
pub fn parse_expr_stmt(cst: &Cst, i: usize, ast: &mut Ast) -> (r: Result<StmtID, LowerError>)
    requires
        cst.wf(),
        i < cst@.len(),
    ensures
        step_matches(old(ast)@, final(ast)@, r, lower_expr_stmt_at(cst@, i as int, old(ast)@.entries)),
    decreases i, 2int, 0int,
{
    let node = &cst.nodes[i];
    if !str_eq(node.kind.as_str(), "expression_stmt") {
        return Err(LowerError::Internal { fault: InternalFault::UnexpectedKind });
    }
    if let Err(e) = check_invalid_node(node) {
        return Err(e);
    }
    let expr_t = match find_field(node, "expression") {
        None => {
            return Err(LowerError::Internal { fault: InternalFault::MissingField });
        },
        Some(t) => t,
    };
    proof {
        lemma_child_target_range(cst@, i as int, expr_t as int);
    }
    let expr = match parse_expr(cst, expr_t, ast) {
        Err(e) => {
            return Err(e);
        },
        Ok(x) => x,
    };
    let stmt = Statement::Expression { expr };
    let lexical_info = parse_node_lexical_info(node);
    let id = ast.add_statement_node(stmt, lexical_info);
    Ok(id)
}

/// Dispatches a statement node on its kind tag.
pub fn parse_stmt(cst: &Cst, i: usize, ast: &mut Ast) -> (r: Result<StmtID, LowerError>)
    requires
        cst.wf(),
        i < cst@.len(),
    ensures
        step_matches(old(ast)@, final(ast)@, r, lower_stmt_at(cst@, i as int, old(ast)@.entries)),
    decreases i, 3int, 0int,
{
    let node = &cst.nodes[i];
    if let Err(e) = check_invalid_node(node) {
        return Err(e);
    }
    if str_eq(node.kind.as_str(), "break_stmt") {
        parse_break_stmt(cst, i, ast)
    } else if str_eq(node.kind.as_str(), "continue_stmt") {
        parse_continue_stmt(cst, i, ast)
    } else if str_eq(node.kind.as_str(), "return_stmt") {
        parse_return_stmt(cst, i, ast)
    } else if str_eq(node.kind.as_str(), "for_each_loop") {
        parse_for_each_stmt(cst, i, ast)
    } else if str_eq(node.kind.as_str(), "while_loop") {
        parse_while_stmt(cst, i, ast)
    } else if str_eq(node.kind.as_str(), "conditional") {
        parse_conditional_stmt(cst, i, ast)
    } else if str_eq(node.kind.as_str(), "variable_declaration") {
        parse_var_decl_stmt(cst, i, ast)
    } else if str_eq(node.kind.as_str(), "expression_stmt") {
        parse_expr_stmt(cst, i, ast)
    } else {
        Err(LowerError::Internal { fault: InternalFault::UnexpectedKind })
    }
}

/// Lowers a `function_param` node.
pub fn parse_function_param(cst: &Cst, i: usize, ast: &mut Ast) -> (r: Result<
    FunctionParamID,
    LowerError,
>)
    requires
        cst.wf(),
        i < cst@.len(),
    ensures
        step_matches(old(ast)@, final(ast)@, r, lower_function_param_at(cst@, i as int, old(ast)@.entries)),
    decreases i, 2int, 0int,
{
    let node = &cst.nodes[i];
    if !str_eq(node.kind.as_str(), "function_param") {
        return Err(LowerError::Internal { fault: InternalFault::UnexpectedKind });
    }
    if let Err(e) = check_invalid_node(node) {
        return Err(e);
    }
    let is_mut = find_field(node, "is_mut").is_some();
    let name_t = match find_field(node, "name") {
        None => {
            return Err(LowerError::Internal { fault: InternalFault::MissingField });
        },
        Some(t) => t,
    };
    proof {
        lemma_child_target_range(cst@, i as int, name_t as int);
    }
    let name = match parse_identifier(cst, name_t, ast) {
        Err(e) => {
            return Err(e);
        },
        Ok(x) => x,
    };
    let type_t = match find_field(node, "type") {
        None => {
            return Err(LowerError::Internal { fault: InternalFault::MissingField });
        },
        Some(t) => t,
    };
    proof {
        lemma_child_target_range(cst@, i as int, type_t as int);
    }
    let type_expr = match parse_type_expr(cst, type_t, ast) {
        Err(e) => {
            return Err(e);
        },
        Ok(x) => x,
    };
    let function_param = FunctionParam { is_mut, name, type_expr };
    let lexical_info = parse_node_lexical_info(node);
    let id = ast.add_function_param_node(function_param, lexical_info);
    Ok(id)
}

/// Collects and lowers every child of `i` filling the `param` grammar
/// field, in source order.
#[verifier::loop_isolation(false)]
pub fn parse_param_list(cst: &Cst, i: usize, ast: &mut Ast) -> (r: Result<
    Vec<FunctionParamID>,
    LowerError,
>)
    requires
        cst.wf(),
        i < cst@.len(),
    ensures
        ({
            let (af, rf) = collect_params(cst@, i as int, 0, old(ast)@.entries);
            &&& final(ast)@.entries == af
            &&& final(ast)@.program == old(ast)@.program
            &&& match (r, rf) {
                (Ok(v), Ok(s)) => v@ == s,
                (Err(e), Err(e2)) => e == e2,
                _ => false,
            }
        }),
    decreases i, 1int, 0int,
{
    let ghost a_base = ast@.entries;
    let mut out: Vec<FunctionParamID> = Vec::new();
    proof {
        let (af, rf) = collect_params(cst@, i as int, 0, a_base);
        if rf is Ok {
            assert(Seq::<FunctionParamID>::empty() + rf->Ok_0 =~= rf->Ok_0);
        }
    }
    let n_children = cst.nodes[i].children.len();
    let mut j: usize = 0;
    while j < n_children
        invariant
            j <= n_children,
            ast@.program == old(ast)@.program,
            ({
                let (af, rf) = collect_params(cst@, i as int, j as int, ast@.entries);
                collect_params(cst@, i as int, 0, a_base) == (
                    af,
                    match rf {
                        Ok(rest) => Ok(out@ + rest),
                        Err(e) => Err(e),
                    },
                )
            }),
        decreases n_children - j,
    {
        let child = &cst.nodes[i].children[j];
        let is_match = match &child.field_name {
            Some(f) => str_eq(f.as_str(), "param"),
            None => false,
        };
        if is_match {
            let t = child.target;
            proof {
                assert(cst@[i as int].children[j as int].target == t as int);
                assert(0 <= (t as int) && (t as int) < (i as int));
            }
            let ghost out_before = out@;
            match parse_function_param(cst, t, ast) {
                Err(e) => {
                    return Err(e);
                },
                Ok(id) => {
                    out.push(id);
                    proof {
                        assert(out@ =~= out_before + seq![id]);
                        let (af2, rf2) = collect_params(cst@, i as int, j + 1, ast@.entries);
                        if rf2 is Ok {
                            assert(out_before + (seq![id] + rf2->Ok_0) =~= out@ + rf2->Ok_0);
                        }
                    }
                },
            }
        }
        j += 1;
    }
    proof {
        let (af, rf) = collect_params(cst@, i as int, j as int, ast@.entries);
        assert(out@ + Seq::<FunctionParamID>::empty() =~= out@);
    }
    Ok(out)
}

/// Lowers a `function` node: name, parameters, return type, body.
pub fn parse_function(cst: &Cst, i: usize, ast: &mut Ast) -> (r: Result<ScopeDefID, LowerError>)
    requires
        cst.wf(),
        i < cst@.len(),
    ensures
        step_matches(old(ast)@, final(ast)@, r, lower_function_at(cst@, i as int, old(ast)@.entries)),
    decreases i, 2int, 1int,
{
    let node = &cst.nodes[i];
    if !str_eq(node.kind.as_str(), "function") {
        return Err(LowerError::Internal { fault: InternalFault::UnexpectedKind });
    }
    if let Err(e) = check_invalid_node(node) {
        return Err(e);
    }
    let name_t = match find_field(node, "name") {
        None => {
            return Err(LowerError::Internal { fault: InternalFault::MissingField });
        },
        Some(t) => t,
    };
    proof {
        lemma_child_target_range(cst@, i as int, name_t as int);
    }
    let name = match parse_identifier(cst, name_t, ast) {
        Err(e) => {
            return Err(e);
        },
        Ok(x) => x,
    };
    let params = match parse_param_list(cst, i, ast) {
        Err(e) => {
            return Err(e);
        },
        Ok(v) => v,
    };
    let return_type_t = match find_field(node, "return_type") {
        None => {
            return Err(LowerError::Internal { fault: InternalFault::MissingField });
        },
        Some(t) => t,
    };
    proof {
        lemma_child_target_range(cst@, i as int, return_type_t as int);
    }
    let return_type = match parse_type_expr(cst, return_type_t, ast) {
        Err(e) => {
            return Err(e);
        },
        Ok(x) => x,
    };
    let body = match parse_stmt_list(cst, i, "body", ast) {
        Err(e) => {
            return Err(e);
        },
        Ok(v) => v,
    };
    let function = ScopeDef::Function { name, params, return_type, body };
    let lexical_info = parse_node_lexical_info(node);
    let id = ast.add_scope_def_node(function, lexical_info);
    Ok(id)
}

/// Dispatches a scope-definition node on its kind tag.
pub fn parse_scope_def(cst: &Cst, i: usize, ast: &mut Ast) -> (r: Result<ScopeDefID, LowerError>)
    requires
        cst.wf(),
        i < cst@.len(),
    ensures
        step_matches(old(ast)@, final(ast)@, r, lower_scope_def_at(cst@, i as int, old(ast)@.entries)),
    decreases i, 3int, 0int,
{
    let node = &cst.nodes[i];
    if let Err(e) = check_invalid_node(node) {
        return Err(e);
    }
    if str_eq(node.kind.as_str(), "function") {
        parse_function(cst, i, ast)
    } else {
        Err(LowerError::Internal { fault: InternalFault::UnexpectedKind })
    }
}

/// Collects and lowers every direct child of the program node as a scope
/// definition, in source order.
#[verifier::loop_isolation(false)]
pub fn parse_def_list(cst: &Cst, i: usize, ast: &mut Ast) -> (r: Result<
    Vec<ScopeDefID>,
    LowerError,
>)
    requires
        cst.wf(),
        i < cst@.len(),
    ensures
        ({
            let (af, rf) = collect_defs(cst@, i as int, 0, old(ast)@.entries);
            &&& final(ast)@.entries == af
            &&& final(ast)@.program == old(ast)@.program
            &&& match (r, rf) {
                (Ok(v), Ok(s)) => v@ == s,
                (Err(e), Err(e2)) => e == e2,
                _ => false,
            }
        }),
    decreases i, 1int, 0int,
{
    let ghost a_base = ast@.entries;
    let mut out: Vec<ScopeDefID> = Vec::new();
    proof {
        let (af, rf) = collect_defs(cst@, i as int, 0, a_base);
        if rf is Ok {
            assert(Seq::<ScopeDefID>::empty() + rf->Ok_0 =~= rf->Ok_0);
        }
    }
    let n_children = cst.nodes[i].children.len();
    let mut j: usize = 0;
    while j < n_children
        invariant
            j <= n_children,
            ast@.program == old(ast)@.program,
            ({
                let (af, rf) = collect_defs(cst@, i as int, j as int, ast@.entries);
                collect_defs(cst@, i as int, 0, a_base) == (
                    af,
                    match rf {
                        Ok(rest) => Ok(out@ + rest),
                        Err(e) => Err(e),
                    },
                )
            }),
        decreases n_children - j,
    {
        let t = cst.nodes[i].children[j].target;
        proof {
            assert(cst@[i as int].children[j as int].target == t as int);
            assert(0 <= (t as int) && (t as int) < (i as int));
        }
        let ghost out_before = out@;
        match parse_scope_def(cst, t, ast) {
            Err(e) => {
                return Err(e);
            },
            Ok(id) => {
                out.push(id);
                proof {
                    assert(out@ =~= out_before + seq![id]);
                    let (af2, rf2) = collect_defs(cst@, i as int, j + 1, ast@.entries);
                    if rf2 is Ok {
                        assert(out_before + (seq![id] + rf2->Ok_0) =~= out@ + rf2->Ok_0);
                    }
                }
            },
        }
        j += 1;
    }
    proof {
        let (af, rf) = collect_defs(cst@, i as int, j as int, ast@.entries);
        assert(out@ + Seq::<ScopeDefID>::empty() =~= out@);
    }
    Ok(out)
}

/// Lowers a `program` node: every direct child as a scope definition, in
/// source order, and stores the resulting [`Program`] in the arena.
pub fn parse_program(cst: &Cst, i: usize, ast: &mut Ast) -> (r: Result<(), LowerError>)
    requires
        cst.wf(),
        i < cst@.len(),
    ensures
        ({
            let (af, rf) = lower_program_at(cst@, i as int, old(ast)@.entries);
            &&& final(ast)@.entries == af
            &&& match (r, rf) {
                (Ok(u), Ok(defs)) => final(ast)@.program == Some(defs),
                (Err(e), Err(e2)) => e == e2 && final(ast)@.program == old(ast)@.program,
                _ => false,
            }
        }),
    decreases i, 2int, 1int,
{
    let node = &cst.nodes[i];
    if !str_eq(node.kind.as_str(), "program") {
        return Err(LowerError::Internal { fault: InternalFault::UnexpectedKind });
    }
    if let Err(e) = check_invalid_node(node) {
        return Err(e);
    }
    let declarations = match parse_def_list(cst, i, ast) {
        Err(e) => {
            return Err(e);
        },
        Ok(v) => v,
    };
    ast.set_program(Program { global_defs: declarations });
    Ok(())
}

/// Lowers a whole parse tree: checks well-formedness, creates an empty
/// arena, lowers the root as a program, and returns the populated arena.
/// Returns exactly what [`lower_tso`] specifies: in particular, calling it
/// twice on the same tree yields the same result.
pub fn parse_tree_sitter_output(cst: &Cst) -> (r: Result<Ast, LowerError>)
    ensures
        (match r {
            Ok(ast) => Ok(ast@),
            Err(e) => Err(e),
        }) == lower_tso(cst@, cst.root as int),
{
    if !cst.check_wf() {
        return Err(LowerError::Internal { fault: InternalFault::MalformedTree });
    }
    let mut ast = Ast::new();
    proof {
        assert(ast@.entries =~= Seq::<crate::ast::EntryV>::empty());
    }
    match parse_program(cst, cst.root, &mut ast) {
        Ok(_) => Ok(ast),
        Err(e) => Err(e),
    }
}

} // verus!
