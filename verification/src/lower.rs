//! The mathematical specification of the lowering transform.
//!
//! Lowering is specified as a pure, recursive interpreter over the parse
//! tree: each function takes the tree, the slot of the node to lower, and
//! the arena contents so far, and returns the new arena contents together
//! with the lowered node's identifier or the error.  The executable engine
//! in [`crate::tso_parser`] is verified to return exactly what this
//! interpreter says, which makes the transform deterministic by
//! construction.
//!
//! Error discipline: a node the parser marked as an error or as missing
//! yields [`LowerError::InvalidNode`] — the only user-facing error.  A
//! mismatch between the grammar and this engine (an unknown kind tag, a
//! missing required field, an unknown operator spelling, unparseable
//! numeric text, an ill-formed tree) is surfaced as a
//! [`LowerError::Internal`] defect report, never a panic.

use vstd::prelude::*;
use crate::ast::{
    BinaryOprt, EntryV, ExprID, ExpressionV, ForEachDecl, ForEachDeclID, FunctionParam,
    FunctionParamID, IdentifierID, LexicalInfo, LexicalPosition, NodeID, NodeV, ScopeDefID,
    ScopeDefV, StatementV, StmtID, TypeExprID, TypeExprV, UnaryOprt,
};
use crate::cst::{field_target, CstNodeV};
use crate::text::spec_parse_i64;

verus! {

/// A grammar/engine mismatch: a condition that can only arise when the
/// parse tree was not produced by the grammar this engine was written for.
#[derive(PartialEq, Eq, Clone, Copy, Debug, Structural)]
pub enum InternalFault {
    /// A child reference does not stand strictly below its parent, or a
    /// slot is out of bounds.
    MalformedTree,
    /// A node kind no lowering function is mapped to.
    UnexpectedKind,
    /// A required grammar field is absent on a node whose kind matched.
    MissingField,
    /// An operator spelling outside the closed enumeration.
    UnexpectedOperator,
    /// A boolean literal spelling outside the two recognized keywords.
    UnexpectedBoolean,
    /// Numeric literal text that does not parse as a 64-bit integer.
    MalformedLiteral,
}

/// The two disjoint error classes of the lowering engine.
#[derive(PartialEq, Eq, Clone, Copy, Debug, Structural)]
pub enum LowerError {
    /// The parser marked the offending node as a syntax error or as a
    /// missing token: the source text itself is malformed.  Carries the
    /// node's span.
    InvalidNode { start: LexicalPosition, end: LexicalPosition },
    /// A grammar/engine mismatch; see [`InternalFault`].  Callers should
    /// treat this as a defect, not as user input to recover from.
    Internal { fault: InternalFault },
}

pub open spec fn internal(fault: InternalFault) -> LowerError {
    LowerError::Internal { fault }
}

/// True when the parser marked the node as an error or as missing.
pub open spec fn node_invalid(n: CstNodeV) -> bool {
    n.is_error || n.is_missing
}

pub open spec fn invalid_err(n: CstNodeV) -> LowerError {
    LowerError::InvalidNode { start: n.start, end: n.end }
}

/// The span recorded for every node lowered from `n`.
pub open spec fn span_of(n: CstNodeV) -> LexicalInfo {
    LexicalInfo { start: n.start, end: n.end }
}

pub open spec fn in_range(c: Seq<CstNodeV>, i: int) -> bool {
    0 <= i < c.len()
}

pub open spec fn node_id_at(a: Seq<EntryV>) -> NodeID {
    NodeID { id: a.len() as usize }
}

/// The contract every executable lowering function meets: the arena's
/// entries and the returned value are exactly what the interpreter `step`
/// says, and the program value is untouched.
pub open spec fn step_matches<T>(
    pre: crate::ast::AstV,
    post: crate::ast::AstV,
    r: Result<T, LowerError>,
    step: (Seq<EntryV>, Result<T, LowerError>),
) -> bool {
    &&& post.entries == step.0
    &&& r == step.1
    &&& post.program == pre.program
}

/// The value of the fraction text of a decimal literal: divided by ten
/// until it is below one.  With integer division this always collapses a
/// positive value to zero; the quirk is deliberate (see
/// [`crate::ast::Expression::DecimalLiteral`]).
pub open spec fn divide_down(f: int) -> int
    decreases (if f >= 1 { f } else { 0 }),
{
    if f >= 1 {
        divide_down(f / 10)
    } else {
        f
    }
}

/// The closed enumeration of binary operator spellings.
pub open spec fn binary_oprt_of(s: Seq<char>) -> Option<BinaryOprt> {
    if s == "="@ {
        Some(BinaryOprt::Assign)
    } else if s == "e"@ {
        Some(BinaryOprt::And)
    } else if s == "ou"@ {
        Some(BinaryOprt::Or)
    } else if s == "=="@ {
        Some(BinaryOprt::Eq)
    } else if s == "!="@ {
        Some(BinaryOprt::Neq)
    } else if s == "<"@ {
        Some(BinaryOprt::Lt)
    } else if s == ">"@ {
        Some(BinaryOprt::Gt)
    } else if s == "<="@ {
        Some(BinaryOprt::Le)
    } else if s == ">="@ {
        Some(BinaryOprt::Ge)
    } else if s == "+"@ {
        Some(BinaryOprt::Add)
    } else if s == "-"@ {
        Some(BinaryOprt::Sub)
    } else if s == "*"@ {
        Some(BinaryOprt::Mul)
    } else if s == "/"@ {
        Some(BinaryOprt::Div)
    } else {
        None
    }
}

/// The closed enumeration of unary operator spellings.
pub open spec fn unary_oprt_of(s: Seq<char>) -> Option<UnaryOprt> {
    if s == "*"@ {
        Some(UnaryOprt::Deref)
    } else if s == "não"@ {
        Some(UnaryOprt::Not)
    } else if s == "-"@ {
        Some(UnaryOprt::Neg)
    } else {
        None
    }
}

/// Lowers an identifier leaf: stores the node's text under a fresh slot.
pub open spec fn lower_identifier_at(c: Seq<CstNodeV>, i: int, a: Seq<EntryV>) -> (Seq<EntryV>, Result<
    IdentifierID,
    LowerError,
>)
    decreases i, 0int, 0int,
{
    if !in_range(c, i) {
        (a, Err(internal(InternalFault::MalformedTree)))
    } else {
        let n = c[i];
        if n.kind != "identifier"@ {
            (a, Err(internal(InternalFault::UnexpectedKind)))
        } else if node_invalid(n) {
            (a, Err(invalid_err(n)))
        } else {
            (
                a.push(EntryV { node: NodeV::Identifier(n.text), info: span_of(n) }),
                Ok(IdentifierID(node_id_at(a))),
            )
        }
    }
}

/// Lowers a `raw_type` node.
pub open spec fn lower_raw_type_at(c: Seq<CstNodeV>, i: int, a: Seq<EntryV>) -> (Seq<EntryV>, Result<
    TypeExprID,
    LowerError,
>)
    decreases i, 2int, 0int,
{
    if !in_range(c, i) {
        (a, Err(internal(InternalFault::MalformedTree)))
    } else {
        let n = c[i];
        if n.kind != "raw_type"@ {
            (a, Err(internal(InternalFault::UnexpectedKind)))
        } else if node_invalid(n) {
            (a, Err(invalid_err(n)))
        } else {
            match field_target(n, "name"@) {
                None => (a, Err(internal(InternalFault::MissingField))),
                Some(t) => if !(0 <= t < i) {
                    (a, Err(internal(InternalFault::MalformedTree)))
                } else {
                    let (a1, r1) = lower_identifier_at(c, t, a);
                    match r1 {
                        Err(e) => (a1, Err(e)),
                        Ok(name) => (
                            a1.push(
                                EntryV {
                                    node: NodeV::TypeExpr(TypeExprV::RawType { name }),
                                    info: span_of(n),
                                },
                            ),
                            Ok(TypeExprID(node_id_at(a1))),
                        ),
                    }
                },
            }
        }
    }
}

/// Collects the type arguments of a `template_type` node: every child
/// whose own kind is `arg`, in source order.
pub open spec fn collect_template_args(c: Seq<CstNodeV>, i: int, j: int, a: Seq<EntryV>) -> (Seq<
    EntryV,
>, Result<Seq<TypeExprID>, LowerError>)
    decreases i, 1int, (if in_range(c, i) { c[i].children.len() - j } else { 0 }),
{
    if !in_range(c, i) {
        (a, Err(internal(InternalFault::MalformedTree)))
    } else if j < 0 || j >= c[i].children.len() {
        (a, Ok(Seq::<TypeExprID>::empty()))
    } else {
        let t = c[i].children[j].target;
        if !(0 <= t < i) {
            (a, Err(internal(InternalFault::MalformedTree)))
        } else if c[t].kind == "arg"@ {
            let (a1, r1) = lower_type_expr_at(c, t, a);
            match r1 {
                Err(e) => (a1, Err(e)),
                Ok(id) => {
                    let (a2, r2) = collect_template_args(c, i, j + 1, a1);
                    match r2 {
                        Err(e) => (a2, Err(e)),
                        Ok(rest) => (a2, Ok(seq![id] + rest)),
                    }
                },
            }
        } else {
            collect_template_args(c, i, j + 1, a)
        }
    }
}

/// Lowers a `template_type` node.
pub open spec fn lower_template_type_at(c: Seq<CstNodeV>, i: int, a: Seq<EntryV>) -> (Seq<
    EntryV,
>, Result<TypeExprID, LowerError>)
    decreases i, 2int, 0int,
{
    if !in_range(c, i) {
        (a, Err(internal(InternalFault::MalformedTree)))
    } else {
        let n = c[i];
        if n.kind != "template_type"@ {
            (a, Err(internal(InternalFault::UnexpectedKind)))
        } else if node_invalid(n) {
            (a, Err(invalid_err(n)))
        } else {
            match field_target(n, "name"@) {
                None => (a, Err(internal(InternalFault::MissingField))),
                Some(t) => if !(0 <= t < i) {
                    (a, Err(internal(InternalFault::MalformedTree)))
                } else {
                    let (a1, r1) = lower_identifier_at(c, t, a);
                    match r1 {
                        Err(e) => (a1, Err(e)),
                        Ok(name) => {
                            let (a2, r2) = collect_template_args(c, i, 0, a1);
                            match r2 {
                                Err(e) => (a2, Err(e)),
                                Ok(args) => (
                                    a2.push(
                                        EntryV {
                                            node: NodeV::TypeExpr(
                                                TypeExprV::TemplateType { name, type_args: args },
                                            ),
                                            info: span_of(n),
                                        },
                                    ),
                                    Ok(TypeExprID(node_id_at(a2))),
                                ),
                            }
                        },
                    }
                },
            }
        }
    }
}

/// Lowers a `ref_type` node.
pub open spec fn lower_ref_type_at(c: Seq<CstNodeV>, i: int, a: Seq<EntryV>) -> (Seq<EntryV>, Result<
    TypeExprID,
    LowerError,
>)
    decreases i, 2int, 0int,
{
    if !in_range(c, i) {
        (a, Err(internal(InternalFault::MalformedTree)))
    } else {
        let n = c[i];
        if n.kind != "ref_type"@ {
            (a, Err(internal(InternalFault::UnexpectedKind)))
        } else if node_invalid(n) {
            (a, Err(invalid_err(n)))
        } else {
            let is_mut = field_target(n, "is_mut"@) is Some;
            match field_target(n, "type"@) {
                None => (a, Err(internal(InternalFault::MissingField))),
                Some(t) => if !(0 <= t < i) {
                    (a, Err(internal(InternalFault::MalformedTree)))
                } else {
                    let (a1, r1) = lower_type_expr_at(c, t, a);
                    match r1 {
                        Err(e) => (a1, Err(e)),
                        Ok(inner) => (
                            a1.push(
                                EntryV {
                                    node: NodeV::TypeExpr(
                                        TypeExprV::RefType { is_mut, type_expr: inner },
                                    ),
                                    info: span_of(n),
                                },
                            ),
                            Ok(TypeExprID(node_id_at(a1))),
                        ),
                    }
                },
            }
        }
    }
}

/// Lowers a `comp_type` node.
pub open spec fn lower_comp_type_at(c: Seq<CstNodeV>, i: int, a: Seq<EntryV>) -> (Seq<EntryV>, Result<
    TypeExprID,
    LowerError,
>)
    decreases i, 2int, 0int,
{
    if !in_range(c, i) {
        (a, Err(internal(InternalFault::MalformedTree)))
    } else {
        let n = c[i];
        if n.kind != "comp_type"@ {
            (a, Err(internal(InternalFault::UnexpectedKind)))
        } else if node_invalid(n) {
            (a, Err(invalid_err(n)))
        } else {
            let is_mut = field_target(n, "is_mut"@) is Some;
            match field_target(n, "type"@) {
                None => (a, Err(internal(InternalFault::MissingField))),
                Some(t) => if !(0 <= t < i) {
                    (a, Err(internal(InternalFault::MalformedTree)))
                } else {
                    let (a1, r1) = lower_type_expr_at(c, t, a);
                    match r1 {
                        Err(e) => (a1, Err(e)),
                        Ok(inner) => (
                            a1.push(
                                EntryV {
                                    node: NodeV::TypeExpr(
                                        TypeExprV::CompType { is_mut, type_expr: inner },
                                    ),
                                    info: span_of(n),
                                },
                            ),
                            Ok(TypeExprID(node_id_at(a1))),
                        ),
                    }
                },
            }
        }
    }
}

/// Dispatches a type-expression node on its kind tag.
pub open spec fn lower_type_expr_at(c: Seq<CstNodeV>, i: int, a: Seq<EntryV>) -> (Seq<EntryV>, Result<
    TypeExprID,
    LowerError,
>)
    decreases i, 3int, 0int,
{
    if !in_range(c, i) {
        (a, Err(internal(InternalFault::MalformedTree)))
    } else {
        let n = c[i];
        if node_invalid(n) {
            (a, Err(invalid_err(n)))
        } else if n.kind == "raw_type"@ {
            lower_raw_type_at(c, i, a)
        } else if n.kind == "template_type"@ {
            lower_template_type_at(c, i, a)
        } else if n.kind == "ref_type"@ {
            lower_ref_type_at(c, i, a)
        } else if n.kind == "comp_type"@ {
            lower_comp_type_at(c, i, a)
        } else {
            (a, Err(internal(InternalFault::UnexpectedKind)))
        }
    }
}

/// Lowers a `binary_expr` node: operator spelling first, then the two
/// operands left to right.
pub open spec fn lower_binary_expr_at(c: Seq<CstNodeV>, i: int, a: Seq<EntryV>) -> (Seq<EntryV>, Result<
    ExprID,
    LowerError,
>)
    decreases i, 2int, 0int,
{
    if !in_range(c, i) {
        (a, Err(internal(InternalFault::MalformedTree)))
    } else {
        let n = c[i];
        if n.kind != "binary_expr"@ {
            (a, Err(internal(InternalFault::UnexpectedKind)))
        } else if node_invalid(n) {
            (a, Err(invalid_err(n)))
        } else {
            match field_target(n, "oprt"@) {
                None => (a, Err(internal(InternalFault::MissingField))),
                Some(t_op) => if !(0 <= t_op < i) {
                    (a, Err(internal(InternalFault::MalformedTree)))
                } else {
                    match binary_oprt_of(c[t_op].text) {
                        None => (a, Err(internal(InternalFault::UnexpectedOperator))),
                        Some(oprt) => match field_target(n, "lhs"@) {
                            None => (a, Err(internal(InternalFault::MissingField))),
                            Some(t_l) => if !(0 <= t_l < i) {
                                (a, Err(internal(InternalFault::MalformedTree)))
                            } else {
                                let (a1, r1) = lower_expr_at(c, t_l, a);
                                match r1 {
                                    Err(e) => (a1, Err(e)),
                                    Ok(left) => match field_target(n, "rhs"@) {
                                        None => (a1, Err(internal(InternalFault::MissingField))),
                                        Some(t_r) => if !(0 <= t_r < i) {
                                            (a1, Err(internal(InternalFault::MalformedTree)))
                                        } else {
                                            let (a2, r2) = lower_expr_at(c, t_r, a1);
                                            match r2 {
                                                Err(e) => (a2, Err(e)),
                                                Ok(right) => (
                                                    a2.push(
                                                        EntryV {
                                                            node: NodeV::Expression(
                                                                ExpressionV::BinaryOprt { oprt, left, right },
                                                            ),
                                                            info: span_of(n),
                                                        },
                                                    ),
                                                    Ok(ExprID(node_id_at(a2))),
                                                ),
                                            }
                                        },
                                    },
                                }
                            },
                        },
                    }
                },
            }
        }
    }
}

/// Lowers a `unary_expr` node.
pub open spec fn lower_unary_expr_at(c: Seq<CstNodeV>, i: int, a: Seq<EntryV>) -> (Seq<EntryV>, Result<
    ExprID,
    LowerError,
>)
    decreases i, 2int, 0int,
{
    if !in_range(c, i) {
        (a, Err(internal(InternalFault::MalformedTree)))
    } else {
        let n = c[i];
        if n.kind != "unary_expr"@ {
            (a, Err(internal(InternalFault::UnexpectedKind)))
        } else if node_invalid(n) {
            (a, Err(invalid_err(n)))
        } else {
            match field_target(n, "oprt"@) {
                None => (a, Err(internal(InternalFault::MissingField))),
                Some(t_op) => if !(0 <= t_op < i) {
                    (a, Err(internal(InternalFault::MalformedTree)))
                } else {
                    match unary_oprt_of(c[t_op].text) {
                        None => (a, Err(internal(InternalFault::UnexpectedOperator))),
                        Some(oprt) => match field_target(n, "value"@) {
                            None => (a, Err(internal(InternalFault::MissingField))),
                            Some(t_v) => if !(0 <= t_v < i) {
                                (a, Err(internal(InternalFault::MalformedTree)))
                            } else {
                                let (a1, r1) = lower_expr_at(c, t_v, a);
                                match r1 {
                                    Err(e) => (a1, Err(e)),
                                    Ok(operand) => (
                                        a1.push(
                                            EntryV {
                                                node: NodeV::Expression(
                                                    ExpressionV::UnaryOprt { oprt, operand },
                                                ),
                                                info: span_of(n),
                                            },
                                        ),
                                        Ok(ExprID(node_id_at(a1))),
                                    ),
                                }
                            },
                        },
                    }
                },
            }
        }
    }
}

/// Lowers an `access_expr` node: the object expression, then the accessed
/// field's identifier.
pub open spec fn lower_access_expr_at(c: Seq<CstNodeV>, i: int, a: Seq<EntryV>) -> (Seq<EntryV>, Result<
    ExprID,
    LowerError,
>)
    decreases i, 2int, 0int,
{
    if !in_range(c, i) {
        (a, Err(internal(InternalFault::MalformedTree)))
    } else {
        let n = c[i];
        if n.kind != "access_expr"@ {
            (a, Err(internal(InternalFault::UnexpectedKind)))
        } else if node_invalid(n) {
            (a, Err(invalid_err(n)))
        } else {
            match field_target(n, "object"@) {
                None => (a, Err(internal(InternalFault::MissingField))),
                Some(t_o) => if !(0 <= t_o < i) {
                    (a, Err(internal(InternalFault::MalformedTree)))
                } else {
                    let (a1, r1) = lower_expr_at(c, t_o, a);
                    match r1 {
                        Err(e) => (a1, Err(e)),
                        Ok(object) => match field_target(n, "item"@) {
                            None => (a1, Err(internal(InternalFault::MissingField))),
                            Some(t_i) => if !(0 <= t_i < i) {
                                (a1, Err(internal(InternalFault::MalformedTree)))
                            } else {
                                let (a2, r2) = lower_identifier_at(c, t_i, a1);
                                match r2 {
                                    Err(e) => (a2, Err(e)),
                                    Ok(field_name) => (
                                        a2.push(
                                            EntryV {
                                                node: NodeV::Expression(
                                                    ExpressionV::Access { object, field_name },
                                                ),
                                                info: span_of(n),
                                            },
                                        ),
                                        Ok(ExprID(node_id_at(a2))),
                                    ),
                                }
                            },
                        },
                    }
                },
            }
        }
    }
}

/// Collects the children of `i` filling the named grammar field, each
/// lowered as an expression, in source order.
pub open spec fn collect_exprs(c: Seq<CstNodeV>, i: int, field: Seq<char>, j: int, a: Seq<EntryV>) -> (Seq<
    EntryV,
>, Result<Seq<ExprID>, LowerError>)
    decreases i, 1int, (if in_range(c, i) { c[i].children.len() - j } else { 0 }),
{
    if !in_range(c, i) {
        (a, Err(internal(InternalFault::MalformedTree)))
    } else if j < 0 || j >= c[i].children.len() {
        (a, Ok(Seq::<ExprID>::empty()))
    } else if c[i].children[j].field_name == Some(field) {
        let t = c[i].children[j].target;
        if !(0 <= t < i) {
            (a, Err(internal(InternalFault::MalformedTree)))
        } else {
            let (a1, r1) = lower_expr_at(c, t, a);
            match r1 {
                Err(e) => (a1, Err(e)),
                Ok(id) => {
                    let (a2, r2) = collect_exprs(c, i, field, j + 1, a1);
                    match r2 {
                        Err(e) => (a2, Err(e)),
                        Ok(rest) => (a2, Ok(seq![id] + rest)),
                    }
                },
            }
        }
    } else {
        collect_exprs(c, i, field, j + 1, a)
    }
}

/// Lowers a `call_expr` node: the callee expression, then the arguments
/// in source order.
pub open spec fn lower_call_expr_at(c: Seq<CstNodeV>, i: int, a: Seq<EntryV>) -> (Seq<EntryV>, Result<
    ExprID,
    LowerError,
>)
    decreases i, 2int, 0int,
{
    if !in_range(c, i) {
        (a, Err(internal(InternalFault::MalformedTree)))
    } else {
        let n = c[i];
        if n.kind != "call_expr"@ {
            (a, Err(internal(InternalFault::UnexpectedKind)))
        } else if node_invalid(n) {
            (a, Err(invalid_err(n)))
        } else {
            match field_target(n, "function"@) {
                None => (a, Err(internal(InternalFault::MissingField))),
                Some(t_f) => if !(0 <= t_f < i) {
                    (a, Err(internal(InternalFault::MalformedTree)))
                } else {
                    let (a1, r1) = lower_expr_at(c, t_f, a);
                    match r1 {
                        Err(e) => (a1, Err(e)),
                        Ok(callee) => {
                            let (a2, r2) = collect_exprs(c, i, "arg"@, 0, a1);
                            match r2 {
                                Err(e) => (a2, Err(e)),
                                Ok(args) => (
                                    a2.push(
                                        EntryV {
                                            node: NodeV::Expression(
                                                ExpressionV::Call { callee, args },
                                            ),
                                            info: span_of(n),
                                        },
                                    ),
                                    Ok(ExprID(node_id_at(a2))),
                                ),
                            }
                        },
                    }
                },
            }
        }
    }
}

/// Lowers a `parem_expr` node: unwraps to its inner expression; no
/// wrapper node is created, so parenthesization is not observable.
pub open spec fn lower_parem_expr_at(c: Seq<CstNodeV>, i: int, a: Seq<EntryV>) -> (Seq<EntryV>, Result<
    ExprID,
    LowerError,
>)
    decreases i, 2int, 0int,
{
    if !in_range(c, i) {
        (a, Err(internal(InternalFault::MalformedTree)))
    } else {
        let n = c[i];
        if n.kind != "parem_expr"@ {
            (a, Err(internal(InternalFault::UnexpectedKind)))
        } else if node_invalid(n) {
            (a, Err(invalid_err(n)))
        } else {
            match field_target(n, "expression"@) {
                None => (a, Err(internal(InternalFault::MissingField))),
                Some(t) => if !(0 <= t < i) {
                    (a, Err(internal(InternalFault::MalformedTree)))
                } else {
                    lower_expr_at(c, t, a)
                },
            }
        }
    }
}

/// Lowers an `identifier` node in expression position: the identifier
/// leaf, then an expression node referencing it.
pub open spec fn lower_identifier_expr_at(c: Seq<CstNodeV>, i: int, a: Seq<EntryV>) -> (Seq<
    EntryV,
>, Result<ExprID, LowerError>)
    decreases i, 2int, 0int,
{
    if !in_range(c, i) {
        (a, Err(internal(InternalFault::MalformedTree)))
    } else {
        let n = c[i];
        if n.kind != "identifier"@ {
            (a, Err(internal(InternalFault::UnexpectedKind)))
        } else if node_invalid(n) {
            (a, Err(invalid_err(n)))
        } else {
            let (a1, r1) = lower_identifier_at(c, i, a);
            match r1 {
                Err(e) => (a1, Err(e)),
                Ok(node_id) => (
                    a1.push(
                        EntryV {
                            node: NodeV::Expression(ExpressionV::Identifier { node_id }),
                            info: span_of(n),
                        },
                    ),
                    Ok(ExprID(node_id_at(a1))),
                ),
            }
        }
    }
}

/// Lowers a `decimal` node from its two integer text fields; see
/// [`divide_down`] for the fraction policy.
pub open spec fn lower_decimal_at(c: Seq<CstNodeV>, i: int, a: Seq<EntryV>) -> (Seq<EntryV>, Result<
    ExprID,
    LowerError,
>)
    decreases i, 2int, 0int,
{
    if !in_range(c, i) {
        (a, Err(internal(InternalFault::MalformedTree)))
    } else {
        let n = c[i];
        if n.kind != "decimal"@ {
            (a, Err(internal(InternalFault::UnexpectedKind)))
        } else if node_invalid(n) {
            (a, Err(invalid_err(n)))
        } else {
            match field_target(n, "integer"@) {
                None => (a, Err(internal(InternalFault::MissingField))),
                Some(t_int) => if !(0 <= t_int < i) {
                    (a, Err(internal(InternalFault::MalformedTree)))
                } else {
                    match spec_parse_i64(c[t_int].text) {
                        None => (a, Err(internal(InternalFault::MalformedLiteral))),
                        Some(integer_part) => match field_target(n, "fraction"@) {
                            None => (a, Err(internal(InternalFault::MissingField))),
                            Some(t_fr) => if !(0 <= t_fr < i) {
                                (a, Err(internal(InternalFault::MalformedTree)))
                            } else {
                                match spec_parse_i64(c[t_fr].text) {
                                    None => (a, Err(internal(InternalFault::MalformedLiteral))),
                                    Some(fraction) => (
                                        a.push(
                                            EntryV {
                                                node: NodeV::Expression(
                                                    ExpressionV::DecimalLiteral {
                                                        integer_part,
                                                        fraction_part: divide_down(
                                                            fraction as int,
                                                        ) as i64,
                                                    },
                                                ),
                                                info: span_of(n),
                                            },
                                        ),
                                        Ok(ExprID(node_id_at(a))),
                                    ),
                                }
                            },
                        },
                    }
                },
            }
        }
    }
}

/// Lowers an `integer` node from its text field.
pub open spec fn lower_integer_at(c: Seq<CstNodeV>, i: int, a: Seq<EntryV>) -> (Seq<EntryV>, Result<
    ExprID,
    LowerError,
>)
    decreases i, 2int, 0int,
{
    if !in_range(c, i) {
        (a, Err(internal(InternalFault::MalformedTree)))
    } else {
        let n = c[i];
        if n.kind != "integer"@ {
            (a, Err(internal(InternalFault::UnexpectedKind)))
        } else if node_invalid(n) {
            (a, Err(invalid_err(n)))
        } else {
            match field_target(n, "value"@) {
                None => (a, Err(internal(InternalFault::MissingField))),
                Some(t) => if !(0 <= t < i) {
                    (a, Err(internal(InternalFault::MalformedTree)))
                } else {
                    match spec_parse_i64(c[t].text) {
                        None => (a, Err(internal(InternalFault::MalformedLiteral))),
                        Some(value) => (
                            a.push(
                                EntryV {
                                    node: NodeV::Expression(ExpressionV::IntegerLiteral { value }),
                                    info: span_of(n),
                                },
                            ),
                            Ok(ExprID(node_id_at(a))),
                        ),
                    }
                },
            }
        }
    }
}

/// Lowers a `string` node: the content field's text, verbatim.
pub open spec fn lower_string_at(c: Seq<CstNodeV>, i: int, a: Seq<EntryV>) -> (Seq<EntryV>, Result<
    ExprID,
    LowerError,
>)
    decreases i, 2int, 0int,
{
    if !in_range(c, i) {
        (a, Err(internal(InternalFault::MalformedTree)))
    } else {
        let n = c[i];
        if n.kind != "string"@ {
            (a, Err(internal(InternalFault::UnexpectedKind)))
        } else if node_invalid(n) {
            (a, Err(invalid_err(n)))
        } else {
            match field_target(n, "content"@) {
                None => (a, Err(internal(InternalFault::MissingField))),
                Some(t) => if !(0 <= t < i) {
                    (a, Err(internal(InternalFault::MalformedTree)))
                } else {
                    (
                        a.push(
                            EntryV {
                                node: NodeV::Expression(
                                    ExpressionV::StringLiteral { value: c[t].text },
                                ),
                                info: span_of(n),
                            },
                        ),
                        Ok(ExprID(node_id_at(a))),
                    )
                },
            }
        }
    }
}

/// Lowers a `boolean` node: the two fixed keyword spellings.
pub open spec fn lower_bool_at(c: Seq<CstNodeV>, i: int, a: Seq<EntryV>) -> (Seq<EntryV>, Result<
    ExprID,
    LowerError,
>)
    decreases i, 2int, 0int,
{
    if !in_range(c, i) {
        (a, Err(internal(InternalFault::MalformedTree)))
    } else {
        let n = c[i];
        if n.kind != "boolean"@ {
            (a, Err(internal(InternalFault::UnexpectedKind)))
        } else if node_invalid(n) {
            (a, Err(invalid_err(n)))
        } else {
            match field_target(n, "value"@) {
                None => (a, Err(internal(InternalFault::MissingField))),
                Some(t) => if !(0 <= t < i) {
                    (a, Err(internal(InternalFault::MalformedTree)))
                } else {
                    if c[t].text == "verdadeiro"@ || c[t].text == "falso"@ {
                        (
                            a.push(
                                EntryV {
                                    node: NodeV::Expression(
                                        ExpressionV::BooleanLiteral {
                                            value: c[t].text == "verdadeiro"@,
                                        },
                                    ),
                                    info: span_of(n),
                                },
                            ),
                            Ok(ExprID(node_id_at(a))),
                        )
                    } else {
                        (a, Err(internal(InternalFault::UnexpectedBoolean)))
                    }
                },
            }
        }
    }
}

/// Lowers a `list` node: the item expressions in source order.
pub open spec fn lower_list_at(c: Seq<CstNodeV>, i: int, a: Seq<EntryV>) -> (Seq<EntryV>, Result<
    ExprID,
    LowerError,
>)
    decreases i, 2int, 0int,
{
    if !in_range(c, i) {
        (a, Err(internal(InternalFault::MalformedTree)))
    } else {
        let n = c[i];
        if n.kind != "list"@ {
            (a, Err(internal(InternalFault::UnexpectedKind)))
        } else if node_invalid(n) {
            (a, Err(invalid_err(n)))
        } else {
            let (a1, r1) = collect_exprs(c, i, "item"@, 0, a);
            match r1 {
                Err(e) => (a1, Err(e)),
                Ok(values) => (
                    a1.push(
                        EntryV {
                            node: NodeV::Expression(ExpressionV::ListLiteral { values }),
                            info: span_of(n),
                        },
                    ),
                    Ok(ExprID(node_id_at(a1))),
                ),
            }
        }
    }
}

/// Dispatches an expression node on its kind tag.
pub open spec fn lower_expr_at(c: Seq<CstNodeV>, i: int, a: Seq<EntryV>) -> (Seq<EntryV>, Result<
    ExprID,
    LowerError,
>)
    decreases i, 3int, 0int,
{
    if !in_range(c, i) {
        (a, Err(internal(InternalFault::MalformedTree)))
    } else {
        let n = c[i];
        if node_invalid(n) {
            (a, Err(invalid_err(n)))
        } else if n.kind == "binary_expr"@ {
            lower_binary_expr_at(c, i, a)
        } else if n.kind == "unary_expr"@ {
            lower_unary_expr_at(c, i, a)
        } else if n.kind == "access_expr"@ {
            lower_access_expr_at(c, i, a)
        } else if n.kind == "call_expr"@ {
            lower_call_expr_at(c, i, a)
        } else if n.kind == "parem_expr"@ {
            lower_parem_expr_at(c, i, a)
        } else if n.kind == "identifier"@ {
            lower_identifier_expr_at(c, i, a)
        } else if n.kind == "decimal"@ {
            lower_decimal_at(c, i, a)
        } else if n.kind == "integer"@ {
            lower_integer_at(c, i, a)
        } else if n.kind == "string"@ {
            lower_string_at(c, i, a)
        } else if n.kind == "boolean"@ {
            lower_bool_at(c, i, a)
        } else if n.kind == "list"@ {
            lower_list_at(c, i, a)
        } else {
            (a, Err(internal(InternalFault::UnexpectedKind)))
        }
    }
}

/// Lowers a `break_stmt` node.
pub open spec fn lower_break_at(c: Seq<CstNodeV>, i: int, a: Seq<EntryV>) -> (Seq<EntryV>, Result<
    StmtID,
    LowerError,
>)
    decreases i, 2int, 0int,
{
    if !in_range(c, i) {
        (a, Err(internal(InternalFault::MalformedTree)))
    } else {
        let n = c[i];
        if n.kind != "break_stmt"@ {
            (a, Err(internal(InternalFault::UnexpectedKind)))
        } else if node_invalid(n) {
            (a, Err(invalid_err(n)))
        } else {
            (
                a.push(EntryV { node: NodeV::Statement(StatementV::Break), info: span_of(n) }),
                Ok(StmtID(node_id_at(a))),
            )
        }
    }
}

/// Lowers a `continue_stmt` node.
pub open spec fn lower_continue_at(c: Seq<CstNodeV>, i: int, a: Seq<EntryV>) -> (Seq<EntryV>, Result<
    StmtID,
    LowerError,
>)
    decreases i, 2int, 0int,
{
    if !in_range(c, i) {
        (a, Err(internal(InternalFault::MalformedTree)))
    } else {
        let n = c[i];
        if n.kind != "continue_stmt"@ {
            (a, Err(internal(InternalFault::UnexpectedKind)))
        } else if node_invalid(n) {
            (a, Err(invalid_err(n)))
        } else {
            (
                a.push(EntryV { node: NodeV::Statement(StatementV::Continue), info: span_of(n) }),
                Ok(StmtID(node_id_at(a))),
            )
        }
    }
}

/// Lowers a `return_stmt` node with its optional return expression.
pub open spec fn lower_return_at(c: Seq<CstNodeV>, i: int, a: Seq<EntryV>) -> (Seq<EntryV>, Result<
    StmtID,
    LowerError,
>)
    decreases i, 2int, 0int,
{
    if !in_range(c, i) {
        (a, Err(internal(InternalFault::MalformedTree)))
    } else {
        let n = c[i];
        if n.kind != "return_stmt"@ {
            (a, Err(internal(InternalFault::UnexpectedKind)))
        } else if node_invalid(n) {
            (a, Err(invalid_err(n)))
        } else {
            match field_target(n, "return_expr"@) {
                None => (
                    a.push(
                        EntryV {
                            node: NodeV::Statement(StatementV::Return { expr: None }),
                            info: span_of(n),
                        },
                    ),
                    Ok(StmtID(node_id_at(a))),
                ),
                Some(t) => if !(0 <= t < i) {
                    (a, Err(internal(InternalFault::MalformedTree)))
                } else {
                    let (a1, r1) = lower_expr_at(c, t, a);
                    match r1 {
                        Err(e) => (a1, Err(e)),
                        Ok(expr) => (
                            a1.push(
                                EntryV {
                                    node: NodeV::Statement(StatementV::Return { expr: Some(expr) }),
                                    info: span_of(n),
                                },
                            ),
                            Ok(StmtID(node_id_at(a1))),
                        ),
                    }
                },
            }
        }
    }
}

/// Lowers a `for_item_decl` node: the loop-bound variable's declaration.
pub open spec fn lower_for_item_at(c: Seq<CstNodeV>, i: int, a: Seq<EntryV>) -> (Seq<EntryV>, Result<
    ForEachDeclID,
    LowerError,
>)
    decreases i, 2int, 0int,
{
    if !in_range(c, i) {
        (a, Err(internal(InternalFault::MalformedTree)))
    } else {
        let n = c[i];
        if n.kind != "for_item_decl"@ {
            (a, Err(internal(InternalFault::UnexpectedKind)))
        } else if node_invalid(n) {
            (a, Err(invalid_err(n)))
        } else {
            let is_mut = field_target(n, "is_mut"@) is Some;
            let is_ref = field_target(n, "is_ref"@) is Some;
            match field_target(n, "name"@) {
                None => (a, Err(internal(InternalFault::MissingField))),
                Some(t) => if !(0 <= t < i) {
                    (a, Err(internal(InternalFault::MalformedTree)))
                } else {
                    let (a1, r1) = lower_identifier_at(c, t, a);
                    match r1 {
                        Err(e) => (a1, Err(e)),
                        Ok(name) => (
                            a1.push(
                                EntryV {
                                    node: NodeV::ForEachDecl(ForEachDecl { is_mut, is_ref, name }),
                                    info: span_of(n),
                                },
                            ),
                            Ok(ForEachDeclID(node_id_at(a1))),
                        ),
                    }
                },
            }
        }
    }
}

/// Collects the children of `i` filling the named grammar field, each
/// lowered as a statement, in source order.
pub open spec fn collect_stmts(c: Seq<CstNodeV>, i: int, field: Seq<char>, j: int, a: Seq<EntryV>) -> (Seq<
    EntryV,
>, Result<Seq<StmtID>, LowerError>)
    decreases i, 1int, (if in_range(c, i) { c[i].children.len() - j } else { 0 }),
{
    if !in_range(c, i) {
        (a, Err(internal(InternalFault::MalformedTree)))
    } else if j < 0 || j >= c[i].children.len() {
        (a, Ok(Seq::<StmtID>::empty()))
    } else if c[i].children[j].field_name == Some(field) {
        let t = c[i].children[j].target;
        if !(0 <= t < i) {
            (a, Err(internal(InternalFault::MalformedTree)))
        } else {
            let (a1, r1) = lower_stmt_at(c, t, a);
            match r1 {
                Err(e) => (a1, Err(e)),
                Ok(id) => {
                    let (a2, r2) = collect_stmts(c, i, field, j + 1, a1);
                    match r2 {
                        Err(e) => (a2, Err(e)),
                        Ok(rest) => (a2, Ok(seq![id] + rest)),
                    }
                },
            }
        }
    } else {
        collect_stmts(c, i, field, j + 1, a)
    }
}

/// Lowers a `for_each_loop` node: item declaration, iterated expression,
/// then the body statements.
pub open spec fn lower_for_each_at(c: Seq<CstNodeV>, i: int, a: Seq<EntryV>) -> (Seq<EntryV>, Result<
    StmtID,
    LowerError,
>)
    decreases i, 2int, 1int,
{
    if !in_range(c, i) {
        (a, Err(internal(InternalFault::MalformedTree)))
    } else {
        let n = c[i];
        if n.kind != "for_each_loop"@ {
            (a, Err(internal(InternalFault::UnexpectedKind)))
        } else if node_invalid(n) {
            (a, Err(invalid_err(n)))
        } else {
            match field_target(n, "item"@) {
                None => (a, Err(internal(InternalFault::MissingField))),
                Some(t_item) => if !(0 <= t_item < i) {
                    (a, Err(internal(InternalFault::MalformedTree)))
                } else {
                    let (a1, r1) = lower_for_item_at(c, t_item, a);
                    match r1 {
                        Err(e) => (a1, Err(e)),
                        Ok(item) => match field_target(n, "iterator"@) {
                            None => (a1, Err(internal(InternalFault::MissingField))),
                            Some(t_it) => if !(0 <= t_it < i) {
                                (a1, Err(internal(InternalFault::MalformedTree)))
                            } else {
                                let (a2, r2) = lower_expr_at(c, t_it, a1);
                                match r2 {
                                    Err(e) => (a2, Err(e)),
                                    Ok(iter_expr) => {
                                        let (a3, r3) = collect_stmts(c, i, "body"@, 0, a2);
                                        match r3 {
                                            Err(e) => (a3, Err(e)),
                                            Ok(body) => (
                                                a3.push(
                                                    EntryV {
                                                        node: NodeV::Statement(
                                                            StatementV::ForEach {
                                                                item,
                                                                iter_expr,
                                                                body_block: body,
                                                            },
                                                        ),
                                                        info: span_of(n),
                                                    },
                                                ),
                                                Ok(StmtID(node_id_at(a3))),
                                            ),
                                        }
                                    },
                                }
                            },
                        },
                    }
                },
            }
        }
    }
}

/// Lowers a `while_loop` node: the condition, then the body statements.
pub open spec fn lower_while_at(c: Seq<CstNodeV>, i: int, a: Seq<EntryV>) -> (Seq<EntryV>, Result<
    StmtID,
    LowerError,
>)
    decreases i, 2int, 1int,
{
    if !in_range(c, i) {
        (a, Err(internal(InternalFault::MalformedTree)))
    } else {
        let n = c[i];
        if n.kind != "while_loop"@ {
            (a, Err(internal(InternalFault::UnexpectedKind)))
        } else if node_invalid(n) {
            (a, Err(invalid_err(n)))
        } else {
            match field_target(n, "condition"@) {
                None => (a, Err(internal(InternalFault::MissingField))),
                Some(t_c) => if !(0 <= t_c < i) {
                    (a, Err(internal(InternalFault::MalformedTree)))
                } else {
                    let (a1, r1) = lower_expr_at(c, t_c, a);
                    match r1 {
                        Err(e) => (a1, Err(e)),
                        Ok(cond_expr) => {
                            let (a2, r2) = collect_stmts(c, i, "body"@, 0, a1);
                            match r2 {
                                Err(e) => (a2, Err(e)),
                                Ok(body) => (
                                    a2.push(
                                        EntryV {
                                            node: NodeV::Statement(
                                                StatementV::While { cond_expr, body_block: body },
                                            ),
                                            info: span_of(n),
                                        },
                                    ),
                                    Ok(StmtID(node_id_at(a2))),
                                ),
                            }
                        },
                    }
                },
            }
        }
    }
}

/// Lowers a `conditional` node: the condition, the then-branch statements,
/// and, when an else clause is present, the else-branch statements.
pub open spec fn lower_conditional_at(c: Seq<CstNodeV>, i: int, a: Seq<EntryV>) -> (Seq<EntryV>, Result<
    StmtID,
    LowerError,
>)
    decreases i, 2int, 1int,
{
    if !in_range(c, i) {
        (a, Err(internal(InternalFault::MalformedTree)))
    } else {
        let n = c[i];
        if n.kind != "conditional"@ {
            (a, Err(internal(InternalFault::UnexpectedKind)))
        } else if node_invalid(n) {
            (a, Err(invalid_err(n)))
        } else {
            match field_target(n, "condition"@) {
                None => (a, Err(internal(InternalFault::MissingField))),
                Some(t_c) => if !(0 <= t_c < i) {
                    (a, Err(internal(InternalFault::MalformedTree)))
                } else {
                    let (a1, r1) = lower_expr_at(c, t_c, a);
                    match r1 {
                        Err(e) => (a1, Err(e)),
                        Ok(cond_expr) => {
                            let (a2, r2) = collect_stmts(c, i, "then_body"@, 0, a1);
                            match r2 {
                                Err(e) => (a2, Err(e)),
                                Ok(then_block) => if field_target(n, "has_else"@) is Some {
                                    let (a3, r3) = collect_stmts(c, i, "else_body"@, 0, a2);
                                    match r3 {
                                        Err(e) => (a3, Err(e)),
                                        Ok(else_block) => (
                                            a3.push(
                                                EntryV {
                                                    node: NodeV::Statement(
                                                        StatementV::If {
                                                            cond_expr,
                                                            then_block,
                                                            else_body: Some(else_block),
                                                        },
                                                    ),
                                                    info: span_of(n),
                                                },
                                            ),
                                            Ok(StmtID(node_id_at(a3))),
                                        ),
                                    }
                                } else {
                                    (
                                        a2.push(
                                            EntryV {
                                                node: NodeV::Statement(
                                                    StatementV::If {
                                                        cond_expr,
                                                        then_block,
                                                        else_body: None,
                                                    },
                                                ),
                                                info: span_of(n),
                                            },
                                        ),
                                        Ok(StmtID(node_id_at(a2))),
                                    )
                                },
                            }
                        },
                    }
                },
            }
        }
    }
}

/// Lowers a `variable_declaration` node: mutability flag, name, type, and
/// the optional initializer.
pub open spec fn lower_var_decl_at(c: Seq<CstNodeV>, i: int, a: Seq<EntryV>) -> (Seq<EntryV>, Result<
    StmtID,
    LowerError,
>)
    decreases i, 2int, 0int,
{
    if !in_range(c, i) {
        (a, Err(internal(InternalFault::MalformedTree)))
    } else {
        let n = c[i];
        if n.kind != "variable_declaration"@ {
            (a, Err(internal(InternalFault::UnexpectedKind)))
        } else if node_invalid(n) {
            (a, Err(invalid_err(n)))
        } else {
            let is_mut = field_target(n, "is_mut"@) is Some;
            match field_target(n, "name"@) {
                None => (a, Err(internal(InternalFault::MissingField))),
                Some(t_n) => if !(0 <= t_n < i) {
                    (a, Err(internal(InternalFault::MalformedTree)))
                } else {
                    let (a1, r1) = lower_identifier_at(c, t_n, a);
                    match r1 {
                        Err(e) => (a1, Err(e)),
                        Ok(name) => match field_target(n, "type"@) {
                            None => (a1, Err(internal(InternalFault::MissingField))),
                            Some(t_t) => if !(0 <= t_t < i) {
                                (a1, Err(internal(InternalFault::MalformedTree)))
                            } else {
                                let (a2, r2) = lower_type_expr_at(c, t_t, a1);
                                match r2 {
                                    Err(e) => (a2, Err(e)),
                                    Ok(type_expr) => match field_target(n, "initializer"@) {
                                        None => (
                                            a2.push(
                                                EntryV {
                                                    node: NodeV::Statement(
                                                        StatementV::VarDecl {
                                                            is_mut,
                                                            name,
                                                            type_expr,
                                                            init_expr: None,
                                                        },
                                                    ),
                                                    info: span_of(n),
                                                },
                                            ),
                                            Ok(StmtID(node_id_at(a2))),
                                        ),
                                        Some(t_i) => if !(0 <= t_i < i) {
                                            (a2, Err(internal(InternalFault::MalformedTree)))
                                        } else {
                                            let (a3, r3) = lower_expr_at(c, t_i, a2);
                                            match r3 {
                                                Err(e) => (a3, Err(e)),
                                                Ok(init) => (
                                                    a3.push(
                                                        EntryV {
                                                            node: NodeV::Statement(
                                                                StatementV::VarDecl {
                                                                    is_mut,
                                                                    name,
                                                                    type_expr,
                                                                    init_expr: Some(init),
                                                                },
                                                            ),
                                                            info: span_of(n),
                                                        },
                                                    ),
                                                    Ok(StmtID(node_id_at(a3))),
                                                ),
                                            }
                                        },
                                    },
                                }
                            },
                        },
                    }
                },
            }
        }
    }
}

/// Lowers an `expression_stmt` node.
pub open spec fn lower_expr_stmt_at(c: Seq<CstNodeV>, i: int, a: Seq<EntryV>) -> (Seq<EntryV>, Result<
    StmtID,
    LowerError,
>)
    decreases i, 2int, 0int,
{
    if !in_range(c, i) {
        (a, Err(internal(InternalFault::MalformedTree)))
    } else {
        let n = c[i];
        if n.kind != "expression_stmt"@ {
            (a, Err(internal(InternalFault::UnexpectedKind)))
        } else if node_invalid(n) {
            (a, Err(invalid_err(n)))
        } else {
            match field_target(n, "expression"@) {
                None => (a, Err(internal(InternalFault::MissingField))),
                Some(t) => if !(0 <= t < i) {
                    (a, Err(internal(InternalFault::MalformedTree)))
                } else {
                    let (a1, r1) = lower_expr_at(c, t, a);
                    match r1 {
                        Err(e) => (a1, Err(e)),
                        Ok(expr) => (
                            a1.push(
                                EntryV {
                                    node: NodeV::Statement(StatementV::Expression { expr }),
                                    info: span_of(n),
                                },
                            ),
                            Ok(StmtID(node_id_at(a1))),
                        ),
                    }
                },
            }
        }
    }
}

/// Dispatches a statement node on its kind tag.
pub open spec fn lower_stmt_at(c: Seq<CstNodeV>, i: int, a: Seq<EntryV>) -> (Seq<EntryV>, Result<
    StmtID,
    LowerError,
>)
    decreases i, 3int, 0int,
{
    if !in_range(c, i) {
        (a, Err(internal(InternalFault::MalformedTree)))
    } else {
        let n = c[i];
        if node_invalid(n) {
            (a, Err(invalid_err(n)))
        } else if n.kind == "break_stmt"@ {
            lower_break_at(c, i, a)
        } else if n.kind == "continue_stmt"@ {
            lower_continue_at(c, i, a)
        } else if n.kind == "return_stmt"@ {
            lower_return_at(c, i, a)
        } else if n.kind == "for_each_loop"@ {
            lower_for_each_at(c, i, a)
        } else if n.kind == "while_loop"@ {
            lower_while_at(c, i, a)
        } else if n.kind == "conditional"@ {
            lower_conditional_at(c, i, a)
        } else if n.kind == "variable_declaration"@ {
            lower_var_decl_at(c, i, a)
        } else if n.kind == "expression_stmt"@ {
            lower_expr_stmt_at(c, i, a)
        } else {
            (a, Err(internal(InternalFault::UnexpectedKind)))
        }
    }
}

/// Lowers a `function_param` node: mutability flag, name, and type.
pub open spec fn lower_function_param_at(c: Seq<CstNodeV>, i: int, a: Seq<EntryV>) -> (Seq<
    EntryV,
>, Result<FunctionParamID, LowerError>)
    decreases i, 2int, 0int,
{
    if !in_range(c, i) {
        (a, Err(internal(InternalFault::MalformedTree)))
    } else {
        let n = c[i];
        if n.kind != "function_param"@ {
            (a, Err(internal(InternalFault::UnexpectedKind)))
        } else if node_invalid(n) {
            (a, Err(invalid_err(n)))
        } else {
            let is_mut = field_target(n, "is_mut"@) is Some;
            match field_target(n, "name"@) {
                None => (a, Err(internal(InternalFault::MissingField))),
                Some(t_n) => if !(0 <= t_n < i) {
                    (a, Err(internal(InternalFault::MalformedTree)))
                } else {
                    let (a1, r1) = lower_identifier_at(c, t_n, a);
                    match r1 {
                        Err(e) => (a1, Err(e)),
                        Ok(name) => match field_target(n, "type"@) {
                            None => (a1, Err(internal(InternalFault::MissingField))),
                            Some(t_t) => if !(0 <= t_t < i) {
                                (a1, Err(internal(InternalFault::MalformedTree)))
                            } else {
                                let (a2, r2) = lower_type_expr_at(c, t_t, a1);
                                match r2 {
                                    Err(e) => (a2, Err(e)),
                                    Ok(type_expr) => (
                                        a2.push(
                                            EntryV {
                                                node: NodeV::FunctionParam(
                                                    FunctionParam { is_mut, name, type_expr },
                                                ),
                                                info: span_of(n),
                                            },
                                        ),
                                        Ok(FunctionParamID(node_id_at(a2))),
                                    ),
                                }
                            },
                        },
                    }
                },
            }
        }
    }
}

/// Collects the children of `i` filling the `param` field, each lowered
/// as a function parameter, in source order.
pub open spec fn collect_params(c: Seq<CstNodeV>, i: int, j: int, a: Seq<EntryV>) -> (Seq<
    EntryV,
>, Result<Seq<FunctionParamID>, LowerError>)
    decreases i, 1int, (if in_range(c, i) { c[i].children.len() - j } else { 0 }),
{
    if !in_range(c, i) {
        (a, Err(internal(InternalFault::MalformedTree)))
    } else if j < 0 || j >= c[i].children.len() {
        (a, Ok(Seq::<FunctionParamID>::empty()))
    } else if c[i].children[j].field_name == Some("param"@) {
        let t = c[i].children[j].target;
        if !(0 <= t < i) {
            (a, Err(internal(InternalFault::MalformedTree)))
        } else {
            let (a1, r1) = lower_function_param_at(c, t, a);
            match r1 {
                Err(e) => (a1, Err(e)),
                Ok(id) => {
                    let (a2, r2) = collect_params(c, i, j + 1, a1);
                    match r2 {
                        Err(e) => (a2, Err(e)),
                        Ok(rest) => (a2, Ok(seq![id] + rest)),
                    }
                },
            }
        }
    } else {
        collect_params(c, i, j + 1, a)
    }
}

/// Lowers a `function` node: name, parameters, return type, body.
pub open spec fn lower_function_at(c: Seq<CstNodeV>, i: int, a: Seq<EntryV>) -> (Seq<EntryV>, Result<
    ScopeDefID,
    LowerError,
>)
    decreases i, 2int, 1int,
{
    if !in_range(c, i) {
        (a, Err(internal(InternalFault::MalformedTree)))
    } else {
        let n = c[i];
        if n.kind != "function"@ {
            (a, Err(internal(InternalFault::UnexpectedKind)))
        } else if node_invalid(n) {
            (a, Err(invalid_err(n)))
        } else {
            match field_target(n, "name"@) {
                None => (a, Err(internal(InternalFault::MissingField))),
                Some(t_n) => if !(0 <= t_n < i) {
                    (a, Err(internal(InternalFault::MalformedTree)))
                } else {
                    let (a1, r1) = lower_identifier_at(c, t_n, a);
                    match r1 {
                        Err(e) => (a1, Err(e)),
                        Ok(name) => {
                            let (a2, r2) = collect_params(c, i, 0, a1);
                            match r2 {
                                Err(e) => (a2, Err(e)),
                                Ok(params) => match field_target(n, "return_type"@) {
                                    None => (a2, Err(internal(InternalFault::MissingField))),
                                    Some(t_r) => if !(0 <= t_r < i) {
                                        (a2, Err(internal(InternalFault::MalformedTree)))
                                    } else {
                                        let (a3, r3) = lower_type_expr_at(c, t_r, a2);
                                        match r3 {
                                            Err(e) => (a3, Err(e)),
                                            Ok(return_type) => {
                                                let (a4, r4) = collect_stmts(c, i, "body"@, 0, a3);
                                                match r4 {
                                                    Err(e) => (a4, Err(e)),
                                                    Ok(body) => (
                                                        a4.push(
                                                            EntryV {
                                                                node: NodeV::ScopeDef(
                                                                    ScopeDefV::Function {
                                                                        name,
                                                                        params,
                                                                        return_type,
                                                                        body,
                                                                    },
                                                                ),
                                                                info: span_of(n),
                                                            },
                                                        ),
                                                        Ok(ScopeDefID(node_id_at(a4))),
                                                    ),
                                                }
                                            },
                                        }
                                    },
                                },
                            }
                        },
                    }
                },
            }
        }
    }
}

/// Dispatches a scope-definition node on its kind tag.
pub open spec fn lower_scope_def_at(c: Seq<CstNodeV>, i: int, a: Seq<EntryV>) -> (Seq<EntryV>, Result<
    ScopeDefID,
    LowerError,
>)
    decreases i, 3int, 0int,
{
    if !in_range(c, i) {
        (a, Err(internal(InternalFault::MalformedTree)))
    } else {
        let n = c[i];
        if node_invalid(n) {
            (a, Err(invalid_err(n)))
        } else if n.kind == "function"@ {
            lower_function_at(c, i, a)
        } else {
            (a, Err(internal(InternalFault::UnexpectedKind)))
        }
    }
}

/// Collects every direct child of the program node, each lowered as a
/// scope definition, in source order.
pub open spec fn collect_defs(c: Seq<CstNodeV>, i: int, j: int, a: Seq<EntryV>) -> (Seq<
    EntryV,
>, Result<Seq<ScopeDefID>, LowerError>)
    decreases i, 1int, (if in_range(c, i) { c[i].children.len() - j } else { 0 }),
{
    if !in_range(c, i) {
        (a, Err(internal(InternalFault::MalformedTree)))
    } else if j < 0 || j >= c[i].children.len() {
        (a, Ok(Seq::<ScopeDefID>::empty()))
    } else {
        let t = c[i].children[j].target;
        if !(0 <= t < i) {
            (a, Err(internal(InternalFault::MalformedTree)))
        } else {
            let (a1, r1) = lower_scope_def_at(c, t, a);
            match r1 {
                Err(e) => (a1, Err(e)),
                Ok(id) => {
                    let (a2, r2) = collect_defs(c, i, j + 1, a1);
                    match r2 {
                        Err(e) => (a2, Err(e)),
                        Ok(rest) => (a2, Ok(seq![id] + rest)),
                    }
                },
            }
        }
    }
}

/// Lowers a `program` node: every direct child as a scope definition, in
/// source order.
pub open spec fn lower_program_at(c: Seq<CstNodeV>, i: int, a: Seq<EntryV>) -> (Seq<EntryV>, Result<
    Seq<ScopeDefID>,
    LowerError,
>)
    decreases i, 2int, 1int,
{
    if !in_range(c, i) {
        (a, Err(internal(InternalFault::MalformedTree)))
    } else {
        let n = c[i];
        if n.kind != "program"@ {
            (a, Err(internal(InternalFault::UnexpectedKind)))
        } else if node_invalid(n) {
            (a, Err(invalid_err(n)))
        } else {
            collect_defs(c, i, 0, a)
        }
    }
}

/// What lowering a whole parse tree yields: the final arena contents with
/// the program set, or the first error in a pre-order traversal.
pub open spec fn lower_tso(c: Seq<CstNodeV>, root: int) -> Result<crate::ast::AstV, LowerError> {
    if !(crate::cst::wf_nodes(c) && 0 <= root < c.len()) {
        Err(internal(InternalFault::MalformedTree))
    } else {
        let (a, r) = lower_program_at(c, root, Seq::<EntryV>::empty());
        match r {
            Err(e) => Err(e),
            Ok(defs) => Ok(crate::ast::AstV { entries: a, program: Some(defs) }),
        }
    }
}

} // verus!
