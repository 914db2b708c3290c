//! Proved global properties of the lowering transform.
//!
//! - Determinism: the whole transform is a pure function of the parse
//!   tree ([`lemma_lowering_deterministic`]).
//! - Closed-world dispatch: an error or missing node fed to any dispatch
//!   family always yields the user-facing invalid-node error, never a
//!   panic-class failure ([`lemma_invalid_node_yields_invalid_error`]).
//! - Span coverage: when the tree's child spans nest inside their
//!   parents' spans, every arena entry a lowering call emits carries a
//!   span lying within the lowered node's span
//!   ([`lemma_program_span_coverage`]).
//! - Order preservation: collected sequences (top-level definitions,
//!   parameters, arguments, block statements, list elements) carry
//!   strictly increasing, freshly issued identifiers, one per collected
//!   child, in source order ([`lemma_program_order_preservation`]).
//! - Reference validity: every entry of a successful lowering references
//!   only slots created strictly before it, so stored identifiers always
//!   address existing entries and the stored graph is acyclic
//!   ([`lemma_tso_references_exist`]).
//!
//! [`lemma_tso_program_laws`] packages the order and span laws at the
//! whole-tree entry point.

use vstd::prelude::*;
use crate::ast::{EntryV, LexicalInfo, LexicalPosition, ScopeDefID};
use crate::cst::{field_target, field_target_from, is_child_target, wf_nodes, CstChildV, CstNodeV};
use crate::lower::{
    collect_defs, collect_exprs, collect_params, collect_stmts, collect_template_args,
    in_range, invalid_err, lower_access_expr_at, lower_binary_expr_at, lower_bool_at,
    lower_break_at, lower_call_expr_at, lower_comp_type_at, lower_conditional_at,
    lower_continue_at, lower_decimal_at, lower_expr_at, lower_expr_stmt_at, lower_for_each_at,
    lower_for_item_at, lower_function_at, lower_function_param_at, lower_identifier_at,
    lower_identifier_expr_at, lower_integer_at, lower_list_at, lower_parem_expr_at,
    lower_program_at, lower_raw_type_at, lower_ref_type_at, lower_return_at, lower_scope_def_at,
    lower_stmt_at, lower_string_at, lower_template_type_at, lower_tso, lower_type_expr_at,
    lower_unary_expr_at, lower_var_decl_at, lower_while_at, node_invalid, span_of, LowerError,
};

verus! {

/// Position order: `p` stands at or before `q` in the source.
pub open spec fn pos_le(p: LexicalPosition, q: LexicalPosition) -> bool {
    p.line < q.line || (p.line == q.line && p.column <= q.column)
}

/// Span containment: `inner` lies within `outer`.
pub open spec fn span_within(inner: LexicalInfo, outer: LexicalInfo) -> bool {
    pos_le(outer.start, inner.start) && pos_le(inner.end, outer.end)
}

/// Every child's span lies within its parent's span — what a parser's
/// output satisfies by construction.
pub open spec fn spans_nested(c: Seq<CstNodeV>) -> bool {
    forall|n: int, j: int|
        0 <= n < c.len() && 0 <= j < c[n].children.len() && in_range(
            c,
            #[trigger] c[n].children[j].target,
        ) ==> span_within(span_of(c[c[n].children[j].target]), span_of(c[n]))
}

/// `af` extends `a` without touching it, and everything added carries a
/// span within the span of the node in slot `i`.
pub open spec fn added_within(c: Seq<CstNodeV>, i: int, a: Seq<EntryV>, af: Seq<EntryV>) -> bool {
    &&& a.len() <= af.len()
    &&& forall|k: int| 0 <= k < a.len() ==> af[k] == #[trigger] a[k]
    &&& in_range(c, i) ==> forall|k: int|
        a.len() <= k < af.len() ==> span_within(#[trigger] af[k].info, span_of(c[i]))
}

/// Determinism: lowering the same parse tree twice yields the same
/// result — arena contents, program, identifiers and errors alike.  The
/// executable engine returns exactly [`lower_tso`] of its input, so two
/// runs on equal trees agree in every observable detail.
pub proof fn lemma_lowering_deterministic(c1: Seq<CstNodeV>, root1: int, c2: Seq<CstNodeV>, root2: int)
    requires
        c1 == c2,
        root1 == root2,
    ensures
        lower_tso(c1, root1) == lower_tso(c2, root2),
{
}

/// Closed-world dispatch: feeding a node the parser marked as an error
/// or as missing to any of the four dispatch families — or to the
/// program assembler, on a node of program kind — always yields the
/// user-facing invalid-node error carrying that node's span, and leaves
/// the arena untouched.  No kind, recognized or not, leads to a
/// panic-class failure.
pub proof fn lemma_invalid_node_yields_invalid_error(c: Seq<CstNodeV>, i: int, a: Seq<EntryV>)
    requires
        in_range(c, i),
        node_invalid(c[i]),
    ensures
        lower_expr_at(c, i, a) == (a, Err::<crate::ast::ExprID, LowerError>(invalid_err(c[i]))),
        lower_stmt_at(c, i, a) == (a, Err::<crate::ast::StmtID, LowerError>(invalid_err(c[i]))),
        lower_type_expr_at(c, i, a) == (
            a,
            Err::<crate::ast::TypeExprID, LowerError>(invalid_err(c[i])),
        ),
        lower_scope_def_at(c, i, a) == (
            a,
            Err::<crate::ast::ScopeDefID, LowerError>(invalid_err(c[i])),
        ),
        c[i].kind == "program"@ ==> lower_program_at(c, i, a) == (
            a,
            Err::<Seq<ScopeDefID>, LowerError>(invalid_err(c[i])),
        ),
{
}

/// A successful field lookup names one of the node's children.
pub proof fn lemma_field_target_is_child_from(n: CstNodeV, name: Seq<char>, j: int)
    ensures
        match field_target_from(n, name, j) {
            Some(t) => is_child_target(n, t),
            None => true,
        },
    decreases n.children.len() - j,
{
    if j < 0 || j >= n.children.len() {
    } else if n.children[j].field_name == Some(name) {
        assert(n.children[j].target == field_target_from(n, name, j)->Some_0);
    } else {
        lemma_field_target_is_child_from(n, name, j + 1);
    }
}

pub proof fn lemma_field_target_is_child(n: CstNodeV, name: Seq<char>)
    ensures
        match field_target(n, name) {
            Some(t) => is_child_target(n, t),
            None => true,
        },
{
    lemma_field_target_is_child_from(n, name, 0);
}

/// With nested spans, a child node's span lies within its parent's.
pub proof fn lemma_child_span_within(c: Seq<CstNodeV>, i: int, t: int)
    requires
        spans_nested(c),
        in_range(c, i),
        in_range(c, t),
        is_child_target(c[i], t),
    ensures
        span_within(span_of(c[t]), span_of(c[i])),
{
    let k = choose|k: int|
        0 <= k < c[i].children.len() && #[trigger] c[i].children[k].target == t;
    assert(span_within(span_of(c[c[i].children[k].target]), span_of(c[i])));
}

/// Entries added within a child's span are added within the parent's.
pub proof fn lemma_hoist_to_parent(c: Seq<CstNodeV>, i: int, t: int, a: Seq<EntryV>, a1: Seq<EntryV>)
    requires
        spans_nested(c),
        in_range(c, i),
        in_range(c, t),
        is_child_target(c[i], t),
        added_within(c, t, a, a1),
    ensures
        added_within(c, i, a, a1),
{
    lemma_child_span_within(c, i, t);
    assert forall|k: int| a.len() <= k < a1.len() implies span_within(
        a1[k].info,
        span_of(c[i]),
    ) by {
        assert(span_within(a1[k].info, span_of(c[t])));
    }
}

/// Extension without touching, within one span, composes.
pub proof fn lemma_added_within_trans(
    c: Seq<CstNodeV>,
    i: int,
    a: Seq<EntryV>,
    a1: Seq<EntryV>,
    a2: Seq<EntryV>,
)
    requires
        added_within(c, i, a, a1),
        added_within(c, i, a1, a2),
    ensures
        added_within(c, i, a, a2),
{
    assert forall|k: int| 0 <= k < a.len() implies a2[k] == a[k] by {
        assert(a1[k] == a[k]);
        assert(a2[k] == a1[k]);
    }
    if in_range(c, i) {
        assert forall|k: int| a.len() <= k < a2.len() implies span_within(
            a2[k].info,
            span_of(c[i]),
        ) by {
            if k < a1.len() {
                assert(a2[k] == a1[k]);
                assert(span_within(a1[k].info, span_of(c[i])));
            }
        }
    }
}

/// Pushing one entry whose span lies within the node's span keeps the
/// extension within that span.
pub proof fn lemma_added_push(c: Seq<CstNodeV>, i: int, a: Seq<EntryV>, a1: Seq<EntryV>, e: EntryV)
    requires
        added_within(c, i, a, a1),
        in_range(c, i) ==> span_within(e.info, span_of(c[i])),
    ensures
        added_within(c, i, a, a1.push(e)),
{
    if in_range(c, i) {
        assert forall|k: int| a.len() <= k < a1.push(e).len() implies span_within(
            a1.push(e)[k].info,
            span_of(c[i]),
        ) by {
            if k < a1.len() {
                assert(a1.push(e)[k] == a1[k]);
            } else {
                assert(a1.push(e)[k] == e);
            }
        }
    }
}

pub proof fn span_cov_identifier(c: Seq<CstNodeV>, i: int, a: Seq<EntryV>)
    requires
        wf_nodes(c),
        spans_nested(c),
    ensures
        added_within(c, i, a, lower_identifier_at(c, i, a).0),
    decreases i, 0int, 0int,
{
    if in_range(c, i) {
        let n = c[i];
        if n.kind == "identifier"@ && !node_invalid(n) {
            lemma_added_push(
                c,
                i,
                a,
                a,
                EntryV { node: crate::ast::NodeV::Identifier(n.text), info: span_of(n) },
            );
        }
    }
}

pub proof fn span_cov_raw_type(c: Seq<CstNodeV>, i: int, a: Seq<EntryV>)
    requires
        wf_nodes(c),
        spans_nested(c),
    ensures
        added_within(c, i, a, lower_raw_type_at(c, i, a).0),
    decreases i, 2int, 0int,
{
    if in_range(c, i) {
        let n = c[i];
        if n.kind == "raw_type"@ && !node_invalid(n) {
            lemma_field_target_is_child(n, "name"@);
            match field_target(n, "name"@) {
                Some(t) => if 0 <= t < i {
                    span_cov_identifier(c, t, a);
                    let a1 = lower_identifier_at(c, t, a).0;
                    lemma_hoist_to_parent(c, i, t, a, a1);
                    if lower_identifier_at(c, t, a).1 is Ok {
                        lemma_added_push(
                            c,
                            i,
                            a,
                            a1,
                            EntryV {
                                node: crate::ast::NodeV::TypeExpr(
                                    crate::ast::TypeExprV::RawType {
                                        name: lower_identifier_at(c, t, a).1->Ok_0,
                                    },
                                ),
                                info: span_of(n),
                            },
                        );
                    }
                },
                None => {},
            }
        }
    }
}

pub proof fn span_cov_collect_template_args(c: Seq<CstNodeV>, i: int, j: int, a: Seq<EntryV>)
    requires
        wf_nodes(c),
        spans_nested(c),
    ensures
        added_within(c, i, a, collect_template_args(c, i, j, a).0),
    decreases i, 1int, (if in_range(c, i) { c[i].children.len() - j } else { 0 }),
{
    if in_range(c, i) && 0 <= j < c[i].children.len() {
        let t = c[i].children[j].target;
        if 0 <= t < i {
            if c[t].kind == "arg"@ {
                span_cov_type_expr(c, t, a);
                let a1 = lower_type_expr_at(c, t, a).0;
                assert(is_child_target(c[i], t));
                lemma_hoist_to_parent(c, i, t, a, a1);
                if lower_type_expr_at(c, t, a).1 is Ok {
                    span_cov_collect_template_args(c, i, j + 1, a1);
                    lemma_added_within_trans(c, i, a, a1, collect_template_args(c, i, j + 1, a1).0);
                }
            } else {
                span_cov_collect_template_args(c, i, j + 1, a);
            }
        }
    }
}

pub proof fn span_cov_template_type(c: Seq<CstNodeV>, i: int, a: Seq<EntryV>)
    requires
        wf_nodes(c),
        spans_nested(c),
    ensures
        added_within(c, i, a, lower_template_type_at(c, i, a).0),
    decreases i, 2int, 0int,
{
    if in_range(c, i) {
        let n = c[i];
        if n.kind == "template_type"@ && !node_invalid(n) {
            lemma_field_target_is_child(n, "name"@);
            match field_target(n, "name"@) {
                Some(t) => if 0 <= t < i {
                    span_cov_identifier(c, t, a);
                    let a1 = lower_identifier_at(c, t, a).0;
                    lemma_hoist_to_parent(c, i, t, a, a1);
                    if lower_identifier_at(c, t, a).1 is Ok {
                        span_cov_collect_template_args(c, i, 0, a1);
                        let a2 = collect_template_args(c, i, 0, a1).0;
                        lemma_added_within_trans(c, i, a, a1, a2);
                        if collect_template_args(c, i, 0, a1).1 is Ok {
                            lemma_added_push(
                                c,
                                i,
                                a,
                                a2,
                                EntryV {
                                    node: crate::ast::NodeV::TypeExpr(
                                        crate::ast::TypeExprV::TemplateType {
                                            name: lower_identifier_at(c, t, a).1->Ok_0,
                                            type_args: collect_template_args(c, i, 0, a1).1->Ok_0,
                                        },
                                    ),
                                    info: span_of(n),
                                },
                            );
                        }
                    }
                },
                None => {},
            }
        }
    }
}

pub proof fn span_cov_ref_type(c: Seq<CstNodeV>, i: int, a: Seq<EntryV>)
    requires
        wf_nodes(c),
        spans_nested(c),
    ensures
        added_within(c, i, a, lower_ref_type_at(c, i, a).0),
    decreases i, 2int, 0int,
{
    if in_range(c, i) {
        let n = c[i];
        if n.kind == "ref_type"@ && !node_invalid(n) {
            lemma_field_target_is_child(n, "type"@);
            match field_target(n, "type"@) {
                Some(t) => if 0 <= t < i {
                    span_cov_type_expr(c, t, a);
                    let a1 = lower_type_expr_at(c, t, a).0;
                    lemma_hoist_to_parent(c, i, t, a, a1);
                    if lower_type_expr_at(c, t, a).1 is Ok {
                        lemma_added_push(
                            c,
                            i,
                            a,
                            a1,
                            EntryV {
                                node: crate::ast::NodeV::TypeExpr(
                                    crate::ast::TypeExprV::RefType {
                                        is_mut: field_target(n, "is_mut"@) is Some,
                                        type_expr: lower_type_expr_at(c, t, a).1->Ok_0,
                                    },
                                ),
                                info: span_of(n),
                            },
                        );
                    }
                },
                None => {},
            }
        }
    }
}

pub proof fn span_cov_comp_type(c: Seq<CstNodeV>, i: int, a: Seq<EntryV>)
    requires
        wf_nodes(c),
        spans_nested(c),
    ensures
        added_within(c, i, a, lower_comp_type_at(c, i, a).0),
    decreases i, 2int, 0int,
{
    if in_range(c, i) {
        let n = c[i];
        if n.kind == "comp_type"@ && !node_invalid(n) {
            lemma_field_target_is_child(n, "type"@);
            match field_target(n, "type"@) {
                Some(t) => if 0 <= t < i {
                    span_cov_type_expr(c, t, a);
                    let a1 = lower_type_expr_at(c, t, a).0;
                    lemma_hoist_to_parent(c, i, t, a, a1);
                    if lower_type_expr_at(c, t, a).1 is Ok {
                        lemma_added_push(
                            c,
                            i,
                            a,
                            a1,
                            EntryV {
                                node: crate::ast::NodeV::TypeExpr(
                                    crate::ast::TypeExprV::CompType {
                                        is_mut: field_target(n, "is_mut"@) is Some,
                                        type_expr: lower_type_expr_at(c, t, a).1->Ok_0,
                                    },
                                ),
                                info: span_of(n),
                            },
                        );
                    }
                },
                None => {},
            }
        }
    }
}

pub proof fn span_cov_type_expr(c: Seq<CstNodeV>, i: int, a: Seq<EntryV>)
    requires
        wf_nodes(c),
        spans_nested(c),
    ensures
        added_within(c, i, a, lower_type_expr_at(c, i, a).0),
    decreases i, 3int, 0int,
{
    if in_range(c, i) {
        let n = c[i];
        if !node_invalid(n) {
            if n.kind == "raw_type"@ {
                span_cov_raw_type(c, i, a);
            } else if n.kind == "template_type"@ {
                span_cov_template_type(c, i, a);
            } else if n.kind == "ref_type"@ {
                span_cov_ref_type(c, i, a);
            } else if n.kind == "comp_type"@ {
                span_cov_comp_type(c, i, a);
            }
        }
    }
}

pub proof fn span_cov_binary_expr(c: Seq<CstNodeV>, i: int, a: Seq<EntryV>)
    requires
        wf_nodes(c),
        spans_nested(c),
    ensures
        added_within(c, i, a, lower_binary_expr_at(c, i, a).0),
    decreases i, 2int, 0int,
{
    if in_range(c, i) {
        let n = c[i];
        if n.kind == "binary_expr"@ && !node_invalid(n) {
            match field_target(n, "oprt"@) {
                Some(t_op) => if 0 <= t_op < i {
                    if crate::lower::binary_oprt_of(c[t_op].text) is Some {
                        lemma_field_target_is_child(n, "lhs"@);
                        match field_target(n, "lhs"@) {
                            Some(t_l) => if 0 <= t_l < i {
                                span_cov_expr(c, t_l, a);
                                let a1 = lower_expr_at(c, t_l, a).0;
                                lemma_hoist_to_parent(c, i, t_l, a, a1);
                                if lower_expr_at(c, t_l, a).1 is Ok {
                                    lemma_field_target_is_child(n, "rhs"@);
                                    match field_target(n, "rhs"@) {
                                        Some(t_r) => if 0 <= t_r < i {
                                            span_cov_expr(c, t_r, a1);
                                            let a2 = lower_expr_at(c, t_r, a1).0;
                                            lemma_hoist_to_parent(c, i, t_r, a1, a2);
                                            lemma_added_within_trans(c, i, a, a1, a2);
                                            if lower_expr_at(c, t_r, a1).1 is Ok {
                                                lemma_added_push(
                                                    c,
                                                    i,
                                                    a,
                                                    a2,
                                                    EntryV {
                                                        node: crate::ast::NodeV::Expression(
                                                            crate::ast::ExpressionV::BinaryOprt {
                                                                oprt: crate::lower::binary_oprt_of(
                                                                    c[t_op].text,
                                                                )->Some_0,
                                                                left: lower_expr_at(c, t_l, a).1->Ok_0,
                                                                right: lower_expr_at(c, t_r, a1).1->Ok_0,
                                                            },
                                                        ),
                                                        info: span_of(n),
                                                    },
                                                );
                                            }
                                        },
                                        None => {},
                                    }
                                }
                            },
                            None => {},
                        }
                    }
                },
                None => {},
            }
        }
    }
}

pub proof fn span_cov_unary_expr(c: Seq<CstNodeV>, i: int, a: Seq<EntryV>)
    requires
        wf_nodes(c),
        spans_nested(c),
    ensures
        added_within(c, i, a, lower_unary_expr_at(c, i, a).0),
    decreases i, 2int, 0int,
{
    if in_range(c, i) {
        let n = c[i];
        if n.kind == "unary_expr"@ && !node_invalid(n) {
            match field_target(n, "oprt"@) {
                Some(t_op) => if 0 <= t_op < i {
                    if crate::lower::unary_oprt_of(c[t_op].text) is Some {
                        lemma_field_target_is_child(n, "value"@);
                        match field_target(n, "value"@) {
                            Some(t_v) => if 0 <= t_v < i {
                                span_cov_expr(c, t_v, a);
                                let a1 = lower_expr_at(c, t_v, a).0;
                                lemma_hoist_to_parent(c, i, t_v, a, a1);
                                if lower_expr_at(c, t_v, a).1 is Ok {
                                    lemma_added_push(
                                        c,
                                        i,
                                        a,
                                        a1,
                                        EntryV {
                                            node: crate::ast::NodeV::Expression(
                                                crate::ast::ExpressionV::UnaryOprt {
                                                    oprt: crate::lower::unary_oprt_of(
                                                        c[t_op].text,
                                                    )->Some_0,
                                                    operand: lower_expr_at(c, t_v, a).1->Ok_0,
                                                },
                                            ),
                                            info: span_of(n),
                                        },
                                    );
                                }
                            },
                            None => {},
                        }
                    }
                },
                None => {},
            }
        }
    }
}

pub proof fn span_cov_access_expr(c: Seq<CstNodeV>, i: int, a: Seq<EntryV>)
    requires
        wf_nodes(c),
        spans_nested(c),
    ensures
        added_within(c, i, a, lower_access_expr_at(c, i, a).0),
    decreases i, 2int, 0int,
{
    if in_range(c, i) {
        let n = c[i];
        if n.kind == "access_expr"@ && !node_invalid(n) {
            lemma_field_target_is_child(n, "object"@);
            match field_target(n, "object"@) {
                Some(t_o) => if 0 <= t_o < i {
                    span_cov_expr(c, t_o, a);
                    let a1 = lower_expr_at(c, t_o, a).0;
                    lemma_hoist_to_parent(c, i, t_o, a, a1);
                    if lower_expr_at(c, t_o, a).1 is Ok {
                        lemma_field_target_is_child(n, "item"@);
                        match field_target(n, "item"@) {
                            Some(t_i) => if 0 <= t_i < i {
                                span_cov_identifier(c, t_i, a1);
                                let a2 = lower_identifier_at(c, t_i, a1).0;
                                lemma_hoist_to_parent(c, i, t_i, a1, a2);
                                lemma_added_within_trans(c, i, a, a1, a2);
                                if lower_identifier_at(c, t_i, a1).1 is Ok {
                                    lemma_added_push(
                                        c,
                                        i,
                                        a,
                                        a2,
                                        EntryV {
                                            node: crate::ast::NodeV::Expression(
                                                crate::ast::ExpressionV::Access {
                                                    object: lower_expr_at(c, t_o, a).1->Ok_0,
                                                    field_name: lower_identifier_at(
                                                        c,
                                                        t_i,
                                                        a1,
                                                    ).1->Ok_0,
                                                },
                                            ),
                                            info: span_of(n),
                                        },
                                    );
                                }
                            },
                            None => {},
                        }
                    }
                },
                None => {},
            }
        }
    }
}

pub proof fn span_cov_collect_exprs(c: Seq<CstNodeV>, i: int, field: Seq<char>, j: int, a: Seq<EntryV>)
    requires
        wf_nodes(c),
        spans_nested(c),
    ensures
        added_within(c, i, a, collect_exprs(c, i, field, j, a).0),
    decreases i, 1int, (if in_range(c, i) { c[i].children.len() - j } else { 0 }),
{
    if in_range(c, i) && 0 <= j < c[i].children.len() {
        if c[i].children[j].field_name == Some(field) {
            let t = c[i].children[j].target;
            if 0 <= t < i {
                span_cov_expr(c, t, a);
                let a1 = lower_expr_at(c, t, a).0;
                assert(is_child_target(c[i], t));
                lemma_hoist_to_parent(c, i, t, a, a1);
                if lower_expr_at(c, t, a).1 is Ok {
                    span_cov_collect_exprs(c, i, field, j + 1, a1);
                    lemma_added_within_trans(c, i, a, a1, collect_exprs(c, i, field, j + 1, a1).0);
                }
            }
        } else {
            span_cov_collect_exprs(c, i, field, j + 1, a);
        }
    }
}

pub proof fn span_cov_call_expr(c: Seq<CstNodeV>, i: int, a: Seq<EntryV>)
    requires
        wf_nodes(c),
        spans_nested(c),
    ensures
        added_within(c, i, a, lower_call_expr_at(c, i, a).0),
    decreases i, 2int, 0int,
{
    if in_range(c, i) {
        let n = c[i];
        if n.kind == "call_expr"@ && !node_invalid(n) {
            lemma_field_target_is_child(n, "function"@);
            match field_target(n, "function"@) {
                Some(t_f) => if 0 <= t_f < i {
                    span_cov_expr(c, t_f, a);
                    let a1 = lower_expr_at(c, t_f, a).0;
                    lemma_hoist_to_parent(c, i, t_f, a, a1);
                    if lower_expr_at(c, t_f, a).1 is Ok {
                        span_cov_collect_exprs(c, i, "arg"@, 0, a1);
                        let a2 = collect_exprs(c, i, "arg"@, 0, a1).0;
                        lemma_added_within_trans(c, i, a, a1, a2);
                        if collect_exprs(c, i, "arg"@, 0, a1).1 is Ok {
                            lemma_added_push(
                                c,
                                i,
                                a,
                                a2,
                                EntryV {
                                    node: crate::ast::NodeV::Expression(
                                        crate::ast::ExpressionV::Call {
                                            callee: lower_expr_at(c, t_f, a).1->Ok_0,
                                            args: collect_exprs(c, i, "arg"@, 0, a1).1->Ok_0,
                                        },
                                    ),
                                    info: span_of(n),
                                },
                            );
                        }
                    }
                },
                None => {},
            }
        }
    }
}

pub proof fn span_cov_parem_expr(c: Seq<CstNodeV>, i: int, a: Seq<EntryV>)
    requires
        wf_nodes(c),
        spans_nested(c),
    ensures
        added_within(c, i, a, lower_parem_expr_at(c, i, a).0),
    decreases i, 2int, 0int,
{
    if in_range(c, i) {
        let n = c[i];
        if n.kind == "parem_expr"@ && !node_invalid(n) {
            lemma_field_target_is_child(n, "expression"@);
            match field_target(n, "expression"@) {
                Some(t) => if 0 <= t < i {
                    span_cov_expr(c, t, a);
                    lemma_hoist_to_parent(c, i, t, a, lower_expr_at(c, t, a).0);
                },
                None => {},
            }
        }
    }
}

pub proof fn span_cov_identifier_expr(c: Seq<CstNodeV>, i: int, a: Seq<EntryV>)
    requires
        wf_nodes(c),
        spans_nested(c),
    ensures
        added_within(c, i, a, lower_identifier_expr_at(c, i, a).0),
    decreases i, 2int, 0int,
{
    if in_range(c, i) {
        let n = c[i];
        if n.kind == "identifier"@ && !node_invalid(n) {
            span_cov_identifier(c, i, a);
            let a1 = lower_identifier_at(c, i, a).0;
            if lower_identifier_at(c, i, a).1 is Ok {
                lemma_added_push(
                    c,
                    i,
                    a,
                    a1,
                    EntryV {
                        node: crate::ast::NodeV::Expression(
                            crate::ast::ExpressionV::Identifier {
                                node_id: lower_identifier_at(c, i, a).1->Ok_0,
                            },
                        ),
                        info: span_of(n),
                    },
                );
            }
        }
    }
}

pub proof fn span_cov_decimal(c: Seq<CstNodeV>, i: int, a: Seq<EntryV>)
    requires
        wf_nodes(c),
        spans_nested(c),
    ensures
        added_within(c, i, a, lower_decimal_at(c, i, a).0),
    decreases i, 2int, 0int,
{
    if in_range(c, i) {
        let n = c[i];
        if n.kind == "decimal"@ && !node_invalid(n) {
            match field_target(n, "integer"@) {
                Some(t_int) => if 0 <= t_int < i {
                    match crate::text::spec_parse_i64(c[t_int].text) {
                        Some(integer_part) => match field_target(n, "fraction"@) {
                            Some(t_fr) => if 0 <= t_fr < i {
                                match crate::text::spec_parse_i64(c[t_fr].text) {
                                    Some(fraction) => {
                                        lemma_added_push(
                                            c,
                                            i,
                                            a,
                                            a,
                                            EntryV {
                                                node: crate::ast::NodeV::Expression(
                                                    crate::ast::ExpressionV::DecimalLiteral {
                                                        integer_part,
                                                        fraction_part: crate::lower::divide_down(
                                                            fraction as int,
                                                        ) as i64,
                                                    },
                                                ),
                                                info: span_of(n),
                                            },
                                        );
                                    },
                                    None => {},
                                }
                            },
                            None => {},
                        },
                        None => {},
                    }
                },
                None => {},
            }
        }
    }
}

pub proof fn span_cov_integer(c: Seq<CstNodeV>, i: int, a: Seq<EntryV>)
    requires
        wf_nodes(c),
        spans_nested(c),
    ensures
        added_within(c, i, a, lower_integer_at(c, i, a).0),
    decreases i, 2int, 0int,
{
    if in_range(c, i) {
        let n = c[i];
        if n.kind == "integer"@ && !node_invalid(n) {
            match field_target(n, "value"@) {
                Some(t) => if 0 <= t < i {
                    match crate::text::spec_parse_i64(c[t].text) {
                        Some(value) => {
                            lemma_added_push(
                                c,
                                i,
                                a,
                                a,
                                EntryV {
                                    node: crate::ast::NodeV::Expression(
                                        crate::ast::ExpressionV::IntegerLiteral { value },
                                    ),
                                    info: span_of(n),
                                },
                            );
                        },
                        None => {},
                    }
                },
                None => {},
            }
        }
    }
}

pub proof fn span_cov_string(c: Seq<CstNodeV>, i: int, a: Seq<EntryV>)
    requires
        wf_nodes(c),
        spans_nested(c),
    ensures
        added_within(c, i, a, lower_string_at(c, i, a).0),
    decreases i, 2int, 0int,
{
    if in_range(c, i) {
        let n = c[i];
        if n.kind == "string"@ && !node_invalid(n) {
            match field_target(n, "content"@) {
                Some(t) => if 0 <= t < i {
                    lemma_added_push(
                        c,
                        i,
                        a,
                        a,
                        EntryV {
                            node: crate::ast::NodeV::Expression(
                                crate::ast::ExpressionV::StringLiteral { value: c[t].text },
                            ),
                            info: span_of(n),
                        },
                    );
                },
                None => {},
            }
        }
    }
}

pub proof fn span_cov_bool(c: Seq<CstNodeV>, i: int, a: Seq<EntryV>)
    requires
        wf_nodes(c),
        spans_nested(c),
    ensures
        added_within(c, i, a, lower_bool_at(c, i, a).0),
    decreases i, 2int, 0int,
{
    if in_range(c, i) {
        let n = c[i];
        if n.kind == "boolean"@ && !node_invalid(n) {
            match field_target(n, "value"@) {
                Some(t) => if 0 <= t < i {
                    if c[t].text == "verdadeiro"@ || c[t].text == "falso"@ {
                        lemma_added_push(
                            c,
                            i,
                            a,
                            a,
                            EntryV {
                                node: crate::ast::NodeV::Expression(
                                    crate::ast::ExpressionV::BooleanLiteral {
                                        value: c[t].text == "verdadeiro"@,
                                    },
                                ),
                                info: span_of(n),
                            },
                        );
                    }
                },
                None => {},
            }
        }
    }
}

pub proof fn span_cov_list(c: Seq<CstNodeV>, i: int, a: Seq<EntryV>)
    requires
        wf_nodes(c),
        spans_nested(c),
    ensures
        added_within(c, i, a, lower_list_at(c, i, a).0),
    decreases i, 2int, 0int,
{
    if in_range(c, i) {
        let n = c[i];
        if n.kind == "list"@ && !node_invalid(n) {
            span_cov_collect_exprs(c, i, "item"@, 0, a);
            let a1 = collect_exprs(c, i, "item"@, 0, a).0;
            if collect_exprs(c, i, "item"@, 0, a).1 is Ok {
                lemma_added_push(
                    c,
                    i,
                    a,
                    a1,
                    EntryV {
                        node: crate::ast::NodeV::Expression(
                            crate::ast::ExpressionV::ListLiteral {
                                values: collect_exprs(c, i, "item"@, 0, a).1->Ok_0,
                            },
                        ),
                        info: span_of(n),
                    },
                );
            }
        }
    }
}

pub proof fn span_cov_expr(c: Seq<CstNodeV>, i: int, a: Seq<EntryV>)
    requires
        wf_nodes(c),
        spans_nested(c),
    ensures
        added_within(c, i, a, lower_expr_at(c, i, a).0),
    decreases i, 3int, 0int,
{
    if in_range(c, i) {
        let n = c[i];
        if !node_invalid(n) {
            if n.kind == "binary_expr"@ {
                span_cov_binary_expr(c, i, a);
            } else if n.kind == "unary_expr"@ {
                span_cov_unary_expr(c, i, a);
            } else if n.kind == "access_expr"@ {
                span_cov_access_expr(c, i, a);
            } else if n.kind == "call_expr"@ {
                span_cov_call_expr(c, i, a);
            } else if n.kind == "parem_expr"@ {
                span_cov_parem_expr(c, i, a);
            } else if n.kind == "identifier"@ {
                span_cov_identifier_expr(c, i, a);
            } else if n.kind == "decimal"@ {
                span_cov_decimal(c, i, a);
            } else if n.kind == "integer"@ {
                span_cov_integer(c, i, a);
            } else if n.kind == "string"@ {
                span_cov_string(c, i, a);
            } else if n.kind == "boolean"@ {
                span_cov_bool(c, i, a);
            } else if n.kind == "list"@ {
                span_cov_list(c, i, a);
            }
        }
    }
}

pub proof fn span_cov_break(c: Seq<CstNodeV>, i: int, a: Seq<EntryV>)
    requires
        wf_nodes(c),
        spans_nested(c),
    ensures
        added_within(c, i, a, lower_break_at(c, i, a).0),
    decreases i, 2int, 0int,
{
    if in_range(c, i) {
        let n = c[i];
        if n.kind == "break_stmt"@ && !node_invalid(n) {
            lemma_added_push(
                c,
                i,
                a,
                a,
                EntryV {
                    node: crate::ast::NodeV::Statement(crate::ast::StatementV::Break),
                    info: span_of(n),
                },
            );
        }
    }
}

pub proof fn span_cov_continue(c: Seq<CstNodeV>, i: int, a: Seq<EntryV>)
    requires
        wf_nodes(c),
        spans_nested(c),
    ensures
        added_within(c, i, a, lower_continue_at(c, i, a).0),
    decreases i, 2int, 0int,
{
    if in_range(c, i) {
        let n = c[i];
        if n.kind == "continue_stmt"@ && !node_invalid(n) {
            lemma_added_push(
                c,
                i,
                a,
                a,
                EntryV {
                    node: crate::ast::NodeV::Statement(crate::ast::StatementV::Continue),
                    info: span_of(n),
                },
            );
        }
    }
}

pub proof fn span_cov_return(c: Seq<CstNodeV>, i: int, a: Seq<EntryV>)
    requires
        wf_nodes(c),
        spans_nested(c),
    ensures
        added_within(c, i, a, lower_return_at(c, i, a).0),
    decreases i, 2int, 0int,
{
    if in_range(c, i) {
        let n = c[i];
        if n.kind == "return_stmt"@ && !node_invalid(n) {
            match field_target(n, "return_expr"@) {
                None => {
                    lemma_added_push(
                        c,
                        i,
                        a,
                        a,
                        EntryV {
                            node: crate::ast::NodeV::Statement(
                                crate::ast::StatementV::Return { expr: None },
                            ),
                            info: span_of(n),
                        },
                    );
                },
                Some(t) => if 0 <= t < i {
                    lemma_field_target_is_child(n, "return_expr"@);
                    span_cov_expr(c, t, a);
                    let a1 = lower_expr_at(c, t, a).0;
                    lemma_hoist_to_parent(c, i, t, a, a1);
                    if lower_expr_at(c, t, a).1 is Ok {
                        lemma_added_push(
                            c,
                            i,
                            a,
                            a1,
                            EntryV {
                                node: crate::ast::NodeV::Statement(
                                    crate::ast::StatementV::Return {
                                        expr: Some(lower_expr_at(c, t, a).1->Ok_0),
                                    },
                                ),
                                info: span_of(n),
                            },
                        );
                    }
                },
            }
        }
    }
}

pub proof fn span_cov_for_item(c: Seq<CstNodeV>, i: int, a: Seq<EntryV>)
    requires
        wf_nodes(c),
        spans_nested(c),
    ensures
        added_within(c, i, a, lower_for_item_at(c, i, a).0),
    decreases i, 2int, 0int,
{
    if in_range(c, i) {
        let n = c[i];
        if n.kind == "for_item_decl"@ && !node_invalid(n) {
            lemma_field_target_is_child(n, "name"@);
            match field_target(n, "name"@) {
                Some(t) => if 0 <= t < i {
                    span_cov_identifier(c, t, a);
                    let a1 = lower_identifier_at(c, t, a).0;
                    lemma_hoist_to_parent(c, i, t, a, a1);
                    if lower_identifier_at(c, t, a).1 is Ok {
                        lemma_added_push(
                            c,
                            i,
                            a,
                            a1,
                            EntryV {
                                node: crate::ast::NodeV::ForEachDecl(
                                    crate::ast::ForEachDecl {
                                        is_mut: field_target(n, "is_mut"@) is Some,
                                        is_ref: field_target(n, "is_ref"@) is Some,
                                        name: lower_identifier_at(c, t, a).1->Ok_0,
                                    },
                                ),
                                info: span_of(n),
                            },
                        );
                    }
                },
                None => {},
            }
        }
    }
}

pub proof fn span_cov_collect_stmts(c: Seq<CstNodeV>, i: int, field: Seq<char>, j: int, a: Seq<EntryV>)
    requires
        wf_nodes(c),
        spans_nested(c),
    ensures
        added_within(c, i, a, collect_stmts(c, i, field, j, a).0),
    decreases i, 1int, (if in_range(c, i) { c[i].children.len() - j } else { 0 }),
{
    if in_range(c, i) && 0 <= j < c[i].children.len() {
        if c[i].children[j].field_name == Some(field) {
            let t = c[i].children[j].target;
            if 0 <= t < i {
                span_cov_stmt(c, t, a);
                let a1 = lower_stmt_at(c, t, a).0;
                assert(is_child_target(c[i], t));
                lemma_hoist_to_parent(c, i, t, a, a1);
                if lower_stmt_at(c, t, a).1 is Ok {
                    span_cov_collect_stmts(c, i, field, j + 1, a1);
                    lemma_added_within_trans(c, i, a, a1, collect_stmts(c, i, field, j + 1, a1).0);
                }
            }
        } else {
            span_cov_collect_stmts(c, i, field, j + 1, a);
        }
    }
}

pub proof fn span_cov_for_each(c: Seq<CstNodeV>, i: int, a: Seq<EntryV>)
    requires
        wf_nodes(c),
        spans_nested(c),
    ensures
        added_within(c, i, a, lower_for_each_at(c, i, a).0),
    decreases i, 2int, 1int,
{
    if in_range(c, i) {
        let n = c[i];
        if n.kind == "for_each_loop"@ && !node_invalid(n) {
            lemma_field_target_is_child(n, "item"@);
            match field_target(n, "item"@) {
                Some(t_item) => if 0 <= t_item < i {
                    span_cov_for_item(c, t_item, a);
                    let a1 = lower_for_item_at(c, t_item, a).0;
                    lemma_hoist_to_parent(c, i, t_item, a, a1);
                    if lower_for_item_at(c, t_item, a).1 is Ok {
                        lemma_field_target_is_child(n, "iterator"@);
                        match field_target(n, "iterator"@) {
                            Some(t_it) => if 0 <= t_it < i {
                                span_cov_expr(c, t_it, a1);
                                let a2 = lower_expr_at(c, t_it, a1).0;
                                lemma_hoist_to_parent(c, i, t_it, a1, a2);
                                lemma_added_within_trans(c, i, a, a1, a2);
                                if lower_expr_at(c, t_it, a1).1 is Ok {
                                    span_cov_collect_stmts(c, i, "body"@, 0, a2);
                                    let a3 = collect_stmts(c, i, "body"@, 0, a2).0;
                                    lemma_added_within_trans(c, i, a, a2, a3);
                                    if collect_stmts(c, i, "body"@, 0, a2).1 is Ok {
                                        lemma_added_push(
                                            c,
                                            i,
                                            a,
                                            a3,
                                            EntryV {
                                                node: crate::ast::NodeV::Statement(
                                                    crate::ast::StatementV::ForEach {
                                                        item: lower_for_item_at(c, t_item, a).1->Ok_0,
                                                        iter_expr: lower_expr_at(c, t_it, a1).1->Ok_0,
                                                        body_block: collect_stmts(
                                                            c,
                                                            i,
                                                            "body"@,
                                                            0,
                                                            a2,
                                                        ).1->Ok_0,
                                                    },
                                                ),
                                                info: span_of(n),
                                            },
                                        );
                                    }
                                }
                            },
                            None => {},
                        }
                    }
                },
                None => {},
            }
        }
    }
}

pub proof fn span_cov_while(c: Seq<CstNodeV>, i: int, a: Seq<EntryV>)
    requires
        wf_nodes(c),
        spans_nested(c),
    ensures
        added_within(c, i, a, lower_while_at(c, i, a).0),
    decreases i, 2int, 1int,
{
    if in_range(c, i) {
        let n = c[i];
        if n.kind == "while_loop"@ && !node_invalid(n) {
            lemma_field_target_is_child(n, "condition"@);
            match field_target(n, "condition"@) {
                Some(t_c) => if 0 <= t_c < i {
                    span_cov_expr(c, t_c, a);
                    let a1 = lower_expr_at(c, t_c, a).0;
                    lemma_hoist_to_parent(c, i, t_c, a, a1);
                    if lower_expr_at(c, t_c, a).1 is Ok {
                        span_cov_collect_stmts(c, i, "body"@, 0, a1);
                        let a2 = collect_stmts(c, i, "body"@, 0, a1).0;
                        lemma_added_within_trans(c, i, a, a1, a2);
                        if collect_stmts(c, i, "body"@, 0, a1).1 is Ok {
                            lemma_added_push(
                                c,
                                i,
                                a,
                                a2,
                                EntryV {
                                    node: crate::ast::NodeV::Statement(
                                        crate::ast::StatementV::While {
                                            cond_expr: lower_expr_at(c, t_c, a).1->Ok_0,
                                            body_block: collect_stmts(c, i, "body"@, 0, a1).1->Ok_0,
                                        },
                                    ),
                                    info: span_of(n),
                                },
                            );
                        }
                    }
                },
                None => {},
            }
        }
    }
}

pub proof fn span_cov_conditional(c: Seq<CstNodeV>, i: int, a: Seq<EntryV>)
    requires
        wf_nodes(c),
        spans_nested(c),
    ensures
        added_within(c, i, a, lower_conditional_at(c, i, a).0),
    decreases i, 2int, 1int,
{
    if in_range(c, i) {
        let n = c[i];
        if n.kind == "conditional"@ && !node_invalid(n) {
            lemma_field_target_is_child(n, "condition"@);
            match field_target(n, "condition"@) {
                Some(t_c) => if 0 <= t_c < i {
                    span_cov_expr(c, t_c, a);
                    let a1 = lower_expr_at(c, t_c, a).0;
                    lemma_hoist_to_parent(c, i, t_c, a, a1);
                    if lower_expr_at(c, t_c, a).1 is Ok {
                        span_cov_collect_stmts(c, i, "then_body"@, 0, a1);
                        let a2 = collect_stmts(c, i, "then_body"@, 0, a1).0;
                        lemma_added_within_trans(c, i, a, a1, a2);
                        if collect_stmts(c, i, "then_body"@, 0, a1).1 is Ok {
                            if field_target(n, "has_else"@) is Some {
                                span_cov_collect_stmts(c, i, "else_body"@, 0, a2);
                                let a3 = collect_stmts(c, i, "else_body"@, 0, a2).0;
                                lemma_added_within_trans(c, i, a, a2, a3);
                                if collect_stmts(c, i, "else_body"@, 0, a2).1 is Ok {
                                    lemma_added_push(
                                        c,
                                        i,
                                        a,
                                        a3,
                                        EntryV {
                                            node: crate::ast::NodeV::Statement(
                                                crate::ast::StatementV::If {
                                                    cond_expr: lower_expr_at(c, t_c, a).1->Ok_0,
                                                    then_block: collect_stmts(
                                                        c,
                                                        i,
                                                        "then_body"@,
                                                        0,
                                                        a1,
                                                    ).1->Ok_0,
                                                    else_body: Some(
                                                        collect_stmts(
                                                            c,
                                                            i,
                                                            "else_body"@,
                                                            0,
                                                            a2,
                                                        ).1->Ok_0,
                                                    ),
                                                },
                                            ),
                                            info: span_of(n),
                                        },
                                    );
                                }
                            } else {
                                lemma_added_push(
                                    c,
                                    i,
                                    a,
                                    a2,
                                    EntryV {
                                        node: crate::ast::NodeV::Statement(
                                            crate::ast::StatementV::If {
                                                cond_expr: lower_expr_at(c, t_c, a).1->Ok_0,
                                                then_block: collect_stmts(
                                                    c,
                                                    i,
                                                    "then_body"@,
                                                    0,
                                                    a1,
                                                ).1->Ok_0,
                                                else_body: None,
                                            },
                                        ),
                                        info: span_of(n),
                                    },
                                );
                            }
                        }
                    }
                },
                None => {},
            }
        }
    }
}

pub proof fn span_cov_var_decl(c: Seq<CstNodeV>, i: int, a: Seq<EntryV>)
    requires
        wf_nodes(c),
        spans_nested(c),
    ensures
        added_within(c, i, a, lower_var_decl_at(c, i, a).0),
    decreases i, 2int, 0int,
{
    if in_range(c, i) {
        let n = c[i];
        if n.kind == "variable_declaration"@ && !node_invalid(n) {
            let is_mut = field_target(n, "is_mut"@) is Some;
            lemma_field_target_is_child(n, "name"@);
            match field_target(n, "name"@) {
                Some(t_n) => if 0 <= t_n < i {
                    span_cov_identifier(c, t_n, a);
                    let a1 = lower_identifier_at(c, t_n, a).0;
                    lemma_hoist_to_parent(c, i, t_n, a, a1);
                    if lower_identifier_at(c, t_n, a).1 is Ok {
                        let name = lower_identifier_at(c, t_n, a).1->Ok_0;
                        lemma_field_target_is_child(n, "type"@);
                        match field_target(n, "type"@) {
                            Some(t_t) => if 0 <= t_t < i {
                                span_cov_type_expr(c, t_t, a1);
                                let a2 = lower_type_expr_at(c, t_t, a1).0;
                                lemma_hoist_to_parent(c, i, t_t, a1, a2);
                                lemma_added_within_trans(c, i, a, a1, a2);
                                if lower_type_expr_at(c, t_t, a1).1 is Ok {
                                    let type_expr = lower_type_expr_at(c, t_t, a1).1->Ok_0;
                                    match field_target(n, "initializer"@) {
                                        None => {
                                            lemma_added_push(
                                                c,
                                                i,
                                                a,
                                                a2,
                                                EntryV {
                                                    node: crate::ast::NodeV::Statement(
                                                        crate::ast::StatementV::VarDecl {
                                                            is_mut,
                                                            name,
                                                            type_expr,
                                                            init_expr: None,
                                                        },
                                                    ),
                                                    info: span_of(n),
                                                },
                                            );
                                        },
                                        Some(t_i) => if 0 <= t_i < i {
                                            lemma_field_target_is_child(n, "initializer"@);
                                            span_cov_expr(c, t_i, a2);
                                            let a3 = lower_expr_at(c, t_i, a2).0;
                                            lemma_hoist_to_parent(c, i, t_i, a2, a3);
                                            lemma_added_within_trans(c, i, a, a2, a3);
                                            if lower_expr_at(c, t_i, a2).1 is Ok {
                                                lemma_added_push(
                                                    c,
                                                    i,
                                                    a,
                                                    a3,
                                                    EntryV {
                                                        node: crate::ast::NodeV::Statement(
                                                            crate::ast::StatementV::VarDecl {
                                                                is_mut,
                                                                name,
                                                                type_expr,
                                                                init_expr: Some(
                                                                    lower_expr_at(c, t_i, a2).1->Ok_0,
                                                                ),
                                                            },
                                                        ),
                                                        info: span_of(n),
                                                    },
                                                );
                                            }
                                        },
                                    }
                                }
                            },
                            None => {},
                        }
                    }
                },
                None => {},
            }
        }
    }
}

pub proof fn span_cov_expr_stmt(c: Seq<CstNodeV>, i: int, a: Seq<EntryV>)
    requires
        wf_nodes(c),
        spans_nested(c),
    ensures
        added_within(c, i, a, lower_expr_stmt_at(c, i, a).0),
    decreases i, 2int, 0int,
{
    if in_range(c, i) {
        let n = c[i];
        if n.kind == "expression_stmt"@ && !node_invalid(n) {
            lemma_field_target_is_child(n, "expression"@);
            match field_target(n, "expression"@) {
                Some(t) => if 0 <= t < i {
                    span_cov_expr(c, t, a);
                    let a1 = lower_expr_at(c, t, a).0;
                    lemma_hoist_to_parent(c, i, t, a, a1);
                    if lower_expr_at(c, t, a).1 is Ok {
                        lemma_added_push(
                            c,
                            i,
                            a,
                            a1,
                            EntryV {
                                node: crate::ast::NodeV::Statement(
                                    crate::ast::StatementV::Expression {
                                        expr: lower_expr_at(c, t, a).1->Ok_0,
                                    },
                                ),
                                info: span_of(n),
                            },
                        );
                    }
                },
                None => {},
            }
        }
    }
}

pub proof fn span_cov_stmt(c: Seq<CstNodeV>, i: int, a: Seq<EntryV>)
    requires
        wf_nodes(c),
        spans_nested(c),
    ensures
        added_within(c, i, a, lower_stmt_at(c, i, a).0),
    decreases i, 3int, 0int,
{
    if in_range(c, i) {
        let n = c[i];
        if !node_invalid(n) {
            if n.kind == "break_stmt"@ {
                span_cov_break(c, i, a);
            } else if n.kind == "continue_stmt"@ {
                span_cov_continue(c, i, a);
            } else if n.kind == "return_stmt"@ {
                span_cov_return(c, i, a);
            } else if n.kind == "for_each_loop"@ {
                span_cov_for_each(c, i, a);
            } else if n.kind == "while_loop"@ {
                span_cov_while(c, i, a);
            } else if n.kind == "conditional"@ {
                span_cov_conditional(c, i, a);
            } else if n.kind == "variable_declaration"@ {
                span_cov_var_decl(c, i, a);
            } else if n.kind == "expression_stmt"@ {
                span_cov_expr_stmt(c, i, a);
            }
        }
    }
}

pub proof fn span_cov_function_param(c: Seq<CstNodeV>, i: int, a: Seq<EntryV>)
    requires
        wf_nodes(c),
        spans_nested(c),
    ensures
        added_within(c, i, a, lower_function_param_at(c, i, a).0),
    decreases i, 2int, 0int,
{
    if in_range(c, i) {
        let n = c[i];
        if n.kind == "function_param"@ && !node_invalid(n) {
            lemma_field_target_is_child(n, "name"@);
            match field_target(n, "name"@) {
                Some(t_n) => if 0 <= t_n < i {
                    span_cov_identifier(c, t_n, a);
                    let a1 = lower_identifier_at(c, t_n, a).0;
                    lemma_hoist_to_parent(c, i, t_n, a, a1);
                    if lower_identifier_at(c, t_n, a).1 is Ok {
                        lemma_field_target_is_child(n, "type"@);
                        match field_target(n, "type"@) {
                            Some(t_t) => if 0 <= t_t < i {
                                span_cov_type_expr(c, t_t, a1);
                                let a2 = lower_type_expr_at(c, t_t, a1).0;
                                lemma_hoist_to_parent(c, i, t_t, a1, a2);
                                lemma_added_within_trans(c, i, a, a1, a2);
                                if lower_type_expr_at(c, t_t, a1).1 is Ok {
                                    lemma_added_push(
                                        c,
                                        i,
                                        a,
                                        a2,
                                        EntryV {
                                            node: crate::ast::NodeV::FunctionParam(
                                                crate::ast::FunctionParam {
                                                    is_mut: field_target(n, "is_mut"@) is Some,
                                                    name: lower_identifier_at(c, t_n, a).1->Ok_0,
                                                    type_expr: lower_type_expr_at(
                                                        c,
                                                        t_t,
                                                        a1,
                                                    ).1->Ok_0,
                                                },
                                            ),
                                            info: span_of(n),
                                        },
                                    );
                                }
                            },
                            None => {},
                        }
                    }
                },
                None => {},
            }
        }
    }
}

pub proof fn span_cov_collect_params(c: Seq<CstNodeV>, i: int, j: int, a: Seq<EntryV>)
    requires
        wf_nodes(c),
        spans_nested(c),
    ensures
        added_within(c, i, a, collect_params(c, i, j, a).0),
    decreases i, 1int, (if in_range(c, i) { c[i].children.len() - j } else { 0 }),
{
    if in_range(c, i) && 0 <= j < c[i].children.len() {
        if c[i].children[j].field_name == Some("param"@) {
            let t = c[i].children[j].target;
            if 0 <= t < i {
                span_cov_function_param(c, t, a);
                let a1 = lower_function_param_at(c, t, a).0;
                assert(is_child_target(c[i], t));
                lemma_hoist_to_parent(c, i, t, a, a1);
                if lower_function_param_at(c, t, a).1 is Ok {
                    span_cov_collect_params(c, i, j + 1, a1);
                    lemma_added_within_trans(c, i, a, a1, collect_params(c, i, j + 1, a1).0);
                }
            }
        } else {
            span_cov_collect_params(c, i, j + 1, a);
        }
    }
}

pub proof fn span_cov_function(c: Seq<CstNodeV>, i: int, a: Seq<EntryV>)
    requires
        wf_nodes(c),
        spans_nested(c),
    ensures
        added_within(c, i, a, lower_function_at(c, i, a).0),
    decreases i, 2int, 1int,
{
    if in_range(c, i) {
        let n = c[i];
        if n.kind == "function"@ && !node_invalid(n) {
            lemma_field_target_is_child(n, "name"@);
            match field_target(n, "name"@) {
                Some(t_n) => if 0 <= t_n < i {
                    span_cov_identifier(c, t_n, a);
                    let a1 = lower_identifier_at(c, t_n, a).0;
                    lemma_hoist_to_parent(c, i, t_n, a, a1);
                    if lower_identifier_at(c, t_n, a).1 is Ok {
                        span_cov_collect_params(c, i, 0, a1);
                        let a2 = collect_params(c, i, 0, a1).0;
                        lemma_added_within_trans(c, i, a, a1, a2);
                        if collect_params(c, i, 0, a1).1 is Ok {
                            lemma_field_target_is_child(n, "return_type"@);
                            match field_target(n, "return_type"@) {
                                Some(t_r) => if 0 <= t_r < i {
                                    span_cov_type_expr(c, t_r, a2);
                                    let a3 = lower_type_expr_at(c, t_r, a2).0;
                                    lemma_hoist_to_parent(c, i, t_r, a2, a3);
                                    lemma_added_within_trans(c, i, a, a2, a3);
                                    if lower_type_expr_at(c, t_r, a2).1 is Ok {
                                        span_cov_collect_stmts(c, i, "body"@, 0, a3);
                                        let a4 = collect_stmts(c, i, "body"@, 0, a3).0;
                                        lemma_added_within_trans(c, i, a, a3, a4);
                                        if collect_stmts(c, i, "body"@, 0, a3).1 is Ok {
                                            lemma_added_push(
                                                c,
                                                i,
                                                a,
                                                a4,
                                                EntryV {
                                                    node: crate::ast::NodeV::ScopeDef(
                                                        crate::ast::ScopeDefV::Function {
                                                            name: lower_identifier_at(
                                                                c,
                                                                t_n,
                                                                a,
                                                            ).1->Ok_0,
                                                            params: collect_params(
                                                                c,
                                                                i,
                                                                0,
                                                                a1,
                                                            ).1->Ok_0,
                                                            return_type: lower_type_expr_at(
                                                                c,
                                                                t_r,
                                                                a2,
                                                            ).1->Ok_0,
                                                            body: collect_stmts(
                                                                c,
                                                                i,
                                                                "body"@,
                                                                0,
                                                                a3,
                                                            ).1->Ok_0,
                                                        },
                                                    ),
                                                    info: span_of(n),
                                                },
                                            );
                                        }
                                    }
                                },
                                None => {},
                            }
                        }
                    }
                },
                None => {},
            }
        }
    }
}

pub proof fn span_cov_scope_def(c: Seq<CstNodeV>, i: int, a: Seq<EntryV>)
    requires
        wf_nodes(c),
        spans_nested(c),
    ensures
        added_within(c, i, a, lower_scope_def_at(c, i, a).0),
    decreases i, 3int, 0int,
{
    if in_range(c, i) {
        let n = c[i];
        if !node_invalid(n) && n.kind == "function"@ {
            span_cov_function(c, i, a);
        }
    }
}

pub proof fn span_cov_collect_defs(c: Seq<CstNodeV>, i: int, j: int, a: Seq<EntryV>)
    requires
        wf_nodes(c),
        spans_nested(c),
    ensures
        added_within(c, i, a, collect_defs(c, i, j, a).0),
    decreases i, 1int, (if in_range(c, i) { c[i].children.len() - j } else { 0 }),
{
    if in_range(c, i) && 0 <= j < c[i].children.len() {
        let t = c[i].children[j].target;
        if 0 <= t < i {
            span_cov_scope_def(c, t, a);
            let a1 = lower_scope_def_at(c, t, a).0;
            assert(is_child_target(c[i], t));
            lemma_hoist_to_parent(c, i, t, a, a1);
            if lower_scope_def_at(c, t, a).1 is Ok {
                span_cov_collect_defs(c, i, j + 1, a1);
                lemma_added_within_trans(c, i, a, a1, collect_defs(c, i, j + 1, a1).0);
            }
        }
    }
}

/// The slot a node identifier addresses, as a mathematical integer.
pub open spec fn id_int(n: crate::ast::NodeID) -> int {
    n.id as int
}

pub proof fn ret_identifier(c: Seq<CstNodeV>, i: int, a: Seq<EntryV>)
    requires
        wf_nodes(c),
        spans_nested(c),
    ensures
        ({
            let (af, rf) = lower_identifier_at(c, i, a);
            rf is Ok && af.len() <= usize::MAX ==> a.len() <= id_int(rf->Ok_0.0) < af.len()
        }),
    decreases i, 0int, 0int,
{
}

pub proof fn ret_raw_type(c: Seq<CstNodeV>, i: int, a: Seq<EntryV>)
    requires
        wf_nodes(c),
        spans_nested(c),
    ensures
        ({
            let (af, rf) = lower_raw_type_at(c, i, a);
            rf is Ok && af.len() <= usize::MAX ==> a.len() <= id_int(rf->Ok_0.0) < af.len()
        }),
    decreases i, 2int, 0int,
{
    if in_range(c, i) {
        let n = c[i];
        if field_target(n, "name"@) is Some {
            let t = field_target(n, "name"@)->Some_0;
            span_cov_identifier(c, t, a);
        }
    }
}

pub proof fn ret_template_type(c: Seq<CstNodeV>, i: int, a: Seq<EntryV>)
    requires
        wf_nodes(c),
        spans_nested(c),
    ensures
        ({
            let (af, rf) = lower_template_type_at(c, i, a);
            rf is Ok && af.len() <= usize::MAX ==> a.len() <= id_int(rf->Ok_0.0) < af.len()
        }),
    decreases i, 2int, 0int,
{
    if in_range(c, i) {
        let n = c[i];
        if field_target(n, "name"@) is Some {
            let t = field_target(n, "name"@)->Some_0;
            span_cov_identifier(c, t, a);
            span_cov_collect_template_args(c, i, 0, lower_identifier_at(c, t, a).0);
        }
    }
}

pub proof fn ret_ref_type(c: Seq<CstNodeV>, i: int, a: Seq<EntryV>)
    requires
        wf_nodes(c),
        spans_nested(c),
    ensures
        ({
            let (af, rf) = lower_ref_type_at(c, i, a);
            rf is Ok && af.len() <= usize::MAX ==> a.len() <= id_int(rf->Ok_0.0) < af.len()
        }),
    decreases i, 2int, 0int,
{
    if in_range(c, i) {
        let n = c[i];
        if field_target(n, "type"@) is Some {
            let t = field_target(n, "type"@)->Some_0;
            span_cov_type_expr(c, t, a);
        }
    }
}

pub proof fn ret_comp_type(c: Seq<CstNodeV>, i: int, a: Seq<EntryV>)
    requires
        wf_nodes(c),
        spans_nested(c),
    ensures
        ({
            let (af, rf) = lower_comp_type_at(c, i, a);
            rf is Ok && af.len() <= usize::MAX ==> a.len() <= id_int(rf->Ok_0.0) < af.len()
        }),
    decreases i, 2int, 0int,
{
    if in_range(c, i) {
        let n = c[i];
        if field_target(n, "type"@) is Some {
            let t = field_target(n, "type"@)->Some_0;
            span_cov_type_expr(c, t, a);
        }
    }
}

pub proof fn ret_type_expr(c: Seq<CstNodeV>, i: int, a: Seq<EntryV>)
    requires
        wf_nodes(c),
        spans_nested(c),
    ensures
        ({
            let (af, rf) = lower_type_expr_at(c, i, a);
            rf is Ok && af.len() <= usize::MAX ==> a.len() <= id_int(rf->Ok_0.0) < af.len()
        }),
    decreases i, 3int, 0int,
{
    if in_range(c, i) {
        let n = c[i];
        if n.kind == "raw_type"@ {
            ret_raw_type(c, i, a);
        } else if n.kind == "template_type"@ {
            ret_template_type(c, i, a);
        } else if n.kind == "ref_type"@ {
            ret_ref_type(c, i, a);
        } else if n.kind == "comp_type"@ {
            ret_comp_type(c, i, a);
        }
    }
}

pub proof fn ret_binary_expr(c: Seq<CstNodeV>, i: int, a: Seq<EntryV>)
    requires
        wf_nodes(c),
        spans_nested(c),
    ensures
        ({
            let (af, rf) = lower_binary_expr_at(c, i, a);
            rf is Ok && af.len() <= usize::MAX ==> a.len() <= id_int(rf->Ok_0.0) < af.len()
        }),
    decreases i, 2int, 0int,
{
    if in_range(c, i) {
        let n = c[i];
        if field_target(n, "lhs"@) is Some {
            let t_l = field_target(n, "lhs"@)->Some_0;
            span_cov_expr(c, t_l, a);
            if field_target(n, "rhs"@) is Some {
                let t_r = field_target(n, "rhs"@)->Some_0;
                span_cov_expr(c, t_r, lower_expr_at(c, t_l, a).0);
            }
        }
    }
}

pub proof fn ret_unary_expr(c: Seq<CstNodeV>, i: int, a: Seq<EntryV>)
    requires
        wf_nodes(c),
        spans_nested(c),
    ensures
        ({
            let (af, rf) = lower_unary_expr_at(c, i, a);
            rf is Ok && af.len() <= usize::MAX ==> a.len() <= id_int(rf->Ok_0.0) < af.len()
        }),
    decreases i, 2int, 0int,
{
    if in_range(c, i) {
        let n = c[i];
        if field_target(n, "value"@) is Some {
            let t_v = field_target(n, "value"@)->Some_0;
            span_cov_expr(c, t_v, a);
        }
    }
}

pub proof fn ret_access_expr(c: Seq<CstNodeV>, i: int, a: Seq<EntryV>)
    requires
        wf_nodes(c),
        spans_nested(c),
    ensures
        ({
            let (af, rf) = lower_access_expr_at(c, i, a);
            rf is Ok && af.len() <= usize::MAX ==> a.len() <= id_int(rf->Ok_0.0) < af.len()
        }),
    decreases i, 2int, 0int,
{
    if in_range(c, i) {
        let n = c[i];
        if field_target(n, "object"@) is Some {
            let t_o = field_target(n, "object"@)->Some_0;
            span_cov_expr(c, t_o, a);
            if field_target(n, "item"@) is Some {
                let t_i = field_target(n, "item"@)->Some_0;
                span_cov_identifier(c, t_i, lower_expr_at(c, t_o, a).0);
            }
        }
    }
}

pub proof fn ret_call_expr(c: Seq<CstNodeV>, i: int, a: Seq<EntryV>)
    requires
        wf_nodes(c),
        spans_nested(c),
    ensures
        ({
            let (af, rf) = lower_call_expr_at(c, i, a);
            rf is Ok && af.len() <= usize::MAX ==> a.len() <= id_int(rf->Ok_0.0) < af.len()
        }),
    decreases i, 2int, 0int,
{
    if in_range(c, i) {
        let n = c[i];
        if field_target(n, "function"@) is Some {
            let t_f = field_target(n, "function"@)->Some_0;
            span_cov_expr(c, t_f, a);
            span_cov_collect_exprs(c, i, "arg"@, 0, lower_expr_at(c, t_f, a).0);
        }
    }
}

pub proof fn ret_parem_expr(c: Seq<CstNodeV>, i: int, a: Seq<EntryV>)
    requires
        wf_nodes(c),
        spans_nested(c),
    ensures
        ({
            let (af, rf) = lower_parem_expr_at(c, i, a);
            rf is Ok && af.len() <= usize::MAX ==> a.len() <= id_int(rf->Ok_0.0) < af.len()
        }),
    decreases i, 2int, 0int,
{
    if in_range(c, i) {
        let n = c[i];
        if field_target(n, "expression"@) is Some {
            let t = field_target(n, "expression"@)->Some_0;
            if 0 <= t < i {
                ret_expr(c, t, a);
            }
        }
    }
}

pub proof fn ret_identifier_expr(c: Seq<CstNodeV>, i: int, a: Seq<EntryV>)
    requires
        wf_nodes(c),
        spans_nested(c),
    ensures
        ({
            let (af, rf) = lower_identifier_expr_at(c, i, a);
            rf is Ok && af.len() <= usize::MAX ==> a.len() <= id_int(rf->Ok_0.0) < af.len()
        }),
    decreases i, 2int, 0int,
{
    if in_range(c, i) {
        span_cov_identifier(c, i, a);
    }
}

pub proof fn ret_leaf_exprs(c: Seq<CstNodeV>, i: int, a: Seq<EntryV>)
    requires
        wf_nodes(c),
        spans_nested(c),
    ensures
        ({
            let (af, rf) = lower_decimal_at(c, i, a);
            rf is Ok && af.len() <= usize::MAX ==> a.len() <= id_int(rf->Ok_0.0) < af.len()
        }),
        ({
            let (af, rf) = lower_integer_at(c, i, a);
            rf is Ok && af.len() <= usize::MAX ==> a.len() <= id_int(rf->Ok_0.0) < af.len()
        }),
        ({
            let (af, rf) = lower_string_at(c, i, a);
            rf is Ok && af.len() <= usize::MAX ==> a.len() <= id_int(rf->Ok_0.0) < af.len()
        }),
        ({
            let (af, rf) = lower_bool_at(c, i, a);
            rf is Ok && af.len() <= usize::MAX ==> a.len() <= id_int(rf->Ok_0.0) < af.len()
        }),
{
}

pub proof fn ret_list(c: Seq<CstNodeV>, i: int, a: Seq<EntryV>)
    requires
        wf_nodes(c),
        spans_nested(c),
    ensures
        ({
            let (af, rf) = lower_list_at(c, i, a);
            rf is Ok && af.len() <= usize::MAX ==> a.len() <= id_int(rf->Ok_0.0) < af.len()
        }),
    decreases i, 2int, 0int,
{
    if in_range(c, i) {
        span_cov_collect_exprs(c, i, "item"@, 0, a);
    }
}

pub proof fn ret_expr(c: Seq<CstNodeV>, i: int, a: Seq<EntryV>)
    requires
        wf_nodes(c),
        spans_nested(c),
    ensures
        ({
            let (af, rf) = lower_expr_at(c, i, a);
            rf is Ok && af.len() <= usize::MAX ==> a.len() <= id_int(rf->Ok_0.0) < af.len()
        }),
    decreases i, 3int, 0int,
{
    if in_range(c, i) {
        let n = c[i];
        if n.kind == "binary_expr"@ {
            ret_binary_expr(c, i, a);
        } else if n.kind == "unary_expr"@ {
            ret_unary_expr(c, i, a);
        } else if n.kind == "access_expr"@ {
            ret_access_expr(c, i, a);
        } else if n.kind == "call_expr"@ {
            ret_call_expr(c, i, a);
        } else if n.kind == "parem_expr"@ {
            ret_parem_expr(c, i, a);
        } else if n.kind == "identifier"@ {
            ret_identifier_expr(c, i, a);
        } else if n.kind == "list"@ {
            ret_list(c, i, a);
        } else {
            ret_leaf_exprs(c, i, a);
        }
    }
}

pub proof fn ret_leaf_stmts(c: Seq<CstNodeV>, i: int, a: Seq<EntryV>)
    requires
        wf_nodes(c),
        spans_nested(c),
    ensures
        ({
            let (af, rf) = lower_break_at(c, i, a);
            rf is Ok && af.len() <= usize::MAX ==> a.len() <= id_int(rf->Ok_0.0) < af.len()
        }),
        ({
            let (af, rf) = lower_continue_at(c, i, a);
            rf is Ok && af.len() <= usize::MAX ==> a.len() <= id_int(rf->Ok_0.0) < af.len()
        }),
{
}

pub proof fn ret_return(c: Seq<CstNodeV>, i: int, a: Seq<EntryV>)
    requires
        wf_nodes(c),
        spans_nested(c),
    ensures
        ({
            let (af, rf) = lower_return_at(c, i, a);
            rf is Ok && af.len() <= usize::MAX ==> a.len() <= id_int(rf->Ok_0.0) < af.len()
        }),
    decreases i, 2int, 0int,
{
    if in_range(c, i) {
        let n = c[i];
        if field_target(n, "return_expr"@) is Some {
            let t = field_target(n, "return_expr"@)->Some_0;
            span_cov_expr(c, t, a);
        }
    }
}

pub proof fn ret_for_item(c: Seq<CstNodeV>, i: int, a: Seq<EntryV>)
    requires
        wf_nodes(c),
        spans_nested(c),
    ensures
        ({
            let (af, rf) = lower_for_item_at(c, i, a);
            rf is Ok && af.len() <= usize::MAX ==> a.len() <= id_int(rf->Ok_0.0) < af.len()
        }),
    decreases i, 2int, 0int,
{
    if in_range(c, i) {
        let n = c[i];
        if field_target(n, "name"@) is Some {
            let t = field_target(n, "name"@)->Some_0;
            span_cov_identifier(c, t, a);
        }
    }
}

pub proof fn ret_for_each(c: Seq<CstNodeV>, i: int, a: Seq<EntryV>)
    requires
        wf_nodes(c),
        spans_nested(c),
    ensures
        ({
            let (af, rf) = lower_for_each_at(c, i, a);
            rf is Ok && af.len() <= usize::MAX ==> a.len() <= id_int(rf->Ok_0.0) < af.len()
        }),
    decreases i, 2int, 1int,
{
    if in_range(c, i) {
        let n = c[i];
        if field_target(n, "item"@) is Some {
            let t_item = field_target(n, "item"@)->Some_0;
            span_cov_for_item(c, t_item, a);
            if field_target(n, "iterator"@) is Some {
                let t_it = field_target(n, "iterator"@)->Some_0;
                let a1 = lower_for_item_at(c, t_item, a).0;
                span_cov_expr(c, t_it, a1);
                span_cov_collect_stmts(c, i, "body"@, 0, lower_expr_at(c, t_it, a1).0);
            }
        }
    }
}

pub proof fn ret_while(c: Seq<CstNodeV>, i: int, a: Seq<EntryV>)
    requires
        wf_nodes(c),
        spans_nested(c),
    ensures
        ({
            let (af, rf) = lower_while_at(c, i, a);
            rf is Ok && af.len() <= usize::MAX ==> a.len() <= id_int(rf->Ok_0.0) < af.len()
        }),
    decreases i, 2int, 1int,
{
    if in_range(c, i) {
        let n = c[i];
        if field_target(n, "condition"@) is Some {
            let t_c = field_target(n, "condition"@)->Some_0;
            span_cov_expr(c, t_c, a);
            span_cov_collect_stmts(c, i, "body"@, 0, lower_expr_at(c, t_c, a).0);
        }
    }
}

pub proof fn ret_conditional(c: Seq<CstNodeV>, i: int, a: Seq<EntryV>)
    requires
        wf_nodes(c),
        spans_nested(c),
    ensures
        ({
            let (af, rf) = lower_conditional_at(c, i, a);
            rf is Ok && af.len() <= usize::MAX ==> a.len() <= id_int(rf->Ok_0.0) < af.len()
        }),
    decreases i, 2int, 1int,
{
    if in_range(c, i) {
        let n = c[i];
        if field_target(n, "condition"@) is Some {
            let t_c = field_target(n, "condition"@)->Some_0;
            span_cov_expr(c, t_c, a);
            let a1 = lower_expr_at(c, t_c, a).0;
            span_cov_collect_stmts(c, i, "then_body"@, 0, a1);
            span_cov_collect_stmts(c, i, "else_body"@, 0, collect_stmts(c, i, "then_body"@, 0, a1).0);
        }
    }
}

pub proof fn ret_var_decl(c: Seq<CstNodeV>, i: int, a: Seq<EntryV>)
    requires
        wf_nodes(c),
        spans_nested(c),
    ensures
        ({
            let (af, rf) = lower_var_decl_at(c, i, a);
            rf is Ok && af.len() <= usize::MAX ==> a.len() <= id_int(rf->Ok_0.0) < af.len()
        }),
    decreases i, 2int, 0int,
{
    if in_range(c, i) {
        let n = c[i];
        if field_target(n, "name"@) is Some {
            let t_n = field_target(n, "name"@)->Some_0;
            span_cov_identifier(c, t_n, a);
            if field_target(n, "type"@) is Some {
                let t_t = field_target(n, "type"@)->Some_0;
                let a1 = lower_identifier_at(c, t_n, a).0;
                span_cov_type_expr(c, t_t, a1);
                if field_target(n, "initializer"@) is Some {
                    let t_i = field_target(n, "initializer"@)->Some_0;
                    span_cov_expr(c, t_i, lower_type_expr_at(c, t_t, a1).0);
                }
            }
        }
    }
}

pub proof fn ret_expr_stmt(c: Seq<CstNodeV>, i: int, a: Seq<EntryV>)
    requires
        wf_nodes(c),
        spans_nested(c),
    ensures
        ({
            let (af, rf) = lower_expr_stmt_at(c, i, a);
            rf is Ok && af.len() <= usize::MAX ==> a.len() <= id_int(rf->Ok_0.0) < af.len()
        }),
    decreases i, 2int, 0int,
{
    if in_range(c, i) {
        let n = c[i];
        if field_target(n, "expression"@) is Some {
            let t = field_target(n, "expression"@)->Some_0;
            span_cov_expr(c, t, a);
        }
    }
}

pub proof fn ret_stmt(c: Seq<CstNodeV>, i: int, a: Seq<EntryV>)
    requires
        wf_nodes(c),
        spans_nested(c),
    ensures
        ({
            let (af, rf) = lower_stmt_at(c, i, a);
            rf is Ok && af.len() <= usize::MAX ==> a.len() <= id_int(rf->Ok_0.0) < af.len()
        }),
    decreases i, 3int, 0int,
{
    if in_range(c, i) {
        let n = c[i];
        if n.kind == "return_stmt"@ {
            ret_return(c, i, a);
        } else if n.kind == "for_each_loop"@ {
            ret_for_each(c, i, a);
        } else if n.kind == "while_loop"@ {
            ret_while(c, i, a);
        } else if n.kind == "conditional"@ {
            ret_conditional(c, i, a);
        } else if n.kind == "variable_declaration"@ {
            ret_var_decl(c, i, a);
        } else if n.kind == "expression_stmt"@ {
            ret_expr_stmt(c, i, a);
        } else {
            ret_leaf_stmts(c, i, a);
        }
    }
}

pub proof fn ret_function_param(c: Seq<CstNodeV>, i: int, a: Seq<EntryV>)
    requires
        wf_nodes(c),
        spans_nested(c),
    ensures
        ({
            let (af, rf) = lower_function_param_at(c, i, a);
            rf is Ok && af.len() <= usize::MAX ==> a.len() <= id_int(rf->Ok_0.0) < af.len()
        }),
    decreases i, 2int, 0int,
{
    if in_range(c, i) {
        let n = c[i];
        if field_target(n, "name"@) is Some {
            let t_n = field_target(n, "name"@)->Some_0;
            span_cov_identifier(c, t_n, a);
            if field_target(n, "type"@) is Some {
                let t_t = field_target(n, "type"@)->Some_0;
                span_cov_type_expr(c, t_t, lower_identifier_at(c, t_n, a).0);
            }
        }
    }
}

pub proof fn ret_function(c: Seq<CstNodeV>, i: int, a: Seq<EntryV>)
    requires
        wf_nodes(c),
        spans_nested(c),
    ensures
        ({
            let (af, rf) = lower_function_at(c, i, a);
            rf is Ok && af.len() <= usize::MAX ==> a.len() <= id_int(rf->Ok_0.0) < af.len()
        }),
    decreases i, 2int, 1int,
{
    if in_range(c, i) {
        let n = c[i];
        if field_target(n, "name"@) is Some {
            let t_n = field_target(n, "name"@)->Some_0;
            span_cov_identifier(c, t_n, a);
            let a1 = lower_identifier_at(c, t_n, a).0;
            span_cov_collect_params(c, i, 0, a1);
            if field_target(n, "return_type"@) is Some {
                let t_r = field_target(n, "return_type"@)->Some_0;
                let a2 = collect_params(c, i, 0, a1).0;
                span_cov_type_expr(c, t_r, a2);
                span_cov_collect_stmts(c, i, "body"@, 0, lower_type_expr_at(c, t_r, a2).0);
            }
        }
    }
}

pub proof fn ret_scope_def(c: Seq<CstNodeV>, i: int, a: Seq<EntryV>)
    requires
        wf_nodes(c),
        spans_nested(c),
    ensures
        ({
            let (af, rf) = lower_scope_def_at(c, i, a);
            rf is Ok && af.len() <= usize::MAX ==> a.len() <= id_int(rf->Ok_0.0) < af.len()
        }),
    decreases i, 3int, 0int,
{
    if in_range(c, i) {
        let n = c[i];
        if n.kind == "function"@ {
            ret_function(c, i, a);
        }
    }
}

/// The targets of the children from position `j` on that fill the named
/// grammar field, in source order.
pub open spec fn matching_targets(children: Seq<CstChildV>, field: Seq<char>, j: int) -> Seq<int>
    decreases children.len() - j,
{
    if j < 0 || j >= children.len() {
        Seq::<int>::empty()
    } else if children[j].field_name == Some(field) {
        seq![children[j].target] + matching_targets(children, field, j + 1)
    } else {
        matching_targets(children, field, j + 1)
    }
}

/// The targets of all children from position `j` on, in source order.
pub open spec fn child_targets(children: Seq<CstChildV>, j: int) -> Seq<int>
    decreases children.len() - j,
{
    if j < 0 || j >= children.len() {
        Seq::<int>::empty()
    } else {
        seq![children[j].target] + child_targets(children, j + 1)
    }
}

pub proof fn lemma_child_targets_len(children: Seq<CstChildV>, j: int)
    requires
        0 <= j <= children.len(),
    ensures
        child_targets(children, j).len() == children.len() - j,
    decreases children.len() - j,
{
    if j < children.len() {
        lemma_child_targets_len(children, j + 1);
    }
}

/// Order preservation for statement blocks: a successful collection
/// yields one identifier per child filling the field, in source order,
/// all freshly issued, with strictly increasing slots.
pub proof fn lemma_order_collect_stmts(c: Seq<CstNodeV>, i: int, field: Seq<char>, j: int, a: Seq<EntryV>)
    requires
        wf_nodes(c),
        spans_nested(c),
    ensures
        ({
            let (af, rf) = collect_stmts(c, i, field, j, a);
            rf is Ok && af.len() <= usize::MAX ==> {
                let ids = rf->Ok_0;
                let targets = matching_targets(c[i].children, field, j);
                &&& ids.len() == targets.len()
                &&& forall|p: int| 0 <= p < ids.len() ==> a.len() <= id_int(#[trigger] ids[p].0) < af.len()
                &&& forall|p: int, q: int|
                    0 <= p < q < ids.len() ==> id_int(ids[p].0) < id_int(ids[q].0)
                &&& forall|p: int| 0 <= p < ids.len() ==> span_within(
                    af[id_int(#[trigger] ids[p].0)].info,
                    span_of(c[targets[p]]),
                )
            }
        }),
    decreases i, 1int, (if in_range(c, i) { c[i].children.len() - j } else { 0 }),
{
    if in_range(c, i) && 0 <= j < c[i].children.len() {
        if c[i].children[j].field_name == Some(field) {
            let t = c[i].children[j].target;
            if 0 <= t < i {
                ret_stmt(c, t, a);
                span_cov_stmt(c, t, a);
                let a1 = lower_stmt_at(c, t, a).0;
                if lower_stmt_at(c, t, a).1 is Ok {
                    lemma_order_collect_stmts(c, i, field, j + 1, a1);
                    span_cov_collect_stmts(c, i, field, j + 1, a1);
                    let id0 = lower_stmt_at(c, t, a).1->Ok_0;
                    let (af, rf) = collect_stmts(c, i, field, j + 1, a1);
                    if rf is Ok && af.len() <= usize::MAX {
                        let rest = rf->Ok_0;
                        let ids = seq![id0] + rest;
                        let targets = seq![t] + matching_targets(c[i].children, field, j + 1);
                        assert forall|p: int| 0 <= p < ids.len() implies span_within(
                            af[id_int(ids[p].0)].info,
                            span_of(c[targets[p]]),
                        ) by {
                            if p == 0 {
                                assert(ids[0] == id0);
                                assert(targets[0] == t);
                                assert(a.len() <= id_int(id0.0) < a1.len());
                                assert(af[id_int(id0.0)] == a1[id_int(id0.0)]);
                                assert(span_within(a1[id_int(id0.0)].info, span_of(c[t])));
                            } else {
                                assert(ids[p] == rest[p - 1]);
                                assert(targets[p] == (matching_targets(c[i].children, field, j + 1))[p - 1]);
                            }
                        }
                    }
                }
            }
        } else {
            lemma_order_collect_stmts(c, i, field, j + 1, a);
        }
    }
}

/// Order preservation for argument lists and list literals.
pub proof fn lemma_order_collect_exprs(c: Seq<CstNodeV>, i: int, field: Seq<char>, j: int, a: Seq<EntryV>)
    requires
        wf_nodes(c),
        spans_nested(c),
    ensures
        ({
            let (af, rf) = collect_exprs(c, i, field, j, a);
            rf is Ok && af.len() <= usize::MAX ==> {
                let ids = rf->Ok_0;
                let targets = matching_targets(c[i].children, field, j);
                &&& ids.len() == targets.len()
                &&& forall|p: int| 0 <= p < ids.len() ==> a.len() <= id_int(#[trigger] ids[p].0) < af.len()
                &&& forall|p: int, q: int|
                    0 <= p < q < ids.len() ==> id_int(ids[p].0) < id_int(ids[q].0)
                &&& forall|p: int| 0 <= p < ids.len() ==> span_within(
                    af[id_int(#[trigger] ids[p].0)].info,
                    span_of(c[targets[p]]),
                )
            }
        }),
    decreases i, 1int, (if in_range(c, i) { c[i].children.len() - j } else { 0 }),
{
    if in_range(c, i) && 0 <= j < c[i].children.len() {
        if c[i].children[j].field_name == Some(field) {
            let t = c[i].children[j].target;
            if 0 <= t < i {
                ret_expr(c, t, a);
                span_cov_expr(c, t, a);
                let a1 = lower_expr_at(c, t, a).0;
                if lower_expr_at(c, t, a).1 is Ok {
                    lemma_order_collect_exprs(c, i, field, j + 1, a1);
                    span_cov_collect_exprs(c, i, field, j + 1, a1);
                    let id0 = lower_expr_at(c, t, a).1->Ok_0;
                    let (af, rf) = collect_exprs(c, i, field, j + 1, a1);
                    if rf is Ok && af.len() <= usize::MAX {
                        let rest = rf->Ok_0;
                        let ids = seq![id0] + rest;
                        let targets = seq![t] + matching_targets(c[i].children, field, j + 1);
                        assert forall|p: int| 0 <= p < ids.len() implies span_within(
                            af[id_int(ids[p].0)].info,
                            span_of(c[targets[p]]),
                        ) by {
                            if p == 0 {
                                assert(ids[0] == id0);
                                assert(targets[0] == t);
                                assert(a.len() <= id_int(id0.0) < a1.len());
                                assert(af[id_int(id0.0)] == a1[id_int(id0.0)]);
                                assert(span_within(a1[id_int(id0.0)].info, span_of(c[t])));
                            } else {
                                assert(ids[p] == rest[p - 1]);
                                assert(targets[p] == (matching_targets(c[i].children, field, j + 1))[p - 1]);
                            }
                        }
                    }
                }
            }
        } else {
            lemma_order_collect_exprs(c, i, field, j + 1, a);
        }
    }
}

/// Order preservation for parameter lists.
pub proof fn lemma_order_collect_params(c: Seq<CstNodeV>, i: int, j: int, a: Seq<EntryV>)
    requires
        wf_nodes(c),
        spans_nested(c),
    ensures
        ({
            let (af, rf) = collect_params(c, i, j, a);
            rf is Ok && af.len() <= usize::MAX ==> {
                let ids = rf->Ok_0;
                let targets = matching_targets(c[i].children, "param"@, j);
                &&& ids.len() == targets.len()
                &&& forall|p: int| 0 <= p < ids.len() ==> a.len() <= id_int(#[trigger] ids[p].0) < af.len()
                &&& forall|p: int, q: int|
                    0 <= p < q < ids.len() ==> id_int(ids[p].0) < id_int(ids[q].0)
                &&& forall|p: int| 0 <= p < ids.len() ==> span_within(
                    af[id_int(#[trigger] ids[p].0)].info,
                    span_of(c[targets[p]]),
                )
            }
        }),
    decreases i, 1int, (if in_range(c, i) { c[i].children.len() - j } else { 0 }),
{
    if in_range(c, i) && 0 <= j < c[i].children.len() {
        if c[i].children[j].field_name == Some("param"@) {
            let t = c[i].children[j].target;
            if 0 <= t < i {
                ret_function_param(c, t, a);
                span_cov_function_param(c, t, a);
                let a1 = lower_function_param_at(c, t, a).0;
                if lower_function_param_at(c, t, a).1 is Ok {
                    lemma_order_collect_params(c, i, j + 1, a1);
                    span_cov_collect_params(c, i, j + 1, a1);
                    let id0 = lower_function_param_at(c, t, a).1->Ok_0;
                    let (af, rf) = collect_params(c, i, j + 1, a1);
                    if rf is Ok && af.len() <= usize::MAX {
                        let rest = rf->Ok_0;
                        let ids = seq![id0] + rest;
                        let targets = seq![t] + matching_targets(c[i].children, "param"@, j + 1);
                        assert forall|p: int| 0 <= p < ids.len() implies span_within(
                            af[id_int(ids[p].0)].info,
                            span_of(c[targets[p]]),
                        ) by {
                            if p == 0 {
                                assert(ids[0] == id0);
                                assert(targets[0] == t);
                                assert(a.len() <= id_int(id0.0) < a1.len());
                                assert(af[id_int(id0.0)] == a1[id_int(id0.0)]);
                                assert(span_within(a1[id_int(id0.0)].info, span_of(c[t])));
                            } else {
                                assert(ids[p] == rest[p - 1]);
                                assert(targets[p] == (matching_targets(c[i].children, "param"@, j + 1))[p - 1]);
                            }
                        }
                    }
                }
            }
        } else {
            lemma_order_collect_params(c, i, j + 1, a);
        }
    }
}

/// Order preservation for the top-level declarations: one identifier per
/// direct child of the program node, in source order.
pub proof fn lemma_order_collect_defs(c: Seq<CstNodeV>, i: int, j: int, a: Seq<EntryV>)
    requires
        wf_nodes(c),
        spans_nested(c),
    ensures
        ({
            let (af, rf) = collect_defs(c, i, j, a);
            rf is Ok && af.len() <= usize::MAX ==> {
                let ids = rf->Ok_0;
                let targets = child_targets(c[i].children, j);
                &&& ids.len() == targets.len()
                &&& 0 <= j <= c[i].children.len() ==> ids.len() == c[i].children.len() - j
                &&& forall|p: int| 0 <= p < ids.len() ==> a.len() <= id_int(#[trigger] ids[p].0) < af.len()
                &&& forall|p: int, q: int|
                    0 <= p < q < ids.len() ==> id_int(ids[p].0) < id_int(ids[q].0)
                &&& forall|p: int| 0 <= p < ids.len() ==> span_within(
                    af[id_int(#[trigger] ids[p].0)].info,
                    span_of(c[targets[p]]),
                )
            }
        }),
    decreases i, 1int, (if in_range(c, i) { c[i].children.len() - j } else { 0 }),
{
    if in_range(c, i) && 0 <= j <= c[i].children.len() {
        lemma_child_targets_len(c[i].children, j);
    }
    if in_range(c, i) && 0 <= j < c[i].children.len() {
        let t = c[i].children[j].target;
        if 0 <= t < i {
            ret_scope_def(c, t, a);
            span_cov_scope_def(c, t, a);
            let a1 = lower_scope_def_at(c, t, a).0;
            if lower_scope_def_at(c, t, a).1 is Ok {
                lemma_order_collect_defs(c, i, j + 1, a1);
                span_cov_collect_defs(c, i, j + 1, a1);
                let id0 = lower_scope_def_at(c, t, a).1->Ok_0;
                let (af, rf) = collect_defs(c, i, j + 1, a1);
                if rf is Ok && af.len() <= usize::MAX {
                    let rest = rf->Ok_0;
                    let ids = seq![id0] + rest;
                    let targets = seq![t] + child_targets(c[i].children, j + 1);
                    assert forall|p: int| 0 <= p < ids.len() implies span_within(
                        af[id_int(ids[p].0)].info,
                        span_of(c[targets[p]]),
                    ) by {
                        if p == 0 {
                            assert(ids[0] == id0);
                            assert(targets[0] == t);
                            assert(a.len() <= id_int(id0.0) < a1.len());
                            assert(af[id_int(id0.0)] == a1[id_int(id0.0)]);
                            assert(span_within(a1[id_int(id0.0)].info, span_of(c[t])));
                        } else {
                            assert(ids[p] == rest[p - 1]);
                            assert(targets[p] == (child_targets(c[i].children, j + 1))[p - 1]);
                        }
                    }
                }
            }
        }
    }
}

/// Order preservation at the program level: a successful lowering of a
/// program node yields exactly one scope-definition identifier per
/// direct child, in source order, with strictly increasing, freshly
/// issued slots.
pub proof fn lemma_program_order_preservation(c: Seq<CstNodeV>, i: int, a: Seq<EntryV>)
    requires
        wf_nodes(c),
        spans_nested(c),
    ensures
        ({
            let (af, rf) = lower_program_at(c, i, a);
            rf is Ok && af.len() <= usize::MAX ==> {
                let defs = rf->Ok_0;
                &&& defs.len() == c[i].children.len()
                &&& forall|p: int| 0 <= p < defs.len() ==> a.len() <= id_int(#[trigger] defs[p].0) < af.len()
                &&& forall|p: int, q: int|
                    0 <= p < q < defs.len() ==> id_int(defs[p].0) < id_int(defs[q].0)
            }
        }),
    decreases i, 2int, 1int,
{
    if in_range(c, i) {
        lemma_order_collect_defs(c, i, 0, a);
    }
}

/// Round-trip span coverage: when the parse tree's child spans nest
/// within their parents' spans, every arena entry emitted while lowering
/// the program node carries a span within the program node's span — and,
/// by the per-family lemmas above, every entry emitted while lowering
/// any node lies within that node's own span, hence within the span of
/// the emitted node's immediate syntactic parent.
pub proof fn lemma_program_span_coverage(c: Seq<CstNodeV>, i: int, a: Seq<EntryV>)
    requires
        wf_nodes(c),
        spans_nested(c),
    ensures
        added_within(c, i, a, lower_program_at(c, i, a).0),
    decreases i, 2int, 1int,
{
    if in_range(c, i) {
        let n = c[i];
        if n.kind == "program"@ && !node_invalid(n) {
            span_cov_collect_defs(c, i, 0, a);
        }
    }
}

/// Every identifier stored inside the payload addresses a slot strictly
/// below `k`: the payload only references nodes created before it.
pub open spec fn node_refs_below(node: crate::ast::NodeV, k: int) -> bool {
    match node {
        crate::ast::NodeV::ScopeDef(d) => match d {
            crate::ast::ScopeDefV::Function { name, params, return_type, body } => {
                &&& id_int(name.0) < k
                &&& id_int(return_type.0) < k
                &&& forall|p: int| 0 <= p < params.len() ==> id_int(#[trigger] params[p].0) < k
                &&& forall|p: int| 0 <= p < body.len() ==> id_int(#[trigger] body[p].0) < k
            },
        },
        crate::ast::NodeV::Statement(s) => match s {
            crate::ast::StatementV::Expression { expr } => id_int(expr.0) < k,
            crate::ast::StatementV::VarDecl { name, type_expr, init_expr, .. } => {
                &&& id_int(name.0) < k
                &&& id_int(type_expr.0) < k
                &&& init_expr matches Some(e) ==> id_int(e.0) < k
            },
            crate::ast::StatementV::If { cond_expr, then_block, else_body } => {
                &&& id_int(cond_expr.0) < k
                &&& forall|p: int|
                    0 <= p < then_block.len() ==> id_int(#[trigger] then_block[p].0) < k
                &&& else_body matches Some(b) ==> forall|p: int|
                    0 <= p < b.len() ==> id_int(#[trigger] b[p].0) < k
            },
            crate::ast::StatementV::While { cond_expr, body_block } => {
                &&& id_int(cond_expr.0) < k
                &&& forall|p: int|
                    0 <= p < body_block.len() ==> id_int(#[trigger] body_block[p].0) < k
            },
            crate::ast::StatementV::ForEach { item, iter_expr, body_block } => {
                &&& id_int(item.0) < k
                &&& id_int(iter_expr.0) < k
                &&& forall|p: int|
                    0 <= p < body_block.len() ==> id_int(#[trigger] body_block[p].0) < k
            },
            crate::ast::StatementV::Return { expr } => expr matches Some(e) ==> id_int(e.0) < k,
            crate::ast::StatementV::Continue => true,
            crate::ast::StatementV::Break => true,
        },
        crate::ast::NodeV::Expression(e) => match e {
            crate::ast::ExpressionV::IntegerLiteral { .. } => true,
            crate::ast::ExpressionV::DecimalLiteral { .. } => true,
            crate::ast::ExpressionV::StringLiteral { .. } => true,
            crate::ast::ExpressionV::BooleanLiteral { .. } => true,
            crate::ast::ExpressionV::ListLiteral { values } => forall|p: int|
                0 <= p < values.len() ==> id_int(#[trigger] values[p].0) < k,
            crate::ast::ExpressionV::Identifier { node_id } => id_int(node_id.0) < k,
            crate::ast::ExpressionV::Call { callee, args } => {
                &&& id_int(callee.0) < k
                &&& forall|p: int| 0 <= p < args.len() ==> id_int(#[trigger] args[p].0) < k
            },
            crate::ast::ExpressionV::Access { object, field_name } => {
                &&& id_int(object.0) < k
                &&& id_int(field_name.0) < k
            },
            crate::ast::ExpressionV::BinaryOprt { left, right, .. } => {
                &&& id_int(left.0) < k
                &&& id_int(right.0) < k
            },
            crate::ast::ExpressionV::UnaryOprt { operand, .. } => id_int(operand.0) < k,
            crate::ast::ExpressionV::Assign { target, value } => {
                &&& id_int(target.0) < k
                &&& id_int(value.0) < k
            },
        },
        crate::ast::NodeV::TypeExpr(t) => match t {
            crate::ast::TypeExprV::RawType { name } => id_int(name.0) < k,
            crate::ast::TypeExprV::TemplateType { name, type_args } => {
                &&& id_int(name.0) < k
                &&& forall|p: int|
                    0 <= p < type_args.len() ==> id_int(#[trigger] type_args[p].0) < k
            },
            crate::ast::TypeExprV::RefType { type_expr, .. } => id_int(type_expr.0) < k,
            crate::ast::TypeExprV::CompType { type_expr, .. } => id_int(type_expr.0) < k,
        },
        crate::ast::NodeV::Identifier(_) => true,
        crate::ast::NodeV::FunctionParam(p) => {
            &&& id_int(p.name.0) < k
            &&& id_int(p.type_expr.0) < k
        },
        crate::ast::NodeV::ForEachDecl(d) => id_int(d.name.0) < k,
    }
}

/// The arena invariant: every entry only references slots created
/// strictly before it, so the stored graph is acyclic and every stored
/// identifier addresses an existing entry.
pub open spec fn entries_wf(a: Seq<EntryV>) -> bool {
    forall|k: int| 0 <= k < a.len() ==> node_refs_below(#[trigger] a[k].node, k)
}

/// Template-type arguments are collected under strictly increasing,
/// freshly issued identifiers.
pub proof fn lemma_order_collect_template_args(c: Seq<CstNodeV>, i: int, j: int, a: Seq<EntryV>)
    requires
        wf_nodes(c),
        spans_nested(c),
    ensures
        ({
            let (af, rf) = collect_template_args(c, i, j, a);
            rf is Ok && af.len() <= usize::MAX ==> {
                let ids = rf->Ok_0;
                &&& forall|p: int| 0 <= p < ids.len() ==> a.len() <= id_int(#[trigger] ids[p].0) < af.len()
                &&& forall|p: int, q: int|
                    0 <= p < q < ids.len() ==> id_int(ids[p].0) < id_int(ids[q].0)
            }
        }),
    decreases i, 1int, (if in_range(c, i) { c[i].children.len() - j } else { 0 }),
{
    if in_range(c, i) && 0 <= j < c[i].children.len() {
        let t = c[i].children[j].target;
        if 0 <= t < i {
            if c[t].kind == "arg"@ {
                ret_type_expr(c, t, a);
                span_cov_type_expr(c, t, a);
                let a1 = lower_type_expr_at(c, t, a).0;
                if lower_type_expr_at(c, t, a).1 is Ok {
                    lemma_order_collect_template_args(c, i, j + 1, a1);
                    span_cov_collect_template_args(c, i, j + 1, a1);
                }
            } else {
                lemma_order_collect_template_args(c, i, j + 1, a);
            }
        }
    }
}

pub proof fn wf_identifier(c: Seq<CstNodeV>, i: int, a: Seq<EntryV>)
    requires
        wf_nodes(c),
        spans_nested(c),
    ensures
        ({
            let (af, rf) = lower_identifier_at(c, i, a);
            entries_wf(a) && af.len() <= usize::MAX ==> entries_wf(af)
        }),
    decreases i, 0int, 0int,
{
}

pub proof fn wf_leaf_exprs(c: Seq<CstNodeV>, i: int, a: Seq<EntryV>)
    requires
        wf_nodes(c),
        spans_nested(c),
    ensures
        ({
            let (af, rf) = lower_decimal_at(c, i, a);
            entries_wf(a) && af.len() <= usize::MAX ==> entries_wf(af)
        }),
        ({
            let (af, rf) = lower_integer_at(c, i, a);
            entries_wf(a) && af.len() <= usize::MAX ==> entries_wf(af)
        }),
        ({
            let (af, rf) = lower_string_at(c, i, a);
            entries_wf(a) && af.len() <= usize::MAX ==> entries_wf(af)
        }),
        ({
            let (af, rf) = lower_bool_at(c, i, a);
            entries_wf(a) && af.len() <= usize::MAX ==> entries_wf(af)
        }),
{
}

pub proof fn wf_leaf_stmts(c: Seq<CstNodeV>, i: int, a: Seq<EntryV>)
    requires
        wf_nodes(c),
        spans_nested(c),
    ensures
        ({
            let (af, rf) = lower_break_at(c, i, a);
            entries_wf(a) && af.len() <= usize::MAX ==> entries_wf(af)
        }),
        ({
            let (af, rf) = lower_continue_at(c, i, a);
            entries_wf(a) && af.len() <= usize::MAX ==> entries_wf(af)
        }),
{
}

pub proof fn wf_raw_type(c: Seq<CstNodeV>, i: int, a: Seq<EntryV>)
    requires
        wf_nodes(c),
        spans_nested(c),
    ensures
        ({
            let (af, rf) = lower_raw_type_at(c, i, a);
            entries_wf(a) && af.len() <= usize::MAX ==> entries_wf(af)
        }),
    decreases i, 2int, 0int,
{
    if in_range(c, i) {
        let n = c[i];
        if field_target(n, "name"@) is Some {
            let t = field_target(n, "name"@)->Some_0;
            wf_identifier(c, t, a);
            ret_identifier(c, t, a);
            span_cov_identifier(c, t, a);
        }
    }
}

pub proof fn wf_collect_template_args(c: Seq<CstNodeV>, i: int, j: int, a: Seq<EntryV>)
    requires
        wf_nodes(c),
        spans_nested(c),
    ensures
        ({
            let (af, rf) = collect_template_args(c, i, j, a);
            entries_wf(a) && af.len() <= usize::MAX ==> entries_wf(af)
        }),
    decreases i, 1int, (if in_range(c, i) { c[i].children.len() - j } else { 0 }),
{
    if in_range(c, i) && 0 <= j < c[i].children.len() {
        let t = c[i].children[j].target;
        if 0 <= t < i {
            if c[t].kind == "arg"@ {
                wf_type_expr(c, t, a);
                span_cov_type_expr(c, t, a);
                let a1 = lower_type_expr_at(c, t, a).0;
                if lower_type_expr_at(c, t, a).1 is Ok {
                    wf_collect_template_args(c, i, j + 1, a1);
                    span_cov_collect_template_args(c, i, j + 1, a1);
                }
            } else {
                wf_collect_template_args(c, i, j + 1, a);
            }
        }
    }
}

pub proof fn wf_template_type(c: Seq<CstNodeV>, i: int, a: Seq<EntryV>)
    requires
        wf_nodes(c),
        spans_nested(c),
    ensures
        ({
            let (af, rf) = lower_template_type_at(c, i, a);
            entries_wf(a) && af.len() <= usize::MAX ==> entries_wf(af)
        }),
    decreases i, 2int, 0int,
{
    if in_range(c, i) {
        let n = c[i];
        if field_target(n, "name"@) is Some {
            let t = field_target(n, "name"@)->Some_0;
            wf_identifier(c, t, a);
            ret_identifier(c, t, a);
            span_cov_identifier(c, t, a);
            let a1 = lower_identifier_at(c, t, a).0;
            wf_collect_template_args(c, i, 0, a1);
            span_cov_collect_template_args(c, i, 0, a1);
            lemma_order_collect_template_args(c, i, 0, a1);
        }
    }
}

pub proof fn wf_ref_type(c: Seq<CstNodeV>, i: int, a: Seq<EntryV>)
    requires
        wf_nodes(c),
        spans_nested(c),
    ensures
        ({
            let (af, rf) = lower_ref_type_at(c, i, a);
            entries_wf(a) && af.len() <= usize::MAX ==> entries_wf(af)
        }),
    decreases i, 2int, 0int,
{
    if in_range(c, i) {
        let n = c[i];
        if field_target(n, "type"@) is Some {
            let t = field_target(n, "type"@)->Some_0;
            if 0 <= t < i {
                wf_type_expr(c, t, a);
                ret_type_expr(c, t, a);
                span_cov_type_expr(c, t, a);
            }
        }
    }
}

pub proof fn wf_comp_type(c: Seq<CstNodeV>, i: int, a: Seq<EntryV>)
    requires
        wf_nodes(c),
        spans_nested(c),
    ensures
        ({
            let (af, rf) = lower_comp_type_at(c, i, a);
            entries_wf(a) && af.len() <= usize::MAX ==> entries_wf(af)
        }),
    decreases i, 2int, 0int,
{
    if in_range(c, i) {
        let n = c[i];
        if field_target(n, "type"@) is Some {
            let t = field_target(n, "type"@)->Some_0;
            if 0 <= t < i {
                wf_type_expr(c, t, a);
                ret_type_expr(c, t, a);
                span_cov_type_expr(c, t, a);
            }
        }
    }
}

pub proof fn wf_type_expr(c: Seq<CstNodeV>, i: int, a: Seq<EntryV>)
    requires
        wf_nodes(c),
        spans_nested(c),
    ensures
        ({
            let (af, rf) = lower_type_expr_at(c, i, a);
            entries_wf(a) && af.len() <= usize::MAX ==> entries_wf(af)
        }),
    decreases i, 3int, 0int,
{
    if in_range(c, i) {
        let n = c[i];
        if n.kind == "raw_type"@ {
            wf_raw_type(c, i, a);
        } else if n.kind == "template_type"@ {
            wf_template_type(c, i, a);
        } else if n.kind == "ref_type"@ {
            wf_ref_type(c, i, a);
        } else if n.kind == "comp_type"@ {
            wf_comp_type(c, i, a);
        }
    }
}

pub proof fn wf_binary_expr(c: Seq<CstNodeV>, i: int, a: Seq<EntryV>)
    requires
        wf_nodes(c),
        spans_nested(c),
    ensures
        ({
            let (af, rf) = lower_binary_expr_at(c, i, a);
            entries_wf(a) && af.len() <= usize::MAX ==> entries_wf(af)
        }),
    decreases i, 2int, 0int,
{
    if in_range(c, i) {
        let n = c[i];
        if field_target(n, "lhs"@) is Some {
            let t_l = field_target(n, "lhs"@)->Some_0;
            if 0 <= t_l < i {
                wf_expr(c, t_l, a);
                ret_expr(c, t_l, a);
                span_cov_expr(c, t_l, a);
                if field_target(n, "rhs"@) is Some {
                    let t_r = field_target(n, "rhs"@)->Some_0;
                    let a1 = lower_expr_at(c, t_l, a).0;
                    if 0 <= t_r < i {
                        wf_expr(c, t_r, a1);
                        ret_expr(c, t_r, a1);
                        span_cov_expr(c, t_r, a1);
                    }
                }
            }
        }
    }
}

pub proof fn wf_unary_expr(c: Seq<CstNodeV>, i: int, a: Seq<EntryV>)
    requires
        wf_nodes(c),
        spans_nested(c),
    ensures
        ({
            let (af, rf) = lower_unary_expr_at(c, i, a);
            entries_wf(a) && af.len() <= usize::MAX ==> entries_wf(af)
        }),
    decreases i, 2int, 0int,
{
    if in_range(c, i) {
        let n = c[i];
        if field_target(n, "value"@) is Some {
            let t_v = field_target(n, "value"@)->Some_0;
            if 0 <= t_v < i {
                wf_expr(c, t_v, a);
                ret_expr(c, t_v, a);
                span_cov_expr(c, t_v, a);
            }
        }
    }
}

pub proof fn wf_access_expr(c: Seq<CstNodeV>, i: int, a: Seq<EntryV>)
    requires
        wf_nodes(c),
        spans_nested(c),
    ensures
        ({
            let (af, rf) = lower_access_expr_at(c, i, a);
            entries_wf(a) && af.len() <= usize::MAX ==> entries_wf(af)
        }),
    decreases i, 2int, 0int,
{
    if in_range(c, i) {
        let n = c[i];
        if field_target(n, "object"@) is Some {
            let t_o = field_target(n, "object"@)->Some_0;
            if 0 <= t_o < i {
                wf_expr(c, t_o, a);
                ret_expr(c, t_o, a);
                span_cov_expr(c, t_o, a);
                if field_target(n, "item"@) is Some {
                    let t_i = field_target(n, "item"@)->Some_0;
                    let a1 = lower_expr_at(c, t_o, a).0;
                    wf_identifier(c, t_i, a1);
                    ret_identifier(c, t_i, a1);
                    span_cov_identifier(c, t_i, a1);
                }
            }
        }
    }
}

pub proof fn wf_collect_exprs(c: Seq<CstNodeV>, i: int, field: Seq<char>, j: int, a: Seq<EntryV>)
    requires
        wf_nodes(c),
        spans_nested(c),
    ensures
        ({
            let (af, rf) = collect_exprs(c, i, field, j, a);
            entries_wf(a) && af.len() <= usize::MAX ==> entries_wf(af)
        }),
    decreases i, 1int, (if in_range(c, i) { c[i].children.len() - j } else { 0 }),
{
    if in_range(c, i) && 0 <= j < c[i].children.len() {
        if c[i].children[j].field_name == Some(field) {
            let t = c[i].children[j].target;
            if 0 <= t < i {
                wf_expr(c, t, a);
                span_cov_expr(c, t, a);
                let a1 = lower_expr_at(c, t, a).0;
                if lower_expr_at(c, t, a).1 is Ok {
                    wf_collect_exprs(c, i, field, j + 1, a1);
                    span_cov_collect_exprs(c, i, field, j + 1, a1);
                }
            }
        } else {
            wf_collect_exprs(c, i, field, j + 1, a);
        }
    }
}

pub proof fn wf_call_expr(c: Seq<CstNodeV>, i: int, a: Seq<EntryV>)
    requires
        wf_nodes(c),
        spans_nested(c),
    ensures
        ({
            let (af, rf) = lower_call_expr_at(c, i, a);
            entries_wf(a) && af.len() <= usize::MAX ==> entries_wf(af)
        }),
    decreases i, 2int, 0int,
{
    if in_range(c, i) {
        let n = c[i];
        if field_target(n, "function"@) is Some {
            let t_f = field_target(n, "function"@)->Some_0;
            if 0 <= t_f < i {
                wf_expr(c, t_f, a);
                ret_expr(c, t_f, a);
                span_cov_expr(c, t_f, a);
                let a1 = lower_expr_at(c, t_f, a).0;
                wf_collect_exprs(c, i, "arg"@, 0, a1);
                span_cov_collect_exprs(c, i, "arg"@, 0, a1);
                lemma_order_collect_exprs(c, i, "arg"@, 0, a1);
            }
        }
    }
}

pub proof fn wf_parem_expr(c: Seq<CstNodeV>, i: int, a: Seq<EntryV>)
    requires
        wf_nodes(c),
        spans_nested(c),
    ensures
        ({
            let (af, rf) = lower_parem_expr_at(c, i, a);
            entries_wf(a) && af.len() <= usize::MAX ==> entries_wf(af)
        }),
    decreases i, 2int, 0int,
{
    if in_range(c, i) {
        let n = c[i];
        if field_target(n, "expression"@) is Some {
            let t = field_target(n, "expression"@)->Some_0;
            if 0 <= t < i {
                wf_expr(c, t, a);
            }
        }
    }
}

pub proof fn wf_identifier_expr(c: Seq<CstNodeV>, i: int, a: Seq<EntryV>)
    requires
        wf_nodes(c),
        spans_nested(c),
    ensures
        ({
            let (af, rf) = lower_identifier_expr_at(c, i, a);
            entries_wf(a) && af.len() <= usize::MAX ==> entries_wf(af)
        }),
    decreases i, 2int, 0int,
{
    if in_range(c, i) {
        wf_identifier(c, i, a);
        ret_identifier(c, i, a);
        span_cov_identifier(c, i, a);
    }
}

pub proof fn wf_list(c: Seq<CstNodeV>, i: int, a: Seq<EntryV>)
    requires
        wf_nodes(c),
        spans_nested(c),
    ensures
        ({
            let (af, rf) = lower_list_at(c, i, a);
            entries_wf(a) && af.len() <= usize::MAX ==> entries_wf(af)
        }),
    decreases i, 2int, 0int,
{
    if in_range(c, i) {
        wf_collect_exprs(c, i, "item"@, 0, a);
        span_cov_collect_exprs(c, i, "item"@, 0, a);
        lemma_order_collect_exprs(c, i, "item"@, 0, a);
    }
}

pub proof fn wf_expr(c: Seq<CstNodeV>, i: int, a: Seq<EntryV>)
    requires
        wf_nodes(c),
        spans_nested(c),
    ensures
        ({
            let (af, rf) = lower_expr_at(c, i, a);
            entries_wf(a) && af.len() <= usize::MAX ==> entries_wf(af)
        }),
    decreases i, 3int, 0int,
{
    if in_range(c, i) {
        let n = c[i];
        if n.kind == "binary_expr"@ {
            wf_binary_expr(c, i, a);
        } else if n.kind == "unary_expr"@ {
            wf_unary_expr(c, i, a);
        } else if n.kind == "access_expr"@ {
            wf_access_expr(c, i, a);
        } else if n.kind == "call_expr"@ {
            wf_call_expr(c, i, a);
        } else if n.kind == "parem_expr"@ {
            wf_parem_expr(c, i, a);
        } else if n.kind == "identifier"@ {
            wf_identifier_expr(c, i, a);
        } else if n.kind == "list"@ {
            wf_list(c, i, a);
        } else {
            wf_leaf_exprs(c, i, a);
        }
    }
}

pub proof fn wf_return(c: Seq<CstNodeV>, i: int, a: Seq<EntryV>)
    requires
        wf_nodes(c),
        spans_nested(c),
    ensures
        ({
            let (af, rf) = lower_return_at(c, i, a);
            entries_wf(a) && af.len() <= usize::MAX ==> entries_wf(af)
        }),
    decreases i, 2int, 0int,
{
    if in_range(c, i) {
        let n = c[i];
        if field_target(n, "return_expr"@) is Some {
            let t = field_target(n, "return_expr"@)->Some_0;
            if 0 <= t < i {
                wf_expr(c, t, a);
                ret_expr(c, t, a);
                span_cov_expr(c, t, a);
            }
        }
    }
}

pub proof fn wf_for_item(c: Seq<CstNodeV>, i: int, a: Seq<EntryV>)
    requires
        wf_nodes(c),
        spans_nested(c),
    ensures
        ({
            let (af, rf) = lower_for_item_at(c, i, a);
            entries_wf(a) && af.len() <= usize::MAX ==> entries_wf(af)
        }),
    decreases i, 2int, 0int,
{
    if in_range(c, i) {
        let n = c[i];
        if field_target(n, "name"@) is Some {
            let t = field_target(n, "name"@)->Some_0;
            wf_identifier(c, t, a);
            ret_identifier(c, t, a);
            span_cov_identifier(c, t, a);
        }
    }
}

pub proof fn wf_collect_stmts(c: Seq<CstNodeV>, i: int, field: Seq<char>, j: int, a: Seq<EntryV>)
    requires
        wf_nodes(c),
        spans_nested(c),
    ensures
        ({
            let (af, rf) = collect_stmts(c, i, field, j, a);
            entries_wf(a) && af.len() <= usize::MAX ==> entries_wf(af)
        }),
    decreases i, 1int, (if in_range(c, i) { c[i].children.len() - j } else { 0 }),
{
    if in_range(c, i) && 0 <= j < c[i].children.len() {
        if c[i].children[j].field_name == Some(field) {
            let t = c[i].children[j].target;
            if 0 <= t < i {
                wf_stmt(c, t, a);
                span_cov_stmt(c, t, a);
                let a1 = lower_stmt_at(c, t, a).0;
                if lower_stmt_at(c, t, a).1 is Ok {
                    wf_collect_stmts(c, i, field, j + 1, a1);
                    span_cov_collect_stmts(c, i, field, j + 1, a1);
                }
            }
        } else {
            wf_collect_stmts(c, i, field, j + 1, a);
        }
    }
}

pub proof fn wf_for_each(c: Seq<CstNodeV>, i: int, a: Seq<EntryV>)
    requires
        wf_nodes(c),
        spans_nested(c),
    ensures
        ({
            let (af, rf) = lower_for_each_at(c, i, a);
            entries_wf(a) && af.len() <= usize::MAX ==> entries_wf(af)
        }),
    decreases i, 2int, 1int,
{
    if in_range(c, i) {
        let n = c[i];
        if field_target(n, "item"@) is Some {
            let t_item = field_target(n, "item"@)->Some_0;
            if 0 <= t_item < i {
                wf_for_item(c, t_item, a);
                ret_for_item(c, t_item, a);
                span_cov_for_item(c, t_item, a);
                if field_target(n, "iterator"@) is Some {
                    let t_it = field_target(n, "iterator"@)->Some_0;
                    let a1 = lower_for_item_at(c, t_item, a).0;
                    if 0 <= t_it < i {
                        wf_expr(c, t_it, a1);
                        ret_expr(c, t_it, a1);
                        span_cov_expr(c, t_it, a1);
                        let a2 = lower_expr_at(c, t_it, a1).0;
                        wf_collect_stmts(c, i, "body"@, 0, a2);
                        span_cov_collect_stmts(c, i, "body"@, 0, a2);
                        lemma_order_collect_stmts(c, i, "body"@, 0, a2);
                    }
                }
            }
        }
    }
}

pub proof fn wf_while(c: Seq<CstNodeV>, i: int, a: Seq<EntryV>)
    requires
        wf_nodes(c),
        spans_nested(c),
    ensures
        ({
            let (af, rf) = lower_while_at(c, i, a);
            entries_wf(a) && af.len() <= usize::MAX ==> entries_wf(af)
        }),
    decreases i, 2int, 1int,
{
    if in_range(c, i) {
        let n = c[i];
        if field_target(n, "condition"@) is Some {
            let t_c = field_target(n, "condition"@)->Some_0;
            if 0 <= t_c < i {
                wf_expr(c, t_c, a);
                ret_expr(c, t_c, a);
                span_cov_expr(c, t_c, a);
                let a1 = lower_expr_at(c, t_c, a).0;
                wf_collect_stmts(c, i, "body"@, 0, a1);
                span_cov_collect_stmts(c, i, "body"@, 0, a1);
                lemma_order_collect_stmts(c, i, "body"@, 0, a1);
            }
        }
    }
}

pub proof fn wf_conditional(c: Seq<CstNodeV>, i: int, a: Seq<EntryV>)
    requires
        wf_nodes(c),
        spans_nested(c),
    ensures
        ({
            let (af, rf) = lower_conditional_at(c, i, a);
            entries_wf(a) && af.len() <= usize::MAX ==> entries_wf(af)
        }),
    decreases i, 2int, 1int,
{
    if in_range(c, i) {
        let n = c[i];
        if field_target(n, "condition"@) is Some {
            let t_c = field_target(n, "condition"@)->Some_0;
            if 0 <= t_c < i {
                wf_expr(c, t_c, a);
                ret_expr(c, t_c, a);
                span_cov_expr(c, t_c, a);
                let a1 = lower_expr_at(c, t_c, a).0;
                wf_collect_stmts(c, i, "then_body"@, 0, a1);
                span_cov_collect_stmts(c, i, "then_body"@, 0, a1);
                lemma_order_collect_stmts(c, i, "then_body"@, 0, a1);
                let a2 = collect_stmts(c, i, "then_body"@, 0, a1).0;
                wf_collect_stmts(c, i, "else_body"@, 0, a2);
                span_cov_collect_stmts(c, i, "else_body"@, 0, a2);
                lemma_order_collect_stmts(c, i, "else_body"@, 0, a2);
            }
        }
    }
}

pub proof fn wf_var_decl(c: Seq<CstNodeV>, i: int, a: Seq<EntryV>)
    requires
        wf_nodes(c),
        spans_nested(c),
    ensures
        ({
            let (af, rf) = lower_var_decl_at(c, i, a);
            entries_wf(a) && af.len() <= usize::MAX ==> entries_wf(af)
        }),
    decreases i, 2int, 0int,
{
    if in_range(c, i) {
        let n = c[i];
        if field_target(n, "name"@) is Some {
            let t_n = field_target(n, "name"@)->Some_0;
            wf_identifier(c, t_n, a);
            ret_identifier(c, t_n, a);
            span_cov_identifier(c, t_n, a);
            if field_target(n, "type"@) is Some {
                let t_t = field_target(n, "type"@)->Some_0;
                let a1 = lower_identifier_at(c, t_n, a).0;
                if 0 <= t_t < i {
                    wf_type_expr(c, t_t, a1);
                    ret_type_expr(c, t_t, a1);
                    span_cov_type_expr(c, t_t, a1);
                    if field_target(n, "initializer"@) is Some {
                        let t_i = field_target(n, "initializer"@)->Some_0;
                        let a2 = lower_type_expr_at(c, t_t, a1).0;
                        if 0 <= t_i < i {
                            wf_expr(c, t_i, a2);
                            ret_expr(c, t_i, a2);
                            span_cov_expr(c, t_i, a2);
                        }
                    }
                }
            }
        }
    }
}

pub proof fn wf_expr_stmt(c: Seq<CstNodeV>, i: int, a: Seq<EntryV>)
    requires
        wf_nodes(c),
        spans_nested(c),
    ensures
        ({
            let (af, rf) = lower_expr_stmt_at(c, i, a);
            entries_wf(a) && af.len() <= usize::MAX ==> entries_wf(af)
        }),
    decreases i, 2int, 0int,
{
    if in_range(c, i) {
        let n = c[i];
        if field_target(n, "expression"@) is Some {
            let t = field_target(n, "expression"@)->Some_0;
            if 0 <= t < i {
                wf_expr(c, t, a);
                ret_expr(c, t, a);
                span_cov_expr(c, t, a);
            }
        }
    }
}

pub proof fn wf_stmt(c: Seq<CstNodeV>, i: int, a: Seq<EntryV>)
    requires
        wf_nodes(c),
        spans_nested(c),
    ensures
        ({
            let (af, rf) = lower_stmt_at(c, i, a);
            entries_wf(a) && af.len() <= usize::MAX ==> entries_wf(af)
        }),
    decreases i, 3int, 0int,
{
    if in_range(c, i) {
        let n = c[i];
        if n.kind == "return_stmt"@ {
            wf_return(c, i, a);
        } else if n.kind == "for_each_loop"@ {
            wf_for_each(c, i, a);
        } else if n.kind == "while_loop"@ {
            wf_while(c, i, a);
        } else if n.kind == "conditional"@ {
            wf_conditional(c, i, a);
        } else if n.kind == "variable_declaration"@ {
            wf_var_decl(c, i, a);
        } else if n.kind == "expression_stmt"@ {
            wf_expr_stmt(c, i, a);
        } else {
            wf_leaf_stmts(c, i, a);
        }
    }
}

pub proof fn wf_function_param(c: Seq<CstNodeV>, i: int, a: Seq<EntryV>)
    requires
        wf_nodes(c),
        spans_nested(c),
    ensures
        ({
            let (af, rf) = lower_function_param_at(c, i, a);
            entries_wf(a) && af.len() <= usize::MAX ==> entries_wf(af)
        }),
    decreases i, 2int, 0int,
{
    if in_range(c, i) {
        let n = c[i];
        if field_target(n, "name"@) is Some {
            let t_n = field_target(n, "name"@)->Some_0;
            wf_identifier(c, t_n, a);
            ret_identifier(c, t_n, a);
            span_cov_identifier(c, t_n, a);
            if field_target(n, "type"@) is Some {
                let t_t = field_target(n, "type"@)->Some_0;
                let a1 = lower_identifier_at(c, t_n, a).0;
                if 0 <= t_t < i {
                    wf_type_expr(c, t_t, a1);
                    ret_type_expr(c, t_t, a1);
                    span_cov_type_expr(c, t_t, a1);
                }
            }
        }
    }
}

pub proof fn wf_collect_params(c: Seq<CstNodeV>, i: int, j: int, a: Seq<EntryV>)
    requires
        wf_nodes(c),
        spans_nested(c),
    ensures
        ({
            let (af, rf) = collect_params(c, i, j, a);
            entries_wf(a) && af.len() <= usize::MAX ==> entries_wf(af)
        }),
    decreases i, 1int, (if in_range(c, i) { c[i].children.len() - j } else { 0 }),
{
    if in_range(c, i) && 0 <= j < c[i].children.len() {
        if c[i].children[j].field_name == Some("param"@) {
            let t = c[i].children[j].target;
            if 0 <= t < i {
                wf_function_param(c, t, a);
                span_cov_function_param(c, t, a);
                let a1 = lower_function_param_at(c, t, a).0;
                if lower_function_param_at(c, t, a).1 is Ok {
                    wf_collect_params(c, i, j + 1, a1);
                    span_cov_collect_params(c, i, j + 1, a1);
                }
            }
        } else {
            wf_collect_params(c, i, j + 1, a);
        }
    }
}

pub proof fn wf_function(c: Seq<CstNodeV>, i: int, a: Seq<EntryV>)
    requires
        wf_nodes(c),
        spans_nested(c),
    ensures
        ({
            let (af, rf) = lower_function_at(c, i, a);
            entries_wf(a) && af.len() <= usize::MAX ==> entries_wf(af)
        }),
    decreases i, 2int, 1int,
{
    if in_range(c, i) {
        let n = c[i];
        if field_target(n, "name"@) is Some {
            let t_n = field_target(n, "name"@)->Some_0;
            wf_identifier(c, t_n, a);
            ret_identifier(c, t_n, a);
            span_cov_identifier(c, t_n, a);
            let a1 = lower_identifier_at(c, t_n, a).0;
            wf_collect_params(c, i, 0, a1);
            span_cov_collect_params(c, i, 0, a1);
            lemma_order_collect_params(c, i, 0, a1);
            if field_target(n, "return_type"@) is Some {
                let t_r = field_target(n, "return_type"@)->Some_0;
                let a2 = collect_params(c, i, 0, a1).0;
                if 0 <= t_r < i {
                    wf_type_expr(c, t_r, a2);
                    ret_type_expr(c, t_r, a2);
                    span_cov_type_expr(c, t_r, a2);
                    let a3 = lower_type_expr_at(c, t_r, a2).0;
                    wf_collect_stmts(c, i, "body"@, 0, a3);
                    span_cov_collect_stmts(c, i, "body"@, 0, a3);
                    lemma_order_collect_stmts(c, i, "body"@, 0, a3);
                }
            }
        }
    }
}

pub proof fn wf_scope_def(c: Seq<CstNodeV>, i: int, a: Seq<EntryV>)
    requires
        wf_nodes(c),
        spans_nested(c),
    ensures
        ({
            let (af, rf) = lower_scope_def_at(c, i, a);
            entries_wf(a) && af.len() <= usize::MAX ==> entries_wf(af)
        }),
    decreases i, 3int, 0int,
{
    if in_range(c, i) {
        let n = c[i];
        if n.kind == "function"@ {
            wf_function(c, i, a);
        }
    }
}

pub proof fn wf_collect_defs(c: Seq<CstNodeV>, i: int, j: int, a: Seq<EntryV>)
    requires
        wf_nodes(c),
        spans_nested(c),
    ensures
        ({
            let (af, rf) = collect_defs(c, i, j, a);
            entries_wf(a) && af.len() <= usize::MAX ==> entries_wf(af)
        }),
    decreases i, 1int, (if in_range(c, i) { c[i].children.len() - j } else { 0 }),
{
    if in_range(c, i) && 0 <= j < c[i].children.len() {
        let t = c[i].children[j].target;
        if 0 <= t < i {
            wf_scope_def(c, t, a);
            span_cov_scope_def(c, t, a);
            let a1 = lower_scope_def_at(c, t, a).0;
            if lower_scope_def_at(c, t, a).1 is Ok {
                wf_collect_defs(c, i, j + 1, a1);
                span_cov_collect_defs(c, i, j + 1, a1);
            }
        }
    }
}

/// The arena invariant at the whole-tree entry point: every entry of a
/// successful lowering only references slots created strictly before it,
/// so every stored identifier addresses an existing entry and the stored
/// graph is acyclic.
pub proof fn lemma_tso_references_exist(c: Seq<CstNodeV>, root: int)
    requires
        spans_nested(c),
    ensures
        lower_tso(c, root) matches Ok(astv) ==> astv.entries.len() <= usize::MAX
            ==> entries_wf(astv.entries),
{
    if wf_nodes(c) && 0 <= root < c.len() {
        wf_collect_defs(c, root, 0, Seq::<EntryV>::empty());
        assert(entries_wf(Seq::<EntryV>::empty()));
    }
}

/// The laws packaged at the whole-tree entry point.  When lowering a
/// whole parse tree with nested spans succeeds: a program value is
/// always set; it holds exactly one definition per direct child of the
/// root, in source order, under strictly increasing, freshly issued
/// identifiers; and every arena entry carries a span lying within the
/// root's span.
pub proof fn lemma_tso_program_laws(c: Seq<CstNodeV>, root: int)
    requires
        spans_nested(c),
    ensures
        lower_tso(c, root) matches Ok(astv) ==> astv.program is Some,
        lower_tso(c, root) matches Ok(astv) ==> astv.entries.len() <= usize::MAX ==> {
            let defs = lower_program_at(c, root, Seq::<EntryV>::empty()).1->Ok_0;
            &&& astv.program == Some(defs)
            &&& defs.len() == c[root].children.len()
            &&& forall|p: int| 0 <= p < defs.len() ==> 0 <= id_int(#[trigger] defs[p].0)
                < astv.entries.len()
            &&& forall|p: int, q: int|
                0 <= p < q < defs.len() ==> id_int(defs[p].0) < id_int(defs[q].0)
            &&& forall|k: int|
                0 <= k < astv.entries.len() ==> span_within(
                    #[trigger] astv.entries[k].info,
                    span_of(c[root]),
                )
            &&& forall|p: int| 0 <= p < defs.len() ==> span_within(
                astv.entries[id_int(#[trigger] defs[p].0)].info,
                span_of(c[child_targets(c[root].children, 0)[p]]),
            )
        },
{
    if wf_nodes(c) && 0 <= root < c.len() {
        lemma_program_span_coverage(c, root, Seq::<EntryV>::empty());
        lemma_program_order_preservation(c, root, Seq::<EntryV>::empty());
        lemma_order_collect_defs(c, root, 0, Seq::<EntryV>::empty());
    }
}

} // verus!
