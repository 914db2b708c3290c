//! The crate's own model of a concrete parse tree.
//!
//! A parse tree is held flat, arena-style: one vector of nodes, where each
//! node addresses its children by index and every child stands strictly
//! before its parent.  Each node carries the kind tag, the error/missing
//! flags, the source span, the leaf text, and its named child references —
//! exactly what the lowering engine reads.

use vstd::prelude::*;
use crate::ast::LexicalPosition;

verus! {

/// One reference from a parse-tree node to a child: the child's slot in
/// [`Cst::nodes`], and the name of the grammar field it fills, if any.
#[derive(PartialEq, Eq, Clone, Debug)]
pub struct CstChild {
    pub field_name: Option<String>,
    pub target: usize,
}

/// Mathematical model of a [`CstChild`].
pub ghost struct CstChildV {
    pub field_name: Option<Seq<char>>,
    pub target: int,
}

/// One concrete parse-tree node.
#[derive(PartialEq, Eq, Clone, Debug)]
pub struct CstNodeData {
    /// The grammar production this node was parsed as.
    pub kind: String,
    /// True when the parser marked this node as a syntax error.
    pub is_error: bool,
    /// True when the parser inserted this node for a missing token.
    pub is_missing: bool,
    pub start: LexicalPosition,
    pub end: LexicalPosition,
    /// The slice of source text this node covers; meaningful for leaves.
    pub text: String,
    pub children: Vec<CstChild>,
}

/// Mathematical model of a [`CstNodeData`].
pub ghost struct CstNodeV {
    pub kind: Seq<char>,
    pub is_error: bool,
    pub is_missing: bool,
    pub start: LexicalPosition,
    pub end: LexicalPosition,
    pub text: Seq<char>,
    pub children: Seq<CstChildV>,
}

impl View for CstChild {
    type V = CstChildV;

    open spec fn view(&self) -> CstChildV {
        CstChildV {
            field_name: match &self.field_name {
                Some(f) => Some(f@),
                None => None,
            },
            target: self.target as int,
        }
    }
}

impl View for CstNodeData {
    type V = CstNodeV;

    open spec fn view(&self) -> CstNodeV {
        CstNodeV {
            kind: self.kind@,
            is_error: self.is_error,
            is_missing: self.is_missing,
            start: self.start,
            end: self.end,
            text: self.text@,
            children: Seq::new(self.children@.len(), |j: int| self.children@[j]@),
        }
    }
}

/// A whole concrete parse tree: the node store and the root's slot.
#[derive(PartialEq, Eq, Clone, Debug)]
pub struct Cst {
    pub nodes: Vec<CstNodeData>,
    pub root: usize,
}

impl View for Cst {
    type V = Seq<CstNodeV>;

    open spec fn view(&self) -> Seq<CstNodeV> {
        Seq::new(self.nodes@.len(), |i: int| self.nodes@[i]@)
    }
}

/// Every child reference points strictly below its parent's slot, so the
/// tree is acyclic and all child indices are in bounds.
pub open spec fn wf_nodes(c: Seq<CstNodeV>) -> bool {
    forall|n: int, j: int|
        0 <= n < c.len() && 0 <= j < c[n].children.len() ==> 0 <= #[trigger] c[n].children[j].target
            < n
}

impl Cst {
    /// A well-formed tree: children stand strictly before their parents,
    /// and the root slot exists.
    pub open spec fn wf(&self) -> bool {
        &&& (self.root as int) < self@.len()
        &&& wf_nodes(self@)
    }

    /// Checks [`Cst::wf`] at run time.
    pub fn check_wf(&self) -> (b: bool)
        ensures
            b == self.wf(),
    {
        let n_nodes = self.nodes.len();
        if self.root >= n_nodes {
            return false;
        }
        let mut n: usize = 0;
        while n < n_nodes
            invariant
                n_nodes == self@.len(),
                (self.root as int) < self@.len(),
                n <= n_nodes,
                forall|n0: int, j: int|
                    0 <= n0 < n && 0 <= j < self@[n0].children.len() ==> 0 <= #[trigger] self@[n0].children[j].target < n0,
            decreases n_nodes - n,
        {
            let node = &self.nodes[n];
            let n_children = node.children.len();
            let mut j: usize = 0;
            while j < n_children
                invariant
                    n_nodes == self@.len(),
                    n < n_nodes,
                    n_children == self@[n as int].children.len(),
                    j <= n_children,
                    forall|j0: int|
                        0 <= j0 < j ==> 0 <= #[trigger] self@[n as int].children[j0].target < n as int,
                decreases n_children - j,
            {
                if self.nodes[n].children[j].target >= n {
                    proof {
                        assert(!(0 <= self@[n as int].children[j as int].target < n as int));
                    }
                    return false;
                }
                j += 1;
            }
            n += 1;
        }
        true
    }
}

/// In a well-formed tree, any child target of the node in slot `i` stands
/// strictly below `i`.
pub proof fn lemma_child_target_range(c: Seq<CstNodeV>, i: int, t: int)
    requires
        wf_nodes(c),
        0 <= i < c.len(),
        is_child_target(c[i], t),
    ensures
        0 <= t < i,
{
    let k = choose|k: int| 0 <= k < c[i].children.len() && #[trigger] c[i].children[k].target == t;
    assert(0 <= c[i].children[k].target < i);
}

/// The slot of the first child of `n` whose field name is `name`, searching
/// from child position `j` on; `None` when no such child exists.
pub open spec fn field_target_from(n: CstNodeV, name: Seq<char>, j: int) -> Option<int>
    decreases n.children.len() - j,
{
    if j < 0 || j >= n.children.len() {
        None
    } else if n.children[j].field_name == Some(name) {
        Some(n.children[j].target)
    } else {
        field_target_from(n, name, j + 1)
    }
}

/// The slot of the first child of `n` whose field name is `name`.
pub open spec fn field_target(n: CstNodeV, name: Seq<char>) -> Option<int> {
    field_target_from(n, name, 0)
}

/// The target of some child of `n`: lets a caller carry the tree's
/// well-formedness over to a field lookup's result.
pub open spec fn is_child_target(n: CstNodeV, t: int) -> bool {
    exists|k: int| 0 <= k < n.children.len() && #[trigger] n.children[k].target == t
}

/// Looks up the first child filling the named grammar field.
pub fn find_field(node: &CstNodeData, name: &str) -> (r: Option<usize>)
    ensures
        match r {
            Some(t) => field_target(node@, name@) == Some(t as int) && is_child_target(
                node@,
                t as int,
            ),
            None => field_target(node@, name@) is None,
        },
{
    let n_children = node.children.len();
    let mut j: usize = 0;
    while j < n_children
        invariant
            n_children == node@.children.len(),
            j <= n_children,
            field_target(node@, name@) == field_target_from(node@, name@, j as int),
        decreases n_children - j,
    {
        let is_match = match &node.children[j].field_name {
            Some(f) => crate::text::str_eq(f.as_str(), name),
            None => false,
        };
        if is_match {
            return Some(node.children[j].target);
        }
        j += 1;
    }
    None
}

} // verus!
