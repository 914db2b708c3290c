//! The AST arena: typed node identifiers, node payloads, source-position
//! metadata, and the append-only store that owns them all.
//!
//! Every semantic node lives in one arena slot, addressed by a [`NodeID`].
//! Typed wrappers ([`ScopeDefID`], [`StmtID`], ...) give compile-time
//! assurance that a slot of one category is never read as another.  The
//! arena is append-only: identifiers are issued monotonically and are never
//! reused, so a node can only reference identifiers created strictly before
//! it.

use vstd::prelude::*;

verus! {

/// An opaque handle identifying one arena slot.  Identifiers are issued
/// monotonically starting at zero and are never reused.
#[derive(PartialEq, Eq, Hash, Clone, Copy, Debug, Structural)]
pub struct NodeID {
    pub id: usize,
}

#[derive(PartialEq, Eq, Hash, Clone, Copy, Debug, Structural)]
pub struct ScopeDefID(pub NodeID);

#[derive(PartialEq, Eq, Hash, Clone, Copy, Debug, Structural)]
pub struct StmtID(pub NodeID);

#[derive(PartialEq, Eq, Hash, Clone, Copy, Debug, Structural)]
pub struct ExprID(pub NodeID);

#[derive(PartialEq, Eq, Hash, Clone, Copy, Debug, Structural)]
pub struct TypeExprID(pub NodeID);

#[derive(PartialEq, Eq, Hash, Clone, Copy, Debug, Structural)]
pub struct IdentifierID(pub NodeID);

#[derive(PartialEq, Eq, Hash, Clone, Copy, Debug, Structural)]
pub struct FunctionParamID(pub NodeID);

#[derive(PartialEq, Eq, Hash, Clone, Copy, Debug, Structural)]
pub struct ForEachDeclID(pub NodeID);

/// A zero-based line/column pair.
#[derive(PartialEq, Eq, Clone, Copy, Debug, Structural)]
pub struct LexicalPosition {
    pub line: usize,
    pub column: usize,
}

/// The source span of a node: start and end positions, both zero-based.
#[derive(PartialEq, Eq, Clone, Copy, Debug, Structural)]
pub struct LexicalInfo {
    pub start: LexicalPosition,
    pub end: LexicalPosition,
}

/// The ordered top-level scope definitions of one source unit.
#[derive(PartialEq, Eq, Clone, Debug)]
pub struct Program {
    pub global_defs: Vec<ScopeDefID>,
}

impl View for Program {
    type V = Seq<ScopeDefID>;

    open spec fn view(&self) -> Seq<ScopeDefID> {
        self.global_defs@
    }
}

/// A top-level named construct introducing a callable.
#[derive(PartialEq, Eq, Clone, Debug)]
pub enum ScopeDef {
    Function { name: IdentifierID, params: Vec<FunctionParamID>, return_type: TypeExprID, body: Vec<StmtID> },
}

#[derive(PartialEq, Eq, Clone, Debug)]
pub enum Statement {
    Expression { expr: ExprID },
    VarDecl { is_mut: bool, name: IdentifierID, type_expr: TypeExprID, init_expr: Option<ExprID> },
    If { cond_expr: ExprID, then_block: Vec<StmtID>, else_body: Option<Vec<StmtID>> },
    While { cond_expr: ExprID, body_block: Vec<StmtID> },
    ForEach { item: ForEachDeclID, iter_expr: ExprID, body_block: Vec<StmtID> },
    Return { expr: Option<ExprID> },
    Continue,
    Break,
}

#[derive(PartialEq, Eq, Clone, Debug)]
pub enum Expression {
    IntegerLiteral { value: i64 },
    /// A decimal literal, kept as the two integer components the lowering
    /// computes: the integer part, and the fraction part after it has been
    /// divided by ten until it is below one.  The denoted value is the sum
    /// of the two components.  Because the division is integer division,
    /// the fraction part always collapses to zero (for example, the source
    /// literal `1.01` denotes `1.0`); this quirk of the literal policy is
    /// deliberate and is pinned down by the crate's tests.
    DecimalLiteral { integer_part: i64, fraction_part: i64 },
    StringLiteral { value: String },
    BooleanLiteral { value: bool },
    ListLiteral { values: Vec<ExprID> },
    Identifier { node_id: IdentifierID },
    Call { callee: ExprID, args: Vec<ExprID> },
    Access { object: ExprID, field_name: IdentifierID },
    BinaryOprt { oprt: BinaryOprt, left: ExprID, right: ExprID },
    UnaryOprt { oprt: UnaryOprt, operand: ExprID },
    Assign { target: ExprID, value: ExprID },
}

#[derive(PartialEq, Eq, Clone, Debug)]
pub enum TypeExpr {
    RawType { name: IdentifierID },
    TemplateType { name: IdentifierID, type_args: Vec<TypeExprID> },
    RefType { is_mut: bool, type_expr: TypeExprID },
    CompType { is_mut: bool, type_expr: TypeExprID },
}

#[derive(PartialEq, Eq, Clone, Copy, Debug, Structural)]
pub enum UnaryOprt {
    Neg,
    Not,
    Deref,
}

#[derive(PartialEq, Eq, Clone, Copy, Debug, Structural)]
pub enum BinaryOprt {
    Assign,
    And,
    Or,
    Eq,
    Neq,
    Lt,
    Le,
    Gt,
    Ge,
    Add,
    Sub,
    Mul,
    Div,
}

#[derive(PartialEq, Eq, Clone, Copy, Debug, Structural)]
pub struct FunctionParam {
    pub is_mut: bool,
    pub name: IdentifierID,
    pub type_expr: TypeExprID,
}

/// The declaration of the loop-bound variable of a for-each loop.
#[derive(PartialEq, Eq, Clone, Copy, Debug, Structural)]
pub struct ForEachDecl {
    pub is_mut: bool,
    pub is_ref: bool,
    pub name: IdentifierID,
}

/// A closed variant over the seven node categories the arena stores.
#[derive(PartialEq, Eq, Clone, Debug)]
pub enum Node {
    ScopeDef(ScopeDef),
    Statement(Statement),
    Expression(Expression),
    TypeExpr(TypeExpr),
    Identifier(String),
    FunctionParam(FunctionParam),
    ForEachDecl(ForEachDecl),
}

/// Mathematical model of a [`ScopeDef`] payload.
pub ghost enum ScopeDefV {
    Function { name: IdentifierID, params: Seq<FunctionParamID>, return_type: TypeExprID, body: Seq<StmtID> },
}

/// Mathematical model of a [`Statement`] payload.
pub ghost enum StatementV {
    Expression { expr: ExprID },
    VarDecl { is_mut: bool, name: IdentifierID, type_expr: TypeExprID, init_expr: Option<ExprID> },
    If { cond_expr: ExprID, then_block: Seq<StmtID>, else_body: Option<Seq<StmtID>> },
    While { cond_expr: ExprID, body_block: Seq<StmtID> },
    ForEach { item: ForEachDeclID, iter_expr: ExprID, body_block: Seq<StmtID> },
    Return { expr: Option<ExprID> },
    Continue,
    Break,
}

/// Mathematical model of an [`Expression`] payload.
pub ghost enum ExpressionV {
    IntegerLiteral { value: i64 },
    DecimalLiteral { integer_part: i64, fraction_part: i64 },
    StringLiteral { value: Seq<char> },
    BooleanLiteral { value: bool },
    ListLiteral { values: Seq<ExprID> },
    Identifier { node_id: IdentifierID },
    Call { callee: ExprID, args: Seq<ExprID> },
    Access { object: ExprID, field_name: IdentifierID },
    BinaryOprt { oprt: BinaryOprt, left: ExprID, right: ExprID },
    UnaryOprt { oprt: UnaryOprt, operand: ExprID },
    Assign { target: ExprID, value: ExprID },
}

/// Mathematical model of a [`TypeExpr`] payload.
pub ghost enum TypeExprV {
    RawType { name: IdentifierID },
    TemplateType { name: IdentifierID, type_args: Seq<TypeExprID> },
    RefType { is_mut: bool, type_expr: TypeExprID },
    CompType { is_mut: bool, type_expr: TypeExprID },
}

/// Mathematical model of a [`Node`] payload.
pub ghost enum NodeV {
    ScopeDef(ScopeDefV),
    Statement(StatementV),
    Expression(ExpressionV),
    TypeExpr(TypeExprV),
    Identifier(Seq<char>),
    FunctionParam(FunctionParam),
    ForEachDecl(ForEachDecl),
}

impl View for ScopeDef {
    type V = ScopeDefV;

    open spec fn view(&self) -> ScopeDefV {
        match self {
            ScopeDef::Function { name, params, return_type, body } => ScopeDefV::Function {
                name: *name,
                params: params@,
                return_type: *return_type,
                body: body@,
            },
        }
    }
}

impl View for Statement {
    type V = StatementV;

    open spec fn view(&self) -> StatementV {
        match self {
            Statement::Expression { expr } => StatementV::Expression { expr: *expr },
            Statement::VarDecl { is_mut, name, type_expr, init_expr } => StatementV::VarDecl {
                is_mut: *is_mut,
                name: *name,
                type_expr: *type_expr,
                init_expr: *init_expr,
            },
            Statement::If { cond_expr, then_block, else_body } => StatementV::If {
                cond_expr: *cond_expr,
                then_block: then_block@,
                else_body: match else_body {
                    Some(b) => Some(b@),
                    None => None,
                },
            },
            Statement::While { cond_expr, body_block } => StatementV::While {
                cond_expr: *cond_expr,
                body_block: body_block@,
            },
            Statement::ForEach { item, iter_expr, body_block } => StatementV::ForEach {
                item: *item,
                iter_expr: *iter_expr,
                body_block: body_block@,
            },
            Statement::Return { expr } => StatementV::Return { expr: *expr },
            Statement::Continue => StatementV::Continue,
            Statement::Break => StatementV::Break,
        }
    }
}

impl View for Expression {
    type V = ExpressionV;

    open spec fn view(&self) -> ExpressionV {
        match self {
            Expression::IntegerLiteral { value } => ExpressionV::IntegerLiteral { value: *value },
            Expression::DecimalLiteral { integer_part, fraction_part } => ExpressionV::DecimalLiteral {
                integer_part: *integer_part,
                fraction_part: *fraction_part,
            },
            Expression::StringLiteral { value } => ExpressionV::StringLiteral { value: value@ },
            Expression::BooleanLiteral { value } => ExpressionV::BooleanLiteral { value: *value },
            Expression::ListLiteral { values } => ExpressionV::ListLiteral { values: values@ },
            Expression::Identifier { node_id } => ExpressionV::Identifier { node_id: *node_id },
            Expression::Call { callee, args } => ExpressionV::Call { callee: *callee, args: args@ },
            Expression::Access { object, field_name } => ExpressionV::Access {
                object: *object,
                field_name: *field_name,
            },
            Expression::BinaryOprt { oprt, left, right } => ExpressionV::BinaryOprt {
                oprt: *oprt,
                left: *left,
                right: *right,
            },
            Expression::UnaryOprt { oprt, operand } => ExpressionV::UnaryOprt {
                oprt: *oprt,
                operand: *operand,
            },
            Expression::Assign { target, value } => ExpressionV::Assign {
                target: *target,
                value: *value,
            },
        }
    }
}

impl View for TypeExpr {
    type V = TypeExprV;

    open spec fn view(&self) -> TypeExprV {
        match self {
            TypeExpr::RawType { name } => TypeExprV::RawType { name: *name },
            TypeExpr::TemplateType { name, type_args } => TypeExprV::TemplateType {
                name: *name,
                type_args: type_args@,
            },
            TypeExpr::RefType { is_mut, type_expr } => TypeExprV::RefType {
                is_mut: *is_mut,
                type_expr: *type_expr,
            },
            TypeExpr::CompType { is_mut, type_expr } => TypeExprV::CompType {
                is_mut: *is_mut,
                type_expr: *type_expr,
            },
        }
    }
}

impl View for Node {
    type V = NodeV;

    open spec fn view(&self) -> NodeV {
        match self {
            Node::ScopeDef(d) => NodeV::ScopeDef(d@),
            Node::Statement(s) => NodeV::Statement(s@),
            Node::Expression(e) => NodeV::Expression(e@),
            Node::TypeExpr(t) => NodeV::TypeExpr(t@),
            Node::Identifier(name) => NodeV::Identifier(name@),
            Node::FunctionParam(p) => NodeV::FunctionParam(*p),
            Node::ForEachDecl(d) => NodeV::ForEachDecl(*d),
        }
    }
}

/// One arena slot as the contracts see it: the payload and its span.
pub ghost struct EntryV {
    pub node: NodeV,
    pub info: LexicalInfo,
}

/// The arena as the contracts see it: the issued slots in issue order, and
/// the program value if one has been set.
pub ghost struct AstV {
    pub entries: Seq<EntryV>,
    pub program: Option<Seq<ScopeDefID>>,
}

#[derive(Debug)]
struct AstEntry {
    node: Node,
    info: LexicalInfo,
}

/// The arena.  Owns every node payload and its source span; grows
/// monotonically and is never mutated in place.
#[derive(Debug)]
pub struct Ast {
    entries: Vec<AstEntry>,
    program: Option<Program>,
}

impl View for Ast {
    type V = AstV;

    closed spec fn view(&self) -> AstV {
        AstV {
            entries: Seq::new(
                self.entries@.len(),
                |i: int| EntryV { node: self.entries@[i].node@, info: self.entries@[i].info },
            ),
            program: match &self.program {
                Some(p) => Some(p@),
                None => None,
            },
        }
    }
}

impl Ast {
    /// Creates an empty arena: no slots issued, no program set.
    pub fn new() -> (ast: Ast)
        ensures
            ast@.entries.len() == 0,
            ast@.program is None,
    {
        let ast = Ast { entries: Vec::new(), program: None };
        proof {
            assert(ast@.entries =~= Seq::<EntryV>::empty());
        }
        ast
    }

    /// Inserts a new node with its span and returns a fresh, never-before
    /// issued identifier: the index of the new slot.
    pub fn add_node(&mut self, node: Node, lexical_info: LexicalInfo) -> (id: NodeID)
        ensures
            final(self)@.entries == old(self)@.entries.push(EntryV { node: node@, info: lexical_info }),
            final(self)@.program == old(self)@.program,
            id.id == old(self)@.entries.len(),
    {
        let id = NodeID { id: self.entries.len() };
        self.entries.push(AstEntry { node, info: lexical_info });
        proof {
            assert(self@.entries =~= old(self)@.entries.push(
                EntryV { node: self.entries@[self.entries@.len() - 1].node@, info: lexical_info },
            ));
        }
        id
    }

    pub fn add_scope_def_node(&mut self, scope_def: ScopeDef, lexical_info: LexicalInfo) -> (id: ScopeDefID)
        ensures
            final(self)@.entries == old(self)@.entries.push(
                EntryV { node: NodeV::ScopeDef(scope_def@), info: lexical_info },
            ),
            final(self)@.program == old(self)@.program,
            id.0.id == old(self)@.entries.len(),
    {
        let id = self.add_node(Node::ScopeDef(scope_def), lexical_info);
        ScopeDefID(id)
    }

    pub fn add_statement_node(&mut self, statement: Statement, lexical_info: LexicalInfo) -> (id: StmtID)
        ensures
            final(self)@.entries == old(self)@.entries.push(
                EntryV { node: NodeV::Statement(statement@), info: lexical_info },
            ),
            final(self)@.program == old(self)@.program,
            id.0.id == old(self)@.entries.len(),
    {
        let id = self.add_node(Node::Statement(statement), lexical_info);
        StmtID(id)
    }

    pub fn add_expression_node(&mut self, expression: Expression, lexical_info: LexicalInfo) -> (id: ExprID)
        ensures
            final(self)@.entries == old(self)@.entries.push(
                EntryV { node: NodeV::Expression(expression@), info: lexical_info },
            ),
            final(self)@.program == old(self)@.program,
            id.0.id == old(self)@.entries.len(),
    {
        let id = self.add_node(Node::Expression(expression), lexical_info);
        ExprID(id)
    }

    pub fn add_type_expr_node(&mut self, type_expr: TypeExpr, lexical_info: LexicalInfo) -> (id: TypeExprID)
        ensures
            final(self)@.entries == old(self)@.entries.push(
                EntryV { node: NodeV::TypeExpr(type_expr@), info: lexical_info },
            ),
            final(self)@.program == old(self)@.program,
            id.0.id == old(self)@.entries.len(),
    {
        let id = self.add_node(Node::TypeExpr(type_expr), lexical_info);
        TypeExprID(id)
    }

    pub fn add_identifier_node(&mut self, name: String, lexical_info: LexicalInfo) -> (id: IdentifierID)
        ensures
            final(self)@.entries == old(self)@.entries.push(
                EntryV { node: NodeV::Identifier(name@), info: lexical_info },
            ),
            final(self)@.program == old(self)@.program,
            id.0.id == old(self)@.entries.len(),
    {
        let id = self.add_node(Node::Identifier(name), lexical_info);
        IdentifierID(id)
    }

    pub fn add_function_param_node(&mut self, function_param: FunctionParam, lexical_info: LexicalInfo) -> (id: FunctionParamID)
        ensures
            final(self)@.entries == old(self)@.entries.push(
                EntryV { node: NodeV::FunctionParam(function_param), info: lexical_info },
            ),
            final(self)@.program == old(self)@.program,
            id.0.id == old(self)@.entries.len(),
    {
        let id = self.add_node(Node::FunctionParam(function_param), lexical_info);
        FunctionParamID(id)
    }

    pub fn add_for_each_decl_node(&mut self, for_each_decl: ForEachDecl, lexical_info: LexicalInfo) -> (id: ForEachDeclID)
        ensures
            final(self)@.entries == old(self)@.entries.push(
                EntryV { node: NodeV::ForEachDecl(for_each_decl), info: lexical_info },
            ),
            final(self)@.program == old(self)@.program,
            id.0.id == old(self)@.entries.len(),
    {
        let id = self.add_node(Node::ForEachDecl(for_each_decl), lexical_info);
        ForEachDeclID(id)
    }

    /// Stores the program value.  Intended to be called exactly once per
    /// arena lifetime; a second call overwrites the first.
    pub fn set_program(&mut self, program: Program)
        ensures
            final(self)@.entries == old(self)@.entries,
            final(self)@.program == Some(program@),
    {
        self.program = Some(program);
    }

    /// Returns the program value, if one has been set.
    pub fn get_program(&self) -> (r: &Option<Program>)
        ensures
            match r {
                Some(p) => self@.program == Some(p@),
                None => self@.program is None,
            },
    {
        &self.program
    }

    /// Returns the source span recorded for the given slot.  The
    /// identifier must have been issued by this arena.
    pub fn get_lexical_info(&self, id: NodeID) -> (r: &LexicalInfo)
        requires
            id.id < self@.entries.len(),
        ensures
            *r == self@.entries[id.id as int].info,
    {
        &self.entries[id.id].info
    }

    /// Returns the payload stored in the given slot.  The identifier must
    /// have been issued by this arena.
    pub fn get_node(&self, id: NodeID) -> (r: &Node)
        requires
            id.id < self@.entries.len(),
        ensures
            r@ == self@.entries[id.id as int].node,
    {
        &self.entries[id.id].node
    }

    /// Returns the scope definition stored in the given slot.  The slot
    /// must hold a scope definition.
    pub fn get_scope_def(&self, id: ScopeDefID) -> (r: &ScopeDef)
        requires
            id.0.id < self@.entries.len(),
            self@.entries[id.0.id as int].node is ScopeDef,
        ensures
            self@.entries[id.0.id as int].node == NodeV::ScopeDef(r@),
    {
        match self.get_node(id.0) {
            Node::ScopeDef(scope_def) => scope_def,
            _ => vstd::pervasive::unreached(),
        }
    }

    /// Returns the statement stored in the given slot.  The slot must hold
    /// a statement.
    pub fn get_statement(&self, id: StmtID) -> (r: &Statement)
        requires
            id.0.id < self@.entries.len(),
            self@.entries[id.0.id as int].node is Statement,
        ensures
            self@.entries[id.0.id as int].node == NodeV::Statement(r@),
    {
        match self.get_node(id.0) {
            Node::Statement(statement) => statement,
            _ => vstd::pervasive::unreached(),
        }
    }

    /// Returns the expression stored in the given slot.  The slot must
    /// hold an expression.
    pub fn get_expression(&self, id: ExprID) -> (r: &Expression)
        requires
            id.0.id < self@.entries.len(),
            self@.entries[id.0.id as int].node is Expression,
        ensures
            self@.entries[id.0.id as int].node == NodeV::Expression(r@),
    {
        match self.get_node(id.0) {
            Node::Expression(expression) => expression,
            _ => vstd::pervasive::unreached(),
        }
    }

    /// Returns the type expression stored in the given slot.  The slot
    /// must hold a type expression.
    pub fn get_type_expr(&self, id: TypeExprID) -> (r: &TypeExpr)
        requires
            id.0.id < self@.entries.len(),
            self@.entries[id.0.id as int].node is TypeExpr,
        ensures
            self@.entries[id.0.id as int].node == NodeV::TypeExpr(r@),
    {
        match self.get_node(id.0) {
            Node::TypeExpr(type_expr) => type_expr,
            _ => vstd::pervasive::unreached(),
        }
    }

    /// Returns the identifier name stored in the given slot.  The slot
    /// must hold an identifier.
    pub fn get_identifier(&self, id: IdentifierID) -> (r: &String)
        requires
            id.0.id < self@.entries.len(),
            self@.entries[id.0.id as int].node is Identifier,
        ensures
            self@.entries[id.0.id as int].node == NodeV::Identifier(r@),
    {
        match self.get_node(id.0) {
            Node::Identifier(name) => name,
            _ => vstd::pervasive::unreached(),
        }
    }

    /// Returns the function parameter stored in the given slot.  The slot
    /// must hold a function parameter.
    pub fn get_function_param(&self, id: FunctionParamID) -> (r: &FunctionParam)
        requires
            id.0.id < self@.entries.len(),
            self@.entries[id.0.id as int].node is FunctionParam,
        ensures
            self@.entries[id.0.id as int].node == NodeV::FunctionParam(*r),
    {
        match self.get_node(id.0) {
            Node::FunctionParam(param) => param,
            _ => vstd::pervasive::unreached(),
        }
    }

    /// Returns the for-each declaration stored in the given slot.  The
    /// slot must hold a for-each declaration.
    pub fn get_for_each_decl(&self, id: ForEachDeclID) -> (r: &ForEachDecl)
        requires
            id.0.id < self@.entries.len(),
            self@.entries[id.0.id as int].node is ForEachDecl,
        ensures
            self@.entries[id.0.id as int].node == NodeV::ForEachDecl(*r),
    {
        match self.get_node(id.0) {
            Node::ForEachDecl(for_each_decl) => for_each_decl,
            _ => vstd::pervasive::unreached(),
        }
    }
}

} // verus!
