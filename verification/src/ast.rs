//! The abstract syntax tree: a closed set of node kinds forming a tree.
//! Construction is total; a failed construction is represented by an error
//! node carrying the parse error, so tree building never aborts.

use vstd::prelude::*;

use crate::error::ParseError;

verus! {

/// The closed set of node kinds.
#[derive(Clone, Copy, Debug, PartialEq, Eq, Structural)]
pub enum ExprASTKind {
    Number,
    Variable,
    Binary,
    Call,
    Prototype,
    Function,
    Error,
    Empty,
}

/// Common face of the node structs: each knows its kind.
pub trait ExprAST {
    /// The kind this node reports.
    spec fn spec_kind(&self) -> ExprASTKind;

    /// Reports the node's kind.
    fn kind(&self) -> (k: ExprASTKind)
        ensures
            k == self.spec_kind(),
    ;
}

/// Numeric literal. The payload is the scanned text of the literal, kept
/// only when it carries a well-formed value.
#[derive(Debug)]
pub struct NumberExprAST {
    pub val: String,
}

impl NumberExprAST {
    pub fn new(val: String) -> (r: Self)
        ensures
            r.val == val,
    {
        NumberExprAST { val }
    }
}

impl ExprAST for NumberExprAST {
    open spec fn spec_kind(&self) -> ExprASTKind {
        ExprASTKind::Number
    }

    fn kind(&self) -> ExprASTKind {
        ExprASTKind::Number
    }
}

/// Reference to a variable by name.
#[derive(Debug)]
pub struct VariableExprAST {
    pub name: String,
}

impl VariableExprAST {
    pub fn new(name: String) -> (r: Self)
        ensures
            r.name == name,
    {
        VariableExprAST { name }
    }
}

impl ExprAST for VariableExprAST {
    open spec fn spec_kind(&self) -> ExprASTKind {
        ExprASTKind::Variable
    }

    fn kind(&self) -> ExprASTKind {
        ExprASTKind::Variable
    }
}

/// Binary operation: an operator character and its two operands, each
/// exclusively owned.
#[derive(Debug)]
pub struct BinaryExprAST {
    pub op: char,
    pub lhs: Box<ExprNode>,
    pub rhs: Box<ExprNode>,
}

impl BinaryExprAST {
    pub fn new(op: char, lhs: Box<ExprNode>, rhs: Box<ExprNode>) -> (r: BinaryExprAST)
        ensures
            r.op == op,
            r.lhs == lhs,
            r.rhs == rhs,
    {
        BinaryExprAST { op, lhs, rhs }
    }
}

impl ExprAST for BinaryExprAST {
    open spec fn spec_kind(&self) -> ExprASTKind {
        ExprASTKind::Binary
    }

    fn kind(&self) -> ExprASTKind {
        ExprASTKind::Binary
    }
}

/// Function call: the callee's name and the ordered argument expressions.
#[derive(Debug)]
pub struct CallExprAST {
    pub callee: String,
    pub args: Vec<ExprNode>,
}

impl CallExprAST {
    pub fn new(callee: String, args: Vec<ExprNode>) -> (r: Self)
        ensures
            r.callee == callee,
            r.args == args,
    {
        CallExprAST { callee, args }
    }
}

impl ExprAST for CallExprAST {
    open spec fn spec_kind(&self) -> ExprASTKind {
        ExprASTKind::Call
    }

    fn kind(&self) -> ExprASTKind {
        ExprASTKind::Call
    }
}

/// Function signature: a name and the ordered parameter names; not an
/// expression.
#[derive(Debug)]
pub struct PrototypeAST {
    pub name: String,
    pub args: Vec<String>,
}

impl PrototypeAST {
    pub fn new(name: String, args: Vec<String>) -> (r: PrototypeAST)
        ensures
            r.name == name,
            r.args == args,
    {
        PrototypeAST { name, args }
    }
}

impl ExprAST for PrototypeAST {
    open spec fn spec_kind(&self) -> ExprASTKind {
        ExprASTKind::Prototype
    }

    fn kind(&self) -> ExprASTKind {
        ExprASTKind::Prototype
    }
}

/// Definition: a prototype bound to a body expression.
#[derive(Debug)]
pub struct FunctionAST {
    pub proto: Box<PrototypeAST>,
    pub body: Box<ExprNode>,
}

impl FunctionAST {
    pub fn new(proto: Box<PrototypeAST>, body: Box<ExprNode>) -> (r: Self)
        ensures
            r.proto == proto,
            r.body == body,
    {
        FunctionAST { proto, body }
    }
}

impl ExprAST for FunctionAST {
    open spec fn spec_kind(&self) -> ExprASTKind {
        ExprASTKind::Function
    }

    fn kind(&self) -> ExprASTKind {
        ExprASTKind::Function
    }
}

/// Sentinel for a failed construction: a valid, inspectable node wrapping
/// the parse error, so failures travel as data.
#[derive(Debug)]
pub struct ErrorAST {
    pub error: ParseError,
}

impl ErrorAST {
    pub fn new(error: ParseError) -> (r: Self)
        ensures
            r.error == error,
    {
        Self { error }
    }

    pub fn get_error(&self) -> (r: &ParseError)
        ensures
            r == &self.error,
    {
        &self.error
    }
}

impl ExprAST for ErrorAST {
    open spec fn spec_kind(&self) -> ExprASTKind {
        ExprASTKind::Error
    }

    fn kind(&self) -> ExprASTKind {
        ExprASTKind::Error
    }
}

/// Sentinel for "no node yet".
#[derive(Debug)]
pub struct EmptyExprAST;

impl ExprAST for EmptyExprAST {
    open spec fn spec_kind(&self) -> ExprASTKind {
        ExprASTKind::Empty
    }

    fn kind(&self) -> ExprASTKind {
        ExprASTKind::Empty
    }
}

/// The tree itself: one closed tagged union over the node structs, matched
/// exhaustively by structural case.
#[derive(Debug)]
pub enum ExprNode {
    Number(NumberExprAST),
    Variable(VariableExprAST),
    Binary(BinaryExprAST),
    Call(CallExprAST),
    Prototype(PrototypeAST),
    Function(FunctionAST),
    Error(ErrorAST),
    Empty(EmptyExprAST),
}

impl ExprNode {
    /// The kind of the node held.
    pub open spec fn spec_kind(&self) -> ExprASTKind {
        match self {
            ExprNode::Number(_) => ExprASTKind::Number,
            ExprNode::Variable(_) => ExprASTKind::Variable,
            ExprNode::Binary(_) => ExprASTKind::Binary,
            ExprNode::Call(_) => ExprASTKind::Call,
            ExprNode::Prototype(_) => ExprASTKind::Prototype,
            ExprNode::Function(_) => ExprASTKind::Function,
            ExprNode::Error(_) => ExprASTKind::Error,
            ExprNode::Empty(_) => ExprASTKind::Empty,
        }
    }

    /// Reports the kind of the node held.
    pub fn kind(&self) -> (k: ExprASTKind)
        ensures
            k == self.spec_kind(),
    {
        match self {
            ExprNode::Number(n) => n.kind(),
            ExprNode::Variable(n) => n.kind(),
            ExprNode::Binary(n) => n.kind(),
            ExprNode::Call(n) => n.kind(),
            ExprNode::Prototype(n) => n.kind(),
            ExprNode::Function(n) => n.kind(),
            ExprNode::Error(n) => n.kind(),
            ExprNode::Empty(n) => n.kind(),
        }
    }

    /// Whether this node is an expression: something the expression grammar
    /// can produce, the error sentinel included.
    pub open spec fn is_expr(&self) -> bool {
        match self {
            ExprNode::Number(_) => true,
            ExprNode::Variable(_) => true,
            ExprNode::Binary(_) => true,
            ExprNode::Call(_) => true,
            ExprNode::Error(_) => true,
            _ => false,
        }
    }
}

} // verus!
