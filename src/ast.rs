use vstd::prelude::*;
use crate::text::{push_char, push_decimal, decimal};

verus! {

/// Location in source code.
#[derive(Debug, PartialEq)]
pub struct Location {
    pub file: String,
    pub line: usize,
    pub column: usize,
}

impl Location {
    /// Renders the location as `file:line:column`.
    pub fn to_string(&self) -> (r: String)
        ensures
            r@ == location_text(*self),
    {
        let mut out = self.file.clone();
        push_char(&mut out, ':');
        push_decimal(&mut out, self.line as u64);
        push_char(&mut out, ':');
        push_decimal(&mut out, self.column as u64);
        out
    }
}

/// The text of a location: `file:line:column`.
pub open spec fn location_text(l: Location) -> Seq<char> {
    l.file@ + seq![':'] + decimal(l.line as nat) + seq![':'] + decimal(l.column as nat)
}

impl Clone for Location {
    fn clone(&self) -> (r: Self)
        ensures
            r == *self,
    {
        Location { file: self.file.clone(), line: self.line, column: self.column }
    }
}

/// Types that a parameter may be annotated with.
#[derive(Debug, Clone, Copy, PartialEq, Eq, Structural)]
pub enum Type {
    Integer,
    Float,
    String,
    Boolean,
    Array,
    Null,
    /// A value that may be of any type.
    Mixed,
}

/// Binary operators.
#[derive(Debug, Clone, Copy, PartialEq, Eq, Structural)]
pub enum BinaryOp {
    Add,
    Subtract,
    Multiply,
    Divide,
    Modulo,
    Equal,
    NotEqual,
    Less,
    LessEqual,
    Greater,
    GreaterEqual,
    LogicalAnd,
    LogicalOr,
    Assign,
    Concat,
    ArrayAccess,
}

/// Unary operators.
#[derive(Debug, Clone, Copy, PartialEq, Eq, Structural)]
pub enum UnaryOp {
    Negate,
    LogicalNot,
}

/// A floating-point constant, held as what the back end reads of it: its
/// decimal rendering and its value converted to a 64-bit integer (truncated
/// toward zero, saturating at the bounds).
#[derive(Debug, PartialEq)]
pub struct FloatConst {
    pub text: String,
    pub truncated: i64,
}

impl Clone for FloatConst {
    fn clone(&self) -> (r: Self)
        ensures
            r == *self,
    {
        FloatConst { text: self.text.clone(), truncated: self.truncated }
    }
}

/// Syntax tree nodes.
#[derive(Debug, PartialEq)]
pub enum Node {
    Program(Vec<Node>),
    ExpressionStmt(Box<Node>),
    BlockStmt(Vec<Node>, Location),
    IfStmt {
        condition: Box<Node>,
        then_branch: Box<Node>,
        else_branch: Option<Box<Node>>,
        location: Location,
    },
    WhileStmt { condition: Box<Node>, body: Box<Node>, location: Location },
    ForStmt {
        init: Option<Box<Node>>,
        condition: Option<Box<Node>>,
        increment: Option<Box<Node>>,
        body: Box<Node>,
        location: Location,
    },
    ForeachStmt {
        array: Box<Node>,
        value_var: String,
        key_var: Option<String>,
        body: Box<Node>,
        location: Location,
    },
    ReturnStmt(Option<Box<Node>>, Location),
    EchoStmt(Vec<Node>, Location),
    VarDecl { name: String, initializer: Option<Box<Node>>, location: Location },
    FunctionDecl {
        name: String,
        params: Vec<(String, Option<Type>)>,
        body: Box<Node>,
        location: Location,
    },
    BinaryExpr { op: BinaryOp, left: Box<Node>, right: Box<Node>, location: Location },
    UnaryExpr { op: UnaryOp, expr: Box<Node>, location: Location },
    Variable(String, Location),
    FunctionCall { name: String, args: Vec<Node>, location: Location },
    IntLiteral(i64, Location),
    FloatLiteral(FloatConst, Location),
    StringLiteral(String, Location),
    BooleanLiteral(bool, Location),
    NullLiteral(Location),
    /// Elements as (key, value) pairs; a missing key appends the value.
    ArrayLiteral(Vec<(Option<Node>, Node)>, Location),
}

// Verus does not equate two vectors from equal contents, so the copy of a
// node carries no contract, as a derived copy would not either.
impl Clone for Node {
    fn clone(&self) -> Self
        decreases self,
    {
        match self {
            Node::Program(stmts) => Node::Program(clone_nodes(stmts)),
            Node::ExpressionStmt(e) => Node::ExpressionStmt(Box::new((**e).clone())),
            Node::BlockStmt(stmts, l) => Node::BlockStmt(clone_nodes(stmts), l.clone()),
            Node::IfStmt { condition, then_branch, else_branch, location } => Node::IfStmt {
                condition: Box::new((**condition).clone()),
                then_branch: Box::new((**then_branch).clone()),
                else_branch: match else_branch {
                    Some(e) => Some(Box::new((**e).clone())),
                    None => None,
                },
                location: location.clone(),
            },
            Node::WhileStmt { condition, body, location } => Node::WhileStmt {
                condition: Box::new((**condition).clone()),
                body: Box::new((**body).clone()),
                location: location.clone(),
            },
            Node::ForStmt { init, condition, increment, body, location } => Node::ForStmt {
                init: match init {
                    Some(e) => Some(Box::new((**e).clone())),
                    None => None,
                },
                condition: match condition {
                    Some(e) => Some(Box::new((**e).clone())),
                    None => None,
                },
                increment: match increment {
                    Some(e) => Some(Box::new((**e).clone())),
                    None => None,
                },
                body: Box::new((**body).clone()),
                location: location.clone(),
            },
            Node::ForeachStmt { array, value_var, key_var, body, location } => Node::ForeachStmt {
                array: Box::new((**array).clone()),
                value_var: value_var.clone(),
                key_var: match key_var {
                    Some(k) => Some(k.clone()),
                    None => None,
                },
                body: Box::new((**body).clone()),
                location: location.clone(),
            },
            Node::ReturnStmt(value, l) => Node::ReturnStmt(
                match value {
                    Some(e) => Some(Box::new((**e).clone())),
                    None => None,
                },
                l.clone(),
            ),
            Node::EchoStmt(exprs, l) => Node::EchoStmt(clone_nodes(exprs), l.clone()),
            Node::VarDecl { name, initializer, location } => Node::VarDecl {
                name: name.clone(),
                initializer: match initializer {
                    Some(e) => Some(Box::new((**e).clone())),
                    None => None,
                },
                location: location.clone(),
            },
            Node::FunctionDecl { name, params, body, location } => Node::FunctionDecl {
                name: name.clone(),
                params: clone_params(params),
                body: Box::new((**body).clone()),
                location: location.clone(),
            },
            Node::BinaryExpr { op, left, right, location } => Node::BinaryExpr {
                op: *op,
                left: Box::new((**left).clone()),
                right: Box::new((**right).clone()),
                location: location.clone(),
            },
            Node::UnaryExpr { op, expr, location } => Node::UnaryExpr {
                op: *op,
                expr: Box::new((**expr).clone()),
                location: location.clone(),
            },
            Node::Variable(name, l) => Node::Variable(name.clone(), l.clone()),
            Node::FunctionCall { name, args, location } => Node::FunctionCall {
                name: name.clone(),
                args: clone_nodes(args),
                location: location.clone(),
            },
            Node::IntLiteral(v, l) => Node::IntLiteral(*v, l.clone()),
            Node::FloatLiteral(v, l) => Node::FloatLiteral(v.clone(), l.clone()),
            Node::StringLiteral(v, l) => Node::StringLiteral(v.clone(), l.clone()),
            Node::BooleanLiteral(v, l) => Node::BooleanLiteral(*v, l.clone()),
            Node::NullLiteral(l) => Node::NullLiteral(l.clone()),
            Node::ArrayLiteral(elements, l) => Node::ArrayLiteral(clone_elements(elements), l.clone()),
        }
    }
}

fn clone_nodes(v: &Vec<Node>) -> (r: Vec<Node>)
    ensures
        r@.len() == v@.len(),
    decreases v,
{
    let mut r: Vec<Node> = Vec::new();
    let mut i: usize = 0;
    while i < v.len()
        invariant
            i <= v@.len(),
            r@.len() == i,
        decreases v@.len() - i,
    {
        r.push(v[i].clone());
        i += 1;
    }
    r
}

fn clone_elements(v: &Vec<(Option<Node>, Node)>) -> (r: Vec<(Option<Node>, Node)>)
    ensures
        r@.len() == v@.len(),
    decreases v,
{
    let mut r: Vec<(Option<Node>, Node)> = Vec::new();
    let mut i: usize = 0;
    while i < v.len()
        invariant
            i <= v@.len(),
            r@.len() == i,
        decreases v@.len() - i,
    {
        let key = match &v[i].0 {
            Some(k) => Some(k.clone()),
            None => None,
        };
        r.push((key, v[i].1.clone()));
        i += 1;
    }
    r
}

fn clone_params(v: &Vec<(String, Option<Type>)>) -> (r: Vec<(String, Option<Type>)>)
    ensures
        r@ == v@,
{
    let mut r: Vec<(String, Option<Type>)> = Vec::new();
    let mut i: usize = 0;
    while i < v.len()
        invariant
            i <= v@.len(),
            r@ == v@.take(i as int),
        decreases v@.len() - i,
    {
        r.push((v[i].0.clone(), v[i].1));
        assert(r@ =~= v@.take(i + 1));
        i += 1;
    }
    assert(v@.take(v@.len() as int) =~= v@);
    r
}

} // verus!
