use vstd::prelude::*;
use vstd::string::StringExecFns;
use crate::ast::{BinaryOp, FloatConst, Node, UnaryOp};
use crate::error::{CompilerError, Result};

verus! {

/// Bytecode instructions of the stack machine.
#[derive(Debug, PartialEq)]
pub enum Instruction {
    PushInt(i64),
    PushFloat(FloatConst),
    PushString(String),
    PushBool(bool),
    PushNull,
    Pop,
    LoadVar(String),
    StoreVar(String),
    CreateArray,
    ArrayPush,
    ArraySet,
    ArrayGet,
    Add,
    Subtract,
    Multiply,
    Divide,
    Modulo,
    Negate,
    Equal,
    NotEqual,
    Less,
    LessEqual,
    Greater,
    GreaterEqual,
    LogicalAnd,
    LogicalOr,
    LogicalNot,
    /// Jump to an absolute index.
    Jump(usize),
    /// Pop a value; jump to an absolute index when it is false.
    JumpIfFalse(usize),
    /// Pop a value; jump to an absolute index when it is true.
    JumpIfTrue(usize),
    /// Marks a jump target; carries its own index.
    Label(usize),
    /// Function name and argument count.
    Call(String, usize),
    Return,
    Echo,
    /// Echo followed by a newline.
    EchoLine,
    Concat,
}

impl Clone for Instruction {
    fn clone(&self) -> (r: Self)
        ensures
            r == *self,
    {
        match self {
            Instruction::PushInt(v) => Instruction::PushInt(*v),
            Instruction::PushFloat(v) => Instruction::PushFloat(v.clone()),
            Instruction::PushString(v) => Instruction::PushString(v.clone()),
            Instruction::PushBool(v) => Instruction::PushBool(*v),
            Instruction::PushNull => Instruction::PushNull,
            Instruction::Pop => Instruction::Pop,
            Instruction::LoadVar(v) => Instruction::LoadVar(v.clone()),
            Instruction::StoreVar(v) => Instruction::StoreVar(v.clone()),
            Instruction::CreateArray => Instruction::CreateArray,
            Instruction::ArrayPush => Instruction::ArrayPush,
            Instruction::ArraySet => Instruction::ArraySet,
            Instruction::ArrayGet => Instruction::ArrayGet,
            Instruction::Add => Instruction::Add,
            Instruction::Subtract => Instruction::Subtract,
            Instruction::Multiply => Instruction::Multiply,
            Instruction::Divide => Instruction::Divide,
            Instruction::Modulo => Instruction::Modulo,
            Instruction::Negate => Instruction::Negate,
            Instruction::Equal => Instruction::Equal,
            Instruction::NotEqual => Instruction::NotEqual,
            Instruction::Less => Instruction::Less,
            Instruction::LessEqual => Instruction::LessEqual,
            Instruction::Greater => Instruction::Greater,
            Instruction::GreaterEqual => Instruction::GreaterEqual,
            Instruction::LogicalAnd => Instruction::LogicalAnd,
            Instruction::LogicalOr => Instruction::LogicalOr,
            Instruction::LogicalNot => Instruction::LogicalNot,
            Instruction::Jump(a) => Instruction::Jump(*a),
            Instruction::JumpIfFalse(a) => Instruction::JumpIfFalse(*a),
            Instruction::JumpIfTrue(a) => Instruction::JumpIfTrue(*a),
            Instruction::Label(a) => Instruction::Label(*a),
            Instruction::Call(n, c) => Instruction::Call(n.clone(), *c),
            Instruction::Return => Instruction::Return,
            Instruction::Echo => Instruction::Echo,
            Instruction::EchoLine => Instruction::EchoLine,
            Instruction::Concat => Instruction::Concat,
        }
    }
}

/// A compiled function.
#[derive(Debug, Clone)]
pub struct Function {
    pub name: String,
    pub param_count: usize,
    pub instructions: Vec<Instruction>,
}

/// What a compiled function holds.
pub ghost struct FunctionView {
    pub name: Seq<char>,
    pub param_count: nat,
    pub instructions: Seq<Instruction>,
}

impl View for Function {
    type V = FunctionView;

    open spec fn view(&self) -> FunctionView {
        FunctionView {
            name: self.name@,
            param_count: self.param_count as nat,
            instructions: self.instructions@,
        }
    }
}

/// State of a generation: the instruction sequence being built, the table of
/// functions (names unique, in order of first insertion), and the error that
/// stopped generation, if any. Once an error is set, nothing changes.
pub ghost struct GenState {
    pub code: Seq<Instruction>,
    pub functions: Seq<FunctionView>,
    pub error: Option<Seq<char>>,
}

/// The state in which a generation starts.
pub open spec fn initial_state() -> GenState {
    GenState { code: Seq::empty(), functions: Seq::empty(), error: None }
}

/// Appends an instruction.
pub open spec fn emit(st: GenState, i: Instruction) -> GenState {
    if st.error is Some {
        st
    } else {
        GenState { code: st.code.push(i), ..st }
    }
}

/// Overwrites the placeholder at index `at`.
pub open spec fn patch(st: GenState, at: int, i: Instruction) -> GenState {
    if st.error is Some {
        st
    } else {
        GenState { code: st.code.update(at, i), ..st }
    }
}

/// Stops generation with an error message.
pub open spec fn fail(st: GenState, message: Seq<char>) -> GenState {
    if st.error is Some {
        st
    } else {
        GenState { error: Some(message), ..st }
    }
}

pub open spec fn foreach_message() -> Seq<char> {
    "Foreach loops are not fully implemented yet"@
}

pub open spec fn assignment_message() -> Seq<char> {
    "Left-hand side of assignment must be a variable"@
}

/// The instruction of a binary operator; assignment has none.
pub open spec fn operator_instruction(op: BinaryOp) -> Option<Instruction> {
    match op {
        BinaryOp::Add => Some(Instruction::Add),
        BinaryOp::Subtract => Some(Instruction::Subtract),
        BinaryOp::Multiply => Some(Instruction::Multiply),
        BinaryOp::Divide => Some(Instruction::Divide),
        BinaryOp::Modulo => Some(Instruction::Modulo),
        BinaryOp::Equal => Some(Instruction::Equal),
        BinaryOp::NotEqual => Some(Instruction::NotEqual),
        BinaryOp::Less => Some(Instruction::Less),
        BinaryOp::LessEqual => Some(Instruction::LessEqual),
        BinaryOp::Greater => Some(Instruction::Greater),
        BinaryOp::GreaterEqual => Some(Instruction::GreaterEqual),
        BinaryOp::LogicalAnd => Some(Instruction::LogicalAnd),
        BinaryOp::LogicalOr => Some(Instruction::LogicalOr),
        BinaryOp::Concat => Some(Instruction::Concat),
        BinaryOp::ArrayAccess => Some(Instruction::ArrayGet),
        BinaryOp::Assign => None,
    }
}

/// The instruction of a unary operator.
pub open spec fn unary_instruction(op: UnaryOp) -> Instruction {
    match op {
        UnaryOp::Negate => Instruction::Negate,
        UnaryOp::LogicalNot => Instruction::LogicalNot,
    }
}

/// Whether a `Return` occurs anywhere in the code.
pub open spec fn has_return(code: Seq<Instruction>) -> bool {
    exists|i: int| 0 <= i < code.len() && #[trigger] code[i] is Return
}

/// The function table after storing `f`: an entry of the same name is
/// replaced in place, otherwise `f` is added at the end.
pub open spec fn table_insert(t: Seq<FunctionView>, f: FunctionView) -> Seq<FunctionView> {
    if exists|i: int| 0 <= i < t.len() && #[trigger] t[i].name == f.name {
        let i = choose|i: int| 0 <= i < t.len() && #[trigger] t[i].name == f.name;
        t.update(i, f)
    } else {
        t.push(f)
    }
}

/// The code of a function body: the body's code, followed by `PushNull,
/// Return` when no `Return` occurs in it.
pub open spec fn function_code(body: Seq<Instruction>) -> Seq<Instruction> {
    if has_return(body) {
        body
    } else {
        body + seq![Instruction::PushNull, Instruction::Return]
    }
}

/// Generation of one node from state `st`.
pub open spec fn gen(node: Node, st: GenState) -> GenState
    decreases node, 0nat,
{
    if st.error is Some {
        st
    } else {
        match node {
            Node::Program(stmts) => gen_each(stmts@, 0, st),
            Node::ExpressionStmt(e) => emit(gen(*e, st), Instruction::Pop),
            Node::BlockStmt(stmts, _) => gen_each(stmts@, 0, st),
            Node::IfStmt { condition, then_branch, else_branch, .. } => {
                let c = gen(*condition, st);
                let jump_to_else = c.code.len() as int;
                let t = gen(*then_branch, emit(c, Instruction::JumpIfFalse(0)));
                if c.error is Some {
                    c
                } else if t.error is Some {
                    t
                } else {
                    match else_branch {
                        None => {
                            let after = t.code.len() as usize;
                            emit(
                                patch(t, jump_to_else, Instruction::JumpIfFalse(after)),
                                Instruction::Label(after),
                            )
                        },
                        Some(e) => {
                            let jump_over = t.code.len() as int;
                            let t1 = emit(t, Instruction::Jump(0));
                            let else_start = t1.code.len() as usize;
                            let t2 = emit(
                                patch(t1, jump_to_else, Instruction::JumpIfFalse(else_start)),
                                Instruction::Label(else_start),
                            );
                            let e1 = gen(*e, t2);
                            let after = e1.code.len() as usize;
                            if e1.error is Some {
                                e1
                            } else {
                                emit(
                                    patch(e1, jump_over, Instruction::Jump(after)),
                                    Instruction::Label(after),
                                )
                            }
                        },
                    }
                }
            },
            Node::WhileStmt { condition, body, .. } => {
                let start = st.code.len() as usize;
                let c = gen(*condition, emit(st, Instruction::Label(start)));
                let jump_out = c.code.len() as int;
                let b = gen(*body, emit(c, Instruction::JumpIfFalse(0)));
                if c.error is Some {
                    c
                } else if b.error is Some {
                    b
                } else {
                    let b1 = emit(b, Instruction::Jump(start));
                    let after = b1.code.len() as usize;
                    emit(patch(b1, jump_out, Instruction::JumpIfFalse(after)), Instruction::Label(after))
                }
            },
            Node::ForStmt { init, condition, increment, body, .. } => {
                let s0 = match init {
                    Some(i) => emit(gen(*i, st), Instruction::Pop),
                    None => st,
                };
                let start = s0.code.len() as usize;
                let s1 = emit(s0, Instruction::Label(start));
                let c = match condition {
                    Some(cond) => gen(*cond, s1),
                    None => emit(s1, Instruction::PushBool(true)),
                };
                let jump_out = c.code.len() as int;
                let b = gen(*body, emit(c, Instruction::JumpIfFalse(0)));
                let b1 = match increment {
                    Some(inc) => emit(gen(*inc, b), Instruction::Pop),
                    None => b,
                };
                if s0.error is Some {
                    s0
                } else if c.error is Some {
                    c
                } else if b.error is Some {
                    b
                } else if b1.error is Some {
                    b1
                } else {
                    let b2 = emit(b1, Instruction::Jump(start));
                    let after = b2.code.len() as usize;
                    emit(patch(b2, jump_out, Instruction::JumpIfFalse(after)), Instruction::Label(after))
                }
            },
            Node::ForeachStmt { array, .. } => fail(gen(*array, st), foreach_message()),
            Node::ReturnStmt(value, _) => {
                let v = match value {
                    Some(v) => gen(*v, st),
                    None => emit(st, Instruction::PushNull),
                };
                emit(v, Instruction::Return)
            },
            Node::EchoStmt(exprs, _) => gen_echo(exprs@, 0, st),
            Node::VarDecl { name, initializer, .. } => {
                let v = match initializer {
                    Some(i) => gen(*i, st),
                    None => emit(st, Instruction::PushNull),
                };
                emit(v, Instruction::StoreVar(name))
            },
            Node::FunctionDecl { name, params, body, .. } => {
                let b = gen(*body, GenState { code: Seq::empty(), ..st });
                if b.error is Some {
                    b
                } else {
                    let f = FunctionView {
                        name: name@,
                        param_count: params@.len(),
                        instructions: function_code(b.code),
                    };
                    GenState { code: st.code, functions: table_insert(b.functions, f), error: None }
                }
            },
            Node::BinaryExpr { op, left, right, .. } => {
                match operator_instruction(op) {
                    None => match *left {
                        Node::Variable(name, _) => emit(
                            emit(gen(*right, st), Instruction::StoreVar(name)),
                            Instruction::LoadVar(name),
                        ),
                        _ => fail(st, assignment_message()),
                    },
                    Some(i) => {
                        let l = gen(*left, st);
                        if l.error is Some {
                            l
                        } else {
                            emit(gen(*right, l), i)
                        }
                    },
                }
            },
            Node::UnaryExpr { op, expr, .. } => emit(gen(*expr, st), unary_instruction(op)),
            Node::Variable(name, _) => emit(st, Instruction::LoadVar(name)),
            Node::FunctionCall { name, args, .. } => emit(
                gen_args(args@, args@.len(), st),
                Instruction::Call(name, args@.len() as usize),
            ),
            Node::IntLiteral(v, _) => emit(st, Instruction::PushInt(v)),
            Node::FloatLiteral(v, _) => emit(st, Instruction::PushFloat(v)),
            Node::StringLiteral(v, _) => emit(st, Instruction::PushString(v)),
            Node::BooleanLiteral(v, _) => emit(st, Instruction::PushBool(v)),
            Node::NullLiteral(_) => emit(st, Instruction::PushNull),
            Node::ArrayLiteral(elems, _) => gen_elements(elems@, 0, emit(st, Instruction::CreateArray)),
        }
    }
}

/// Generation of the statements `all[i..]` in order.
pub open spec fn gen_each(all: Seq<Node>, i: nat, st: GenState) -> GenState
    decreases all, all.len() - i,
{
    if st.error is Some || i >= all.len() {
        st
    } else {
        gen_each(all, i + 1, gen(all[i as int], st))
    }
}

/// Generation of the echoed expressions `all[i..]`: each is followed by
/// `Echo`, the last one by `EchoLine`.
pub open spec fn gen_echo(all: Seq<Node>, i: nat, st: GenState) -> GenState
    decreases all, all.len() - i,
{
    if st.error is Some || i >= all.len() {
        st
    } else {
        let out = if i + 1 == all.len() {
            Instruction::EchoLine
        } else {
            Instruction::Echo
        };
        gen_echo(all, i + 1, emit(gen(all[i as int], st), out))
    }
}

/// Generation of the first `k` arguments, last one first.
pub open spec fn gen_args(all: Seq<Node>, k: nat, st: GenState) -> GenState
    decreases all, k,
{
    if st.error is Some || k == 0 || k > all.len() {
        st
    } else {
        gen_args(all, (k - 1) as nat, gen(all[k - 1], st))
    }
}

/// Generation of the array elements `all[i..]`: the value, then the key and
/// `ArraySet` when a key is given, else `ArrayPush`.
pub open spec fn gen_elements(all: Seq<(Option<Node>, Node)>, i: nat, st: GenState) -> GenState
    decreases all, all.len() - i,
{
    if st.error is Some || i >= all.len() {
        st
    } else {
        let v = gen(all[i as int].1, st);
        let s = match all[i as int].0 {
            Some(key) => emit(gen(key, v), Instruction::ArraySet),
            None => emit(v, Instruction::ArrayPush),
        };
        gen_elements(all, i + 1, s)
    }
}

/// Once generation has stopped on an error, generating more changes nothing.
pub broadcast proof fn lemma_gen_stopped(node: Node, st: GenState)
    requires
        st.error is Some,
    ensures
        #[trigger] gen(node, st) == st,
{
}

pub broadcast proof fn lemma_each_stopped(all: Seq<Node>, i: nat, st: GenState)
    requires
        st.error is Some,
    ensures
        #[trigger] gen_each(all, i, st) == st,
{
}

pub broadcast proof fn lemma_echo_stopped(all: Seq<Node>, i: nat, st: GenState)
    requires
        st.error is Some,
    ensures
        #[trigger] gen_echo(all, i, st) == st,
{
}

pub broadcast proof fn lemma_args_stopped(all: Seq<Node>, k: nat, st: GenState)
    requires
        st.error is Some,
    ensures
        #[trigger] gen_args(all, k, st) == st,
{
}

pub broadcast proof fn lemma_elements_stopped(all: Seq<(Option<Node>, Node)>, i: nat, st: GenState)
    requires
        st.error is Some,
    ensures
        #[trigger] gen_elements(all, i, st) == st,
{
}

pub broadcast group group_stopped {
    lemma_gen_stopped,
    lemma_each_stopped,
    lemma_echo_stopped,
    lemma_args_stopped,
    lemma_elements_stopped,
}

/// `b` starts with `a`.
pub open spec fn extends(a: Seq<Instruction>, b: Seq<Instruction>) -> bool {
    &&& a.len() <= b.len()
    &&& forall|i: int| 0 <= i < a.len() ==> #[trigger] b[i] == a[i]
}

/// A generation that succeeds only appends to the code it starts from
/// (placeholders it overwrites all lie in what it appended).
pub proof fn lemma_gen_extends(node: Node, st: GenState)
    requires
        st.error is None,
        gen(node, st).error is None,
    ensures
        extends(st.code, gen(node, st).code),
    decreases node, 1nat,
{
    broadcast use group_stopped;

    match node {
        Node::Program(stmts) => {
            assert(gen(node, st) == gen_each(stmts@, 0, st));
            lemma_each_extends(stmts@, 0, st);
        },
        Node::ExpressionStmt(e) => {
            assert(gen(node, st) == emit(gen(*e, st), Instruction::Pop));
            lemma_gen_extends(*e, st);
        },
        Node::BlockStmt(stmts, _) => {
            assert(gen(node, st) == gen_each(stmts@, 0, st));
            lemma_each_extends(stmts@, 0, st);
        },
        Node::IfStmt { .. } => lemma_if_extends(node, st),
        Node::WhileStmt { .. } => lemma_while_extends(node, st),
        Node::ForStmt { .. } => lemma_for_extends(node, st),
        Node::ReturnStmt(value, _) => {
            if let Some(v) = value {
                assert(gen(node, st) == emit(gen(*v, st), Instruction::Return));
                lemma_gen_extends(*v, st);
            }
        },
        Node::EchoStmt(exprs, _) => {
            assert(gen(node, st) == gen_echo(exprs@, 0, st));
            lemma_echo_extends(exprs@, 0, st);
        },
        Node::VarDecl { name, initializer, .. } => {
            if let Some(i) = initializer {
                assert(gen(node, st) == emit(gen(*i, st), Instruction::StoreVar(name)));
                lemma_gen_extends(*i, st);
            }
        },
        Node::BinaryExpr { .. } => lemma_binary_extends(node, st),
        Node::UnaryExpr { op, expr, .. } => {
            assert(gen(node, st) == emit(gen(*expr, st), unary_instruction(op)));
            lemma_gen_extends(*expr, st);
        },
        Node::FunctionCall { name, args, .. } => {
            assert(gen(node, st) == emit(
                gen_args(args@, args@.len(), st),
                Instruction::Call(name, args@.len() as usize),
            ));
            lemma_args_extends(args@, args@.len(), st);
        },
        Node::ArrayLiteral(elems, _) => {
            let s0 = emit(st, Instruction::CreateArray);
            assert(gen(node, st) == gen_elements(elems@, 0, s0));
            lemma_elements_extends(elems@, 0, s0);
        },
        _ => {},
    }
}

proof fn lemma_if_extends(node: Node, st: GenState)
    requires
        node is IfStmt,
        st.error is None,
        gen(node, st).error is None,
    ensures
        extends(st.code, gen(node, st).code),
    decreases node, 0nat,
{
    broadcast use group_stopped;

    if let Node::IfStmt { condition, then_branch, else_branch, .. } = node {
        let c = gen(*condition, st);
        let c1 = emit(c, Instruction::JumpIfFalse(0));
        let t = gen(*then_branch, c1);
        match else_branch {
            None => {
                let after = t.code.len() as usize;
                assert(gen(node, st) == emit(
                    patch(t, c.code.len() as int, Instruction::JumpIfFalse(after)),
                    Instruction::Label(after),
                ));
                assert(c.error is None);
                lemma_gen_extends(*condition, st);
                lemma_gen_extends(*then_branch, c1);
            },
            Some(e) => {
                let t1 = emit(t, Instruction::Jump(0));
                let else_start = t1.code.len() as usize;
                let t2 = emit(
                    patch(t1, c.code.len() as int, Instruction::JumpIfFalse(else_start)),
                    Instruction::Label(else_start),
                );
                let e1 = gen(*e, t2);
                let after = e1.code.len() as usize;
                assert(gen(node, st) == emit(
                    patch(e1, t.code.len() as int, Instruction::Jump(after)),
                    Instruction::Label(after),
                ));
                assert(e1.error is None);
                assert(t2.error is None);
                assert(c.error is None);
                lemma_gen_extends(*condition, st);
                lemma_gen_extends(*then_branch, c1);
                lemma_gen_extends(*e, t2);
            },
        }
    }
}

proof fn lemma_while_extends(node: Node, st: GenState)
    requires
        node is WhileStmt,
        st.error is None,
        gen(node, st).error is None,
    ensures
        extends(st.code, gen(node, st).code),
    decreases node, 0nat,
{
    broadcast use group_stopped;

    if let Node::WhileStmt { condition, body, .. } = node {
        let start = st.code.len() as usize;
        let s1 = emit(st, Instruction::Label(start));
        let c = gen(*condition, s1);
        let c1 = emit(c, Instruction::JumpIfFalse(0));
        let b = emit(gen(*body, c1), Instruction::Jump(start));
        let after = b.code.len() as usize;
        assert(gen(node, st) == emit(
            patch(b, c.code.len() as int, Instruction::JumpIfFalse(after)),
            Instruction::Label(after),
        ));
        assert(c.error is None);
        lemma_gen_extends(*condition, s1);
        lemma_gen_extends(*body, c1);
    }
}

proof fn lemma_for_extends(node: Node, st: GenState)
    requires
        node is ForStmt,
        st.error is None,
        gen(node, st).error is None,
    ensures
        extends(st.code, gen(node, st).code),
    decreases node, 0nat,
{
    broadcast use group_stopped;

    if let Node::ForStmt { init, condition, increment, body, .. } = node {
        let s0 = match init {
            Some(i) => emit(gen(*i, st), Instruction::Pop),
            None => st,
        };
        let start = s0.code.len() as usize;
        let s1 = emit(s0, Instruction::Label(start));
        let c = match condition {
            Some(cond) => gen(*cond, s1),
            None => emit(s1, Instruction::PushBool(true)),
        };
        let c1 = emit(c, Instruction::JumpIfFalse(0));
        let b = gen(*body, c1);
        let b1 = match increment {
            Some(inc) => emit(gen(*inc, b), Instruction::Pop),
            None => b,
        };
        let b2 = emit(b1, Instruction::Jump(start));
        let after = b2.code.len() as usize;
        assert(gen(node, st) == emit(
            patch(b2, c.code.len() as int, Instruction::JumpIfFalse(after)),
            Instruction::Label(after),
        ));
        assert(b1.error is None);
        assert(b.error is None);
        assert(c.error is None);
        assert(s0.error is None);
        if let Some(i) = init {
            lemma_gen_extends(*i, st);
        }
        if let Some(cond) = condition {
            lemma_gen_extends(*cond, s1);
        }
        lemma_gen_extends(*body, c1);
        if let Some(inc) = increment {
            lemma_gen_extends(*inc, b);
        }
    }
}

proof fn lemma_binary_extends(node: Node, st: GenState)
    requires
        node is BinaryExpr,
        st.error is None,
        gen(node, st).error is None,
    ensures
        extends(st.code, gen(node, st).code),
    decreases node, 0nat,
{
    broadcast use group_stopped;

    if let Node::BinaryExpr { op, left, right, .. } = node {
        match operator_instruction(op) {
            None => {
                if let Node::Variable(name, _) = *left {
                    assert(gen(node, st) == emit(
                        emit(gen(*right, st), Instruction::StoreVar(name)),
                        Instruction::LoadVar(name),
                    ));
                    lemma_gen_extends(*right, st);
                }
            },
            Some(i) => {
                let l = gen(*left, st);
                assert(gen(node, st) == emit(gen(*right, l), i));
                assert(l.error is None);
                lemma_gen_extends(*left, st);
                lemma_gen_extends(*right, l);
            },
        }
    }
}

pub proof fn lemma_each_extends(all: Seq<Node>, i: nat, st: GenState)
    requires
        st.error is None,
        gen_each(all, i, st).error is None,
    ensures
        extends(st.code, gen_each(all, i, st).code),
    decreases all, all.len() - i,
{
    broadcast use group_stopped;

    if i < all.len() {
        assert(gen_each(all, i, st) == gen_each(all, i + 1, gen(all[i as int], st)));
        assert(gen(all[i as int], st).error is None);
        lemma_gen_extends(all[i as int], st);
        lemma_each_extends(all, i + 1, gen(all[i as int], st));
    }
}

pub proof fn lemma_echo_extends(all: Seq<Node>, i: nat, st: GenState)
    requires
        st.error is None,
        gen_echo(all, i, st).error is None,
    ensures
        extends(st.code, gen_echo(all, i, st).code),
    decreases all, all.len() - i,
{
    broadcast use group_stopped;

    if i < all.len() {
        let out = if i + 1 == all.len() {
            Instruction::EchoLine
        } else {
            Instruction::Echo
        };
        assert(gen_echo(all, i, st) == gen_echo(all, i + 1, emit(gen(all[i as int], st), out)));
        assert(gen(all[i as int], st).error is None);
        lemma_gen_extends(all[i as int], st);
        lemma_echo_extends(all, i + 1, emit(gen(all[i as int], st), out));
    }
}

pub proof fn lemma_args_extends(all: Seq<Node>, k: nat, st: GenState)
    requires
        st.error is None,
        gen_args(all, k, st).error is None,
    ensures
        extends(st.code, gen_args(all, k, st).code),
    decreases all, k,
{
    broadcast use group_stopped;

    if 0 < k <= all.len() {
        assert(gen_args(all, k, st) == gen_args(all, (k - 1) as nat, gen(all[k - 1], st)));
        assert(gen(all[k - 1], st).error is None);
        lemma_gen_extends(all[k - 1], st);
        lemma_args_extends(all, (k - 1) as nat, gen(all[k - 1], st));
    }
}

pub proof fn lemma_elements_extends(all: Seq<(Option<Node>, Node)>, i: nat, st: GenState)
    requires
        st.error is None,
        gen_elements(all, i, st).error is None,
    ensures
        extends(st.code, gen_elements(all, i, st).code),
    decreases all, all.len() - i,
{
    broadcast use group_stopped;

    if i < all.len() {
        let v = gen(all[i as int].1, st);
        let s = match all[i as int].0 {
            Some(key) => emit(gen(key, v), Instruction::ArraySet),
            None => emit(v, Instruction::ArrayPush),
        };
        assert(gen_elements(all, i, st) == gen_elements(all, i + 1, s));
        assert(s.error is None);
        assert(v.error is None);
        lemma_gen_extends(all[i as int].1, st);
        if let Some(key) = all[i as int].0 {
            lemma_gen_extends(key, v);
        }
        lemma_elements_extends(all, i + 1, s);
    }
}

/// Code generator: turns a syntax tree into bytecode.
pub struct CodeGenerator {
    functions: Vec<Function>,
    current_instructions: Vec<Instruction>,
}

fn instruction_for(op: BinaryOp) -> (r: Instruction)
    requires
        op != BinaryOp::Assign,
    ensures
        operator_instruction(op) == Some(r),
{
    match op {
        BinaryOp::Add => Instruction::Add,
        BinaryOp::Subtract => Instruction::Subtract,
        BinaryOp::Multiply => Instruction::Multiply,
        BinaryOp::Divide => Instruction::Divide,
        BinaryOp::Modulo => Instruction::Modulo,
        BinaryOp::Equal => Instruction::Equal,
        BinaryOp::NotEqual => Instruction::NotEqual,
        BinaryOp::Less => Instruction::Less,
        BinaryOp::LessEqual => Instruction::LessEqual,
        BinaryOp::Greater => Instruction::Greater,
        BinaryOp::GreaterEqual => Instruction::GreaterEqual,
        BinaryOp::LogicalAnd => Instruction::LogicalAnd,
        BinaryOp::LogicalOr => Instruction::LogicalOr,
        BinaryOp::Concat => Instruction::Concat,
        BinaryOp::ArrayAccess => Instruction::ArrayGet,
        // excluded by the precondition
        BinaryOp::Assign => Instruction::Pop,
    }
}

fn contains_return(code: &Vec<Instruction>) -> (r: bool)
    ensures
        r == has_return(code@),
{
    let mut i: usize = 0;
    while i < code.len()
        invariant
            i <= code.len(),
            forall|j: int| 0 <= j < i ==> !(#[trigger] code@[j] is Return),
        decreases code.len() - i,
    {
        if let Instruction::Return = code[i] {
            return true;
        }
        i += 1;
    }
    false
}

fn codegen_error(message: &str) -> (r: CompilerError)
    ensures
        r == (CompilerError::CodeGenError { message: r->message }),
        r->message@ == message@,
{
    CompilerError::CodeGenError { message: String::from_str(message) }
}

impl CodeGenerator {
    /// The names of the stored functions are pairwise distinct.
    pub closed spec fn wf(&self) -> bool {
        forall|i: int, j: int|
            0 <= i < j < self.functions@.len() ==> #[trigger] self.functions@[i].name@
                != #[trigger] self.functions@[j].name@
    }

    /// The table of stored functions.
    pub closed spec fn function_views(&self) -> Seq<FunctionView> {
        self.functions@.map_values(|f: Function| f@)
    }

    /// The generation state held by this generator.
    pub closed spec fn state(&self) -> GenState {
        GenState {
            code: self.current_instructions@,
            functions: self.function_views(),
            error: None,
        }
    }

    /// This generator is well formed, holds `g` up to its error, and `r`
    /// reports that error.
    closed spec fn ends_in(&self, r: Result<()>, g: GenState) -> bool {
        &&& self.wf()
        &&& self.holds(g)
        &&& r is Ok <==> g.error is None
        &&& g.error matches Some(m) ==> r matches Err(CompilerError::CodeGenError { message })
            && message@ == m
    }

    /// Whether this generator holds `st`, up to its error.
    pub closed spec fn holds(&self, st: GenState) -> bool {
        &&& self.current_instructions@ == st.code
        &&& self.function_views() == st.functions
    }

    /// Creates a new code generator.
    pub fn new() -> (r: Self)
        ensures
            r.wf(),
            r.function_views() == Seq::<FunctionView>::empty(),
    {
        let r = CodeGenerator { functions: Vec::new(), current_instructions: Vec::new() };
        assert(r.function_views() =~= Seq::<FunctionView>::empty());
        r
    }

    /// Generates the bytecode of `node`, starting from an empty sequence and
    /// an empty function table.
    pub fn generate(&mut self, node: &Node) -> (r: Result<Vec<Instruction>>)
        ensures
            final(self).wf(),
            final(self).function_views() == gen(*node, initial_state()).functions,
            r is Ok <==> gen(*node, initial_state()).error is None,
            r matches Ok(code) ==> code@ == gen(*node, initial_state()).code,
            gen(*node, initial_state()).error matches Some(m) ==> r matches Err(
                CompilerError::CodeGenError { message },
            ) && message@ == m,
    {
        self.current_instructions = Vec::new();
        self.functions = Vec::new();
        assert(self.current_instructions@ =~= Seq::<Instruction>::empty());
        assert(self.function_views() =~= Seq::<FunctionView>::empty());
        assert(self.state() == initial_state());
        self.generate_node(node)?;
        Ok(self.current_instructions.clone())
    }

    /// The functions stored by the last generation.
    pub fn get_functions(&self) -> (r: &Vec<Function>)
        ensures
            r@.map_values(|f: Function| f@) == self.function_views(),
    {
        &self.functions
    }

    fn generate_node(&mut self, node: &Node) -> (r: Result<()>)
        requires
            old(self).wf(),
        ensures
            final(self).ends_in(r, gen(*node, old(self).state())),
        decreases node,
    {
        broadcast use group_stopped;

        let ghost st = self.state();
        match node {
            Node::Program(statements) => self.generate_each(statements),
            Node::ExpressionStmt(expr) => {
                self.generate_node(expr)?;
                // the value of an expression statement is not used
                self.push(Instruction::Pop);
                Ok(())
            },
            Node::BlockStmt(statements, _) => self.generate_each(statements),
            Node::IfStmt { condition, then_branch, else_branch, .. } => {
                self.generate_node(condition)?;
                let jump_to_else = self.current_instructions.len();
                self.push(Instruction::JumpIfFalse(0));
                let ghost c1 = self.state();
                self.generate_node(then_branch)?;
                proof {
                    lemma_gen_extends(**then_branch, c1);
                }
                match else_branch {
                    Some(else_branch) => {
                        let jump_over_else = self.current_instructions.len();
                        self.push(Instruction::Jump(0));
                        let else_start = self.current_instructions.len();
                        self.patch(jump_to_else, Instruction::JumpIfFalse(else_start));
                        self.push(Instruction::Label(else_start));
                        let ghost t2 = self.state();
                        self.generate_node(else_branch)?;
                        proof {
                            lemma_gen_extends(**else_branch, t2);
                        }
                        let after_else = self.current_instructions.len();
                        self.patch(jump_over_else, Instruction::Jump(after_else));
                        self.push(Instruction::Label(after_else));
                    },
                    None => {
                        let after_if = self.current_instructions.len();
                        self.patch(jump_to_else, Instruction::JumpIfFalse(after_if));
                        self.push(Instruction::Label(after_if));
                    },
                }
                Ok(())
            },
            Node::WhileStmt { condition, body, .. } => {
                let loop_start = self.current_instructions.len();
                self.push(Instruction::Label(loop_start));
                self.generate_node(condition)?;
                let jump_out = self.current_instructions.len();
                self.push(Instruction::JumpIfFalse(0));
                let ghost c1 = self.state();
                self.generate_node(body)?;
                proof {
                    lemma_gen_extends(**body, c1);
                }
                self.push(Instruction::Jump(loop_start));
                let after_loop = self.current_instructions.len();
                self.patch(jump_out, Instruction::JumpIfFalse(after_loop));
                self.push(Instruction::Label(after_loop));
                Ok(())
            },
            Node::ForStmt { init, condition, increment, body, .. } => {
                if let Some(init) = init {
                    self.generate_node(init)?;
                    // the initializer is an expression whose value is not used
                    self.push(Instruction::Pop);
                }
                let loop_start = self.current_instructions.len();
                self.push(Instruction::Label(loop_start));
                match condition {
                    Some(condition) => self.generate_node(condition)?,
                    // a missing condition is always true
                    None => self.push(Instruction::PushBool(true)),
                }
                let jump_out = self.current_instructions.len();
                self.push(Instruction::JumpIfFalse(0));
                let ghost c1 = self.state();
                self.generate_node(body)?;
                proof {
                    lemma_gen_extends(**body, c1);
                }
                if let Some(increment) = increment {
                    let ghost b = self.state();
                    self.generate_node(increment)?;
                    proof {
                        lemma_gen_extends(**increment, b);
                    }
                    self.push(Instruction::Pop);
                }
                self.push(Instruction::Jump(loop_start));
                let after_loop = self.current_instructions.len();
                self.patch(jump_out, Instruction::JumpIfFalse(after_loop));
                self.push(Instruction::Label(after_loop));
                Ok(())
            },
            Node::ForeachStmt { array, .. } => {
                // iteration is not supported: the array is generated, then
                // generation stops
                self.generate_node(array)?;
                Err(codegen_error("Foreach loops are not fully implemented yet"))
            },
            Node::ReturnStmt(value, _) => {
                match value {
                    Some(value) => self.generate_node(value)?,
                    None => self.push(Instruction::PushNull),
                }
                self.push(Instruction::Return);
                Ok(())
            },
            Node::EchoStmt(expressions, _) => self.generate_echo(expressions),
            Node::VarDecl { name, initializer, .. } => {
                match initializer {
                    Some(initializer) => self.generate_node(initializer)?,
                    None => self.push(Instruction::PushNull),
                }
                self.push(Instruction::StoreVar(name.clone()));
                Ok(())
            },
            Node::FunctionDecl { name, params, body, .. } => {
                // the body is generated into a sequence of its own
                let mut saved: Vec<Instruction> = Vec::new();
                std::mem::swap(&mut saved, &mut self.current_instructions);
                assert(self.state() == GenState { code: Seq::empty(), ..st });
                self.generate_node(body)?;
                let ghost b = self.state();
                if !contains_return(&self.current_instructions) {
                    self.push(Instruction::PushNull);
                    self.push(Instruction::Return);
                }
                assert(self.current_instructions@ =~= function_code(b.code));
                let mut instructions = saved;
                std::mem::swap(&mut instructions, &mut self.current_instructions);
                let function = Function { name: name.clone(), param_count: params.len(), instructions };
                self.insert_function(function);
                Ok(())
            },
            Node::BinaryExpr { op, left, right, .. } => {
                match op {
                    BinaryOp::Assign => {
                        if let Node::Variable(name, _) = &**left {
                            self.generate_node(right)?;
                            self.push(Instruction::StoreVar(name.clone()));
                            // an assignment has the assigned value as its value
                            self.push(Instruction::LoadVar(name.clone()));
                            Ok(())
                        } else {
                            Err(codegen_error("Left-hand side of assignment must be a variable"))
                        }
                    },
                    _ => {
                        self.generate_node(left)?;
                        self.generate_node(right)?;
                        self.push(instruction_for(*op));
                        Ok(())
                    },
                }
            },
            Node::UnaryExpr { op, expr, .. } => {
                self.generate_node(expr)?;
                match op {
                    UnaryOp::Negate => self.push(Instruction::Negate),
                    UnaryOp::LogicalNot => self.push(Instruction::LogicalNot),
                }
                Ok(())
            },
            Node::Variable(name, _) => {
                self.push(Instruction::LoadVar(name.clone()));
                Ok(())
            },
            Node::FunctionCall { name, args, .. } => {
                self.generate_args(args)?;
                self.push(Instruction::Call(name.clone(), args.len()));
                Ok(())
            },
            Node::IntLiteral(value, _) => {
                self.push(Instruction::PushInt(*value));
                Ok(())
            },
            Node::FloatLiteral(value, _) => {
                self.push(Instruction::PushFloat(value.clone()));
                Ok(())
            },
            Node::StringLiteral(value, _) => {
                self.push(Instruction::PushString(value.clone()));
                Ok(())
            },
            Node::BooleanLiteral(value, _) => {
                self.push(Instruction::PushBool(*value));
                Ok(())
            },
            Node::NullLiteral(_) => {
                self.push(Instruction::PushNull);
                Ok(())
            },
            Node::ArrayLiteral(elements, _) => {
                self.push(Instruction::CreateArray);
                self.generate_elements(elements)
            },
        }
    }

    fn generate_each(&mut self, all: &Vec<Node>) -> (r: Result<()>)
        requires
            old(self).wf(),
        ensures
            final(self).ends_in(r, gen_each(all@, 0, old(self).state())),
        decreases all,
    {
        broadcast use group_stopped;

        let ghost st0 = self.state();
        let mut i: usize = 0;
        while i < all.len()
            invariant
                self.wf(),
                st0 == old(self).state(),
                i <= all.len(),
                gen_each(all@, 0, st0) == gen_each(all@, i as nat, self.state()),
            decreases all.len() - i,
        {
            let ghost s = self.state();
            assert(gen_each(all@, i as nat, s) == gen_each(
                all@,
                (i + 1) as nat,
                gen(all@[i as int], s),
            ));
            let r = self.generate_node(&all[i]);
            if r.is_err() {
                return r;
            }
            i += 1;
        }
        Ok(())
    }

    fn generate_echo(&mut self, all: &Vec<Node>) -> (r: Result<()>)
        requires
            old(self).wf(),
        ensures
            final(self).ends_in(r, gen_echo(all@, 0, old(self).state())),
        decreases all,
    {
        broadcast use group_stopped;

        let ghost st0 = self.state();
        let mut i: usize = 0;
        while i < all.len()
            invariant
                self.wf(),
                st0 == old(self).state(),
                i <= all.len(),
                gen_echo(all@, 0, st0) == gen_echo(all@, i as nat, self.state()),
            decreases all.len() - i,
        {
            let ghost s = self.state();
            let ghost out = if i + 1 == all.len() {
                Instruction::EchoLine
            } else {
                Instruction::Echo
            };
            assert(gen_echo(all@, i as nat, s) == gen_echo(
                all@,
                (i + 1) as nat,
                emit(gen(all@[i as int], s), out),
            ));
            let r = self.generate_node(&all[i]);
            if r.is_err() {
                return r;
            }
            if i + 1 == all.len() {
                // the last expression ends the line
                self.push(Instruction::EchoLine);
            } else {
                self.push(Instruction::Echo);
            }
            i += 1;
        }
        Ok(())
    }

    fn generate_args(&mut self, all: &Vec<Node>) -> (r: Result<()>)
        requires
            old(self).wf(),
        ensures
            final(self).ends_in(r, gen_args(all@, all@.len(), old(self).state())),
        decreases all,
    {
        broadcast use group_stopped;

        let ghost st0 = self.state();
        let mut k: usize = all.len();
        while k > 0
            invariant
                self.wf(),
                st0 == old(self).state(),
                k <= all.len(),
                gen_args(all@, all@.len(), st0) == gen_args(all@, k as nat, self.state()),
            decreases k,
        {
            let ghost s = self.state();
            assert(gen_args(all@, k as nat, s) == gen_args(
                all@,
                (k - 1) as nat,
                gen(all@[k - 1], s),
            ));
            let r = self.generate_node(&all[k - 1]);
            if r.is_err() {
                return r;
            }
            k -= 1;
        }
        Ok(())
    }

    fn generate_elements(&mut self, all: &Vec<(Option<Node>, Node)>) -> (r: Result<()>)
        requires
            old(self).wf(),
        ensures
            final(self).ends_in(r, gen_elements(all@, 0, old(self).state())),
        decreases all,
    {
        broadcast use group_stopped;

        let ghost st0 = self.state();
        let mut i: usize = 0;
        while i < all.len()
            invariant
                self.wf(),
                st0 == old(self).state(),
                i <= all.len(),
                gen_elements(all@, 0, st0) == gen_elements(all@, i as nat, self.state()),
            decreases all.len() - i,
        {
            let ghost s = self.state();
            let element = &all[i];
            assert(gen_elements(all@, i as nat, s) == gen_elements(
                all@,
                (i + 1) as nat,
                match all@[i as int].0 {
                    Some(key) => emit(gen(key, gen(all@[i as int].1, s)), Instruction::ArraySet),
                    None => emit(gen(all@[i as int].1, s), Instruction::ArrayPush),
                },
            ));
            let r = self.generate_node(&element.1);
            if r.is_err() {
                return r;
            }
            match &element.0 {
                Some(key) => {
                    let r = self.generate_node(key);
                    if r.is_err() {
                        return r;
                    }
                    self.push(Instruction::ArraySet);
                },
                None => self.push(Instruction::ArrayPush),
            }
            i += 1;
        }
        Ok(())
    }

    fn push(&mut self, i: Instruction)
        requires
            old(self).wf(),
        ensures
            final(self).wf(),
            final(self).state() == emit(old(self).state(), i),
    {
        self.current_instructions.push(i);
        assert(self.state() =~= emit(old(self).state(), i));
    }

    fn patch(&mut self, at: usize, i: Instruction)
        requires
            old(self).wf(),
            at < old(self).current_instructions@.len(),
        ensures
            final(self).wf(),
            final(self).state() == patch(old(self).state(), at as int, i),
    {
        self.current_instructions.set(at, i);
        assert(self.state() =~= patch(old(self).state(), at as int, i));
    }

    fn insert_function(&mut self, f: Function)
        requires
            old(self).wf(),
        ensures
            final(self).wf(),
            final(self).current_instructions@ == old(self).current_instructions@,
            final(self).function_views() == table_insert(old(self).function_views(), f@),
    {
        let ghost t = self.function_views();
        let mut i: usize = 0;
        while i < self.functions.len()
            invariant
                self == old(self),
                self.wf(),
                i <= self.functions.len(),
                t == self.function_views(),
                forall|j: int| 0 <= j < i ==> (#[trigger] self.functions@[j]).name@ != f.name@,
            decreases self.functions.len() - i,
        {
            if self.functions[i].name == f.name {
                proof {
                    assert(t[i as int].name == f@.name);
                    let c = choose|c: int| 0 <= c < t.len() && #[trigger] t[c].name == f@.name;
                    assert(t[c].name == f@.name);
                    assert(c == i);
                }
                self.functions.set(i, f);
                assert(self.function_views() =~= t.update(i as int, f@));
                return;
            }
            i += 1;
        }
        proof {
            assert forall|j: int| 0 <= j < t.len() implies #[trigger] t[j].name != f@.name by {
                assert(t[j].name == self.functions@[j].name@);
            }
        }
        self.functions.push(f);
        assert(self.function_views() =~= t.push(f@));
    }
}

} // verus!
