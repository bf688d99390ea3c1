//! Laws of bytecode generation, stated over the model of `codegen`.
use vstd::prelude::*;
use crate::ast::{BinaryOp, Location, Node, Type};
use crate::codegen::{
    emit, extends, function_code, gen, gen_args, gen_each, gen_echo, gen_elements, group_stopped,
    has_return, initial_state, lemma_args_extends, lemma_each_extends, lemma_echo_extends,
    lemma_elements_extends, lemma_gen_extends, operator_instruction, patch, table_insert, unary_instruction,
    FunctionView, GenState, Instruction,
};

verus! {

/// A binary operator other than assignment generates its left operand's
/// code, then its right operand's code, then the operator's one instruction.
pub proof fn law_binary_operand_order(
    op: BinaryOp,
    left: Box<Node>,
    right: Box<Node>,
    location: Location,
    st: GenState,
)
    requires
        op != BinaryOp::Assign,
        st.error is None,
        gen(Node::BinaryExpr { op, left, right, location }, st).error is None,
    ensures
        ({
            let l = gen(*left, st);
            let r = gen(*right, l);
            &&& l.error is None
            &&& r.error is None
            &&& gen(Node::BinaryExpr { op, left, right, location }, st).code == st.code
                + l.code.skip(st.code.len() as int) + r.code.skip(l.code.len() as int)
                + seq![operator_instruction(op)->0]
        }),
{
    broadcast use group_stopped;

    let l = gen(*left, st);
    let r = gen(*right, l);
    assert(l.error is None);
    lemma_gen_extends(*left, st);
    lemma_gen_extends(*right, l);
    assert(r.code =~= st.code + l.code.skip(st.code.len() as int) + r.code.skip(
        l.code.len() as int,
    ));
}

/// In an `if` without `else`, the jump-if-false placed after the condition
/// targets the label placed right after the then-branch's code.
pub proof fn law_if_without_else(
    condition: Box<Node>,
    then_branch: Box<Node>,
    location: Location,
    st: GenState,
)
    requires
        st.error is None,
        gen(Node::IfStmt { condition, then_branch, else_branch: None, location }, st).error is None,
    ensures
        ({
            let g = gen(Node::IfStmt { condition, then_branch, else_branch: None, location }, st);
            let c = gen(*condition, st);
            let t = gen(*then_branch, emit(c, Instruction::JumpIfFalse(0)));
            let jump = c.code.len() as int;
            let label = t.code.len() as int;
            &&& jump < label
            &&& label == g.code.len() - 1
            &&& g.code[jump] == Instruction::JumpIfFalse(label as usize)
            &&& g.code[label] == Instruction::Label(label as usize)
            &&& g.code.subrange(jump + 1, label) == t.code.subrange(jump + 1, label)
        }),
{
    let c = gen(*condition, st);
    let c1 = emit(c, Instruction::JumpIfFalse(0));
    let t = gen(*then_branch, c1);
    assert(c.error is None);
    lemma_gen_extends(*then_branch, c1);
    let g = gen(Node::IfStmt { condition, then_branch, else_branch: None, location }, st);
    let label = t.code.len() as int;
    let jump = c.code.len() as int;
    assert(g.code.subrange(jump + 1, label) =~= t.code.subrange(jump + 1, label));
}

/// In a `while` loop, the back-jump targets the loop-start label, and the
/// jump-if-false targets the index right after the back-jump, where a label
/// is placed.
pub proof fn law_while_jumps(condition: Box<Node>, body: Box<Node>, location: Location, st: GenState)
    requires
        st.error is None,
        gen(Node::WhileStmt { condition, body, location }, st).error is None,
    ensures
        ({
            let g = gen(Node::WhileStmt { condition, body, location }, st);
            let start = st.code.len() as int;
            let c = gen(*condition, emit(st, Instruction::Label(start as usize)));
            let jump = c.code.len() as int;
            let back = g.code.len() - 2;
            &&& start < jump < back
            &&& g.code[start] == Instruction::Label(start as usize)
            &&& g.code[back] == Instruction::Jump(start as usize)
            &&& g.code[jump] == Instruction::JumpIfFalse((back + 1) as usize)
            &&& g.code[back + 1] == Instruction::Label((back + 1) as usize)
        }),
{
    let start = st.code.len() as usize;
    let s1 = emit(st, Instruction::Label(start));
    let c = gen(*condition, s1);
    let c1 = emit(c, Instruction::JumpIfFalse(0));
    let b = gen(*body, c1);
    assert(c.error is None);
    assert(b.error is None);
    lemma_gen_extends(*condition, s1);
    lemma_gen_extends(*body, c1);
}

/// An assignment to a variable, used as a statement, reloads the variable
/// right before the statement's final discard: the assignment's value is the
/// stored value.
pub proof fn law_assignment_value(
    name: String,
    left: Box<Node>,
    right: Box<Node>,
    location: Location,
    st: GenState,
)
    requires
        *left matches Node::Variable(n, _) && n == name,
        st.error is None,
        gen(*right, st).error is None,
    ensures
        ({
            let g = gen(
                Node::ExpressionStmt(
                    Box::new(Node::BinaryExpr { op: BinaryOp::Assign, left, right, location }),
                ),
                st,
            );
            let n = g.code.len();
            &&& g.error is None
            &&& n >= 3
            &&& g.code[n - 1] == Instruction::Pop
            &&& g.code[n - 2] == Instruction::LoadVar(name)
            &&& g.code[n - 3] == Instruction::StoreVar(name)
        }),
{
    let b = Node::BinaryExpr { op: BinaryOp::Assign, left, right, location };
    let r = gen(*right, st);
    assert(gen(b, st) == emit(
        emit(r, Instruction::StoreVar(name)),
        Instruction::LoadVar(name),
    ));
    assert(gen(Node::ExpressionStmt(Box::new(b)), st) == emit(gen(b, st), Instruction::Pop));
}

/// Two generation states agree on everything but the function table.
pub open spec fn same_code(a: GenState, b: GenState) -> bool {
    a.code == b.code && a.error == b.error
}

/// The instruction sequence produced for a tree, and whether generation
/// fails, do not depend on the function table that generation starts with:
/// generating the same tree twice, each time from an empty sequence, gives
/// the same sequence index for index.
pub proof fn law_generation_repeatable(node: Node, functions1: Seq<FunctionView>, functions2: Seq<FunctionView>)
    ensures
        same_code(
            gen(node, GenState { functions: functions1, ..initial_state() }),
            gen(node, GenState { functions: functions2, ..initial_state() }),
        ),
{
    lemma_same_code(
        node,
        GenState { functions: functions1, ..initial_state() },
        GenState { functions: functions2, ..initial_state() },
    );
}

proof fn lemma_same_code(node: Node, st1: GenState, st2: GenState)
    requires
        same_code(st1, st2),
    ensures
        same_code(gen(node, st1), gen(node, st2)),
    decreases node, 1nat,
{
    broadcast use group_stopped;

    if st1.error is None {
        match node {
            Node::Program(stmts) => {
                assert(gen(node, st1) == gen_each(stmts@, 0, st1));
                assert(gen(node, st2) == gen_each(stmts@, 0, st2));
                lemma_each_same(stmts@, 0, st1, st2);
            },
            Node::BlockStmt(stmts, _) => {
                assert(gen(node, st1) == gen_each(stmts@, 0, st1));
                assert(gen(node, st2) == gen_each(stmts@, 0, st2));
                lemma_each_same(stmts@, 0, st1, st2);
            },
            Node::ExpressionStmt(e) => {
                assert(gen(node, st1) == emit(gen(*e, st1), Instruction::Pop));
                assert(gen(node, st2) == emit(gen(*e, st2), Instruction::Pop));
                lemma_same_code(*e, st1, st2);
            },
            Node::IfStmt { .. } => lemma_if_same(node, st1, st2),
            Node::WhileStmt { .. } => lemma_while_same(node, st1, st2),
            Node::ForStmt { .. } => lemma_for_same(node, st1, st2),
            Node::ForeachStmt { array, .. } => lemma_same_code(*array, st1, st2),
            Node::ReturnStmt(value, _) => {
                if let Some(v) = value {
                    assert(gen(node, st1) == emit(gen(*v, st1), Instruction::Return));
                    assert(gen(node, st2) == emit(gen(*v, st2), Instruction::Return));
                    lemma_same_code(*v, st1, st2);
                }
            },
            Node::EchoStmt(exprs, _) => {
                assert(gen(node, st1) == gen_echo(exprs@, 0, st1));
                assert(gen(node, st2) == gen_echo(exprs@, 0, st2));
                lemma_echo_same(exprs@, 0, st1, st2);
            },
            Node::VarDecl { name, initializer, .. } => {
                if let Some(i) = initializer {
                    assert(gen(node, st1) == emit(gen(*i, st1), Instruction::StoreVar(name)));
                    assert(gen(node, st2) == emit(gen(*i, st2), Instruction::StoreVar(name)));
                    lemma_same_code(*i, st1, st2);
                }
            },
            Node::FunctionDecl { body, .. } => {
                lemma_same_code(
                    *body,
                    GenState { code: Seq::empty(), ..st1 },
                    GenState { code: Seq::empty(), ..st2 },
                );
            },
            Node::BinaryExpr { .. } => lemma_binary_same(node, st1, st2),
            Node::UnaryExpr { op, expr, .. } => {
                assert(gen(node, st1) == emit(gen(*expr, st1), unary_instruction(op)));
                assert(gen(node, st2) == emit(gen(*expr, st2), unary_instruction(op)));
                lemma_same_code(*expr, st1, st2);
            },
            Node::FunctionCall { name, args, .. } => {
                let call = Instruction::Call(name, args@.len() as usize);
                assert(gen(node, st1) == emit(gen_args(args@, args@.len(), st1), call));
                assert(gen(node, st2) == emit(gen_args(args@, args@.len(), st2), call));
                lemma_args_same(args@, args@.len(), st1, st2);
            },
            Node::ArrayLiteral(elems, _) => {
                let s1 = emit(st1, Instruction::CreateArray);
                let s2 = emit(st2, Instruction::CreateArray);
                assert(gen(node, st1) == gen_elements(elems@, 0, s1));
                assert(gen(node, st2) == gen_elements(elems@, 0, s2));
                lemma_elements_same(elems@, 0, s1, s2);
            },
            _ => {},
        }
    }
}

proof fn lemma_if_same(node: Node, st1: GenState, st2: GenState)
    requires
        node is IfStmt,
        st1.error is None,
        same_code(st1, st2),
    ensures
        same_code(gen(node, st1), gen(node, st2)),
    decreases node, 0nat,
{
    broadcast use group_stopped;

    if let Node::IfStmt { condition, then_branch, else_branch, .. } = node {
        let c1 = gen(*condition, st1);
        let c2 = gen(*condition, st2);
        lemma_same_code(*condition, st1, st2);
        let t1 = gen(*then_branch, emit(c1, Instruction::JumpIfFalse(0)));
        let t2 = gen(*then_branch, emit(c2, Instruction::JumpIfFalse(0)));
        lemma_same_code(
            *then_branch,
            emit(c1, Instruction::JumpIfFalse(0)),
            emit(c2, Instruction::JumpIfFalse(0)),
        );
        if let Some(e) = else_branch {
            let jump = c1.code.len() as int;
            let u1 = emit(t1, Instruction::Jump(0));
            let u2 = emit(t2, Instruction::Jump(0));
            let es = u1.code.len() as usize;
            let w1 = emit(patch(u1, jump, Instruction::JumpIfFalse(es)), Instruction::Label(es));
            let w2 = emit(patch(u2, jump, Instruction::JumpIfFalse(es)), Instruction::Label(es));
            lemma_same_code(*e, w1, w2);
        }
    }
}

proof fn lemma_while_same(node: Node, st1: GenState, st2: GenState)
    requires
        node is WhileStmt,
        st1.error is None,
        same_code(st1, st2),
    ensures
        same_code(gen(node, st1), gen(node, st2)),
    decreases node, 0nat,
{
    broadcast use group_stopped;

    if let Node::WhileStmt { condition, body, .. } = node {
        let start = st1.code.len() as usize;
        let s1 = emit(st1, Instruction::Label(start));
        let s2 = emit(st2, Instruction::Label(start));
        lemma_same_code(*condition, s1, s2);
        let c1 = gen(*condition, s1);
        let c2 = gen(*condition, s2);
        lemma_same_code(
            *body,
            emit(c1, Instruction::JumpIfFalse(0)),
            emit(c2, Instruction::JumpIfFalse(0)),
        );
    }
}

proof fn lemma_for_same(node: Node, st1: GenState, st2: GenState)
    requires
        node is ForStmt,
        st1.error is None,
        same_code(st1, st2),
    ensures
        same_code(gen(node, st1), gen(node, st2)),
    decreases node, 0nat,
{
    broadcast use group_stopped;

    if let Node::ForStmt { init, condition, increment, body, .. } = node {
        let a1 = match init {
            Some(i) => emit(gen(*i, st1), Instruction::Pop),
            None => st1,
        };
        let a2 = match init {
            Some(i) => emit(gen(*i, st2), Instruction::Pop),
            None => st2,
        };
        if let Some(i) = init {
            lemma_same_code(*i, st1, st2);
        }
        let start = a1.code.len() as usize;
        let s1 = emit(a1, Instruction::Label(start));
        let s2 = emit(a2, Instruction::Label(start));
        let c1 = match condition {
            Some(cond) => gen(*cond, s1),
            None => emit(s1, Instruction::PushBool(true)),
        };
        let c2 = match condition {
            Some(cond) => gen(*cond, s2),
            None => emit(s2, Instruction::PushBool(true)),
        };
        if let Some(cond) = condition {
            lemma_same_code(*cond, s1, s2);
        }
        let b1 = gen(*body, emit(c1, Instruction::JumpIfFalse(0)));
        let b2 = gen(*body, emit(c2, Instruction::JumpIfFalse(0)));
        lemma_same_code(
            *body,
            emit(c1, Instruction::JumpIfFalse(0)),
            emit(c2, Instruction::JumpIfFalse(0)),
        );
        if let Some(inc) = increment {
            lemma_same_code(*inc, b1, b2);
        }
    }
}

proof fn lemma_binary_same(node: Node, st1: GenState, st2: GenState)
    requires
        node is BinaryExpr,
        st1.error is None,
        same_code(st1, st2),
    ensures
        same_code(gen(node, st1), gen(node, st2)),
    decreases node, 0nat,
{
    broadcast use group_stopped;

    if let Node::BinaryExpr { op, left, right, .. } = node {
        match operator_instruction(op) {
            None => {
                if let Node::Variable(name, _) = *left {
                    assert(gen(node, st1) == emit(
                        emit(gen(*right, st1), Instruction::StoreVar(name)),
                        Instruction::LoadVar(name),
                    ));
                    assert(gen(node, st2) == emit(
                        emit(gen(*right, st2), Instruction::StoreVar(name)),
                        Instruction::LoadVar(name),
                    ));
                    lemma_same_code(*right, st1, st2);
                }
            },
            Some(i) => {
                lemma_same_code(*left, st1, st2);
                lemma_same_code(*right, gen(*left, st1), gen(*left, st2));
            },
        }
    }
}

proof fn lemma_each_same(all: Seq<Node>, i: nat, st1: GenState, st2: GenState)
    requires
        same_code(st1, st2),
    ensures
        same_code(gen_each(all, i, st1), gen_each(all, i, st2)),
    decreases all, all.len() - i,
{
    broadcast use group_stopped;

    if st1.error is None && i < all.len() {
        assert(gen_each(all, i, st1) == gen_each(all, i + 1, gen(all[i as int], st1)));
        assert(gen_each(all, i, st2) == gen_each(all, i + 1, gen(all[i as int], st2)));
        lemma_same_code(all[i as int], st1, st2);
        lemma_each_same(all, i + 1, gen(all[i as int], st1), gen(all[i as int], st2));
    }
}

proof fn lemma_echo_same(all: Seq<Node>, i: nat, st1: GenState, st2: GenState)
    requires
        same_code(st1, st2),
    ensures
        same_code(gen_echo(all, i, st1), gen_echo(all, i, st2)),
    decreases all, all.len() - i,
{
    broadcast use group_stopped;

    if st1.error is None && i < all.len() {
        let out = if i + 1 == all.len() {
            Instruction::EchoLine
        } else {
            Instruction::Echo
        };
        let n1 = emit(gen(all[i as int], st1), out);
        let n2 = emit(gen(all[i as int], st2), out);
        assert(gen_echo(all, i, st1) == gen_echo(all, i + 1, n1));
        assert(gen_echo(all, i, st2) == gen_echo(all, i + 1, n2));
        lemma_same_code(all[i as int], st1, st2);
        lemma_echo_same(all, i + 1, n1, n2);
    }
}

proof fn lemma_args_same(all: Seq<Node>, k: nat, st1: GenState, st2: GenState)
    requires
        same_code(st1, st2),
    ensures
        same_code(gen_args(all, k, st1), gen_args(all, k, st2)),
    decreases all, k,
{
    broadcast use group_stopped;

    if st1.error is None && 0 < k <= all.len() {
        assert(gen_args(all, k, st1) == gen_args(all, (k - 1) as nat, gen(all[k - 1], st1)));
        assert(gen_args(all, k, st2) == gen_args(all, (k - 1) as nat, gen(all[k - 1], st2)));
        lemma_same_code(all[k - 1], st1, st2);
        lemma_args_same(all, (k - 1) as nat, gen(all[k - 1], st1), gen(all[k - 1], st2));
    }
}

proof fn lemma_elements_same(
    all: Seq<(Option<Node>, Node)>,
    i: nat,
    st1: GenState,
    st2: GenState,
)
    requires
        same_code(st1, st2),
    ensures
        same_code(gen_elements(all, i, st1), gen_elements(all, i, st2)),
    decreases all, all.len() - i,
{
    broadcast use group_stopped;

    if st1.error is None && i < all.len() {
        let v1 = gen(all[i as int].1, st1);
        let v2 = gen(all[i as int].1, st2);
        lemma_same_code(all[i as int].1, st1, st2);
        let n1 = match all[i as int].0 {
            Some(key) => emit(gen(key, v1), Instruction::ArraySet),
            None => emit(v1, Instruction::ArrayPush),
        };
        let n2 = match all[i as int].0 {
            Some(key) => emit(gen(key, v2), Instruction::ArraySet),
            None => emit(v2, Instruction::ArrayPush),
        };
        if let Some(key) = all[i as int].0 {
            lemma_same_code(key, v1, v2);
        }
        assert(gen_elements(all, i, st1) == gen_elements(all, i + 1, n1));
        assert(gen_elements(all, i, st2) == gen_elements(all, i + 1, n2));
        lemma_elements_same(all, i + 1, n1, n2);
    }
}

/// A function declaration stores, under its name, the code of its body
/// generated into a sequence of its own: that code ends in `PushNull,
/// Return` when no `Return` occurs in the body, and its jumps target labels
/// within it (for a body whose indices fit in `usize`).
pub proof fn law_function_declaration(
    name: String,
    params: Vec<(String, Option<Type>)>,
    body: Box<Node>,
    location: Location,
    st: GenState,
)
    requires
        st.error is None,
        gen(Node::FunctionDecl { name, params, body, location }, st).error is None,
        gen(*body, GenState { code: Seq::empty(), ..st }).code.len() < usize::MAX,
    ensures
        ({
            let g = gen(Node::FunctionDecl { name, params, body, location }, st);
            let b = gen(*body, GenState { code: Seq::empty(), ..st }).code;
            let code = function_code(b);
            &&& g.code == st.code
            &&& exists|k: int|
                0 <= k < g.functions.len() && #[trigger] g.functions[k] == FunctionView {
                    name: name@,
                    param_count: params@.len(),
                    instructions: code,
                }
            &&& !has_return(b) ==> code.len() >= 2 && code[code.len() - 2] == Instruction::PushNull
                && code[code.len() - 1] == Instruction::Return
            &&& jumps_resolved(code, 0)
        }),
{
    let s0 = GenState { code: Seq::empty(), ..st };
    let bs = gen(*body, s0);
    let code = function_code(bs.code);
    let f = FunctionView { name: name@, param_count: params@.len(), instructions: code };
    let t = table_insert(bs.functions, f);
    let g = gen(Node::FunctionDecl { name, params, body, location }, st);
    assert(bs.error is None);
    assert(g == GenState { code: st.code, functions: t, error: None });
    if exists|i: int| 0 <= i < bs.functions.len() && #[trigger] bs.functions[i].name == f.name {
        let i = choose|i: int|
            0 <= i < bs.functions.len() && #[trigger] bs.functions[i].name == f.name;
        assert(g.functions[i] == f);
    } else {
        assert(g.functions[t.len() - 1] == f);
    }
    lemma_gen_resolved(*body, s0, 0);
    if !has_return(bs.code) {
        let b1 = emit(bs, Instruction::PushNull);
        let b2 = emit(b1, Instruction::Return);
        lemma_emit_resolved(bs, 0, Instruction::PushNull);
        lemma_emit_resolved(b1, 0, Instruction::Return);
        assert(b2.code =~= code);
    }
}

/// The jump at `i`, if any, targets a label within `code[from..]` that
/// carries its own index.
pub open spec fn jump_resolved(code: Seq<Instruction>, from: int, i: int) -> bool {
    match code[i] {
        Instruction::Jump(t) => label_at(code, from, t),
        Instruction::JumpIfFalse(t) => label_at(code, from, t),
        Instruction::JumpIfTrue(t) => label_at(code, from, t),
        _ => true,
    }
}

/// `code[t]`, within `code[from..]`, is the label of `t`.
pub open spec fn label_at(code: Seq<Instruction>, from: int, t: usize) -> bool {
    from <= t < code.len() && code[t as int] == Instruction::Label(t)
}

/// Every jump in `code[from..]` targets a label in `code[from..]`.
pub open spec fn jumps_resolved(code: Seq<Instruction>, from: int) -> bool {
    forall|i: int| from <= i < code.len() ==> #[trigger] jump_resolved(code, from, i)
}

/// The code from `from` on has its jumps resolved.
pub open spec fn resolved(st: GenState, from: int) -> bool {
    &&& 0 <= from <= st.code.len()
    &&& jumps_resolved(st.code, from)
}

pub open spec fn is_jump(ins: Instruction) -> bool {
    ins is Jump || ins is JumpIfFalse || ins is JumpIfTrue
}

/// Every jump that bytecode generation emits targets a `Label` that carries
/// the jump's target index, within the same sequence (for a sequence whose
/// indices fit in `usize`).
pub proof fn law_jumps_target_labels(node: Node)
    requires
        gen(node, initial_state()).error is None,
        gen(node, initial_state()).code.len() < usize::MAX,
    ensures
        resolved(gen(node, initial_state()), 0),
{
    lemma_gen_resolved(node, initial_state(), 0);
}

proof fn lemma_transfer(a: Seq<Instruction>, b: Seq<Instruction>, from: int, i: int)
    requires
        extends(a, b),
        0 <= from <= i < a.len(),
        jump_resolved(a, from, i),
    ensures
        jump_resolved(b, from, i),
{
    assert(b[i] == a[i]);
    match a[i] {
        Instruction::Jump(t) => assert(b[t as int] == a[t as int]),
        Instruction::JumpIfFalse(t) => assert(b[t as int] == a[t as int]),
        Instruction::JumpIfTrue(t) => assert(b[t as int] == a[t as int]),
        _ => {},
    }
}

proof fn lemma_extend_resolved(a: Seq<Instruction>, b: Seq<Instruction>, from: int)
    requires
        0 <= from,
        jumps_resolved(a, from),
        extends(a, b),
    ensures
        forall|i: int| from <= i < a.len() ==> #[trigger] jump_resolved(b, from, i),
{
    assert forall|i: int| from <= i < a.len() implies #[trigger] jump_resolved(b, from, i) by {
        assert(jump_resolved(a, from, i));
        lemma_transfer(a, b, from, i);
    }
}

proof fn lemma_widen_resolved(code: Seq<Instruction>, from: int, later: int)
    requires
        from <= later,
        jumps_resolved(code, later),
    ensures
        forall|i: int| later <= i < code.len() ==> #[trigger] jump_resolved(code, from, i),
{
    assert forall|i: int| later <= i < code.len() implies #[trigger] jump_resolved(
        code,
        from,
        i,
    ) by {
        assert(jump_resolved(code, later, i));
    }
}

proof fn lemma_emit_resolved(st: GenState, from: int, ins: Instruction)
    requires
        resolved(st, from),
        !is_jump(ins),
    ensures
        resolved(emit(st, ins), from),
{
    if st.error is None {
        let c = st.code.push(ins);
        assert forall|i: int| from <= i < c.len() implies #[trigger] jump_resolved(c, from, i) by {
            if i < st.code.len() {
                assert(jump_resolved(st.code, from, i));
            }
        }
    }
}

/// Backpatching: the placeholder at `at` becomes a jump to the current end,
/// where a label is appended.
proof fn lemma_patch_resolved(st: GenState, from: int, at: int, jump: Instruction)
    requires
        st.error is None,
        0 <= from <= at < st.code.len() < usize::MAX,
        !(st.code[at] is Label),
        forall|i: int|
            from <= i < st.code.len() && i != at ==> #[trigger] jump_resolved(st.code, from, i),
        jump == Instruction::Jump(st.code.len() as usize) || jump == Instruction::JumpIfFalse(
            st.code.len() as usize,
        ),
    ensures
        resolved(emit(patch(st, at, jump), Instruction::Label(st.code.len() as usize)), from),
{
    let n = st.code.len();
    let c = st.code.update(at, jump).push(Instruction::Label(n as usize));
    assert forall|i: int| from <= i < c.len() implies #[trigger] jump_resolved(c, from, i) by {
        if i != at && i < n {
            assert(jump_resolved(st.code, from, i));
        }
    }
}

proof fn lemma_gen_resolved(node: Node, st: GenState, from: int)
    requires
        st.error is None,
        gen(node, st).error is None,
        gen(node, st).code.len() < usize::MAX,
        resolved(st, from),
    ensures
        resolved(gen(node, st), from),
    decreases node, 1nat,
{
    broadcast use group_stopped;

    match node {
        Node::Program(stmts) => {
            assert(gen(node, st) == gen_each(stmts@, 0, st));
            lemma_each_resolved(stmts@, 0, st, from);
        },
        Node::BlockStmt(stmts, _) => {
            assert(gen(node, st) == gen_each(stmts@, 0, st));
            lemma_each_resolved(stmts@, 0, st, from);
        },
        Node::ExpressionStmt(e) => {
            assert(gen(node, st) == emit(gen(*e, st), Instruction::Pop));
            lemma_gen_resolved(*e, st, from);
            lemma_emit_resolved(gen(*e, st), from, Instruction::Pop);
        },
        Node::IfStmt { .. } => lemma_if_resolved(node, st, from),
        Node::WhileStmt { .. } => lemma_while_resolved(node, st, from),
        Node::ForStmt { .. } => lemma_for_resolved(node, st, from),
        Node::ReturnStmt(value, _) => {
            let v = match value {
                Some(v) => gen(*v, st),
                None => emit(st, Instruction::PushNull),
            };
            assert(gen(node, st) == emit(v, Instruction::Return));
            match value {
                Some(e) => lemma_gen_resolved(*e, st, from),
                None => lemma_emit_resolved(st, from, Instruction::PushNull),
            }
            lemma_emit_resolved(v, from, Instruction::Return);
        },
        Node::EchoStmt(exprs, _) => {
            assert(gen(node, st) == gen_echo(exprs@, 0, st));
            lemma_echo_resolved(exprs@, 0, st, from);
        },
        Node::VarDecl { name, initializer, .. } => {
            let v = match initializer {
                Some(i) => gen(*i, st),
                None => emit(st, Instruction::PushNull),
            };
            assert(gen(node, st) == emit(v, Instruction::StoreVar(name)));
            match initializer {
                Some(e) => lemma_gen_resolved(*e, st, from),
                None => lemma_emit_resolved(st, from, Instruction::PushNull),
            }
            lemma_emit_resolved(v, from, Instruction::StoreVar(name));
        },
        Node::FunctionDecl { .. } => {},
        Node::BinaryExpr { .. } => lemma_binary_resolved(node, st, from),
        Node::UnaryExpr { op, expr, .. } => {
            assert(gen(node, st) == emit(gen(*expr, st), unary_instruction(op)));
            lemma_gen_resolved(*expr, st, from);
            lemma_emit_resolved(gen(*expr, st), from, unary_instruction(op));
        },
        Node::FunctionCall { name, args, .. } => {
            let call = Instruction::Call(name, args@.len() as usize);
            assert(gen(node, st) == emit(gen_args(args@, args@.len(), st), call));
            lemma_args_resolved(args@, args@.len(), st, from);
            lemma_emit_resolved(gen_args(args@, args@.len(), st), from, call);
        },
        Node::ArrayLiteral(elems, _) => {
            let s0 = emit(st, Instruction::CreateArray);
            assert(gen(node, st) == gen_elements(elems@, 0, s0));
            lemma_emit_resolved(st, from, Instruction::CreateArray);
            lemma_elements_resolved(elems@, 0, s0, from);
        },
        Node::ForeachStmt { .. } => {},
        Node::Variable(name, _) => lemma_emit_resolved(st, from, Instruction::LoadVar(name)),
        Node::IntLiteral(v, _) => lemma_emit_resolved(st, from, Instruction::PushInt(v)),
        Node::FloatLiteral(v, _) => lemma_emit_resolved(st, from, Instruction::PushFloat(v)),
        Node::StringLiteral(v, _) => lemma_emit_resolved(st, from, Instruction::PushString(v)),
        Node::BooleanLiteral(v, _) => lemma_emit_resolved(st, from, Instruction::PushBool(v)),
        Node::NullLiteral(_) => lemma_emit_resolved(st, from, Instruction::PushNull),
    }
}

proof fn lemma_if_resolved(node: Node, st: GenState, from: int)
    requires
        node is IfStmt,
        st.error is None,
        gen(node, st).error is None,
        gen(node, st).code.len() < usize::MAX,
        resolved(st, from),
    ensures
        resolved(gen(node, st), from),
    decreases node, 0nat,
{
    broadcast use group_stopped;

    if let Node::IfStmt { condition, then_branch, else_branch, .. } = node {
        let c = gen(*condition, st);
        let j = c.code.len() as int;
        let c1 = emit(c, Instruction::JumpIfFalse(0));
        let t = gen(*then_branch, c1);
        assert(c.error is None);
        assert(t.error is None);
        lemma_gen_extends(*then_branch, c1);
        if let Some(e) = else_branch {
            let t1 = emit(t, Instruction::Jump(0));
            let es = t1.code.len() as usize;
            let t2 = emit(patch(t1, j, Instruction::JumpIfFalse(es)), Instruction::Label(es));
            assert(gen(*e, t2).error is None);
            lemma_gen_extends(*e, t2);
        }
        lemma_gen_resolved(*condition, st, from);
        lemma_gen_resolved(*then_branch, c1, j + 1);
        lemma_extend_resolved(c.code, t.code, from);
        lemma_widen_resolved(t.code, from, j + 1);
        match else_branch {
            None => {
                let after = t.code.len() as usize;
                assert(gen(node, st) == emit(
                    patch(t, j, Instruction::JumpIfFalse(after)),
                    Instruction::Label(after),
                ));
                lemma_patch_resolved(t, from, j, Instruction::JumpIfFalse(after));
            },
            Some(e) => {
                let k = t.code.len() as int;
                let t1 = emit(t, Instruction::Jump(0));
                let es = t1.code.len() as usize;
                let t2 = emit(
                    patch(t1, j, Instruction::JumpIfFalse(es)),
                    Instruction::Label(es),
                );
                let e1 = gen(*e, t2);
                let after = e1.code.len() as usize;
                assert(gen(node, st) == emit(
                    patch(e1, k, Instruction::Jump(after)),
                    Instruction::Label(after),
                ));
                assert(e1.error is None);
                // jumps before the else branch, but for the one over it
                assert forall|i: int|
                    from <= i < t2.code.len() && i != k implies #[trigger] jump_resolved(
                    t2.code,
                    from,
                    i,
                ) by {
                    if i < j || j < i < k {
                        assert(jump_resolved(t.code, from, i));
                        lemma_transfer(t.code, t1.code, from, i);
                        assert(jump_resolved(t1.code, from, i));
                        match t1.code[i] {
                            Instruction::Jump(x) => assert(x as int != j),
                            Instruction::JumpIfFalse(x) => assert(x as int != j),
                            Instruction::JumpIfTrue(x) => assert(x as int != j),
                            _ => {},
                        }
                    }
                }
                lemma_gen_resolved(*e, t2, t2.code.len() as int);
                lemma_widen_resolved(e1.code, from, t2.code.len() as int);
                assert forall|i: int|
                    from <= i < e1.code.len() && i != k implies #[trigger] jump_resolved(
                    e1.code,
                    from,
                    i,
                ) by {
                    if i < t2.code.len() {
                        assert(jump_resolved(t2.code, from, i));
                        lemma_transfer(t2.code, e1.code, from, i);
                    }
                }
                lemma_patch_resolved(e1, from, k, Instruction::Jump(after));
            },
        }
    }
}

proof fn lemma_while_resolved(node: Node, st: GenState, from: int)
    requires
        node is WhileStmt,
        st.error is None,
        gen(node, st).error is None,
        gen(node, st).code.len() < usize::MAX,
        resolved(st, from),
    ensures
        resolved(gen(node, st), from),
    decreases node, 0nat,
{
    broadcast use group_stopped;

    if let Node::WhileStmt { condition, body, .. } = node {
        let start = st.code.len() as usize;
        let s1 = emit(st, Instruction::Label(start));
        let c = gen(*condition, s1);
        let j = c.code.len() as int;
        let c1 = emit(c, Instruction::JumpIfFalse(0));
        let b = gen(*body, c1);
        let b1 = emit(b, Instruction::Jump(start));
        let after = b1.code.len() as usize;
        assert(gen(node, st) == emit(
            patch(b1, j, Instruction::JumpIfFalse(after)),
            Instruction::Label(after),
        ));
        assert(c.error is None);
        assert(b.error is None);
        lemma_gen_extends(*condition, s1);
        lemma_gen_extends(*body, c1);
        lemma_emit_resolved(st, from, Instruction::Label(start));
        lemma_gen_resolved(*condition, s1, from);
        lemma_gen_resolved(*body, c1, j + 1);
        lemma_extend_resolved(c.code, b.code, from);
        lemma_widen_resolved(b.code, from, j + 1);
        assert forall|i: int|
            from <= i < b1.code.len() && i != j implies #[trigger] jump_resolved(
            b1.code,
            from,
            i,
        ) by {
            if i < b.code.len() {
                assert(jump_resolved(b.code, from, i));
                lemma_transfer(b.code, b1.code, from, i);
            } else {
                assert(b1.code[start as int] == s1.code[start as int]);
            }
        }
        lemma_patch_resolved(b1, from, j, Instruction::JumpIfFalse(after));
    }
}

proof fn lemma_for_resolved(node: Node, st: GenState, from: int)
    requires
        node is ForStmt,
        st.error is None,
        gen(node, st).error is None,
        gen(node, st).code.len() < usize::MAX,
        resolved(st, from),
    ensures
        resolved(gen(node, st), from),
    decreases node, 0nat,
{
    broadcast use group_stopped;

    if let Node::ForStmt { init, condition, increment, body, .. } = node {
        let s0 = match init {
            Some(i) => emit(gen(*i, st), Instruction::Pop),
            None => st,
        };
        let start = s0.code.len() as usize;
        let s1 = emit(s0, Instruction::Label(start));
        let c = match condition {
            Some(cond) => gen(*cond, s1),
            None => emit(s1, Instruction::PushBool(true)),
        };
        let j = c.code.len() as int;
        let c1 = emit(c, Instruction::JumpIfFalse(0));
        let b = gen(*body, c1);
        let b1 = match increment {
            Some(inc) => emit(gen(*inc, b), Instruction::Pop),
            None => b,
        };
        let b2 = emit(b1, Instruction::Jump(start));
        let after = b2.code.len() as usize;
        assert(gen(node, st) == emit(
            patch(b2, j, Instruction::JumpIfFalse(after)),
            Instruction::Label(after),
        ));
        assert(s0.error is None);
        assert(c.error is None);
        assert(b.error is None);
        assert(b1.error is None);
        if let Some(i) = init {
            lemma_gen_extends(*i, st);
        }
        if let Some(cond) = condition {
            lemma_gen_extends(*cond, s1);
        }
        lemma_gen_extends(*body, c1);
        if let Some(inc) = increment {
            lemma_gen_extends(*inc, b);
        }
        if let Some(i) = init {
            lemma_gen_resolved(*i, st, from);
            lemma_emit_resolved(gen(*i, st), from, Instruction::Pop);
        }
        lemma_emit_resolved(s0, from, Instruction::Label(start));
        match condition {
            Some(cond) => {
                lemma_gen_resolved(*cond, s1, from);
                lemma_gen_extends(*cond, s1);
            },
            None => lemma_emit_resolved(s1, from, Instruction::PushBool(true)),
        }
        lemma_gen_resolved(*body, c1, j + 1);
        lemma_gen_extends(*body, c1);
        if let Some(inc) = increment {
            lemma_gen_resolved(*inc, b, j + 1);
            lemma_gen_extends(*inc, b);
            lemma_emit_resolved(gen(*inc, b), j + 1, Instruction::Pop);
        }
        assert(extends(c1.code, b1.code));
        lemma_extend_resolved(c.code, b1.code, from);
        lemma_widen_resolved(b1.code, from, j + 1);
        assert forall|i: int|
            from <= i < b2.code.len() && i != j implies #[trigger] jump_resolved(
            b2.code,
            from,
            i,
        ) by {
            if i < b1.code.len() {
                assert(jump_resolved(b1.code, from, i));
                lemma_transfer(b1.code, b2.code, from, i);
            } else {
                assert(b2.code[start as int] == s1.code[start as int]);
            }
        }
        lemma_patch_resolved(b2, from, j, Instruction::JumpIfFalse(after));
    }
}

proof fn lemma_binary_resolved(node: Node, st: GenState, from: int)
    requires
        node is BinaryExpr,
        st.error is None,
        gen(node, st).error is None,
        gen(node, st).code.len() < usize::MAX,
        resolved(st, from),
    ensures
        resolved(gen(node, st), from),
    decreases node, 0nat,
{
    broadcast use group_stopped;

    if let Node::BinaryExpr { op, left, right, .. } = node {
        match operator_instruction(op) {
            None => {
                if let Node::Variable(name, _) = *left {
                    let r = gen(*right, st);
                    assert(gen(node, st) == emit(
                        emit(r, Instruction::StoreVar(name)),
                        Instruction::LoadVar(name),
                    ));
                    lemma_gen_resolved(*right, st, from);
                    lemma_emit_resolved(r, from, Instruction::StoreVar(name));
                    lemma_emit_resolved(
                        emit(r, Instruction::StoreVar(name)),
                        from,
                        Instruction::LoadVar(name),
                    );
                }
            },
            Some(i) => {
                let l = gen(*left, st);
                assert(gen(node, st) == emit(gen(*right, l), i));
                assert(l.error is None);
                lemma_gen_extends(*right, l);
                lemma_gen_resolved(*left, st, from);
                lemma_gen_resolved(*right, l, from);
                lemma_emit_resolved(gen(*right, l), from, i);
            },
        }
    }
}

proof fn lemma_each_resolved(all: Seq<Node>, i: nat, st: GenState, from: int)
    requires
        st.error is None,
        gen_each(all, i, st).error is None,
        gen_each(all, i, st).code.len() < usize::MAX,
        resolved(st, from),
    ensures
        resolved(gen_each(all, i, st), from),
    decreases all, all.len() - i,
{
    broadcast use group_stopped;

    if i < all.len() {
        assert(gen_each(all, i, st) == gen_each(all, i + 1, gen(all[i as int], st)));
        assert(gen(all[i as int], st).error is None);
        lemma_each_extends(all, i + 1, gen(all[i as int], st));
        lemma_gen_resolved(all[i as int], st, from);
        lemma_each_resolved(all, i + 1, gen(all[i as int], st), from);
    }
}

proof fn lemma_echo_resolved(all: Seq<Node>, i: nat, st: GenState, from: int)
    requires
        st.error is None,
        gen_echo(all, i, st).error is None,
        gen_echo(all, i, st).code.len() < usize::MAX,
        resolved(st, from),
    ensures
        resolved(gen_echo(all, i, st), from),
    decreases all, all.len() - i,
{
    broadcast use group_stopped;

    if i < all.len() {
        let out = if i + 1 == all.len() {
            Instruction::EchoLine
        } else {
            Instruction::Echo
        };
        let g = gen(all[i as int], st);
        assert(gen_echo(all, i, st) == gen_echo(all, i + 1, emit(g, out)));
        assert(g.error is None);
        lemma_echo_extends(all, i + 1, emit(g, out));
        lemma_gen_resolved(all[i as int], st, from);
        lemma_emit_resolved(g, from, out);
        lemma_echo_resolved(all, i + 1, emit(g, out), from);
    }
}

proof fn lemma_args_resolved(all: Seq<Node>, k: nat, st: GenState, from: int)
    requires
        st.error is None,
        gen_args(all, k, st).error is None,
        gen_args(all, k, st).code.len() < usize::MAX,
        resolved(st, from),
    ensures
        resolved(gen_args(all, k, st), from),
    decreases all, k,
{
    broadcast use group_stopped;

    if 0 < k <= all.len() {
        assert(gen_args(all, k, st) == gen_args(all, (k - 1) as nat, gen(all[k - 1], st)));
        assert(gen(all[k - 1], st).error is None);
        lemma_args_extends(all, (k - 1) as nat, gen(all[k - 1], st));
        lemma_gen_resolved(all[k - 1], st, from);
        lemma_args_resolved(all, (k - 1) as nat, gen(all[k - 1], st), from);
    }
}

proof fn lemma_elements_resolved(
    all: Seq<(Option<Node>, Node)>,
    i: nat,
    st: GenState,
    from: int,
)
    requires
        st.error is None,
        gen_elements(all, i, st).error is None,
        gen_elements(all, i, st).code.len() < usize::MAX,
        resolved(st, from),
    ensures
        resolved(gen_elements(all, i, st), from),
    decreases all, all.len() - i,
{
    broadcast use group_stopped;

    if i < all.len() {
        let v = gen(all[i as int].1, st);
        let s = match all[i as int].0 {
            Some(key) => emit(gen(key, v), Instruction::ArraySet),
            None => emit(v, Instruction::ArrayPush),
        };
        assert(gen_elements(all, i, st) == gen_elements(all, i + 1, s));
        assert(s.error is None);
        assert(v.error is None);
        lemma_elements_extends(all, i + 1, s);
        if let Some(key) = all[i as int].0 {
            lemma_gen_extends(key, v);
        }
        lemma_gen_resolved(all[i as int].1, st, from);
        match all[i as int].0 {
            Some(key) => {
                lemma_gen_resolved(key, v, from);
                lemma_emit_resolved(gen(key, v), from, Instruction::ArraySet);
            },
            None => lemma_emit_resolved(v, from, Instruction::ArrayPush),
        }
        lemma_elements_resolved(all, i + 1, s, from);
    }
}

} // verus!
