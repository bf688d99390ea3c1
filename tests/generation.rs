use tinyphp::ast::{BinaryOp, FloatConst, Location, Node, Type, UnaryOp};
use tinyphp::codegen::{CodeGenerator, Instruction};
use tinyphp::error::CompilerError;

fn loc() -> Location {
    Location { file: "test.php".to_string(), line: 1, column: 1 }
}

fn int_lit(v: i64) -> Node {
    Node::IntLiteral(v, loc())
}

fn var(name: &str) -> Node {
    Node::Variable(name.to_string(), loc())
}

fn binary(op: BinaryOp, left: Node, right: Node) -> Node {
    Node::BinaryExpr { op, left: Box::new(left), right: Box::new(right), location: loc() }
}

fn assign(name: &str, value: Node) -> Node {
    binary(BinaryOp::Assign, var(name), value)
}

fn stmt(expr: Node) -> Node {
    Node::ExpressionStmt(Box::new(expr))
}

fn echo(exprs: Vec<Node>) -> Node {
    Node::EchoStmt(exprs, loc())
}

fn generate(node: &Node) -> Vec<Instruction> {
    CodeGenerator::new().generate(node).unwrap()
}

fn codegen_message(err: CompilerError) -> String {
    match err {
        CompilerError::CodeGenError { message } => message,
        other => panic!("unexpected error: {:?}", other),
    }
}

#[test]
fn binary_operands_then_operator() {
    let code = generate(&binary(BinaryOp::Add, int_lit(1), int_lit(2)));
    assert_eq!(code, vec![Instruction::PushInt(1), Instruction::PushInt(2), Instruction::Add]);

    let nested = binary(BinaryOp::Multiply, binary(BinaryOp::Subtract, var("a"), int_lit(3)), var("b"));
    assert_eq!(
        generate(&nested),
        vec![
            Instruction::LoadVar("a".to_string()),
            Instruction::PushInt(3),
            Instruction::Subtract,
            Instruction::LoadVar("b".to_string()),
            Instruction::Multiply,
        ]
    );
}

#[test]
fn every_operator_has_its_instruction() {
    let cases = vec![
        (BinaryOp::Divide, Instruction::Divide),
        (BinaryOp::Modulo, Instruction::Modulo),
        (BinaryOp::Equal, Instruction::Equal),
        (BinaryOp::NotEqual, Instruction::NotEqual),
        (BinaryOp::Less, Instruction::Less),
        (BinaryOp::LessEqual, Instruction::LessEqual),
        (BinaryOp::Greater, Instruction::Greater),
        (BinaryOp::GreaterEqual, Instruction::GreaterEqual),
        (BinaryOp::LogicalAnd, Instruction::LogicalAnd),
        (BinaryOp::LogicalOr, Instruction::LogicalOr),
        (BinaryOp::Concat, Instruction::Concat),
        (BinaryOp::ArrayAccess, Instruction::ArrayGet),
    ];
    for (op, ins) in cases {
        assert_eq!(generate(&binary(op, int_lit(1), int_lit(2))).last(), Some(&ins));
    }
    let neg = Node::UnaryExpr { op: UnaryOp::Negate, expr: Box::new(int_lit(4)), location: loc() };
    assert_eq!(generate(&neg), vec![Instruction::PushInt(4), Instruction::Negate]);
    let not = Node::UnaryExpr {
        op: UnaryOp::LogicalNot,
        expr: Box::new(Node::BooleanLiteral(false, loc())),
        location: loc(),
    };
    assert_eq!(generate(&not), vec![Instruction::PushBool(false), Instruction::LogicalNot]);
}

#[test]
fn if_without_else_jumps_to_label_after_then_branch() {
    let node = Node::IfStmt {
        condition: Box::new(var("x")),
        then_branch: Box::new(echo(vec![int_lit(1)])),
        else_branch: None,
        location: loc(),
    };
    assert_eq!(
        generate(&node),
        vec![
            Instruction::LoadVar("x".to_string()),
            Instruction::JumpIfFalse(4),
            Instruction::PushInt(1),
            Instruction::EchoLine,
            Instruction::Label(4),
        ]
    );
}

#[test]
fn if_with_else_patches_both_jumps() {
    let node = Node::IfStmt {
        condition: Box::new(var("x")),
        then_branch: Box::new(echo(vec![int_lit(1)])),
        else_branch: Some(Box::new(echo(vec![int_lit(2)]))),
        location: loc(),
    };
    assert_eq!(
        generate(&node),
        vec![
            Instruction::LoadVar("x".to_string()),
            Instruction::JumpIfFalse(5),
            Instruction::PushInt(1),
            Instruction::EchoLine,
            Instruction::Jump(8),
            Instruction::Label(5),
            Instruction::PushInt(2),
            Instruction::EchoLine,
            Instruction::Label(8),
        ]
    );
}

#[test]
fn while_loop_jumps_back_and_out() {
    let body = stmt(assign("i", binary(BinaryOp::Add, var("i"), int_lit(1))));
    let node = Node::Program(vec![
        stmt(assign("i", int_lit(0))),
        Node::WhileStmt {
            condition: Box::new(binary(BinaryOp::Less, var("i"), int_lit(3))),
            body: Box::new(body),
            location: loc(),
        },
    ]);
    let code = generate(&node);
    assert_eq!(
        code,
        vec![
            Instruction::PushInt(0),
            Instruction::StoreVar("i".to_string()),
            Instruction::LoadVar("i".to_string()),
            Instruction::Pop,
            Instruction::Label(4),
            Instruction::LoadVar("i".to_string()),
            Instruction::PushInt(3),
            Instruction::Less,
            Instruction::JumpIfFalse(16),
            Instruction::LoadVar("i".to_string()),
            Instruction::PushInt(1),
            Instruction::Add,
            Instruction::StoreVar("i".to_string()),
            Instruction::LoadVar("i".to_string()),
            Instruction::Pop,
            Instruction::Jump(4),
            Instruction::Label(16),
        ]
    );
}

#[test]
fn for_loop_without_condition_uses_true() {
    let node = Node::ForStmt {
        init: Some(Box::new(assign("i", int_lit(0)))),
        condition: None,
        increment: Some(Box::new(assign("i", int_lit(1)))),
        body: Box::new(Node::BlockStmt(vec![], loc())),
        location: loc(),
    };
    assert_eq!(
        generate(&node),
        vec![
            Instruction::PushInt(0),
            Instruction::StoreVar("i".to_string()),
            Instruction::LoadVar("i".to_string()),
            Instruction::Pop,
            Instruction::Label(4),
            Instruction::PushBool(true),
            Instruction::JumpIfFalse(12),
            Instruction::PushInt(1),
            Instruction::StoreVar("i".to_string()),
            Instruction::LoadVar("i".to_string()),
            Instruction::Pop,
            Instruction::Jump(4),
            Instruction::Label(12),
        ]
    );
}

#[test]
fn for_initializer_value_is_discarded() {
    let node = Node::Program(vec![Node::ForStmt {
        init: Some(Box::new(int_lit(0))),
        condition: None,
        increment: None,
        body: Box::new(Node::BlockStmt(vec![], loc())),
        location: loc(),
    }]);
    assert_eq!(
        generate(&node),
        vec![
            Instruction::PushInt(0),
            Instruction::Pop,
            Instruction::Label(2),
            Instruction::PushBool(true),
            Instruction::JumpIfFalse(6),
            Instruction::Jump(2),
            Instruction::Label(6),
        ]
    );
}

#[test]
fn cloned_tree_generates_the_same_code() {
    let node = Node::Program(vec![stmt(assign("a", binary(BinaryOp::Add, int_lit(1), var("b"))))]);
    let copy = node.clone();
    assert_eq!(copy, node);
    assert_eq!(generate(&copy), generate(&node));
}

#[test]
fn assignment_leaves_reloaded_value_before_discard() {
    let code = generate(&stmt(assign("a", int_lit(5))));
    assert_eq!(
        code,
        vec![
            Instruction::PushInt(5),
            Instruction::StoreVar("a".to_string()),
            Instruction::LoadVar("a".to_string()),
            Instruction::Pop,
        ]
    );
}

#[test]
fn foreach_is_rejected() {
    let node = Node::ForeachStmt {
        array: Box::new(var("items")),
        value_var: "v".to_string(),
        key_var: None,
        body: Box::new(Node::BlockStmt(vec![], loc())),
        location: loc(),
    };
    let err = CodeGenerator::new().generate(&node).unwrap_err();
    assert!(codegen_message(err).contains("Foreach loops are not fully implemented yet"));
}

#[test]
fn assignment_to_call_is_rejected() {
    let call = Node::FunctionCall { name: "f".to_string(), args: vec![], location: loc() };
    let err = CodeGenerator::new().generate(&stmt(binary(BinaryOp::Assign, call, int_lit(1)))).unwrap_err();
    let message = codegen_message(err);
    assert!(message.contains("Left-hand side of assignment must be a variable"));
}

#[test]
fn error_message_text() {
    let err = CodeGenerator::new().generate(&binary(BinaryOp::Assign, int_lit(1), int_lit(2))).unwrap_err();
    assert_eq!(err.to_string(), "Code generation error: Left-hand side of assignment must be a variable");
}

#[test]
fn function_without_return_gets_null_return() {
    let decl = Node::FunctionDecl {
        name: "greet".to_string(),
        params: vec![("who".to_string(), Some(Type::String)), ("n".to_string(), None)],
        body: Box::new(Node::BlockStmt(vec![echo(vec![var("who")])], loc())),
        location: loc(),
    };
    let mut generator = CodeGenerator::new();
    let code = generator.generate(&Node::Program(vec![decl, echo(vec![int_lit(1)])])).unwrap();
    assert_eq!(code, vec![Instruction::PushInt(1), Instruction::EchoLine]);
    let functions = generator.get_functions();
    assert_eq!(functions.len(), 1);
    assert_eq!(functions[0].name, "greet");
    assert_eq!(functions[0].param_count, 2);
    assert_eq!(
        functions[0].instructions,
        vec![
            Instruction::LoadVar("who".to_string()),
            Instruction::EchoLine,
            Instruction::PushNull,
            Instruction::Return,
        ]
    );
}

#[test]
fn function_with_return_is_kept_as_is() {
    let body = Node::BlockStmt(
        vec![Node::ReturnStmt(Some(Box::new(int_lit(7))), loc()), echo(vec![int_lit(1)])],
        loc(),
    );
    let decl = Node::FunctionDecl { name: "seven".to_string(), params: vec![], body: Box::new(body), location: loc() };
    let mut generator = CodeGenerator::new();
    assert_eq!(generator.generate(&decl).unwrap(), vec![]);
    assert_eq!(
        generator.get_functions()[0].instructions,
        vec![Instruction::PushInt(7), Instruction::Return, Instruction::PushInt(1), Instruction::EchoLine]
    );
}

#[test]
fn function_jumps_are_local_and_redeclaration_replaces() {
    let body = Node::IfStmt {
        condition: Box::new(var("x")),
        then_branch: Box::new(Node::ReturnStmt(None, loc())),
        else_branch: None,
        location: loc(),
    };
    let first = Node::FunctionDecl { name: "f".to_string(), params: vec![], body: Box::new(body), location: loc() };
    let second = Node::FunctionDecl {
        name: "f".to_string(),
        params: vec![("a".to_string(), None)],
        body: Box::new(Node::BlockStmt(vec![], loc())),
        location: loc(),
    };
    let mut generator = CodeGenerator::new();
    let program = Node::Program(vec![echo(vec![int_lit(1), int_lit(2)]), first]);
    assert_eq!(
        generator.generate(&program).unwrap(),
        vec![Instruction::PushInt(1), Instruction::Echo, Instruction::PushInt(2), Instruction::EchoLine]
    );
    assert_eq!(
        generator.get_functions()[0].instructions,
        vec![
            Instruction::LoadVar("x".to_string()),
            Instruction::JumpIfFalse(4),
            Instruction::PushNull,
            Instruction::Return,
            Instruction::Label(4),
        ]
    );
    let program = Node::Program(vec![
        Node::FunctionDecl {
            name: "g".to_string(),
            params: vec![],
            body: Box::new(Node::BlockStmt(vec![], loc())),
            location: loc(),
        },
        Node::FunctionDecl {
            name: "f".to_string(),
            params: vec![],
            body: Box::new(Node::BlockStmt(vec![], loc())),
            location: loc(),
        },
        second,
    ]);
    generator.generate(&program).unwrap();
    let functions = generator.get_functions();
    assert_eq!(functions.len(), 2);
    assert_eq!(functions[0].name, "g");
    assert_eq!(functions[1].name, "f");
    assert_eq!(functions[1].param_count, 1);
    assert_eq!(functions[1].instructions, vec![Instruction::PushNull, Instruction::Return]);
}

#[test]
fn call_arguments_in_reverse_order() {
    let call = Node::FunctionCall {
        name: "max".to_string(),
        args: vec![int_lit(1), int_lit(2), int_lit(3)],
        location: loc(),
    };
    assert_eq!(
        generate(&call),
        vec![
            Instruction::PushInt(3),
            Instruction::PushInt(2),
            Instruction::PushInt(1),
            Instruction::Call("max".to_string(), 3),
        ]
    );
}

#[test]
fn array_literal_elements() {
    let node = Node::ArrayLiteral(
        vec![(None, int_lit(10)), (Some(Node::StringLiteral("k".to_string(), loc())), int_lit(20))],
        loc(),
    );
    assert_eq!(
        generate(&node),
        vec![
            Instruction::CreateArray,
            Instruction::PushInt(10),
            Instruction::ArrayPush,
            Instruction::PushInt(20),
            Instruction::PushString("k".to_string()),
            Instruction::ArraySet,
        ]
    );
}

#[test]
fn literals_and_declarations() {
    let f = FloatConst { text: "2.5".to_string(), truncated: 2 };
    let node = Node::Program(vec![
        Node::VarDecl { name: "a".to_string(), initializer: None, location: loc() },
        Node::VarDecl {
            name: "b".to_string(),
            initializer: Some(Box::new(Node::FloatLiteral(f.clone(), loc()))),
            location: loc(),
        },
        stmt(Node::NullLiteral(loc())),
        Node::ReturnStmt(None, loc()),
    ]);
    assert_eq!(
        generate(&node),
        vec![
            Instruction::PushNull,
            Instruction::StoreVar("a".to_string()),
            Instruction::PushFloat(f),
            Instruction::StoreVar("b".to_string()),
            Instruction::PushNull,
            Instruction::Pop,
            Instruction::PushNull,
            Instruction::Return,
        ]
    );
}

#[test]
fn empty_program_generates_nothing() {
    assert_eq!(generate(&Node::Program(vec![])), vec![]);
    assert_eq!(generate(&echo(vec![])), vec![]);
}

#[test]
fn generating_twice_gives_the_same_sequence() {
    let node = Node::Program(vec![
        stmt(assign("i", int_lit(0))),
        Node::WhileStmt {
            condition: Box::new(binary(BinaryOp::Less, var("i"), int_lit(3))),
            body: Box::new(echo(vec![var("i")])),
            location: loc(),
        },
        Node::FunctionDecl {
            name: "f".to_string(),
            params: vec![],
            body: Box::new(Node::BlockStmt(vec![], loc())),
            location: loc(),
        },
    ]);
    let mut generator = CodeGenerator::new();
    let first = generator.generate(&node).unwrap();
    let second = generator.generate(&node).unwrap();
    assert_eq!(first, second);
    assert_eq!(first, CodeGenerator::new().generate(&node).unwrap());
    assert_eq!(generator.get_functions().len(), 1);
}
