use tinyphp::asmgen::AsmGenerator;
use tinyphp::ast::FloatConst;
use tinyphp::codegen::Instruction;

fn s(text: &str) -> String {
    text.to_string()
}

fn lower(instructions: &[Instruction]) -> String {
    AsmGenerator::new().generate(instructions)
}

const HEADER: &str = ".intel_syntax noprefix
.text
.extern printf
.extern putchar
.extern sprintf
.global main
main:
    push rbp
    mov rbp, rsp
    sub rsp, 256  # Reserve stack space for variables
    sub rsp, 32   # Shadow space for Windows x64

";

const DATA: &str = ".data
fmt_str:
    .string \"%s\"
fmt_int:
    .string \"%d\"
fmt_float:
    .string \"%f\"
";

const FOOTER: &str = "    # Program exit
    add rsp, 32   # Restore shadow space
    mov rax, 0  # Return 0
    leave
    ret
";

#[test]
fn empty_program_module() {
    assert_eq!(lower(&[]), format!("{}{}{}", HEADER, FOOTER, DATA));
}

#[test]
fn push_and_pop_lowering() {
    let text = lower(&[Instruction::PushInt(-42), Instruction::Pop]);
    let body = "    # PushInt(-42)\n    mov rax, -42\n    push rax\n    # Pop\n    add rsp, 8\n";
    assert_eq!(text, format!("{}{}{}{}", HEADER, body, FOOTER, DATA));
}

#[test]
fn extreme_integers_are_printed_exactly() {
    let text = lower(&[Instruction::PushInt(i64::MIN), Instruction::PushInt(i64::MAX), Instruction::PushInt(0)]);
    assert!(text.contains("    mov rax, -9223372036854775808\n"));
    assert!(text.contains("    mov rax, 9223372036854775807\n"));
    assert!(text.contains("    # PushInt(0)\n    mov rax, 0\n"));
}

#[test]
fn sum_program_lowering() {
    let instructions = vec![
        Instruction::PushInt(10),
        Instruction::StoreVar(s("a")),
        Instruction::PushInt(20),
        Instruction::StoreVar(s("b")),
        Instruction::LoadVar(s("a")),
        Instruction::LoadVar(s("b")),
        Instruction::Add,
        Instruction::StoreVar(s("c")),
        Instruction::PushString(s("sum: ")),
        Instruction::Echo,
        Instruction::LoadVar(s("c")),
        Instruction::Echo,
    ];
    let text = lower(&instructions);
    assert!(text.contains("    # StoreVar(\"a\")\n    pop rax  # Value to store\n    mov [rbp - 8], rax  # Store variable\n    push rax\n"));
    assert!(text.contains("    mov [rbp - 16], rax  # Store variable\n"));
    assert!(text.contains("    mov rax, [rbp - 8]  # Load variable\n"));
    assert!(text.contains("    mov rax, [rbp - 16]  # Load variable\n"));
    assert!(text.contains("    mov [rbp - 24], rax  # Store variable\n"));
    assert!(text.contains("    mov rax, [rbp - 24]  # Load variable\n"));
    assert!(text.contains("    # Add\n    pop rax  # Second operand\n    pop rbx  # First operand\n    add rax, rbx\n    push rax\n"));
    assert!(text.contains("    lea rax, [rip + str_0]\n"));
    assert!(text.contains("str_0:\n    .string \"sum: \"\n"));
    assert!(text.contains("    jge .print_string_0\n"));
    assert!(text.contains(".echo_done_1:\n"));
    // the plain echo never prints a newline
    assert!(!text.contains("call putchar"));
    // the epilogue ends the entry procedure, before the data section
    assert!(text.contains(&format!("{}{}", FOOTER, DATA)));
}

#[test]
fn frame_offsets_in_first_seen_order() {
    let text = lower(&[
        Instruction::LoadVar(s("x")),
        Instruction::StoreVar(s("y")),
        Instruction::LoadVar(s("x")),
        Instruction::StoreVar(s("z")),
        Instruction::LoadVar(s("y")),
    ]);
    let loads: Vec<&str> = text.lines().filter(|l| l.contains("Load variable") || l.contains("Store variable")).collect();
    assert_eq!(
        loads,
        vec![
            "    mov rax, [rbp - 8]  # Load variable",
            "    mov [rbp - 16], rax  # Store variable",
            "    mov rax, [rbp - 8]  # Load variable",
            "    mov [rbp - 24], rax  # Store variable",
            "    mov rax, [rbp - 16]  # Load variable",
        ]
    );
}

#[test]
fn string_pool_in_occurrence_order() {
    let text = lower(&[
        Instruction::PushString(s("first")),
        Instruction::PushString(s("first")),
        Instruction::PushString(s("say \"hi\"")),
    ]);
    assert!(text.contains("    # PushString(\"first\")\n    lea rax, [rip + str_0]\n"));
    assert!(text.contains("    lea rax, [rip + str_1]\n"));
    assert!(text.contains("    lea rax, [rip + str_2]\n"));
    assert!(text.contains("str_0:\n    .string \"first\"\nstr_1:\n    .string \"first\"\nstr_2:\n    .string \"say \\\"hi\\\"\"\n"));
}

#[test]
fn concat_registers_placeholder_and_label() {
    let text = lower(&[
        Instruction::PushString(s("a")),
        Instruction::PushString(s("b")),
        Instruction::Concat,
        Instruction::EchoLine,
    ]);
    assert!(text.contains(".copy_first_0:\n"));
    assert!(text.contains("    jnz .copy_second_0\n"));
    assert!(text.contains("    jnz .copy_second_0\n    # The combined buffer is the result; its space stays reserved\n    push r8  # Push address of the combined buffer\n"));
    assert!(!text.contains("add rsp, 512"));
    assert!(text.contains("str_2:\n    .string \"<concatenated string>\"\n"));
    assert!(text.contains("    jge .print_string_line_1\n"));
    assert!(text.contains(".echo_line_done_1:\n    mov rcx, 10  # '\\n' (first arg)\n    call putchar\n"));
}

#[test]
fn jumps_use_bytecode_indices() {
    let text = lower(&[
        Instruction::Label(0),
        Instruction::PushBool(true),
        Instruction::JumpIfFalse(5),
        Instruction::PushBool(false),
        Instruction::JumpIfTrue(0),
        Instruction::Jump(0),
        Instruction::Label(5),
    ]);
    assert!(text.contains(".label_0:\n    # PushBool(true)\n    mov rax, 1\n    push rax\n"));
    assert!(text.contains("    # JumpIfFalse(5)\n    pop rax  # Condition\n    cmp rax, 0\n    je .label_5\n"));
    assert!(text.contains("    # PushBool(false)\n    mov rax, 0\n"));
    assert!(text.contains("    # JumpIfTrue(0)\n    pop rax  # Condition\n    cmp rax, 0\n    jne .label_0\n"));
    assert!(text.contains("    # Jump(0)\n    jmp .label_0\n.label_5:\n"));
}

#[test]
fn unsupported_instructions_become_comments() {
    let text = lower(&[Instruction::Call(s("f\"x"), 2), Instruction::Return]);
    assert!(text.contains("    # Unimplemented: Call(\"f\\\"x\", 2)\n"));
    assert!(text.contains("    # Unimplemented: Return\n"));
}

#[test]
fn comparison_and_arithmetic_lowering() {
    let text = lower(&[
        Instruction::LogicalAnd,
        Instruction::GreaterEqual,
        Instruction::LogicalOr,
        Instruction::LogicalNot,
        Instruction::Modulo,
        Instruction::Negate,
        Instruction::ArraySet,
    ]);
    assert!(text.contains("    cmp rbx, rax\n    setge al\n    movzx rax, al\n    push rax\n"));
    assert!(text.contains("    or rax, rbx\n    cmp rax, 0\n    setne al\n"));
    assert!(text.contains(
        "    # LogicalAnd\n    pop rax  # Second operand\n    pop rbx  # First operand\n    cmp rax, 0\n    setne al  # Second operand as 0 or 1\n    cmp rbx, 0\n    setne bl  # First operand as 0 or 1\n    and al, bl\n    movzx rax, al\n    push rax\n"
    ));
    assert!(!text.contains("and rax, rbx"));
    assert!(text.contains("    # LogicalNot\n    pop rax  # Operand\n    cmp rax, 0\n    sete al\n"));
    assert!(text.contains("    idiv rcx\n    push rdx  # Remainder is in RDX\n"));
    assert!(text.contains("    neg rax\n"));
    assert!(text.contains("    mov [rcx + rdx * 8], rax  # Store value at key offset\n"));
}

#[test]
fn float_constant_lowering() {
    let f = FloatConst { text: s("3.75"), truncated: 3 };
    let text = lower(&[Instruction::PushFloat(f)]);
    assert!(text.contains("    # PushFloat(3.75)\n    mov rax, 3\n    push rax\n"));
}

#[test]
fn lowering_is_independent_of_earlier_runs() {
    let mut generator = AsmGenerator::new();
    let program = vec![Instruction::PushString(s("x")), Instruction::Echo, Instruction::StoreVar(s("v"))];
    let first = generator.generate(&program);
    let second = generator.generate(&program);
    assert_eq!(first, second);
    assert_eq!(first, lower(&program));
}
