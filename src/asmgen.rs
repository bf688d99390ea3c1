use vstd::prelude::*;
use vstd::string::StringExecFns;
use crate::codegen::Instruction;
use crate::text::{
    decimal, join_lines, push_char, push_decimal, push_signed_decimal, signed_decimal,
};

verus! {

/// The pool entry that stands for the result of a concatenation.
pub const CONCAT_PLACEHOLDER: &'static str = "<concatenated string>";

/// What the lowering has accumulated besides text: the number of local
/// labels used so far, the string literal pool, and the variables in the
/// order in which they were first referenced.
pub ghost struct LowerState {
    pub labels: nat,
    pub pool: Seq<Seq<char>>,
    pub vars: Seq<Seq<char>>,
}

/// The state in which a lowering starts.
pub open spec fn initial_lower_state() -> LowerState {
    LowerState { labels: 0, pool: Seq::empty(), vars: Seq::empty() }
}

/// The variables after a reference to `name`: a new name takes the next slot.
pub open spec fn with_var(vars: Seq<Seq<char>>, name: Seq<char>) -> Seq<Seq<char>> {
    if vars.contains(name) {
        vars
    } else {
        vars.push(name)
    }
}

/// The slot of `name` among the variables.
pub open spec fn slot(vars: Seq<Seq<char>>, name: Seq<char>) -> int {
    choose|i: int| 0 <= i < vars.len() && vars[i] == name
}

/// The frame offset of `name`: slots are 8 bytes wide and start at offset 8.
pub open spec fn frame_offset(vars: Seq<Seq<char>>, name: Seq<char>) -> nat {
    (8 * (slot(vars, name) + 1)) as nat
}

/// A line made of a prefix, a number in decimal and a suffix.
pub open spec fn numbered(prefix: Seq<char>, n: nat, suffix: Seq<char>) -> Seq<char> {
    prefix + decimal(n) + suffix
}

/// A line made of a prefix, a signed number in decimal and a suffix.
pub open spec fn signed_numbered(prefix: Seq<char>, v: int, suffix: Seq<char>) -> Seq<char> {
    prefix + signed_decimal(v) + suffix
}

pub open spec fn bool_text(b: bool) -> Seq<char> {
    if b {
        "true"@
    } else {
        "false"@
    }
}

/// The debug rendering of a string: quoted, with special characters escaped.
pub uninterp spec fn debug_quoted(s: Seq<char>) -> Seq<char>;

/// The comment that stands for a call, which this back end does not lower.
pub open spec fn unimplemented_call_line(name: Seq<char>, argc: nat) -> Seq<char> {
    "    # Unimplemented: Call("@ + debug_quoted(name) + ", "@ + decimal(argc) + ")"@
}

/// The state after lowering one instruction.
pub open spec fn next_state(ins: Instruction, st: LowerState) -> LowerState {
    match ins {
        Instruction::PushString(v) => LowerState { pool: st.pool.push(v@), ..st },
        Instruction::Concat => LowerState {
            labels: st.labels + 1,
            pool: st.pool.push(CONCAT_PLACEHOLDER@),
            ..st
        },
        Instruction::Echo => LowerState { labels: st.labels + 1, ..st },
        Instruction::EchoLine => LowerState { labels: st.labels + 1, ..st },
        Instruction::LoadVar(name) => LowerState { vars: with_var(st.vars, name@), ..st },
        Instruction::StoreVar(name) => LowerState { vars: with_var(st.vars, name@), ..st },
        _ => st,
    }
}

/// The lines that lower one instruction, in state `st`.
pub open spec fn instruction_lines(ins: Instruction, st: LowerState) -> Seq<Seq<char>> {
    match ins {
        Instruction::PushInt(v) => seq![
            signed_numbered("    # PushInt("@, v as int, ")"@),
            signed_numbered("    mov rax, "@, v as int, ""@),
            "    push rax"@,
        ],
        Instruction::PushFloat(f) => seq![
            "    # PushFloat("@ + f.text@ + ")"@,
            signed_numbered("    mov rax, "@, f.truncated as int, ""@),
            "    push rax"@,
        ],
        Instruction::PushString(v) => seq![
            "    # PushString(\""@ + v@ + "\")"@,
            numbered("    lea rax, [rip + str_"@, st.pool.len(), "]"@),
            "    push rax"@,
        ],
        Instruction::PushBool(b) => seq![
            "    # PushBool("@ + bool_text(b) + ")"@,
            numbered("    mov rax, "@, if b { 1 } else { 0 }, ""@),
            "    push rax"@,
        ],
        Instruction::PushNull => seq![
            "    # PushNull"@,
            "    mov rax, 0"@,
            "    push rax"@,
        ],
        Instruction::Pop => seq![
            "    # Pop"@,
            "    add rsp, 8"@,
        ],
        Instruction::CreateArray => seq![
            "    # CreateArray"@,
            "    sub rsp, 64  # Allocate space for array"@,
            "    mov rax, rsp  # Store array pointer"@,
            "    push rax"@,
        ],
        Instruction::ArrayPush => seq![
            "    # ArrayPush"@,
            "    pop rax  # Value to push"@,
            "    pop rdx  # Array pointer"@,
            "    mov [rdx], rax  # Store value in array"@,
            "    push rdx  # Push array pointer back"@,
        ],
        Instruction::ArraySet => seq![
            "    # ArraySet"@,
            "    pop rdx  # Key"@,
            "    pop rax  # Value"@,
            "    pop rcx  # Array pointer"@,
            "    mov [rcx + rdx * 8], rax  # Store value at key offset"@,
            "    push rcx  # Push array pointer back"@,
        ],
        Instruction::ArrayGet => seq![
            "    # ArrayGet"@,
            "    pop rdx  # Key"@,
            "    pop rcx  # Array pointer"@,
            "    mov rax, [rcx + rdx * 8]  # Load value at key offset"@,
            "    push rax  # Push value"@,
        ],
        Instruction::Add => seq![
            "    # Add"@,
            "    pop rax  # Second operand"@,
            "    pop rbx  # First operand"@,
            "    add rax, rbx"@,
            "    push rax"@,
        ],
        Instruction::Subtract => seq![
            "    # Subtract"@,
            "    pop rax  # Second operand"@,
            "    pop rbx  # First operand"@,
            "    sub rbx, rax"@,
            "    push rbx"@,
        ],
        Instruction::Multiply => seq![
            "    # Multiply"@,
            "    pop rax  # Second operand"@,
            "    pop rbx  # First operand"@,
            "    imul rbx"@,
            "    push rax"@,
        ],
        Instruction::Divide => seq![
            "    # Divide"@,
            "    pop rcx  # Second operand"@,
            "    pop rax  # First operand"@,
            "    cqo  # Sign-extend RAX into RDX:RAX"@,
            "    idiv rcx"@,
            "    push rax"@,
        ],
        Instruction::Modulo => seq![
            "    # Modulo"@,
            "    pop rcx  # Second operand"@,
            "    pop rax  # First operand"@,
            "    cqo  # Sign-extend RAX into RDX:RAX"@,
            "    idiv rcx"@,
            "    push rdx  # Remainder is in RDX"@,
        ],
        Instruction::Negate => seq![
            "    # Negate"@,
            "    pop rax  # Operand"@,
            "    neg rax"@,
            "    push rax"@,
        ],
        Instruction::Echo => seq![
            "    # Echo"@,
            "    pop rdx  # Value to print (second arg)"@,
            "    # Check if it's a string or an integer"@,
            "    cmp rdx, 100000  # Assume values < 100000 are integers"@,
            numbered("    jge .print_string_"@, st.labels, ""@),
            "    # Print as integer"@,
            "    lea rcx, [rip + fmt_int]  # Format string (first arg)"@,
            "    mov rax, 0"@,
            "    call printf"@,
            numbered("    jmp .echo_done_"@, st.labels, ""@),
            numbered(".print_string_"@, st.labels, ":"@),
            "    lea rcx, [rip + fmt_str]  # Format string (first arg)"@,
            "    mov rax, 0"@,
            "    call printf"@,
            numbered(".echo_done_"@, st.labels, ":"@),
        ],
        Instruction::EchoLine => seq![
            "    # EchoLine"@,
            "    pop rdx  # Value to print (second arg)"@,
            "    # Check if it's a string or an integer"@,
            "    cmp rdx, 100000  # Assume values < 100000 are integers"@,
            numbered("    jge .print_string_line_"@, st.labels, ""@),
            "    # Print as integer"@,
            "    lea rcx, [rip + fmt_int]  # Format string (first arg)"@,
            "    mov rax, 0"@,
            "    call printf"@,
            numbered("    jmp .echo_line_done_"@, st.labels, ""@),
            numbered(".print_string_line_"@, st.labels, ":"@),
            "    lea rcx, [rip + fmt_str]  # Format string (first arg)"@,
            "    mov rax, 0"@,
            "    call printf"@,
            numbered(".echo_line_done_"@, st.labels, ":"@),
            "    mov rcx, 10  # '\\n' (first arg)"@,
            "    call putchar"@,
        ],
        Instruction::Concat => seq![
            "    # Concat"@,
            "    pop rdx  # Second operand (string to append)"@,
            "    pop rcx  # First operand (destination string)"@,
            "    sub rsp, 512  # Reserve space for concatenated string"@,
            "    mov r8, rsp  # Store buffer address"@,
            "    mov r9, rcx  # Source (first string)"@,
            "    mov r10, r8  # Destination (buffer)"@,
            numbered(".copy_first_"@, st.labels, ":"@),
            "    mov al, [r9]  # Load character"@,
            "    mov [r10], al  # Store character"@,
            "    inc r9  # Next source character"@,
            "    inc r10  # Next destination character"@,
            "    test al, al  # Check for null terminator"@,
            numbered("    jnz .copy_first_"@, st.labels, ""@),
            "    dec r10  # Back up to null terminator"@,
            "    mov r9, rdx  # Source (second string)"@,
            numbered(".copy_second_"@, st.labels, ":"@),
            "    mov al, [r9]  # Load character"@,
            "    mov [r10], al  # Store character"@,
            "    inc r9  # Next source character"@,
            "    inc r10  # Next destination character"@,
            "    test al, al  # Check for null terminator"@,
            numbered("    jnz .copy_second_"@, st.labels, ""@),
            "    # The combined buffer is the result; its space stays reserved"@,
            "    push r8  # Push address of the combined buffer"@,
        ],
        Instruction::LoadVar(name) => seq![
            "    # LoadVar(\""@ + name@ + "\")"@,
            numbered("    mov rax, [rbp - "@, frame_offset(with_var(st.vars, name@), name@), "]  # Load variable"@),
            "    push rax"@,
        ],
        Instruction::StoreVar(name) => seq![
            "    # StoreVar(\""@ + name@ + "\")"@,
            "    pop rax  # Value to store"@,
            numbered("    mov [rbp - "@, frame_offset(with_var(st.vars, name@), name@), "], rax  # Store variable"@),
            "    push rax"@,
        ],
        Instruction::Greater => seq![
            "    # Greater"@,
            "    pop rax  # Second operand"@,
            "    pop rbx  # First operand"@,
            "    cmp rbx, rax"@,
            "    setg al"@,
            "    movzx rax, al"@,
            "    push rax"@,
        ],
        Instruction::Less => seq![
            "    # Less"@,
            "    pop rax  # Second operand"@,
            "    pop rbx  # First operand"@,
            "    cmp rbx, rax"@,
            "    setl al"@,
            "    movzx rax, al"@,
            "    push rax"@,
        ],
        Instruction::LessEqual => seq![
            "    # LessEqual"@,
            "    pop rax  # Second operand"@,
            "    pop rbx  # First operand"@,
            "    cmp rbx, rax"@,
            "    setle al"@,
            "    movzx rax, al"@,
            "    push rax"@,
        ],
        Instruction::Equal => seq![
            "    # Equal"@,
            "    pop rax  # Second operand"@,
            "    pop rbx  # First operand"@,
            "    cmp rbx, rax"@,
            "    sete al"@,
            "    movzx rax, al"@,
            "    push rax"@,
        ],
        Instruction::NotEqual => seq![
            "    # NotEqual"@,
            "    pop rax  # Second operand"@,
            "    pop rbx  # First operand"@,
            "    cmp rbx, rax"@,
            "    setne al"@,
            "    movzx rax, al"@,
            "    push rax"@,
        ],
        Instruction::GreaterEqual => seq![
            "    # GreaterEqual"@,
            "    pop rax  # Second operand"@,
            "    pop rbx  # First operand"@,
            "    cmp rbx, rax"@,
            "    setge al"@,
            "    movzx rax, al"@,
            "    push rax"@,
        ],
        Instruction::LogicalAnd => seq![
            "    # LogicalAnd"@,
            "    pop rax  # Second operand"@,
            "    pop rbx  # First operand"@,
            "    cmp rax, 0"@,
            "    setne al  # Second operand as 0 or 1"@,
            "    cmp rbx, 0"@,
            "    setne bl  # First operand as 0 or 1"@,
            "    and al, bl"@,
            "    movzx rax, al"@,
            "    push rax"@,
        ],
        Instruction::LogicalOr => seq![
            "    # LogicalOr"@,
            "    pop rax  # Second operand"@,
            "    pop rbx  # First operand"@,
            "    or rax, rbx"@,
            "    cmp rax, 0"@,
            "    setne al"@,
            "    movzx rax, al"@,
            "    push rax"@,
        ],
        Instruction::LogicalNot => seq![
            "    # LogicalNot"@,
            "    pop rax  # Operand"@,
            "    cmp rax, 0"@,
            "    sete al"@,
            "    movzx rax, al"@,
            "    push rax"@,
        ],
        Instruction::JumpIfFalse(a) => seq![
            numbered("    # JumpIfFalse("@, a as nat, ")"@),
            "    pop rax  # Condition"@,
            "    cmp rax, 0"@,
            numbered("    je .label_"@, a as nat, ""@),
        ],
        Instruction::Jump(a) => seq![
            numbered("    # Jump("@, a as nat, ")"@),
            numbered("    jmp .label_"@, a as nat, ""@),
        ],
        Instruction::JumpIfTrue(a) => seq![
            numbered("    # JumpIfTrue("@, a as nat, ")"@),
            "    pop rax  # Condition"@,
            "    cmp rax, 0"@,
            numbered("    jne .label_"@, a as nat, ""@),
        ],
        Instruction::Label(a) => seq![
            numbered(".label_"@, a as nat, ":"@),
        ],
        Instruction::Call(name, argc) => seq![
            unimplemented_call_line(name@, argc as nat),
        ],
        Instruction::Return => seq![
            "    # Unimplemented: Return"@,
        ],
    }
}

/// The state after lowering the first `k` instructions.
pub open spec fn state_after(instrs: Seq<Instruction>, k: nat) -> LowerState
    decreases k,
{
    if k == 0 {
        initial_lower_state()
    } else {
        next_state(instrs[k - 1], state_after(instrs, (k - 1) as nat))
    }
}

/// The lines that lower the first `k` instructions.
pub open spec fn body_lines(instrs: Seq<Instruction>, k: nat) -> Seq<Seq<char>>
    decreases k,
{
    if k == 0 {
        Seq::empty()
    } else {
        body_lines(instrs, (k - 1) as nat) + instruction_lines(
            instrs[k - 1],
            state_after(instrs, (k - 1) as nat),
        )
    }
}

/// The fixed start of the module: syntax mode, external symbols, and the
/// prologue of the entry procedure.
pub open spec fn header_lines() -> Seq<Seq<char>> {
    seq![
        ".intel_syntax noprefix"@,
        ".text"@,
        ".extern printf"@,
        ".extern putchar"@,
        ".extern sprintf"@,
        ".global main"@,
        "main:"@,
        "    push rbp"@,
        "    mov rbp, rsp"@,
        "    sub rsp, 256  # Reserve stack space for variables"@,
        "    sub rsp, 32   # Shadow space for Windows x64"@,
        ""@,
    ]
}

/// The epilogue: releases the shadow space and returns 0.
pub open spec fn footer_lines() -> Seq<Seq<char>> {
    seq![
        "    # Program exit"@,
        "    add rsp, 32   # Restore shadow space"@,
        "    mov rax, 0  # Return 0"@,
        "    leave"@,
        "    ret"@,
    ]
}

/// `s` with each double quote preceded by a backslash.
pub open spec fn escape_quotes(s: Seq<char>) -> Seq<char>
    decreases s.len(),
{
    if s.len() == 0 {
        Seq::empty()
    } else {
        escape_quotes(s.drop_last()) + if s.last() == '"' {
            seq!['\\', '"']
        } else {
            seq![s.last()]
        }
    }
}

/// The data lines of the first `k` pool entries.
pub open spec fn pool_lines(pool: Seq<Seq<char>>, k: nat) -> Seq<Seq<char>>
    decreases k,
{
    if k == 0 {
        Seq::empty()
    } else {
        pool_lines(pool, (k - 1) as nat) + seq![
            numbered("str_"@, (k - 1) as nat, ":"@),
            "    .string \""@ + escape_quotes(pool[k - 1]) + "\""@,
        ]
    }
}

/// The data section: three format strings, then one label per pool entry.
pub open spec fn data_lines(pool: Seq<Seq<char>>) -> Seq<Seq<char>> {
    seq![
        ".data"@,
        "fmt_str:"@,
        "    .string \"%s\""@,
        "fmt_int:"@,
        "    .string \"%d\""@,
        "fmt_float:"@,
        "    .string \"%f\""@,
    ] + pool_lines(pool, pool.len())
}

/// The lines of the module that lowers `instrs`: the header, the code of
/// each instruction, the epilogue that ends the entry procedure, and then
/// the data section.
pub open spec fn module_lines(instrs: Seq<Instruction>) -> Seq<Seq<char>> {
    header_lines() + body_lines(instrs, instrs.len()) + footer_lines() + data_lines(
        state_after(instrs, instrs.len()).pool,
    )
}

/// The assembly text that lowers `instrs`.
pub open spec fn assembly_of(instrs: Seq<Instruction>) -> Seq<char> {
    join_lines(module_lines(instrs))
}

/// Relies on the `Debug` rendering of `str`: the result depends on the
/// characters alone.
#[verifier::external_body]
fn debug_text(s: &str) -> (r: String)
    ensures
        r@ == debug_quoted(s@),
{
    format!("{:?}", s)
}

fn bool_str(b: bool) -> (r: &'static str)
    ensures
        r@ == bool_text(b),
{
    if b {
        "true"
    } else {
        "false"
    }
}

/// Appends `s` with each double quote preceded by a backslash.
fn push_escaped(out: &mut String, s: &str)
    ensures
        final(out)@ == old(out)@ + escape_quotes(s@),
{
    let ghost start = out@;
    let n = s.unicode_len();
    let mut i: usize = 0;
    while i < n
        invariant
            n == s@.len(),
            i <= n,
            out@ == start + escape_quotes(s@.take(i as int)),
        decreases n - i,
    {
        let c = s.get_char(i);
        if c == '"' {
            push_char(out, '\\');
        }
        push_char(out, c);
        proof {
            let t = s@.take(i + 1);
            assert(t.drop_last() =~= s@.take(i as int));
            assert(t.last() == c);
        }
        assert(out@ =~= start + escape_quotes(s@.take(i + 1)));
        i += 1;
    }
    assert(s@.take(n as int) =~= s@);
}

/// Assembly generator: lowers bytecode to x86-64 assembly text.
pub struct AsmGenerator {
    asm_code: String,
    string_literals: Vec<String>,
    label_counter: usize,
    variables: Vec<String>,
    lines: Ghost<Seq<Seq<char>>>,
}

impl AsmGenerator {
    /// The text is made of the recorded lines, and no variable is recorded
    /// twice.
    pub closed spec fn wf(&self) -> bool {
        &&& self.asm_code@ == join_lines(self.lines@)
        &&& forall|i: int, j: int|
            0 <= i < j < self.variables@.len() ==> #[trigger] self.variables@[i]@
                != #[trigger] self.variables@[j]@
    }

    /// The assembly text produced so far.
    pub closed spec fn text(&self) -> Seq<char> {
        self.asm_code@
    }

    /// What the generator has accumulated besides text.
    pub closed spec fn lower_state(&self) -> LowerState {
        LowerState {
            labels: self.label_counter as nat,
            pool: self.string_literals@.map_values(|s: String| s@),
            vars: self.variables@.map_values(|s: String| s@),
        }
    }

    spec fn same_tables(&self, other: &Self) -> bool {
        &&& self.label_counter == other.label_counter
        &&& self.string_literals == other.string_literals
        &&& self.variables == other.variables
    }

    /// Creates a new assembly generator.
    pub fn new() -> (r: Self)
        ensures
            r.wf(),
            r.text() == Seq::<char>::empty(),
            r.lower_state() == initial_lower_state(),
    {
        let r = AsmGenerator {
            asm_code: String::new(),
            string_literals: Vec::new(),
            label_counter: 0,
            variables: Vec::new(),
            lines: Ghost(Seq::empty()),
        };
        assert(r.lower_state().pool =~= Seq::<Seq<char>>::empty());
        assert(r.lower_state().vars =~= Seq::<Seq<char>>::empty());
        r
    }

    /// Generates the assembly module for `instructions`. The result depends
    /// on the instructions alone: all state is reset first.
    pub fn generate(&mut self, instructions: &[Instruction]) -> (r: String)
        requires
            8 * (instructions@.len() + 1) <= usize::MAX,
        ensures
            r@ == assembly_of(instructions@),
            final(self).wf(),
            final(self).text() == r@,
            final(self).lower_state() == state_after(instructions@, instructions@.len()),
    {
        self.asm_code = String::new();
        self.string_literals = Vec::new();
        self.label_counter = 0;
        self.variables = Vec::new();
        self.lines = Ghost(Seq::empty());
        assert(self.lower_state().pool =~= Seq::<Seq<char>>::empty());
        assert(self.lower_state().vars =~= Seq::<Seq<char>>::empty());

        self.add_header();
        let ghost header = self.lines@;
        let mut i: usize = 0;
        while i < instructions.len()
            invariant
                8 * (instructions@.len() + 1) <= usize::MAX,
                self.wf(),
                i <= instructions@.len(),
                header == header_lines(),
                self.lines@ == header + body_lines(instructions@, i as nat),
                self.lower_state() == state_after(instructions@, i as nat),
                self.label_counter <= i,
                self.string_literals@.len() <= i,
                self.variables@.len() <= i,
            decreases instructions@.len() - i,
        {
            self.process_instruction(&instructions[i]);
            assert(self.lines@ =~= header + body_lines(instructions@, (i + 1) as nat));
            i += 1;
        }
        self.add_footer();
        self.add_string_literals();
        assert(self.lines@ =~= module_lines(instructions@));
        self.asm_code.clone()
    }

    /// Appends one line.
    fn emit(&mut self, line: &str)
        requires
            old(self).wf(),
        ensures
            final(self).wf(),
            final(self).lines@ == old(self).lines@.push(line@),
            final(self).same_tables(old(self)),
    {
        self.asm_code.append(line);
        push_char(&mut self.asm_code, '\n');
        proof {
            let ls = self.lines@.push(line@);
            assert(ls.drop_last() =~= self.lines@);
            assert(self.asm_code@ =~= join_lines(ls));
        }
        self.lines = Ghost(self.lines@.push(line@));
    }

    /// Appends a line made of a prefix, a number and a suffix.
    fn emit_number(&mut self, prefix: &str, n: usize, suffix: &str)
        requires
            old(self).wf(),
        ensures
            final(self).wf(),
            final(self).lines@ == old(self).lines@.push(numbered(prefix@, n as nat, suffix@)),
            final(self).same_tables(old(self)),
    {
        let mut line = String::from_str(prefix);
        push_decimal(&mut line, n as u64);
        line.append(suffix);
        self.emit(line.as_str());
    }

    /// Appends a line made of a prefix, a signed number and a suffix.
    fn emit_signed(&mut self, prefix: &str, v: i64, suffix: &str)
        requires
            old(self).wf(),
        ensures
            final(self).wf(),
            final(self).lines@ == old(self).lines@.push(signed_numbered(prefix@, v as int, suffix@)),
            final(self).same_tables(old(self)),
    {
        let mut line = String::from_str(prefix);
        push_signed_decimal(&mut line, v);
        line.append(suffix);
        self.emit(line.as_str());
    }

    /// Appends a line made of a prefix, a text and a suffix.
    fn emit_text(&mut self, prefix: &str, text: &str, suffix: &str)
        requires
            old(self).wf(),
        ensures
            final(self).wf(),
            final(self).lines@ == old(self).lines@.push(prefix@ + text@ + suffix@),
            final(self).same_tables(old(self)),
    {
        let mut line = String::from_str(prefix);
        line.append(text);
        line.append(suffix);
        self.emit(line.as_str());
    }

    /// Appends the comment that stands for a call.
    fn emit_unimplemented_call(&mut self, name: &String, argc: usize)
        requires
            old(self).wf(),
        ensures
            final(self).wf(),
            final(self).lines@ == old(self).lines@.push(
                unimplemented_call_line(name@, argc as nat),
            ),
            final(self).same_tables(old(self)),
    {
        let mut line = String::from_str("    # Unimplemented: Call(");
        line.append(debug_text(name.as_str()).as_str());
        line.append(", ");
        push_decimal(&mut line, argc as u64);
        line.append(")");
        self.emit(line.as_str());
    }

    fn add_header(&mut self)
        requires
            old(self).wf(),
        ensures
            final(self).wf(),
            final(self).lines@ =~= old(self).lines@ + header_lines(),
            final(self).same_tables(old(self)),
    {
        self.emit(".intel_syntax noprefix");
        self.emit(".text");
        self.emit(".extern printf");
        self.emit(".extern putchar");
        self.emit(".extern sprintf");
        self.emit(".global main");
        self.emit("main:");
        self.emit("    push rbp");
        self.emit("    mov rbp, rsp");
        self.emit("    sub rsp, 256  # Reserve stack space for variables");
        // the calling convention asks for 32 bytes of shadow space
        self.emit("    sub rsp, 32   # Shadow space for Windows x64");
        self.emit("");
    }

    fn add_footer(&mut self)
        requires
            old(self).wf(),
        ensures
            final(self).wf(),
            final(self).lines@ =~= old(self).lines@ + footer_lines(),
            final(self).same_tables(old(self)),
    {
        self.emit("    # Program exit");
        self.emit("    add rsp, 32   # Restore shadow space");
        self.emit("    mov rax, 0  # Return 0");
        self.emit("    leave");
        self.emit("    ret");
    }

    fn add_string_literals(&mut self)
        requires
            old(self).wf(),
        ensures
            final(self).wf(),
            final(self).lines@ =~= old(self).lines@ + data_lines(old(self).lower_state().pool),
            final(self).same_tables(old(self)),
    {
        let ghost pool = self.lower_state().pool;
        self.emit(".data");
        self.emit("fmt_str:");
        self.emit("    .string \"%s\"");
        self.emit("fmt_int:");
        self.emit("    .string \"%d\"");
        self.emit("fmt_float:");
        self.emit("    .string \"%f\"");
        let ghost formats = self.lines@;
        let mut i: usize = 0;
        while i < self.string_literals.len()
            invariant
                self.wf(),
                self.same_tables(old(self)),
                pool == self.lower_state().pool,
                i <= self.string_literals@.len(),
                self.lines@ == formats + pool_lines(pool, i as nat),
            decreases self.string_literals@.len() - i,
        {
            self.emit_number("str_", i, ":");
            let mut line = String::from_str("    .string \"");
            push_escaped(&mut line, self.string_literals[i].as_str());
            line.append("\"");
            self.emit(line.as_str());
            assert(self.lines@ =~= formats + pool_lines(pool, (i + 1) as nat));
            i += 1;
        }
    }

    /// The frame offset of `name`, allocating the next slot when the name
    /// is new.
    fn get_var_offset(&mut self, name: &String) -> (r: usize)
        requires
            old(self).wf(),
            8 * (old(self).variables@.len() + 1) <= usize::MAX,
        ensures
            final(self).wf(),
            final(self).lines == old(self).lines,
            final(self).asm_code == old(self).asm_code,
            final(self).label_counter == old(self).label_counter,
            final(self).string_literals == old(self).string_literals,
            final(self).lower_state().vars == with_var(old(self).lower_state().vars, name@),
            r == frame_offset(final(self).lower_state().vars, name@),
    {
        let ghost vars = self.lower_state().vars;
        let mut i: usize = 0;
        while i < self.variables.len()
            invariant
                self == old(self),
                self.wf(),
                8 * (self.variables@.len() + 1) <= usize::MAX,
                vars == self.lower_state().vars,
                i <= self.variables@.len(),
                forall|j: int| 0 <= j < i ==> (#[trigger] self.variables@[j])@ != name@,
            decreases self.variables@.len() - i,
        {
            if self.variables[i] == *name {
                proof {
                    assert(vars[i as int] == name@);
                    assert(vars.contains(name@));
                    let c = choose|c: int| 0 <= c < vars.len() && vars[c] == name@;
                    assert(vars[c] == self.variables@[c]@);
                    assert(c == i);
                }
                return 8 * (i + 1);
            }
            i += 1;
        }
        proof {
            assert forall|j: int| 0 <= j < vars.len() implies vars[j] != name@ by {
                assert(vars[j] == self.variables@[j]@);
            }
        }
        self.variables.push(name.clone());
        let ghost nv = vars.push(name@);
        assert(self.lower_state().vars =~= nv);
        proof {
            let c = choose|c: int| 0 <= c < nv.len() && nv[c] == name@;
            assert(nv[i as int] == name@);
            assert(c == i);
        }
        8 * (i + 1)
    }

    fn process_instruction(&mut self, instruction: &Instruction)
        requires
            old(self).wf(),
            old(self).label_counter < usize::MAX,
            8 * (old(self).variables@.len() + 1) <= usize::MAX,
        ensures
            final(self).wf(),
            final(self).lines@ =~= old(self).lines@ + instruction_lines(
                *instruction,
                old(self).lower_state(),
            ),
            final(self).lower_state() == next_state(*instruction, old(self).lower_state()),
            final(self).label_counter <= old(self).label_counter + 1,
            final(self).string_literals@.len() <= old(self).string_literals@.len() + 1,
            final(self).variables@.len() <= old(self).variables@.len() + 1,
    {
        match instruction {
            Instruction::PushInt(..)
            | Instruction::PushFloat(..)
            | Instruction::PushString(..)
            | Instruction::PushBool(..)
            | Instruction::PushNull
            | Instruction::Pop
            | Instruction::CreateArray
            | Instruction::ArrayPush
            | Instruction::ArraySet
            | Instruction::ArrayGet => self.lower_stack_op(instruction),
            Instruction::Add
            | Instruction::Subtract
            | Instruction::Multiply
            | Instruction::Divide
            | Instruction::Modulo
            | Instruction::Negate => self.lower_arithmetic(instruction),
            Instruction::Greater
            | Instruction::Less
            | Instruction::LessEqual
            | Instruction::Equal
            | Instruction::NotEqual
            | Instruction::GreaterEqual
            | Instruction::LogicalAnd
            | Instruction::LogicalOr
            | Instruction::LogicalNot => self.lower_comparison(instruction),
            Instruction::Echo
            | Instruction::EchoLine
            | Instruction::Concat => self.lower_output(instruction),
            Instruction::LoadVar(..)
            | Instruction::StoreVar(..) => self.lower_variable(instruction),
            Instruction::JumpIfFalse(..)
            | Instruction::Jump(..)
            | Instruction::JumpIfTrue(..)
            | Instruction::Label(..)
            | Instruction::Call(..)
            | Instruction::Return => self.lower_control(instruction),
        }
    }

    /// Lowers a stack or array instruction.
    fn lower_stack_op(&mut self, instruction: &Instruction)
        requires
            old(self).wf(),
            old(self).label_counter < usize::MAX,
            8 * (old(self).variables@.len() + 1) <= usize::MAX,
            *instruction is PushInt
                || *instruction is PushFloat
                || *instruction is PushString
                || *instruction is PushBool
                || *instruction is PushNull
                || *instruction is Pop
                || *instruction is CreateArray
                || *instruction is ArrayPush
                || *instruction is ArraySet
                || *instruction is ArrayGet,
        ensures
            final(self).wf(),
            final(self).lines@ =~= old(self).lines@ + instruction_lines(
                *instruction,
                old(self).lower_state(),
            ),
            final(self).lower_state() == next_state(*instruction, old(self).lower_state()),
            final(self).label_counter <= old(self).label_counter + 1,
            final(self).string_literals@.len() <= old(self).string_literals@.len() + 1,
            final(self).variables@.len() <= old(self).variables@.len() + 1,
    {
        let ghost st = self.lower_state();
        match instruction {
            Instruction::PushInt(v) => {
                self.emit_signed("    # PushInt(", *v, ")");
                self.emit_signed("    mov rax, ", *v, "");
                self.emit("    push rax");
            },
            Instruction::PushFloat(f) => {
                self.emit_text("    # PushFloat(", f.text.as_str(), ")");
                self.emit_signed("    mov rax, ", f.truncated, "");
                self.emit("    push rax");
            },
            Instruction::PushString(v) => {
                let index = self.string_literals.len();
                self.emit_text("    # PushString(\"", v.as_str(), "\")");
                self.emit_number("    lea rax, [rip + str_", index, "]");
                self.emit("    push rax");
                self.string_literals.push(v.clone());
                assert(self.lower_state().pool =~= st.pool.push(v@));
            },
            Instruction::PushBool(b) => {
                self.emit_text("    # PushBool(", bool_str(*b), ")");
                self.emit_number("    mov rax, ", if *b { 1 } else { 0 }, "");
                self.emit("    push rax");
            },
            Instruction::PushNull => {
                self.emit("    # PushNull");
                self.emit("    mov rax, 0");
                self.emit("    push rax");
            },
            Instruction::Pop => {
                self.emit("    # Pop");
                self.emit("    add rsp, 8");
            },
            Instruction::CreateArray => {
                self.emit("    # CreateArray");
                self.emit("    sub rsp, 64  # Allocate space for array");
                self.emit("    mov rax, rsp  # Store array pointer");
                self.emit("    push rax");
            },
            Instruction::ArrayPush => {
                self.emit("    # ArrayPush");
                self.emit("    pop rax  # Value to push");
                self.emit("    pop rdx  # Array pointer");
                self.emit("    mov [rdx], rax  # Store value in array");
                self.emit("    push rdx  # Push array pointer back");
            },
            Instruction::ArraySet => {
                self.emit("    # ArraySet");
                self.emit("    pop rdx  # Key");
                self.emit("    pop rax  # Value");
                self.emit("    pop rcx  # Array pointer");
                self.emit("    mov [rcx + rdx * 8], rax  # Store value at key offset");
                self.emit("    push rcx  # Push array pointer back");
            },
            Instruction::ArrayGet => {
                self.emit("    # ArrayGet");
                self.emit("    pop rdx  # Key");
                self.emit("    pop rcx  # Array pointer");
                self.emit("    mov rax, [rcx + rdx * 8]  # Load value at key offset");
                self.emit("    push rax  # Push value");
            },
            _ => {},
        }
    }

    /// Lowers an arithmetic instruction.
    fn lower_arithmetic(&mut self, instruction: &Instruction)
        requires
            old(self).wf(),
            old(self).label_counter < usize::MAX,
            8 * (old(self).variables@.len() + 1) <= usize::MAX,
            *instruction is Add
                || *instruction is Subtract
                || *instruction is Multiply
                || *instruction is Divide
                || *instruction is Modulo
                || *instruction is Negate,
        ensures
            final(self).wf(),
            final(self).lines@ =~= old(self).lines@ + instruction_lines(
                *instruction,
                old(self).lower_state(),
            ),
            final(self).lower_state() == next_state(*instruction, old(self).lower_state()),
            final(self).label_counter <= old(self).label_counter + 1,
            final(self).string_literals@.len() <= old(self).string_literals@.len() + 1,
            final(self).variables@.len() <= old(self).variables@.len() + 1,
    {
        let ghost st = self.lower_state();
        match instruction {
            Instruction::Add => {
                self.emit("    # Add");
                self.emit("    pop rax  # Second operand");
                self.emit("    pop rbx  # First operand");
                self.emit("    add rax, rbx");
                self.emit("    push rax");
            },
            Instruction::Subtract => {
                self.emit("    # Subtract");
                self.emit("    pop rax  # Second operand");
                self.emit("    pop rbx  # First operand");
                self.emit("    sub rbx, rax");
                self.emit("    push rbx");
            },
            Instruction::Multiply => {
                self.emit("    # Multiply");
                self.emit("    pop rax  # Second operand");
                self.emit("    pop rbx  # First operand");
                self.emit("    imul rbx");
                self.emit("    push rax");
            },
            Instruction::Divide => {
                self.emit("    # Divide");
                self.emit("    pop rcx  # Second operand");
                self.emit("    pop rax  # First operand");
                self.emit("    cqo  # Sign-extend RAX into RDX:RAX");
                self.emit("    idiv rcx");
                self.emit("    push rax");
            },
            Instruction::Modulo => {
                self.emit("    # Modulo");
                self.emit("    pop rcx  # Second operand");
                self.emit("    pop rax  # First operand");
                self.emit("    cqo  # Sign-extend RAX into RDX:RAX");
                self.emit("    idiv rcx");
                self.emit("    push rdx  # Remainder is in RDX");
            },
            Instruction::Negate => {
                self.emit("    # Negate");
                self.emit("    pop rax  # Operand");
                self.emit("    neg rax");
                self.emit("    push rax");
            },
            _ => {},
        }
    }

    /// Lowers a comparison or logical instruction.
    fn lower_comparison(&mut self, instruction: &Instruction)
        requires
            old(self).wf(),
            old(self).label_counter < usize::MAX,
            8 * (old(self).variables@.len() + 1) <= usize::MAX,
            *instruction is Greater
                || *instruction is Less
                || *instruction is LessEqual
                || *instruction is Equal
                || *instruction is NotEqual
                || *instruction is GreaterEqual
                || *instruction is LogicalAnd
                || *instruction is LogicalOr
                || *instruction is LogicalNot,
        ensures
            final(self).wf(),
            final(self).lines@ =~= old(self).lines@ + instruction_lines(
                *instruction,
                old(self).lower_state(),
            ),
            final(self).lower_state() == next_state(*instruction, old(self).lower_state()),
            final(self).label_counter <= old(self).label_counter + 1,
            final(self).string_literals@.len() <= old(self).string_literals@.len() + 1,
            final(self).variables@.len() <= old(self).variables@.len() + 1,
    {
        let ghost st = self.lower_state();
        match instruction {
            Instruction::Greater => {
                self.emit("    # Greater");
                self.emit("    pop rax  # Second operand");
                self.emit("    pop rbx  # First operand");
                self.emit("    cmp rbx, rax");
                self.emit("    setg al");
                self.emit("    movzx rax, al");
                self.emit("    push rax");
            },
            Instruction::Less => {
                self.emit("    # Less");
                self.emit("    pop rax  # Second operand");
                self.emit("    pop rbx  # First operand");
                self.emit("    cmp rbx, rax");
                self.emit("    setl al");
                self.emit("    movzx rax, al");
                self.emit("    push rax");
            },
            Instruction::LessEqual => {
                self.emit("    # LessEqual");
                self.emit("    pop rax  # Second operand");
                self.emit("    pop rbx  # First operand");
                self.emit("    cmp rbx, rax");
                self.emit("    setle al");
                self.emit("    movzx rax, al");
                self.emit("    push rax");
            },
            Instruction::Equal => {
                self.emit("    # Equal");
                self.emit("    pop rax  # Second operand");
                self.emit("    pop rbx  # First operand");
                self.emit("    cmp rbx, rax");
                self.emit("    sete al");
                self.emit("    movzx rax, al");
                self.emit("    push rax");
            },
            Instruction::NotEqual => {
                self.emit("    # NotEqual");
                self.emit("    pop rax  # Second operand");
                self.emit("    pop rbx  # First operand");
                self.emit("    cmp rbx, rax");
                self.emit("    setne al");
                self.emit("    movzx rax, al");
                self.emit("    push rax");
            },
            Instruction::GreaterEqual => {
                self.emit("    # GreaterEqual");
                self.emit("    pop rax  # Second operand");
                self.emit("    pop rbx  # First operand");
                self.emit("    cmp rbx, rax");
                self.emit("    setge al");
                self.emit("    movzx rax, al");
                self.emit("    push rax");
            },
            Instruction::LogicalAnd => {
                self.emit("    # LogicalAnd");
                self.emit("    pop rax  # Second operand");
                self.emit("    pop rbx  # First operand");
                self.emit("    cmp rax, 0");
                self.emit("    setne al  # Second operand as 0 or 1");
                self.emit("    cmp rbx, 0");
                self.emit("    setne bl  # First operand as 0 or 1");
                self.emit("    and al, bl");
                self.emit("    movzx rax, al");
                self.emit("    push rax");
            },
            Instruction::LogicalOr => {
                self.emit("    # LogicalOr");
                self.emit("    pop rax  # Second operand");
                self.emit("    pop rbx  # First operand");
                self.emit("    or rax, rbx");
                self.emit("    cmp rax, 0");
                self.emit("    setne al");
                self.emit("    movzx rax, al");
                self.emit("    push rax");
            },
            Instruction::LogicalNot => {
                self.emit("    # LogicalNot");
                self.emit("    pop rax  # Operand");
                self.emit("    cmp rax, 0");
                self.emit("    sete al");
                self.emit("    movzx rax, al");
                self.emit("    push rax");
            },
            _ => {},
        }
    }

    /// Lowers an output or concatenation instruction.
    fn lower_output(&mut self, instruction: &Instruction)
        requires
            old(self).wf(),
            old(self).label_counter < usize::MAX,
            8 * (old(self).variables@.len() + 1) <= usize::MAX,
            *instruction is Echo
                || *instruction is EchoLine
                || *instruction is Concat,
        ensures
            final(self).wf(),
            final(self).lines@ =~= old(self).lines@ + instruction_lines(
                *instruction,
                old(self).lower_state(),
            ),
            final(self).lower_state() == next_state(*instruction, old(self).lower_state()),
            final(self).label_counter <= old(self).label_counter + 1,
            final(self).string_literals@.len() <= old(self).string_literals@.len() + 1,
            final(self).variables@.len() <= old(self).variables@.len() + 1,
    {
        let ghost st = self.lower_state();
        match instruction {
            Instruction::Echo => {
                let n = self.label_counter;
                self.emit("    # Echo");
                self.emit("    pop rdx  # Value to print (second arg)");
                self.emit("    # Check if it's a string or an integer");
                self.emit("    cmp rdx, 100000  # Assume values < 100000 are integers");
                self.emit_number("    jge .print_string_", n, "");
                self.emit("    # Print as integer");
                self.emit("    lea rcx, [rip + fmt_int]  # Format string (first arg)");
                self.emit("    mov rax, 0");
                self.emit("    call printf");
                self.emit_number("    jmp .echo_done_", n, "");
                self.emit_number(".print_string_", n, ":");
                self.emit("    lea rcx, [rip + fmt_str]  # Format string (first arg)");
                self.emit("    mov rax, 0");
                self.emit("    call printf");
                self.emit_number(".echo_done_", n, ":");
                self.label_counter = self.label_counter + 1;
            },
            Instruction::EchoLine => {
                let n = self.label_counter;
                self.emit("    # EchoLine");
                self.emit("    pop rdx  # Value to print (second arg)");
                self.emit("    # Check if it's a string or an integer");
                self.emit("    cmp rdx, 100000  # Assume values < 100000 are integers");
                self.emit_number("    jge .print_string_line_", n, "");
                self.emit("    # Print as integer");
                self.emit("    lea rcx, [rip + fmt_int]  # Format string (first arg)");
                self.emit("    mov rax, 0");
                self.emit("    call printf");
                self.emit_number("    jmp .echo_line_done_", n, "");
                self.emit_number(".print_string_line_", n, ":");
                self.emit("    lea rcx, [rip + fmt_str]  # Format string (first arg)");
                self.emit("    mov rax, 0");
                self.emit("    call printf");
                self.emit_number(".echo_line_done_", n, ":");
                self.emit("    mov rcx, 10  # '\\n' (first arg)");
                self.emit("    call putchar");
                self.label_counter = self.label_counter + 1;
            },
            Instruction::Concat => {
                let n = self.label_counter;
                self.emit("    # Concat");
                self.emit("    pop rdx  # Second operand (string to append)");
                self.emit("    pop rcx  # First operand (destination string)");
                self.emit("    sub rsp, 512  # Reserve space for concatenated string");
                self.emit("    mov r8, rsp  # Store buffer address");
                self.emit("    mov r9, rcx  # Source (first string)");
                self.emit("    mov r10, r8  # Destination (buffer)");
                self.emit_number(".copy_first_", n, ":");
                self.emit("    mov al, [r9]  # Load character");
                self.emit("    mov [r10], al  # Store character");
                self.emit("    inc r9  # Next source character");
                self.emit("    inc r10  # Next destination character");
                self.emit("    test al, al  # Check for null terminator");
                self.emit_number("    jnz .copy_first_", n, "");
                self.emit("    dec r10  # Back up to null terminator");
                self.emit("    mov r9, rdx  # Source (second string)");
                self.emit_number(".copy_second_", n, ":");
                self.emit("    mov al, [r9]  # Load character");
                self.emit("    mov [r10], al  # Store character");
                self.emit("    inc r9  # Next source character");
                self.emit("    inc r10  # Next destination character");
                self.emit("    test al, al  # Check for null terminator");
                self.emit_number("    jnz .copy_second_", n, "");
                self.emit("    # The combined buffer is the result; its space stays reserved");
                self.emit("    push r8  # Push address of the combined buffer");
                self.string_literals.push(String::from_str(CONCAT_PLACEHOLDER));
                self.label_counter = self.label_counter + 1;
                assert(self.lower_state().pool =~= st.pool.push(CONCAT_PLACEHOLDER@));
            },
            _ => {},
        }
    }

    /// Lowers a variable instruction.
    fn lower_variable(&mut self, instruction: &Instruction)
        requires
            old(self).wf(),
            old(self).label_counter < usize::MAX,
            8 * (old(self).variables@.len() + 1) <= usize::MAX,
            *instruction is LoadVar
                || *instruction is StoreVar,
        ensures
            final(self).wf(),
            final(self).lines@ =~= old(self).lines@ + instruction_lines(
                *instruction,
                old(self).lower_state(),
            ),
            final(self).lower_state() == next_state(*instruction, old(self).lower_state()),
            final(self).label_counter <= old(self).label_counter + 1,
            final(self).string_literals@.len() <= old(self).string_literals@.len() + 1,
            final(self).variables@.len() <= old(self).variables@.len() + 1,
    {
        let ghost st = self.lower_state();
        match instruction {
            Instruction::LoadVar(name) => {
                let offset = self.get_var_offset(name);
                self.emit_text("    # LoadVar(\"", name.as_str(), "\")");
                self.emit_number("    mov rax, [rbp - ", offset, "]  # Load variable");
                self.emit("    push rax");
            },
            Instruction::StoreVar(name) => {
                let offset = self.get_var_offset(name);
                self.emit_text("    # StoreVar(\"", name.as_str(), "\")");
                self.emit("    pop rax  # Value to store");
                self.emit_number("    mov [rbp - ", offset, "], rax  # Store variable");
                self.emit("    push rax");
            },
            _ => {},
        }
    }

    /// Lowers a control-flow or call instruction.
    fn lower_control(&mut self, instruction: &Instruction)
        requires
            old(self).wf(),
            old(self).label_counter < usize::MAX,
            8 * (old(self).variables@.len() + 1) <= usize::MAX,
            *instruction is JumpIfFalse
                || *instruction is Jump
                || *instruction is JumpIfTrue
                || *instruction is Label
                || *instruction is Call
                || *instruction is Return,
        ensures
            final(self).wf(),
            final(self).lines@ =~= old(self).lines@ + instruction_lines(
                *instruction,
                old(self).lower_state(),
            ),
            final(self).lower_state() == next_state(*instruction, old(self).lower_state()),
            final(self).label_counter <= old(self).label_counter + 1,
            final(self).string_literals@.len() <= old(self).string_literals@.len() + 1,
            final(self).variables@.len() <= old(self).variables@.len() + 1,
    {
        let ghost st = self.lower_state();
        match instruction {
            Instruction::JumpIfFalse(a) => {
                self.emit_number("    # JumpIfFalse(", *a, ")");
                self.emit("    pop rax  # Condition");
                self.emit("    cmp rax, 0");
                self.emit_number("    je .label_", *a, "");
            },
            Instruction::Jump(a) => {
                self.emit_number("    # Jump(", *a, ")");
                self.emit_number("    jmp .label_", *a, "");
            },
            Instruction::JumpIfTrue(a) => {
                self.emit_number("    # JumpIfTrue(", *a, ")");
                self.emit("    pop rax  # Condition");
                self.emit("    cmp rax, 0");
                self.emit_number("    jne .label_", *a, "");
            },
            Instruction::Label(a) => {
                self.emit_number(".label_", *a, ":");
            },
            Instruction::Call(name, argc) => {
                self.emit_unimplemented_call(name, *argc);
            },
            Instruction::Return => {
                self.emit("    # Unimplemented: Return");
            },
            _ => {},
        }
    }
}

} // verus!
