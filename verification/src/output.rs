use vstd::prelude::*;
use vstd::string::StringExecFns;

use crate::mangle::decimal_digit_char;

verus! {

/// A MIPS32 register, by its conventional name.
#[derive(Clone, Copy, Debug, PartialEq, Eq, Structural)]
pub enum Register {
    Zero,
    V0,
    V1,
    A0,
    A1,
    A2,
    A3,
    T0,
    T1,
    T2,
    T3,
    T4,
    T5,
    T6,
    T7,
    S0,
    S1,
    S2,
    S3,
    S4,
    S5,
    S6,
    S7,
    T8,
    T9,
    GP,
    SP,
    FP,
    RA,
}

/// The assembler text of a register: `$` followed by its conventional name.
pub open spec fn register_text(r: Register) -> Seq<char> {
    match r {
        Register::Zero => "$zero"@,
        Register::V0 => "$v0"@,
        Register::V1 => "$v1"@,
        Register::A0 => "$a0"@,
        Register::A1 => "$a1"@,
        Register::A2 => "$a2"@,
        Register::A3 => "$a3"@,
        Register::T0 => "$t0"@,
        Register::T1 => "$t1"@,
        Register::T2 => "$t2"@,
        Register::T3 => "$t3"@,
        Register::T4 => "$t4"@,
        Register::T5 => "$t5"@,
        Register::T6 => "$t6"@,
        Register::T7 => "$t7"@,
        Register::S0 => "$s0"@,
        Register::S1 => "$s1"@,
        Register::S2 => "$s2"@,
        Register::S3 => "$s3"@,
        Register::S4 => "$s4"@,
        Register::S5 => "$s5"@,
        Register::S6 => "$s6"@,
        Register::S7 => "$s7"@,
        Register::T8 => "$t8"@,
        Register::T9 => "$t9"@,
        Register::GP => "$gp"@,
        Register::SP => "$sp"@,
        Register::FP => "$fp"@,
        Register::RA => "$ra"@,
    }
}

impl Register {
    /// Renders the register in canonical MIPS syntax.
    pub fn fmt(&self) -> (r: String)
        ensures
            r@ == register_text(*self),
    {
        match self {
            Register::Zero => "$zero".to_owned(),
            Register::V0 => "$v0".to_owned(),
            Register::V1 => "$v1".to_owned(),
            Register::A0 => "$a0".to_owned(),
            Register::A1 => "$a1".to_owned(),
            Register::A2 => "$a2".to_owned(),
            Register::A3 => "$a3".to_owned(),
            Register::T0 => "$t0".to_owned(),
            Register::T1 => "$t1".to_owned(),
            Register::T2 => "$t2".to_owned(),
            Register::T3 => "$t3".to_owned(),
            Register::T4 => "$t4".to_owned(),
            Register::T5 => "$t5".to_owned(),
            Register::T6 => "$t6".to_owned(),
            Register::T7 => "$t7".to_owned(),
            Register::S0 => "$s0".to_owned(),
            Register::S1 => "$s1".to_owned(),
            Register::S2 => "$s2".to_owned(),
            Register::S3 => "$s3".to_owned(),
            Register::S4 => "$s4".to_owned(),
            Register::S5 => "$s5".to_owned(),
            Register::S6 => "$s6".to_owned(),
            Register::S7 => "$s7".to_owned(),
            Register::T8 => "$t8".to_owned(),
            Register::T9 => "$t9".to_owned(),
            Register::GP => "$gp".to_owned(),
            Register::SP => "$sp".to_owned(),
            Register::FP => "$fp".to_owned(),
            Register::RA => "$ra".to_owned(),
        }
    }
}

/// A service of the MARS simulator's system-call interface, selected through
/// the value placed in `$v0` before a `syscall`.
#[derive(Clone, Copy, Debug, PartialEq, Eq, Structural)]
pub enum MarsServiceNumber {
    PrintInteger,
    PrintString,
    Exit,
}

/// The numeric code that selects a MARS service.
pub open spec fn service_number(s: MarsServiceNumber) -> i32 {
    match s {
        MarsServiceNumber::PrintInteger => 1,
        MarsServiceNumber::PrintString => 4,
        MarsServiceNumber::Exit => 10,
    }
}

impl MarsServiceNumber {
    /// The numeric code placed in `$v0` to select this service.
    pub fn number(&self) -> (r: i32)
        ensures
            r == service_number(*self),
    {
        match self {
            MarsServiceNumber::PrintInteger => 1,
            MarsServiceNumber::PrintString => 4,
            MarsServiceNumber::Exit => 10,
        }
    }
}

/// Represents an instruction in the supported MIPS32 subset.
#[derive(Debug, Clone, PartialEq)]
pub enum Instruction {
    /// Loads the address of a label into a register.
    La(Register, String),
    /// Loads a constant into a register.
    Li(Register, i32),
    /// Sets the contents of the first register to the second.
    Move(Register, Register),
    /// Sets the first register to the sum of the last two.
    Add(Register, Register, Register),
    /// Sets the first register to the second plus a constant.
    Addiu(Register, Register, i32),
    /// Stores the first register's word at offset plus base register.
    Sw(Register, i32, Register),
    /// Loads a word from offset plus base register into the first register.
    Lw(Register, i32, Register),
    /// Calls the function at a label, leaving the return address in `$ra`.
    Jal(String),
    /// Jumps to the address held in a register.
    Jr(Register),
    /// Issues a system call using the value in the `$v0` register.
    Syscall,
}

/// The mathematical shape of an instruction, with label text as a character
/// sequence.
pub enum InstructionView {
    La(Register, Seq<char>),
    Li(Register, i32),
    Move(Register, Register),
    Add(Register, Register, Register),
    Addiu(Register, Register, i32),
    Sw(Register, i32, Register),
    Lw(Register, i32, Register),
    Jal(Seq<char>),
    Jr(Register),
    Syscall,
}

impl View for Instruction {
    type V = InstructionView;

    open spec fn view(&self) -> InstructionView {
        match self {
            Instruction::La(d, l) => InstructionView::La(*d, l@),
            Instruction::Li(d, v) => InstructionView::Li(*d, *v),
            Instruction::Move(d, s) => InstructionView::Move(*d, *s),
            Instruction::Add(d, s, t) => InstructionView::Add(*d, *s, *t),
            Instruction::Addiu(d, s, v) => InstructionView::Addiu(*d, *s, *v),
            Instruction::Sw(r, o, b) => InstructionView::Sw(*r, *o, *b),
            Instruction::Lw(r, o, b) => InstructionView::Lw(*r, *o, *b),
            Instruction::Jal(l) => InstructionView::Jal(l@),
            Instruction::Jr(r) => InstructionView::Jr(*r),
            Instruction::Syscall => InstructionView::Syscall,
        }
    }
}

/// The views of a sequence of instructions.
pub open spec fn instruction_views(s: Seq<Instruction>) -> Seq<InstructionView> {
    s.map_values(|i: Instruction| i@)
}

/// The character for one hexadecimal digit.
pub open spec fn hex_digit_char(d: int) -> char
    recommends
        0 <= d < 16,
{
    if d < 10 {
        decimal_digit_char(d)
    } else {
        ((55 + d) as u8) as char
    }
}

/// Big-endian hexadecimal digits of `v`, without leading zeros (zero gives
/// one `0` digit).
pub open spec fn hex_digits(v: int) -> Seq<char>
    recommends
        0 <= v,
    decreases v,
{
    if v < 16 {
        seq![hex_digit_char(v)]
    } else {
        hex_digits(v / 16).push(hex_digit_char(v % 16))
    }
}

/// The rendering of an immediate: `0X` followed by the hexadecimal digits of
/// the value's 32 bits.
pub open spec fn immediate_text(v: i32) -> Seq<char> {
    "0X"@ + hex_digits(v as u32 as int)
}

/// The canonical one-line rendering of an instruction: mnemonic, then its
/// comma-separated operands, immediates in hexadecimal.
pub open spec fn instruction_text(i: InstructionView) -> Seq<char> {
    match i {
        InstructionView::La(d, l) => "la "@ + register_text(d) + ","@ + l,
        InstructionView::Li(d, v) => "li "@ + register_text(d) + ","@ + immediate_text(v),
        InstructionView::Move(d, s) => "move "@ + register_text(d) + ","@ + register_text(s),
        InstructionView::Add(d, s, t) => "add "@ + register_text(d) + ","@ + register_text(s)
            + ","@ + register_text(t),
        InstructionView::Addiu(d, s, v) => "addiu "@ + register_text(d) + ","@ + register_text(s)
            + ","@ + immediate_text(v),
        InstructionView::Sw(r, o, b) => "sw "@ + register_text(r) + ","@ + immediate_text(o) + "("@
            + register_text(b) + ")"@,
        InstructionView::Lw(r, o, b) => "lw "@ + register_text(r) + ","@ + immediate_text(o) + "("@
            + register_text(b) + ")"@,
        InstructionView::Jal(l) => "jal "@ + l,
        InstructionView::Jr(r) => "jr "@ + register_text(r),
        InstructionView::Syscall => "syscall"@,
    }
}

/// True of text that holds no line break.
pub open spec fn newline_free(s: Seq<char>) -> bool {
    forall|k: int| 0 <= k < s.len() ==> (#[trigger] s[k]) != '\n'
}

proof fn lemma_hex_digits_newline_free(v: int)
    requires
        0 <= v,
    ensures
        newline_free(hex_digits(v)),
    decreases v,
{
    assert('\n' as u32 == 10);
    if v < 16 {
        if v < 10 {
            assert(hex_digit_char(v) as u32 == 48 + v);
        } else {
            assert(hex_digit_char(v) as u32 == 55 + v);
        }
    } else {
        lemma_hex_digits_newline_free(v / 16);
        assert(hex_digit_char(v % 16) as u32 == 48 + v % 16 || hex_digit_char(v % 16) as u32 == 55
            + v % 16);
    }
}

proof fn lemma_register_text_newline_free(r: Register)
    ensures
        newline_free(register_text(r)),
{
    reveal_strlit("$zero");
    reveal_strlit("$v0");
    reveal_strlit("$v1");
    reveal_strlit("$a0");
    reveal_strlit("$a1");
    reveal_strlit("$a2");
    reveal_strlit("$a3");
    reveal_strlit("$t0");
    reveal_strlit("$t1");
    reveal_strlit("$t2");
    reveal_strlit("$t3");
    reveal_strlit("$t4");
    reveal_strlit("$t5");
    reveal_strlit("$t6");
    reveal_strlit("$t7");
    reveal_strlit("$s0");
    reveal_strlit("$s1");
    reveal_strlit("$s2");
    reveal_strlit("$s3");
    reveal_strlit("$s4");
    reveal_strlit("$s5");
    reveal_strlit("$s6");
    reveal_strlit("$s7");
    reveal_strlit("$t8");
    reveal_strlit("$t9");
    reveal_strlit("$gp");
    reveal_strlit("$sp");
    reveal_strlit("$fp");
    reveal_strlit("$ra");
}

/// The one-line rendering of an instruction holds no line break, as long as
/// any label it names holds none.
#[verifier::rlimit(50)]
pub proof fn lemma_instruction_text_newline_free(i: InstructionView)
    requires
        i matches InstructionView::La(_, l) ==> newline_free(l),
        i matches InstructionView::Jal(l) ==> newline_free(l),
    ensures
        newline_free(instruction_text(i)),
{
    reveal_strlit("la ");
    reveal_strlit("li ");
    reveal_strlit("move ");
    reveal_strlit("add ");
    reveal_strlit("addiu ");
    reveal_strlit("sw ");
    reveal_strlit("lw ");
    reveal_strlit("jal ");
    reveal_strlit("jr ");
    reveal_strlit("syscall");
    reveal_strlit(",");
    reveal_strlit("(");
    reveal_strlit(")");
    reveal_strlit("0X");
    match i {
        InstructionView::La(d, _) => {
            lemma_register_text_newline_free(d);
        },
        InstructionView::Li(d, v) => {
            lemma_register_text_newline_free(d);
            lemma_hex_digits_newline_free(v as u32 as int);
        },
        InstructionView::Move(d, s) => {
            lemma_register_text_newline_free(d);
            lemma_register_text_newline_free(s);
        },
        InstructionView::Add(d, s, t) => {
            lemma_register_text_newline_free(d);
            lemma_register_text_newline_free(s);
            lemma_register_text_newline_free(t);
        },
        InstructionView::Addiu(d, s, v) => {
            lemma_register_text_newline_free(d);
            lemma_register_text_newline_free(s);
            lemma_hex_digits_newline_free(v as u32 as int);
        },
        InstructionView::Sw(r, o, b) => {
            lemma_register_text_newline_free(r);
            lemma_register_text_newline_free(b);
            lemma_hex_digits_newline_free(o as u32 as int);
        },
        InstructionView::Lw(r, o, b) => {
            lemma_register_text_newline_free(r);
            lemma_register_text_newline_free(b);
            lemma_hex_digits_newline_free(o as u32 as int);
        },
        InstructionView::Jal(_) => {
        },
        InstructionView::Jr(r) => {
            lemma_register_text_newline_free(r);
        },
        InstructionView::Syscall => {
        },
    }
}

/// Relies on `String::push`: appends exactly the one character.
#[verifier::external_body]
pub(crate) fn push_char(out: &mut String, c: char)
    ensures
        final(out)@ == old(out)@.push(c),
{
    out.push(c);
}

/// Appends the hexadecimal digits of `v` to `out`.
fn push_hex_digits(out: &mut String, v: u32)
    ensures
        final(out)@ == old(out)@ + hex_digits(v as int),
    decreases v,
{
    if v < 16 {
        let d: u8 = v as u8;
        let c: char = if d < 10 {
            (48 + d) as char
        } else {
            (55 + d) as char
        };
        push_char(out, c);
        proof {
            assert(c == hex_digit_char(v as int));
            assert(final(out)@ =~= old(out)@ + hex_digits(v as int));
        }
    } else {
        push_hex_digits(out, v / 16);
        let d: u8 = (v % 16) as u8;
        let c: char = if d < 10 {
            (48 + d) as char
        } else {
            (55 + d) as char
        };
        push_char(out, c);
        proof {
            assert(c == hex_digit_char((v % 16) as int));
            assert(final(out)@ =~= old(out)@ + hex_digits(v as int));
        }
    }
}

/// Appends the rendering of an immediate to `out`.
fn push_immediate(out: &mut String, v: i32)
    ensures
        final(out)@ == old(out)@ + immediate_text(v),
{
    out.append("0X");
    push_hex_digits(out, v as u32);
    proof {
        assert(final(out)@ =~= old(out)@ + immediate_text(v));
    }
}

impl Instruction {
    /// Renders the instruction as one line of canonical MIPS32 syntax.
    pub fn fmt(&self) -> (r: String)
        ensures
            r@ == instruction_text(self@),
    {
        let mut s = String::new();
        match self {
            Instruction::La(d, l) => {
                s.append("la ");
                let rt = d.fmt();
                s.append(rt.as_str());
                s.append(",");
                s.append(l.as_str());
            },
            Instruction::Li(d, v) => {
                s.append("li ");
                let rt = d.fmt();
                s.append(rt.as_str());
                s.append(",");
                push_immediate(&mut s, *v);
            },
            Instruction::Move(d, src) => {
                s.append("move ");
                let rt = d.fmt();
                s.append(rt.as_str());
                s.append(",");
                let st = src.fmt();
                s.append(st.as_str());
            },
            Instruction::Add(d, a, b) => {
                s.append("add ");
                let rt = d.fmt();
                s.append(rt.as_str());
                s.append(",");
                let at = a.fmt();
                s.append(at.as_str());
                s.append(",");
                let bt = b.fmt();
                s.append(bt.as_str());
            },
            Instruction::Addiu(d, a, v) => {
                s.append("addiu ");
                let rt = d.fmt();
                s.append(rt.as_str());
                s.append(",");
                let at = a.fmt();
                s.append(at.as_str());
                s.append(",");
                push_immediate(&mut s, *v);
            },
            Instruction::Sw(r, o, b) => {
                s.append("sw ");
                let rt = r.fmt();
                s.append(rt.as_str());
                s.append(",");
                push_immediate(&mut s, *o);
                s.append("(");
                let bt = b.fmt();
                s.append(bt.as_str());
                s.append(")");
            },
            Instruction::Lw(r, o, b) => {
                s.append("lw ");
                let rt = r.fmt();
                s.append(rt.as_str());
                s.append(",");
                push_immediate(&mut s, *o);
                s.append("(");
                let bt = b.fmt();
                s.append(bt.as_str());
                s.append(")");
            },
            Instruction::Jal(l) => {
                s.append("jal ");
                s.append(l.as_str());
            },
            Instruction::Jr(r) => {
                s.append("jr ");
                let rt = r.fmt();
                s.append(rt.as_str());
            },
            Instruction::Syscall => {
                s.append("syscall");
            },
        }
        proof {
            assert(s@ =~= instruction_text(self@));
        }
        s
    }
}

} // verus!
