use vstd::prelude::*;
use vstd::string::StringExecFns;

use crate::discover::all_reachable_supported;
use crate::discover::build_functions;
use crate::discover::entry_correct;
use crate::discover::reachable;
use crate::error::Error;
use crate::mangle::symbol_label;
use crate::model::Module;
use crate::output::Instruction;
use crate::output::InstructionView;
use crate::output::MarsServiceNumber;
use crate::output::Register;
use crate::output::instruction_text;
use crate::output::instruction_views;
use crate::output::lemma_instruction_text_newline_free;
use crate::output::newline_free;
use crate::output::service_number;
use crate::translate::function_code;

verus! {

/// The nine fixed trampoline instructions opening the text section: move
/// the entry point's return-value register into a saved register, print the
/// fixed exit-report message, print the saved value, and exit.
pub open spec fn trampoline_views() -> Seq<InstructionView> {
    seq![
        InstructionView::Move(Register::S0, Register::V0),
        InstructionView::Li(Register::V0, service_number(MarsServiceNumber::PrintString)),
        InstructionView::La(Register::A0, "exit_code_message"@),
        InstructionView::Syscall,
        InstructionView::Li(Register::V0, service_number(MarsServiceNumber::PrintInteger)),
        InstructionView::Move(Register::A0, Register::S0),
        InstructionView::Syscall,
        InstructionView::Li(Register::V0, service_number(MarsServiceNumber::Exit)),
        InstructionView::Syscall,
    ]
}

/// How many line breaks a text holds.
pub open spec fn newline_count(s: Seq<char>) -> int
    decreases s.len(),
{
    if s.len() <= 0 {
        0
    } else {
        newline_count(s.drop_last()) + if s.last() == '\n' {
            1int
        } else {
            0int
        }
    }
}

proof fn lemma_newline_count_concat(a: Seq<char>, b: Seq<char>)
    ensures
        newline_count(a + b) == newline_count(a) + newline_count(b),
    decreases b.len(),
{
    if b.len() == 0 {
        assert(a + b =~= a);
    } else {
        lemma_newline_count_concat(a, b.drop_last());
        assert((a + b).drop_last() =~= a + b.drop_last());
    }
}

proof fn lemma_newline_free_count(s: Seq<char>)
    requires
        newline_free(s),
    ensures
        newline_count(s) == 0,
    decreases s.len(),
{
    if s.len() > 0 {
        assert(newline_free(s.drop_last()));
        lemma_newline_free_count(s.drop_last());
        assert(s.last() != '\n');
    }
}

proof fn lemma_one_newline()
    ensures
        newline_count("\n"@) == 1,
{
    reveal_strlit("\n");
    assert("\n"@.len() == 1);
    assert("\n"@.last() == '\n');
    assert("\n"@.drop_last() =~= Seq::<char>::empty());
    assert(newline_count(Seq::<char>::empty()) == 0);
    assert(newline_count("\n"@) == newline_count("\n"@.drop_last()) + 1);
}

/// The rendered lines of the first `k` instructions hold exactly `k` line
/// breaks, one ending each line, when no instruction's own text holds one.
proof fn lemma_lines_prefix_count(s: Seq<InstructionView>, k: int)
    requires
        0 <= k <= s.len(),
        forall|j: int| 0 <= j < s.len() ==> newline_free(#[trigger] instruction_text(s[j])),
    ensures
        newline_count(lines_prefix(s, k)) == k,
    decreases k,
{
    if k > 0 {
        lemma_lines_prefix_count(s, k - 1);
        lemma_newline_count_concat(lines_prefix(s, k - 1), instruction_text(s[k - 1]));
        lemma_newline_count_concat(lines_prefix(s, k - 1) + instruction_text(s[k - 1]), "\n"@);
        lemma_newline_free_count(instruction_text(s[k - 1]));
        lemma_one_newline();
    }
}

/// The trampoline is exactly nine instructions, and its emitted text is
/// exactly nine lines: it holds exactly nine line breaks, one ending each
/// instruction line, before the first function label can follow.
pub proof fn lemma_trampoline_nine_lines()
    ensures
        trampoline_views().len() == 9,
        newline_count(instruction_lines(trampoline_views())) == 9,
{
    let t = trampoline_views();
    reveal_strlit("exit_code_message");
    assert(newline_free("exit_code_message"@));
    assert forall|j: int| 0 <= j < t.len() implies newline_free(
        #[trigger] instruction_text(t[j]),
    ) by {
        lemma_instruction_text_newline_free(t[j]);
    }
    lemma_lines_prefix_count(t, 9);
}

/// One line of text per instruction, over the first `k` instructions.
pub open spec fn lines_prefix(s: Seq<InstructionView>, k: int) -> Seq<char>
    decreases k,
{
    if k <= 0 {
        Seq::empty()
    } else {
        lines_prefix(s, k - 1) + instruction_text(s[k - 1]) + "\n"@
    }
}

/// One line of text per instruction.
pub open spec fn instruction_lines(s: Seq<InstructionView>) -> Seq<char> {
    lines_prefix(s, s.len() as int)
}

/// The emitted block of one translated function: its label line, then one
/// line per instruction.
pub open spec fn function_block(m: Module, i: int) -> Seq<char> {
    symbol_label(m.functions@[i].symbol) + ":\n"@ + instruction_lines(function_code(m, i))
}

/// The blocks of all reachable functions with index below `k`, in index
/// order.
pub open spec fn blocks_prefix(m: Module, k: int) -> Seq<char>
    decreases k,
{
    if k <= 0 {
        Seq::empty()
    } else {
        blocks_prefix(m, k - 1) + if reachable(m, k - 1) {
            function_block(m, k - 1)
        } else {
            Seq::empty()
        }
    }
}

/// The whole emitted assembly text: a data section declaring the fixed
/// exit-report message, a text section beginning with the `main` trampoline,
/// then one label and instruction block per reachable function.
pub open spec fn program_text(m: Module) -> Seq<char> {
    ".data\n"@ + "exit_code_message: .asciiz \"Exited with code \"\n"@ + ".text\n"@ + "main:\n"@
        + instruction_lines(trampoline_views()) + blocks_prefix(m, m.functions@.len() as int)
}

/// The fixed program-entry trampoline.
fn trampoline_instructions() -> (r: Vec<Instruction>)
    ensures
        instruction_views(r@) == trampoline_views(),
{
    let mut v: Vec<Instruction> = Vec::new();
    // the entry point's return value arrives in $v0
    v.push(Instruction::Move(Register::S0, Register::V0));
    v.push(Instruction::Li(Register::V0, MarsServiceNumber::PrintString.number()));
    v.push(Instruction::La(Register::A0, "exit_code_message".to_owned()));
    v.push(Instruction::Syscall);
    v.push(Instruction::Li(Register::V0, MarsServiceNumber::PrintInteger.number()));
    v.push(Instruction::Move(Register::A0, Register::S0));
    v.push(Instruction::Syscall);
    v.push(Instruction::Li(Register::V0, MarsServiceNumber::Exit.number()));
    v.push(Instruction::Syscall);
    proof {
        assert(instruction_views(v@) =~= trampoline_views());
    }
    v
}

/// Appends one rendered line per instruction.
#[verifier::loop_isolation(false)]
fn append_instruction_lines(s: &mut String, instructions: &Vec<Instruction>)
    ensures
        final(s)@ == old(s)@ + instruction_lines(instruction_views(instructions@)),
{
    let ghost views = instruction_views(instructions@);
    let mut k: usize = 0;
    while k < instructions.len()
        invariant
            k <= instructions@.len(),
            s@ == old(s)@ + lines_prefix(views, k as int),
        decreases instructions@.len() - k,
    {
        let line = instructions[k].fmt();
        s.append(line.as_str());
        s.append("\n");
        proof {
            assert(views[k as int] == instructions@[k as int]@);
            assert(s@ =~= old(s)@ + lines_prefix(views, k as int + 1));
        }
        k = k + 1;
    }
    proof {
        assert(final(s)@ =~= old(s)@ + instruction_lines(views));
    }
}

/// Assembles the whole module into one self-contained MIPS32 assembly text:
/// discovery from the entry point, translation of every reachable function,
/// and emission of the data section, the `main` trampoline and one block per
/// reachable function, in function-index order. Fails with
/// `MissingEntryPointFunction` when the module declares no entry point and
/// with `UnsupportedOperation` when some reachable body has no defined
/// lowering; on failure no text is produced.
#[verifier::loop_isolation(false)]
pub fn write_program(program: &Module) -> (r: Result<String, Error>)
    requires
        program.wf(),
    ensures
        r matches Ok(s) ==> s@ == program_text(*program),
        r is Ok <==> (program.entry_point is Some && all_reachable_supported(*program)),
        program.entry_point is None ==> (r matches Err(e) && e
            == Error::MissingEntryPointFunction),
        (program.entry_point is Some && !all_reachable_supported(*program)) ==> (r matches Err(e)
            && e == Error::UnsupportedOperation),
{
    let table = match build_functions(program) {
        Ok(t) => t,
        Err(e) => {
            return Err(e);
        },
    };
    let mut s = String::new();
    s.append(".data\n");
    s.append("exit_code_message: .asciiz \"Exited with code \"\n");
    s.append(".text\n");
    s.append("main:\n");
    let ghost head = ".data\n"@ + "exit_code_message: .asciiz \"Exited with code \"\n"@
        + ".text\n"@ + "main:\n"@;
    proof {
        assert(s@ =~= head);
    }
    let tramp = trampoline_instructions();
    append_instruction_lines(&mut s, &tramp);
    let ghost head2 = head + instruction_lines(trampoline_views());
    proof {
        assert(s@ =~= head2 + blocks_prefix(*program, 0));
    }
    let mut i: usize = 0;
    while i < table.len()
        invariant
            i <= table@.len(),
            s@ == head2 + blocks_prefix(*program, i as int),
        decreases table@.len() - i,
    {
        match &table[i] {
            Some(tf) => {
                s.append(tf.label.as_str());
                s.append(":\n");
                append_instruction_lines(&mut s, &tf.instructions);
                proof {
                    assert(reachable(*program, i as int));
                    assert(entry_correct(*program, i as int, table@[i as int]));
                    assert(s@ =~= head2 + blocks_prefix(*program, i as int + 1));
                }
            },
            None => {
                proof {
                    assert(!reachable(*program, i as int));
                    assert(s@ =~= head2 + blocks_prefix(*program, i as int + 1));
                }
            },
        }
        i = i + 1;
    }
    proof {
        assert(s@ =~= program_text(*program));
    }
    Ok(s)
}

} // verus!
