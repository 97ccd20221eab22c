use vstd::prelude::*;

use crate::error::Error;
use crate::mangle::create_function_label;
use crate::mangle::symbol_label;
use crate::model::IrOp;
use crate::model::Module;
use crate::output::Instruction;
use crate::output::InstructionView;
use crate::output::Register;
use crate::output::instruction_views;

verus! {

/// True of operations that define a new temporary.
pub open spec fn defines_temp(op: IrOp) -> bool {
    op is ConstI || op is Add || op is Call
}

/// How many temporaries the first `k` operations define.
pub open spec fn temps_before(ops: Seq<IrOp>, k: int) -> int
    decreases k,
{
    if k <= 0 {
        0
    } else {
        temps_before(ops, k - 1) + if defines_temp(ops[k - 1]) {
            1int
        } else {
            0int
        }
    }
}

/// How many temporaries a whole body defines.
pub open spec fn temp_count(ops: Seq<IrOp>) -> int {
    temps_before(ops, ops.len() as int)
}

/// The physical register backing temporary `d`: a callee-saved register, so
/// that the value survives calls to other translated functions.
pub open spec fn temp_register(d: int) -> Register
    recommends
        0 <= d < 8,
{
    if d == 0 {
        Register::S0
    } else if d == 1 {
        Register::S1
    } else if d == 2 {
        Register::S2
    } else if d == 3 {
        Register::S3
    } else if d == 4 {
        Register::S4
    } else if d == 5 {
        Register::S5
    } else if d == 6 {
        Register::S6
    } else {
        Register::S7
    }
}

/// Whether one operation has a defined lowering at its program point:
/// operand temporaries must be defined earlier, and a call target must name
/// a function of the module.
pub open spec fn op_supported(op: IrOp, temps: int, function_count: int) -> bool {
    match op {
        IrOp::Nop => true,
        IrOp::ConstI(_) => true,
        IrOp::Add(a, b) => a < temps && b < temps,
        IrOp::Call(c) => c < function_count,
        IrOp::Ret(t) => t < temps,
    }
}

/// Whether a whole body has a defined lowering: nonempty, ending in `Ret`
/// so that control never falls off the end, defining at most the eight
/// temporaries the callee-saved registers can back, and every operation
/// supported at its program point.
pub open spec fn body_supported(ops: Seq<IrOp>, function_count: int) -> bool {
    &&& ops.len() > 0
    &&& ops[ops.len() - 1] is Ret
    &&& temp_count(ops) <= 8
    &&& forall|k: int|
        0 <= k < ops.len() ==> #[trigger] op_supported(ops[k], temps_before(ops, k), function_count)
}

/// Stack bytes of a frame: one word per temporary plus one for `$ra`.
pub open spec fn frame_size(temps: int) -> int {
    4 * temps + 4
}

/// Frame allocation and the save of `$ra`, before the callee-saved saves.
pub open spec fn prologue_head(temps: int) -> Seq<InstructionView> {
    seq![
        InstructionView::Addiu(Register::SP, Register::SP, (0 - frame_size(temps)) as i32),
        InstructionView::Sw(Register::RA, (4 * temps) as i32, Register::SP),
    ]
}

/// Saves of the registers backing the first `k` temporaries into the frame.
pub open spec fn save_code(k: int) -> Seq<InstructionView>
    decreases k,
{
    if k <= 0 {
        Seq::empty()
    } else {
        save_code(k - 1).push(
            InstructionView::Sw(temp_register(k - 1), (4 * (k - 1)) as i32, Register::SP),
        )
    }
}

/// Restores of the registers backing the first `k` temporaries.
pub open spec fn restore_code(k: int) -> Seq<InstructionView>
    decreases k,
{
    if k <= 0 {
        Seq::empty()
    } else {
        restore_code(k - 1).push(
            InstructionView::Lw(temp_register(k - 1), (4 * (k - 1)) as i32, Register::SP),
        )
    }
}

/// The whole prologue of a function defining `temps` temporaries.
pub open spec fn prologue_code(temps: int) -> Seq<InstructionView> {
    prologue_head(temps) + save_code(temps)
}

/// The epilogue emitted for a `Ret` of temporary `t`: the return value moves
/// into `$v0`, the callee-saved registers and `$ra` are restored, the frame
/// is released, and control returns to the caller.
pub open spec fn ret_code(t: int, temps: int) -> Seq<InstructionView> {
    seq![InstructionView::Move(Register::V0, temp_register(t))] + restore_code(temps) + seq![
        InstructionView::Lw(Register::RA, (4 * temps) as i32, Register::SP),
        InstructionView::Addiu(Register::SP, Register::SP, frame_size(temps) as i32),
        InstructionView::Jr(Register::RA),
    ]
}

/// The lowering of one operation, `d` temporaries being defined before it
/// and `temps` in the whole function.
pub open spec fn op_code(m: Module, op: IrOp, d: int, temps: int) -> Seq<InstructionView> {
    match op {
        IrOp::Nop => Seq::empty(),
        IrOp::ConstI(v) => seq![InstructionView::Li(temp_register(d), v)],
        IrOp::Add(a, b) => seq![
            InstructionView::Add(temp_register(d), temp_register(a as int), temp_register(b as int)),
        ],
        IrOp::Call(c) => seq![
            InstructionView::Jal(symbol_label(m.functions@[c as int].symbol)),
            InstructionView::Move(temp_register(d), Register::V0),
        ],
        IrOp::Ret(t) => ret_code(t as int, temps),
    }
}

/// The lowering of the prologue and the first `k` operations.
pub open spec fn code_prefix(m: Module, ops: Seq<IrOp>, k: int) -> Seq<InstructionView>
    decreases k,
{
    if k <= 0 {
        prologue_code(temp_count(ops))
    } else {
        code_prefix(m, ops, k - 1) + op_code(m, ops[k - 1], temps_before(ops, k - 1), temp_count(ops))
    }
}

/// The whole lowering of the body of function `i` of the module.
pub open spec fn function_code(m: Module, i: int) -> Seq<InstructionView> {
    code_prefix(m, m.functions@[i].body@, m.functions@[i].body@.len() as int)
}

/// The call targets surfaced by the first `k` operations, in order.
pub open spec fn callee_prefix(ops: Seq<IrOp>, k: int) -> Seq<usize>
    decreases k,
{
    if k <= 0 {
        Seq::empty()
    } else {
        callee_prefix(ops, k - 1) + (match ops[k - 1] {
            IrOp::Call(c) => seq![c],
            _ => Seq::empty(),
        })
    }
}

/// All call targets a body surfaces, in order.
pub open spec fn callees(ops: Seq<IrOp>) -> Seq<usize> {
    callee_prefix(ops, ops.len() as int)
}

/// Appending one instruction appends its view.
pub broadcast proof fn lemma_instruction_views_push(s: Seq<Instruction>, v: Instruction)
    ensures
        #[trigger] instruction_views(s.push(v)) == instruction_views(s).push(v@),
{
    assert(instruction_views(s.push(v)) =~= instruction_views(s).push(v@));
}

/// Temporary counts grow along the body.
pub proof fn lemma_temps_before_monotone(ops: Seq<IrOp>, k1: int, k2: int)
    requires
        0 <= k1 <= k2,
    ensures
        temps_before(ops, k1) <= temps_before(ops, k2),
    decreases k2,
{
    if k1 < k2 {
        lemma_temps_before_monotone(ops, k1, k2 - 1);
    }
}

/// A target is surfaced among the first `k` operations exactly when one of
/// them calls it.
pub proof fn lemma_callee_prefix_contains(ops: Seq<IrOp>, k: int)
    requires
        0 <= k <= ops.len(),
    ensures
        forall|c: usize|
            #[trigger] callee_prefix(ops, k).contains(c) <==> (exists|t: int|
                0 <= t < k && ops[t] == IrOp::Call(c)),
    decreases k,
{
    if k > 0 {
        lemma_callee_prefix_contains(ops, k - 1);
        let p = callee_prefix(ops, k - 1);
        let q = callee_prefix(ops, k);
        assert forall|c: usize| #[trigger] q.contains(c) implies (exists|t: int|
            0 <= t < k && ops[t] == IrOp::Call(c)) by {
            let i = choose|i: int| 0 <= i < q.len() && q[i] == c;
            if i < p.len() {
                assert(p[i] == c);
                assert(p.contains(c));
            } else {
                assert(ops[k - 1] == IrOp::Call(c));
            }
        }
        assert forall|c: usize| (exists|t: int| 0 <= t < k && ops[t] == IrOp::Call(c)) implies #[trigger] q.contains(c) by {
            let t = choose|t: int| 0 <= t < k && ops[t] == IrOp::Call(c);
            if t < k - 1 {
                assert(p.contains(c));
                let i = choose|i: int| 0 <= i < p.len() && p[i] == c;
                assert(q[i] == c);
            } else {
                assert(q[q.len() - 1] == c);
            }
        }
    }
}

/// The physical register backing temporary `d`.
fn temp_reg(d: usize) -> (r: Register)
    requires
        d < 8,
    ensures
        r == temp_register(d as int),
{
    if d == 0 {
        Register::S0
    } else if d == 1 {
        Register::S1
    } else if d == 2 {
        Register::S2
    } else if d == 3 {
        Register::S3
    } else if d == 4 {
        Register::S4
    } else if d == 5 {
        Register::S5
    } else if d == 6 {
        Register::S6
    } else {
        Register::S7
    }
}

/// Lowers one function body into target instructions and surfaces every
/// callee the body references by appending its index to `pending`, so that
/// the discovery worklist can schedule it. A body with no defined lowering
/// is a hard failure: no instructions are produced and nothing is surfaced.
#[verifier::loop_isolation(false)]
pub fn generate_instructions(module: &Module, function_index: usize, pending: &mut Vec<usize>) -> (r:
    Result<Vec<Instruction>, Error>)
    requires
        function_index < module.functions@.len(),
    ensures
        r is Ok <==> body_supported(
            module.functions@[function_index as int].body@,
            module.functions@.len() as int,
        ),
        r matches Ok(v) ==> instruction_views(v@) == function_code(*module, function_index as int)
            && final(pending)@ == old(pending)@ + callees(
            module.functions@[function_index as int].body@,
        ),
        r is Err ==> final(pending)@ == old(pending)@,
        r matches Err(e) ==> e == Error::UnsupportedOperation,
{
    broadcast use lemma_instruction_views_push;

    let ghost ops = module.functions@[function_index as int].body@;
    let ghost nf = module.functions@.len() as int;
    let n_functions = module.functions.len();
    let body_len = module.functions[function_index].body.len();
    if body_len == 0 {
        return Err(Error::UnsupportedOperation);
    }
    // First pass: count the temporaries and check that every operation has a
    // defined lowering at its program point.
    let mut temps: usize = 0;
    let mut k: usize = 0;
    while k < body_len
        invariant
            k <= body_len,
            temps == temps_before(ops, k as int),
            temps <= k,
            forall|j: int| 0 <= j < k ==> #[trigger] op_supported(ops[j], temps_before(ops, j), nf),
        decreases body_len - k,
    {
        let op = module.functions[function_index].body[k];
        let supported = match op {
            IrOp::Nop => true,
            IrOp::ConstI(_) => true,
            IrOp::Add(a, b) => a < temps && b < temps,
            IrOp::Call(c) => c < n_functions,
            IrOp::Ret(t) => t < temps,
        };
        if !supported {
            proof {
                assert(!op_supported(ops[k as int], temps_before(ops, k as int), nf));
            }
            return Err(Error::UnsupportedOperation);
        }
        match op {
            IrOp::ConstI(_) => temps = temps + 1,
            IrOp::Add(_, _) => temps = temps + 1,
            IrOp::Call(_) => temps = temps + 1,
            _ => (),
        }
        k = k + 1;
    }
    if temps > 8 {
        return Err(Error::UnsupportedOperation);
    }
    let ends_in_ret = match module.functions[function_index].body[body_len - 1] {
        IrOp::Ret(_) => true,
        _ => false,
    };
    if !ends_in_ret {
        return Err(Error::UnsupportedOperation);
    }
    proof {
        assert(body_supported(ops, nf));
    }
    // Second pass: emit the prologue, then the lowering of each operation.
    let mut out: Vec<Instruction> = Vec::new();
    let mut calls: Vec<usize> = Vec::new();
    let temps_i32: i32 = temps as i32;
    let frame: i32 = 4 * temps_i32 + 4;
    out.push(Instruction::Addiu(Register::SP, Register::SP, 0 - frame));
    out.push(Instruction::Sw(Register::RA, 4 * temps_i32, Register::SP));
    proof {
        assert(instruction_views(out@) =~= prologue_head(temps as int) + save_code(0));
    }
    let mut i: usize = 0;
    while i < temps
        invariant
            i <= temps,
            instruction_views(out@) == prologue_head(temps as int) + save_code(i as int),
        decreases temps - i,
    {
        out.push(Instruction::Sw(temp_reg(i), 4 * (i as i32), Register::SP));
        proof {
            assert(instruction_views(out@) =~= prologue_head(temps as int) + save_code(
                i as int + 1,
            ));
        }
        i = i + 1;
    }
    proof {
        assert(instruction_views(out@) =~= code_prefix(*module, ops, 0));
    }
    let mut temps_now: usize = 0;
    let mut k2: usize = 0;
    while k2 < body_len
        invariant
            k2 <= body_len,
            temps_now == temps_before(ops, k2 as int),
            instruction_views(out@) == code_prefix(*module, ops, k2 as int),
            calls@ == callee_prefix(ops, k2 as int),
        decreases body_len - k2,
    {
        proof {
            assert(op_supported(ops[k2 as int], temps_before(ops, k2 as int), nf));
            lemma_temps_before_monotone(ops, k2 as int + 1, ops.len() as int);
        }
        let op = module.functions[function_index].body[k2];
        match op {
            IrOp::Nop => {
                proof {
                    assert(code_prefix(*module, ops, k2 as int + 1) =~= code_prefix(
                        *module,
                        ops,
                        k2 as int,
                    ));
                    assert(callee_prefix(ops, k2 as int + 1) =~= callee_prefix(ops, k2 as int));
                }
            },
            IrOp::ConstI(v) => {
                out.push(Instruction::Li(temp_reg(temps_now), v));
                temps_now = temps_now + 1;
                proof {
                    assert(instruction_views(out@) =~= code_prefix(*module, ops, k2 as int + 1));
                    assert(callee_prefix(ops, k2 as int + 1) =~= callee_prefix(ops, k2 as int));
                }
            },
            IrOp::Add(a, b) => {
                out.push(Instruction::Add(temp_reg(temps_now), temp_reg(a), temp_reg(b)));
                temps_now = temps_now + 1;
                proof {
                    assert(instruction_views(out@) =~= code_prefix(*module, ops, k2 as int + 1));
                    assert(callee_prefix(ops, k2 as int + 1) =~= callee_prefix(ops, k2 as int));
                }
            },
            IrOp::Call(c) => {
                let label = create_function_label(&module.functions[c].symbol);
                out.push(Instruction::Jal(label));
                out.push(Instruction::Move(temp_reg(temps_now), Register::V0));
                calls.push(c);
                temps_now = temps_now + 1;
                proof {
                    assert(instruction_views(out@) =~= code_prefix(*module, ops, k2 as int + 1));
                    assert(calls@ =~= callee_prefix(ops, k2 as int + 1));
                }
            },
            IrOp::Ret(t) => {
                let ghost base = code_prefix(*module, ops, k2 as int);
                let ghost mv = seq![
                    InstructionView::Move(Register::V0, temp_register(t as int)),
                ];
                out.push(Instruction::Move(Register::V0, temp_reg(t)));
                proof {
                    assert(instruction_views(out@) =~= base + mv + restore_code(0));
                }
                let mut j: usize = 0;
                while j < temps
                    invariant
                        j <= temps,
                        instruction_views(out@) == base + mv + restore_code(j as int),
                    decreases temps - j,
                {
                    out.push(Instruction::Lw(temp_reg(j), 4 * (j as i32), Register::SP));
                    proof {
                        assert(instruction_views(out@) =~= base + mv + restore_code(j as int + 1));
                    }
                    j = j + 1;
                }
                out.push(Instruction::Lw(Register::RA, 4 * temps_i32, Register::SP));
                out.push(Instruction::Addiu(Register::SP, Register::SP, frame));
                out.push(Instruction::Jr(Register::RA));
                proof {
                    assert(instruction_views(out@) =~= code_prefix(*module, ops, k2 as int + 1));
                    assert(callee_prefix(ops, k2 as int + 1) =~= callee_prefix(ops, k2 as int));
                }
            },
        }
        k2 = k2 + 1;
    }
    pending.append(&mut calls);
    Ok(out)
}

} // verus!
