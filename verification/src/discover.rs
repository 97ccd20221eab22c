use vstd::prelude::*;

use crate::error::Error;
use crate::mangle::create_function_label;
use crate::mangle::symbol_label;
use crate::model::IrOp;
use crate::model::Module;
use crate::model::TargetFunction;
use crate::output::instruction_views;
use crate::translate::body_supported;
use crate::translate::callees;
use crate::translate::function_code;
use crate::translate::generate_instructions;
use crate::translate::lemma_callee_prefix_contains;
use crate::translate::op_supported;
use crate::translate::temps_before;

verus! {

/// Function `i`'s body contains a call of function `j`.
pub open spec fn calls_edge(m: Module, i: int, j: int) -> bool {
    &&& 0 <= i < m.functions@.len()
    &&& exists|k: int|
        0 <= k < m.functions@[i].body@.len() && ((#[trigger] m.functions@[i].body@[k]) matches IrOp::Call(c)
            && c == j)
}

/// `i` is reachable from the module's entry point within `k` call steps.
pub open spec fn reachable_in(m: Module, i: int, k: nat) -> bool
    decreases k,
{
    ||| (m.entry_point matches Some(e) && i == e)
    ||| (k > 0 && exists|j: int|
        reachable_in(m, j, (k - 1) as nat) && #[trigger] calls_edge(m, j, i))
}

/// `i` is transitively reachable from the module's entry point.
pub open spec fn reachable(m: Module, i: int) -> bool {
    exists|k: nat| reachable_in(m, i, k)
}

/// The entry point itself is reachable.
pub proof fn lemma_entry_reachable(m: Module, e: int)
    requires
        m.entry_point matches Some(ep) && ep == e,
    ensures
        reachable(m, e),
{
    assert(reachable_in(m, e, 0));
}

/// One call step out of a reachable function reaches its callee.
pub proof fn lemma_reachable_step(m: Module, i: int, j: int)
    requires
        reachable(m, i),
        calls_edge(m, i, j),
    ensures
        reachable(m, j),
{
    let k = choose|k: nat| reachable_in(m, i, k);
    assert(reachable_in(m, i, k));
    let k1: nat = (k + 1) as nat;
    assert((k1 - 1) as nat == k);
    assert(reachable_in(m, j, k1));
}

/// A filled table slot holds the correct translation of its function: the
/// mangled label of its symbol and the lowering of its body.
pub open spec fn entry_correct(m: Module, i: int, e: Option<TargetFunction>) -> bool {
    match e {
        Option::Some(tf) => {
            &&& body_supported(m.functions@[i].body@, m.functions@.len() as int)
            &&& tf.label@ == symbol_label(m.functions@[i].symbol)
            &&& instruction_views(tf.instructions@) == function_code(m, i)
        },
        Option::None => true,
    }
}

/// Every reachable function of the module has a supported body.
pub open spec fn all_reachable_supported(m: Module) -> bool {
    forall|i: int|
        0 <= i < m.functions@.len() && #[trigger] reachable(m, i) ==> body_supported(
            m.functions@[i].body@,
            m.functions@.len() as int,
        )
}

/// `b` occurs in the worklist `p`.
spec fn in_seq(p: Seq<usize>, b: int) -> bool {
    exists|q: int| 0 <= q < p.len() && p[q] == b
}

/// How many table slots are still unfilled; the discovery loop's measure.
spec fn none_count(t: Seq<Option<TargetFunction>>) -> int
    decreases t.len(),
{
    if t.len() == 0 {
        0
    } else {
        none_count(t.drop_last()) + if t.last() is None {
            1int
        } else {
            0int
        }
    }
}

proof fn lemma_none_count_nonneg(t: Seq<Option<TargetFunction>>)
    ensures
        none_count(t) >= 0,
    decreases t.len(),
{
    if t.len() > 0 {
        lemma_none_count_nonneg(t.drop_last());
    }
}

proof fn lemma_none_count_update(t: Seq<Option<TargetFunction>>, i: int, v: Option<TargetFunction>)
    requires
        0 <= i < t.len(),
        t[i] is None,
        v is Some,
    ensures
        none_count(t.update(i, v)) == none_count(t) - 1,
    decreases t.len(),
{
    let u = t.update(i, v);
    if i == t.len() - 1 {
        assert(u.drop_last() =~= t.drop_last());
    } else {
        assert(u.drop_last() =~= t.drop_last().update(i, v));
        lemma_none_count_update(t.drop_last(), i, v);
    }
}

/// A table that contains the entry point and is closed under call edges
/// contains every function reachable within `k` steps.
proof fn lemma_done_covers(m: Module, t: Seq<Option<TargetFunction>>, i: int, k: nat)
    requires
        t.len() == m.functions@.len(),
        m.entry_point matches Some(e) && 0 <= e < t.len() && t[e as int] is Some,
        forall|a: int, b: int|
            0 <= a < t.len() && t[a] is Some && #[trigger] calls_edge(m, a, b) ==> 0 <= b < t.len()
                && t[b] is Some,
        reachable_in(m, i, k),
    ensures
        0 <= i < t.len() && t[i] is Some,
    decreases k,
{
    if m.entry_point matches Some(e) && i == e {
    } else {
        let j = choose|j: int|
            reachable_in(m, j, (k - 1) as nat) && #[trigger] calls_edge(m, j, i);
        lemma_done_covers(m, t, j, (k - 1) as nat);
    }
}

/// Starting at the module's entry point, visits every transitively
/// reachable function exactly once, using an explicit worklist rather than
/// native recursion: each visit translates the function, mangles its label
/// and fills the table slot of its index, and every callee the translator
/// surfaces is scheduled. No reachable function is skipped, none is
/// translated twice, and unreachable functions are left untranslated.
#[verifier::loop_isolation(false)]
pub fn build_functions(program: &Module) -> (r: Result<Vec<Option<TargetFunction>>, Error>)
    requires
        program.wf(),
    ensures
        r is Ok <==> (program.entry_point is Some && all_reachable_supported(*program)),
        program.entry_point is None ==> (r matches Err(e) && e == Error::MissingEntryPointFunction),
        (program.entry_point is Some && !all_reachable_supported(*program)) ==> (r matches Err(e)
            && e == Error::UnsupportedOperation),
        r matches Ok(t) ==> {
            &&& t@.len() == program.functions@.len()
            &&& forall|i: int|
                0 <= i < t@.len() ==> (((#[trigger] t@[i]) is Some) <==> reachable(*program, i))
            &&& forall|i: int| 0 <= i < t@.len() ==> entry_correct(*program, i, #[trigger] t@[i])
        },
{
    let entry = match program.entry_point {
        Some(e) => e,
        None => {
            return Err(Error::MissingEntryPointFunction);
        },
    };
    let n = program.functions.len();
    let mut table: Vec<Option<TargetFunction>> = Vec::new();
    let mut z: usize = 0;
    while z < n
        invariant
            z <= n,
            table@.len() == z,
            forall|i: int| 0 <= i < z ==> (#[trigger] table@[i]) is None,
        decreases n - z,
    {
        table.push(None);
        z = z + 1;
    }
    let mut pending: Vec<usize> = Vec::new();
    pending.push(entry);
    proof {
        lemma_entry_reachable(*program, entry as int);
        assert(pending@[0] == entry);
        assert(in_seq(pending@, entry as int));
    }
    while pending.len() > 0
        invariant
            table@.len() == n,
            forall|q: int|
                0 <= q < pending@.len() ==> (#[trigger] pending@[q]) < n && reachable(
                    *program,
                    pending@[q] as int,
                ),
            forall|i: int|
                0 <= i < n && (#[trigger] table@[i]) is Some ==> reachable(*program, i)
                    && entry_correct(*program, i, table@[i]),
            table@[entry as int] is Some || in_seq(pending@, entry as int),
            forall|a: int, b: int|
                0 <= a < n && table@[a] is Some && #[trigger] calls_edge(*program, a, b) ==> 0 <= b
                    < n && (table@[b] is Some || in_seq(pending@, b)),
        decreases none_count(table@), pending@.len(),
    {
        proof {
            lemma_none_count_nonneg(table@);
        }
        let ghost old_p = pending@;
        let ghost old_t = table@;
        let i = pending.pop().unwrap();
        let visited = table[i].is_some();
        if visited {
            proof {
                assert forall|b: int| in_seq(old_p, b) implies (table@[b] is Some || in_seq(
                    pending@,
                    b,
                )) by {
                    let q = choose|q: int| 0 <= q < old_p.len() && old_p[q] == b;
                    if q < pending@.len() {
                        assert(pending@[q] == b);
                    } else {
                        assert(b == i);
                    }
                }
            }
        } else {
            let ghost dropped = pending@;
            let ghost ops = program.functions@[i as int].body@;
            let ghost nf = program.functions@.len() as int;
            let result = generate_instructions(program, i, &mut pending);
            let instrs = match result {
                Ok(v) => v,
                Err(e) => {
                    proof {
                        assert(reachable(*program, i as int));
                        assert(!all_reachable_supported(*program));
                    }
                    return Err(e);
                },
            };
            let label = create_function_label(&program.functions[i].symbol);
            table[i] = Some(TargetFunction { label, instructions: instrs });
            proof {
                assert(table@ == old_t.update(i as int, table@[i as int]));
                lemma_none_count_update(old_t, i as int, table@[i as int]);
                lemma_none_count_nonneg(table@);
                lemma_callee_prefix_contains(ops, ops.len() as int);
                assert(pending@ == dropped + callees(ops));
                // every surfaced callee is in range and reachable
                assert forall|q: int|
                    0 <= q < pending@.len() implies (#[trigger] pending@[q]) < n && reachable(
                    *program,
                    pending@[q] as int,
                ) by {
                    if q < dropped.len() {
                        assert(pending@[q] == old_p[q]);
                    } else {
                        let c = pending@[q];
                        assert(callees(ops)[q - dropped.len()] == c);
                        assert(callees(ops).contains(c));
                        let t0 = choose|t0: int| 0 <= t0 < ops.len() && ops[t0] == IrOp::Call(c);
                        assert(op_supported(ops[t0], temps_before(ops, t0), nf));
                        assert(calls_edge(*program, i as int, c as int));
                        lemma_reachable_step(*program, i as int, c as int);
                    }
                }
                // the entry point is recorded or still scheduled
                if !(table@[entry as int] is Some) {
                    let q = choose|q: int| 0 <= q < old_p.len() && old_p[q] == entry;
                    assert(q < dropped.len());
                    assert(pending@[q] == entry);
                    assert(in_seq(pending@, entry as int));
                }
                // the filled slots stay closed under call edges
                assert forall|a: int, b: int|
                    0 <= a < n && table@[a] is Some && #[trigger] calls_edge(
                    *program,
                    a,
                    b,
                ) implies 0 <= b < n && (table@[b] is Some || in_seq(pending@, b)) by {
                    if a == i {
                        let k = choose|k: int|
                            0 <= k < ops.len() && ((#[trigger] ops[k]) matches IrOp::Call(c) && c
                                == b);
                        let c = ops[k]->Call_0;
                        assert(ops[k] == IrOp::Call(c));
                        assert(op_supported(ops[k], temps_before(ops, k), nf));
                        assert(callees(ops).contains(c));
                        let q0 = choose|q0: int|
                            0 <= q0 < callees(ops).len() && callees(ops)[q0] == c;
                        assert(pending@[dropped.len() + q0] == c);
                        assert(in_seq(pending@, b));
                    } else {
                        if !(table@[b] is Some) {
                            let q = choose|q: int| 0 <= q < old_p.len() && old_p[q] == b;
                            if q < dropped.len() {
                                assert(pending@[q] == b);
                            } else {
                                assert(b == i);
                            }
                        }
                    }
                }
            }
        }
    }
    proof {
        assert forall|i2: int| 0 <= i2 < n && reachable(*program, i2) implies (table@[i2]
            is Some) by {
            let k = choose|k: nat| reachable_in(*program, i2, k);
            lemma_done_covers(*program, table@, i2, k);
        }
        assert forall|i2: int|
            0 <= i2 < n && #[trigger] reachable(*program, i2) implies body_supported(
            program.functions@[i2].body@,
            program.functions@.len() as int,
        ) by {
            assert(table@[i2] is Some);
        }
    }
    Ok(table)
}

} // verus!
