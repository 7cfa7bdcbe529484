//! Loop unrolling: a loop becomes one test of its first condition and, when
//! the test passes, its pre-body and body followed by the loop itself, which
//! then tests its ordinary condition. Loops nested anywhere are unrolled
//! first, so every copy holds unrolled opcodes.

use vstd::prelude::*;
use crate::ir::{IrOpcode, IrProject, Step};

verus! {

/// The number of opcodes that unrolling turns `op` into.
pub open spec fn unrolled_op_len(op: IrOpcode) -> int
    decreases op,
{
    match op {
        IrOpcode::ControlLoop { condition, first_condition, flip_if, .. } => {
            let first = match first_condition {
                Some(fc) => unrolled_step_len(fc),
                None => unrolled_step_len(condition),
            };
            first + (if flip_if {
                1int
            } else {
                0int
            }) + 1
        },
        _ => 1,
    }
}

/// The number of opcodes that unrolling turns `ops` into.
pub open spec fn unrolled_ops_len(ops: Seq<IrOpcode>) -> int
    decreases ops,
{
    if ops.len() == 0 {
        0
    } else {
        unrolled_ops_len(ops.drop_last()) + unrolled_op_len(ops.last())
    }
}

/// The number of opcodes that unrolling turns the opcodes of `step` into.
pub open spec fn unrolled_step_len(step: Step) -> int
    decreases step,
{
    unrolled_ops_len(step.opcodes@)
}

/// `new` is `old` with its loops unrolled.
pub open spec fn unrolled_step(old: Step, new: Step) -> bool
    decreases old,
{
    unrolled_ops(old.opcodes@, new.opcodes@)
}

/// `new` is `old` with its loops unrolled, opcode by opcode.
pub open spec fn unrolled_ops(old: Seq<IrOpcode>, new: Seq<IrOpcode>) -> bool
    decreases old,
{
    if old.len() == 0 {
        new.len() == 0
    } else {
        let k = new.len() - unrolled_op_len(old.last());
        &&& 0 <= k
        &&& unrolled_ops(old.drop_last(), new.subrange(0, k))
        &&& unrolled_op(old.last(), new.subrange(k, new.len() as int))
    }
}

/// Both absent, or `new` is `old` with its loops unrolled.
pub open spec fn unrolled_opt(old: Option<Step>, new: Option<Step>) -> bool
    decreases old,
{
    match (old, new) {
        (Some(a), Some(b)) => unrolled_step(a, b),
        (None, None) => true,
        _ => false,
    }
}

/// What unrolling turns `op` into: the steps that it holds are unrolled, and
/// a loop is replaced by its first test (its first condition, or else its
/// condition, negated when `flip_if` is set) and an if/else whose if-branch
/// runs the pre-body, the body and then the loop (now without a first
/// condition), and whose else-branch is empty.
pub open spec fn unrolled_op(op: IrOpcode, piece: Seq<IrOpcode>) -> bool
    decreases op,
{
    match op {
        IrOpcode::HqYieldInline { step } => piece.len() == 1 && match piece[0] {
            IrOpcode::HqYieldInline { step: s2 } => unrolled_step(step, s2),
            _ => false,
        },
        IrOpcode::ControlIfElse { branch_if, branch_else } => piece.len() == 1 && match piece[0] {
            IrOpcode::ControlIfElse { branch_if: i2, branch_else: e2 } => unrolled_step(branch_if, i2)
                && unrolled_step(branch_else, e2),
            _ => false,
        },
        IrOpcode::ControlLoop { condition, first_condition, body, pre_body, flip_if } => {
            let f: int = if flip_if {
                1
            } else {
                0
            };
            let n = piece.len() - 1 - f;
            &&& 0 <= n
            &&& match first_condition {
                Some(fc) => unrolled_ops(fc.opcodes@, piece.subrange(0, n)),
                None => unrolled_ops(condition.opcodes@, piece.subrange(0, n)),
            }
            &&& flip_if ==> piece[n] == IrOpcode::OperatorNot
            &&& match piece[n + f] {
                IrOpcode::ControlIfElse { branch_if: bi, branch_else: be } => {
                    let ops = bi.opcodes@;
                    let lb = unrolled_step_len(body);
                    let p = ops.len() - 1 - lb;
                    &&& be.opcodes@.len() == 0
                    &&& 0 <= p
                    &&& match pre_body {
                        Some(pb) => unrolled_ops(pb.opcodes@, ops.subrange(0, p)),
                        None => p == 0,
                    }
                    &&& unrolled_ops(body.opcodes@, ops.subrange(p, p + lb))
                    &&& match ops[ops.len() - 1] {
                        IrOpcode::ControlLoop {
                            condition: c2,
                            first_condition: fc2,
                            body: b2,
                            pre_body: pb2,
                            flip_if: f2,
                        } => f2 == flip_if && fc2 is None && unrolled_step(condition, c2)
                            && unrolled_step(body, b2) && unrolled_opt(pre_body, pb2),
                        _ => false,
                    }
                },
                _ => false,
            }
        },
        _ => piece == seq![op],
    }
}

/// A copy of an opcode that holds no steps.
fn copy_flat(op: &IrOpcode) -> (r: IrOpcode)
    requires
        !(op is HqYieldInline || op is ControlIfElse || op is ControlLoop),
    ensures
        r == *op,
{
    match op {
        IrOpcode::DataSetvariableto { var, local_write, first_write } => IrOpcode::DataSetvariableto {
            var: *var,
            local_write: *local_write,
            first_write: *first_write,
        },
        IrOpcode::DataVariable { var, local_read } => IrOpcode::DataVariable {
            var: *var,
            local_read: *local_read,
        },
        IrOpcode::DataTeevariable { var, local_read_write } => IrOpcode::DataTeevariable {
            var: *var,
            local_read_write: *local_read_write,
        },
        IrOpcode::ProceduresArgument { index, arg_var } => IrOpcode::ProceduresArgument {
            index: *index,
            arg_var: *arg_var,
        },
        IrOpcode::OperatorNot => IrOpcode::OperatorNot,
        IrOpcode::HqYield { mode } => IrOpcode::HqYield { mode: *mode },
        IrOpcode::ProceduresCallNonwarp => IrOpcode::ProceduresCallNonwarp,
        IrOpcode::Other { code } => IrOpcode::Other { code: *code },
        _ => {
            assert(false);
            IrOpcode::OperatorNot
        },
    }
}

/// Unrolls the loops of `step`, and of the steps nested in it (see
/// [`unrolled_op`]). Each copy of a step that a loop's replacement holds
/// is unrolled on its own.
pub fn unroll_loops_in_step(step: &Step) -> (r: Step)
    ensures
        unrolled_step(*step, r),
        r.opcodes@.len() == unrolled_step_len(*step),
    decreases step, 1int,
{
    let ghost ops = step.opcodes@;
    let mut out: Vec<IrOpcode> = Vec::new();
    let mut i: usize = 0;
    while i < step.opcodes.len()
        invariant
            i <= ops.len(),
            ops == step.opcodes@,
            unrolled_ops(ops.subrange(0, i as int), out@),
            out@.len() == unrolled_ops_len(ops.subrange(0, i as int)),
        decreases ops.len() - i,
    {
        proof {
            assert(decreases_to!(*step => step.opcodes));
        }
        let ghost before = out@;
        unroll_op(&step.opcodes[i], &mut out);
        proof {
            let sub = ops.subrange(0, i + 1);
            assert(sub.drop_last() =~= ops.subrange(0, i as int));
            assert(sub.last() == ops[i as int]);
            assert(out@.subrange(0, before.len() as int) =~= before);
        }
        i = i + 1;
    }
    proof {
        assert(ops.subrange(0, ops.len() as int) =~= ops);
    }
    Step { opcodes: out }
}

/// Unrolls one opcode (see [`unrolled_op`]), adding what it becomes to `out`.
fn unroll_op(op: &IrOpcode, out: &mut Vec<IrOpcode>)
    ensures
        final(out)@.len() == old(out)@.len() + unrolled_op_len(*op),
        final(out)@.subrange(0, old(out)@.len() as int) == old(out)@,
        unrolled_op(*op, final(out)@.subrange(old(out)@.len() as int, final(out)@.len() as int)),
    decreases op, 0int,
{
    let ghost start = out@;
    match op {
        IrOpcode::HqYieldInline { step } => {
            let s2 = unroll_loops_in_step(step);
            let ghost pushed = IrOpcode::HqYieldInline { step: s2 };
            out.push(IrOpcode::HqYieldInline { step: s2 });
            proof {
                assert(out@.subrange(start.len() as int, out@.len() as int) =~= seq![pushed]);
            }
        },
        IrOpcode::ControlIfElse { branch_if, branch_else } => {
            let i2 = unroll_loops_in_step(branch_if);
            let e2 = unroll_loops_in_step(branch_else);
            let ghost pushed = IrOpcode::ControlIfElse { branch_if: i2, branch_else: e2 };
            out.push(IrOpcode::ControlIfElse { branch_if: i2, branch_else: e2 });
            proof {
                assert(out@.subrange(start.len() as int, out@.len() as int) =~= seq![pushed]);
            }
        },
        IrOpcode::ControlLoop { condition, first_condition, body, pre_body, flip_if } => {
            let first = match first_condition {
                Some(fc) => unroll_loops_in_step(fc),
                None => unroll_loops_in_step(condition),
            };
            let ghost first_ops = first.opcodes@;
            let mut first_ops_v = first.opcodes;
            out.append(&mut first_ops_v);
            if *flip_if {
                out.push(IrOpcode::OperatorNot);
            }
            let mut bi_ops: Vec<IrOpcode> = match pre_body {
                Some(pb) => unroll_loops_in_step(pb).opcodes,
                None => Vec::new(),
            };
            let ghost pre_ops = bi_ops@;
            let body_copy = unroll_loops_in_step(body);
            let ghost body_ops = body_copy.opcodes@;
            let mut body_copy_ops = body_copy.opcodes;
            bi_ops.append(&mut body_copy_ops);
            let c2 = unroll_loops_in_step(condition);
            let b2 = unroll_loops_in_step(body);
            let pb2 = match pre_body {
                Some(pb) => Some(unroll_loops_in_step(pb)),
                None => None,
            };
            let ghost inner = IrOpcode::ControlLoop {
                condition: c2,
                first_condition: None,
                body: b2,
                pre_body: pb2,
                flip_if: *flip_if,
            };
            bi_ops.push(
                IrOpcode::ControlLoop {
                    condition: c2,
                    first_condition: None,
                    body: b2,
                    pre_body: pb2,
                    flip_if: *flip_if,
                },
            );
            let ghost bi = bi_ops@;
            out.push(
                IrOpcode::ControlIfElse {
                    branch_if: Step { opcodes: bi_ops },
                    branch_else: Step { opcodes: Vec::new() },
                },
            );
            proof {
                let piece = out@.subrange(start.len() as int, out@.len() as int);
                let f: int = if *flip_if {
                    1
                } else {
                    0
                };
                let n = piece.len() - 1 - f;
                assert(n == first_ops.len());
                assert(piece.subrange(0, n) =~= first_ops);
                let lb = unrolled_step_len(*body);
                let p = bi.len() - 1 - lb;
                assert(p == pre_ops.len());
                assert(bi.subrange(0, p) =~= pre_ops);
                assert(bi.subrange(p, p + lb) =~= body_ops);
                assert(bi[bi.len() - 1] == inner);
            }
        },
        _ => {
            out.push(copy_flat(op));
            proof {
                assert(out@.subrange(start.len() as int, out@.len() as int) =~= seq![*op]);
            }
        },
    }
    proof {
        assert(out@.subrange(0, start.len() as int) =~= start);
    }
}

/// Each step of `rounds` is the one before it with its loops unrolled.
pub open spec fn unrolling_rounds(rounds: Seq<Step>) -> bool {
    forall|k: int| 0 <= k < rounds.len() - 1 ==> unrolled_step(#[trigger] rounds[k], rounds[k + 1])
}

/// `new` is `old` after `n` rounds of unrolling: a chain of `n` unrollings
/// leads from `old` to `new`.
pub open spec fn unrolled_times(old: Step, new: Step, n: nat) -> bool {
    exists|rounds: Seq<Step>|
        #[trigger] unrolling_rounds(rounds) && rounds.len() == n + 1 && rounds[0] == old && rounds.last()
            == new
}

/// Unrolls the loops of every step of the project, `rounds` times over: each
/// round unrolls the loops that the round before left in place.
pub fn unroll_loops(proj: &mut IrProject, rounds: usize)
    ensures
        final(proj).steps@.len() == old(proj).steps@.len(),
        forall|i: int|
            0 <= i < old(proj).steps@.len() ==> unrolled_times(
                #[trigger] old(proj).steps@[i],
                final(proj).steps@[i],
                rounds as nat,
            ),
{
    let ghost orig = proj.steps@;
    let ghost mut hist: Seq<Seq<Step>> = Seq::new(orig.len(), |i: int| seq![orig[i]]);
    let mut round: usize = 0;
    while round < rounds
        invariant
            round <= rounds,
            proj.steps@.len() == orig.len(),
            hist.len() == orig.len(),
            forall|i: int|
                0 <= i < orig.len() ==> {
                    &&& unrolling_rounds(#[trigger] hist[i])
                    &&& hist[i].len() == round + 1
                    &&& hist[i][0] == orig[i]
                    &&& hist[i].last() == proj.steps@[i]
                },
        decreases rounds - round,
    {
        let ghost at_start = proj.steps@;
        let mut i: usize = 0;
        while i < proj.steps.len()
            invariant
                i <= proj.steps@.len(),
                proj.steps@.len() == orig.len(),
                at_start.len() == orig.len(),
                forall|j: int| 0 <= j < i ==> unrolled_step(#[trigger] at_start[j], proj.steps@[j]),
                forall|j: int| i <= j < orig.len() ==> #[trigger] proj.steps@[j] == at_start[j],
            decreases orig.len() - i,
        {
            let new_step = unroll_loops_in_step(&proj.steps[i]);
            proj.steps.set(i, new_step);
            i = i + 1;
        }
        proof {
            let h0 = hist;
            hist = Seq::new(orig.len(), |j: int| h0[j].push(proj.steps@[j]));
            assert forall|j: int| 0 <= j < orig.len() implies {
                &&& unrolling_rounds(#[trigger] hist[j])
                &&& hist[j].len() == round + 2
                &&& hist[j][0] == orig[j]
                &&& hist[j].last() == proj.steps@[j]
            } by {
                let h = h0[j];
                assert(unrolling_rounds(h));
                assert(h.last() == at_start[j]);
                assert(unrolled_step(at_start[j], proj.steps@[j]));
                assert forall|k: int| 0 <= k < hist[j].len() - 1 implies unrolled_step(
                    #[trigger] hist[j][k],
                    hist[j][k + 1],
                ) by {
                    if k < h.len() - 1 {
                        assert(hist[j][k] == h[k]);
                        assert(hist[j][k + 1] == h[k + 1]);
                    }
                }
            }
        }
        round = round + 1;
    }
    proof {
        assert forall|i: int| 0 <= i < orig.len() implies unrolled_times(
            #[trigger] orig[i],
            proj.steps@[i],
            rounds as nat,
        ) by {
            assert(unrolling_rounds(hist[i]));
        }
    }
}

} // verus!
