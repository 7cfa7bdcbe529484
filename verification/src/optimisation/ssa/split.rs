//! Splitting a step's global variables into locals that are each written
//! once: a write of a global goes to a new local, later reads read the
//! latest local (or the procedure argument that holds the global, before any
//! write), and where paths meet (after an if/else, and around a loop) the
//! locals that they made are joined into one.

use vstd::prelude::*;
use std::collections::BTreeMap;
use crate::ir::{IrOpcode, RcVar, Step, YieldMode};
use crate::optimisation::ssa::var_graph::{
    empty_var, loop_prelude, makes_local, new_empty_var, phi_globals, phi_locals, phi_ops,
    phi_outer, split_opcode, VariableMaps,
};

verus! {

/// The locals by global and the next variable number.
pub type SsaState = (Map<u64, RcVar>, int);

/// The globals of `scope`, each with the new local that stands for it in a
/// loop, numbered from `next`.
pub open spec fn fresh_pairs(scope: Seq<RcVar>, next: int) -> Seq<(RcVar, RcVar)> {
    Seq::new(scope.len(), |i: int| (scope[i], empty_var((next + i) as u64)))
}

/// The map from each global of `pairs` to its local.
pub open spec fn pairs_map(pairs: Seq<(RcVar, RcVar)>) -> Map<u64, RcVar>
    decreases pairs.len(),
{
    if pairs.len() == 0 {
        Map::empty()
    } else {
        pairs_map(pairs.drop_last()).insert(pairs.last().0.id, pairs.last().1)
    }
}

/// The join of the locals of some blocks into the state before them.
pub open spec fn join(
    blocks: Seq<Map<u64, RcVar>>,
    outer: Map<u64, RcVar>,
    write: Map<u64, RcVar>,
    next: int,
    scope: Seq<RcVar>,
) -> SsaState {
    let lower = phi_globals(scope, blocks);
    let (locals, n) = phi_locals(lower, write, next);
    (phi_outer(outer, lower, locals), n)
}

/// The state after splitting the opcodes `ops` from state `(m, n)`, with the
/// procedure's arguments `a` and the globals in scope `scope`.
pub open spec fn ssa_run(
    ops: Seq<IrOpcode>,
    m: Map<u64, RcVar>,
    n: int,
    a: Map<u64, (usize, RcVar)>,
    scope: Seq<RcVar>,
) -> SsaState
    decreases ops,
{
    if ops.len() == 0 {
        (m, n)
    } else {
        let (m1, n1) = ssa_run(ops.drop_last(), m, n, a, scope);
        ssa_op(ops.last(), m1, n1, a, scope)
    }
}

/// The state after splitting one opcode.
pub open spec fn ssa_op(
    op: IrOpcode,
    m: Map<u64, RcVar>,
    n: int,
    a: Map<u64, (usize, RcVar)>,
    scope: Seq<RcVar>,
) -> SsaState
    decreases op,
{
    match op {
        IrOpcode::DataSetvariableto { .. } | IrOpcode::DataTeevariable { .. }
        | IrOpcode::DataVariable { .. } => (
            split_opcode(op, m, a, n as u64).1,
            if makes_local(op) { n + 1 } else { n },
        ),
        IrOpcode::HqYieldInline { step } => ssa_run(step.opcodes@, m, n, a, scope),
        IrOpcode::ControlIfElse { branch_if, branch_else } => {
            let (mi, ni) = ssa_run(branch_if.opcodes@, m, n, a, scope);
            let (me, ne) = ssa_run(branch_else.opcodes@, m, ni, a, scope);
            join(seq![mi, me], m, Map::empty(), ne, scope)
        },
        IrOpcode::ControlLoop { condition, first_condition, body, pre_body, .. } => {
            let pairs = fresh_pairs(scope, n);
            let n0 = n + scope.len();
            let m0 = loop_prelude(pairs, m, a).1;
            let w = pairs_map(pairs);
            match first_condition {
                Some(fc) => {
                    let n1 = ssa_run(fc.opcodes@, m0, n0, a, scope).1;
                    let n2 = match pre_body {
                        Some(pb) => ssa_run(pb.opcodes@, m0, n1, a, scope).1,
                        None => n1,
                    };
                    let (mb, n3) = ssa_run(body.opcodes@, m0, n2, a, scope);
                    let (mc, n4) = ssa_run(condition.opcodes@, mb, n3, a, scope);
                    join(seq![mc], m0, w, n4, scope)
                },
                None => {
                    let (mc, n1) = ssa_run(condition.opcodes@, m0, n0, a, scope);
                    let n2 = match pre_body {
                        Some(pb) => ssa_run(pb.opcodes@, m0, n1, a, scope).1,
                        None => n1,
                    };
                    let (mb, n3) = ssa_run(body.opcodes@, mc, n2, a, scope);
                    join(seq![mb], m0, w, n3, scope)
                },
            }
        },
        _ => (m, n),
    }
}

/// How many opcodes an opcode becomes: a loop is preceded by the writes of
/// its prelude.
pub open spec fn piece_len(op: IrOpcode, scope: Seq<RcVar>) -> int {
    match op {
        IrOpcode::ControlLoop { .. } => 2 * scope.len() as int + 1,
        _ => 1,
    }
}

/// `new` is the split of the opcodes `old` from state `(m, n)`.
pub open spec fn ssa_ops_ok(
    old: Seq<IrOpcode>,
    new: Seq<IrOpcode>,
    m: Map<u64, RcVar>,
    n: int,
    a: Map<u64, (usize, RcVar)>,
    scope: Seq<RcVar>,
) -> bool
    decreases old,
{
    if old.len() == 0 {
        new.len() == 0
    } else {
        let k = new.len() - piece_len(old.last(), scope);
        let (m1, n1) = ssa_run(old.drop_last(), m, n, a, scope);
        &&& 0 <= k
        &&& ssa_ops_ok(old.drop_last(), new.subrange(0, k), m, n, a, scope)
        &&& ssa_piece_ok(old.last(), new.subrange(k, new.len() as int), m1, n1, a, scope)
    }
}

/// `new` is the split of the step `old`, followed by `tail`.
pub open spec fn ssa_step_ok(
    old: Step,
    new: Step,
    tail: Seq<IrOpcode>,
    m: Map<u64, RcVar>,
    n: int,
    a: Map<u64, (usize, RcVar)>,
    scope: Seq<RcVar>,
) -> bool
    decreases old, 0int,
{
    let len = new.opcodes@.len();
    &&& tail.len() <= len
    &&& new.opcodes@.subrange(len - tail.len(), len as int) == tail
    &&& ssa_ops_ok(old.opcodes@, new.opcodes@.subrange(0, len - tail.len()), m, n, a, scope)
}

/// `piece` is what the opcode `op` becomes when split from state `(m, n)`.
pub open spec fn ssa_piece_ok(
    op: IrOpcode,
    piece: Seq<IrOpcode>,
    m: Map<u64, RcVar>,
    n: int,
    a: Map<u64, (usize, RcVar)>,
    scope: Seq<RcVar>,
) -> bool
    decreases op,
{
    match op {
        IrOpcode::DataSetvariableto { .. } | IrOpcode::DataTeevariable { .. }
        | IrOpcode::DataVariable { .. } => piece == seq![split_opcode(op, m, a, n as u64).0],
        IrOpcode::HqYieldInline { step } => piece.len() == 1 && match piece[0] {
            IrOpcode::HqYieldInline { step: s2 } => ssa_step_ok(step, s2, Seq::empty(), m, n, a, scope),
            _ => false,
        },
        IrOpcode::ControlIfElse { branch_if, branch_else } => {
            let (mi, ni) = ssa_run(branch_if.opcodes@, m, n, a, scope);
            let (me, ne) = ssa_run(branch_else.opcodes@, m, ni, a, scope);
            let blocks = seq![mi, me];
            let lower = phi_globals(scope, blocks);
            let locals = phi_locals(lower, Map::empty(), ne).0;
            piece.len() == 1 && match piece[0] {
                IrOpcode::ControlIfElse { branch_if: i2, branch_else: e2 } => {
                    &&& ssa_step_ok(branch_if, i2, branch_tail(branch_if.opcodes@, phi_ops(mi, m, lower, locals, true)), m, n, a, scope)
                    &&& ssa_step_ok(branch_else, e2, branch_tail(branch_else.opcodes@, phi_ops(me, m, lower, locals, true)), m, ni, a, scope)
                },
                _ => false,
            }
        },
        IrOpcode::ControlLoop { condition, first_condition, body, pre_body, flip_if } => {
            let pairs = fresh_pairs(scope, n);
            let n0 = n + scope.len();
            let (prelude, m0) = loop_prelude(pairs, m, a);
            let w = pairs_map(pairs);
            let first = w.is_empty();
            &&& piece.len() == prelude.len() + 1
            &&& piece.subrange(0, prelude.len() as int) == prelude
            &&& match piece[prelude.len() as int] {
                IrOpcode::ControlLoop { condition: c2, first_condition: fc2, body: b2, pre_body: pb2, flip_if: f2 } => {
                    f2 == flip_if &&
                    match first_condition {
                        Some(fc) => {
                            let n1 = ssa_run(fc.opcodes@, m0, n0, a, scope).1;
                            let n2 = match pre_body {
                                Some(pb) => ssa_run(pb.opcodes@, m0, n1, a, scope).1,
                                None => n1,
                            };
                            let (mb, n3) = ssa_run(body.opcodes@, m0, n2, a, scope);
                            let (mc, n4) = ssa_run(condition.opcodes@, mb, n3, a, scope);
                            let lower = phi_globals(scope, seq![mc]);
                            let locals = phi_locals(lower, w, n4).0;
                            &&& (fc2 matches Some(f2) && ssa_step_ok(fc, f2, Seq::empty(), m0, n0, a, scope))
                            &&& match (pre_body, pb2) {
                                (Some(p), Some(p2)) => ssa_step_ok(p, p2, Seq::empty(), m0, n1, a, scope),
                                (None, None) => true,
                                _ => false,
                            }
                            &&& ssa_step_ok(body, b2, Seq::empty(), m0, n2, a, scope)
                            &&& ssa_step_ok(condition, c2, branch_tail(condition.opcodes@, phi_ops(mc, m0, lower, locals, first)), mb, n3, a, scope)
                        },
                        None => {
                            let (mc, n1) = ssa_run(condition.opcodes@, m0, n0, a, scope);
                            let n2 = match pre_body {
                                Some(pb) => ssa_run(pb.opcodes@, m0, n1, a, scope).1,
                                None => n1,
                            };
                            let (mb, n3) = ssa_run(body.opcodes@, mc, n2, a, scope);
                            let lower = phi_globals(scope, seq![mb]);
                            let locals = phi_locals(lower, w, n3).0;
                            &&& fc2 is None
                            &&& ssa_step_ok(condition, c2, Seq::empty(), m0, n0, a, scope)
                            &&& match (pre_body, pb2) {
                                (Some(p), Some(p2)) => ssa_step_ok(p, p2, Seq::empty(), m0, n1, a, scope),
                                (None, None) => true,
                                _ => false,
                            }
                            &&& ssa_step_ok(body, b2, branch_tail(body.opcodes@, phi_ops(mb, m0, lower, locals, first)), mc, n2, a, scope)
                        },
                    }
                },
                _ => false,
            }
        },
        IrOpcode::ProceduresArgument { index, arg_var } => piece == seq![
            IrOpcode::ProceduresArgument { index, arg_var },
        ],
        IrOpcode::OperatorNot => piece == seq![IrOpcode::OperatorNot],
        IrOpcode::HqYield { mode } => piece == seq![IrOpcode::HqYield { mode }],
        IrOpcode::ProceduresCallNonwarp => piece == seq![IrOpcode::ProceduresCallNonwarp],
        IrOpcode::Other { code } => piece == seq![IrOpcode::Other { code }],
    }
}

/// Splitting never takes back variable numbers.
proof fn lemma_op_mono(op: IrOpcode, m: Map<u64, RcVar>, n: int, a: Map<u64, (usize, RcVar)>, scope: Seq<RcVar>)
    ensures
        ssa_op(op, m, n, a, scope).1 >= n,
    decreases op, 1int,
{
    match op {
        IrOpcode::HqYieldInline { step } => {
            lemma_run_mono(step.opcodes@, m, n, a, scope);
        },
        IrOpcode::ControlIfElse { branch_if, branch_else } => {
            let (mi, ni) = ssa_run(branch_if.opcodes@, m, n, a, scope);
            let (me, ne) = ssa_run(branch_else.opcodes@, m, ni, a, scope);
            lemma_run_mono(branch_if.opcodes@, m, n, a, scope);
            lemma_run_mono(branch_else.opcodes@, m, ni, a, scope);
            crate::optimisation::ssa::var_graph::lemma_phi_locals_len(
                phi_globals(scope, seq![mi, me]),
                Map::empty(),
                ne,
            );
        },
        IrOpcode::ControlLoop { condition, first_condition, body, pre_body, .. } => {
            let pairs = fresh_pairs(scope, n);
            let n0 = n + scope.len();
            let m0 = loop_prelude(pairs, m, a).1;
            let w = pairs_map(pairs);
            match first_condition {
                Some(fc) => {
                    lemma_run_mono(fc.opcodes@, m0, n0, a, scope);
                    let n1 = ssa_run(fc.opcodes@, m0, n0, a, scope).1;
                    let n2 = match pre_body {
                        Some(pb) => {
                            lemma_run_mono(pb.opcodes@, m0, n1, a, scope);
                            ssa_run(pb.opcodes@, m0, n1, a, scope).1
                        },
                        None => n1,
                    };
                    lemma_run_mono(body.opcodes@, m0, n2, a, scope);
                    let (mb, n3) = ssa_run(body.opcodes@, m0, n2, a, scope);
                    lemma_run_mono(condition.opcodes@, mb, n3, a, scope);
                    let (mc, n4) = ssa_run(condition.opcodes@, mb, n3, a, scope);
                    crate::optimisation::ssa::var_graph::lemma_phi_locals_len(
                        phi_globals(scope, seq![mc]),
                        w,
                        n4,
                    );
                },
                None => {
                    lemma_run_mono(condition.opcodes@, m0, n0, a, scope);
                    let (mc, n1) = ssa_run(condition.opcodes@, m0, n0, a, scope);
                    let n2 = match pre_body {
                        Some(pb) => {
                            lemma_run_mono(pb.opcodes@, m0, n1, a, scope);
                            ssa_run(pb.opcodes@, m0, n1, a, scope).1
                        },
                        None => n1,
                    };
                    lemma_run_mono(body.opcodes@, mc, n2, a, scope);
                    let (mb, n3) = ssa_run(body.opcodes@, mc, n2, a, scope);
                    crate::optimisation::ssa::var_graph::lemma_phi_locals_len(
                        phi_globals(scope, seq![mb]),
                        w,
                        n3,
                    );
                },
            }
        },
        _ => {},
    }
}

proof fn lemma_run_mono(ops: Seq<IrOpcode>, m: Map<u64, RcVar>, n: int, a: Map<u64, (usize, RcVar)>, scope: Seq<RcVar>)
    ensures
        ssa_run(ops, m, n, a, scope).1 >= n,
    decreases ops, 0int,
{
    if ops.len() > 0 {
        lemma_run_mono(ops.drop_last(), m, n, a, scope);
        let (m1, n1) = ssa_run(ops.drop_last(), m, n, a, scope);
        lemma_op_mono(ops.last(), m1, n1, a, scope);
    }
}

/// The number reached after a prefix of the opcodes is at most the one
/// reached after all of them.
proof fn lemma_run_prefix(ops: Seq<IrOpcode>, k: int, m: Map<u64, RcVar>, n: int, a: Map<u64, (usize, RcVar)>, scope: Seq<RcVar>)
    requires
        0 <= k <= ops.len(),
    ensures
        ssa_run(ops.subrange(0, k), m, n, a, scope).1 <= ssa_run(ops, m, n, a, scope).1,
    decreases ops.len() - k,
{
    if k < ops.len() {
        lemma_run_prefix(ops, k + 1, m, n, a, scope);
        let sub = ops.subrange(0, k + 1);
        assert(sub.drop_last() =~= ops.subrange(0, k));
        let (m1, n1) = ssa_run(ops.subrange(0, k), m, n, a, scope);
        lemma_op_mono(sub.last(), m1, n1, a, scope);
    } else {
        assert(ops.subrange(0, k) =~= ops);
    }
}

proof fn lemma_prelude_len(pairs: Seq<(RcVar, RcVar)>, m: Map<u64, RcVar>, a: Map<u64, (usize, RcVar)>)
    ensures
        loop_prelude(pairs, m, a).0.len() == 2 * pairs.len(),
    decreases pairs.len(),
{
    if pairs.len() > 0 {
        lemma_prelude_len(pairs.drop_last(), m, a);
    }
}

/// The variable numbers that a loop's parts reach stay within the number
/// that the whole loop reaches.
proof fn lemma_loop_bounds(op: IrOpcode, m: Map<u64, RcVar>, n: int, a: Map<u64, (usize, RcVar)>, scope: Seq<RcVar>)
    requires
        op is ControlLoop,
    ensures
        match op {
            IrOpcode::ControlLoop { condition, first_condition, body, pre_body, .. } => {
                let pairs = fresh_pairs(scope, n);
                let n0 = n + scope.len();
                let m0 = loop_prelude(pairs, m, a).1;
                let total = ssa_op(op, m, n, a, scope).1;
                &&& n0 <= total
                &&& match first_condition {
                    Some(fc) => {
                        let n1 = ssa_run(fc.opcodes@, m0, n0, a, scope).1;
                        let n2 = match pre_body {
                            Some(pb) => ssa_run(pb.opcodes@, m0, n1, a, scope).1,
                            None => n1,
                        };
                        let (mb, n3) = ssa_run(body.opcodes@, m0, n2, a, scope);
                        let (mc, n4) = ssa_run(condition.opcodes@, mb, n3, a, scope);
                        n0 <= n1 <= n2 <= n3 <= n4 <= total
                    },
                    None => {
                        let (mc, n1) = ssa_run(condition.opcodes@, m0, n0, a, scope);
                        let n2 = match pre_body {
                            Some(pb) => ssa_run(pb.opcodes@, m0, n1, a, scope).1,
                            None => n1,
                        };
                        let (mb, n3) = ssa_run(body.opcodes@, mc, n2, a, scope);
                        n0 <= n1 <= n2 <= n3 <= total
                    },
                }
            },
            _ => true,
        },
{
    lemma_op_mono(op, m, n, a, scope);
    if let IrOpcode::ControlLoop { condition, first_condition, body, pre_body, .. } = op {
        let pairs = fresh_pairs(scope, n);
        let n0 = n + scope.len();
        let m0 = loop_prelude(pairs, m, a).1;
        let w = pairs_map(pairs);
        match first_condition {
            Some(fc) => {
                lemma_run_mono(fc.opcodes@, m0, n0, a, scope);
                let n1 = ssa_run(fc.opcodes@, m0, n0, a, scope).1;
                let n2 = match pre_body {
                    Some(pb) => {
                        lemma_run_mono(pb.opcodes@, m0, n1, a, scope);
                        ssa_run(pb.opcodes@, m0, n1, a, scope).1
                    },
                    None => n1,
                };
                lemma_run_mono(body.opcodes@, m0, n2, a, scope);
                let (mb, n3) = ssa_run(body.opcodes@, m0, n2, a, scope);
                lemma_run_mono(condition.opcodes@, mb, n3, a, scope);
                let (mc, n4) = ssa_run(condition.opcodes@, mb, n3, a, scope);
                crate::optimisation::ssa::var_graph::lemma_phi_locals_len(
                    phi_globals(scope, seq![mc]),
                    w,
                    n4,
                );
            },
            None => {
                lemma_run_mono(condition.opcodes@, m0, n0, a, scope);
                let (mc, n1) = ssa_run(condition.opcodes@, m0, n0, a, scope);
                let n2 = match pre_body {
                    Some(pb) => {
                        lemma_run_mono(pb.opcodes@, m0, n1, a, scope);
                        ssa_run(pb.opcodes@, m0, n1, a, scope).1
                    },
                    None => n1,
                };
                lemma_run_mono(body.opcodes@, mc, n2, a, scope);
                let (mb, n3) = ssa_run(body.opcodes@, mc, n2, a, scope);
                crate::optimisation::ssa::var_graph::lemma_phi_locals_len(
                    phi_globals(scope, seq![mb]),
                    w,
                    n3,
                );
            },
        }
    }
}

/// The globals in scope, each with a new local numbered from `*next_id`, as
/// a sequence and as a map.
fn fresh_locals(scope: &Vec<RcVar>, next_id: &mut u64) -> (r: (Vec<(RcVar, RcVar)>, BTreeMap<u64, RcVar>))
    requires
        *old(next_id) + scope@.len() <= u64::MAX,
    ensures
        r.0@ == fresh_pairs(scope@, *old(next_id) as int),
        r.1@ == pairs_map(fresh_pairs(scope@, *old(next_id) as int)),
        *final(next_id) == *old(next_id) + scope@.len(),
{
    let ghost n = *next_id as int;
    let mut pairs: Vec<(RcVar, RcVar)> = Vec::new();
    let mut w: BTreeMap<u64, RcVar> = BTreeMap::new();
    let mut i: usize = 0;
    while i < scope.len()
        invariant
            i <= scope@.len(),
            n + scope@.len() <= u64::MAX,
            *next_id == n + i,
            pairs@ == fresh_pairs(scope@, n).subrange(0, i as int),
            w@ == pairs_map(fresh_pairs(scope@, n).subrange(0, i as int)),
        decreases scope@.len() - i,
    {
        let local = new_empty_var(next_id);
        let g = scope[i];
        pairs.push((g, local));
        w.insert(g.id, local);
        proof {
            let all = fresh_pairs(scope@, n);
            assert(all.subrange(0, i + 1).drop_last() =~= all.subrange(0, i as int));
            assert(all.subrange(0, i + 1).last() == (g, local));
            assert(pairs@ =~= all.subrange(0, i + 1));
        }
        i = i + 1;
    }
    proof {
        assert(fresh_pairs(scope@, n).subrange(0, scope@.len() as int) =~= fresh_pairs(scope@, n));
    }
    (pairs, w)
}

/// The opcodes end by returning from the procedure.
pub open spec fn ends_in_return(ops: Seq<IrOpcode>) -> bool {
    ops.len() > 0 && ops.last() == IrOpcode::HqYield { mode: YieldMode::Return }
}

/// The join opcodes that end a block: none when the block ends by returning
/// from the procedure, since nothing after it runs.
pub open spec fn branch_tail(block: Seq<IrOpcode>, phis: Seq<IrOpcode>) -> Seq<IrOpcode> {
    if ends_in_return(block) {
        Seq::empty()
    } else {
        phis
    }
}

/// `phis`, or nothing when `block` ends by returning from the procedure.
fn keep_unless_returns(block: &Step, phis: Vec<IrOpcode>) -> (r: Vec<IrOpcode>)
    ensures
        r@ == branch_tail(block.opcodes@, phis@),
{
    let n = block.opcodes.len();
    let ends_by_return = n > 0 && match &block.opcodes[n - 1] {
        IrOpcode::HqYield { mode: YieldMode::Return } => true,
        _ => false,
    };
    if ends_by_return {
        Vec::new()
    } else {
        phis
    }
}

/// A copy of an opcode that holds no steps.
fn copy_flat(op: &IrOpcode) -> (r: IrOpcode)
    requires
        !(op is HqYieldInline || op is ControlIfElse || op is ControlLoop),
    ensures
        r == *op,
{
    match op {
        IrOpcode::DataSetvariableto { var, local_write, first_write } => IrOpcode::DataSetvariableto {
            var: *var,
            local_write: *local_write,
            first_write: *first_write,
        },
        IrOpcode::DataVariable { var, local_read } => IrOpcode::DataVariable {
            var: *var,
            local_read: *local_read,
        },
        IrOpcode::DataTeevariable { var, local_read_write } => IrOpcode::DataTeevariable {
            var: *var,
            local_read_write: *local_read_write,
        },
        IrOpcode::ProceduresArgument { index, arg_var } => IrOpcode::ProceduresArgument {
            index: *index,
            arg_var: *arg_var,
        },
        IrOpcode::OperatorNot => IrOpcode::OperatorNot,
        IrOpcode::HqYield { mode } => IrOpcode::HqYield { mode: *mode },
        IrOpcode::ProceduresCallNonwarp => IrOpcode::ProceduresCallNonwarp,
        IrOpcode::Other { code } => IrOpcode::Other { code: *code },
        _ => {
            assert(false);
            IrOpcode::Other { code: 0 }
        },
    }
}

/// The locals of `maps`, copied for a block that starts from them.
fn branch_maps<'a>(maps: &VariableMaps<'a>) -> (r: VariableMaps<'a>)
    ensures
        r.ssa@ == maps.ssa@,
        r.proc_args == maps.proc_args,
{
    VariableMaps { ssa: maps.ssa.clone(), proc_args: maps.proc_args }
}

/// Splits the opcodes of `step` (see [`ssa_run`] and [`ssa_ops_ok`]),
/// with the globals in scope `scope`, in ascending order of identity.
pub fn split_step(
    maps: &mut VariableMaps,
    step: &Step,
    next_id: &mut u64,
    scope: &Vec<RcVar>,
) -> (r: Vec<IrOpcode>)
    requires
        ssa_run(step.opcodes@, old(maps).ssa@, *old(next_id) as int, old(maps).proc_args@, scope@).1
            <= u64::MAX,
    ensures
        ssa_ops_ok(step.opcodes@, r@, old(maps).ssa@, *old(next_id) as int, old(maps).proc_args@, scope@),
        (final(maps).ssa@, *final(next_id) as int) == ssa_run(
            step.opcodes@,
            old(maps).ssa@,
            *old(next_id) as int,
            old(maps).proc_args@,
            scope@,
        ),
        final(maps).proc_args == old(maps).proc_args,
    decreases step, 1int,
{
    let ghost m0 = maps.ssa@;
    let ghost n0 = *next_id as int;
    let ghost a = maps.proc_args@;
    let ghost ops = step.opcodes@;
    let mut out: Vec<IrOpcode> = Vec::new();
    let mut i: usize = 0;
    while i < step.opcodes.len()
        invariant
            i <= ops.len(),
            ops == step.opcodes@,
            maps.proc_args@ == a,
            maps.proc_args == old(maps).proc_args,
            ssa_run(ops, m0, n0, a, scope@).1 <= u64::MAX,
            (maps.ssa@, *next_id as int) == ssa_run(ops.subrange(0, i as int), m0, n0, a, scope@),
            ssa_ops_ok(ops.subrange(0, i as int), out@, m0, n0, a, scope@),
        decreases ops.len() - i,
    {
        proof {
            assert(decreases_to!(*step => step.opcodes));
            lemma_run_prefix(ops, i + 1, m0, n0, a, scope@);
            let sub = ops.subrange(0, i + 1);
            assert(sub.drop_last() =~= ops.subrange(0, i as int));
            assert(sub.last() == ops[i as int]);
        }
        let ghost before = out@;
        split_op(maps, &step.opcodes[i], next_id, scope, &mut out);
        proof {
            let sub = ops.subrange(0, i + 1);
            let k = out@.len() - piece_len(sub.last(), scope@);
            assert(out@.subrange(0, k) =~= before);
        }
        i = i + 1;
    }
    proof {
        assert(ops.subrange(0, ops.len() as int) =~= ops);
    }
    out
}

/// Splits one opcode (see [`ssa_op`] and [`ssa_piece_ok`]), adding what it
/// becomes to `out`.
fn split_op(
    maps: &mut VariableMaps,
    op: &IrOpcode,
    next_id: &mut u64,
    scope: &Vec<RcVar>,
    out: &mut Vec<IrOpcode>,
)
    requires
        ssa_op(*op, old(maps).ssa@, *old(next_id) as int, old(maps).proc_args@, scope@).1 <= u64::MAX,
    ensures
        final(out)@.len() == old(out)@.len() + piece_len(*op, scope@),
        final(out)@.subrange(0, old(out)@.len() as int) == old(out)@,
        ssa_piece_ok(
            *op,
            final(out)@.subrange(old(out)@.len() as int, final(out)@.len() as int),
            old(maps).ssa@,
            *old(next_id) as int,
            old(maps).proc_args@,
            scope@,
        ),
        (final(maps).ssa@, *final(next_id) as int) == ssa_op(
            *op,
            old(maps).ssa@,
            *old(next_id) as int,
            old(maps).proc_args@,
            scope@,
        ),
        final(maps).proc_args == old(maps).proc_args,
    decreases op, 0int,
{
    let ghost m = maps.ssa@;
    let ghost n = *next_id as int;
    let ghost a = maps.proc_args@;
    let ghost before = out@;
    match op {
        IrOpcode::HqYieldInline { step } => {
            let opcodes = split_step(maps, step, next_id, scope);
            out.push(IrOpcode::HqYieldInline { step: Step { opcodes } });
            proof {
                assert(out@.subrange(0, before.len() as int) =~= before);
                let piece = out@.subrange(before.len() as int, out@.len() as int);
                assert(piece[0] == out@[before.len() as int]);
                assert(opcodes@.subrange(0, opcodes@.len() as int) =~= opcodes@);
                assert(opcodes@.subrange(opcodes@.len() as int, opcodes@.len() as int) =~= Seq::<IrOpcode>::empty());
            }
        },
        IrOpcode::ControlIfElse { branch_if, branch_else } => {
            proof {
                lemma_run_mono(branch_else.opcodes@, m, ssa_run(branch_if.opcodes@, m, n, a, scope@).1, a, scope@);
                let (mi, ni) = ssa_run(branch_if.opcodes@, m, n, a, scope@);
                let (me, ne) = ssa_run(branch_else.opcodes@, m, ni, a, scope@);
                crate::optimisation::ssa::var_graph::lemma_phi_locals_len(
                    phi_globals(scope@, seq![mi, me]),
                    Map::empty(),
                    ne,
                );
                assert(ssa_op(*op, m, n, a, scope@) == join(seq![mi, me], m, Map::empty(), ne, scope@));
            }
            let mut if_maps = branch_maps(maps);
            let mut if_ops = split_step(&mut if_maps, branch_if, next_id, scope);
            let mut else_maps = branch_maps(maps);
            let mut else_ops = split_step(&mut else_maps, branch_else, next_id, scope);
            let ghost mi = if_maps.ssa@;
            let ghost me = else_maps.ssa@;
            let ghost ne = *next_id as int;
            let blocks = vec![if_maps.ssa, else_maps.ssa];
            proof {
                assert(Seq::new(blocks@.len(), |b: int| blocks@[b]@) =~= seq![mi, me]);
            }
            let mut phis = maps.ssa_phi(&blocks, scope, &BTreeMap::new(), next_id);
            let ghost if_split = if_ops@;
            let ghost else_split = else_ops@;
            let mut p_else = keep_unless_returns(branch_else, phis.pop().unwrap());
            let mut p_if = keep_unless_returns(branch_if, phis.pop().unwrap());
            let ghost p0 = p_if@;
            let ghost p1 = p_else@;
            if_ops.append(&mut p_if);
            else_ops.append(&mut p_else);
            out.push(IrOpcode::ControlIfElse {
                branch_if: Step { opcodes: if_ops },
                branch_else: Step { opcodes: else_ops },
            });
            proof {
                assert(out@.subrange(0, before.len() as int) =~= before);
                let piece = out@.subrange(before.len() as int, out@.len() as int);
                assert(piece[0] == out@[before.len() as int]);
                assert(Map::<u64, RcVar>::empty().is_empty());
                assert(if_ops@.subrange(if_ops@.len() - p0.len(), if_ops@.len() as int) =~= p0);
                assert(if_ops@.subrange(0, if_ops@.len() - p0.len()) =~= if_split);
                assert(else_ops@.subrange(else_ops@.len() - p1.len(), else_ops@.len() as int) =~= p1);
                assert(else_ops@.subrange(0, else_ops@.len() - p1.len()) =~= else_split);
            }
        },
        IrOpcode::ControlLoop { condition, first_condition, body, pre_body, flip_if } => {
            let ghost pairs_s = fresh_pairs(scope@, n);
            let ghost n0 = n + scope@.len();
            let ghost m0 = loop_prelude(pairs_s, m, a).1;
            let ghost w_s = pairs_map(pairs_s);
            proof {
                lemma_loop_bounds(*op, m, n, a, scope@);
                lemma_prelude_len(pairs_s, m, a);
            }
            let (pairs, w) = fresh_locals(scope, next_id);
            let mut prelude = maps.make_loop_prelude(&pairs);
            let ghost pre = prelude@;
            out.append(&mut prelude);
            let ghost after_pre = out@;
            match first_condition {
                Some(fc) => {
                    let mut fc_maps = branch_maps(maps);
                    let fc_ops = split_step(&mut fc_maps, fc, next_id, scope);
                    let ghost n1 = *next_id as int;
                    let pb2 = match pre_body {
                        Some(pb) => {
                            let mut pb_maps = branch_maps(maps);
                            let pb_ops = split_step(&mut pb_maps, pb, next_id, scope);
                            Some(Step { opcodes: pb_ops })
                        },
                        None => None,
                    };
                    let ghost pb2v = pb2;
                    let ghost n2 = *next_id as int;
                    let mut body_maps = branch_maps(maps);
                    let body_ops = split_step(&mut body_maps, body, next_id, scope);
                    let ghost mb = body_maps.ssa@;
                    let ghost n3 = *next_id as int;
                    let mut cond_ops = split_step(&mut body_maps, condition, next_id, scope);
                    let ghost mc = body_maps.ssa@;
                    let ghost n4 = *next_id as int;
                    let ghost cond_split = cond_ops@;
                    let blocks = vec![body_maps.ssa];
                    proof {
                        assert(Seq::new(blocks@.len(), |b: int| blocks@[b]@) =~= seq![mc]);
                    }
                    let mut phis = maps.ssa_phi(&blocks, scope, &w, next_id);
                    let mut p = keep_unless_returns(condition, phis.pop().unwrap());
                    let ghost p0 = p@;
                    cond_ops.append(&mut p);
                    out.push(IrOpcode::ControlLoop {
                        condition: Step { opcodes: cond_ops },
                        first_condition: Some(Step { opcodes: fc_ops }),
                        body: Step { opcodes: body_ops },
                        pre_body: pb2,
                        flip_if: *flip_if,
                    });
                    proof {
                        assert(cond_ops@.subrange(cond_ops@.len() - p0.len(), cond_ops@.len() as int) =~= p0);
                        assert(cond_ops@.subrange(0, cond_ops@.len() - p0.len()) =~= cond_split);
                        assert(fc_ops@.subrange(0, fc_ops@.len() as int) =~= fc_ops@);
                        assert(fc_ops@.subrange(fc_ops@.len() as int, fc_ops@.len() as int) =~= Seq::<IrOpcode>::empty());
                        assert(body_ops@.subrange(0, body_ops@.len() as int) =~= body_ops@);
                        assert(body_ops@.subrange(body_ops@.len() as int, body_ops@.len() as int) =~= Seq::<IrOpcode>::empty());
                        if let Some(s2) = pb2v {
                            assert(s2.opcodes@.subrange(0, s2.opcodes@.len() as int) =~= s2.opcodes@);
                            assert(s2.opcodes@.subrange(s2.opcodes@.len() as int, s2.opcodes@.len() as int) =~= Seq::<IrOpcode>::empty());
                        }
                    }
                },
                None => {
                    let mut body_maps = branch_maps(maps);
                    let cond_ops = split_step(&mut body_maps, condition, next_id, scope);
                    let ghost mc = body_maps.ssa@;
                    let ghost n1 = *next_id as int;
                    let pb2 = match pre_body {
                        Some(pb) => {
                            let mut pb_maps = branch_maps(maps);
                            let pb_ops = split_step(&mut pb_maps, pb, next_id, scope);
                            Some(Step { opcodes: pb_ops })
                        },
                        None => None,
                    };
                    let ghost pb2v = pb2;
                    let ghost n2 = *next_id as int;
                    let mut body_ops = split_step(&mut body_maps, body, next_id, scope);
                    let ghost mb = body_maps.ssa@;
                    let ghost body_split = body_ops@;
                    let blocks = vec![body_maps.ssa];
                    proof {
                        assert(Seq::new(blocks@.len(), |b: int| blocks@[b]@) =~= seq![mb]);
                    }
                    let mut phis = maps.ssa_phi(&blocks, scope, &w, next_id);
                    let mut p = keep_unless_returns(body, phis.pop().unwrap());
                    let ghost p0 = p@;
                    body_ops.append(&mut p);
                    out.push(IrOpcode::ControlLoop {
                        condition: Step { opcodes: cond_ops },
                        first_condition: None,
                        body: Step { opcodes: body_ops },
                        pre_body: pb2,
                        flip_if: *flip_if,
                    });
                    proof {
                        assert(body_ops@.subrange(body_ops@.len() - p0.len(), body_ops@.len() as int) =~= p0);
                        assert(body_ops@.subrange(0, body_ops@.len() - p0.len()) =~= body_split);
                        assert(cond_ops@.subrange(0, cond_ops@.len() as int) =~= cond_ops@);
                        assert(cond_ops@.subrange(cond_ops@.len() as int, cond_ops@.len() as int) =~= Seq::<IrOpcode>::empty());
                        if let Some(s2) = pb2v {
                            assert(s2.opcodes@.subrange(0, s2.opcodes@.len() as int) =~= s2.opcodes@);
                            assert(s2.opcodes@.subrange(s2.opcodes@.len() as int, s2.opcodes@.len() as int) =~= Seq::<IrOpcode>::empty());
                        }
                    }
                },
            }
            proof {
                assert(out@.subrange(0, before.len() as int) =~= before);
                let piece = out@.subrange(before.len() as int, out@.len() as int);
                assert(piece.subrange(0, pre.len() as int) =~= pre);
                assert(piece[pre.len() as int] == out@[out@.len() - 1]);
            }
        },
        _ => {
            let flat = copy_flat(op);
            match flat {
                IrOpcode::DataSetvariableto { .. } | IrOpcode::DataTeevariable { .. }
                | IrOpcode::DataVariable { .. } => {
                    let r = maps.split_opcode(flat, next_id);
                    out.push(r);
                },
                _ => {
                    out.push(flat);
                },
            }
            proof {
                assert(out@.subrange(0, before.len() as int) =~= before);
                assert(out@.subrange(before.len() as int, out@.len() as int) =~= seq![out@[before.len() as int]]);
            }
        },
    }
}

/// Splits a step's variables (see [`ssa_step_ok`]): a write of a global goes
/// to a new local numbered from `*next_id`, a read reads the global's latest
/// local, and the locals made in branches and loops are joined where the
/// paths meet (a block that ends by returning from the procedure gets no
/// joining writes). `scope` holds the globals that the step can reach, in
/// ascending order of identity. `*next_id` must lie above the numbers of the
/// globals in scope and of the locals that the step already writes, so that
/// each new local is a variable that did not exist before: it is numbered
/// from `*next_id` and has one write, where it is made (see
/// [`law_split_makes_fresh_locals`]).
pub fn ssa_visit_step(
    step: &mut Step,
    maps: &mut VariableMaps,
    next_id: &mut u64,
    scope: &Vec<RcVar>,
)
    requires
        ssa_run(old(step).opcodes@, old(maps).ssa@, *old(next_id) as int, old(maps).proc_args@, scope@).1
            <= u64::MAX,
        local_writes_below(old(step).opcodes@, *old(next_id) as int),
        forall|j: int| 0 <= j < scope@.len() ==> #[trigger] scope@[j].id < *old(next_id),
    ensures
        ssa_step_ok(
            *old(step),
            *final(step),
            Seq::empty(),
            old(maps).ssa@,
            *old(next_id) as int,
            old(maps).proc_args@,
            scope@,
        ),
        (final(maps).ssa@, *final(next_id) as int) == ssa_run(
            old(step).opcodes@,
            old(maps).ssa@,
            *old(next_id) as int,
            old(maps).proc_args@,
            scope@,
        ),
        final(maps).proc_args == old(maps).proc_args,
        new_writes_distinct(final(step).opcodes@, *old(next_id) as int, *final(next_id) as int),
        forall|i: int, j: int|
            0 <= i < final(step).opcodes@.len() && 0 <= j < scope@.len() && #[trigger] writes_from(
                final(step).opcodes@[i],
                *old(next_id) as int,
            ) ==> written_id(final(step).opcodes@[i]) != #[trigger] scope@[j].id,
{
    let ghost old_ops = step.opcodes@;
    let ghost m = maps.ssa@;
    let ghost a = maps.proc_args@;
    let ghost n = *next_id as int;
    let opcodes = split_step(maps, step, next_id, scope);
    let ghost ops = opcodes@;
    *step = Step { opcodes };
    proof {
        assert(ops.subrange(0, ops.len() as int) =~= ops);
        assert(ops.subrange(ops.len() as int, ops.len() as int) =~= Seq::<IrOpcode>::empty());
        law_split_makes_fresh_locals(old_ops, ops, m, n, a, scope@);
    }
}

/// The opcodes that write the latest locals back to their globals, for the
/// globals of `scope` that have one, in order.
pub open spec fn propagate_ops(scope: Seq<RcVar>, ssa: Map<u64, RcVar>) -> Seq<IrOpcode>
    decreases scope.len(),
{
    if scope.len() == 0 {
        Seq::empty()
    } else {
        let g = scope.last();
        let before = propagate_ops(scope.drop_last(), ssa);
        if ssa.contains_key(g.id) {
            before + seq![
                IrOpcode::DataVariable { var: ssa[g.id], local_read: true },
                IrOpcode::DataSetvariableto { var: g, local_write: false, first_write: false },
            ]
        } else {
            before
        }
    }
}

/// The opcodes end in one after which nothing of the step runs: a yield
/// (one that runs a step in place too) or a call of a procedure that is not
/// warped.
pub open spec fn ends_in_yield(ops: Seq<IrOpcode>) -> bool {
    ops.len() > 0 && (ops.last() is HqYield || ops.last() is HqYieldInline
        || ops.last() is ProceduresCallNonwarp)
}

/// Writes the latest local of each global of `scope` back to the global at
/// the end of `step` (see [`propagate_ops`]), for a step after which other
/// steps read the globals: before the step's last opcode when that one
/// yields or calls a procedure that is not warped, so that the writes come
/// before control leaves the step.
pub fn propagate_ssa(maps: &VariableMaps, step: &mut Step, scope: &Vec<RcVar>)
    ensures
        final(step).opcodes@ == if ends_in_yield(old(step).opcodes@) {
            old(step).opcodes@.drop_last() + propagate_ops(scope@, maps.ssa@) + seq![
                old(step).opcodes@.last(),
            ]
        } else {
            old(step).opcodes@ + propagate_ops(scope@, maps.ssa@)
        },
{
    let ghost at_entry = step.opcodes@;
    let n = step.opcodes.len();
    let post_yield = n > 0 && match &step.opcodes[n - 1] {
        IrOpcode::HqYield { .. } | IrOpcode::HqYieldInline { .. } | IrOpcode::ProceduresCallNonwarp => true,
        _ => false,
    };
    let last_op = if post_yield {
        step.opcodes.pop()
    } else {
        None
    };
    proof {
        if post_yield {
            assert(step.opcodes@ =~= at_entry.drop_last());
        }
    }
    let mut i: usize = 0;
    let ghost start = step.opcodes@;
    while i < scope.len()
        invariant
            i <= scope@.len(),
            step.opcodes@ == start + propagate_ops(scope@.subrange(0, i as int), maps.ssa@),
        decreases scope@.len() - i,
    {
        let g = scope[i];
        proof {
            assert(scope@.subrange(0, i + 1).drop_last() =~= scope@.subrange(0, i as int));
            assert(scope@.subrange(0, i + 1).last() == g);
        }
        match maps.ssa.get(&g.id) {
            Some(local) => {
                let ghost before = step.opcodes@;
                step.opcodes.push(IrOpcode::DataVariable { var: *local, local_read: true });
                step.opcodes.push(IrOpcode::DataSetvariableto { var: g, local_write: false, first_write: false });
                proof {
                    assert(step.opcodes@ =~= before + seq![
                        IrOpcode::DataVariable { var: *local, local_read: true },
                        IrOpcode::DataSetvariableto { var: g, local_write: false, first_write: false },
                    ]);
                }
            },
            None => {},
        }
        i = i + 1;
    }
    proof {
        assert(scope@.subrange(0, scope@.len() as int) =~= scope@);
    }
    match last_op {
        Some(op) => {
            let ghost before = step.opcodes@;
            step.opcodes.push(op);
            proof {
                assert(step.opcodes@ =~= before + seq![at_entry.last()]);
            }
        },
        None => {},
    }
}

/// The opcode writes a global (not a local of the step).
pub open spec fn writes_global(op: IrOpcode) -> bool {
    makes_local(op)
}

proof fn lemma_prelude_writes_local(pairs: Seq<(RcVar, RcVar)>, m: Map<u64, RcVar>, a: Map<u64, (usize, RcVar)>)
    ensures
        forall|i: int|
            0 <= i < loop_prelude(pairs, m, a).0.len() ==> !writes_global(
                #[trigger] loop_prelude(pairs, m, a).0[i],
            ),
    decreases pairs.len(),
{
    if pairs.len() > 0 {
        lemma_prelude_writes_local(pairs.drop_last(), m, a);
        let before = loop_prelude(pairs.drop_last(), m, a).0;
        let all = loop_prelude(pairs, m, a).0;
        assert forall|i: int| 0 <= i < all.len() implies !writes_global(#[trigger] all[i]) by {
            if i < before.len() {
                assert(all[i] == before[i]);
            }
        }
    }
}

/// After the split, no opcode of the step writes a global: every write goes
/// to a local.
pub proof fn law_split_writes_only_locals(
    old: Seq<IrOpcode>,
    new: Seq<IrOpcode>,
    m: Map<u64, RcVar>,
    n: int,
    a: Map<u64, (usize, RcVar)>,
    scope: Seq<RcVar>,
)
    requires
        ssa_ops_ok(old, new, m, n, a, scope),
    ensures
        forall|i: int| 0 <= i < new.len() ==> !writes_global(#[trigger] new[i]),
    decreases old.len(),
{
    if old.len() > 0 {
        let op = old.last();
        let k = new.len() - piece_len(op, scope);
        let (m1, n1) = ssa_run(old.drop_last(), m, n, a, scope);
        law_split_writes_only_locals(old.drop_last(), new.subrange(0, k), m, n, a, scope);
        let piece = new.subrange(k, new.len() as int);
        assert(ssa_piece_ok(op, piece, m1, n1, a, scope));
        if let IrOpcode::ControlLoop { .. } = op {
            let pairs = fresh_pairs(scope, n1);
            lemma_prelude_writes_local(pairs, m1, a);
            let pre = loop_prelude(pairs, m1, a).0;
            assert forall|j: int| 0 <= j < pre.len() implies !writes_global(#[trigger] piece[j]) by {
                assert(piece.subrange(0, pre.len() as int)[j] == piece[j]);
            }
        }
        assert forall|i: int| 0 <= i < new.len() implies !writes_global(#[trigger] new[i]) by {
            if i < k {
                assert(new.subrange(0, k)[i] == new[i]);
            } else {
                assert(piece[i - k] == new[i]);
            }
        }
    } else {
    }
}

/// The variable that an opcode writes, if it writes one.
pub open spec fn write_var(op: IrOpcode) -> Option<RcVar> {
    match op {
        IrOpcode::DataSetvariableto { var, .. } => Some(var),
        IrOpcode::DataTeevariable { var, .. } => Some(var),
        _ => None,
    }
}

/// The opcode writes a variable numbered from `n`.
pub open spec fn writes_from(op: IrOpcode, n: int) -> bool {
    write_var(op) is Some && write_var(op)->0.id >= n
}

/// The number of the variable that an opcode writes.
pub open spec fn written_id(op: IrOpcode) -> int {
    write_var(op)->0.id as int
}

/// Every write to a local among `ops` writes a variable numbered below
/// `n`.
pub open spec fn local_writes_below(ops: Seq<IrOpcode>, n: int) -> bool {
    forall|i: int|
        0 <= i < ops.len() && !writes_global(#[trigger] ops[i]) && write_var(ops[i]) is Some
            ==> written_id(ops[i]) < n
}

/// The writes among `ops` to variables numbered from `n` write variables
/// numbered below `top`, each a different one.
pub open spec fn new_writes_distinct(ops: Seq<IrOpcode>, n: int, top: int) -> bool {
    &&& forall|i: int| 0 <= i < ops.len() && #[trigger] writes_from(ops[i], n) ==> written_id(ops[i]) < top
    &&& forall|i: int, j: int|
        0 <= i < j < ops.len() && #[trigger] writes_from(ops[i], n) && #[trigger] writes_from(ops[j], n)
            ==> written_id(ops[i]) != written_id(ops[j])
}

proof fn lemma_prelude_writes(pairs: Seq<(RcVar, RcVar)>, m: Map<u64, RcVar>, a: Map<u64, (usize, RcVar)>)
    ensures
        forall|i: int|
            0 <= i < loop_prelude(pairs, m, a).0.len() ==> (#[trigger] write_var(
                loop_prelude(pairs, m, a).0[i],
            )) == if i % 2 == 1 {
                Some(pairs[i / 2].1)
            } else {
                None::<RcVar>
            },
    decreases pairs.len(),
{
    lemma_prelude_len(pairs, m, a);
    if pairs.len() > 0 {
        lemma_prelude_writes(pairs.drop_last(), m, a);
        lemma_prelude_len(pairs.drop_last(), m, a);
        let before = loop_prelude(pairs.drop_last(), m, a).0;
        let all = loop_prelude(pairs, m, a).0;
        assert forall|i: int| 0 <= i < all.len() implies (#[trigger] write_var(all[i])) == if i % 2
            == 1 {
            Some(pairs[i / 2].1)
        } else {
            None::<RcVar>
        } by {
            if i < before.len() {
                assert(all[i] == before[i]);
                assert(pairs.drop_last()[i / 2] == pairs[i / 2]);
            }
        }
    }
}

/// Each global that the split writes gets a new local: the writes to
/// variables numbered from `n` (the next number when the split starts) write
/// variables numbered below the next number when it ends, each a different
/// one; so each new local has one write where it is made. This holds when
/// the step's writes to locals all write variables numbered below `n`.
pub proof fn law_split_makes_fresh_locals(
    old: Seq<IrOpcode>,
    new: Seq<IrOpcode>,
    m: Map<u64, RcVar>,
    n: int,
    a: Map<u64, (usize, RcVar)>,
    scope: Seq<RcVar>,
)
    requires
        ssa_ops_ok(old, new, m, n, a, scope),
        local_writes_below(old, n),
        0 <= n,
        ssa_run(old, m, n, a, scope).1 <= u64::MAX,
    ensures
        new_writes_distinct(new, n, ssa_run(old, m, n, a, scope).1),
    decreases old.len(),
{
    if old.len() > 0 {
        let op = old.last();
        let k = new.len() - piece_len(op, scope);
        let prefix = old.drop_last();
        let (m1, n1) = ssa_run(prefix, m, n, a, scope);
        let top = ssa_run(old, m, n, a, scope).1;
        lemma_op_mono(op, m1, n1, a, scope);
        lemma_run_mono(prefix, m, n, a, scope);
        assert(local_writes_below(prefix, n)) by {
            assert forall|i: int| 0 <= i < prefix.len() && !writes_global(#[trigger] prefix[i])
                && write_var(prefix[i]) is Some implies written_id(prefix[i]) < n by {
                assert(prefix[i] == old[i]);
            }
        }
        let head = new.subrange(0, k);
        let piece = new.subrange(k, new.len() as int);
        law_split_makes_fresh_locals(prefix, head, m, n, a, scope);
        assert(ssa_piece_ok(op, piece, m1, n1, a, scope));
        assert(!writes_global(op) && write_var(op) is Some ==> written_id(op) < n) by {
            assert(old[old.len() - 1] == op);
        }
        assert forall|i: int| 0 <= i < piece.len() && #[trigger] writes_from(piece[i], n) implies n1
            <= written_id(piece[i]) < top && forall|j: int|
            0 <= j < piece.len() && j != i && #[trigger] writes_from(piece[j], n) ==> written_id(
                piece[i],
            ) != written_id(piece[j]) by {
            if let IrOpcode::ControlLoop { .. } = op {
                let pairs = fresh_pairs(scope, n1);
                lemma_prelude_writes(pairs, m1, a);
                lemma_prelude_len(pairs, m1, a);
                lemma_loop_bounds(op, m1, n1, a, scope);
                let pre = loop_prelude(pairs, m1, a).0;
                assert(piece.subrange(0, pre.len() as int)[i] == piece[i] || i >= pre.len());
                if i < pre.len() {
                    assert(piece.subrange(0, pre.len() as int)[i] == piece[i]);
                    assert forall|j: int| 0 <= j < piece.len() && j != i && #[trigger] writes_from(
                        piece[j],
                        n,
                    ) implies written_id(piece[i]) != written_id(piece[j]) by {
                        if j < pre.len() {
                            assert(piece.subrange(0, pre.len() as int)[j] == piece[j]);
                        }
                    }
                }
            } else {
                assert(piece.len() == 1);
                assert(makes_local(op));
            }
        }
        assert forall|i: int| 0 <= i < new.len() && #[trigger] writes_from(new[i], n) implies written_id(
            new[i],
        ) < top by {
            if i < k {
                assert(head[i] == new[i]);
            } else {
                assert(piece[i - k] == new[i]);
            }
        }
        assert forall|i: int, j: int|
            0 <= i < j < new.len() && #[trigger] writes_from(new[i], n) && #[trigger] writes_from(new[j], n)
                implies written_id(new[i]) != written_id(new[j]) by {
            if j < k {
                assert(head[i] == new[i]);
                assert(head[j] == new[j]);
            } else if i < k {
                assert(head[i] == new[i]);
                assert(piece[j - k] == new[j]);
            } else {
                assert(piece[i - k] == new[i]);
                assert(piece[j - k] == new[j]);
            }
        }
    }
}

} // verus!