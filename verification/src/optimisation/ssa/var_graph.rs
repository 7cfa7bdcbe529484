//! What the SSA pass tracks about variables: the targets whose types it
//! infers, and which local currently stands for each global variable; and
//! the pass's steps on one opcode, at the start of a loop, and where paths
//! meet.

use vstd::prelude::*;
use std::collections::BTreeMap;
use crate::ir::{IrOpcode, IrType, RcList, RcVar};

verus! {

broadcast use vstd::std_specs::btree::group_btree_axioms;

/// Something whose possible types are inferred: a variable or a list.
#[derive(Clone, Copy, Debug, PartialEq, Eq, Structural)]
pub enum VarTarget {
    Var(RcVar),
    List(RcList),
}

impl VarTarget {
    /// The types that the target may hold.
    pub open spec fn types(&self) -> IrType {
        match self {
            VarTarget::Var(v) => v.possible_types,
            VarTarget::List(l) => l.possible_types,
        }
    }

    /// The types that the target may hold.
    pub fn possible_types(&self) -> (r: IrType)
        ensures
            r == self.types(),
    {
        match self {
            VarTarget::Var(v) => v.possible_types,
            VarTarget::List(l) => l.possible_types,
        }
    }

    /// Adds `ty` to the types that the target may hold.
    pub fn add_type(&mut self, ty: IrType)
        ensures
            final(self).types() == old(self).types() | ty,
            match (*old(self), *final(self)) {
                (VarTarget::Var(a), VarTarget::Var(b)) => a.id == b.id,
                (VarTarget::List(a), VarTarget::List(b)) => a.id == b.id,
                _ => false,
            },
    {
        match self {
            VarTarget::Var(v) => {
                v.possible_types = v.possible_types | ty;
            },
            VarTarget::List(l) => {
                l.possible_types = l.possible_types | ty;
            },
        }
    }
}

/// An operation on the stack of types that a step's graph records.
pub enum StackOperation {
    /// Drops the top of the stack.
    Drop,
    /// Pushes the types of a target.
    Push(VarTarget),
    /// Pops the top of the stack into a target.
    Pop(VarTarget),
    /// An opcode that neither branches nor touches variables.
    Opcode(IrOpcode),
}

/// Whether an edge of a step's graph goes forwards or back to a loop's start.
#[derive(Copy, Clone, Debug, PartialEq, Eq, Structural)]
pub enum EdgeType {
    Forward,
    BackLink,
}

/// Where the current value of a global variable is found.
#[derive(Copy, Clone, Debug, PartialEq, Eq, Structural)]
pub enum VarSource {
    /// In a local that the SSA pass made for it.
    Ssa(RcVar),
    /// In a procedure argument: its index and its variable.
    Arg(usize, RcVar),
    /// In the global itself.
    Global,
}

/// The locals that stand for global variables in a step.
pub struct VariableMaps<'a> {
    /// global variable (by identity) -> local variable
    pub ssa: BTreeMap<u64, RcVar>,
    /// global variable (by identity) -> (argument index, argument variable)
    pub proc_args: &'a BTreeMap<u64, (usize, RcVar)>,
}

impl<'a> VariableMaps<'a> {
    /// No locals yet, and the given procedure arguments.
    pub fn new_with_proc_args(proc_args: &'a BTreeMap<u64, (usize, RcVar)>) -> (r: Self)
        ensures
            r.ssa@ == Map::<u64, RcVar>::empty(),
            r.proc_args == proc_args,
    {
        VariableMaps { ssa: BTreeMap::new(), proc_args }
    }

    /// Where the current value of `global_var` is: its local if the pass made
    /// one, else the procedure argument that holds it, else the global.
    pub fn use_current_ssa_for_global(&self, global_var: &RcVar) -> (r: VarSource)
        ensures
            r == (if self.ssa@.contains_key(global_var.id) {
                VarSource::Ssa(self.ssa@[global_var.id])
            } else if self.proc_args@.contains_key(global_var.id) {
                VarSource::Arg(
                    self.proc_args@[global_var.id].0,
                    self.proc_args@[global_var.id].1,
                )
            } else {
                VarSource::Global
            }),
    {
        match self.ssa.get(&global_var.id) {
            Some(local) => VarSource::Ssa(*local),
            None => match self.proc_args.get(&global_var.id) {
                Some(arg) => VarSource::Arg(arg.0, arg.1),
                None => VarSource::Global,
            },
        }
    }
}

/// The variable numbered `id`, with no types yet.
pub open spec fn empty_var(id: u64) -> RcVar {
    RcVar { id, possible_types: 0 }
}

/// A new variable, with no types yet, numbered `*next_id`; the numbering
/// moves on.
pub fn new_empty_var(next_id: &mut u64) -> (r: RcVar)
    requires
        *old(next_id) < u64::MAX,
    ensures
        r == empty_var(*old(next_id)),
        *final(next_id) == *old(next_id) + 1,
{
    let r = RcVar { id: *next_id, possible_types: 0 };
    *next_id = *next_id + 1;
    r
}

/// What the SSA pass makes of one opcode, given the locals that stand for
/// globals (`ssa`), the procedure's arguments (`args`) and the next variable
/// number: a global write or tee goes to a new local, which then stands for
/// the global; a global read reads the global's local if it has one, else
/// the argument that holds it, else the global. Local accesses and other
/// opcodes stay.
pub open spec fn split_opcode(
    op: IrOpcode,
    ssa: Map<u64, RcVar>,
    args: Map<u64, (usize, RcVar)>,
    next: u64,
) -> (IrOpcode, Map<u64, RcVar>, u64) {
    match op {
        IrOpcode::DataSetvariableto { var, local_write, first_write } => if local_write {
            (op, ssa, next)
        } else {
            (
                IrOpcode::DataSetvariableto {
                    var: empty_var(next),
                    local_write: true,
                    first_write: true,
                },
                ssa.insert(var.id, empty_var(next)),
                (next + 1) as u64,
            )
        },
        IrOpcode::DataTeevariable { var, local_read_write } => if local_read_write {
            (op, ssa, next)
        } else {
            (
                IrOpcode::DataTeevariable { var: empty_var(next), local_read_write: true },
                ssa.insert(var.id, empty_var(next)),
                (next + 1) as u64,
            )
        },
        IrOpcode::DataVariable { var, local_read } => if local_read {
            (op, ssa, next)
        } else if ssa.contains_key(var.id) {
            (IrOpcode::DataVariable { var: ssa[var.id], local_read: true }, ssa, next)
        } else if args.contains_key(var.id) {
            (
                IrOpcode::ProceduresArgument { index: args[var.id].0, arg_var: args[var.id].1 },
                ssa,
                next,
            )
        } else {
            (op, ssa, next)
        },
        _ => (op, ssa, next),
    }
}

/// The opcode writes a global, and so makes a new local.
pub open spec fn makes_local(op: IrOpcode) -> bool {
    match op {
        IrOpcode::DataSetvariableto { local_write, .. } => !local_write,
        IrOpcode::DataTeevariable { local_read_write, .. } => !local_read_write,
        _ => false,
    }
}

/// The opcodes that start a loop: for each global, in order, its current
/// value (from its local, its argument, or itself) is written to the new
/// local that stands for it from then on.
pub open spec fn loop_prelude(
    new_vars: Seq<(RcVar, RcVar)>,
    ssa: Map<u64, RcVar>,
    args: Map<u64, (usize, RcVar)>,
) -> (Seq<IrOpcode>, Map<u64, RcVar>)
    decreases new_vars.len(),
{
    if new_vars.len() == 0 {
        (Seq::empty(), ssa)
    } else {
        let (before, ssa1) = loop_prelude(new_vars.drop_last(), ssa, args);
        let (global, new_var) = new_vars.last();
        let read = if ssa1.contains_key(global.id) {
            IrOpcode::DataVariable { var: ssa1[global.id], local_read: true }
        } else if args.contains_key(global.id) {
            IrOpcode::ProceduresArgument { index: args[global.id].0, arg_var: args[global.id].1 }
        } else {
            IrOpcode::DataVariable { var: global, local_read: false }
        };
        (
            before + seq![
                read,
                IrOpcode::DataSetvariableto { var: new_var, local_write: true, first_write: true },
            ],
            ssa1.insert(global.id, new_var),
        )
    }
}

impl<'a> VariableMaps<'a> {
    /// The opcode that the SSA pass makes of `op` (see [`split_opcode`]),
    /// recording the new local of a global write.
    pub fn split_opcode(&mut self, op: IrOpcode, next_id: &mut u64) -> (r: IrOpcode)
        requires
            makes_local(op) ==> *old(next_id) < u64::MAX,
        ensures
            (r, final(self).ssa@, *final(next_id)) == split_opcode(
                op,
                old(self).ssa@,
                old(self).proc_args@,
                *old(next_id),
            ),
            final(self).proc_args == old(self).proc_args,
    {
        match op {
            IrOpcode::DataSetvariableto { var, local_write, first_write } => {
                if local_write {
                    IrOpcode::DataSetvariableto { var, local_write, first_write }
                } else {
                    let new_var = new_empty_var(next_id);
                    self.ssa.insert(var.id, new_var);
                    IrOpcode::DataSetvariableto { var: new_var, local_write: true, first_write: true }
                }
            },
            IrOpcode::DataTeevariable { var, local_read_write } => {
                if local_read_write {
                    IrOpcode::DataTeevariable { var, local_read_write }
                } else {
                    let new_var = new_empty_var(next_id);
                    self.ssa.insert(var.id, new_var);
                    IrOpcode::DataTeevariable { var: new_var, local_read_write: true }
                }
            },
            IrOpcode::DataVariable { var, local_read } => {
                if local_read {
                    IrOpcode::DataVariable { var, local_read }
                } else {
                    match self.use_current_ssa_for_global(&var) {
                        VarSource::Ssa(local) => IrOpcode::DataVariable { var: local, local_read: true },
                        VarSource::Arg(index, arg_var) => IrOpcode::ProceduresArgument { index, arg_var },
                        VarSource::Global => IrOpcode::DataVariable { var, local_read },
                    }
                }
            },
            other => other,
        }
    }

    /// The opcodes that start a loop (see [`loop_prelude`]) for the globals
    /// and their new locals in `new_vars`, recording each new local.
    pub fn make_loop_prelude(&mut self, new_vars: &Vec<(RcVar, RcVar)>) -> (r: Vec<IrOpcode>)
        ensures
            (r@, final(self).ssa@) == loop_prelude(new_vars@, old(self).ssa@, old(self).proc_args@),
            final(self).proc_args == old(self).proc_args,
    {
        let mut out: Vec<IrOpcode> = Vec::new();
        let mut i: usize = 0;
        while i < new_vars.len()
            invariant
                i <= new_vars@.len(),
                self.proc_args == old(self).proc_args,
                (out@, self.ssa@) == loop_prelude(
                    new_vars@.subrange(0, i as int),
                    old(self).ssa@,
                    old(self).proc_args@,
                ),
            decreases new_vars@.len() - i,
        {
            let (global, new_var) = new_vars[i];
            proof {
                assert(new_vars@.subrange(0, i + 1).drop_last() =~= new_vars@.subrange(0, i as int));
                assert(new_vars@.subrange(0, i + 1).last() == new_vars@[i as int]);
            }
            let read = match self.use_current_ssa_for_global(&global) {
                VarSource::Ssa(local) => IrOpcode::DataVariable { var: local, local_read: true },
                VarSource::Arg(index, arg_var) => IrOpcode::ProceduresArgument { index, arg_var },
                VarSource::Global => IrOpcode::DataVariable { var: global, local_read: false },
            };
            self.ssa.insert(global.id, new_var);
            let ghost before = out@;
            out.push(read);
            out.push(IrOpcode::DataSetvariableto { var: new_var, local_write: true, first_write: true });
            proof {
                assert(out@ =~= before + seq![
                    read,
                    IrOpcode::DataSetvariableto { var: new_var, local_write: true, first_write: true },
                ]);
            }
            i = i + 1;
        }
        proof {
            assert(new_vars@.subrange(0, new_vars@.len() as int) =~= new_vars@);
        }
        out
    }
}

/// The globals, among `globals` and in their order, that some block made a
/// local for.
pub open spec fn phi_globals(globals: Seq<RcVar>, blocks: Seq<Map<u64, RcVar>>) -> Seq<RcVar>
    decreases globals.len(),
{
    if globals.len() == 0 {
        Seq::empty()
    } else {
        let before = phi_globals(globals.drop_last(), blocks);
        if exists|b: int| 0 <= b < blocks.len() && #[trigger] blocks[b].contains_key(globals.last().id) {
            before.push(globals.last())
        } else {
            before
        }
    }
}

/// The local that each of `lower` is joined into after the blocks: the one
/// `write` gives for it, else a new one, numbered from `next`; and the next
/// number after them.
pub open spec fn phi_locals(lower: Seq<RcVar>, write: Map<u64, RcVar>, next: int) -> (Seq<RcVar>, int)
    decreases lower.len(),
{
    if lower.len() == 0 {
        (Seq::empty(), next)
    } else {
        let (before, n) = phi_locals(lower.drop_last(), write, next);
        if write.contains_key(lower.last().id) {
            (before.push(write[lower.last().id]), n)
        } else {
            (before.push(empty_var(n as u64)), n + 1)
        }
    }
}

/// Where a block's value of `global` is read at its end: the block's own
/// local, else the local before the blocks, else the global.
pub open spec fn phi_read(block: Map<u64, RcVar>, outer: Map<u64, RcVar>, global: RcVar) -> IrOpcode {
    if block.contains_key(global.id) {
        IrOpcode::DataVariable { var: block[global.id], local_read: true }
    } else if outer.contains_key(global.id) {
        IrOpcode::DataVariable { var: outer[global.id], local_read: true }
    } else {
        IrOpcode::DataVariable { var: global, local_read: false }
    }
}

/// The opcodes that end a block: for each global joined, its value in the
/// block is written to the local it is joined into (a first write when the
/// joined locals are all new).
pub open spec fn phi_ops(
    block: Map<u64, RcVar>,
    outer: Map<u64, RcVar>,
    lower: Seq<RcVar>,
    locals: Seq<RcVar>,
    first: bool,
) -> Seq<IrOpcode>
    decreases lower.len(),
{
    if lower.len() == 0 {
        Seq::empty()
    } else {
        phi_ops(block, outer, lower.drop_last(), locals, first) + seq![
            phi_read(block, outer, lower.last()),
            IrOpcode::DataSetvariableto {
                var: locals[lower.len() - 1],
                local_write: true,
                first_write: first,
            },
        ]
    }
}

/// The locals after the join: each global joined now stands for its joined
/// local.
pub open spec fn phi_outer(outer: Map<u64, RcVar>, lower: Seq<RcVar>, locals: Seq<RcVar>) -> Map<
    u64,
    RcVar,
>
    decreases lower.len(),
{
    if lower.len() == 0 {
        outer
    } else {
        phi_outer(outer, lower.drop_last(), locals).insert(
            lower.last().id,
            locals[lower.len() - 1],
        )
    }
}

pub proof fn lemma_phi_locals_len(lower: Seq<RcVar>, write: Map<u64, RcVar>, next: int)
    ensures
        phi_locals(lower, write, next).0.len() == lower.len(),
        next <= phi_locals(lower, write, next).1 <= next + lower.len(),
    decreases lower.len(),
{
    if lower.len() > 0 {
        lemma_phi_locals_len(lower.drop_last(), write, next);
    }
}

proof fn lemma_phi_locals_prefix(lower: Seq<RcVar>, k: int, write: Map<u64, RcVar>, next: int)
    requires
        0 <= k <= lower.len(),
    ensures
        phi_locals(lower.subrange(0, k), write, next).1 <= phi_locals(lower, write, next).1,
    decreases lower.len() - k,
{
    if k < lower.len() {
        lemma_phi_locals_prefix(lower, k + 1, write, next);
        assert(lower.subrange(0, k + 1).drop_last() =~= lower.subrange(0, k));
        lemma_phi_locals_len(lower.subrange(0, k), write, next);
    } else {
        assert(lower.subrange(0, k) =~= lower);
    }
}

impl<'a> VariableMaps<'a> {
    /// Joins the locals that some blocks (the branches of an if/else, or a
    /// loop's body) made for globals: every global, among `globals` and in
    /// their order, that a block made a local for is joined into one local,
    /// the one `write_map` gives or a new one; gives, for each block, the
    /// opcodes that end it by writing its value there; and from then on the
    /// joined local stands for the global. `block_ssas` are the blocks' own
    /// locals, by global.
    pub fn ssa_phi(
        &mut self,
        block_ssas: &Vec<BTreeMap<u64, RcVar>>,
        globals: &Vec<RcVar>,
        write_map: &BTreeMap<u64, RcVar>,
        next_id: &mut u64,
    ) -> (r: Vec<Vec<IrOpcode>>)
        requires
            phi_locals(
                phi_globals(globals@, Seq::new(block_ssas@.len(), |b: int| block_ssas@[b]@)),
                write_map@,
                *old(next_id) as int,
            ).1 <= u64::MAX,
        ensures
            ({
                let blocks = Seq::new(block_ssas@.len(), |b: int| block_ssas@[b]@);
                let lower = phi_globals(globals@, blocks);
                let (locals, next) = phi_locals(lower, write_map@, *old(next_id) as int);
                &&& r@.len() == block_ssas@.len()
                &&& forall|b: int|
                    0 <= b < r@.len() ==> (#[trigger] r@[b])@ == phi_ops(
                        blocks[b],
                        old(self).ssa@,
                        lower,
                        locals,
                        write_map@.is_empty(),
                    )
                &&& final(self).ssa@ == phi_outer(old(self).ssa@, lower, locals)
                &&& *final(next_id) == next
            }),
            final(self).proc_args == old(self).proc_args,
    {
        let ghost blocks = Seq::new(block_ssas@.len(), |b: int| block_ssas@[b]@);
        let ghost outer = self.ssa@;
        let ghost start = *next_id as int;
        let mut lower: Vec<RcVar> = Vec::new();
        let mut i: usize = 0;
        while i < globals.len()
            invariant
                self.proc_args == old(self).proc_args,
                i <= globals@.len(),
                blocks == Seq::new(block_ssas@.len(), |b: int| block_ssas@[b]@),
                lower@ == phi_globals(globals@.subrange(0, i as int), blocks),
                lower@.len() <= i,
            decreases globals@.len() - i,
        {
            let g = globals[i];
            let mut found = false;
            let mut b: usize = 0;
            while b < block_ssas.len()
                invariant
                self.proc_args == old(self).proc_args,
                    b <= block_ssas@.len(),
                    blocks == Seq::new(block_ssas@.len(), |b: int| block_ssas@[b]@),
                    found <==> exists|c: int| 0 <= c < b && #[trigger] blocks[c].contains_key(g.id),
                decreases block_ssas@.len() - b,
            {
                if block_ssas[b].contains_key(&g.id) {
                    found = true;
                }
                proof {
                    assert(blocks[b as int] == block_ssas@[b as int]@);
                }
                b = b + 1;
            }
            proof {
                assert(globals@.subrange(0, i + 1).drop_last() =~= globals@.subrange(0, i as int));
                assert(globals@.subrange(0, i + 1).last() == g);
            }
            if found {
                lower.push(g);
            }
            i = i + 1;
        }
        proof {
            assert(globals@.subrange(0, globals@.len() as int) =~= globals@);
        }
        let ghost low = lower@;
        let first = write_map.is_empty();
        let mut locals: Vec<RcVar> = Vec::new();
        let mut j: usize = 0;
        while j < lower.len()
            invariant
                self.proc_args == old(self).proc_args,
                j <= low.len(),
                lower@ == low,
                phi_locals(low, write_map@, start).1 <= u64::MAX,
                (locals@, *next_id as int) == phi_locals(low.subrange(0, j as int), write_map@, start),
            decreases low.len() - j,
        {
            proof {
                assert(low.subrange(0, j + 1).drop_last() =~= low.subrange(0, j as int));
                assert(low.subrange(0, j + 1).last() == low[j as int]);
                lemma_phi_locals_len(low.subrange(0, j as int), write_map@, start);
                lemma_phi_locals_prefix(low, j + 1, write_map@, start);
            }
            let local = match write_map.get(&lower[j].id) {
                Some(v) => *v,
                None => new_empty_var(next_id),
            };
            locals.push(local);
            j = j + 1;
        }
        proof {
            assert(low.subrange(0, low.len() as int) =~= low);
            lemma_phi_locals_len(low, write_map@, start);
        }
        let ghost locs = locals@;
        let mut out: Vec<Vec<IrOpcode>> = Vec::new();
        let mut b: usize = 0;
        while b < block_ssas.len()
            invariant
                self.proc_args == old(self).proc_args,
                b <= block_ssas@.len(),
                blocks == Seq::new(block_ssas@.len(), |b: int| block_ssas@[b]@),
                lower@ == low,
                locals@ == locs,
                locs.len() == low.len(),
                self.ssa@ == outer,
                first == write_map@.is_empty(),
                out@.len() == b,
                forall|c: int|
                    0 <= c < b ==> (#[trigger] out@[c])@ == phi_ops(
                        blocks[c],
                        outer,
                        low,
                        locs,
                        write_map@.is_empty(),
                    ),
            decreases block_ssas@.len() - b,
        {
            let block = &block_ssas[b];
            let mut ops: Vec<IrOpcode> = Vec::new();
            let mut k: usize = 0;
            while k < lower.len()
                invariant
                self.proc_args == old(self).proc_args,
                    k <= low.len(),
                    lower@ == low,
                    locals@ == locs,
                    locs.len() == low.len(),
                    self.ssa@ == outer,
                    *block == block_ssas@[b as int],
                    first == write_map@.is_empty(),
                    blocks[b as int] == block@,
                    ops@ == phi_ops(
                        block@,
                        outer,
                        low.subrange(0, k as int),
                        locs,
                        write_map@.is_empty(),
                    ),
                decreases low.len() - k,
            {
                let g = lower[k];
                let read = match block.get(&g.id) {
                    Some(v) => IrOpcode::DataVariable { var: *v, local_read: true },
                    None => match self.ssa.get(&g.id) {
                        Some(v) => IrOpcode::DataVariable { var: *v, local_read: true },
                        None => IrOpcode::DataVariable { var: g, local_read: false },
                    },
                };
                let ghost before = ops@;
                assert(read == phi_read(block@, outer, g));
                ops.push(read);
                ops.push(IrOpcode::DataSetvariableto { var: locals[k], local_write: true, first_write: first });
                proof {
                    let sub = low.subrange(0, k + 1);
                    assert(sub.drop_last() =~= low.subrange(0, k as int));
                    assert(sub.last() == g);
                    assert(ops@ =~= before + seq![
                        phi_read(block@, outer, g),
                        IrOpcode::DataSetvariableto {
                            var: locs[sub.len() - 1],
                            local_write: true,
                            first_write: write_map@.is_empty(),
                        },
                    ]);
                }
                k = k + 1;
            }
            proof {
                assert(low.subrange(0, low.len() as int) =~= low);
            }
            out.push(ops);
            b = b + 1;
        }
        let mut k: usize = 0;
        while k < lower.len()
            invariant
                self.proc_args == old(self).proc_args,
                k <= low.len(),
                lower@ == low,
                locals@ == locs,
                locs.len() == low.len(),
                self.ssa@ == phi_outer(outer, low.subrange(0, k as int), locs),
            decreases low.len() - k,
        {
            proof {
                assert(low.subrange(0, k + 1).drop_last() =~= low.subrange(0, k as int));
            }
            self.ssa.insert(lower[k].id, locals[k]);
            k = k + 1;
        }
        proof {
            assert(low.subrange(0, low.len() as int) =~= low);
        }
        out
    }
}

} // verus!