//! The parts of the intermediate representation that the optimisation passes
//! read: variables with their possible types, and steps made of opcodes, where
//! control flow nests further steps.

use vstd::prelude::*;

verus! {

/// A set of possible types, one bit per base type.
pub type IrType = u64;

/// A variable: its identity and the types that it may hold.
#[derive(Clone, Copy, Debug, PartialEq, Eq, Structural)]
pub struct RcVar {
    pub id: u64,
    pub possible_types: IrType,
}

/// A list: its identity and the types that its items may hold.
#[derive(Clone, Copy, Debug, PartialEq, Eq, Structural)]
pub struct RcList {
    pub id: u64,
    pub possible_types: IrType,
}

/// An opcode, as far as the variable passes are concerned.
pub enum IrOpcode {
    /// Writes the value on top of the stack to a variable.
    DataSetvariableto { var: RcVar, local_write: bool, first_write: bool },
    /// Pushes the value of a variable.
    DataVariable { var: RcVar, local_read: bool },
    /// Writes the value on top of the stack to a variable, leaving it there.
    DataTeevariable { var: RcVar, local_read_write: bool },
    /// Runs another step in place.
    HqYieldInline { step: Step },
    /// Runs one of two steps.
    ControlIfElse { branch_if: Step, branch_else: Step },
    /// Runs `body` while `condition` holds (while it fails, when `flip_if`
    /// is set); `first_condition`, when present, replaces the condition on
    /// the first iteration, and `pre_body` runs before each iteration's body.
    ControlLoop {
        condition: Step,
        first_condition: Option<Step>,
        body: Step,
        pre_body: Option<Step>,
        flip_if: bool,
    },
    /// Negates the boolean on top of the stack.
    OperatorNot,
    /// Ends the step: stops the thread, returns from a procedure, or hands
    /// over to a scheduled step.
    HqYield { mode: YieldMode },
    /// Calls a procedure that is not warped, and ends the step.
    ProceduresCallNonwarp,
    /// Pushes the procedure argument at `index`, held in `arg_var`.
    ProceduresArgument { index: usize, arg_var: RcVar },
    /// Any other opcode: it neither touches variables nor nests steps.
    Other { code: u64 },
}

/// How a yield ends its step.
#[derive(Clone, Copy, Debug, PartialEq, Eq, Structural)]
pub enum YieldMode {
    /// The thread stops.
    Stop,
    /// The procedure returns.
    Return,
    /// Another step runs next.
    Schedule,
}

/// A sequence of opcodes.
pub struct Step {
    pub opcodes: Vec<IrOpcode>,
}

/// A project, as far as the variable passes are concerned: its steps.
pub struct IrProject {
    pub steps: Vec<Step>,
}

/// The variables that an opcode accesses locally, here or in nested steps.
pub open spec fn opcode_local_vars(op: IrOpcode) -> Set<RcVar>
    decreases op,
{
    match op {
        IrOpcode::DataSetvariableto { var, local_write, .. } => if local_write {
            set![var]
        } else {
            Set::empty()
        },
        IrOpcode::DataVariable { var, local_read } => if local_read {
            set![var]
        } else {
            Set::empty()
        },
        IrOpcode::DataTeevariable { var, local_read_write } => if local_read_write {
            set![var]
        } else {
            Set::empty()
        },
        IrOpcode::HqYieldInline { step } => step_local_vars(step),
        IrOpcode::ControlIfElse { branch_if, branch_else } => step_local_vars(branch_if).union(
            step_local_vars(branch_else),
        ),
        IrOpcode::ControlLoop { condition, first_condition, body, pre_body, .. } => {
            let fc = match first_condition {
                Some(s) => step_local_vars(s),
                None => Set::empty(),
            };
            let pb = match pre_body {
                Some(s) => step_local_vars(s),
                None => Set::empty(),
            };
            step_local_vars(condition).union(step_local_vars(body)).union(fc).union(pb)
        },
        IrOpcode::ProceduresArgument { .. } | IrOpcode::OperatorNot | IrOpcode::HqYield { .. }
        | IrOpcode::ProceduresCallNonwarp | IrOpcode::Other { .. } => Set::empty(),
    }
}

/// The variables that some opcodes access locally.
pub open spec fn opcodes_local_vars(ops: Seq<IrOpcode>) -> Set<RcVar>
    decreases ops,
{
    if ops.len() == 0 {
        Set::empty()
    } else {
        opcodes_local_vars(ops.drop_last()).union(opcode_local_vars(ops.last()))
    }
}

/// The variables that a step accesses locally.
pub open spec fn step_local_vars(step: Step) -> Set<RcVar>
    decreases step,
{
    opcodes_local_vars(step.opcodes@)
}

/// The variables that an opcode writes locally for the first time, here or in
/// nested steps.
pub open spec fn opcode_first_writes(op: IrOpcode) -> Set<RcVar>
    decreases op,
{
    match op {
        IrOpcode::DataSetvariableto { var, local_write, first_write } => if local_write
            && first_write {
            set![var]
        } else {
            Set::empty()
        },
        IrOpcode::HqYieldInline { step } => step_first_writes(step),
        IrOpcode::ControlIfElse { branch_if, branch_else } => step_first_writes(branch_if).union(
            step_first_writes(branch_else),
        ),
        IrOpcode::ControlLoop { condition, first_condition, body, pre_body, .. } => {
            let fc = match first_condition {
                Some(s) => step_first_writes(s),
                None => Set::empty(),
            };
            let pb = match pre_body {
                Some(s) => step_first_writes(s),
                None => Set::empty(),
            };
            step_first_writes(condition).union(step_first_writes(body)).union(fc).union(pb)
        },
        _ => Set::empty(),
    }
}

/// The variables that some opcodes write locally for the first time.
pub open spec fn opcodes_first_writes(ops: Seq<IrOpcode>) -> Set<RcVar>
    decreases ops,
{
    if ops.len() == 0 {
        Set::empty()
    } else {
        opcodes_first_writes(ops.drop_last()).union(opcode_first_writes(ops.last()))
    }
}

/// The variables that a step writes locally for the first time.
pub open spec fn step_first_writes(step: Step) -> Set<RcVar>
    decreases step,
{
    opcodes_first_writes(step.opcodes@)
}

/// What each opcode of a sequence accesses is what the sequence accesses.
pub proof fn lemma_opcode_vars_in_opcodes(ops: Seq<IrOpcode>, i: int)
    requires
        0 <= i < ops.len(),
    ensures
        opcode_local_vars(ops[i]).subset_of(opcodes_local_vars(ops)),
        opcode_first_writes(ops[i]).subset_of(opcodes_first_writes(ops)),
    decreases ops.len(),
{
    if i < ops.len() - 1 {
        lemma_opcode_vars_in_opcodes(ops.drop_last(), i);
    }
}

/// A first write is a local access.
pub proof fn lemma_first_writes_are_local(op: IrOpcode)
    ensures
        opcode_first_writes(op).subset_of(opcode_local_vars(op)),
    decreases op,
{
    match op {
        IrOpcode::HqYieldInline { step } => lemma_step_first_writes_are_local(step),
        IrOpcode::ControlIfElse { branch_if, branch_else } => {
            lemma_step_first_writes_are_local(branch_if);
            lemma_step_first_writes_are_local(branch_else);
        },
        IrOpcode::ControlLoop { condition, first_condition, body, pre_body, .. } => {
            lemma_step_first_writes_are_local(condition);
            lemma_step_first_writes_are_local(body);
            match first_condition {
                Some(s) => lemma_step_first_writes_are_local(s),
                None => {},
            }
            match pre_body {
                Some(s) => lemma_step_first_writes_are_local(s),
                None => {},
            }
        },
        _ => {},
    }
}

/// A first write is a local access.
pub proof fn lemma_opcodes_first_writes_are_local(ops: Seq<IrOpcode>)
    ensures
        opcodes_first_writes(ops).subset_of(opcodes_local_vars(ops)),
    decreases ops,
{
    if ops.len() > 0 {
        lemma_opcodes_first_writes_are_local(ops.drop_last());
        lemma_first_writes_are_local(ops.last());
    }
}

/// A first write is a local access.
pub proof fn lemma_step_first_writes_are_local(step: Step)
    ensures
        step_first_writes(step).subset_of(step_local_vars(step)),
    decreases step,
{
    lemma_opcodes_first_writes_are_local(step.opcodes@);
}

} // verus!
