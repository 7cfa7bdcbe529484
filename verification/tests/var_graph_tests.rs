use std::collections::BTreeMap;

use hyperquark::ir::{IrOpcode, RcVar, Step, YieldMode};
use hyperquark::optimisation::ssa::split::{propagate_ssa, ssa_visit_step};
use hyperquark::optimisation::ssa::var_graph::{VarSource, VarTarget, VariableMaps};

#[test]
fn var_target_collects_possible_types() {
    let mut t = VarTarget::Var(RcVar { id: 1, possible_types: 0b01 });
    t.add_type(0b10);
    assert_eq!(t.possible_types(), 0b11);
    let mut l = VarTarget::List(hyperquark::ir::RcList { id: 2, possible_types: 0 });
    l.add_type(0b100);
    assert_eq!(l.possible_types(), 0b100);
}

#[test]
fn globals_use_their_current_ssa_version_or_a_procedure_argument() {
    let mut args = BTreeMap::new();
    let arg_var = RcVar { id: 9, possible_types: 1 };
    args.insert(5u64, (0usize, arg_var));
    let maps = VariableMaps::new_with_proc_args(&args);
    let global = RcVar { id: 5, possible_types: 1 };
    let other = RcVar { id: 6, possible_types: 1 };
    assert_eq!(maps.use_current_ssa_for_global(&global), VarSource::Arg(0, arg_var));
    assert_eq!(maps.use_current_ssa_for_global(&other), VarSource::Global);
    let mut with_local = VariableMaps::new_with_proc_args(&args);
    let local = RcVar { id: 77, possible_types: 1 };
    with_local.ssa.insert(5, local);
    assert_eq!(with_local.use_current_ssa_for_global(&global), VarSource::Ssa(local));
}

#[test]
fn global_writes_go_to_new_locals_that_later_reads_use() {
    let mut args = BTreeMap::new();
    let arg_var = RcVar { id: 9, possible_types: 1 };
    args.insert(5u64, (2usize, arg_var));
    let mut maps = VariableMaps::new_with_proc_args(&args);
    let mut next_id = 100u64;
    let global = RcVar { id: 4, possible_types: 3 };
    let write = maps.split_opcode(
        IrOpcode::DataSetvariableto { var: global, local_write: false, first_write: false },
        &mut next_id,
    );
    let fresh = RcVar { id: 100, possible_types: 0 };
    assert!(matches!(
        write,
        IrOpcode::DataSetvariableto { var, local_write: true, first_write: true } if var == fresh
    ));
    assert_eq!(next_id, 101);
    let read = maps.split_opcode(IrOpcode::DataVariable { var: global, local_read: false }, &mut next_id);
    assert!(matches!(read, IrOpcode::DataVariable { var, local_read: true } if var == fresh));
    let arg_read = maps.split_opcode(
        IrOpcode::DataVariable { var: RcVar { id: 5, possible_types: 1 }, local_read: false },
        &mut next_id,
    );
    assert!(matches!(arg_read, IrOpcode::ProceduresArgument { index: 2, arg_var: a } if a == arg_var));
    let tee = maps.split_opcode(
        IrOpcode::DataTeevariable { var: global, local_read_write: false },
        &mut next_id,
    );
    assert!(matches!(
        tee,
        IrOpcode::DataTeevariable { var, local_read_write: true } if var.id == 101
    ));
    assert_eq!(maps.ssa.get(&4).map(|v| v.id), Some(101));
    let untouched = maps.split_opcode(IrOpcode::Other { code: 7 }, &mut next_id);
    assert!(matches!(untouched, IrOpcode::Other { code: 7 }));
    assert_eq!(next_id, 102);
}

#[test]
fn a_loop_starts_by_copying_each_global_into_its_new_local() {
    let mut args = BTreeMap::new();
    let arg_var = RcVar { id: 9, possible_types: 1 };
    args.insert(5u64, (0usize, arg_var));
    let mut maps = VariableMaps::new_with_proc_args(&args);
    let local = RcVar { id: 50, possible_types: 1 };
    maps.ssa.insert(3, local);
    let g3 = RcVar { id: 3, possible_types: 1 };
    let g5 = RcVar { id: 5, possible_types: 1 };
    let g7 = RcVar { id: 7, possible_types: 1 };
    let n3 = RcVar { id: 60, possible_types: 0 };
    let n5 = RcVar { id: 61, possible_types: 0 };
    let n7 = RcVar { id: 62, possible_types: 0 };
    let prelude = maps.make_loop_prelude(&vec![(g3, n3), (g5, n5), (g7, n7)]);
    assert_eq!(prelude.len(), 6);
    assert!(matches!(prelude[0], IrOpcode::DataVariable { var, local_read: true } if var == local));
    assert!(matches!(prelude[1], IrOpcode::DataSetvariableto { var, local_write: true, first_write: true } if var == n3));
    assert!(matches!(prelude[2], IrOpcode::ProceduresArgument { index: 0, arg_var: a } if a == arg_var));
    assert!(matches!(prelude[4], IrOpcode::DataVariable { var, local_read: false } if var == g7));
    assert_eq!(maps.ssa.get(&7), Some(&n7));
}

#[test]
fn blocks_join_their_locals_into_one_after_them() {
    let args = BTreeMap::new();
    let mut maps = VariableMaps::new_with_proc_args(&args);
    let g4 = RcVar { id: 4, possible_types: 1 };
    let g6 = RcVar { id: 6, possible_types: 1 };
    let l10 = RcVar { id: 10, possible_types: 1 };
    let mut if_block = BTreeMap::new();
    if_block.insert(4u64, l10);
    let else_block = BTreeMap::new();
    let mut next_id = 100u64;
    let ops = maps.ssa_phi(&vec![if_block, else_block], &vec![g4, g6], &BTreeMap::new(), &mut next_id);
    let joined = RcVar { id: 100, possible_types: 0 };
    assert_eq!(next_id, 101);
    assert_eq!(ops.len(), 2);
    assert_eq!(ops[0].len(), 2);
    assert!(matches!(ops[0][0], IrOpcode::DataVariable { var, local_read: true } if var == l10));
    assert!(matches!(ops[0][1], IrOpcode::DataSetvariableto { var, local_write: true, first_write: true } if var == joined));
    assert!(matches!(ops[1][0], IrOpcode::DataVariable { var, local_read: false } if var == g4));
    assert!(matches!(ops[1][1], IrOpcode::DataSetvariableto { var, local_write: true, first_write: true } if var == joined));
    assert_eq!(maps.ssa.get(&4), Some(&joined));
    assert_eq!(maps.ssa.get(&6), None);

    // A loop's body joins into the locals made before the loop.
    let mut body = BTreeMap::new();
    body.insert(6u64, RcVar { id: 11, possible_types: 1 });
    let mut write = BTreeMap::new();
    let before_loop = RcVar { id: 20, possible_types: 0 };
    write.insert(6u64, before_loop);
    let ops = maps.ssa_phi(&vec![body], &vec![g4, g6], &write, &mut next_id);
    assert_eq!(next_id, 101);
    assert!(matches!(ops[0][1], IrOpcode::DataSetvariableto { var, first_write: false, .. } if var == before_loop));
    assert_eq!(maps.ssa.get(&6), Some(&before_loop));
}

fn set(var: RcVar, local: bool) -> IrOpcode {
    IrOpcode::DataSetvariableto { var, local_write: local, first_write: false }
}

fn get(var: RcVar, local: bool) -> IrOpcode {
    IrOpcode::DataVariable { var, local_read: local }
}

fn is_get(op: &IrOpcode, id: u64, local: bool) -> bool {
    matches!(op, IrOpcode::DataVariable { var, local_read } if var.id == id && *local_read == local)
}

fn is_set(op: &IrOpcode, id: u64, first: bool) -> bool {
    matches!(op, IrOpcode::DataSetvariableto { var, local_write: true, first_write } if var.id == id && *first_write == first)
}

#[test]
fn splitting_a_step_gives_each_write_its_own_local_and_joins_branches() {
    let args = BTreeMap::new();
    let mut maps = VariableMaps::new_with_proc_args(&args);
    let g4 = RcVar { id: 4, possible_types: 1 };
    let mut step = Step {
        opcodes: vec![
            set(g4, false),
            get(g4, false),
            IrOpcode::ControlIfElse {
                branch_if: Step { opcodes: vec![set(g4, false)] },
                branch_else: Step { opcodes: vec![] },
            },
            get(g4, false),
        ],
    };
    let mut next_id = 100u64;
    ssa_visit_step(&mut step, &mut maps, &mut next_id, &vec![g4]);
    assert_eq!(next_id, 103);
    let ops = &step.opcodes;
    assert_eq!(ops.len(), 4);
    assert!(is_set(&ops[0], 100, true));
    assert!(is_get(&ops[1], 100, true));
    match &ops[2] {
        IrOpcode::ControlIfElse { branch_if, branch_else } => {
            assert_eq!(branch_if.opcodes.len(), 3);
            assert!(is_set(&branch_if.opcodes[0], 101, true));
            assert!(is_get(&branch_if.opcodes[1], 101, true));
            assert!(is_set(&branch_if.opcodes[2], 102, true));
            assert_eq!(branch_else.opcodes.len(), 2);
            assert!(is_get(&branch_else.opcodes[0], 100, true));
            assert!(is_set(&branch_else.opcodes[1], 102, true));
        }
        _ => panic!("expected the if/else"),
    }
    assert!(is_get(&ops[3], 102, true));
    assert_eq!(maps.ssa.get(&4).map(|v| v.id), Some(102));

    let mut end = Step { opcodes: vec![] };
    propagate_ssa(&maps, &mut end, &vec![g4]);
    assert_eq!(end.opcodes.len(), 2);
    assert!(is_get(&end.opcodes[0], 102, true));
    assert!(matches!(end.opcodes[1], IrOpcode::DataSetvariableto { var, local_write: false, .. } if var == g4));
}

#[test]
fn a_loop_starts_from_new_locals_and_its_body_writes_back_into_them() {
    let args = BTreeMap::new();
    let mut maps = VariableMaps::new_with_proc_args(&args);
    let g4 = RcVar { id: 4, possible_types: 1 };
    let mut step = Step {
        opcodes: vec![IrOpcode::ControlLoop {
            condition: Step { opcodes: vec![get(g4, false)] },
            first_condition: None,
            body: Step { opcodes: vec![set(g4, false)] },
            pre_body: None,
            flip_if: false,
        }],
    };
    let mut next_id = 10u64;
    ssa_visit_step(&mut step, &mut maps, &mut next_id, &vec![g4]);
    assert_eq!(next_id, 12);
    let ops = &step.opcodes;
    assert_eq!(ops.len(), 3);
    assert!(is_get(&ops[0], 4, false));
    assert!(is_set(&ops[1], 10, true));
    match &ops[2] {
        IrOpcode::ControlLoop { condition, body, first_condition, pre_body, .. } => {
            assert!(first_condition.is_none() && pre_body.is_none());
            assert!(is_get(&condition.opcodes[0], 10, true));
            assert_eq!(body.opcodes.len(), 3);
            assert!(is_set(&body.opcodes[0], 11, true));
            assert!(is_get(&body.opcodes[1], 11, true));
            assert!(is_set(&body.opcodes[2], 10, false));
        }
        _ => panic!("expected the loop"),
    }
    assert_eq!(maps.ssa.get(&4).map(|v| v.id), Some(10));
}

#[test]
fn a_branch_that_returns_gets_no_join_writes() {
    let args = BTreeMap::new();
    let mut maps = VariableMaps::new_with_proc_args(&args);
    let g4 = RcVar { id: 4, possible_types: 1 };
    let mut step = Step {
        opcodes: vec![IrOpcode::ControlIfElse {
            branch_if: Step {
                opcodes: vec![set(g4, false), IrOpcode::HqYield { mode: YieldMode::Return }],
            },
            branch_else: Step { opcodes: vec![set(g4, false)] },
        }],
    };
    let mut next_id = 100u64;
    ssa_visit_step(&mut step, &mut maps, &mut next_id, &vec![g4]);
    match &step.opcodes[0] {
        IrOpcode::ControlIfElse { branch_if, branch_else } => {
            assert_eq!(branch_if.opcodes.len(), 2);
            assert!(is_set(&branch_if.opcodes[0], 100, true));
            assert!(matches!(branch_if.opcodes[1], IrOpcode::HqYield { mode: YieldMode::Return }));
            assert_eq!(branch_else.opcodes.len(), 3);
            assert!(is_set(&branch_else.opcodes[0], 101, true));
            assert!(is_get(&branch_else.opcodes[1], 101, true));
            assert!(is_set(&branch_else.opcodes[2], 102, true));
        }
        _ => panic!("expected the if/else"),
    }
}

#[test]
fn write_backs_go_before_a_final_yield() {
    let args = BTreeMap::new();
    let mut maps = VariableMaps::new_with_proc_args(&args);
    let g4 = RcVar { id: 4, possible_types: 1 };
    let mut step = Step { opcodes: vec![set(g4, false)] };
    let mut next_id = 100u64;
    ssa_visit_step(&mut step, &mut maps, &mut next_id, &vec![g4]);
    let mut end = Step {
        opcodes: vec![IrOpcode::Other { code: 3 }, IrOpcode::HqYield { mode: YieldMode::Stop }],
    };
    propagate_ssa(&maps, &mut end, &vec![g4]);
    assert_eq!(end.opcodes.len(), 4);
    assert!(matches!(end.opcodes[0], IrOpcode::Other { code: 3 }));
    assert!(is_get(&end.opcodes[1], 100, true));
    assert!(matches!(end.opcodes[2], IrOpcode::DataSetvariableto { var, local_write: false, .. } if var == g4));
    assert!(matches!(end.opcodes[3], IrOpcode::HqYield { mode: YieldMode::Stop }));

    let mut call_end = Step { opcodes: vec![IrOpcode::ProceduresCallNonwarp] };
    propagate_ssa(&maps, &mut call_end, &vec![g4]);
    assert_eq!(call_end.opcodes.len(), 3);
    assert!(matches!(call_end.opcodes[2], IrOpcode::ProceduresCallNonwarp));
}
