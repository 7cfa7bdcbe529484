use std::collections::BTreeMap;

use hyperquark::ir::{IrOpcode, IrProject, RcVar, Step};
use hyperquark::optimisation::var_set::VarSet;
use hyperquark::optimisation::variable_merging::{
    build_merges_from_events, merge_variables, merge_variables_in_step, LiveRangeEvent,
    LivenessEvent,
};

const A: RcVar = RcVar { id: 1, possible_types: 0b10 };
const B: RcVar = RcVar { id: 2, possible_types: 0b10 };
const C: RcVar = RcVar { id: 3, possible_types: 0b100 };

fn ev(index: usize, kind: LivenessEvent, var: RcVar) -> LiveRangeEvent {
    LiveRangeEvent { index, kind, var }
}

#[test]
fn disjoint_ranges_of_one_type_are_merged() {
    let events = vec![
        ev(0, LivenessEvent::BecameLive, A),
        ev(2, LivenessEvent::FirstWriteDead, A),
        ev(1, LivenessEvent::BecameLive, C),
        ev(4, LivenessEvent::FirstWriteDead, C),
        ev(3, LivenessEvent::BecameLive, B),
        ev(5, LivenessEvent::FirstWriteDead, B),
    ];
    let merged = build_merges_from_events(&events);
    let mut expected = BTreeMap::new();
    expected.insert(B.id, A);
    assert_eq!(merged, expected);
}

#[test]
fn each_range_joins_the_group_that_ends_earliest() {
    let d = RcVar { id: 4, possible_types: 0b10 };
    let e = RcVar { id: 5, possible_types: 0b10 };
    let events = vec![
        ev(0, LivenessEvent::BecameLive, A),
        ev(1, LivenessEvent::FirstWriteDead, A),
        ev(0, LivenessEvent::BecameLive, B),
        ev(5, LivenessEvent::FirstWriteDead, B),
        ev(2, LivenessEvent::BecameLive, d),
        ev(3, LivenessEvent::FirstWriteDead, d),
        ev(4, LivenessEvent::BecameLive, e),
        ev(6, LivenessEvent::FirstWriteDead, e),
    ];
    let merged = build_merges_from_events(&events);
    // `d` follows `A`, whose group ends before `B`'s; `e` follows `d` in the
    // same group, and is merged into the group's first variable.
    let mut expected = BTreeMap::new();
    expected.insert(d.id, A);
    expected.insert(e.id, A);
    assert_eq!(merged, expected);
}

#[test]
fn overlapping_ranges_are_not_merged() {
    let events = vec![
        ev(0, LivenessEvent::BecameLive, A),
        ev(4, LivenessEvent::FirstWriteDead, A),
        ev(2, LivenessEvent::BecameLive, B),
        ev(5, LivenessEvent::FirstWriteDead, B),
    ];
    assert!(build_merges_from_events(&events).is_empty());
}

#[test]
fn variables_that_never_die_are_not_merged() {
    let events = vec![ev(0, LivenessEvent::BecameLive, A), ev(3, LivenessEvent::BecameLive, B)];
    assert!(build_merges_from_events(&events).is_empty());
}

fn set(var: RcVar) -> IrOpcode {
    IrOpcode::DataSetvariableto { var, local_write: true, first_write: true }
}

fn get(var: RcVar) -> IrOpcode {
    IrOpcode::DataVariable { var, local_read: true }
}

fn read_var(op: &IrOpcode) -> Option<RcVar> {
    match op {
        IrOpcode::DataSetvariableto { var, .. } => Some(*var),
        IrOpcode::DataVariable { var, .. } => Some(*var),
        IrOpcode::DataTeevariable { var, .. } => Some(*var),
        _ => None,
    }
}

#[test]
fn renaming_replaces_merged_variables_in_nested_steps() {
    let mut merges = BTreeMap::new();
    merges.insert(B.id, A);
    let mut step = Step {
        opcodes: vec![
            get(B),
            IrOpcode::ControlIfElse {
                branch_if: Step { opcodes: vec![set(B)] },
                branch_else: Step { opcodes: vec![get(C)] },
            },
            IrOpcode::Other { code: 9 },
        ],
    };
    merge_variables_in_step(&mut step, &merges);
    assert_eq!(read_var(&step.opcodes[0]), Some(A));
    match &step.opcodes[1] {
        IrOpcode::ControlIfElse { branch_if, branch_else } => {
            assert_eq!(read_var(&branch_if.opcodes[0]), Some(A));
            assert_eq!(read_var(&branch_else.opcodes[0]), Some(C));
        }
        _ => panic!("the if-else stays"),
    }
    assert!(matches!(step.opcodes[2], IrOpcode::Other { code: 9 }));
}

#[test]
fn merging_a_project_shares_locals_of_one_type() {
    let step = Step { opcodes: vec![set(A), get(A), set(B), get(B), set(C), get(C)] };
    let mut proj = IrProject { steps: vec![step] };
    merge_variables(&mut proj);
    let ops = &proj.steps[0].opcodes;
    assert_eq!(ops.len(), 6);
    // The walk runs from the step's end, so `B`'s range comes first and `A`,
    // of the same type and dead before `B` is written, joins it.
    assert_eq!(read_var(&ops[0]), Some(B));
    assert_eq!(read_var(&ops[1]), Some(B));
    assert_eq!(read_var(&ops[2]), Some(B));
    assert_eq!(read_var(&ops[3]), Some(B));
    // `C` has another type, so it keeps its own local.
    assert_eq!(read_var(&ops[4]), Some(C));
    assert_eq!(read_var(&ops[5]), Some(C));
}

#[test]
fn a_variable_read_in_a_loop_is_merged_after_the_loop() {
    let step = Step {
        opcodes: vec![
            set(A),
            IrOpcode::ControlLoop {
                condition: Step { opcodes: vec![] },
                first_condition: None,
                body: Step { opcodes: vec![get(A)] },
                pre_body: None,
                flip_if: false,
            },
            set(B),
            get(B),
        ],
    };
    let mut proj = IrProject { steps: vec![step] };
    merge_variables(&mut proj);
    let ops = &proj.steps[0].opcodes;
    // `B` lives at the end of the step, `A` before it; `A` joins `B`.
    assert_eq!(read_var(&ops[0]), Some(B));
    match &ops[1] {
        IrOpcode::ControlLoop { body, .. } => assert_eq!(read_var(&body.opcodes[0]), Some(B)),
        _ => panic!("the loop stays"),
    }
    assert_eq!(read_var(&ops[2]), Some(B));
    assert_eq!(read_var(&ops[3]), Some(B));
}

#[test]
fn var_sets_hold_each_variable_once() {
    let mut s = VarSet::new();
    assert!(s.insert(A));
    assert!(!s.insert(A));
    assert!(s.insert(B));
    assert_eq!(s.len(), 2);
    assert!(s.contains(&A));
    let mut t = VarSet::new();
    t.insert(B);
    t.insert(C);
    let u = s.union(&t);
    assert_eq!(u.len(), 3);
    let d = s.difference(&t);
    assert_eq!(d.len(), 1);
    assert!(d.contains(&A));
    s.remove(&A);
    assert!(!s.contains(&A));
    assert_eq!(s.get(0), B);
}

#[test]
fn renaming_twice_by_final_merges_changes_nothing() {
    let mut merges = BTreeMap::new();
    merges.insert(B.id, A);
    let mut step = Step {
        opcodes: vec![
            get(B),
            IrOpcode::ControlIfElse {
                branch_if: Step { opcodes: vec![set(B)] },
                branch_else: Step { opcodes: vec![get(A)] },
            },
        ],
    };
    merge_variables_in_step(&mut step, &merges);
    let first: Vec<Option<RcVar>> = step.opcodes.iter().map(read_var).collect();
    merge_variables_in_step(&mut step, &merges);
    let second: Vec<Option<RcVar>> = step.opcodes.iter().map(read_var).collect();
    assert_eq!(first, second);
    match &step.opcodes[1] {
        IrOpcode::ControlIfElse { branch_if, branch_else } => {
            assert_eq!(read_var(&branch_if.opcodes[0]), Some(A));
            assert_eq!(read_var(&branch_else.opcodes[0]), Some(A));
        }
        _ => panic!("the if-else stays"),
    }
}
