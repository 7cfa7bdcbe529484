use hyperquark::ir::{IrOpcode, IrProject, Step};
use hyperquark::optimisation::loop_unrolling::{unroll_loops, unroll_loops_in_step};

fn other(code: u64) -> IrOpcode {
    IrOpcode::Other { code }
}

fn step(opcodes: Vec<IrOpcode>) -> Step {
    Step { opcodes }
}

fn codes(step: &Step) -> Vec<Option<u64>> {
    step.opcodes
        .iter()
        .map(|op| match op {
            IrOpcode::Other { code } => Some(*code),
            _ => None,
        })
        .collect()
}

fn simple_loop(flip_if: bool) -> IrOpcode {
    IrOpcode::ControlLoop {
        condition: step(vec![other(1)]),
        first_condition: None,
        body: step(vec![other(2)]),
        pre_body: None,
        flip_if,
    }
}

#[test]
fn a_loop_becomes_its_condition_and_an_if_that_runs_the_body_then_the_loop() {
    let unrolled = unroll_loops_in_step(&step(vec![other(0), simple_loop(false)]));
    assert_eq!(unrolled.opcodes.len(), 3);
    assert!(matches!(unrolled.opcodes[0], IrOpcode::Other { code: 0 }));
    assert!(matches!(unrolled.opcodes[1], IrOpcode::Other { code: 1 }));
    match &unrolled.opcodes[2] {
        IrOpcode::ControlIfElse { branch_if, branch_else } => {
            assert!(branch_else.opcodes.is_empty());
            assert_eq!(branch_if.opcodes.len(), 2);
            assert!(matches!(branch_if.opcodes[0], IrOpcode::Other { code: 2 }));
            match &branch_if.opcodes[1] {
                IrOpcode::ControlLoop { condition, first_condition, body, pre_body, flip_if } => {
                    assert_eq!(codes(condition), vec![Some(1)]);
                    assert!(first_condition.is_none());
                    assert_eq!(codes(body), vec![Some(2)]);
                    assert!(pre_body.is_none());
                    assert!(!flip_if);
                }
                _ => panic!("expected the loop at the end of the if-branch"),
            }
        }
        _ => panic!("expected an if/else"),
    }
}

#[test]
fn a_flipped_loop_tests_its_first_condition_negated_and_runs_its_pre_body() {
    let looped = IrOpcode::ControlLoop {
        condition: step(vec![other(1)]),
        first_condition: Some(step(vec![other(3)])),
        body: step(vec![other(2)]),
        pre_body: Some(step(vec![other(4)])),
        flip_if: true,
    };
    let unrolled = unroll_loops_in_step(&step(vec![looped]));
    assert_eq!(unrolled.opcodes.len(), 3);
    assert!(matches!(unrolled.opcodes[0], IrOpcode::Other { code: 3 }));
    assert!(matches!(unrolled.opcodes[1], IrOpcode::OperatorNot));
    match &unrolled.opcodes[2] {
        IrOpcode::ControlIfElse { branch_if, branch_else } => {
            assert!(branch_else.opcodes.is_empty());
            assert_eq!(branch_if.opcodes.len(), 3);
            assert!(matches!(branch_if.opcodes[0], IrOpcode::Other { code: 4 }));
            assert!(matches!(branch_if.opcodes[1], IrOpcode::Other { code: 2 }));
            match &branch_if.opcodes[2] {
                IrOpcode::ControlLoop { condition, first_condition, pre_body, flip_if, .. } => {
                    assert_eq!(codes(condition), vec![Some(1)]);
                    assert!(first_condition.is_none());
                    assert_eq!(pre_body.as_ref().map(codes), Some(vec![Some(4)]));
                    assert!(*flip_if);
                }
                _ => panic!("expected the loop at the end of the if-branch"),
            }
        }
        _ => panic!("expected an if/else"),
    }
}

#[test]
fn a_loop_inside_a_body_is_unrolled_in_both_copies_of_the_body() {
    let outer = IrOpcode::ControlLoop {
        condition: step(vec![other(5)]),
        first_condition: None,
        body: step(vec![simple_loop(false)]),
        pre_body: None,
        flip_if: false,
    };
    let unrolled = unroll_loops_in_step(&step(vec![outer]));
    assert_eq!(unrolled.opcodes.len(), 2);
    match &unrolled.opcodes[1] {
        IrOpcode::ControlIfElse { branch_if, .. } => {
            // the copied body: the inner loop's condition and its if/else
            assert_eq!(branch_if.opcodes.len(), 3);
            assert!(matches!(branch_if.opcodes[0], IrOpcode::Other { code: 1 }));
            assert!(matches!(branch_if.opcodes[1], IrOpcode::ControlIfElse { .. }));
            match &branch_if.opcodes[2] {
                IrOpcode::ControlLoop { body, .. } => {
                    assert_eq!(body.opcodes.len(), 2);
                    assert!(matches!(body.opcodes[1], IrOpcode::ControlIfElse { .. }));
                }
                _ => panic!("expected the outer loop"),
            }
        }
        _ => panic!("expected an if/else"),
    }
}

#[test]
fn steps_without_loops_are_unchanged_and_rounds_repeat_the_unrolling() {
    let mut proj = IrProject {
        steps: vec![step(vec![other(7), other(8)]), step(vec![simple_loop(false)])],
    };
    unroll_loops(&mut proj, 0);
    assert_eq!(codes(&proj.steps[0]), vec![Some(7), Some(8)]);
    assert_eq!(proj.steps[1].opcodes.len(), 1);

    unroll_loops(&mut proj, 2);
    assert_eq!(codes(&proj.steps[0]), vec![Some(7), Some(8)]);
    // second round: the loop left at the end of the if-branch is unrolled again
    match &proj.steps[1].opcodes[1] {
        IrOpcode::ControlIfElse { branch_if, .. } => {
            assert_eq!(branch_if.opcodes.len(), 3);
            assert!(matches!(branch_if.opcodes[1], IrOpcode::Other { code: 1 }));
            assert!(matches!(branch_if.opcodes[2], IrOpcode::ControlIfElse { .. }));
        }
        _ => panic!("expected an if/else"),
    }
}
