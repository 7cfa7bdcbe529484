use hyperquark::wasm::func::{EvalContext, EvalError, Instruction};
use hyperquark::wasm::project::Event;
use hyperquark::wasm::registries::functions::WasmInstr;
use hyperquark::wasm::registries::types::registry::TypeRegistry;
use hyperquark::wasm::types::{AbstractHeapType, HeapType};

fn ctx() -> EvalContext {
    EvalContext {
        threads_count_global: 1,
        spawn_new_thread_func: 2,
        spawn_thread_in_stack_func: 3,
        threads_table: 4,
        imported_func_count: 10,
        static_func_count: 5,
        imported_global_count: 20,
    }
}

fn events() -> Vec<(Event, Vec<u32>)> {
    vec![
        (Event::FlagClicked, vec![9]),
        (Event::Broadcast("go".to_string()), vec![0, 2]),
    ]
}

fn null_struct() -> WasmInstr {
    WasmInstr::RefNull(HeapType::Abstract { shared: false, ty: AbstractHeapType::Struct })
}

#[test]
fn lazy_indices_count_the_functions_and_globals_before_them() {
    let mut types = TypeRegistry::default();
    let e = events();
    assert_eq!(
        Instruction::LazyStepRef(3).eval(&e, &mut types, ctx()).unwrap(),
        vec![WasmInstr::RefFunc(18)]
    );
    assert_eq!(
        Instruction::LazyWarpedProcCall(1).eval(&e, &mut types, ctx()).unwrap(),
        vec![WasmInstr::Call(16)]
    );
    assert_eq!(
        Instruction::LazyGlobalGet(2).eval(&e, &mut types, ctx()).unwrap(),
        vec![WasmInstr::GlobalGet(22)]
    );
    assert_eq!(
        Instruction::LazyGlobalSet(0).eval(&e, &mut types, ctx()).unwrap(),
        vec![WasmInstr::GlobalSet(20)]
    );
    assert_eq!(
        Instruction::StaticFunctionCall(4).eval(&e, &mut types, ctx()).unwrap(),
        vec![WasmInstr::Call(14)]
    );
    assert_eq!(
        Instruction::Immediate(WasmInstr::I32Add).eval(&e, &mut types, ctx()).unwrap(),
        vec![WasmInstr::I32Add]
    );
    assert_eq!(types.len(), 0);
}

#[test]
fn step_indices_beyond_u32_are_refused() {
    let mut types = TypeRegistry::default();
    let big = u32::MAX as usize + 1;
    if big > u32::MAX as usize {
        assert_eq!(
            Instruction::LazyStepRef(big).eval(&vec![], &mut types, ctx()).err(),
            Some(EvalError::IndexOutOfBounds)
        );
    }
}

#[test]
fn spawning_a_broadcast_spawns_its_threads_and_counts_them() {
    let mut types = TypeRegistry::default();
    let out = Instruction::LazyBroadcastSpawn("go".to_string())
        .eval(&events(), &mut types, ctx())
        .unwrap();
    assert_eq!(
        out,
        vec![
            WasmInstr::RefFunc(15),
            null_struct(),
            WasmInstr::Call(12),
            WasmInstr::RefFunc(17),
            null_struct(),
            WasmInstr::Call(12),
            WasmInstr::GlobalGet(21),
            WasmInstr::I32Const(2),
            WasmInstr::I32Add,
            WasmInstr::GlobalSet(21),
        ]
    );
    let none = Instruction::LazyBroadcastSpawn("other".to_string())
        .eval(&events(), &mut types, ctx())
        .unwrap();
    assert_eq!(none.len(), 4);
    assert_eq!(none[1], WasmInstr::I32Const(0));
}

#[test]
fn waiting_for_a_broadcast_registers_its_types_and_polls() {
    let mut types = TypeRegistry::default();
    let out = Instruction::LazyBroadcastSpawnAndWait("go".to_string(), 6, 7, 3)
        .eval(&events(), &mut types, ctx())
        .unwrap();
    assert_eq!(types.len(), 2);
    assert_eq!(out[0], WasmInstr::I32Const(2));
    assert_eq!(out[1], WasmInstr::ArrayNewDefault(0));
    assert_eq!(out[2], WasmInstr::LocalSet(3));
    assert_eq!(out[4], WasmInstr::I32Const(0));
    assert_eq!(out[5], WasmInstr::TableSize(4));
    assert_eq!(out[6], WasmInstr::ArraySet(0));
    assert_eq!(out.len(), 3 + 14 + 4 + 5);
    assert_eq!(
        out[out.len() - 5..].to_vec(),
        vec![
            WasmInstr::RefFunc(21),
            WasmInstr::LocalGet(3),
            WasmInstr::StructNew(1),
            WasmInstr::RefFunc(22),
            WasmInstr::Call(13),
        ]
    );
}

use hyperquark::ir::RcVar;
use hyperquark::wasm::flags::WasmFlags;
use hyperquark::wasm::func::{StepFunc, StepTarget};
use hyperquark::wasm::types::ValType;

#[test]
fn step_functions_number_locals_after_their_parameters() {
    let flags = WasmFlags::new(vec![]);
    let mut f = StepFunc::new(flags, StepTarget::Sprite(1), 2);
    assert_eq!(f.params, vec![ValType::I32]);
    assert_eq!(f.local(ValType::I64), Ok(1));
    let v = RcVar { id: 40, possible_types: 1 };
    assert_eq!(f.local_variable(&v, ValType::F64), Ok(2));
    assert_eq!(f.local_variable(&v, ValType::F64), Ok(2));
    assert_eq!(f.locals, vec![ValType::I64, ValType::F64]);
    let w = RcVar { id: 41, possible_types: 1 };
    assert_eq!(f.local_variable(&w, ValType::I32), Ok(3));
}

#[test]
fn finishing_a_step_evaluates_and_ends_its_instructions() {
    let flags = WasmFlags::new(vec![]);
    let mut f = StepFunc::new_with_types(vec![ValType::I32], vec![], flags, StepTarget::Stage, 0);
    f.add_instructions(vec![
        Instruction::LazyGlobalGet(1),
        Instruction::Immediate(WasmInstr::Drop),
        Instruction::StaticFunctionCall(0),
    ]);
    let mut types = TypeRegistry::default();
    let done = f.finish(&events(), &mut types, ctx()).unwrap();
    assert_eq!(
        done.instructions,
        vec![WasmInstr::GlobalGet(21), WasmInstr::Drop, WasmInstr::Call(10), WasmInstr::End]
    );
    assert_eq!(done.type_index, 0);
    assert_eq!(types.len(), 1);
}
