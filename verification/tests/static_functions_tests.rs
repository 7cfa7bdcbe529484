use hyperquark::registry::{NamedRegistry, NamedRegistryItem};
use hyperquark::wasm::registries::functions::dyn_array::{
    DynArrayClear, DynArrayGet, DynArrayLayout, DynArrayLen, DynArrayNew, DynArrayPop, DynArrayPush,
    DynArraySet,
};
use hyperquark::wasm::registries::functions::mark_waiting_flag::MarkWaitingFlag;
use hyperquark::wasm::registries::functions::spawn_threads::{
    SpawnLayout, SpawnNewThread, SpawnThreadInStack,
};
use hyperquark::wasm::registries::functions::tick::{Tick, TickLayout};
use hyperquark::wasm::registries::functions::unreachable_dbg::UnreachableDbg;
use hyperquark::wasm::registries::functions::{
    MaybeStaticFunction, MemArg, Populate, RegisterDeps, StaticFunction, StaticFunctionError,
    StaticFunctionRegistrar, WasmInstr,
};
use hyperquark::wasm::registries::types::{TNullable, TStackArray, TStackStruct};
use hyperquark::wasm::registries::types::registry::TypeRegistry;
use hyperquark::wasm::types::{HeapType, RefType, ValType};

/// Counts the blocks that a body leaves open, the function's own included,
/// failing on an `end` with none open.
fn open_blocks(body: &[WasmInstr]) -> Option<i64> {
    let mut depth = 1i64;
    for ins in body {
        if depth < 1 {
            return None;
        }
        match ins {
            WasmInstr::Loop | WasmInstr::If => depth += 1,
            WasmInstr::End => depth -= 1,
            _ => {}
        }
    }
    Some(depth)
}

fn nn(i: u32) -> ValType {
    ValType::Ref(RefType { nullable: false, heap_type: HeapType::Concrete(i) })
}

fn layout() -> DynArrayLayout {
    DynArrayLayout { struct_type: 3, array_type: 2, element: ValType::I32 }
}

#[test]
fn unreachable_dbg_traps_and_is_exported() {
    let f = UnreachableDbg::populate();
    assert_eq!(f.instructions, vec![WasmInstr::Unreachable, WasmInstr::End]);
    assert_eq!(f.export.as_deref(), Some("unreachable_dbg"));
    assert!(f.params.is_empty() && f.returns.is_empty() && f.locals.is_empty());
}

#[test]
fn mark_waiting_flag_sets_the_flag() {
    let f = MarkWaitingFlag::populate(7);
    assert_eq!(
        f.instructions,
        vec![
            WasmInstr::LocalGet(0),
            WasmInstr::I32Const(1),
            WasmInstr::StructSet { struct_type_index: 7, field_index: 0 },
            WasmInstr::End
        ]
    );
    assert_eq!(f.params, vec![nn(7)]);
    assert_eq!(f.export.as_deref(), Some("mark_waiting_flag"));
}

#[test]
fn mark_waiting_flag_registers_its_struct() {
    let mut types = TypeRegistry::default();
    let f = MarkWaitingFlag::populate_in(&mut types).unwrap();
    assert_eq!(types.len(), 1);
    assert_eq!(f.params, vec![nn(0)]);
    let again = MarkWaitingFlag::populate_in(&mut types).unwrap();
    assert_eq!(types.len(), 1);
    assert_eq!(again.instructions, f.instructions);
}

#[test]
fn dyn_array_functions_have_their_signatures() {
    let l = layout();
    let push = DynArrayPush::<()>::populate(l);
    assert_eq!(push.params, vec![nn(3), ValType::I32]);
    assert_eq!(push.locals, vec![ValType::I32, nn(2)]);
    assert!(push.returns.is_empty());
    assert_eq!(push.instructions.len(), 34);
    assert_eq!(open_blocks(&push.instructions), Some(0));

    let get = DynArrayGet::<()>::populate(l);
    assert_eq!(get.params, vec![nn(3), ValType::I32]);
    assert_eq!(get.returns, vec![ValType::I32]);
    assert_eq!(
        get.instructions,
        vec![
            WasmInstr::LocalGet(0),
            WasmInstr::StructGet { struct_type_index: 3, field_index: 0 },
            WasmInstr::LocalGet(1),
            WasmInstr::ArrayGet(2),
            WasmInstr::End
        ]
    );

    let set = DynArraySet::<()>::populate(l);
    assert_eq!(set.params, vec![nn(3), ValType::I32, ValType::I32]);
    let pop = DynArrayPop::<()>::populate(l);
    assert_eq!(pop.locals, vec![ValType::I32]);
    let new = DynArrayNew::<()>::populate(l);
    assert_eq!(new.params, vec![ValType::I32]);
    assert_eq!(new.returns, vec![nn(3)]);
    let len = DynArrayLen::<()>::populate(l);
    assert_eq!(len.returns, vec![ValType::I32]);
    let clear = DynArrayClear::<()>::populate(l);
    assert_eq!(clear.instructions.len(), 4);
    for f in [&push, &get, &set, &pop, &new, &len, &clear] {
        assert_eq!(open_blocks(&f.instructions), Some(0));
        assert!(f.export.is_none());
    }
}

fn tick_layout(targets_num: i32) -> TickLayout {
    TickLayout {
        threadss_global: 1,
        target_threads_array_type: 2,
        target_thread_struct_type: 3,
        stack_struct_type: 4,
        step_func_type: 5,
        stack_struct_array_heap_type: HeapType::Concrete(6),
        stack_array_len_fn: 10,
        stack_array_get_fn: 11,
        stack_struct_len_fn: 12,
        stack_struct_get_fn: 13,
        targets_num,
        thread_array_ref: nn(7),
        stack_array_ref: nn(8),
        stack_struct_ref: nn(9),
    }
}

#[test]
fn tick_loops_over_targets_and_threads() {
    let f = Tick::populate(tick_layout(3)).unwrap();
    assert_eq!(f.export.as_deref(), Some("tick"));
    assert_eq!(f.instructions.len(), 49);
    assert_eq!(f.instructions[0], WasmInstr::Loop);
    assert_eq!(f.instructions[1], WasmInstr::GlobalGet(1));
    assert!(f.instructions.contains(&WasmInstr::I32Const(3)));
    assert!(f.instructions.contains(&WasmInstr::CallRef(5)));
    assert_eq!(f.locals, vec![ValType::I32, ValType::I32, ValType::I32, nn(7), nn(8), nn(9)]);
    assert_eq!(open_blocks(&f.instructions), Some(0));
}

#[test]
fn tick_needs_a_target() {
    assert_eq!(Tick::populate(tick_layout(0)).err(), Some(StaticFunctionError::NoTargets));
    assert_eq!(Tick::populate(tick_layout(-1)).err(), Some(StaticFunctionError::NoTargets));
}

fn spawn_layout() -> SpawnLayout {
    SpawnLayout {
        target_threads_global: 1,
        target_threads_type: 2,
        stack_struct_type: 3,
        stack_struct_heap_type: HeapType::Concrete(3),
        step_func_ref: nn(4),
        stack_struct_ref: ValType::Ref(RefType { nullable: true, heap_type: HeapType::Concrete(3) }),
        stack_array_ref: nn(5),
        thread_array_ref: nn(6),
        stack_array_get_fn: 20,
        stack_array_push_fn: 21,
        stack_struct_new_fn: 22,
        stack_struct_push_fn: 23,
        stack_struct_pop_fn: 24,
        layer_offset: 74,
    }
}

#[test]
fn spawning_reads_the_sprites_layer_after_the_stage() {
    let f = SpawnNewThread::populate(spawn_layout());
    assert_eq!(f.instructions[4], WasmInstr::I32Const(80));
    assert_eq!(
        f.instructions[6],
        WasmInstr::I32Load16U(MemArg { offset: 82, align: 1, memory_index: 0 })
    );
    assert_eq!(f.params.len(), 3);
    assert_eq!(open_blocks(&f.instructions), Some(0));
    let g = SpawnThreadInStack::populate(spawn_layout());
    assert_eq!(g.params.len(), 5);
    assert_eq!(g.locals, vec![nn(5)]);
    // This body leaves the function's own block open.
    assert_eq!(open_blocks(&g.instructions), Some(1));
}

#[test]
fn registering_deps_registers_the_ticks_helpers() {
    let mut reg: NamedRegistry<StaticFunctionRegistrar> = NamedRegistry::default();
    let tick: usize = reg.register::<Tick, usize>().unwrap();
    let _: usize = reg.register::<UnreachableDbg, usize>().unwrap();
    assert_eq!(tick, 0);
    reg.register_deps();
    assert_eq!(reg.registry().len(), 6);
    let helper = DynArrayLen::<TNullable<TStackArray>>::name();
    assert_eq!(reg.registry().get_index_of(&helper), Some(2));
    let getter = DynArrayGet::<TNullable<TStackStruct>>::name();
    assert_eq!(reg.registry().get_index_of(&getter), Some(5));
    assert_eq!(
        helper,
        "hyperquark::wasm::registries::functions::dyn_array::DynArrayLen<hyperquark::wasm::registries::types::TNullable<hyperquark::wasm::registries::types::TStackArray>>"
    );
    // Registering again changes nothing.
    reg.register_deps();
    assert_eq!(reg.registry().len(), 6);
}

#[test]
fn call_index_counts_imported_functions() {
    let mut reg: NamedRegistry<StaticFunctionRegistrar> = NamedRegistry::default();
    let _: usize = reg.register::<UnreachableDbg, usize>().unwrap();
    let _: usize = reg.register::<MarkWaitingFlag, usize>().unwrap();
    let name = MarkWaitingFlag::name();
    assert_eq!(reg.call_index(&name, 5), Ok(6));
    assert_eq!(reg.call_index(&"missing".to_string(), 5), Err(StaticFunctionError::NotRegistered));
    assert_eq!(reg.call_index(&name, u32::MAX), Err(StaticFunctionError::IndexOutOfBounds));
}

#[test]
fn finishing_needs_every_body() {
    let mut reg: NamedRegistry<StaticFunctionRegistrar> = NamedRegistry::default();
    let _: usize = reg.register::<UnreachableDbg, usize>().unwrap();
    let _: usize = reg.register::<MarkWaitingFlag, usize>().unwrap();
    let _: usize = reg
        .override_dyn(
            UnreachableDbg::name(),
            MaybeStaticFunction {
                static_function: Some(UnreachableDbg::populate()),
                register_deps: RegisterDeps::Nothing, maybe_populate: Populate::Never,
            },
        )
        .unwrap();
    let unfinished = NamedRegistry::<StaticFunctionRegistrar>::default();
    let (empty, no_exports): (Vec<StaticFunction>, Vec<(String, u32)>) =
        unfinished.finish(0, &mut TypeRegistry::default()).unwrap();
    assert!(empty.is_empty());
    assert!(no_exports.is_empty());
    assert_eq!(reg.finish(0, &mut TypeRegistry::default()).err(), Some(StaticFunctionError::NotPopulated));

    let mut reg2: NamedRegistry<StaticFunctionRegistrar> = NamedRegistry::default();
    let _: usize = reg2.register::<UnreachableDbg, usize>().unwrap();
    let _: usize = reg2.register::<MarkWaitingFlag, usize>().unwrap();
    for (name, body) in [
        (UnreachableDbg::name(), UnreachableDbg::populate()),
        (MarkWaitingFlag::name(), MarkWaitingFlag::populate(1)),
    ] {
        let _: usize = reg2
            .override_dyn(
                name,
                MaybeStaticFunction { static_function: Some(body), register_deps: RegisterDeps::Nothing, maybe_populate: Populate::Never },
            )
            .unwrap();
    }
    let (bodies, exports) = reg2.finish(3, &mut TypeRegistry::default()).unwrap();
    assert_eq!(bodies.len(), 2);
    assert_eq!(bodies[0].export.as_deref(), Some("unreachable_dbg"));
    assert_eq!(bodies[1].export.as_deref(), Some("mark_waiting_flag"));
    assert_eq!(
        exports,
        vec![("unreachable_dbg".to_string(), 3), ("mark_waiting_flag".to_string(), 4)]
    );
}

fn nullable(i: u32) -> ValType {
    ValType::Ref(RefType { nullable: true, heap_type: HeapType::Concrete(i) })
}

#[test]
fn finishing_makes_the_dynamic_array_helpers_with_their_types() {
    let mut reg: NamedRegistry<StaticFunctionRegistrar> = NamedRegistry::default();
    let _: usize = reg.register::<DynArrayLen<TNullable<TStackArray>>, usize>().unwrap();
    let _: usize = reg.register::<DynArrayGet<TNullable<TStackStruct>>, usize>().unwrap();
    let mut types = TypeRegistry::default();
    let (bodies, exports) = reg.finish(0, &mut types).unwrap();
    assert!(exports.is_empty());
    assert_eq!(bodies.len(), 2);
    // The stack's group stands at 0 to 3; a target's threads are a dynamic
    // array of nullable stacks, registered after it.
    assert_eq!(types.len(), 6);
    assert_eq!(bodies[0].params, vec![nn(5)]);
    assert_eq!(bodies[0].returns, vec![ValType::I32]);
    // A stack is the group's own dynamic array of nullable frames.
    assert_eq!(bodies[1].params, vec![nn(2), ValType::I32]);
    assert_eq!(bodies[1].returns, vec![nullable(1)]);
    assert_eq!(open_blocks(&bodies[1].instructions), Some(0));
}

#[test]
fn finishing_makes_the_helpers_that_the_tick_needs() {
    let mut reg: NamedRegistry<StaticFunctionRegistrar> = NamedRegistry::default();
    let _: usize = reg.register::<Tick, usize>().unwrap();
    let _: usize = reg
        .override_dyn(
            Tick::name(),
            MaybeStaticFunction {
                static_function: Some(Tick::populate(tick_layout(2)).unwrap()),
                register_deps: RegisterDeps::TickHelpers,
                maybe_populate: Populate::Never,
            },
        )
        .unwrap();
    let (bodies, exports) = reg.finish(1, &mut TypeRegistry::default()).unwrap();
    assert_eq!(bodies.len(), 5);
    assert_eq!(exports, vec![("tick".to_string(), 1)]);
    assert_eq!(bodies[1].returns, vec![ValType::I32]);
    assert_eq!(bodies[2].returns, vec![nullable(2)]);
}
