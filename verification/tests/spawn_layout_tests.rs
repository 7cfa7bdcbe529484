use hyperquark::registry::{NamedRegistry, NamedRegistryItem};
use hyperquark::wasm::registries::functions::dyn_array::{DynArrayGet, DynArrayNew, DynArrayPop, DynArrayPush};
use hyperquark::wasm::registries::functions::spawn_threads::{SpawnNewThread, SpawnThreadInStack};
use hyperquark::wasm::registries::functions::{MaybeStaticFunction, StaticFunctionRegistrar, WasmInstr};
use hyperquark::wasm::registries::globals::GlobalRegistry;
use hyperquark::wasm::registries::types::registry::{
    compound_eq, CompoundType, FieldType, StorageType, TypeRegistry, TypeSectionEntry,
};
use hyperquark::wasm::registries::types::stack::{register_stack_group, stack_member};
use hyperquark::wasm::registries::types::{TNullable, TStackArray, TStackStruct};
use hyperquark::wasm::types::{AbstractHeapType, HeapType, RefType, ValType};

fn conc(i: u32, nullable: bool) -> ValType {
    ValType::Ref(RefType { nullable, heap_type: HeapType::Concrete(i) })
}

fn field(v: ValType, mutable: bool) -> FieldType {
    FieldType { element_type: StorageType::Val(v), mutable }
}

fn struct_ref() -> ValType {
    ValType::Ref(RefType {
        nullable: true,
        heap_type: HeapType::Abstract { shared: false, ty: AbstractHeapType::Struct },
    })
}

#[test]
fn the_stack_group_is_registered_once_with_its_four_types() {
    let mut types = TypeRegistry::default();
    let _: u32 = types.array(StorageType::I8, true).unwrap();
    register_stack_group(&mut types).unwrap();
    assert_eq!(types.len(), 5);
    register_stack_group(&mut types).unwrap();
    assert_eq!(types.len(), 5);
    assert_eq!(stack_member(&mut types, 0).unwrap(), 1);
    assert_eq!(stack_member(&mut types, 1).unwrap(), 2);
    assert_eq!(stack_member(&mut types, 2).unwrap(), 3);
    let section = types.finish();
    assert_eq!(section.len(), 2);
    match &section[1] {
        TypeSectionEntry::Rec(g) => {
            let g = g.as_ref();
            assert_eq!(g.name, "rec_grp");
            assert_eq!(g.types.len(), 4);
            // The group starts at index 1.
            let step = CompoundType::Function(vec![conc(3, false), struct_ref()], vec![]);
            let frame = CompoundType::Struct(vec![field(conc(1, false), true), field(struct_ref(), false)]);
            let stack = CompoundType::Struct(vec![field(conc(4, false), true), field(ValType::I32, true)]);
            let frames = CompoundType::Array(StorageType::Val(conc(2, true)), true);
            assert!(compound_eq(&g.types[0], &step));
            assert!(compound_eq(&g.types[1], &frame));
            assert!(compound_eq(&g.types[2], &stack));
            assert!(compound_eq(&g.types[3], &frames));
        }
        _ => panic!("expected the stack's group"),
    }
}

#[test]
fn a_frames_array_registered_alone_is_not_repeated_in_the_group() {
    let mut types = TypeRegistry::default();
    // The array of frames for a group that will start at index 1.
    let arr: u32 = types.array(StorageType::Val(conc(2, true)), true).unwrap();
    assert_eq!(arr, 0);
    register_stack_group(&mut types).unwrap();
    assert_eq!(types.len(), 4);
    let section = types.finish();
    match &section[1] {
        TypeSectionEntry::Rec(g) => {
            let g = g.as_ref();
            assert_eq!(g.types.len(), 3);
            let stack = CompoundType::Struct(vec![field(conc(0, false), true), field(ValType::I32, true)]);
            assert!(compound_eq(&g.types[2], &stack));
        }
        _ => panic!("expected the stack's group"),
    }
}

#[test]
fn spawning_a_new_thread_takes_its_types_from_the_registries() {
    let mut types = TypeRegistry::default();
    let mut globals = GlobalRegistry::default();
    let mut functions: NamedRegistry<StaticFunctionRegistrar> = NamedRegistry::default();
    let m: MaybeStaticFunction =
        SpawnNewThread::try_override(&mut types, &mut globals, &mut functions, 2, 5, 74).unwrap();
    let f = m.static_function.unwrap();
    // The group at 0 to 3, then the thread array's array, the thread array,
    // a target's threads and the array of every target's threads.
    assert_eq!(types.len(), 8);
    assert_eq!(f.params, vec![ValType::I32, conc(0, false), conc(1, true)]);
    assert_eq!(f.locals, vec![conc(5, false)]);
    assert!(f.returns.is_empty());
    assert!(f.export.is_none());
    assert_eq!(f.instructions[9], WasmInstr::GlobalGet(0));
    assert_eq!(f.instructions[11], WasmInstr::ArrayGet(7));
    assert_eq!(f.instructions[13], WasmInstr::Call(5));
    assert_eq!(f.instructions[17], WasmInstr::StructNew(1));
    assert_eq!(f.instructions[18], WasmInstr::Call(6));
    assert_eq!(f.instructions[20], WasmInstr::Call(7));
    let (names, _) = functions.take();
    assert_eq!(
        names,
        vec![
            DynArrayNew::<TNullable<TStackStruct>>::name(),
            DynArrayPush::<TNullable<TStackStruct>>::name(),
            DynArrayPush::<TNullable<TStackArray>>::name(),
        ]
    );
}

#[test]
fn spawning_in_the_stack_registers_its_helpers_in_order() {
    let mut types = TypeRegistry::default();
    let mut globals = GlobalRegistry::default();
    let mut functions: NamedRegistry<StaticFunctionRegistrar> = NamedRegistry::default();
    let m = SpawnThreadInStack::try_override(&mut types, &mut globals, &mut functions, 0, 1, 74).unwrap();
    let f = m.static_function.unwrap();
    assert_eq!(
        f.params,
        vec![ValType::I32, ValType::I32, conc(0, false), conc(1, true), conc(0, false)]
    );
    assert_eq!(f.locals, vec![conc(2, false)]);
    assert_eq!(f.instructions[13], WasmInstr::Call(2));
    assert_eq!(f.instructions[15], WasmInstr::Call(3));
    assert_eq!(f.instructions[21], WasmInstr::Call(1));
    let (names, _) = functions.take();
    assert_eq!(
        names,
        vec![
            DynArrayPush::<TNullable<TStackStruct>>::name(),
            DynArrayGet::<TNullable<TStackArray>>::name(),
            DynArrayPop::<TNullable<TStackStruct>>::name(),
        ]
    );
}
