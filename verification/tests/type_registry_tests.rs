use hyperquark::rc::Rc;
use hyperquark::wasm::registries::functions::dyn_array::dyn_array_layout;
use hyperquark::wasm::registries::types::registration::{RegTypeList, TRecGroupType};
use hyperquark::wasm::registries::types::registry::{
    compound_eq, immediate_deps_of, immediate_val_dep, CompoundType, FieldType, RecGroup,
    RecGroupRegistry, RegistryItem, StorageType, TypeRegistry, TypeSectionEntry,
};
use hyperquark::wasm::registries::types::{
    TArray, TConstField, TFunc, TI32, TMutField, TNonNullable, TNullable, TStruct, TStructRef,
};
use hyperquark::wasm::types::{AbstractHeapType, HeapType, RefType, ValType};

type Pair = TStruct<(TMutField<TI32>, (TConstField<TI32>, ()))>;
type Arr = TArray<TMutField<TNonNullable<Pair>>>;
type F = TFunc<(TNonNullable<Arr>, ()), (TI32, ())>;

fn conc(i: u32, nullable: bool) -> ValType {
    ValType::Ref(RefType { nullable, heap_type: HeapType::Concrete(i) })
}

fn field(v: ValType, mutable: bool) -> FieldType {
    FieldType { element_type: StorageType::Val(v), mutable }
}

#[test]
fn registering_a_type_twice_gives_one_entry() {
    let mut types = TypeRegistry::default();
    let a: u32 = types.function(vec![ValType::I32], vec![]).unwrap();
    let b: u32 = types.array(StorageType::I8, true).unwrap();
    let a2: u32 = types.function(vec![ValType::I32], vec![]).unwrap();
    assert_eq!((a, b, a2), (0, 1, 0));
    assert_eq!(types.len(), 2);
    let c: u32 = types.function(vec![ValType::I64], vec![]).unwrap();
    assert_eq!(c, 2);
    let s: u32 = types.struct_(vec![field(conc(1, false), true)]).unwrap();
    assert_eq!(s, 3);
}

#[test]
fn immediate_dependencies_are_the_concrete_references() {
    assert_eq!(immediate_val_dep(&conc(4, true)), Some(4));
    assert_eq!(immediate_val_dep(&ValType::I32), None);
    let func = CompoundType::Function(vec![conc(1, false), ValType::I32], vec![conc(2, true)]);
    assert_eq!(immediate_deps_of(&func), vec![1, 2]);
    let st = CompoundType::Struct(vec![
        FieldType { element_type: StorageType::I8, mutable: true },
        field(conc(7, true), false),
    ]);
    assert_eq!(immediate_deps_of(&st), vec![7]);
    let arr = CompoundType::Array(StorageType::Val(conc(3, false)), true);
    assert_eq!(immediate_deps_of(&arr), vec![3]);
    assert!(compound_eq(&arr, &CompoundType::Array(StorageType::Val(conc(3, false)), true)));
    assert!(!compound_eq(&arr, &st));
}

fn group() -> RecGroup {
    RecGroup {
        name: "rec_grp".to_string(),
        types: vec![
            CompoundType::Struct(vec![field(conc(1, true), true)]),
            CompoundType::Array(StorageType::Val(conc(0, true)), true),
        ],
    }
}

#[test]
fn a_type_held_by_a_group_it_refers_to_is_found_in_the_group() {
    let mut types = TypeRegistry::default();
    types.register_rec_group(group());
    assert_eq!(types.len(), 2);
    // The group's first type refers to the group's second type, at index 1.
    let found: u32 = types
        .register_compound_type(CompoundType::Struct(vec![field(conc(1, true), true)]))
        .unwrap();
    assert_eq!(found, 0);
    assert_eq!(types.len(), 2);
    // Registering the group again changes nothing.
    types.register_rec_group(group());
    assert_eq!(types.len(), 2);
    // A type that the group does not hold is registered on its own.
    let other: u32 = types.struct_(vec![field(conc(1, false), true)]).unwrap();
    assert_eq!(other, 2);
}

#[test]
fn finishing_gives_each_group_once() {
    let mut types = TypeRegistry::default();
    let _: u32 = types.function(vec![], vec![]).unwrap();
    types.register_rec_group(group());
    let _: u32 = types.array(StorageType::I16, false).unwrap();
    let section = types.finish();
    assert_eq!(section.len(), 3);
    assert!(matches!(section[0], TypeSectionEntry::Sub(CompoundType::Function(_, _))));
    match &section[1] {
        TypeSectionEntry::Rec(g) => {
            assert_eq!(g.as_ref().name, "rec_grp");
            assert_eq!(g.as_ref().types.len(), 2);
        }
        _ => panic!("expected the group"),
    }
    assert!(matches!(section[2], TypeSectionEntry::Sub(CompoundType::Array(StorageType::I16, false))));
}

#[test]
fn registry_items_compare_groups_by_name() {
    let mut types = TypeRegistry::default();
    let g = Rc::new(group());
    let i: usize = types.register_default(RegistryItem::RecGroupItem(g.clone(), 0)).unwrap();
    let j: usize = types.register_default(RegistryItem::RecGroupItem(g.clone(), 0)).unwrap();
    assert_eq!((i, j), (0, 0));
    assert_eq!(types.index_of(&RegistryItem::RecGroupItem(g, 1)), None);
}

#[test]
fn rec_group_registry_places_new_types_after_the_groups_own() {
    let mut types = TypeRegistry::default();
    let _: u32 = types.function(vec![], vec![]).unwrap();
    let mut rg = RecGroupRegistry { rec_group_start: 1, main_rec_types_num: 2, rec_type_deps: vec![] };
    let existing: u32 = rg.register(&types, CompoundType::Function(vec![], vec![])).unwrap();
    assert_eq!(existing, 0);
    let new: u32 = rg.register(&types, CompoundType::Array(StorageType::I8, true)).unwrap();
    assert_eq!(new, 3);
    let again: u32 = rg.register(&types, CompoundType::Array(StorageType::I8, true)).unwrap();
    assert_eq!(again, 0);
    let second: u32 = rg.register(&types, CompoundType::Array(StorageType::I16, true)).unwrap();
    assert_eq!(second, 4);
    assert_eq!(rg.rec_type_deps.len(), 2);
}

#[test]
fn type_level_descriptions_register_their_types() {
    let mut types = TypeRegistry::default();
    assert_eq!(<TI32 as TRecGroupType<ValType>>::rec_group_ty(&mut types).unwrap(), ValType::I32);
    assert_eq!(
        <TStructRef as TRecGroupType<HeapType>>::rec_group_ty(&mut types).unwrap(),
        HeapType::Abstract { shared: false, ty: AbstractHeapType::Struct }
    );
    let pair: u32 = <Pair as TRecGroupType<u32>>::rec_group_ty(&mut types).unwrap();
    assert_eq!(pair, 0);
    let pair_ref = <TNullable<Pair> as TRecGroupType<ValType>>::rec_group_ty(&mut types).unwrap();
    assert_eq!(pair_ref, conc(0, true));
    let arr: u32 = <Arr as TRecGroupType<u32>>::rec_group_ty(&mut types).unwrap();
    assert_eq!(arr, 1);
    let f: u32 = <F as TRecGroupType<u32>>::rec_group_ty(&mut types).unwrap();
    assert_eq!(f, 2);
    assert_eq!(types.len(), 3);
    let params = <(TI32, (TNullable<Pair>, ())) as RegTypeList<ValType>>::register_each(&mut types).unwrap();
    assert_eq!(params, vec![ValType::I32, conc(0, true)]);
    let pair_again: u32 = <Pair as TRecGroupType<u32>>::rec_group_ty(&mut types).unwrap();
    assert_eq!(pair_again, 0);
}

#[test]
fn dyn_array_layout_registers_array_then_struct() {
    let mut types = TypeRegistry::default();
    let l = dyn_array_layout::<TI32>(&mut types).unwrap();
    assert_eq!(l.array_type, 0);
    assert_eq!(l.struct_type, 1);
    assert_eq!(l.element, ValType::I32);
    assert_eq!(types.len(), 2);
}

#[test]
fn registering_a_clone_of_a_type_again_gives_the_same_index() {
    let mut types = TypeRegistry::default();
    let ty = CompoundType::Struct(vec![field(ValType::I32, true), field(conc(0, true), false)]);
    let first: u32 = types.register_compound_type(ty.clone()).unwrap();
    assert_eq!(types.len(), 1);
    let again: u32 = types.register_compound_type(ty).unwrap();
    assert_eq!((first, again), (0, 0));
    assert_eq!(types.len(), 1);
}
