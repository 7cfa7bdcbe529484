use hyperquark::registry::{MapRegistry, NamedRegistry, Registry, RegistryDefault, RegistryIndex, SetRegistry};
use hyperquark::wasm::registries::tables::{StepsTable, StringsTable, TableRegistrar, ThreadsTable};

#[test]
fn map_registry_gives_indices_in_registration_order() {
    let mut reg: MapRegistry<u32> = MapRegistry::default();
    let a: usize = reg.register("a".to_string(), 10).unwrap();
    let b: usize = reg.register("b".to_string(), 20).unwrap();
    let c: usize = reg.register("c".to_string(), 30).unwrap();
    assert_eq!((a, b, c), (0, 1, 2));
    assert_eq!(reg.len(), 3);
    assert_eq!(*reg.value_at(1), 20);
}

#[test]
fn map_registry_register_again_keeps_first_value_and_index() {
    let mut reg: MapRegistry<u32> = MapRegistry::default();
    let first: usize = reg.register("x".to_string(), 1).unwrap();
    let _: usize = reg.register("y".to_string(), 2).unwrap();
    let again: usize = reg.register("x".to_string(), 99).unwrap();
    assert_eq!(first, again);
    assert_eq!(reg.len(), 2);
    assert_eq!(*reg.value_at(0), 1);
}

#[test]
fn map_registry_override_replaces_value_in_place() {
    let mut reg: MapRegistry<u32> = MapRegistry::default();
    let _: usize = reg.register("x".to_string(), 1).unwrap();
    let _: usize = reg.register("y".to_string(), 2).unwrap();
    let i: usize = reg.register_override("x".to_string(), 7).unwrap();
    assert_eq!(i, 0);
    assert_eq!(*reg.value_at(0), 7);
    let j: u32 = reg.register_override("z".to_string(), 3).unwrap();
    assert_eq!(j, 2);
    assert_eq!(reg.len(), 3);
}

#[test]
fn map_registry_take_gives_keys_and_values_in_order() {
    let mut reg: MapRegistry<&'static str> = MapRegistry::default();
    let _: usize = reg.register("one".to_string(), "1").unwrap();
    let _: usize = reg.register("two".to_string(), "2").unwrap();
    let (keys, values) = reg.take();
    assert_eq!(keys, vec!["one".to_string(), "two".to_string()]);
    assert_eq!(values, vec!["1", "2"]);
}

#[test]
fn map_registry_get_index_of_finds_registered_keys_only() {
    let mut reg: MapRegistry<()> = MapRegistry::default();
    let _: usize = reg.register("p".to_string(), ()).unwrap();
    let _: usize = reg.register("q".to_string(), ()).unwrap();
    assert_eq!(reg.get_index_of(&"q".to_string()), Some(1));
    assert_eq!(reg.get_index_of(&"r".to_string()), None);
    assert_eq!(reg.registry().len(), 2);
}

#[test]
fn registry_index_conversions_refuse_what_does_not_fit() {
    assert_eq!(<u32 as RegistryIndex>::from_index(5), Some(5u32));
    assert_eq!(<i32 as RegistryIndex>::from_index(3_000_000_000), None);
    assert_eq!(<u64 as RegistryIndex>::from_index(7), Some(7u64));
    assert_eq!(<usize as RegistryIndex>::from_index(usize::MAX), Some(usize::MAX));
}

#[test]
fn set_registry_registers_each_key_once() {
    let mut reg = SetRegistry::default();
    let a: usize = reg.register_default("a".to_string()).unwrap();
    let b: usize = reg.register_default("b".to_string()).unwrap();
    let a2: usize = reg.register_default("a".to_string()).unwrap();
    assert_eq!((a, b, a2), (0, 1, 0));
    assert_eq!(reg.registry().len(), 2);
}

#[test]
fn named_registry_override_keeps_the_items_index() {
    // The steps table is registered first, then the strings table; overriding
    // the steps table changes its value but not its index.
    let mut tables: NamedRegistry<TableRegistrar> = NamedRegistry::default();
    let steps: usize = tables.register::<StepsTable, usize>().unwrap();
    let strings: usize = tables.register::<StringsTable, usize>().unwrap();
    let steps_again: usize = tables.register_override::<StepsTable, usize, u64>(5).unwrap();
    assert_eq!(steps, 0);
    assert_eq!(strings, 1);
    assert_eq!(steps, steps_again);
    let value = tables.registry().value_at(0);
    assert_eq!(value.min, 5);
    assert_eq!(value.max, Some(5));
    assert_eq!(tables.registry().len(), 2);
}

#[test]
fn named_registry_registers_under_the_items_name() {
    let mut tables: NamedRegistry<TableRegistrar> = NamedRegistry::default();
    let _: usize = tables.register::<ThreadsTable, usize>().unwrap();
    let (names, values) = tables.take();
    assert_eq!(names, vec!["hyperquark::wasm::registries::tables::ThreadsTable".to_string()]);
    assert_eq!(values[0].export_name, Some("threads"));
}
