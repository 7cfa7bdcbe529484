use hyperquark::registry::NamedRegistry;
use hyperquark::wasm::registries::functions::WasmInstr;
use hyperquark::wasm::registries::globals::{
    GlobalExportable, GlobalMutable, GlobalRegistry, ThreadsLayout,
};
use hyperquark::wasm::registries::strings::{StringRegistry, TabledStringRegistry};
use hyperquark::wasm::registries::tables::{TableRegistrar, ThreadsTable};
use hyperquark::wasm::types::{ConstExpr, ConstInstr, HeapType, RefType, ValType};

#[test]
fn string_registry_keeps_each_string_once_in_order() {
    let mut strings = StringRegistry::default();
    let a: u32 = strings.register_default("hello".to_string()).unwrap();
    let b: u32 = strings.register_default("world".to_string()).unwrap();
    let c: u32 = strings.register_default("hello".to_string()).unwrap();
    assert_eq!((a, b, c), (0, 1, 0));
    let keys: Vec<&String> = strings.registry().keys().collect();
    assert_eq!(keys, vec!["hello", "world"]);
}

#[test]
fn tabled_string_registry_gives_table_indices() {
    let mut strings = TabledStringRegistry::default();
    let a: usize = strings.register_default("x".to_string()).unwrap();
    let b: usize = strings.register_default("y".to_string()).unwrap();
    let a2: usize = strings.register_default("x".to_string()).unwrap();
    assert_eq!((a, b, a2), (0, 1, 0));
    assert_eq!(strings.registry().len(), 2);
}

#[test]
fn threads_count_global_is_a_writable_exported_i32_from_zero() {
    let mut globals = GlobalRegistry::default();
    let i: u32 = globals.threads_count().unwrap();
    let j: u32 = globals.threads_count().unwrap();
    assert_eq!(i, 0);
    assert_eq!(j, 0);
    let (names, values) = globals.take();
    assert_eq!(names, vec!["threads_count".to_string()]);
    let (ty, init, mutable, exportable) = values[0].clone();
    assert_eq!(ty, ValType::I32);
    assert_eq!(init, ConstExpr::I32Const(0));
    assert!(*mutable);
    assert!(*exportable);
    assert_eq!(mutable, GlobalMutable(true));
    assert_eq!(exportable, GlobalExportable(true));
}

#[test]
fn threads_global_starts_with_an_empty_thread_array_per_target() {
    let mut globals = GlobalRegistry::default();
    let layout = ThreadsLayout {
        thread_array_type: 4,
        target_thread_array_type: 6,
        target_thread_array_ref: ValType::Ref(RefType {
            nullable: false,
            heap_type: HeapType::Concrete(6),
        }),
    };
    let _: u32 = globals.threads_count().unwrap();
    let i: u32 = globals.threadss(layout, 1).unwrap();
    let again: u32 = globals.threadss(layout, 5).unwrap();
    assert_eq!((i, again), (1, 1));
    let (infos, exports) = globals.finish(0);
    assert_eq!(exports, vec![("threads_count".to_string(), 0)]);
    let (ty, init, mutable, exportable) = infos[1].clone();
    assert_eq!(ty, layout.target_thread_array_ref);
    let empty = ConstInstr::ArrayNewFixed { array_type_index: 4, array_size: 0 };
    assert_eq!(
        init,
        ConstExpr::Extended(vec![
            ConstInstr::I32Const(0),
            ConstInstr::I32Const(0),
            empty,
            ConstInstr::I32Const(1),
            ConstInstr::I32Const(0),
            empty,
            ConstInstr::ArrayNewFixed { array_type_index: 6, array_size: 1 },
        ])
    );
    assert_eq!(mutable, GlobalMutable(true));
    assert_eq!(exportable, GlobalExportable(false));
}

#[test]
fn threads_table_override_starts_at_the_first_step_function() {
    let mut tables: NamedRegistry<TableRegistrar> = NamedRegistry::default();
    let i: usize = tables
        .register_override::<ThreadsTable, usize, (u32, u32, u32)>((4, 3, 10))
        .unwrap();
    assert_eq!(i, 0);
    let options = tables.registry().value_at(0);
    assert_eq!(
        options.element_type,
        RefType { nullable: false, heap_type: HeapType::Concrete(4) }
    );
    assert_eq!(options.init, Some(ConstExpr::RefFunc(13)));
    assert_eq!(options.export_name, Some("threads"));
    assert_eq!(options.min, 0);
    assert_eq!(options.max, None);
}

#[test]
fn finishing_globals_exports_the_exportable_ones_after_the_imported() {
    let mut globals = GlobalRegistry::default();
    let _: usize = hyperquark::registry::Registry::register(
        &mut globals,
        "hidden".to_string(),
        (ValType::I64, ConstExpr::I64Const(3), GlobalMutable(false), GlobalExportable(false)),
    )
    .unwrap();
    let _: usize = globals.threads_count().unwrap();
    let (infos, exports) = globals.finish(2);
    assert_eq!(infos.len(), 2);
    assert_eq!(infos[0].0, ValType::I64);
    assert_eq!(exports, vec![("threads_count".to_string(), 3)]);
}

#[test]
fn finishing_tables_exports_the_named_ones() {
    let mut tables: NamedRegistry<TableRegistrar> = NamedRegistry::default();
    let _: usize = tables
        .register::<hyperquark::wasm::registries::tables::StringsTable, usize>()
        .unwrap();
    let _: usize = tables.register::<ThreadsTable, usize>().unwrap();
    let (options, exports) = tables.finish();
    assert_eq!(options.len(), 2);
    assert_eq!(exports, vec![("threads", 1)]);
}

#[test]
fn tabled_strings_are_imported_then_put_in_the_table() {
    let mut strings = StringRegistry::default();
    let _: u32 = strings.register_default("a".to_string()).unwrap();
    let mut tabled = TabledStringRegistry::default();
    let _: u32 = tabled.register_default("b".to_string()).unwrap();
    let _: u32 = tabled.register_default("a".to_string()).unwrap();
    let instrs = tabled.finish(&mut strings, 4).unwrap();
    assert_eq!(
        instrs,
        vec![
            WasmInstr::GlobalGet(1),
            WasmInstr::I32Const(1),
            WasmInstr::TableGrow(4),
            WasmInstr::Drop,
            WasmInstr::GlobalGet(0),
            WasmInstr::I32Const(1),
            WasmInstr::TableGrow(4),
            WasmInstr::Drop,
        ]
    );
    assert_eq!(strings.finish(), vec!["a".to_string(), "b".to_string()]);
}
