use hyperquark::registry::NamedRegistry;
use hyperquark::wasm::module_plan::{finish_plan, FinishError, SectionKind};
use hyperquark::wasm::registries::strings::StringRegistry;
use hyperquark::wasm::registries::tables::{StringsTable, TableOptions, TableRegistrar};
use hyperquark::wasm::types::RefType;

fn strings() -> StringRegistry {
    let mut strings = StringRegistry::default();
    for s in ["a", "cat", "dog"] {
        let _: u32 = strings.register_default(s.to_string()).unwrap();
    }
    strings
}

fn tables(names: &[&str]) -> NamedRegistry<TableRegistrar> {
    let mut tables: NamedRegistry<TableRegistrar> = NamedRegistry::default();
    let _: usize = tables.register::<StringsTable, usize>().unwrap();
    for name in names {
        let options = TableOptions {
            element_type: RefType::externref_value(),
            min: 0,
            max: None,
            init: None,
            export_name: None,
        };
        let _: usize = tables.register_dyn(name.to_string(), options).unwrap();
    }
    tables
}

fn costumes() -> Vec<Vec<String>> {
    vec![vec!["a".to_string()], vec!["dog".to_string(), "cat".to_string()]]
}

#[test]
fn module_plan_orders_sections_and_places_functions() {
    let plan = finish_plan(3, 2, 4, 10, &tables(&[]), &costumes(), &strings()).unwrap();
    assert_eq!(plan.sections.len(), 12);
    assert_eq!(plan.sections[0], SectionKind::Type);
    assert_eq!(plan.sections[7], SectionKind::Start);
    assert_eq!(plan.sections[11], SectionKind::Data);
    assert_eq!(plan.start_function, 12);
    assert_eq!((plan.declared_start, plan.declared_end), (5, 9));
    assert!(plan.costume_name_elements.is_empty());
}

#[test]
fn module_plan_fills_the_costume_name_tables() {
    let t = tables(&["costume_names_1", "other", "costume_names_+0"]);
    let plan = finish_plan(0, 0, 0, 1, &t, &costumes(), &strings()).unwrap();
    assert_eq!(plan.start_function, 0);
    assert_eq!(plan.costume_name_elements, vec![(1, vec![2, 1]), (3, vec![0])]);
}

#[test]
fn module_plan_errors() {
    let s = strings();
    let c = costumes();
    assert_eq!(
        finish_plan(0, 0, 0, 1, &tables(&["costume_names_x"]), &c, &s).err(),
        Some(FinishError::BadTargetIndex)
    );
    assert_eq!(
        finish_plan(0, 0, 0, 1, &tables(&["costume_names_"]), &c, &s).err(),
        Some(FinishError::BadTargetIndex)
    );
    assert_eq!(
        finish_plan(0, 0, 0, 1, &tables(&["costume_names_7"]), &c, &s).err(),
        Some(FinishError::TargetOutOfBounds)
    );
    let unknown = vec![vec!["bird".to_string()]];
    assert_eq!(
        finish_plan(0, 0, 0, 1, &tables(&["costume_names_0"]), &unknown, &s).err(),
        Some(FinishError::UnknownCostumeName)
    );
    assert_eq!(
        finish_plan(u32::MAX, 1, 0, 2, &tables(&[]), &c, &s).err(),
        Some(FinishError::IndexOutOfBounds)
    );
}
