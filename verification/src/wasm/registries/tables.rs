//! The tables of a generated module, registered by name.

use vstd::prelude::*;
use crate::registry::{
    Entries, NamedRegistry, NamedRegistryItem, NamedRegistryItemOverride, RegistryType,
};
use crate::wasm::types::{ConstExpr, HeapType, RefType};

verus! {

/// How a table is declared.
#[derive(Clone, Debug)]
pub struct TableOptions {
    pub element_type: RefType,
    pub min: u64,
    pub max: Option<u64>,
    pub init: Option<ConstExpr>,
    pub export_name: Option<&'static str>,
}

/// The registrar of the tables: names of table items to their options.
pub struct TableRegistrar;

impl RegistryType for TableRegistrar {
    type Value = TableOptions;
}

/// The registry of tables.
pub type TableRegistry = NamedRegistry<TableRegistrar>;

/// The exports of the tables: each table with an export name, with its index.
pub open spec fn table_exports(entries: Entries<TableOptions>) -> Seq<(&'static str, int)>
    decreases entries.len(),
{
    if entries.len() == 0 {
        Seq::empty()
    } else {
        let rest = table_exports(entries.drop_last());
        match entries.last().1.export_name {
            Some(name) => rest.push((name, entries.len() - 1)),
            None => rest,
        }
    }
}

impl NamedRegistry<TableRegistrar> {
    /// The tables in order, and the exports of those with an export name, by
    /// name and index.
    pub fn finish(self) -> (r: (Vec<TableOptions>, Vec<(&'static str, u32)>))
        requires
            self.well_formed(),
            self.entries().len() <= u32::MAX + 1,
        ensures
            r.0@ == self.entries().map_values(|e: (Seq<char>, TableOptions)| e.1),
            r.1@.map_values(|e: (&'static str, u32)| (e.0, e.1 as int)) == table_exports(
                self.entries(),
            ),
    {
        let ghost entries = self.entries();
        let (_keys, values) = self.take();
        let mut exports: Vec<(&'static str, u32)> = Vec::new();
        let mut i: usize = 0;
        while i < values.len()
            invariant
                values@.len() == entries.len(),
                forall|k: int| 0 <= k < entries.len() ==> #[trigger] values@[k] == entries[k].1,
                entries.len() <= u32::MAX + 1,
                i <= entries.len(),
                exports@.map_values(|e: (&'static str, u32)| (e.0, e.1 as int)) == table_exports(
                    entries.subrange(0, i as int),
                ),
            decreases entries.len() - i,
        {
            let ghost prefix = entries.subrange(0, i + 1);
            let ghost ex_before = exports@;
            proof {
                assert(prefix.drop_last() =~= entries.subrange(0, i as int));
                assert(prefix.last() == entries[i as int]);
            }
            match values[i].export_name {
                Some(name) => {
                    exports.push((name, i as u32));
                    proof {
                        assert(exports@.map_values(|e: (&'static str, u32)| (e.0, e.1 as int))
                            =~= ex_before.map_values(|e: (&'static str, u32)| (e.0, e.1 as int)).push(
                            (name, i as int),
                        ));
                    }
                },
                None => {},
            }
            i = i + 1;
        }
        proof {
            assert(entries.subrange(0, entries.len() as int) =~= entries);
            assert(values@ =~= entries.map_values(|e: (Seq<char>, TableOptions)| e.1));
        }
        (values, exports)
    }
}

/// The table of strings: host references, growing as strings are added.
pub struct StringsTable;

impl NamedRegistryItem<TableOptions> for StringsTable {
    open spec fn item_name() -> Seq<char> {
        "hyperquark::wasm::registries::tables::StringsTable"@
    }

    open spec fn item_value() -> TableOptions {
        TableOptions {
            element_type: RefType::externref(),
            min: 0,
            max: None,
            init: None,
            export_name: None,
        }
    }

    fn name() -> (r: String) {
        "hyperquark::wasm::registries::tables::StringsTable".to_owned()
    }

    fn value() -> (r: TableOptions) {
        TableOptions {
            element_type: RefType::externref_value(),
            min: 0,
            max: None,
            init: None,
            export_name: None,
        }
    }
}

/// The table of step functions, sized to the number of steps once known.
pub struct StepsTable;

impl NamedRegistryItem<TableOptions> for StepsTable {
    open spec fn item_name() -> Seq<char> {
        "hyperquark::wasm::registries::tables::StepsTable"@
    }

    open spec fn item_value() -> TableOptions {
        TableOptions {
            element_type: RefType::funcref(),
            min: 0,
            max: None,
            init: None,
            export_name: None,
        }
    }

    fn name() -> (r: String) {
        "hyperquark::wasm::registries::tables::StepsTable".to_owned()
    }

    fn value() -> (r: TableOptions) {
        TableOptions {
            element_type: RefType::funcref_value(),
            min: 0,
            max: None,
            init: None,
            export_name: None,
        }
    }
}

impl NamedRegistryItemOverride<TableOptions, u64> for StepsTable {
    open spec fn override_allowed(step_count: u64) -> bool {
        true
    }

    open spec fn override_value(step_count: u64) -> TableOptions {
        TableOptions {
            element_type: RefType::funcref(),
            min: step_count,
            max: Some(step_count),
            init: None,
            export_name: None,
        }
    }

    fn override_with(step_count: u64) -> (r: TableOptions) {
        TableOptions {
            element_type: RefType::funcref_value(),
            min: step_count,
            max: Some(step_count),
            init: None,
            export_name: None,
        }
    }
}

/// The exported table of threads, of typed references to step functions.
pub struct ThreadsTable;

impl NamedRegistryItem<TableOptions> for ThreadsTable {
    open spec fn item_name() -> Seq<char> {
        "hyperquark::wasm::registries::tables::ThreadsTable"@
    }

    open spec fn item_value() -> TableOptions {
        TableOptions {
            element_type: RefType::funcref(),
            min: 0,
            max: None,
            init: None,
            export_name: Some("threads"),
        }
    }

    fn name() -> (r: String) {
        "hyperquark::wasm::registries::tables::ThreadsTable".to_owned()
    }

    fn value() -> (r: TableOptions) {
        TableOptions {
            element_type: RefType::funcref_value(),
            min: 0,
            max: None,
            init: None,
            export_name: Some("threads"),
        }
    }
}

impl NamedRegistryItemOverride<TableOptions, (u32, u32, u32)> for ThreadsTable {
    /// The index of the first step function must be representable.
    open spec fn override_allowed(arg: (u32, u32, u32)) -> bool {
        arg.1 + arg.2 <= u32::MAX
    }

    open spec fn override_value(arg: (u32, u32, u32)) -> TableOptions {
        TableOptions {
            element_type: RefType { nullable: false, heap_type: HeapType::Concrete(arg.0) },
            min: 0,
            max: None,
            init: Some(ConstExpr::RefFunc((arg.1 + arg.2) as u32)),
            export_name: Some("threads"),
        }
    }

    /// The argument holds the type of step functions, the number of imported
    /// functions and the number of static functions; the table starts with a
    /// reference to the first step function.
    fn override_with(arg: (u32, u32, u32)) -> (r: TableOptions) {
        let (step_func_ty, imported_func_count, static_func_count) = arg;
        TableOptions {
            element_type: RefType { nullable: false, heap_type: HeapType::Concrete(step_func_ty) },
            min: 0,
            max: None,
            init: Some(ConstExpr::RefFunc(imported_func_count + static_func_count)),
            export_name: Some("threads"),
        }
    }
}

} // verus!
