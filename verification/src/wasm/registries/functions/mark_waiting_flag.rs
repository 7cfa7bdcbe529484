//! Marking a waiting flag as done.

use vstd::prelude::*;
use vstd::string::StringExecFns;
use super::{emit, new_body, MaybeStaticFunction, Populate, RegisterDeps, StaticFunction, WasmInstr};
use crate::registry::{NamedRegistryItem, RegistryError};
use crate::wasm::registries::types::registry::{
    compound_key, entry_type, extends, lemma_with_key_index, CompoundTypeView, FieldType,
    StorageType, TypeRegistry,
};
use crate::wasm::types::ValType;
use super::semantics::{run, run_n, Machine, Value};

verus! {

/// Marks a waiting flag as done.
///
/// Exported as `"mark_waiting_flag"`, to be called by the host. Takes one
/// parameter: a non-null reference to a struct with a single mutable `i8`
/// field, the flag.
pub struct MarkWaitingFlag;

/// The body of [`MarkWaitingFlag`], for the flag's struct at `i8_struct_type`.
pub open spec fn mark_waiting_flag_body(i8_struct_type: u32) -> Seq<WasmInstr> {
    Seq::empty()
        .push(WasmInstr::LocalGet(0))
        .push(WasmInstr::I32Const(1))
        .push(WasmInstr::StructSet { struct_type_index: i8_struct_type, field_index: 0 })
        .push(WasmInstr::End)
}

/// The flag's struct: one writable `i8` field.
pub open spec fn flag_struct_type() -> CompoundTypeView {
    CompoundTypeView::Struct(seq![FieldType { element_type: StorageType::I8, mutable: true }])
}

impl MarkWaitingFlag {
    /// The function, for the flag's struct at `i8_struct_type` of the type
    /// section.
    pub fn populate(i8_struct_type: u32) -> (r: StaticFunction)
        ensures
            r.instructions@ == mark_waiting_flag_body(i8_struct_type),
            r.params@ == seq![ValType::non_null_concrete(i8_struct_type)],
            r.returns@ == Seq::<ValType>::empty(),
            r.locals@ == Seq::<ValType>::empty(),
            r.export matches Some(name) && name@ == "mark_waiting_flag"@,
            r.well_formed(),
            r.closed(),
    {
        let ghost n: int = 1;
        let mut body = new_body();
        emit(&mut body, WasmInstr::LocalGet(0), Ghost(n));
        emit(&mut body, WasmInstr::I32Const(1), Ghost(n));
        emit(&mut body, WasmInstr::StructSet { struct_type_index: i8_struct_type, field_index: 0 }, Ghost(n));
        emit(&mut body, WasmInstr::End, Ghost(n));
        let params: Vec<ValType> = vec![ValType::non_null_concrete_value(i8_struct_type)];
        StaticFunction {
            instructions: body,
            params,
            returns: Vec::new(),
            locals: Vec::new(),
            export: Some(String::from_str("mark_waiting_flag")),
        }
    }

    /// The function, registering the flag's struct (one writable `i8` field)
    /// in `types`.
    pub fn populate_in(types: &mut TypeRegistry) -> (r: Result<StaticFunction, RegistryError>)
        requires
            old(types).well_formed(),
        ensures
            final(types).well_formed(),
            extends(old(types).items(), final(types).items()),
            old(types).items().len() <= u32::MAX ==> r is Ok,
            r matches Ok(f) ==> exists|i: u32| {
                &&& entry_type(final(types).items(), i as int) == Some(flag_struct_type())
                &&& f.instructions@ == mark_waiting_flag_body(i)
                &&& #[trigger] f.params@ == seq![ValType::non_null_concrete(i)]
            },
            r matches Ok(f) ==> f.returns@.len() == 0 && f.locals@.len() == 0 && f.well_formed()
                && f.closed(),
    {
        let fields = vec![FieldType { element_type: StorageType::I8, mutable: true }];
        assert(fields@ =~= seq![FieldType { element_type: StorageType::I8, mutable: true }]);
        assert(CompoundTypeView::Struct(fields@) == flag_struct_type());
        let ghost key = compound_key(types.items(), flag_struct_type());
        let ghost old_keys = types.keys();
        let r = types.struct_::<u32>(fields);
        proof {
            lemma_with_key_index(old_keys, key);
        }
        match r {
            Ok(i) => {
                let f = Self::populate(i);
                assert(entry_type(types.items(), i as int) == Some(flag_struct_type()));
                assert(f.params@ == seq![ValType::non_null_concrete(i)]);
                Ok(f)
            },
            Err(e) => Err(e),
        }
    }
}

impl NamedRegistryItem<MaybeStaticFunction> for MarkWaitingFlag {
    open spec fn item_name() -> Seq<char> {
        "hyperquark::wasm::registries::functions::mark_waiting_flag::MarkWaitingFlag"@
    }

    open spec fn item_value() -> MaybeStaticFunction {
        MaybeStaticFunction { static_function: None, register_deps: RegisterDeps::Nothing, maybe_populate: Populate::Never }
    }

    fn name() -> (r: String) {
        String::from_str("hyperquark::wasm::registries::functions::mark_waiting_flag::MarkWaitingFlag")
    }

    fn value() -> (r: MaybeStaticFunction) {
        MaybeStaticFunction { static_function: None, register_deps: RegisterDeps::Nothing, maybe_populate: Populate::Never }
    }
}


/// Marking the flag sets it: run on a flag struct, the function stores 1 in
/// its field, returns nothing, and touches nothing else.
pub proof fn law_marking_sets_the_flag(
    f: StaticFunction,
    i8_struct_type: u32,
    structs: Map<int, Seq<Value>>,
    arrays: Map<int, Seq<Value>>,
    s: int,
    flag: Value,
)
    requires
        f.instructions@ == mark_waiting_flag_body(i8_struct_type),
        structs.contains_key(s),
        structs[s] == seq![flag],
    ensures
        ({
            let start = Machine {
                stack: Seq::empty(),
                locals: seq![Value::Ref(s)],
                structs,
                arrays,
                next_address: 0,
                skipping: 0,
                trapped: false,
            };
            let end = run(start, f.instructions@);
            &&& !end.trapped
            &&& end.stack == Seq::<Value>::empty()
            &&& end.structs == structs.insert(s, seq![Value::I32(1)])
            &&& end.arrays == arrays
        }),
{
    let start = Machine {
        stack: Seq::empty(),
        locals: seq![Value::Ref(s)],
        structs,
        arrays,
        next_address: 0,
        skipping: 0,
        trapped: false,
    };
    let code = f.instructions@;
    assert(code =~= seq![
        WasmInstr::LocalGet(0),
        WasmInstr::I32Const(1),
        WasmInstr::StructSet { struct_type_index: i8_struct_type, field_index: 0 },
        WasmInstr::End,
    ]);
    assert(run_n(start, code, 0) == start);
    assert(run_n(start, code, 1).stack =~= seq![Value::Ref(s)]);
    assert(run_n(start, code, 2).stack =~= seq![Value::Ref(s), Value::I32(1)]);
    assert(structs[s].update(0, Value::I32(1)) =~= seq![Value::I32(1)]);
    assert(run_n(start, code, 3).stack =~= Seq::<Value>::empty());
    assert(run_n(start, code, 4) == run_n(start, code, 3));
}
} // verus!
