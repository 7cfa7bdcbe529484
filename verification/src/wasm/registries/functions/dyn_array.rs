//! Functions on dynamic (resizeable) arrays: a struct that holds an array and
//! the number of its elements in use.

use vstd::prelude::*;
use core::marker::PhantomData;
use super::{
    emit, new_body, DynArrayOp, MaybeStaticFunction, Populate, RegisterDeps, StackElement,
    StaticFunction, WasmInstr,
};
use crate::registry::{NamedRegistryItem, RegistryError};
use crate::wasm::registries::types::registration::TRecGroupType;
use crate::wasm::registries::types::registry::{
    compound_key, entry_type, extends, lemma_extends_trans, lemma_with_key_index, CompoundTypeView,
    FieldType, keys_of, RegistryItem, StorageType, TypeRegistry,
};
use crate::wasm::registries::types::stack::{
    ref_to_index, lemma_whole_stays, stack_group_whole, stack_member, stack_member_at,
};
use crate::wasm::registries::functions::spawn_threads::{dyn_array_view, ref_index};
use crate::wasm::registries::functions::semantics::{run, run_n, wrap_i32, Machine, Value};
use crate::wasm::registries::types::{TNullable, TStackArray, TStackStruct};
use crate::wasm::registries::types::{
    generic_label, generic_label_string, TDefaultable, TDynArray, TDynArrayField, TypeLabel,
};
use crate::wasm::types::{HeapType, RefType, ValType};

verus! {

/// Where a dynamic array's types stand in the type section: the struct that
/// holds the array and its length, the array, and the element's value type.
#[derive(Clone, Copy, Debug, PartialEq, Eq, Structural)]
pub struct DynArrayLayout {
    pub struct_type: u32,
    pub array_type: u32,
    pub element: ValType,
}

/// The most entries that registering the types of a dynamic array of `T`s
/// adds.
pub open spec fn dyn_array_new_entries<T: TRecGroupType<ValType>>() -> nat {
    <TDynArray<T> as TRecGroupType<u32>>::new_entries()
        + <TDynArrayField<T> as TRecGroupType<u32>>::new_entries() + T::new_entries()
}

/// Registers the types of a dynamic array of `T`s and gives where they
/// stand: each index stands for the type that its marker describes, and the
/// element is `T`'s value type. It succeeds when the registry has room for
/// the entries it may add.
pub fn dyn_array_layout<T: TRecGroupType<ValType>>(types: &mut TypeRegistry) -> (r: Result<
    DynArrayLayout,
    RegistryError,
>)
    requires
        old(types).well_formed(),
    ensures
        final(types).well_formed(),
        extends(old(types).items(), final(types).items()),
        old(types).items().len() + dyn_array_new_entries::<T>() <= u32::MAX ==> r is Ok,
        r matches Ok(l) ==> {
            &&& <TDynArray<T> as TRecGroupType<u32>>::describes(final(types).items(), l.struct_type)
            &&& <TDynArrayField<T> as TRecGroupType<u32>>::describes(
                final(types).items(),
                l.array_type,
            )
            &&& T::describes(final(types).items(), l.element)
        },
{
    let ghost start = types.items();
    let struct_type = match <TDynArray<T> as TRecGroupType<u32>>::rec_group_ty(types) {
        Ok(i) => i,
        Err(e) => return Err(e),
    };
    let ghost after_struct = types.items();
    let array_type = match <TDynArrayField<T> as TRecGroupType<u32>>::rec_group_ty(types) {
        Ok(i) => i,
        Err(e) => {
            proof {
                lemma_extends_trans(start, after_struct, types.items());
            }
            return Err(e);
        },
    };
    let ghost after_array = types.items();
    let element = match T::rec_group_ty(types) {
        Ok(v) => v,
        Err(e) => {
            proof {
                lemma_extends_trans(start, after_struct, after_array);
                lemma_extends_trans(start, after_array, types.items());
            }
            return Err(e);
        },
    };
    proof {
        lemma_extends_trans(start, after_struct, after_array);
        lemma_extends_trans(start, after_array, types.items());
        lemma_extends_trans(after_struct, after_array, types.items());
        <TDynArray<T> as TRecGroupType<u32>>::lemma_describes_grows(after_struct, types.items(), struct_type);
        <TDynArrayField<T> as TRecGroupType<u32>>::lemma_describes_grows(after_array, types.items(), array_type);
    }
    Ok(DynArrayLayout { struct_type, array_type, element })
}

/// Pushes an element to a dynamic (resizeable) array, doubling its capacity
/// when it is full.
///
/// Takes two parameters: a non-null reference to the dynamic array's struct,
/// and the element.
pub struct DynArrayPush<T>(PhantomData<T>);

/// The body of [`DynArrayPush`].
pub open spec fn dyn_array_push_body(l: DynArrayLayout) -> Seq<WasmInstr> {
    Seq::empty()
        .push(WasmInstr::LocalGet(0))
        .push(WasmInstr::StructGet { struct_type_index: l.struct_type, field_index: 0 })
        .push(WasmInstr::ArrayLen)
        .push(WasmInstr::LocalGet(0))
        .push(WasmInstr::StructGet { struct_type_index: l.struct_type, field_index: 1 })
        .push(WasmInstr::LocalTee(2))
        .push(WasmInstr::I32Eq)
        .push(WasmInstr::If)
        .push(WasmInstr::LocalGet(2))
        .push(WasmInstr::I32Const(1))
        .push(WasmInstr::I32Shl)
        .push(WasmInstr::ArrayNewDefault(l.array_type))
        .push(WasmInstr::LocalTee(3))
        .push(WasmInstr::I32Const(0))
        .push(WasmInstr::LocalGet(0))
        .push(WasmInstr::StructGet { struct_type_index: l.struct_type, field_index: 0 })
        .push(WasmInstr::I32Const(0))
        .push(WasmInstr::LocalGet(2))
        .push(WasmInstr::ArrayCopy { array_type_index_dst: l.array_type, array_type_index_src: l.array_type })
        .push(WasmInstr::LocalGet(0))
        .push(WasmInstr::LocalGet(3))
        .push(WasmInstr::StructSet { struct_type_index: l.struct_type, field_index: 0 })
        .push(WasmInstr::End)
        .push(WasmInstr::LocalGet(0))
        .push(WasmInstr::StructGet { struct_type_index: l.struct_type, field_index: 0 })
        .push(WasmInstr::LocalGet(2))
        .push(WasmInstr::LocalGet(1))
        .push(WasmInstr::ArraySet(l.array_type))
        .push(WasmInstr::LocalGet(0))
        .push(WasmInstr::LocalGet(2))
        .push(WasmInstr::I32Const(1))
        .push(WasmInstr::I32Add)
        .push(WasmInstr::StructSet { struct_type_index: l.struct_type, field_index: 1 })
        .push(WasmInstr::End)
}

impl<T> DynArrayPush<T> {
    /// The function for the dynamic array laid out as `l`.
    pub fn populate(l: DynArrayLayout) -> (r: StaticFunction)
        ensures
            r.instructions@ == dyn_array_push_body(l),
            r.params@ == seq![ValType::non_null_concrete(l.struct_type), l.element],
            r.returns@ == Seq::<ValType>::empty(),
            r.locals@ == seq![ValType::I32, ValType::non_null_concrete(l.array_type)],
            r.export is None,
            r.well_formed(),
            r.closed(),
    {
        let ghost n: int = 4;
        let mut body = new_body();
        emit(&mut body, WasmInstr::LocalGet(0), Ghost(n));
        emit(&mut body, WasmInstr::StructGet { struct_type_index: l.struct_type, field_index: 0 }, Ghost(n));
        emit(&mut body, WasmInstr::ArrayLen, Ghost(n));
        emit(&mut body, WasmInstr::LocalGet(0), Ghost(n));
        emit(&mut body, WasmInstr::StructGet { struct_type_index: l.struct_type, field_index: 1 }, Ghost(n));
        emit(&mut body, WasmInstr::LocalTee(2), Ghost(n));
        emit(&mut body, WasmInstr::I32Eq, Ghost(n));
        emit(&mut body, WasmInstr::If, Ghost(n));
        emit(&mut body, WasmInstr::LocalGet(2), Ghost(n));
        emit(&mut body, WasmInstr::I32Const(1), Ghost(n));
        emit(&mut body, WasmInstr::I32Shl, Ghost(n));
        emit(&mut body, WasmInstr::ArrayNewDefault(l.array_type), Ghost(n));
        emit(&mut body, WasmInstr::LocalTee(3), Ghost(n));
        emit(&mut body, WasmInstr::I32Const(0), Ghost(n));
        emit(&mut body, WasmInstr::LocalGet(0), Ghost(n));
        emit(&mut body, WasmInstr::StructGet { struct_type_index: l.struct_type, field_index: 0 }, Ghost(n));
        emit(&mut body, WasmInstr::I32Const(0), Ghost(n));
        emit(&mut body, WasmInstr::LocalGet(2), Ghost(n));
        emit(&mut body, WasmInstr::ArrayCopy { array_type_index_dst: l.array_type, array_type_index_src: l.array_type }, Ghost(n));
        emit(&mut body, WasmInstr::LocalGet(0), Ghost(n));
        emit(&mut body, WasmInstr::LocalGet(3), Ghost(n));
        emit(&mut body, WasmInstr::StructSet { struct_type_index: l.struct_type, field_index: 0 }, Ghost(n));
        emit(&mut body, WasmInstr::End, Ghost(n));
        emit(&mut body, WasmInstr::LocalGet(0), Ghost(n));
        emit(&mut body, WasmInstr::StructGet { struct_type_index: l.struct_type, field_index: 0 }, Ghost(n));
        emit(&mut body, WasmInstr::LocalGet(2), Ghost(n));
        emit(&mut body, WasmInstr::LocalGet(1), Ghost(n));
        emit(&mut body, WasmInstr::ArraySet(l.array_type), Ghost(n));
        emit(&mut body, WasmInstr::LocalGet(0), Ghost(n));
        emit(&mut body, WasmInstr::LocalGet(2), Ghost(n));
        emit(&mut body, WasmInstr::I32Const(1), Ghost(n));
        emit(&mut body, WasmInstr::I32Add, Ghost(n));
        emit(&mut body, WasmInstr::StructSet { struct_type_index: l.struct_type, field_index: 1 }, Ghost(n));
        emit(&mut body, WasmInstr::End, Ghost(n));
        let params: Vec<ValType> = vec![ValType::non_null_concrete_value(l.struct_type), l.element];
        let results: Vec<ValType> = Vec::new();
        let locals: Vec<ValType> = vec![ValType::I32, ValType::non_null_concrete_value(l.array_type)];
        StaticFunction { instructions: body, params, returns: results, locals, export: None }
    }
}

impl<T: TypeLabel + TDefaultable + StackDynElement> NamedRegistryItem<MaybeStaticFunction> for DynArrayPush<T> {
    open spec fn item_name() -> Seq<char> {
        generic_label("hyperquark::wasm::registries::functions::dyn_array::DynArrayPush"@, T::label())
    }

    open spec fn item_value() -> MaybeStaticFunction {
        MaybeStaticFunction {
            static_function: None,
            register_deps: RegisterDeps::Nothing,
            maybe_populate: Populate::DynArray(DynArrayOp::Push, T::stack_element()),
        }
    }

    fn name() -> (r: String) {
        generic_label_string(
            "hyperquark::wasm::registries::functions::dyn_array::DynArrayPush",
            T::label_string(),
        )
    }

    fn value() -> (r: MaybeStaticFunction) {
        MaybeStaticFunction {
            static_function: None,
            register_deps: RegisterDeps::Nothing,
            maybe_populate: Populate::DynArray(DynArrayOp::Push, T::stack_element_value()),
        }
    }
}

/// Gets an element of a dynamic (resizeable) array.
///
/// Takes two parameters: a non-null reference to the dynamic array's struct,
/// and the index. Gives the element.
pub struct DynArrayGet<T>(PhantomData<T>);

/// The body of [`DynArrayGet`].
pub open spec fn dyn_array_get_body(l: DynArrayLayout) -> Seq<WasmInstr> {
    Seq::empty()
        .push(WasmInstr::LocalGet(0))
        .push(WasmInstr::StructGet { struct_type_index: l.struct_type, field_index: 0 })
        .push(WasmInstr::LocalGet(1))
        .push(WasmInstr::ArrayGet(l.array_type))
        .push(WasmInstr::End)
}

impl<T> DynArrayGet<T> {
    /// The function for the dynamic array laid out as `l`.
    pub fn populate(l: DynArrayLayout) -> (r: StaticFunction)
        ensures
            r.instructions@ == dyn_array_get_body(l),
            r.params@ == seq![ValType::non_null_concrete(l.struct_type), ValType::I32],
            r.returns@ == seq![l.element],
            r.locals@ == Seq::<ValType>::empty(),
            r.export is None,
            r.well_formed(),
            r.closed(),
    {
        let ghost n: int = 2;
        let mut body = new_body();
        emit(&mut body, WasmInstr::LocalGet(0), Ghost(n));
        emit(&mut body, WasmInstr::StructGet { struct_type_index: l.struct_type, field_index: 0 }, Ghost(n));
        emit(&mut body, WasmInstr::LocalGet(1), Ghost(n));
        emit(&mut body, WasmInstr::ArrayGet(l.array_type), Ghost(n));
        emit(&mut body, WasmInstr::End, Ghost(n));
        let params: Vec<ValType> = vec![ValType::non_null_concrete_value(l.struct_type), ValType::I32];
        let results: Vec<ValType> = vec![l.element];
        let locals: Vec<ValType> = Vec::new();
        StaticFunction { instructions: body, params, returns: results, locals, export: None }
    }
}

impl<T: TypeLabel + TDefaultable + StackDynElement> NamedRegistryItem<MaybeStaticFunction> for DynArrayGet<T> {
    open spec fn item_name() -> Seq<char> {
        generic_label("hyperquark::wasm::registries::functions::dyn_array::DynArrayGet"@, T::label())
    }

    open spec fn item_value() -> MaybeStaticFunction {
        MaybeStaticFunction {
            static_function: None,
            register_deps: RegisterDeps::Nothing,
            maybe_populate: Populate::DynArray(DynArrayOp::Get, T::stack_element()),
        }
    }

    fn name() -> (r: String) {
        generic_label_string(
            "hyperquark::wasm::registries::functions::dyn_array::DynArrayGet",
            T::label_string(),
        )
    }

    fn value() -> (r: MaybeStaticFunction) {
        MaybeStaticFunction {
            static_function: None,
            register_deps: RegisterDeps::Nothing,
            maybe_populate: Populate::DynArray(DynArrayOp::Get, T::stack_element_value()),
        }
    }
}

/// Sets an element of a dynamic (resizeable) array.
///
/// Takes three parameters: a non-null reference to the dynamic array's
/// struct, the index and the element. Gives an element.
pub struct DynArraySet<T>(PhantomData<T>);

/// The body of [`DynArraySet`].
pub open spec fn dyn_array_set_body(l: DynArrayLayout) -> Seq<WasmInstr> {
    Seq::empty()
        .push(WasmInstr::LocalGet(0))
        .push(WasmInstr::StructGet { struct_type_index: l.struct_type, field_index: 0 })
        .push(WasmInstr::LocalGet(1))
        .push(WasmInstr::LocalGet(2))
        .push(WasmInstr::ArrayGet(l.array_type))
        .push(WasmInstr::End)
}

impl<T> DynArraySet<T> {
    /// The function for the dynamic array laid out as `l`.
    pub fn populate(l: DynArrayLayout) -> (r: StaticFunction)
        ensures
            r.instructions@ == dyn_array_set_body(l),
            r.params@ == seq![ValType::non_null_concrete(l.struct_type), ValType::I32, l.element],
            r.returns@ == seq![l.element],
            r.locals@ == Seq::<ValType>::empty(),
            r.export is None,
            r.well_formed(),
            r.closed(),
    {
        let ghost n: int = 3;
        let mut body = new_body();
        emit(&mut body, WasmInstr::LocalGet(0), Ghost(n));
        emit(&mut body, WasmInstr::StructGet { struct_type_index: l.struct_type, field_index: 0 }, Ghost(n));
        emit(&mut body, WasmInstr::LocalGet(1), Ghost(n));
        emit(&mut body, WasmInstr::LocalGet(2), Ghost(n));
        emit(&mut body, WasmInstr::ArrayGet(l.array_type), Ghost(n));
        emit(&mut body, WasmInstr::End, Ghost(n));
        let params: Vec<ValType> = vec![ValType::non_null_concrete_value(l.struct_type), ValType::I32, l.element];
        let results: Vec<ValType> = vec![l.element];
        let locals: Vec<ValType> = Vec::new();
        StaticFunction { instructions: body, params, returns: results, locals, export: None }
    }
}

impl<T: TypeLabel + TDefaultable + StackDynElement> NamedRegistryItem<MaybeStaticFunction> for DynArraySet<T> {
    open spec fn item_name() -> Seq<char> {
        generic_label("hyperquark::wasm::registries::functions::dyn_array::DynArraySet"@, T::label())
    }

    open spec fn item_value() -> MaybeStaticFunction {
        MaybeStaticFunction {
            static_function: None,
            register_deps: RegisterDeps::Nothing,
            maybe_populate: Populate::DynArray(DynArrayOp::SetAt, T::stack_element()),
        }
    }

    fn name() -> (r: String) {
        generic_label_string(
            "hyperquark::wasm::registries::functions::dyn_array::DynArraySet",
            T::label_string(),
        )
    }

    fn value() -> (r: MaybeStaticFunction) {
        MaybeStaticFunction {
            static_function: None,
            register_deps: RegisterDeps::Nothing,
            maybe_populate: Populate::DynArray(DynArrayOp::SetAt, T::stack_element_value()),
        }
    }
}

/// Pops the last element of a dynamic (resizeable) array.
///
/// Takes one parameter: a non-null reference to the dynamic array's struct.
/// Gives the element.
pub struct DynArrayPop<T>(PhantomData<T>);

/// The body of [`DynArrayPop`].
pub open spec fn dyn_array_pop_body(l: DynArrayLayout) -> Seq<WasmInstr> {
    Seq::empty()
        .push(WasmInstr::LocalGet(0))
        .push(WasmInstr::StructGet { struct_type_index: l.struct_type, field_index: 0 })
        .push(WasmInstr::LocalGet(0))
        .push(WasmInstr::StructGet { struct_type_index: l.struct_type, field_index: 1 })
        .push(WasmInstr::I32Const(1))
        .push(WasmInstr::I32Sub)
        .push(WasmInstr::LocalTee(1))
        .push(WasmInstr::ArrayGet(l.array_type))
        .push(WasmInstr::LocalGet(0))
        .push(WasmInstr::LocalGet(1))
        .push(WasmInstr::StructSet { struct_type_index: l.struct_type, field_index: 1 })
        .push(WasmInstr::End)
}

impl<T> DynArrayPop<T> {
    /// The function for the dynamic array laid out as `l`.
    pub fn populate(l: DynArrayLayout) -> (r: StaticFunction)
        ensures
            r.instructions@ == dyn_array_pop_body(l),
            r.params@ == seq![ValType::non_null_concrete(l.struct_type)],
            r.returns@ == seq![l.element],
            r.locals@ == seq![ValType::I32],
            r.export is None,
            r.well_formed(),
            r.closed(),
    {
        let ghost n: int = 2;
        let mut body = new_body();
        emit(&mut body, WasmInstr::LocalGet(0), Ghost(n));
        emit(&mut body, WasmInstr::StructGet { struct_type_index: l.struct_type, field_index: 0 }, Ghost(n));
        emit(&mut body, WasmInstr::LocalGet(0), Ghost(n));
        emit(&mut body, WasmInstr::StructGet { struct_type_index: l.struct_type, field_index: 1 }, Ghost(n));
        emit(&mut body, WasmInstr::I32Const(1), Ghost(n));
        emit(&mut body, WasmInstr::I32Sub, Ghost(n));
        emit(&mut body, WasmInstr::LocalTee(1), Ghost(n));
        emit(&mut body, WasmInstr::ArrayGet(l.array_type), Ghost(n));
        emit(&mut body, WasmInstr::LocalGet(0), Ghost(n));
        emit(&mut body, WasmInstr::LocalGet(1), Ghost(n));
        emit(&mut body, WasmInstr::StructSet { struct_type_index: l.struct_type, field_index: 1 }, Ghost(n));
        emit(&mut body, WasmInstr::End, Ghost(n));
        let params: Vec<ValType> = vec![ValType::non_null_concrete_value(l.struct_type)];
        let results: Vec<ValType> = vec![l.element];
        let locals: Vec<ValType> = vec![ValType::I32];
        StaticFunction { instructions: body, params, returns: results, locals, export: None }
    }
}

impl<T: TypeLabel + TDefaultable + StackDynElement> NamedRegistryItem<MaybeStaticFunction> for DynArrayPop<T> {
    open spec fn item_name() -> Seq<char> {
        generic_label("hyperquark::wasm::registries::functions::dyn_array::DynArrayPop"@, T::label())
    }

    open spec fn item_value() -> MaybeStaticFunction {
        MaybeStaticFunction {
            static_function: None,
            register_deps: RegisterDeps::Nothing,
            maybe_populate: Populate::DynArray(DynArrayOp::Pop, T::stack_element()),
        }
    }

    fn name() -> (r: String) {
        generic_label_string(
            "hyperquark::wasm::registries::functions::dyn_array::DynArrayPop",
            T::label_string(),
        )
    }

    fn value() -> (r: MaybeStaticFunction) {
        MaybeStaticFunction {
            static_function: None,
            register_deps: RegisterDeps::Nothing,
            maybe_populate: Populate::DynArray(DynArrayOp::Pop, T::stack_element_value()),
        }
    }
}

/// Makes a new dynamic (resizeable) array of the given capacity.
///
/// Takes one parameter: the capacity. Gives a non-null reference to the new
/// array's struct.
pub struct DynArrayNew<T>(PhantomData<T>);

/// The body of [`DynArrayNew`].
pub open spec fn dyn_array_new_body(l: DynArrayLayout) -> Seq<WasmInstr> {
    Seq::empty()
        .push(WasmInstr::LocalGet(0))
        .push(WasmInstr::ArrayNewDefault(l.array_type))
        .push(WasmInstr::I32Const(0))
        .push(WasmInstr::StructNew(l.struct_type))
        .push(WasmInstr::End)
}

impl<T> DynArrayNew<T> {
    /// The function for the dynamic array laid out as `l`.
    pub fn populate(l: DynArrayLayout) -> (r: StaticFunction)
        ensures
            r.instructions@ == dyn_array_new_body(l),
            r.params@ == seq![ValType::I32],
            r.returns@ == seq![ValType::non_null_concrete(l.struct_type)],
            r.locals@ == Seq::<ValType>::empty(),
            r.export is None,
            r.well_formed(),
            r.closed(),
    {
        let ghost n: int = 1;
        let mut body = new_body();
        emit(&mut body, WasmInstr::LocalGet(0), Ghost(n));
        emit(&mut body, WasmInstr::ArrayNewDefault(l.array_type), Ghost(n));
        emit(&mut body, WasmInstr::I32Const(0), Ghost(n));
        emit(&mut body, WasmInstr::StructNew(l.struct_type), Ghost(n));
        emit(&mut body, WasmInstr::End, Ghost(n));
        let params: Vec<ValType> = vec![ValType::I32];
        let results: Vec<ValType> = vec![ValType::non_null_concrete_value(l.struct_type)];
        let locals: Vec<ValType> = Vec::new();
        StaticFunction { instructions: body, params, returns: results, locals, export: None }
    }
}

impl<T: TypeLabel + TDefaultable + StackDynElement> NamedRegistryItem<MaybeStaticFunction> for DynArrayNew<T> {
    open spec fn item_name() -> Seq<char> {
        generic_label("hyperquark::wasm::registries::functions::dyn_array::DynArrayNew"@, T::label())
    }

    open spec fn item_value() -> MaybeStaticFunction {
        MaybeStaticFunction {
            static_function: None,
            register_deps: RegisterDeps::Nothing,
            maybe_populate: Populate::DynArray(DynArrayOp::New, T::stack_element()),
        }
    }

    fn name() -> (r: String) {
        generic_label_string(
            "hyperquark::wasm::registries::functions::dyn_array::DynArrayNew",
            T::label_string(),
        )
    }

    fn value() -> (r: MaybeStaticFunction) {
        MaybeStaticFunction {
            static_function: None,
            register_deps: RegisterDeps::Nothing,
            maybe_populate: Populate::DynArray(DynArrayOp::New, T::stack_element_value()),
        }
    }
}

/// Gives the length (not the capacity) of a dynamic array.
///
/// Takes one parameter: a non-null reference to the dynamic array's struct.
pub struct DynArrayLen<T>(PhantomData<T>);

/// The body of [`DynArrayLen`].
pub open spec fn dyn_array_len_body(l: DynArrayLayout) -> Seq<WasmInstr> {
    Seq::empty()
        .push(WasmInstr::LocalGet(0))
        .push(WasmInstr::StructGet { struct_type_index: l.struct_type, field_index: 1 })
        .push(WasmInstr::End)
}

impl<T> DynArrayLen<T> {
    /// The function for the dynamic array laid out as `l`.
    pub fn populate(l: DynArrayLayout) -> (r: StaticFunction)
        ensures
            r.instructions@ == dyn_array_len_body(l),
            r.params@ == seq![ValType::non_null_concrete(l.struct_type)],
            r.returns@ == seq![ValType::I32],
            r.locals@ == Seq::<ValType>::empty(),
            r.export is None,
            r.well_formed(),
            r.closed(),
    {
        let ghost n: int = 1;
        let mut body = new_body();
        emit(&mut body, WasmInstr::LocalGet(0), Ghost(n));
        emit(&mut body, WasmInstr::StructGet { struct_type_index: l.struct_type, field_index: 1 }, Ghost(n));
        emit(&mut body, WasmInstr::End, Ghost(n));
        let params: Vec<ValType> = vec![ValType::non_null_concrete_value(l.struct_type)];
        let results: Vec<ValType> = vec![ValType::I32];
        let locals: Vec<ValType> = Vec::new();
        StaticFunction { instructions: body, params, returns: results, locals, export: None }
    }
}

impl<T: TypeLabel + TDefaultable + StackDynElement> NamedRegistryItem<MaybeStaticFunction> for DynArrayLen<T> {
    open spec fn item_name() -> Seq<char> {
        generic_label("hyperquark::wasm::registries::functions::dyn_array::DynArrayLen"@, T::label())
    }

    open spec fn item_value() -> MaybeStaticFunction {
        MaybeStaticFunction {
            static_function: None,
            register_deps: RegisterDeps::Nothing,
            maybe_populate: Populate::DynArray(DynArrayOp::Len, T::stack_element()),
        }
    }

    fn name() -> (r: String) {
        generic_label_string(
            "hyperquark::wasm::registries::functions::dyn_array::DynArrayLen",
            T::label_string(),
        )
    }

    fn value() -> (r: MaybeStaticFunction) {
        MaybeStaticFunction {
            static_function: None,
            register_deps: RegisterDeps::Nothing,
            maybe_populate: Populate::DynArray(DynArrayOp::Len, T::stack_element_value()),
        }
    }
}

/// Clears a dynamic array to length 0, without dropping its elements.
///
/// Takes one parameter: a non-null reference to the dynamic array's struct.
pub struct DynArrayClear<T>(PhantomData<T>);

/// The body of [`DynArrayClear`].
pub open spec fn dyn_array_clear_body(l: DynArrayLayout) -> Seq<WasmInstr> {
    Seq::empty()
        .push(WasmInstr::LocalGet(0))
        .push(WasmInstr::I32Const(0))
        .push(WasmInstr::StructSet { struct_type_index: l.struct_type, field_index: 1 })
        .push(WasmInstr::End)
}

impl<T> DynArrayClear<T> {
    /// The function for the dynamic array laid out as `l`.
    pub fn populate(l: DynArrayLayout) -> (r: StaticFunction)
        ensures
            r.instructions@ == dyn_array_clear_body(l),
            r.params@ == seq![ValType::non_null_concrete(l.struct_type)],
            r.returns@ == Seq::<ValType>::empty(),
            r.locals@ == Seq::<ValType>::empty(),
            r.export is None,
            r.well_formed(),
            r.closed(),
    {
        let ghost n: int = 1;
        let mut body = new_body();
        emit(&mut body, WasmInstr::LocalGet(0), Ghost(n));
        emit(&mut body, WasmInstr::I32Const(0), Ghost(n));
        emit(&mut body, WasmInstr::StructSet { struct_type_index: l.struct_type, field_index: 1 }, Ghost(n));
        emit(&mut body, WasmInstr::End, Ghost(n));
        let params: Vec<ValType> = vec![ValType::non_null_concrete_value(l.struct_type)];
        let results: Vec<ValType> = Vec::new();
        let locals: Vec<ValType> = Vec::new();
        StaticFunction { instructions: body, params, returns: results, locals, export: None }
    }
}

impl<T: TypeLabel + TDefaultable + StackDynElement> NamedRegistryItem<MaybeStaticFunction> for DynArrayClear<T> {
    open spec fn item_name() -> Seq<char> {
        generic_label("hyperquark::wasm::registries::functions::dyn_array::DynArrayClear"@, T::label())
    }

    open spec fn item_value() -> MaybeStaticFunction {
        MaybeStaticFunction {
            static_function: None,
            register_deps: RegisterDeps::Nothing,
            maybe_populate: Populate::DynArray(DynArrayOp::Clear, T::stack_element()),
        }
    }

    fn name() -> (r: String) {
        generic_label_string(
            "hyperquark::wasm::registries::functions::dyn_array::DynArrayClear",
            T::label_string(),
        )
    }

    fn value() -> (r: MaybeStaticFunction) {
        MaybeStaticFunction {
            static_function: None,
            register_deps: RegisterDeps::Nothing,
            maybe_populate: Populate::DynArray(DynArrayOp::Clear, T::stack_element_value()),
        }
    }
}

/// The element of a dynamic array of a thread's stack that a type stands
/// for.
pub trait StackDynElement {
    /// The element.
    spec fn stack_element() -> StackElement;

    /// The element.
    fn stack_element_value() -> (r: StackElement)
        ensures
            r == Self::stack_element(),
    ;
}

impl StackDynElement for TNullable<TStackArray> {
    open spec fn stack_element() -> StackElement {
        StackElement::Stack
    }

    fn stack_element_value() -> (r: StackElement) {
        StackElement::Stack
    }
}

impl StackDynElement for TNullable<TStackStruct> {
    open spec fn stack_element() -> StackElement {
        StackElement::Frame
    }

    fn stack_element_value() -> (r: StackElement) {
        StackElement::Frame
    }
}

/// The stack group's type that `el` refers to: the stack, or the frame.
pub open spec fn element_member(el: StackElement) -> u32 {
    match el {
        StackElement::Stack => 2,
        StackElement::Frame => 1,
    }
}

/// `l` lays out, in a registry of `items`, the dynamic array of `el`s: its
/// element a nullable reference to the stack group's type for `el`, its
/// array an array of writable elements, and its struct that array and a
/// length.
pub open spec fn stack_dyn_layout_fits(
    items: Seq<RegistryItem>,
    el: StackElement,
    l: DynArrayLayout,
) -> bool {
    &&& l.element == ref_to_index(true, ref_index(l.element))
    &&& stack_member_at(items, ref_index(l.element), element_member(el))
    &&& entry_type(items, l.array_type as int) == Some(
        CompoundTypeView::Array(StorageType::Val(l.element), true),
    )
    &&& entry_type(items, l.struct_type as int) == Some(dyn_array_view(l.array_type as int))
}

/// The layout of a dynamic array of `el`s: registers the stack's group if
/// need be, then the array and the struct. It succeeds when the registry has
/// room for six more entries.
pub fn stack_dyn_array_layout(types: &mut TypeRegistry, el: StackElement) -> (r: Result<
    DynArrayLayout,
    RegistryError,
>)
    requires
        old(types).well_formed(),
        stack_group_whole(old(types).keys()),
    ensures
        final(types).well_formed(),
        stack_group_whole(final(types).keys()),
        extends(old(types).items(), final(types).items()),
        final(types).items().len() <= old(types).items().len() + 6,
        old(types).items().len() + 6 <= u32::MAX ==> r is Ok,
        r matches Ok(l) ==> stack_dyn_layout_fits(final(types).items(), el, l),
{
    let ghost t0 = types.items();
    let member: u32 = match el {
        StackElement::Stack => 2,
        StackElement::Frame => 1,
    };
    let m = match stack_member(types, member) {
        Ok(i) => i,
        Err(e) => return Err(e),
    };
    let ghost t1 = types.items();
    let ghost k1 = types.keys();
    proof {
        assert(keys_of(t1) == k1);
    }
    let element = ValType::Ref(RefType { nullable: true, heap_type: HeapType::Concrete(m) });
    let ra = types.array::<u32>(StorageType::Val(element), true);
    proof {
        lemma_with_key_index(k1, compound_key(t1, CompoundTypeView::Array(StorageType::Val(element), true)));
        lemma_whole_stays(t1, types.items());
        assert(keys_of(types.items()) == types.keys());
    }
    let array_type = match ra {
        Ok(i) => i,
        Err(e) => return Err(e),
    };
    let ghost t2 = types.items();
    let ghost k2 = types.keys();
    let fields = vec![
        FieldType {
            element_type: StorageType::Val(ValType::non_null_concrete_value(array_type)),
            mutable: true,
        },
        FieldType { element_type: StorageType::Val(ValType::I32), mutable: true },
    ];
    let ghost fv = fields@;
    let rs = types.struct_::<u32>(fields);
    proof {
        lemma_with_key_index(k2, compound_key(t2, CompoundTypeView::Struct(fv)));
        lemma_whole_stays(t1, types.items());
        assert(keys_of(types.items()) == types.keys());
        lemma_extends_trans(t0, t1, t2);
        lemma_extends_trans(t0, t2, types.items());
        lemma_extends_trans(t1, t2, types.items());
        assert(types.items()[m as int] == t1[m as int]);
        assert(types.items()[array_type as int] == t2[array_type as int]);
        assert(fv =~= seq![
            FieldType {
                element_type: StorageType::Val(ref_to_index(false, array_type as int)),
                mutable: true,
            },
            FieldType { element_type: StorageType::Val(ValType::I32), mutable: true },
        ]);
    }
    let struct_type = match rs {
        Ok(i) => i,
        Err(e) => return Err(e),
    };
    Ok(DynArrayLayout { struct_type, array_type, element })
}

/// What `op` on a dynamic array laid out as `l` is: its body, parameters,
/// results and locals.
pub open spec fn dyn_array_function(op: DynArrayOp, l: DynArrayLayout) -> (
    Seq<WasmInstr>,
    Seq<ValType>,
    Seq<ValType>,
    Seq<ValType>,
) {
    let s = ValType::non_null_concrete(l.struct_type);
    match op {
        DynArrayOp::Push => (
            dyn_array_push_body(l),
            seq![s, l.element],
            Seq::empty(),
            seq![ValType::I32, ValType::non_null_concrete(l.array_type)],
        ),
        DynArrayOp::Get => (dyn_array_get_body(l), seq![s, ValType::I32], seq![l.element], Seq::empty()),
        DynArrayOp::SetAt => (
            dyn_array_set_body(l),
            seq![s, ValType::I32, l.element],
            seq![l.element],
            Seq::empty(),
        ),
        DynArrayOp::Pop => (dyn_array_pop_body(l), seq![s], seq![l.element], seq![ValType::I32]),
        DynArrayOp::New => (dyn_array_new_body(l), seq![ValType::I32], seq![s], Seq::empty()),
        DynArrayOp::Len => (dyn_array_len_body(l), seq![s], seq![ValType::I32], Seq::empty()),
        DynArrayOp::Clear => (dyn_array_clear_body(l), seq![s], Seq::empty(), Seq::empty()),
    }
}

/// `f` is `op` on the dynamic array laid out as `l`, not exported.
pub open spec fn is_dyn_array_function(f: StaticFunction, op: DynArrayOp, l: DynArrayLayout) -> bool {
    let (body, params, results, locals) = dyn_array_function(op, l);
    &&& f.instructions@ == body
    &&& f.params@ == params
    &&& f.returns@ == results
    &&& f.locals@ == locals
    &&& f.export is None
}

/// The function `op` on the dynamic array laid out as `l`.
pub fn dyn_array_populate(op: DynArrayOp, l: DynArrayLayout) -> (r: StaticFunction)
    ensures
        is_dyn_array_function(r, op, l),
{
    match op {
        DynArrayOp::Push => DynArrayPush::<()>::populate(l),
        DynArrayOp::Get => DynArrayGet::<()>::populate(l),
        DynArrayOp::SetAt => DynArraySet::<()>::populate(l),
        DynArrayOp::Pop => DynArrayPop::<()>::populate(l),
        DynArrayOp::New => DynArrayNew::<()>::populate(l),
        DynArrayOp::Len => DynArrayLen::<()>::populate(l),
        DynArrayOp::Clear => DynArrayClear::<()>::populate(l),
    }
}


/// Popping from a dynamic array gives its last element and shortens it by
/// one: run on an array whose struct holds its backing array and a length
/// `len` between 1 and the backing array's size, the pop function returns
/// the element at `len - 1`, leaves the length `len - 1`, and changes no
/// other field, struct or array.
pub proof fn law_pop_gives_the_last_element(
    f: StaticFunction,
    l: DynArrayLayout,
    structs: Map<int, Seq<Value>>,
    arrays: Map<int, Seq<Value>>,
    s: int,
    a: int,
    len: int,
)
    requires
        is_dyn_array_function(f, DynArrayOp::Pop, l),
        structs.contains_key(s),
        structs[s] == seq![Value::Ref(a), Value::I32(len)],
        arrays.contains_key(a),
        1 <= len <= arrays[a].len(),
        len < 0x8000_0000,
    ensures
        ({
            let start = Machine {
                stack: Seq::empty(),
                locals: seq![Value::Ref(s), Value::I32(0)],
                structs,
                arrays,
                next_address: 0,
                skipping: 0,
                trapped: false,
            };
            let end = run(start, f.instructions@);
            &&& !end.trapped
            &&& end.stack == seq![arrays[a][len - 1]]
            &&& end.structs == structs.insert(s, seq![Value::Ref(a), Value::I32(len - 1)])
            &&& end.arrays == arrays
        }),
{
    let start = Machine {
        stack: Seq::empty(),
        locals: seq![Value::Ref(s), Value::I32(0)],
        structs,
        arrays,
        next_address: 0,
        skipping: 0,
        trapped: false,
    };
    let code = f.instructions@;
    assert(code =~= seq![
        WasmInstr::LocalGet(0),
        WasmInstr::StructGet { struct_type_index: l.struct_type, field_index: 0 },
        WasmInstr::LocalGet(0),
        WasmInstr::StructGet { struct_type_index: l.struct_type, field_index: 1 },
        WasmInstr::I32Const(1),
        WasmInstr::I32Sub,
        WasmInstr::LocalTee(1),
        WasmInstr::ArrayGet(l.array_type),
        WasmInstr::LocalGet(0),
        WasmInstr::LocalGet(1),
        WasmInstr::StructSet { struct_type_index: l.struct_type, field_index: 1 },
        WasmInstr::End,
    ]);
    assert(wrap_i32(len - 1) == len - 1);
    assert(run_n(start, code, 0) == start);
    let m1 = run_n(start, code, 1);
    assert(m1.stack =~= seq![Value::Ref(s)]);
    let m2 = run_n(start, code, 2);
    assert(m2.stack =~= seq![Value::Ref(a)]);
    let m3 = run_n(start, code, 3);
    assert(m3.stack =~= seq![Value::Ref(a), Value::Ref(s)]);
    let m4 = run_n(start, code, 4);
    assert(m4.stack =~= seq![Value::Ref(a), Value::I32(len)]);
    let m5 = run_n(start, code, 5);
    assert(m5.stack =~= seq![Value::Ref(a), Value::I32(len), Value::I32(1)]);
    let m6 = run_n(start, code, 6);
    assert(m6.stack =~= seq![Value::Ref(a), Value::I32(len - 1)]);
    let m7 = run_n(start, code, 7);
    assert(m7.locals =~= seq![Value::Ref(s), Value::I32(len - 1)]);
    let m8 = run_n(start, code, 8);
    assert(m8.stack =~= seq![arrays[a][len - 1]]);
    let m9 = run_n(start, code, 9);
    assert(m9.stack =~= seq![arrays[a][len - 1], Value::Ref(s)]);
    let m10 = run_n(start, code, 10);
    assert(m10.stack =~= seq![arrays[a][len - 1], Value::Ref(s), Value::I32(len - 1)]);
    let m11 = run_n(start, code, 11);
    assert(m11.stack =~= seq![arrays[a][len - 1]]);
    assert(structs[s].update(1, Value::I32(len - 1)) =~= seq![Value::Ref(a), Value::I32(len - 1)]);
    let m12 = run_n(start, code, 12);
    assert(m12 == m11);
}

/// Reading a dynamic array gives the element at the index asked for: run
/// with an index inside the backing array, the get function returns that
/// element and changes nothing in the heap.
pub proof fn law_get_gives_the_element_at_the_index(
    f: StaticFunction,
    l: DynArrayLayout,
    structs: Map<int, Seq<Value>>,
    arrays: Map<int, Seq<Value>>,
    s: int,
    a: int,
    len: int,
    i: int,
)
    requires
        is_dyn_array_function(f, DynArrayOp::Get, l),
        structs.contains_key(s),
        structs[s] == seq![Value::Ref(a), Value::I32(len)],
        arrays.contains_key(a),
        0 <= i < arrays[a].len(),
    ensures
        ({
            let start = Machine {
                stack: Seq::empty(),
                locals: seq![Value::Ref(s), Value::I32(i)],
                structs,
                arrays,
                next_address: 0,
                skipping: 0,
                trapped: false,
            };
            let end = run(start, f.instructions@);
            &&& !end.trapped
            &&& end.stack == seq![arrays[a][i]]
            &&& end.structs == structs
            &&& end.arrays == arrays
        }),
{
    let start = Machine {
        stack: Seq::empty(),
        locals: seq![Value::Ref(s), Value::I32(i)],
        structs,
        arrays,
        next_address: 0,
        skipping: 0,
        trapped: false,
    };
    let code = f.instructions@;
    assert(code =~= seq![
        WasmInstr::LocalGet(0),
        WasmInstr::StructGet { struct_type_index: l.struct_type, field_index: 0 },
        WasmInstr::LocalGet(1),
        WasmInstr::ArrayGet(l.array_type),
        WasmInstr::End,
    ]);
    assert(run_n(start, code, 0) == start);
    assert(run_n(start, code, 1).stack =~= seq![Value::Ref(s)]);
    assert(run_n(start, code, 2).stack =~= seq![Value::Ref(a)]);
    assert(run_n(start, code, 3).stack =~= seq![Value::Ref(a), Value::I32(i)]);
    assert(run_n(start, code, 4).stack =~= seq![arrays[a][i]]);
    assert(run_n(start, code, 5) == run_n(start, code, 4));
}

/// The length function gives the array's length and changes nothing.
pub proof fn law_len_gives_the_length(
    f: StaticFunction,
    l: DynArrayLayout,
    structs: Map<int, Seq<Value>>,
    arrays: Map<int, Seq<Value>>,
    s: int,
    a: int,
    len: int,
)
    requires
        is_dyn_array_function(f, DynArrayOp::Len, l),
        structs.contains_key(s),
        structs[s] == seq![Value::Ref(a), Value::I32(len)],
    ensures
        ({
            let start = Machine {
                stack: Seq::empty(),
                locals: seq![Value::Ref(s)],
                structs,
                arrays,
                next_address: 0,
                skipping: 0,
                trapped: false,
            };
            let end = run(start, f.instructions@);
            &&& !end.trapped
            &&& end.stack == seq![Value::I32(len)]
            &&& end.structs == structs
            &&& end.arrays == arrays
        }),
{
    let start = Machine {
        stack: Seq::empty(),
        locals: seq![Value::Ref(s)],
        structs,
        arrays,
        next_address: 0,
        skipping: 0,
        trapped: false,
    };
    let code = f.instructions@;
    assert(code =~= seq![
        WasmInstr::LocalGet(0),
        WasmInstr::StructGet { struct_type_index: l.struct_type, field_index: 1 },
        WasmInstr::End,
    ]);
    assert(run_n(start, code, 0) == start);
    assert(run_n(start, code, 1).stack =~= seq![Value::Ref(s)]);
    assert(run_n(start, code, 2).stack =~= seq![Value::I32(len)]);
    assert(run_n(start, code, 3) == run_n(start, code, 2));
}

/// Clearing a dynamic array sets its length to zero, keeps its backing
/// array, and returns nothing.
pub proof fn law_clear_empties_the_array(
    f: StaticFunction,
    l: DynArrayLayout,
    structs: Map<int, Seq<Value>>,
    arrays: Map<int, Seq<Value>>,
    s: int,
    a: int,
    len: int,
)
    requires
        is_dyn_array_function(f, DynArrayOp::Clear, l),
        structs.contains_key(s),
        structs[s] == seq![Value::Ref(a), Value::I32(len)],
    ensures
        ({
            let start = Machine {
                stack: Seq::empty(),
                locals: seq![Value::Ref(s)],
                structs,
                arrays,
                next_address: 0,
                skipping: 0,
                trapped: false,
            };
            let end = run(start, f.instructions@);
            &&& !end.trapped
            &&& end.stack == Seq::<Value>::empty()
            &&& end.structs == structs.insert(s, seq![Value::Ref(a), Value::I32(0)])
            &&& end.arrays == arrays
        }),
{
    let start = Machine {
        stack: Seq::empty(),
        locals: seq![Value::Ref(s)],
        structs,
        arrays,
        next_address: 0,
        skipping: 0,
        trapped: false,
    };
    let code = f.instructions@;
    assert(code =~= seq![
        WasmInstr::LocalGet(0),
        WasmInstr::I32Const(0),
        WasmInstr::StructSet { struct_type_index: l.struct_type, field_index: 1 },
        WasmInstr::End,
    ]);
    assert(run_n(start, code, 0) == start);
    assert(run_n(start, code, 1).stack =~= seq![Value::Ref(s)]);
    assert(run_n(start, code, 2).stack =~= seq![Value::Ref(s), Value::I32(0)]);
    assert(structs[s].update(1, Value::I32(0)) =~= seq![Value::Ref(a), Value::I32(0)]);
    assert(run_n(start, code, 3).stack =~= Seq::<Value>::empty());
    assert(run_n(start, code, 4) == run_n(start, code, 3));
}

/// The state in which the push function starts: the array's struct at `s`
/// and the value `v` as its parameters, its own locals as they start (the
/// integer at 0, the array reference not yet set), and the next array made
/// taking address `next`.
pub open spec fn push_start(
    structs: Map<int, Seq<Value>>,
    arrays: Map<int, Seq<Value>>,
    s: int,
    v: Value,
    next: int,
) -> Machine {
    Machine {
        stack: Seq::empty(),
        locals: seq![Value::Ref(s), v, Value::I32(0), Value::Null],
        structs,
        arrays,
        next_address: next,
        skipping: 0,
        trapped: false,
    }
}

/// The backing array after a push that had to grow it: twice as long, the
/// old elements first, then `v`, then default values.
pub open spec fn grown(elems: Seq<Value>, len: int, v: Value) -> Seq<Value> {
    Seq::new(
        (2 * len) as nat,
        |k: int|
            if k < len {
                elems[k]
            } else if k == len {
                v
            } else {
                Value::Default
            },
    )
}

/// Pushing onto a dynamic array with room left stores the value just after
/// the last element and grows the length by one.
pub proof fn law_push_with_room_appends(
    f: StaticFunction,
    l: DynArrayLayout,
    structs: Map<int, Seq<Value>>,
    arrays: Map<int, Seq<Value>>,
    s: int,
    a: int,
    len: int,
    v: Value,
    next: int,
)
    requires
        is_dyn_array_function(f, DynArrayOp::Push, l),
        structs.contains_key(s),
        structs[s] == seq![Value::Ref(a), Value::I32(len)],
        arrays.contains_key(a),
        0 <= len < arrays[a].len() < 0x8000_0000,
    ensures
        ({
            let end = run(push_start(structs, arrays, s, v, next), f.instructions@);
            &&& !end.trapped
            &&& end.stack == Seq::<Value>::empty()
            &&& end.arrays == arrays.insert(a, arrays[a].update(len, v))
            &&& end.structs == structs.insert(s, seq![Value::Ref(a), Value::I32(len + 1)])
        }),
{
    let code = f.instructions@;
    let cap = arrays[a].len() as int;
    assert(code =~= seq![
        WasmInstr::LocalGet(0),
        WasmInstr::StructGet { struct_type_index: l.struct_type, field_index: 0 },
        WasmInstr::ArrayLen,
        WasmInstr::LocalGet(0),
        WasmInstr::StructGet { struct_type_index: l.struct_type, field_index: 1 },
        WasmInstr::LocalTee(2),
        WasmInstr::I32Eq,
        WasmInstr::If,
        WasmInstr::LocalGet(2),
        WasmInstr::I32Const(1),
        WasmInstr::I32Shl,
        WasmInstr::ArrayNewDefault(l.array_type),
        WasmInstr::LocalTee(3),
        WasmInstr::I32Const(0),
        WasmInstr::LocalGet(0),
        WasmInstr::StructGet { struct_type_index: l.struct_type, field_index: 0 },
        WasmInstr::I32Const(0),
        WasmInstr::LocalGet(2),
        WasmInstr::ArrayCopy { array_type_index_dst: l.array_type, array_type_index_src: l.array_type },
        WasmInstr::LocalGet(0),
        WasmInstr::LocalGet(3),
        WasmInstr::StructSet { struct_type_index: l.struct_type, field_index: 0 },
        WasmInstr::End,
        WasmInstr::LocalGet(0),
        WasmInstr::StructGet { struct_type_index: l.struct_type, field_index: 0 },
        WasmInstr::LocalGet(2),
        WasmInstr::LocalGet(1),
        WasmInstr::ArraySet(l.array_type),
        WasmInstr::LocalGet(0),
        WasmInstr::LocalGet(2),
        WasmInstr::I32Const(1),
        WasmInstr::I32Add,
        WasmInstr::StructSet { struct_type_index: l.struct_type, field_index: 1 },
        WasmInstr::End,
    ]);
    let start = push_start(structs, arrays, s, v, next);
    assert(wrap_i32(len + 1) == len + 1);
    assert(run_n(start, code, 0) == start);
    assert(run_n(start, code, 1).stack =~= seq![Value::Ref(s)]);
    assert(run_n(start, code, 2).stack =~= seq![Value::Ref(a)]);
    assert(run_n(start, code, 3).stack =~= seq![Value::I32(cap)]);
    assert(run_n(start, code, 4).stack =~= seq![Value::I32(cap), Value::Ref(s)]);
    assert(run_n(start, code, 5).stack =~= seq![Value::I32(cap), Value::I32(len)]);
    assert(run_n(start, code, 6).locals =~= seq![Value::Ref(s), v, Value::I32(len), Value::Null]);
    assert(run_n(start, code, 7).stack =~= seq![Value::I32(0)]);
    let m8 = run_n(start, code, 8);
    assert(m8.stack =~= Seq::<Value>::empty() && m8.skipping == 1);
    assert(run_n(start, code, 9) == m8);
    assert(run_n(start, code, 10) == m8);
    assert(run_n(start, code, 11) == m8);
    assert(run_n(start, code, 12) == m8);
    assert(run_n(start, code, 13) == m8);
    assert(run_n(start, code, 14) == m8);
    assert(run_n(start, code, 15) == m8);
    assert(run_n(start, code, 16) == m8);
    assert(run_n(start, code, 17) == m8);
    assert(run_n(start, code, 18) == m8);
    assert(run_n(start, code, 19) == m8);
    assert(run_n(start, code, 20) == m8);
    assert(run_n(start, code, 21) == m8);
    assert(run_n(start, code, 22) == m8);
    let m23 = run_n(start, code, 23);
    assert(m23 == Machine { skipping: 0, ..m8 });
    assert(run_n(start, code, 24).stack =~= seq![Value::Ref(s)]);
    assert(run_n(start, code, 25).stack =~= seq![Value::Ref(a)]);
    assert(run_n(start, code, 26).stack =~= seq![Value::Ref(a), Value::I32(len)]);
    assert(run_n(start, code, 27).stack =~= seq![Value::Ref(a), Value::I32(len), v]);
    assert(run_n(start, code, 28).stack =~= Seq::<Value>::empty());
    assert(run_n(start, code, 28).arrays == arrays.insert(a, arrays[a].update(len, v)));
    assert(run_n(start, code, 29).stack =~= seq![Value::Ref(s)]);
    assert(run_n(start, code, 30).stack =~= seq![Value::Ref(s), Value::I32(len)]);
    assert(run_n(start, code, 31).stack =~= seq![Value::Ref(s), Value::I32(len), Value::I32(1)]);
    assert(run_n(start, code, 32).stack =~= seq![Value::Ref(s), Value::I32(len + 1)]);
    assert(structs[s].update(1, Value::I32(len + 1)) =~= seq![Value::Ref(a), Value::I32(len + 1)]);
    assert(run_n(start, code, 33).stack =~= Seq::<Value>::empty());
    assert(run_n(start, code, 34) == run_n(start, code, 33));
}

/// Pushing onto a full dynamic array moves its elements to a new backing
/// array twice as long, stores the value just after them, and grows the
/// length by one; the old backing array is left as it was.
pub proof fn law_push_when_full_grows_then_appends(
    f: StaticFunction,
    l: DynArrayLayout,
    structs: Map<int, Seq<Value>>,
    arrays: Map<int, Seq<Value>>,
    s: int,
    a: int,
    len: int,
    v: Value,
    next: int,
)
    requires
        is_dyn_array_function(f, DynArrayOp::Push, l),
        structs.contains_key(s),
        structs[s] == seq![Value::Ref(a), Value::I32(len)],
        arrays.contains_key(a),
        !arrays.contains_key(next),
        1 <= len == arrays[a].len(),
        2 * len < 0x8000_0000,
    ensures
        ({
            let end = run(push_start(structs, arrays, s, v, next), f.instructions@);
            &&& !end.trapped
            &&& end.stack == Seq::<Value>::empty()
            &&& end.arrays == arrays.insert(next, grown(arrays[a], len, v))
            &&& end.structs == structs.insert(s, seq![Value::Ref(next), Value::I32(len + 1)])
            &&& end.next_address == next + 1
        }),
{
    let code = f.instructions@;
    assert(code =~= seq![
        WasmInstr::LocalGet(0),
        WasmInstr::StructGet { struct_type_index: l.struct_type, field_index: 0 },
        WasmInstr::ArrayLen,
        WasmInstr::LocalGet(0),
        WasmInstr::StructGet { struct_type_index: l.struct_type, field_index: 1 },
        WasmInstr::LocalTee(2),
        WasmInstr::I32Eq,
        WasmInstr::If,
        WasmInstr::LocalGet(2),
        WasmInstr::I32Const(1),
        WasmInstr::I32Shl,
        WasmInstr::ArrayNewDefault(l.array_type),
        WasmInstr::LocalTee(3),
        WasmInstr::I32Const(0),
        WasmInstr::LocalGet(0),
        WasmInstr::StructGet { struct_type_index: l.struct_type, field_index: 0 },
        WasmInstr::I32Const(0),
        WasmInstr::LocalGet(2),
        WasmInstr::ArrayCopy { array_type_index_dst: l.array_type, array_type_index_src: l.array_type },
        WasmInstr::LocalGet(0),
        WasmInstr::LocalGet(3),
        WasmInstr::StructSet { struct_type_index: l.struct_type, field_index: 0 },
        WasmInstr::End,
        WasmInstr::LocalGet(0),
        WasmInstr::StructGet { struct_type_index: l.struct_type, field_index: 0 },
        WasmInstr::LocalGet(2),
        WasmInstr::LocalGet(1),
        WasmInstr::ArraySet(l.array_type),
        WasmInstr::LocalGet(0),
        WasmInstr::LocalGet(2),
        WasmInstr::I32Const(1),
        WasmInstr::I32Add,
        WasmInstr::StructSet { struct_type_index: l.struct_type, field_index: 1 },
        WasmInstr::End,
    ]);
    let start = push_start(structs, arrays, s, v, next);
    assert(wrap_i32(len + 1) == len + 1);
    vstd::arithmetic::power2::lemma2_to64();
    assert(wrap_i32(len * 2) == 2 * len);
    assert(run_n(start, code, 0) == start);
    assert(run_n(start, code, 1).stack =~= seq![Value::Ref(s)]);
    assert(run_n(start, code, 2).stack =~= seq![Value::Ref(a)]);
    assert(run_n(start, code, 3).stack =~= seq![Value::I32(len)]);
    assert(run_n(start, code, 4).stack =~= seq![Value::I32(len), Value::Ref(s)]);
    assert(run_n(start, code, 5).stack =~= seq![Value::I32(len), Value::I32(len)]);
    assert(run_n(start, code, 6).locals =~= seq![Value::Ref(s), v, Value::I32(len), Value::Null]);
    assert(run_n(start, code, 7).stack =~= seq![Value::I32(1)]);
    assert(run_n(start, code, 8).stack =~= Seq::<Value>::empty() && run_n(start, code, 8).skipping == 0);
    assert(run_n(start, code, 9).stack =~= seq![Value::I32(len)]);
    assert(run_n(start, code, 10).stack =~= seq![Value::I32(len), Value::I32(1)]);
    assert(run_n(start, code, 11).stack =~= seq![Value::I32(2 * len)]);
    assert(run_n(start, code, 12).stack =~= seq![Value::Ref(next)]);
    assert(run_n(start, code, 12).arrays == arrays.insert(next, Seq::new((2 * len) as nat, |k: int| Value::Default)));
    assert(run_n(start, code, 13).locals =~= seq![Value::Ref(s), v, Value::I32(len), Value::Ref(next)]);
    assert(run_n(start, code, 14).stack =~= seq![Value::Ref(next), Value::I32(0)]);
    assert(run_n(start, code, 15).stack =~= seq![Value::Ref(next), Value::I32(0), Value::Ref(s)]);
    assert(run_n(start, code, 16).stack =~= seq![Value::Ref(next), Value::I32(0), Value::Ref(a)]);
    assert(run_n(start, code, 17).stack =~= seq![Value::Ref(next), Value::I32(0), Value::Ref(a), Value::I32(0)]);
    assert(run_n(start, code, 18).stack =~= seq![Value::Ref(next), Value::I32(0), Value::Ref(a), Value::I32(0), Value::I32(len)]);
    let copied = Seq::new((2 * len) as nat, |k: int| if k < len { arrays[a][k] } else { Value::Default });
    assert(run_n(start, code, 19).stack =~= Seq::<Value>::empty());
    assert(run_n(start, code, 19).arrays[next] =~= copied);
    assert(run_n(start, code, 19).arrays =~= arrays.insert(next, copied));
    assert(run_n(start, code, 20).stack =~= seq![Value::Ref(s)]);
    assert(run_n(start, code, 21).stack =~= seq![Value::Ref(s), Value::Ref(next)]);
    assert(structs[s].update(0, Value::Ref(next)) =~= seq![Value::Ref(next), Value::I32(len)]);
    assert(run_n(start, code, 22).stack =~= Seq::<Value>::empty());
    assert(run_n(start, code, 22).structs == structs.insert(s, seq![Value::Ref(next), Value::I32(len)]));
    assert(run_n(start, code, 23) == run_n(start, code, 22));
    assert(run_n(start, code, 24).stack =~= seq![Value::Ref(s)]);
    assert(run_n(start, code, 25).stack =~= seq![Value::Ref(next)]);
    assert(run_n(start, code, 26).stack =~= seq![Value::Ref(next), Value::I32(len)]);
    assert(run_n(start, code, 27).stack =~= seq![Value::Ref(next), Value::I32(len), v]);
    assert(copied.update(len, v) =~= grown(arrays[a], len, v));
    assert(run_n(start, code, 28).stack =~= Seq::<Value>::empty());
    assert(run_n(start, code, 28).arrays =~= arrays.insert(next, grown(arrays[a], len, v)));
    assert(run_n(start, code, 29).stack =~= seq![Value::Ref(s)]);
    assert(run_n(start, code, 30).stack =~= seq![Value::Ref(s), Value::I32(len)]);
    assert(run_n(start, code, 31).stack =~= seq![Value::Ref(s), Value::I32(len), Value::I32(1)]);
    assert(run_n(start, code, 32).stack =~= seq![Value::Ref(s), Value::I32(len + 1)]);
    assert(seq![Value::Ref(next), Value::I32(len)].update(1, Value::I32(len + 1)) =~= seq![Value::Ref(next), Value::I32(len + 1)]);
    assert(run_n(start, code, 33).stack =~= Seq::<Value>::empty());
    assert(run_n(start, code, 33).structs =~= structs.insert(s, seq![Value::Ref(next), Value::I32(len + 1)]));
    assert(run_n(start, code, 34) == run_n(start, code, 33));
}
} // verus!
