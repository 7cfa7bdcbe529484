//! Spawning threads: into the current thread's stack, or as new threads.

use vstd::prelude::*;
use vstd::string::StringExecFns;
use super::{
    emit, new_body, MaybeStaticFunction, Populate, MemArg, RegisterDeps, StaticFunction,
    StaticFunctionRegistry, WasmInstr,
};
use super::dyn_array::{DynArrayGet, DynArrayNew, DynArrayPop, DynArrayPush};
use crate::registry::{
    index_of_key, law_indices_are_stable, law_registration_keeps_keys_distinct, registered, Entries,
    NamedRegistryItem, RegistryError,
};
use crate::wasm::mem_layout::{sprite, stage};
use crate::wasm::registries::globals::{is_threads_global, GlobalInfo, GlobalRegistry, ThreadsLayout};
use crate::wasm::registries::types::registry::{
    compound_key, entry_type, extends, lemma_extends_trans, lemma_with_key_index, CompoundTypeView, FieldType, RegistryItem,
    StorageType, TypeRegistry,
};
use crate::wasm::registries::types::stack::{
    ref_to_index, stack_group_whole, stack_member, stack_member_at,
};
use crate::wasm::registries::types::{TNullable, TStackArray, TStackStruct};
use crate::wasm::types::{HeapType, RefType, ValType};

verus! {

/// Where the spawning functions' types, globals and callees stand in the
/// module. Function indices count the imported functions.
#[derive(Clone, Copy, Debug, PartialEq, Eq, Structural)]
pub struct SpawnLayout {
    /// The global that holds every target's threads.
    pub target_threads_global: u32,
    pub target_threads_type: u32,
    pub stack_struct_type: u32,
    pub stack_struct_heap_type: HeapType,
    /// A non-nullable reference to a step function.
    pub step_func_ref: ValType,
    /// A nullable reference to a stack frame.
    pub stack_struct_ref: ValType,
    /// Non-nullable references to a thread's stack and to a target's threads.
    pub stack_array_ref: ValType,
    pub thread_array_ref: ValType,
    pub stack_array_get_fn: u32,
    pub stack_array_push_fn: u32,
    pub stack_struct_new_fn: u32,
    pub stack_struct_push_fn: u32,
    pub stack_struct_pop_fn: u32,
    /// Offset of the sprite's layer number (an `i16`) within its block.
    pub layer_offset: u32,
}

/// The size of a sprite's block, as an `i32` constant.
pub open spec fn sprite_block_size() -> i32 {
    80
}

fn sprite_block_size_value() -> (r: i32)
    ensures
        r == sprite_block_size(),
        r == sprite::BLOCK_SIZE,
{
    80
}

/// Where a sprite's layer number is read: after the stage's block, at
/// `layer_offset` within the sprite's block.
pub open spec fn layer_mem_arg(layer_offset: u32) -> MemArg {
    MemArg { offset: (stage::BLOCK_SIZE + layer_offset) as u64, align: 1, memory_index: 0 }
}

fn layer_mem_arg_value(layer_offset: u32) -> (r: MemArg)
    ensures
        r == layer_mem_arg(layer_offset),
{
    MemArg { offset: stage::BLOCK_SIZE as u64 + layer_offset as u64, align: 1, memory_index: 0 }
}

/// Spawns a thread in the current thread's stack, so that it runs to its end
/// before the current thread goes on: the step to return to replaces the top
/// frame, and the new step, with its argument struct, is pushed above it.
///
/// Takes five parameters: the index of the calling target, the current
/// thread's index, the step to spawn, the struct to pass to it, and the step
/// to return to.
pub struct SpawnThreadInStack;

/// Spawns a new thread with the given step, which is not run now but left for
/// the scheduler.
///
/// Takes three parameters: the index of the target to spawn the thread for,
/// the step, and the stack struct to spawn it with.
pub struct SpawnNewThread;

/// The body of [`SpawnThreadInStack`]. It leaves the function's own block
/// open: no final `end` follows it.
pub open spec fn spawn_thread_in_stack_body(l: SpawnLayout) -> Seq<WasmInstr> {
    Seq::empty()
        .push(WasmInstr::LocalGet(0))
        .push(WasmInstr::I32Eqz)
        .push(WasmInstr::If)
        .push(WasmInstr::LocalGet(0))
        .push(WasmInstr::I32Const(sprite_block_size()))
        .push(WasmInstr::I32Mul)
        .push(WasmInstr::I32Load16U(layer_mem_arg(l.layer_offset)))
        .push(WasmInstr::LocalSet(0))
        .push(WasmInstr::End)
        .push(WasmInstr::GlobalGet(l.target_threads_global))
        .push(WasmInstr::LocalGet(0))
        .push(WasmInstr::ArrayGet(l.target_threads_type))
        .push(WasmInstr::LocalGet(1))
        .push(WasmInstr::Call(l.stack_array_get_fn))
        .push(WasmInstr::LocalTee(5))
        .push(WasmInstr::Call(l.stack_struct_pop_fn))
        .push(WasmInstr::Drop)
        .push(WasmInstr::LocalGet(5))
        .push(WasmInstr::LocalGet(4))
        .push(WasmInstr::RefNull(l.stack_struct_heap_type))
        .push(WasmInstr::StructNew(l.stack_struct_type))
        .push(WasmInstr::Call(l.stack_struct_push_fn))
        .push(WasmInstr::LocalGet(5))
        .push(WasmInstr::LocalGet(2))
        .push(WasmInstr::LocalGet(3))
        .push(WasmInstr::StructNew(l.stack_struct_type))
        .push(WasmInstr::Call(l.stack_struct_push_fn))
}

/// The body of [`SpawnNewThread`].
pub open spec fn spawn_new_thread_body(l: SpawnLayout) -> Seq<WasmInstr> {
    Seq::empty()
        .push(WasmInstr::LocalGet(0))
        .push(WasmInstr::I32Eqz)
        .push(WasmInstr::If)
        .push(WasmInstr::LocalGet(0))
        .push(WasmInstr::I32Const(sprite_block_size()))
        .push(WasmInstr::I32Mul)
        .push(WasmInstr::I32Load16U(layer_mem_arg(l.layer_offset)))
        .push(WasmInstr::LocalSet(0))
        .push(WasmInstr::End)
        .push(WasmInstr::GlobalGet(l.target_threads_global))
        .push(WasmInstr::LocalGet(0))
        .push(WasmInstr::ArrayGet(l.target_threads_type))
        .push(WasmInstr::I32Const(8))
        .push(WasmInstr::Call(l.stack_struct_new_fn))
        .push(WasmInstr::LocalTee(3))
        .push(WasmInstr::LocalGet(1))
        .push(WasmInstr::LocalGet(2))
        .push(WasmInstr::StructNew(l.stack_struct_type))
        .push(WasmInstr::Call(l.stack_struct_push_fn))
        .push(WasmInstr::LocalGet(3))
        .push(WasmInstr::Call(l.stack_array_push_fn))
        .push(WasmInstr::End)
}

impl SpawnThreadInStack {
    /// The function for the module laid out as `l`.
    pub fn populate(l: SpawnLayout) -> (r: StaticFunction)
        ensures
            r.instructions@ == spawn_thread_in_stack_body(l),
            r.params@ == seq![
                ValType::I32,
                ValType::I32,
                l.step_func_ref,
                l.stack_struct_ref,
                l.step_func_ref,
            ],
            r.returns@ == Seq::<ValType>::empty(),
            r.locals@ == seq![l.stack_array_ref],
            r.export is None,
            r.well_formed(),
            scan_depth(r) == 1,
    {
        let ghost n: int = 6;
        let mut body = new_body();
        emit(&mut body, WasmInstr::LocalGet(0), Ghost(n));
        emit(&mut body, WasmInstr::I32Eqz, Ghost(n));
        emit(&mut body, WasmInstr::If, Ghost(n));
        emit(&mut body, WasmInstr::LocalGet(0), Ghost(n));
        emit(&mut body, WasmInstr::I32Const(sprite_block_size_value()), Ghost(n));
        emit(&mut body, WasmInstr::I32Mul, Ghost(n));
        emit(&mut body, WasmInstr::I32Load16U(layer_mem_arg_value(l.layer_offset)), Ghost(n));
        emit(&mut body, WasmInstr::LocalSet(0), Ghost(n));
        emit(&mut body, WasmInstr::End, Ghost(n));
        emit(&mut body, WasmInstr::GlobalGet(l.target_threads_global), Ghost(n));
        emit(&mut body, WasmInstr::LocalGet(0), Ghost(n));
        emit(&mut body, WasmInstr::ArrayGet(l.target_threads_type), Ghost(n));
        emit(&mut body, WasmInstr::LocalGet(1), Ghost(n));
        emit(&mut body, WasmInstr::Call(l.stack_array_get_fn), Ghost(n));
        emit(&mut body, WasmInstr::LocalTee(5), Ghost(n));
        emit(&mut body, WasmInstr::Call(l.stack_struct_pop_fn), Ghost(n));
        emit(&mut body, WasmInstr::Drop, Ghost(n));
        emit(&mut body, WasmInstr::LocalGet(5), Ghost(n));
        emit(&mut body, WasmInstr::LocalGet(4), Ghost(n));
        emit(&mut body, WasmInstr::RefNull(l.stack_struct_heap_type), Ghost(n));
        emit(&mut body, WasmInstr::StructNew(l.stack_struct_type), Ghost(n));
        emit(&mut body, WasmInstr::Call(l.stack_struct_push_fn), Ghost(n));
        emit(&mut body, WasmInstr::LocalGet(5), Ghost(n));
        emit(&mut body, WasmInstr::LocalGet(2), Ghost(n));
        emit(&mut body, WasmInstr::LocalGet(3), Ghost(n));
        emit(&mut body, WasmInstr::StructNew(l.stack_struct_type), Ghost(n));
        emit(&mut body, WasmInstr::Call(l.stack_struct_push_fn), Ghost(n));
        let params: Vec<ValType> = vec![
            ValType::I32,
            ValType::I32,
            l.step_func_ref,
            l.stack_struct_ref,
            l.step_func_ref,
        ];
        let locals: Vec<ValType> = vec![l.stack_array_ref];
        StaticFunction { instructions: body, params, returns: Vec::new(), locals, export: None }
    }
}

impl SpawnNewThread {
    /// The function for the module laid out as `l`.
    pub fn populate(l: SpawnLayout) -> (r: StaticFunction)
        ensures
            r.instructions@ == spawn_new_thread_body(l),
            r.params@ == seq![ValType::I32, l.step_func_ref, l.stack_struct_ref],
            r.returns@ == Seq::<ValType>::empty(),
            r.locals@ == seq![l.thread_array_ref],
            r.export is None,
            r.well_formed(),
            r.closed(),
    {
        let ghost n: int = 4;
        let mut body = new_body();
        emit(&mut body, WasmInstr::LocalGet(0), Ghost(n));
        emit(&mut body, WasmInstr::I32Eqz, Ghost(n));
        emit(&mut body, WasmInstr::If, Ghost(n));
        emit(&mut body, WasmInstr::LocalGet(0), Ghost(n));
        emit(&mut body, WasmInstr::I32Const(sprite_block_size_value()), Ghost(n));
        emit(&mut body, WasmInstr::I32Mul, Ghost(n));
        emit(&mut body, WasmInstr::I32Load16U(layer_mem_arg_value(l.layer_offset)), Ghost(n));
        emit(&mut body, WasmInstr::LocalSet(0), Ghost(n));
        emit(&mut body, WasmInstr::End, Ghost(n));
        emit(&mut body, WasmInstr::GlobalGet(l.target_threads_global), Ghost(n));
        emit(&mut body, WasmInstr::LocalGet(0), Ghost(n));
        emit(&mut body, WasmInstr::ArrayGet(l.target_threads_type), Ghost(n));
        emit(&mut body, WasmInstr::I32Const(8), Ghost(n));
        emit(&mut body, WasmInstr::Call(l.stack_struct_new_fn), Ghost(n));
        emit(&mut body, WasmInstr::LocalTee(3), Ghost(n));
        emit(&mut body, WasmInstr::LocalGet(1), Ghost(n));
        emit(&mut body, WasmInstr::LocalGet(2), Ghost(n));
        emit(&mut body, WasmInstr::StructNew(l.stack_struct_type), Ghost(n));
        emit(&mut body, WasmInstr::Call(l.stack_struct_push_fn), Ghost(n));
        emit(&mut body, WasmInstr::LocalGet(3), Ghost(n));
        emit(&mut body, WasmInstr::Call(l.stack_array_push_fn), Ghost(n));
        emit(&mut body, WasmInstr::End, Ghost(n));
        let params: Vec<ValType> = vec![ValType::I32, l.step_func_ref, l.stack_struct_ref];
        let locals: Vec<ValType> = vec![l.thread_array_ref];
        StaticFunction { instructions: body, params, returns: Vec::new(), locals, export: None }
    }
}

/// The name under which the static function `T` is registered.
pub open spec fn fn_name<T: NamedRegistryItem<MaybeStaticFunction>>() -> Seq<char> {
    T::item_name()
}

/// The entries after registering the static function `T`.
pub open spec fn with_fn<T: NamedRegistryItem<MaybeStaticFunction>>(
    entries: Entries<MaybeStaticFunction>,
) -> Entries<MaybeStaticFunction> {
    registered(entries, T::item_name(), T::item_value())
}

/// The index of the static function `T` among all functions, the
/// `imported` imported ones first.
pub open spec fn fn_index<T: NamedRegistryItem<MaybeStaticFunction>>(
    entries: Entries<MaybeStaticFunction>,
    imported: u32,
) -> int {
    imported + index_of_key(entries, T::item_name())
}

/// The static functions that [`SpawnNewThread`] calls, registered in
/// `before` to give `after`, stand where `l` says.
pub open spec fn new_thread_fns_fit(
    before: Entries<MaybeStaticFunction>,
    after: Entries<MaybeStaticFunction>,
    l: SpawnLayout,
    imported: u32,
) -> bool {
    &&& after == with_fn::<DynArrayPush<TNullable<TStackArray>>>(
        with_fn::<DynArrayPush<TNullable<TStackStruct>>>(
            with_fn::<DynArrayNew<TNullable<TStackStruct>>>(before),
        ),
    )
    &&& l.stack_struct_new_fn == fn_index::<DynArrayNew<TNullable<TStackStruct>>>(after, imported)
    &&& l.stack_struct_push_fn == fn_index::<DynArrayPush<TNullable<TStackStruct>>>(after, imported)
    &&& l.stack_array_push_fn == fn_index::<DynArrayPush<TNullable<TStackArray>>>(after, imported)
}

/// The static functions that [`SpawnThreadInStack`] calls, registered in
/// `before` to give `after`, stand where `l` says.
pub open spec fn in_stack_fns_fit(
    before: Entries<MaybeStaticFunction>,
    after: Entries<MaybeStaticFunction>,
    l: SpawnLayout,
    imported: u32,
) -> bool {
    &&& after == with_fn::<DynArrayPop<TNullable<TStackStruct>>>(
        with_fn::<DynArrayGet<TNullable<TStackArray>>>(
            with_fn::<DynArrayPush<TNullable<TStackStruct>>>(before),
        ),
    )
    &&& l.stack_struct_push_fn == fn_index::<DynArrayPush<TNullable<TStackStruct>>>(after, imported)
    &&& l.stack_array_get_fn == fn_index::<DynArrayGet<TNullable<TStackArray>>>(after, imported)
    &&& l.stack_struct_pop_fn == fn_index::<DynArrayPop<TNullable<TStackStruct>>>(after, imported)
}

/// Whether the types fit a layout does not depend on its function indices.
proof fn lemma_fit_ignores_functions(items: Seq<RegistryItem>, a: SpawnLayout, b: SpawnLayout)
    requires
        spawn_types_fit(items, a),
        a.target_threads_type == b.target_threads_type,
        a.stack_struct_type == b.stack_struct_type,
        a.stack_struct_heap_type == b.stack_struct_heap_type,
        a.step_func_ref == b.step_func_ref,
        a.stack_struct_ref == b.stack_struct_ref,
        a.stack_array_ref == b.stack_array_ref,
        a.thread_array_ref == b.thread_array_ref,
    ensures
        spawn_types_fit(items, b),
{
    let s = choose|s: int|
        entry_type(items, s) == Some(target_threads_view(a.thread_array_ref)) && #[trigger] entry_type(
            items,
            a.target_threads_type as int,
        ) == Some(CompoundTypeView::Array(StorageType::Val(ref_to_index(false, s)), true));
    assert(entry_type(items, b.target_threads_type as int) == Some(
        CompoundTypeView::Array(StorageType::Val(ref_to_index(false, s)), true),
    ));
}

/// Registering a key gives it an index below the new number of entries,
/// which is at most one more than before.
proof fn lemma_registered_index(
    entries: Entries<MaybeStaticFunction>,
    key: Seq<char>,
    value: MaybeStaticFunction,
)
    requires
        crate::registry::distinct_keys(entries),
    ensures
        0 <= index_of_key(registered(entries, key, value), key) < registered(entries, key, value).len()
            <= entries.len() + 1,
        crate::registry::distinct_keys(registered(entries, key, value)),
{
    law_registration_keeps_keys_distinct(entries, key, value);
    let after = registered(entries, key, value);
    let w = choose|w: int| 0 <= w < after.len() && #[trigger] after[w].0 == key;
    assert(after[w].0 == key);
}

/// The index among all functions of the static function at `i`.
fn function_index(imported: u32, i: u32) -> (r: Result<u32, RegistryError>)
    ensures
        r matches Ok(n) ==> n == imported + i,
        r is Err <==> imported + i > u32::MAX,
{
    match imported.checked_add(i) {
        Some(n) => Ok(n),
        None => Err(RegistryError::IndexOutOfBounds),
    }
}

impl SpawnThreadInStack {
    /// The function as the module's registries lay it out: registers the
    /// types, the threads global and the static functions that it uses, in
    /// that order, and gives it populated. `layer_offset` is where a sprite's
    /// layer number stands in its block.
    pub fn try_override(
        types: &mut TypeRegistry,
        globals: &mut GlobalRegistry,
        static_functions: &mut StaticFunctionRegistry,
        num_sprites: u32,
        imported_func_count: u32,
        layer_offset: u32,
    ) -> (r: Result<MaybeStaticFunction, RegistryError>)
        requires
            old(types).well_formed(),
            stack_group_whole(old(types).keys()),
            old(globals).wf(),
            old(static_functions).well_formed(),
        ensures
            final(types).well_formed(),
            final(globals).wf(),
            final(static_functions).well_formed(),
            extends(old(types).items(), final(types).items()),
            old(types).items().len() + 8 <= u32::MAX && old(globals)@.len() <= u32::MAX
                && imported_func_count + old(static_functions).entries().len() + 3 <= u32::MAX
                ==> r is Ok,
            r matches Ok(m) ==> exists|l: SpawnLayout|
                {
                    &&& spawn_types_fit(final(types).items(), l)
                    &&& threads_global_fits(old(globals)@, final(globals)@, l, num_sprites)
                    &&& l.layer_offset == layer_offset
                    &&& in_stack_fns_fit(
                        old(static_functions).entries(),
                        final(static_functions).entries(),
                        l,
                        imported_func_count,
                    )
                    &&& m.register_deps == RegisterDeps::Nothing
                    &&& m.static_function matches Some(f) && f.instructions@
                        == spawn_thread_in_stack_body(l) && f.params@ == seq![
                        ValType::I32,
                        ValType::I32,
                        l.step_func_ref,
                        l.stack_struct_ref,
                        l.step_func_ref,
                    ] && f.returns@ == Seq::<ValType>::empty() && f.locals@ == seq![
                        l.stack_array_ref,
                    ] && f.export is None
                },
    {
        let mut l = match spawn_types(types, globals, num_sprites, layer_offset) {
            Ok(l) => l,
            Err(e) => return Err(e),
        };
        let ghost e0 = static_functions.entries();
        let ghost l0 = l;
        proof {
            static_functions.lemma_named_distinct();
        }
        let r_push_i = static_functions.register::<DynArrayPush<TNullable<TStackStruct>>, u32>();
        proof {
            lemma_registered_index(
                e0,
                fn_name::<DynArrayPush<TNullable<TStackStruct>>>(),
                <DynArrayPush<TNullable<TStackStruct>> as NamedRegistryItem<MaybeStaticFunction>>::item_value(),
            );
        }
        let push_i = match r_push_i {
            Ok(i) => i,
            Err(e) => return Err(e),
        };
        let ghost e1 = static_functions.entries();
        let r_get_i = static_functions.register::<DynArrayGet<TNullable<TStackArray>>, u32>();
        proof {
            lemma_registered_index(
                e1,
                fn_name::<DynArrayGet<TNullable<TStackArray>>>(),
                <DynArrayGet<TNullable<TStackArray>> as NamedRegistryItem<MaybeStaticFunction>>::item_value(),
            );
        }
        let get_i = match r_get_i {
            Ok(i) => i,
            Err(e) => return Err(e),
        };
        let ghost e2 = static_functions.entries();
        let r_pop_i = static_functions.register::<DynArrayPop<TNullable<TStackStruct>>, u32>();
        proof {
            lemma_registered_index(
                e2,
                fn_name::<DynArrayPop<TNullable<TStackStruct>>>(),
                <DynArrayPop<TNullable<TStackStruct>> as NamedRegistryItem<MaybeStaticFunction>>::item_value(),
            );
        }
        let pop_i = match r_pop_i {
            Ok(i) => i,
            Err(e) => return Err(e),
        };
        l.stack_struct_push_fn = match function_index(imported_func_count, push_i) {
            Ok(n) => n,
            Err(e) => return Err(e),
        };
        l.stack_array_get_fn = match function_index(imported_func_count, get_i) {
            Ok(n) => n,
            Err(e) => return Err(e),
        };
        l.stack_struct_pop_fn = match function_index(imported_func_count, pop_i) {
            Ok(n) => n,
            Err(e) => return Err(e),
        };
        proof {
            let k1 = fn_name::<DynArrayPush<TNullable<TStackStruct>>>();
            let k2 = fn_name::<DynArrayGet<TNullable<TStackArray>>>();
            let k3 = fn_name::<DynArrayPop<TNullable<TStackStruct>>>();
            let v1 = <DynArrayPush<TNullable<TStackStruct>> as NamedRegistryItem<MaybeStaticFunction>>::item_value();
            let v2 = <DynArrayGet<TNullable<TStackArray>> as NamedRegistryItem<MaybeStaticFunction>>::item_value();
            let v3 = <DynArrayPop<TNullable<TStackStruct>> as NamedRegistryItem<MaybeStaticFunction>>::item_value();
            law_registration_keeps_keys_distinct(e0, k1, v1);
            law_registration_keeps_keys_distinct(e1, k2, v2);
            law_indices_are_stable(e1, k2, v2, k1);
            let w = index_of_key(e1, k1);
            assert(e1[w].0 == k1);
            assert(e2[w] == e1[w]);
            law_indices_are_stable(e2, k3, v3, k1);
            law_indices_are_stable(e2, k3, v3, k2);
        }
        let f = SpawnThreadInStack::populate(l);
        proof {
            assert(in_stack_fns_fit(e0, static_functions.entries(), l, imported_func_count));
            lemma_fit_ignores_functions(types.items(), l0, l);
            assert(threads_layout_of(l) == threads_layout_of(l0));
            assert(threads_global_fits(old(globals)@, globals@, l, num_sprites));
        }
        Ok(MaybeStaticFunction { static_function: Some(f), register_deps: RegisterDeps::Nothing, maybe_populate: Populate::Never })
    }
}

impl SpawnNewThread {
    /// The function as the module's registries lay it out: registers the
    /// types, the threads global and the static functions that it uses, in
    /// that order, and gives it populated. `layer_offset` is where a sprite's
    /// layer number stands in its block.
    pub fn try_override(
        types: &mut TypeRegistry,
        globals: &mut GlobalRegistry,
        static_functions: &mut StaticFunctionRegistry,
        num_sprites: u32,
        imported_func_count: u32,
        layer_offset: u32,
    ) -> (r: Result<MaybeStaticFunction, RegistryError>)
        requires
            old(types).well_formed(),
            stack_group_whole(old(types).keys()),
            old(globals).wf(),
            old(static_functions).well_formed(),
        ensures
            final(types).well_formed(),
            final(globals).wf(),
            final(static_functions).well_formed(),
            extends(old(types).items(), final(types).items()),
            old(types).items().len() + 8 <= u32::MAX && old(globals)@.len() <= u32::MAX
                && imported_func_count + old(static_functions).entries().len() + 3 <= u32::MAX
                ==> r is Ok,
            r matches Ok(m) ==> exists|l: SpawnLayout|
                {
                    &&& spawn_types_fit(final(types).items(), l)
                    &&& threads_global_fits(old(globals)@, final(globals)@, l, num_sprites)
                    &&& l.layer_offset == layer_offset
                    &&& new_thread_fns_fit(
                        old(static_functions).entries(),
                        final(static_functions).entries(),
                        l,
                        imported_func_count,
                    )
                    &&& m.register_deps == RegisterDeps::Nothing
                    &&& m.static_function matches Some(f) && f.instructions@
                        == spawn_new_thread_body(l) && f.params@ == seq![
                        ValType::I32,
                        l.step_func_ref,
                        l.stack_struct_ref,
                    ] && f.returns@ == Seq::<ValType>::empty() && f.locals@ == seq![
                        l.thread_array_ref,
                    ] && f.export is None
                },
    {
        let mut l = match spawn_types(types, globals, num_sprites, layer_offset) {
            Ok(l) => l,
            Err(e) => return Err(e),
        };
        let ghost e0 = static_functions.entries();
        let ghost l0 = l;
        proof {
            static_functions.lemma_named_distinct();
        }
        let r_new_i = static_functions.register::<DynArrayNew<TNullable<TStackStruct>>, u32>();
        proof {
            lemma_registered_index(
                e0,
                fn_name::<DynArrayNew<TNullable<TStackStruct>>>(),
                <DynArrayNew<TNullable<TStackStruct>> as NamedRegistryItem<MaybeStaticFunction>>::item_value(),
            );
        }
        let new_i = match r_new_i {
            Ok(i) => i,
            Err(e) => return Err(e),
        };
        let ghost e1 = static_functions.entries();
        let r_push_i = static_functions.register::<DynArrayPush<TNullable<TStackStruct>>, u32>();
        proof {
            lemma_registered_index(
                e1,
                fn_name::<DynArrayPush<TNullable<TStackStruct>>>(),
                <DynArrayPush<TNullable<TStackStruct>> as NamedRegistryItem<MaybeStaticFunction>>::item_value(),
            );
        }
        let push_i = match r_push_i {
            Ok(i) => i,
            Err(e) => return Err(e),
        };
        let ghost e2 = static_functions.entries();
        let r_stack_push_i = static_functions.register::<DynArrayPush<TNullable<TStackArray>>, u32>();
        proof {
            lemma_registered_index(
                e2,
                fn_name::<DynArrayPush<TNullable<TStackArray>>>(),
                <DynArrayPush<TNullable<TStackArray>> as NamedRegistryItem<MaybeStaticFunction>>::item_value(),
            );
        }
        let stack_push_i = match r_stack_push_i {
            Ok(i) => i,
            Err(e) => return Err(e),
        };
        l.stack_struct_new_fn = match function_index(imported_func_count, new_i) {
            Ok(n) => n,
            Err(e) => return Err(e),
        };
        l.stack_struct_push_fn = match function_index(imported_func_count, push_i) {
            Ok(n) => n,
            Err(e) => return Err(e),
        };
        l.stack_array_push_fn = match function_index(imported_func_count, stack_push_i) {
            Ok(n) => n,
            Err(e) => return Err(e),
        };
        proof {
            let k1 = fn_name::<DynArrayNew<TNullable<TStackStruct>>>();
            let k2 = fn_name::<DynArrayPush<TNullable<TStackStruct>>>();
            let k3 = fn_name::<DynArrayPush<TNullable<TStackArray>>>();
            let v1 = <DynArrayNew<TNullable<TStackStruct>> as NamedRegistryItem<MaybeStaticFunction>>::item_value();
            let v2 = <DynArrayPush<TNullable<TStackStruct>> as NamedRegistryItem<MaybeStaticFunction>>::item_value();
            let v3 = <DynArrayPush<TNullable<TStackArray>> as NamedRegistryItem<MaybeStaticFunction>>::item_value();
            law_registration_keeps_keys_distinct(e0, k1, v1);
            law_registration_keeps_keys_distinct(e1, k2, v2);
            law_indices_are_stable(e1, k2, v2, k1);
            let w = index_of_key(e1, k1);
            assert(e1[w].0 == k1);
            assert(e2[w] == e1[w]);
            law_indices_are_stable(e2, k3, v3, k1);
            law_indices_are_stable(e2, k3, v3, k2);
        }
        let f = SpawnNewThread::populate(l);
        proof {
            assert(new_thread_fns_fit(e0, static_functions.entries(), l, imported_func_count));
            lemma_fit_ignores_functions(types.items(), l0, l);
            assert(threads_layout_of(l) == threads_layout_of(l0));
            assert(threads_global_fits(old(globals)@, globals@, l, num_sprites));
        }
        Ok(MaybeStaticFunction { static_function: Some(f), register_deps: RegisterDeps::Nothing, maybe_populate: Populate::Never })
    }
}

/// The number of blocks that a well-formed function leaves open.
pub open spec fn scan_depth(f: StaticFunction) -> int {
    super::scan(f.instructions@, f.local_count())->0
}

impl NamedRegistryItem<MaybeStaticFunction> for SpawnThreadInStack {
    open spec fn item_name() -> Seq<char> {
        "hyperquark::wasm::registries::functions::spawn_threads::SpawnThreadInStack"@
    }

    open spec fn item_value() -> MaybeStaticFunction {
        MaybeStaticFunction { static_function: None, register_deps: RegisterDeps::Nothing, maybe_populate: Populate::Never }
    }

    fn name() -> (r: String) {
        String::from_str("hyperquark::wasm::registries::functions::spawn_threads::SpawnThreadInStack")
    }

    fn value() -> (r: MaybeStaticFunction) {
        MaybeStaticFunction { static_function: None, register_deps: RegisterDeps::Nothing, maybe_populate: Populate::Never }
    }
}

impl NamedRegistryItem<MaybeStaticFunction> for SpawnNewThread {
    open spec fn item_name() -> Seq<char> {
        "hyperquark::wasm::registries::functions::spawn_threads::SpawnNewThread"@
    }

    open spec fn item_value() -> MaybeStaticFunction {
        MaybeStaticFunction { static_function: None, register_deps: RegisterDeps::Nothing, maybe_populate: Populate::Never }
    }

    fn name() -> (r: String) {
        String::from_str("hyperquark::wasm::registries::functions::spawn_threads::SpawnNewThread")
    }

    fn value() -> (r: MaybeStaticFunction) {
        MaybeStaticFunction { static_function: None, register_deps: RegisterDeps::Nothing, maybe_populate: Populate::Never }
    }
}

/// The index of the type that a concrete reference points to.
pub open spec fn ref_index(v: ValType) -> int {
    match v {
        ValType::Ref(RefType { heap_type: HeapType::Concrete(i), .. }) => i as int,
        _ => -1,
    }
}

/// `v` is a reference, nullable as `nullable` says, to the stack group's
/// type number `member`.
pub open spec fn ref_to_member(items: Seq<RegistryItem>, v: ValType, nullable: bool, member: u32) -> bool {
    &&& v == ref_to_index(nullable, ref_index(v))
    &&& stack_member_at(items, ref_index(v), member)
}

/// The entry at `t` is the dynamic array of a target's threads: a struct of
/// its array of nullable references to stacks (the type at `stack`), and of
/// the number of them in use.
pub open spec fn is_thread_array(items: Seq<RegistryItem>, t: int, stack: int) -> bool {
    exists|a: int|
        entry_type(items, a) == Some(
            CompoundTypeView::Array(StorageType::Val(ref_to_index(true, stack)), true),
        ) && #[trigger] entry_type(items, t) == Some(dyn_array_view(a))
}

/// A dynamic array's struct: its array, at index `a`, and its length.
pub open spec fn dyn_array_view(a: int) -> CompoundTypeView {
    CompoundTypeView::Struct(
        seq![
            FieldType { element_type: StorageType::Val(ref_to_index(false, a)), mutable: true },
            FieldType { element_type: StorageType::Val(ValType::I32), mutable: true },
        ],
    )
}

/// A target's threads: its number and its dynamic array of threads.
pub open spec fn target_threads_view(thread_array_ref: ValType) -> CompoundTypeView {
    CompoundTypeView::Struct(
        seq![
            FieldType { element_type: StorageType::Val(ValType::I32), mutable: true },
            FieldType { element_type: StorageType::Val(thread_array_ref), mutable: true },
        ],
    )
}

/// The types that `l` names stand in a registry of `items` as the spawning
/// functions need them.
pub open spec fn spawn_types_fit(items: Seq<RegistryItem>, l: SpawnLayout) -> bool {
    &&& stack_member_at(items, l.stack_struct_type as int, 1)
    &&& l.stack_struct_heap_type == HeapType::Concrete(l.stack_struct_type)
    &&& l.stack_struct_ref == ref_to_index(true, l.stack_struct_type as int)
    &&& ref_to_member(items, l.step_func_ref, false, 0)
    &&& ref_to_member(items, l.stack_array_ref, false, 2)
    &&& l.thread_array_ref == ref_to_index(false, ref_index(l.thread_array_ref))
    &&& is_thread_array(items, ref_index(l.thread_array_ref), ref_index(l.stack_array_ref))
    &&& exists|s: int|
        entry_type(items, s) == Some(target_threads_view(l.thread_array_ref)) && #[trigger] entry_type(
            items,
            l.target_threads_type as int,
        ) == Some(
            CompoundTypeView::Array(StorageType::Val(ref_to_index(false, s)), true),
        )
}

/// `g` is the index of the global of every target's threads in `globals`,
/// registered in `before` with the types of `l` for `num_sprites` sprites.
pub open spec fn threads_global_fits(
    before: Entries<GlobalInfo>,
    globals: Entries<GlobalInfo>,
    l: SpawnLayout,
    num_sprites: u32,
) -> bool {
    &&& exists|info: GlobalInfo|
        is_threads_global(info, threads_layout_of(l), num_sprites) && globals == registered(
            before,
            "threadss"@,
            info,
        )
    &&& l.target_threads_global == index_of_key(globals, "threadss"@)
}

/// The types of the threads global that `l` names.
pub open spec fn threads_layout_of(l: SpawnLayout) -> ThreadsLayout {
    ThreadsLayout {
        thread_array_type: ref_index(l.thread_array_ref) as u32,
        target_thread_array_type: l.target_threads_type,
        target_thread_array_ref: ref_to_index(false, l.target_threads_type as int),
    }
}

proof fn lemma_entry_stays(items: Seq<RegistryItem>, more: Seq<RegistryItem>, i: int)
    requires
        extends(items, more),
        0 <= i < items.len(),
    ensures
        entry_type(more, i) == entry_type(items, i),
        more[i] == items[i],
{
}

proof fn lemma_member_stays(items: Seq<RegistryItem>, more: Seq<RegistryItem>, i: int, m: u32)
    requires
        extends(items, more),
        stack_member_at(items, i, m),
    ensures
        stack_member_at(more, i, m),
{
    assert(more[i] == items[i]);
}

/// Registers the global of every target's threads; it succeeds when its
/// index fits a `u32`.
fn threads_global(globals: &mut GlobalRegistry, threads: ThreadsLayout, num_sprites: u32) -> (r:
    Result<u32, RegistryError>)
    requires
        old(globals).wf(),
    ensures
        final(globals).wf(),
        exists|info: GlobalInfo|
            is_threads_global(info, threads, num_sprites) && final(globals)@ == registered(
                old(globals)@,
                "threadss"@,
                info,
            ),
        old(globals)@.len() <= u32::MAX ==> r is Ok,
        r matches Ok(g) ==> g == index_of_key(final(globals)@, "threadss"@),
{
    let ghost g0 = globals@;
    proof {
        globals.lemma_distinct_keys();
    }
    let rg = globals.threadss::<u32>(threads, num_sprites);
    proof {
        let key = "threadss"@;
        let info = choose|info: GlobalInfo|
            is_threads_global(info, threads, num_sprites) && globals@ == registered(g0, key, info);
        law_registration_keeps_keys_distinct(g0, key, info);
        if crate::registry::has_key(g0, key) {
            let w = index_of_key(g0, key);
            assert(g0[w].0 == key);
        } else {
            assert(globals@[g0.len() as int].0 == key);
            crate::registry::lemma_index_of_key(globals@, key, g0.len() as int);
        }
    }
    rg
}

/// Registers the types and the global that the spawning functions use, and
/// gives a layout with them and `layer_offset`; its function indices are
/// left at zero.
#[verifier::spinoff_prover]
fn spawn_types(
    types: &mut TypeRegistry,
    globals: &mut GlobalRegistry,
    num_sprites: u32,
    layer_offset: u32,
) -> (r: Result<SpawnLayout, RegistryError>)
    requires
        old(types).well_formed(),
        stack_group_whole(old(types).keys()),
        old(globals).wf(),
    ensures
        final(types).well_formed(),
        final(globals).wf(),
        extends(old(types).items(), final(types).items()),
        old(types).items().len() + 8 <= u32::MAX && old(globals)@.len() <= u32::MAX ==> r is Ok,
        r matches Ok(l) ==> {
            &&& spawn_types_fit(final(types).items(), l)
            &&& threads_global_fits(old(globals)@, final(globals)@, l, num_sprites)
            &&& l.layer_offset == layer_offset
        },
{
    let ghost t0 = types.items();
    let stack_struct_type = match stack_member(types, 1) {
        Ok(i) => i,
        Err(e) => return Err(e),
    };
    let ghost t1 = types.items();
    let step = match stack_member(types, 0) {
        Ok(i) => i,
        Err(e) => return Err(e),
    };
    let ghost t2 = types.items();
    let stack = match stack_member(types, 2) {
        Ok(i) => i,
        Err(e) => return Err(e),
    };
    let ghost t3 = types.items();
    let threads_elem = ValType::Ref(RefType { nullable: true, heap_type: HeapType::Concrete(stack) });
    let ghost k3 = types.keys();
    let ra = types.array::<u32>(StorageType::Val(threads_elem), true);
    proof {
        lemma_with_key_index(k3, compound_key(t3, CompoundTypeView::Array(StorageType::Val(threads_elem), true)));
    }
    let a = match ra {
        Ok(i) => i,
        Err(e) => return Err(e),
    };
    let ghost t4 = types.items();
    let thread_array_ref = ValType::Ref(RefType { nullable: false, heap_type: HeapType::Concrete(a) });
    let ghost k4 = types.keys();
    let fields = vec![
        FieldType { element_type: StorageType::Val(thread_array_ref), mutable: true },
        FieldType { element_type: StorageType::Val(ValType::I32), mutable: true },
    ];
    let ghost fv = fields@;
    let rt = types.struct_::<u32>(fields);
    proof {
        lemma_with_key_index(k4, compound_key(t4, CompoundTypeView::Struct(fv)));
    }
    let thread_array = match rt {
        Ok(i) => i,
        Err(e) => return Err(e),
    };
    let ghost t5 = types.items();
    let thread_array_ref = ValType::Ref(
        RefType { nullable: false, heap_type: HeapType::Concrete(thread_array) },
    );
    let ghost k5 = types.keys();
    let fields = vec![
        FieldType { element_type: StorageType::Val(ValType::I32), mutable: true },
        FieldType { element_type: StorageType::Val(thread_array_ref), mutable: true },
    ];
    let ghost fv = fields@;
    let rs = types.struct_::<u32>(fields);
    proof {
        lemma_with_key_index(k5, compound_key(t5, CompoundTypeView::Struct(fv)));
    }
    let target_threads = match rs {
        Ok(i) => i,
        Err(e) => return Err(e),
    };
    let ghost t6 = types.items();
    let target_threads_ref = ValType::Ref(
        RefType { nullable: false, heap_type: HeapType::Concrete(target_threads) },
    );
    let ghost k6 = types.keys();
    let rta = types.array::<u32>(StorageType::Val(target_threads_ref), true);
    proof {
        lemma_with_key_index(k6, compound_key(t6, CompoundTypeView::Array(StorageType::Val(target_threads_ref), true)));
    }
    let target_threads_type = match rta {
        Ok(i) => i,
        Err(e) => return Err(e),
    };
    let ghost t7 = types.items();
    let target_thread_array_ref = ValType::Ref(
        RefType { nullable: false, heap_type: HeapType::Concrete(target_threads_type) },
    );
    let threads = ThreadsLayout {
        thread_array_type: thread_array,
        target_thread_array_type: target_threads_type,
        target_thread_array_ref,
    };
let rg = threads_global(globals, threads, num_sprites);
    let target_threads_global: u32 = match rg {
        Ok(g) => g,
        Err(e) => return Err(e),
    };
    let l = SpawnLayout {
        target_threads_global,
        target_threads_type,
        stack_struct_type,
        stack_struct_heap_type: HeapType::Concrete(stack_struct_type),
        step_func_ref: ValType::Ref(RefType { nullable: false, heap_type: HeapType::Concrete(step) }),
        stack_struct_ref: ValType::Ref(
            RefType { nullable: true, heap_type: HeapType::Concrete(stack_struct_type) },
        ),
        stack_array_ref: ValType::Ref(RefType { nullable: false, heap_type: HeapType::Concrete(stack) }),
        thread_array_ref,
        stack_array_get_fn: 0,
        stack_array_push_fn: 0,
        stack_struct_new_fn: 0,
        stack_struct_push_fn: 0,
        stack_struct_pop_fn: 0,
        layer_offset,
    };
    proof {
        lemma_extends_trans(t3, t4, t5);
        lemma_extends_trans(t3, t5, t6);
        lemma_extends_trans(t3, t6, t7);
        lemma_extends_trans(t1, t2, t3);
        lemma_extends_trans(t1, t3, t7);
        lemma_extends_trans(t2, t3, t7);
        lemma_extends_trans(t0, t1, t7);
        lemma_member_stays(t1, t7, stack_struct_type as int, 1);
        lemma_member_stays(t2, t7, step as int, 0);
        lemma_member_stays(t3, t7, stack as int, 2);
        lemma_entry_stays(t4, t7, a as int);
        lemma_entry_stays(t5, t7, thread_array as int);
        lemma_entry_stays(t6, t7, target_threads as int);
        assert(is_thread_array(t7, thread_array as int, stack as int));
        assert(threads_layout_of(l) == threads);
        assert(stack_member_at(t7, l.stack_struct_type as int, 1));
        assert(ref_to_member(t7, l.step_func_ref, false, 0));
        assert(ref_to_member(t7, l.stack_array_ref, false, 2));
        assert(entry_type(t7, target_threads as int) == Some(target_threads_view(l.thread_array_ref)));
        assert(entry_type(t7, l.target_threads_type as int) == Some(
            CompoundTypeView::Array(StorageType::Val(ref_to_index(false, target_threads as int)), true),
        ));
        assert(spawn_types_fit(t7, l));
        assert(threads_global_fits(old(globals)@, globals@, l, num_sprites));
    }
    Ok(l)
}

} // verus!
