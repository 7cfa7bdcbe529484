//! The module's static functions: helper functions whose bodies are fixed
//! instruction sequences, registered by name and emitted after the steps.

pub mod dyn_array;
pub mod mark_waiting_flag;
pub mod semantics;
pub mod spawn_threads;
pub mod tick;
pub mod unreachable_dbg;

use vstd::prelude::*;
use crate::registry::{
    has_key, index_of_key, registered, Entries, NamedRegistry, NamedRegistryItem, RegistryType,
};
use crate::wasm::registries::types::{TNullable, TStackArray, TStackStruct};
use crate::wasm::registries::types::registry::{extends, lemma_extends_trans, RegistryItem, TypeRegistry};
use crate::wasm::registries::types::stack::stack_group_whole;
use crate::wasm::types::{HeapType, ValType};
use self::dyn_array::{
    dyn_array_populate, is_dyn_array_function, stack_dyn_array_layout, stack_dyn_layout_fits,
    DynArrayGet, DynArrayLayout, DynArrayLen,
};

verus! {

/// The memory operand of a load.
#[derive(Clone, Copy, Debug, PartialEq, Eq, Structural)]
pub struct MemArg {
    pub offset: u64,
    pub align: u32,
    pub memory_index: u32,
}

/// The instructions that static functions are written in: the WebAssembly
/// instructions they use, with block types left out as every block of theirs
/// takes and gives nothing.
#[derive(Clone, Copy, Debug, PartialEq, Eq, Structural)]
pub enum WasmInstr {
    Unreachable,
    Loop,
    If,
    Else,
    End,
    Br(u32),
    BrIf(u32),
    Return,
    Drop,
    TableGrow(u32),
    LocalGet(u32),
    LocalSet(u32),
    LocalTee(u32),
    GlobalGet(u32),
    GlobalSet(u32),
    TableSize(u32),
    TableGet(u32),
    I32Const(i32),
    I32Eqz,
    I32Eq,
    I32LtS,
    I32Add,
    I32Sub,
    I32Mul,
    I32Shl,
    I32Load16U(MemArg),
    Call(u32),
    CallRef(u32),
    RefNull(HeapType),
    RefIsNull,
    RefFunc(u32),
    RefAsNonNull,
    RefCastNonNull(HeapType),
    StructNew(u32),
    StructGet { struct_type_index: u32, field_index: u32 },
    StructSet { struct_type_index: u32, field_index: u32 },
    ArrayNewDefault(u32),
    ArrayGet(u32),
    ArraySet(u32),
    ArrayLen,
    ArrayCopy { array_type_index_dst: u32, array_type_index_src: u32 },
    ArrayInitData { array_type_index: u32, array_data_index: u32 },
    ArrayInitElem { array_type_index: u32, array_elem_index: u32 },
}

/// How an instruction changes the number of open blocks.
pub open spec fn depth_change(ins: WasmInstr) -> int {
    match ins {
        WasmInstr::Loop | WasmInstr::If => 1,
        WasmInstr::End => -1,
        _ => 0,
    }
}

/// Whether `ins` can stand where `depth` blocks are open (the function's own
/// block counted) in a function with `local_count` locals: a branch targets
/// an open block, an `else` stands in a block that the function opened, and a
/// local exists.
pub open spec fn instr_fits(ins: WasmInstr, depth: int, local_count: int) -> bool {
    match ins {
        WasmInstr::Else => depth >= 2,
        WasmInstr::Br(label) => label < depth,
        WasmInstr::BrIf(label) => label < depth,
        WasmInstr::LocalGet(i) => i < local_count,
        WasmInstr::LocalSet(i) => i < local_count,
        WasmInstr::LocalTee(i) => i < local_count,
        _ => true,
    }
}

/// Reads a function body from its start: the number of blocks left open
/// after it, the function's own block counted as one, or `None` where an
/// instruction does not fit (see [`instr_fits`]) or follows the end of the
/// function's own block.
pub open spec fn scan(body: Seq<WasmInstr>, local_count: int) -> Option<int>
    decreases body.len(),
{
    if body.len() == 0 {
        Some(1)
    } else {
        match scan(body.drop_last(), local_count) {
            Some(depth) => if depth >= 1 && instr_fits(body.last(), depth, local_count) {
                Some(depth + depth_change(body.last()))
            } else {
                None
            },
            None => None,
        }
    }
}

/// Appends `ins` to a body that it fits.
pub(crate) fn emit(body: &mut Vec<WasmInstr>, ins: WasmInstr, Ghost(local_count): Ghost<int>)
    requires
        scan(old(body)@, local_count) is Some,
        scan(old(body)@, local_count)->0 >= 1,
        instr_fits(ins, scan(old(body)@, local_count)->0, local_count),
    ensures
        final(body)@ == old(body)@.push(ins),
        scan(final(body)@, local_count) == Some(
            scan(old(body)@, local_count)->0 + depth_change(ins),
        ),
{
    body.push(ins);
    proof {
        assert(body@.drop_last() =~= old(body)@);
    }
}

/// A function whose body is known: its instructions, signature, extra locals
/// and the name it is exported under, if any.
#[derive(Clone, Debug)]
pub struct StaticFunction {
    pub instructions: Vec<WasmInstr>,
    pub params: Vec<ValType>,
    pub returns: Vec<ValType>,
    pub locals: Vec<ValType>,
    pub export: Option<String>,
}

impl StaticFunction {
    /// The number of locals, parameters included.
    pub open spec fn local_count(&self) -> int {
        self.params.len() + self.locals.len()
    }

    /// Every instruction fits where it stands: no block is closed that was
    /// not opened, no instruction follows the function's end, every branch
    /// targets an open block and every local exists.
    pub open spec fn well_formed(&self) -> bool {
        scan(self.instructions@, self.local_count()) is Some
    }

    /// The body closes every block it opens, the function's own included.
    pub open spec fn closed(&self) -> bool {
        scan(self.instructions@, self.local_count()) == Some(0int)
    }
}

/// Which static functions a static function calls, and so needs registered
/// before the module is finished.
#[derive(Clone, Copy, Debug, PartialEq, Eq, Structural)]
pub enum RegisterDeps {
    /// Calls none.
    Nothing,
    /// Calls the length and element getters of the dynamic arrays of stacks
    /// and of stack frames (see [`tick::Tick`]).
    TickHelpers,
}

/// A static function as registered: its body if it is known yet, and which
/// functions it needs registered.
#[derive(Clone, Debug)]
pub struct MaybeStaticFunction {
    pub static_function: Option<StaticFunction>,
    pub register_deps: RegisterDeps,
    pub maybe_populate: Populate,
}

/// The functions on dynamic arrays (see [`dyn_array`]).
#[derive(Clone, Copy, Debug, PartialEq, Eq, Structural)]
pub enum DynArrayOp {
    Push,
    Get,
    SetAt,
    Pop,
    New,
    Len,
    Clear,
}

/// The elements of the dynamic arrays of a thread's stack: nullable
/// references to stacks (a target's threads), or to stack frames (a stack).
#[derive(Clone, Copy, Debug, PartialEq, Eq, Structural)]
pub enum StackElement {
    Stack,
    Frame,
}

/// How a static function's body is made when the module is finished, if it
/// was given none: not at all, or as a function on a dynamic array of a
/// stack element, laid out in the type registry as it then stands.
#[derive(Clone, Copy, Debug, PartialEq, Eq, Structural)]
pub enum Populate {
    Never,
    DynArray(DynArrayOp, StackElement),
}

/// Why a static function could not be made or the static functions could not
/// be finished.
#[derive(Clone, Copy, Debug, PartialEq, Eq, Structural)]
pub enum StaticFunctionError {
    /// The tick was asked for with no target to run.
    NoTargets,
    /// A static function was called for that is not registered.
    NotRegistered,
    /// A registered static function was given no body, and no way to make
    /// one.
    NotPopulated,
    /// A function index does not fit in a `u32`.
    IndexOutOfBounds,
    /// A type that a body is made with has no index left in the type
    /// registry.
    TypeIndexOutOfBounds,
}

/// An empty body, to which instructions are then emitted.
pub(crate) fn new_body() -> (r: Vec<WasmInstr>)
    ensures
        r@ == Seq::<WasmInstr>::empty(),
        forall|n: int| scan(r@, n) == Some(1int),
{
    Vec::new()
}

/// The registrar of static functions: their names to the functions.
pub struct StaticFunctionRegistrar;

impl RegistryType for StaticFunctionRegistrar {
    type Value = MaybeStaticFunction;
}

/// The registry of static functions.
pub type StaticFunctionRegistry = NamedRegistry<StaticFunctionRegistrar>;

/// The names of the static functions that `deps` stands for.
pub open spec fn dependency_names(deps: RegisterDeps) -> Seq<Seq<char>> {
    match deps {
        RegisterDeps::Nothing => Seq::empty(),
        RegisterDeps::TickHelpers => seq![
            <DynArrayLen<TNullable<TStackArray>> as NamedRegistryItem<MaybeStaticFunction>>::item_name(),
            <DynArrayGet<TNullable<TStackArray>> as NamedRegistryItem<MaybeStaticFunction>>::item_name(),
            <DynArrayLen<TNullable<TStackStruct>> as NamedRegistryItem<MaybeStaticFunction>>::item_name(),
            <DynArrayGet<TNullable<TStackStruct>> as NamedRegistryItem<MaybeStaticFunction>>::item_name(),
        ],
    }
}

/// The names of the static functions that `deps` stands for.
fn dependency_name_strings(deps: RegisterDeps) -> (r: Vec<String>)
    ensures
        r@.len() == dependency_names(deps).len(),
        forall|i: int| 0 <= i < r@.len() ==> #[trigger] r@[i]@ == dependency_names(deps)[i],
{
    match deps {
        RegisterDeps::Nothing => Vec::new(),
        RegisterDeps::TickHelpers => vec![
            DynArrayLen::<TNullable<TStackArray>>::name(),
            DynArrayGet::<TNullable<TStackArray>>::name(),
            DynArrayLen::<TNullable<TStackStruct>>::name(),
            DynArrayGet::<TNullable<TStackStruct>>::name(),
        ],
    }
}

/// Every function that an entry calls is registered.
pub open spec fn deps_registered(entries: Entries<MaybeStaticFunction>) -> bool {
    forall|i: int, j: int|
        0 <= i < entries.len() && 0 <= j < dependency_names(entries[i].1.register_deps).len()
            ==> has_key(entries, #[trigger] dependency_names(entries[i].1.register_deps)[j])
}

/// The functions that `deps` stands for, each with the value that its own
/// item registers: no body, made when the module is finished.
pub open spec fn dependency_entries(deps: RegisterDeps) -> Entries<MaybeStaticFunction> {
    match deps {
        RegisterDeps::Nothing => Seq::empty(),
        RegisterDeps::TickHelpers => seq![
            (
                <DynArrayLen<TNullable<TStackArray>> as NamedRegistryItem<MaybeStaticFunction>>::item_name(),
                <DynArrayLen<TNullable<TStackArray>> as NamedRegistryItem<MaybeStaticFunction>>::item_value(),
            ),
            (
                <DynArrayGet<TNullable<TStackArray>> as NamedRegistryItem<MaybeStaticFunction>>::item_name(),
                <DynArrayGet<TNullable<TStackArray>> as NamedRegistryItem<MaybeStaticFunction>>::item_value(),
            ),
            (
                <DynArrayLen<TNullable<TStackStruct>> as NamedRegistryItem<MaybeStaticFunction>>::item_name(),
                <DynArrayLen<TNullable<TStackStruct>> as NamedRegistryItem<MaybeStaticFunction>>::item_value(),
            ),
            (
                <DynArrayGet<TNullable<TStackStruct>> as NamedRegistryItem<MaybeStaticFunction>>::item_name(),
                <DynArrayGet<TNullable<TStackStruct>> as NamedRegistryItem<MaybeStaticFunction>>::item_value(),
            ),
        ],
    }
}

/// The value that the `j`th function of `deps` is registered with.
fn dependency_value_at(deps: RegisterDeps, j: usize) -> (r: MaybeStaticFunction)
    requires
        j < dependency_entries(deps).len(),
    ensures
        r == dependency_entries(deps)[j as int].1,
{
    match deps {
        RegisterDeps::Nothing => {
            assert(false);
            DynArrayLen::<TNullable<TStackArray>>::value()
        },
        RegisterDeps::TickHelpers => if j == 0 {
            DynArrayLen::<TNullable<TStackArray>>::value()
        } else if j == 1 {
            DynArrayGet::<TNullable<TStackArray>>::value()
        } else if j == 2 {
            DynArrayLen::<TNullable<TStackStruct>>::value()
        } else {
            DynArrayGet::<TNullable<TStackStruct>>::value()
        },
    }
}

/// The entries after registering each of `deps` in turn, unless there.
pub open spec fn with_dependencies(
    entries: Entries<MaybeStaticFunction>,
    deps: Entries<MaybeStaticFunction>,
) -> Entries<MaybeStaticFunction>
    decreases deps.len(),
{
    if deps.len() == 0 {
        entries
    } else {
        registered(with_dependencies(entries, deps.drop_last()), deps.last().0, deps.last().1)
    }
}

/// The entries after registering the dependencies of each of `values` in
/// turn.
pub open spec fn with_all_dependencies(
    entries: Entries<MaybeStaticFunction>,
    values: Seq<MaybeStaticFunction>,
) -> Entries<MaybeStaticFunction>
    decreases values.len(),
{
    if values.len() == 0 {
        entries
    } else {
        with_dependencies(
            with_all_dependencies(entries, values.drop_last()),
            dependency_entries(values.last().register_deps),
        )
    }
}

/// Every entry has a body, or a way to make one.
pub open spec fn all_populatable(entries: Entries<MaybeStaticFunction>) -> bool {
    forall|i: int|
        0 <= i < entries.len() ==> (#[trigger] entries[i].1).static_function is Some
            || entries[i].1.maybe_populate != Populate::Never
}

/// `f` is the body of `v` when the type registry holds `items`: its own, or
/// the one its way of making gives with the types laid out there.
pub open spec fn made_from(v: MaybeStaticFunction, f: StaticFunction, items: Seq<RegistryItem>) -> bool {
    match v.static_function {
        Some(g) => f == g,
        None => match v.maybe_populate {
            Populate::DynArray(op, el) => exists|l: DynArrayLayout|
                stack_dyn_layout_fits(items, el, l) && #[trigger] is_dyn_array_function(f, op, l),
            Populate::Never => false,
        },
    }
}

proof fn lemma_made_from_grows(
    v: MaybeStaticFunction,
    f: StaticFunction,
    items: Seq<RegistryItem>,
    more: Seq<RegistryItem>,
)
    requires
        made_from(v, f, items),
        extends(items, more),
    ensures
        made_from(v, f, more),
{
    if v.static_function is None {
        if let Populate::DynArray(op, el) = v.maybe_populate {
            let l = choose|l: DynArrayLayout|
                stack_dyn_layout_fits(items, el, l) && #[trigger] is_dyn_array_function(f, op, l);
            let e = crate::wasm::registries::functions::spawn_threads::ref_index(l.element);
            assert(more[e] == items[e]);
            assert(more[l.array_type as int] == items[l.array_type as int]);
            assert(more[l.struct_type as int] == items[l.struct_type as int]);
            assert(stack_dyn_layout_fits(more, el, l));
        }
    }
}

/// The bodies of the entries, in order, if every entry has one.
pub open spec fn all_populated(entries: Entries<MaybeStaticFunction>) -> bool {
    forall|i: int| 0 <= i < entries.len() ==> (#[trigger] entries[i].1).static_function is Some
}

/// The exports of some functions: each one with an export name, with its
/// index, the `imported` imported functions first.
pub open spec fn function_exports(fs: Seq<StaticFunction>, imported: int) -> Seq<(Seq<char>, int)>
    decreases fs.len(),
{
    if fs.len() == 0 {
        Seq::empty()
    } else {
        let rest = function_exports(fs.drop_last(), imported);
        match fs.last().export {
            Some(name) => rest.push((name@, imported + fs.len() - 1)),
            None => rest,
        }
    }
}

impl NamedRegistry<StaticFunctionRegistrar> {
    /// Registers every function that a registered function calls and that is
    /// not registered yet, with no body. The entries there already keep their
    /// places and values; the new ones follow them.
    pub fn register_deps(&mut self)
        requires
            old(self).well_formed(),
        ensures
            final(self).well_formed(),
            final(self).entries() == with_all_dependencies(
                old(self).entries(),
                old(self).entries().map_values(|e: (Seq<char>, MaybeStaticFunction)| e.1),
            ),
            deps_registered(final(self).entries()),
            final(self).entries().len() >= old(self).entries().len(),
            forall|i: int|
                0 <= i < old(self).entries().len() ==> #[trigger] final(self).entries()[i]
                    == old(self).entries()[i],
            forall|i: int|
                old(self).entries().len() <= i < final(self).entries().len()
                    ==> #[trigger] final(self).entries()[i].1 .register_deps == RegisterDeps::Nothing,
    {
        let ghost old_entries = self.entries();
        let ghost vals = old_entries.map_values(|e: (Seq<char>, MaybeStaticFunction)| e.1);
        let n = self.registry().len();
        let mut i: usize = 0;
        while i < n
            invariant
                self.well_formed(),
                n == old_entries.len(),
                vals == old_entries.map_values(|e: (Seq<char>, MaybeStaticFunction)| e.1),
                self.entries() == with_all_dependencies(old_entries, vals.subrange(0, i as int)),
                i <= n,
                self.entries().len() >= n,
                forall|k: int| 0 <= k < n ==> #[trigger] self.entries()[k] == old_entries[k],
                forall|k: int|
                    n <= k < self.entries().len() ==> #[trigger] self.entries()[k].1
                        .register_deps == RegisterDeps::Nothing,
                forall|k: int, j: int|
                    0 <= k < i && 0 <= j < dependency_names(self.entries()[k].1.register_deps).len()
                        ==> has_key(
                        self.entries(),
                        #[trigger] dependency_names(self.entries()[k].1.register_deps)[j],
                    ),
            decreases n - i,
        {
            let deps = self.registry().value_at(i).register_deps;
            let names = dependency_name_strings(deps);
            let mut j: usize = 0;
            while j < names.len()
                invariant
                    self.well_formed(),
                    n == old_entries.len(),
                    i < n,
                    j <= names@.len(),
                    names@.len() == dependency_names(deps).len(),
                    forall|m: int| 0 <= m < names@.len() ==> #[trigger] names@[m]@ == dependency_names(deps)[m],
                    deps == old_entries[i as int].1.register_deps,
                    vals == old_entries.map_values(|e: (Seq<char>, MaybeStaticFunction)| e.1),
                    self.entries() == with_dependencies(
                        with_all_dependencies(old_entries, vals.subrange(0, i as int)),
                        dependency_entries(deps).subrange(0, j as int),
                    ),
                    dependency_entries(deps).len() == dependency_names(deps).len(),
                    forall|m: int| 0 <= m < names@.len() ==> #[trigger] dependency_entries(deps)[m].0 == dependency_names(deps)[m],
                    self.entries().len() >= n,
                    forall|k: int| 0 <= k < n ==> #[trigger] self.entries()[k] == old_entries[k],
                    forall|k: int|
                        n <= k < self.entries().len() ==> #[trigger] self.entries()[k].1
                            .register_deps == RegisterDeps::Nothing,
                    forall|k: int, m: int|
                        0 <= k < i && 0 <= m < dependency_names(self.entries()[k].1.register_deps).len()
                            ==> has_key(
                            self.entries(),
                            #[trigger] dependency_names(self.entries()[k].1.register_deps)[m],
                        ),
                    forall|m: int| 0 <= m < j ==> has_key(self.entries(), #[trigger] dependency_names(deps)[m]),
                decreases names@.len() - j,
            {
                let ghost before = self.entries();
                let value = dependency_value_at(deps, j);
                let _ = self.register_dyn::<usize>(names[j].clone(), value);
                proof {
                    let key = names@[j as int]@;
                    assert(dependency_entries(deps).subrange(0, j + 1).drop_last() =~= dependency_entries(
                        deps,
                    ).subrange(0, j as int));
                    assert(has_key(self.entries(), key)) by {
                        if !has_key(before, key) {
                            assert(self.entries().last().0 == key);
                        }
                    }
                    assert forall|k2: Seq<char>| has_key(before, k2) implies has_key(self.entries(), k2) by {
                        let w = choose|w: int| 0 <= w < before.len() && before[w].0 == k2;
                        assert(self.entries()[w].0 == k2);
                    }
                }
                j = j + 1;
            }
            proof {
                assert(dependency_entries(deps).subrange(0, names@.len() as int) =~= dependency_entries(
                    deps,
                ));
                assert(vals.subrange(0, i + 1).drop_last() =~= vals.subrange(0, i as int));
                assert(vals[i as int] == old_entries[i as int].1);
            }
            i = i + 1;
        }
        proof {
            assert(vals.subrange(0, n as int) =~= vals);
            let e = self.entries();
            assert forall|k: int, j: int|
                0 <= k < e.len() && 0 <= j < dependency_names(e[k].1.register_deps).len()
                    implies has_key(e, #[trigger] dependency_names(e[k].1.register_deps)[j]) by {
                if k >= n {
                    assert(e[k].1.register_deps == RegisterDeps::Nothing);
                }
            }
        }
    }

    /// The index of the function called `name` among all functions, the
    /// `imported_func_count` imported ones first.
    pub fn call_index(&self, name: &String, imported_func_count: u32) -> (r: Result<
        u32,
        StaticFunctionError,
    >)
        requires
            self.well_formed(),
        ensures
            !has_key(self.entries(), name@) ==> r == Err::<u32, StaticFunctionError>(
                StaticFunctionError::NotRegistered,
            ),
            has_key(self.entries(), name@) && imported_func_count + index_of_key(self.entries(), name@)
                <= u32::MAX ==> r == Ok::<u32, StaticFunctionError>(
                (imported_func_count + index_of_key(self.entries(), name@)) as u32,
            ),
            has_key(self.entries(), name@) && imported_func_count + index_of_key(self.entries(), name@)
                > u32::MAX ==> r == Err::<u32, StaticFunctionError>(
                StaticFunctionError::IndexOutOfBounds,
            ),
    {
        match self.registry().get_index_of(name) {
            None => Err(StaticFunctionError::NotRegistered),
            Some(i) => {
                if i > (u32::MAX - imported_func_count) as usize {
                    Err(StaticFunctionError::IndexOutOfBounds)
                } else {
                    Ok(imported_func_count + i as u32)
                }
            },
        }
    }

    /// Registers every function that a registered function needs (see
    /// [`Self::register_deps`]), then gives the functions' bodies in
    /// registration order, which is the order of their indices after the
    /// `imported_func_count` imported functions, and the exports of those
    /// with an export name, by name and function index. A function given no
    /// body has it made, with its types registered in `types`. Fails if there
    /// are more functions than indices, if a function has neither a body nor
    /// a way to make one, or if the type registry runs out of indices.
    #[verifier::loop_isolation(false)]
    pub fn finish(self, imported_func_count: u32, types: &mut TypeRegistry) -> (r: Result<
        (Vec<StaticFunction>, Vec<(String, u32)>),
        StaticFunctionError,
    >)
        requires
            self.well_formed(),
            old(types).well_formed(),
            stack_group_whole(old(types).keys()),
        ensures
            final(types).well_formed(),
            extends(old(types).items(), final(types).items()),
            ({
                let all = with_all_dependencies(
                    self.entries(),
                    self.entries().map_values(|e: (Seq<char>, MaybeStaticFunction)| e.1),
                );
                &&& (r == Err::<(Vec<StaticFunction>, Vec<(String, u32)>), StaticFunctionError>(
                    StaticFunctionError::IndexOutOfBounds,
                )) <==> imported_func_count + all.len() > u32::MAX + 1
                &&& (r == Err::<(Vec<StaticFunction>, Vec<(String, u32)>), StaticFunctionError>(
                    StaticFunctionError::NotPopulated,
                )) <==> (imported_func_count + all.len() <= u32::MAX + 1 && !all_populatable(all))
                &&& r is Ok ==> (imported_func_count + all.len() <= u32::MAX + 1 && all_populatable(
                    all,
                ))
                &&& (imported_func_count + all.len() <= u32::MAX + 1 && all_populatable(all)
                    && old(types).items().len() + 6 * all.len() <= u32::MAX) ==> r is Ok
                &&& r is Err ==> r->Err_0 != StaticFunctionError::NoTargets
                    && r->Err_0 != StaticFunctionError::NotRegistered
                &&& r matches Ok((fs, ex)) ==> {
                    &&& fs@.len() == all.len()
                    &&& forall|i: int|
                        0 <= i < fs@.len() ==> made_from(all[i].1, #[trigger] fs@[i], final(types).items())
                    &&& ex@.map_values(|e: (String, u32)| (e.0@, e.1 as int)) == function_exports(
                        fs@,
                        imported_func_count as int,
                    )
                }
            }),
    {
        let mut reg = self;
        reg.register_deps();
        let ghost entries = reg.entries();
        if reg.registry().len() as u128 + imported_func_count as u128 > u32::MAX as u128 + 1 {
            return Err(StaticFunctionError::IndexOutOfBounds);
        }
        let (_names, mut values) = reg.take();
        let ghost vals = values@;
        let ghost t0 = types.items();
        let mut c: usize = 0;
        while c < values.len()
            invariant
                vals.len() == entries.len(),
                values@ == vals,
                forall|k: int| 0 <= k < vals.len() ==> #[trigger] vals[k] == entries[k].1,
                c <= vals.len(),
                forall|k: int|
                    0 <= k < c ==> (#[trigger] entries[k].1).static_function is Some
                        || entries[k].1.maybe_populate != Populate::Never,
            decreases vals.len() - c,
        {
            if values[c].static_function.is_none() && values[c].maybe_populate == Populate::Never {
                assert(vals[c as int] == entries[c as int].1);
                assert(!all_populatable(entries));
                return Err(StaticFunctionError::NotPopulated);
            }
            c = c + 1;
        }
        let mut out: Vec<StaticFunction> = Vec::new();
        while values.len() > 0
            invariant
                vals.len() == entries.len(),
                forall|k: int| 0 <= k < vals.len() ==> #[trigger] vals[k] == entries[k].1,
                all_populatable(entries),
                out@.len() + values@.len() == vals.len(),
                values@ =~= vals.subrange(out@.len() as int, vals.len() as int),
                types.well_formed(),
                stack_group_whole(types.keys()),
                extends(t0, types.items()),
                types.items().len() <= t0.len() + 6 * out@.len(),
                forall|k: int| 0 <= k < out@.len() ==> made_from(vals[k], #[trigger] out@[k], types.items()),
            decreases values@.len(),
        {
            let ghost k = out@.len() as int;
            let ghost before = types.items();
            assert(values@[0] == vals[k]);
            let v = values.remove(0);
            assert(v == vals[k]);
            match v.static_function {
                Some(f) => {
                    out.push(f);
                },
                None => {
                    assert(entries[k].1.maybe_populate != Populate::Never);
                    match v.maybe_populate {
                        Populate::DynArray(op, el) => {
                            let l = match stack_dyn_array_layout(types, el) {
                                Ok(l) => l,
                                Err(_) => return Err(StaticFunctionError::TypeIndexOutOfBounds),
                            };
                            let f = dyn_array_populate(op, l);
                            proof {
                                lemma_extends_trans(t0, before, types.items());
                                assert forall|j: int| 0 <= j < out@.len() implies made_from(
                                    vals[j],
                                    #[trigger] out@[j],
                                    types.items(),
                                ) by {
                                    lemma_made_from_grows(vals[j], out@[j], before, types.items());
                                }
                                assert(made_from(vals[k], f, types.items()));
                            }
                            out.push(f);
                        },
                        Populate::Never => {
                            return Err(StaticFunctionError::NotPopulated);
                        },
                    }
                },
            }
        }
        let mut exports: Vec<(String, u32)> = Vec::new();
        let mut i: usize = 0;
        while i < out.len()
            invariant
                i <= out@.len(),
                imported_func_count + out@.len() <= u32::MAX + 1,
                exports@.map_values(|e: (String, u32)| (e.0@, e.1 as int)) == function_exports(
                    out@.subrange(0, i as int),
                    imported_func_count as int,
                ),
            decreases out@.len() - i,
        {
            let ghost before = exports@;
            proof {
                assert(out@.subrange(0, i + 1).drop_last() =~= out@.subrange(0, i as int));
                assert(out@.subrange(0, i + 1).last() == out@[i as int]);
            }
            match &out[i].export {
                Some(name) => {
                    let index = imported_func_count + i as u32;
                    exports.push((name.clone(), index));
                    proof {
                        assert(exports@.map_values(|e: (String, u32)| (e.0@, e.1 as int))
                            =~= before.map_values(|e: (String, u32)| (e.0@, e.1 as int)).push(
                            (name@, imported_func_count + i),
                        ));
                    }
                },
                None => {},
            }
            i = i + 1;
        }
        proof {
            assert(out@.subrange(0, out@.len() as int) =~= out@);
        }
        Ok((out, exports))
    }
}

} // verus!
