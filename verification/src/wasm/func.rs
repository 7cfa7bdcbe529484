//! Step functions' instructions before the module is laid out: some stand
//! for instructions whose indices are only known once the imported and
//! static functions and the imported globals are counted, and are evaluated
//! to plain instructions then.

use vstd::prelude::*;
use crate::registry::RegistryError;
use std::collections::BTreeMap;
use crate::ir::RcVar;
use crate::wasm::flags::WasmFlags;
use crate::wasm::project::{events_distinct, null_struct, Event};
use crate::wasm::registries::functions::WasmInstr;
use crate::wasm::registries::types::registry::{
    entry_type, extends, lemma_extends_trans, lemma_with_key_index, CompoundTypeView, FieldType,
    StorageType, TypeRegistry,
};
use crate::wasm::types::{AbstractHeapType, HeapType, RefType, ValType};

verus! {

/// The target that a step function belongs to.
#[derive(Clone, Copy, Debug, PartialEq, Eq, Structural)]
pub enum StepTarget {
    Stage,
    /// Holds the module's index of the sprite.
    ///
    /// This is not necessarily the same as the target's index in the IR, as the
    /// stage is not a sprite but holds a target index there.
    Sprite(u32),
}

/// An instruction of a step function. Steps are given by their index among
/// the steps, procedures by the index of their first step.
#[derive(Clone, Debug)]
pub enum Instruction {
    /// An instruction as it is.
    Immediate(WasmInstr),
    /// A reference to a step's function.
    LazyStepRef(usize),
    /// A call of a warped procedure's first step.
    LazyWarpedProcCall(usize),
    /// A reference to a non-warped procedure's first step.
    LazyNonWarpedProcRef(usize),
    /// Reads a global, counted without the imported globals.
    LazyGlobalGet(u32),
    /// Writes a global, counted without the imported globals.
    LazyGlobalSet(u32),
    /// Spawns the threads of the named broadcast.
    LazyBroadcastSpawn(String),
    /// Spawns the threads of the named broadcast and waits for them: the
    /// step that polls them, the step to go on with, and the local that holds
    /// the spawned threads' slots.
    LazyBroadcastSpawnAndWait(String, usize, usize, u32),
    /// A call of a static function, counted without the imported functions.
    StaticFunctionCall(u32),
}

/// What an evaluation needs to know of the module: where the helpers stand
/// and how many functions and globals come first.
#[derive(Clone, Copy, Debug, PartialEq, Eq, Structural)]
pub struct EvalContext {
    /// The global that counts the running threads, without the imported
    /// globals.
    pub threads_count_global: u32,
    /// The static functions that spawn a thread, without the imported
    /// functions.
    pub spawn_new_thread_func: u32,
    pub spawn_thread_in_stack_func: u32,
    pub threads_table: u32,
    pub imported_func_count: u32,
    pub static_func_count: u32,
    pub imported_global_count: u32,
}

/// Why an instruction could not be evaluated.
#[derive(Clone, Copy, Debug, PartialEq, Eq, Structural)]
pub enum EvalError {
    /// An index does not fit in a `u32`.
    IndexOutOfBounds,
    /// A number of threads does not fit in an `i32`.
    ValueOutOfBounds,
}

/// The index of the function of the step at `step`.
pub open spec fn step_fn(ctx: EvalContext, step: int) -> int {
    ctx.imported_func_count + ctx.static_func_count + step
}

/// The step indices of the named broadcast's threads: those of the first
/// event that is that broadcast, or none.
pub open spec fn broadcast_indices(events: Seq<(Event, Vec<u32>)>, name: Seq<char>) -> Seq<u32>
    decreases events.len(),
{
    if events.len() == 0 {
        Seq::empty()
    } else {
        match events[0].0 {
            Event::Broadcast(b) => if b@ == name {
                events[0].1@
            } else {
                broadcast_indices(events.drop_first(), name)
            },
            _ => broadcast_indices(events.drop_first(), name),
        }
    }
}

/// The instructions that spawn a thread for each step of `indices`.
pub open spec fn spawn_each(indices: Seq<u32>, ctx: EvalContext) -> Seq<WasmInstr>
    decreases indices.len(),
{
    if indices.len() == 0 {
        Seq::empty()
    } else {
        spawn_each(indices.drop_last(), ctx) + seq![
            WasmInstr::RefFunc(step_fn(ctx, indices.last() as int) as u32),
            WasmInstr::RefNull(null_struct()),
            WasmInstr::Call((ctx.spawn_new_thread_func + ctx.imported_func_count) as u32),
        ]
    }
}

/// The instructions that spawn a thread for each step of `indices`, first
/// storing in the array at `arr_local` (of type `array_type`) the slot in the
/// threads table that the thread gets.
pub open spec fn spawn_each_waiting(
    indices: Seq<u32>,
    ctx: EvalContext,
    arr_local: u32,
    array_type: u32,
) -> Seq<WasmInstr>
    decreases indices.len(),
{
    if indices.len() == 0 {
        Seq::empty()
    } else {
        spawn_each_waiting(indices.drop_last(), ctx, arr_local, array_type) + seq![
            WasmInstr::LocalGet(arr_local),
            WasmInstr::I32Const((indices.len() - 1) as i32),
            WasmInstr::TableSize(ctx.threads_table),
            WasmInstr::ArraySet(array_type),
            WasmInstr::RefFunc(step_fn(ctx, indices.last() as int) as u32),
            WasmInstr::RefNull(null_struct()),
            WasmInstr::Call((ctx.spawn_new_thread_func + ctx.imported_func_count) as u32),
        ]
    }
}

/// Adds `n` to the running threads' count.
pub open spec fn count_threads(n: int, ctx: EvalContext) -> Seq<WasmInstr> {
    seq![
        WasmInstr::GlobalGet((ctx.threads_count_global + ctx.imported_global_count) as u32),
        WasmInstr::I32Const(n as i32),
        WasmInstr::I32Add,
        WasmInstr::GlobalSet((ctx.threads_count_global + ctx.imported_global_count) as u32),
    ]
}

/// The indices that spawning the steps of `indices` uses fit in a `u32`.
pub open spec fn spawn_fits(indices: Seq<u32>, ctx: EvalContext) -> bool {
    &&& forall|k: int| 0 <= k < indices.len() ==> step_fn(ctx, #[trigger] indices[k] as int) <= u32::MAX
    &&& indices.len() > 0 ==> ctx.spawn_new_thread_func + ctx.imported_func_count <= u32::MAX
}

/// Spawning the steps of `indices` and counting them fits.
pub open spec fn broadcast_fits(indices: Seq<u32>, ctx: EvalContext) -> bool {
    &&& spawn_fits(indices, ctx)
    &&& ctx.threads_count_global + ctx.imported_global_count <= u32::MAX
    &&& indices.len() <= i32::MAX
}

/// The additions that evaluating `ins` makes fit in a `u32`.
pub open spec fn eval_adds_fit(ins: Instruction, events: Seq<(Event, Vec<u32>)>, ctx: EvalContext) -> bool {
    match ins {
        Instruction::Immediate(_) => true,
        Instruction::LazyStepRef(step) => step <= u32::MAX ==> step_fn(ctx, step as int) <= u32::MAX,
        Instruction::LazyWarpedProcCall(step) => step <= u32::MAX ==> step_fn(ctx, step as int)
            <= u32::MAX,
        Instruction::LazyNonWarpedProcRef(step) => step <= u32::MAX ==> step_fn(ctx, step as int)
            <= u32::MAX,
        Instruction::LazyGlobalGet(i) => i + ctx.imported_global_count <= u32::MAX,
        Instruction::LazyGlobalSet(i) => i + ctx.imported_global_count <= u32::MAX,
        Instruction::LazyBroadcastSpawn(name) => {
            &&& spawn_fits(broadcast_indices(events, name@), ctx)
            &&& ctx.threads_count_global + ctx.imported_global_count <= u32::MAX
        },
        Instruction::LazyBroadcastSpawnAndWait(name, poll, next, _) => {
            &&& spawn_fits(broadcast_indices(events, name@), ctx)
            &&& ctx.threads_count_global + ctx.imported_global_count <= u32::MAX
            &&& poll <= u32::MAX ==> step_fn(ctx, poll as int) <= u32::MAX
            &&& next <= u32::MAX ==> step_fn(ctx, next as int) <= u32::MAX
            &&& ctx.spawn_thread_in_stack_func + ctx.imported_func_count <= u32::MAX
        },
        Instruction::StaticFunctionCall(i) => ctx.imported_func_count + i <= u32::MAX,
    }
}

/// The step indices that `ins` names fit in a `u32`.
pub open spec fn steps_convert(ins: Instruction) -> bool {
    match ins {
        Instruction::LazyStepRef(step) => step <= u32::MAX,
        Instruction::LazyWarpedProcCall(step) => step <= u32::MAX,
        Instruction::LazyNonWarpedProcRef(step) => step <= u32::MAX,
        Instruction::LazyBroadcastSpawnAndWait(_, poll, next, _) => poll <= u32::MAX && next
            <= u32::MAX,
        _ => true,
    }
}

/// The number of threads that `ins` spawns fits in an `i32`.
pub open spec fn counts_convert(ins: Instruction, events: Seq<(Event, Vec<u32>)>) -> bool {
    match ins {
        Instruction::LazyBroadcastSpawn(name) => broadcast_indices(events, name@).len() <= i32::MAX,
        Instruction::LazyBroadcastSpawnAndWait(name, _, _, _) => broadcast_indices(
            events,
            name@,
        ).len() <= i32::MAX,
        _ => true,
    }
}

/// The plain instructions that `ins` stands for; a wait for a broadcast
/// keeps the threads' slots in an array of `array_type` and polls them with a
/// struct of `poll_struct_type`.
pub open spec fn eval_instrs(
    ins: Instruction,
    events: Seq<(Event, Vec<u32>)>,
    ctx: EvalContext,
    array_type: u32,
    poll_struct_type: u32,
) -> Seq<WasmInstr> {
    match ins {
        Instruction::Immediate(i) => seq![i],
        Instruction::LazyStepRef(step) => seq![WasmInstr::RefFunc(step_fn(ctx, step as int) as u32)],
        Instruction::LazyWarpedProcCall(step) => seq![
            WasmInstr::Call(step_fn(ctx, step as int) as u32),
        ],
        Instruction::LazyNonWarpedProcRef(step) => seq![
            WasmInstr::RefFunc(step_fn(ctx, step as int) as u32),
        ],
        Instruction::LazyGlobalGet(i) => seq![
            WasmInstr::GlobalGet((i + ctx.imported_global_count) as u32),
        ],
        Instruction::LazyGlobalSet(i) => seq![
            WasmInstr::GlobalSet((i + ctx.imported_global_count) as u32),
        ],
        Instruction::LazyBroadcastSpawn(name) => {
            let indices = broadcast_indices(events, name@);
            spawn_each(indices, ctx) + count_threads(indices.len() as int, ctx)
        },
        Instruction::LazyBroadcastSpawnAndWait(name, poll, next, arr_local) => {
            let indices = broadcast_indices(events, name@);
            seq![
                WasmInstr::I32Const(indices.len() as i32),
                WasmInstr::ArrayNewDefault(array_type),
                WasmInstr::LocalSet(arr_local),
            ] + spawn_each_waiting(indices, ctx, arr_local, array_type) + count_threads(
                indices.len() as int,
                ctx,
            ) + seq![
                WasmInstr::RefFunc(step_fn(ctx, poll as int) as u32),
                WasmInstr::LocalGet(arr_local),
                WasmInstr::StructNew(poll_struct_type),
                WasmInstr::RefFunc(step_fn(ctx, next as int) as u32),
                WasmInstr::Call((ctx.spawn_thread_in_stack_func + ctx.imported_func_count) as u32),
            ]
        },
        Instruction::StaticFunctionCall(i) => seq![
            WasmInstr::Call((ctx.imported_func_count + i) as u32),
        ],
    }
}

/// The array of the threads' slots that a wait keeps: writable `i32`s.
pub open spec fn slots_array_type() -> CompoundTypeView {
    CompoundTypeView::Array(StorageType::Val(ValType::I32), true)
}

/// The struct that a wait polls: the array of slots, at `array_type`.
pub open spec fn poll_struct_type(array_type: u32) -> CompoundTypeView {
    CompoundTypeView::Struct(
        seq![
            FieldType {
                element_type: StorageType::Val(
                    ValType::Ref(RefType { nullable: false, heap_type: HeapType::Concrete(array_type) }),
                ),
                mutable: false,
            },
        ],
    )
}

/// The step indices of the named broadcast's threads.
fn find_broadcast(events: &Vec<(Event, Vec<u32>)>, name: &String) -> (r: Vec<u32>)
    ensures
        r@ == broadcast_indices(events@, name@),
{
    let mut i: usize = 0;
    assert(events@.subrange(0, events@.len() as int) =~= events@);
    while i < events.len()
        invariant
            i <= events@.len(),
            broadcast_indices(events@, name@) == broadcast_indices(
                events@.subrange(i as int, events@.len() as int),
                name@,
            ),
        decreases events@.len() - i,
    {
        let ghost rest = events@.subrange(i as int, events@.len() as int);
        proof {
            assert(rest.drop_first() =~= events@.subrange(i + 1, events@.len() as int));
            assert(rest[0] == events@[i as int]);
        }
        match &events[i].0 {
            Event::Broadcast(b) => {
                if *b == *name {
                    return copy_indices(&events[i].1);
                }
            },
            _ => {},
        }
        i = i + 1;
    }
    Vec::new()
}

fn copy_indices(v: &Vec<u32>) -> (r: Vec<u32>)
    ensures
        r@ == v@,
{
    let mut r: Vec<u32> = Vec::new();
    let mut i: usize = 0;
    while i < v.len()
        invariant
            i <= v@.len(),
            r@ == v@.subrange(0, i as int),
        decreases v@.len() - i,
    {
        r.push(v[i]);
        assert(v@.subrange(0, i + 1) =~= v@.subrange(0, i as int).push(v@[i as int]));
        i = i + 1;
    }
    assert(v@.subrange(0, v@.len() as int) =~= v@);
    r
}

/// The instructions that spawn a thread for each step of `indices`.
fn spawn_instrs(indices: &Vec<u32>, ctx: EvalContext) -> (r: Vec<WasmInstr>)
    requires
        spawn_fits(indices@, ctx),
    ensures
        r@ == spawn_each(indices@, ctx),
{
    let mut out: Vec<WasmInstr> = Vec::new();
    let mut i: usize = 0;
    while i < indices.len()
        invariant
            i <= indices@.len(),
            spawn_fits(indices@, ctx),
            out@ == spawn_each(indices@.subrange(0, i as int), ctx),
        decreases indices@.len() - i,
    {
        proof {
            assert(indices@.subrange(0, i + 1).drop_last() =~= indices@.subrange(0, i as int));
            assert(step_fn(ctx, indices@[i as int] as int) <= u32::MAX);
        }
        let step = indices[i];
        out.push(WasmInstr::RefFunc(ctx.imported_func_count + ctx.static_func_count + step));
        out.push(WasmInstr::RefNull(HeapType::Abstract { shared: false, ty: AbstractHeapType::Struct }));
        out.push(WasmInstr::Call(ctx.spawn_new_thread_func + ctx.imported_func_count));
        proof {
            assert(out@ =~= spawn_each(indices@.subrange(0, i + 1), ctx));
        }
        i = i + 1;
    }
    assert(indices@.subrange(0, indices@.len() as int) =~= indices@);
    out
}

/// The instructions that spawn a thread for each step of `indices`, keeping
/// each thread's slot in the array at `arr_local`.
fn spawn_waiting_instrs(indices: &Vec<u32>, ctx: EvalContext, arr_local: u32, array_type: u32) -> (r:
    Vec<WasmInstr>)
    requires
        spawn_fits(indices@, ctx),
        indices@.len() <= i32::MAX,
    ensures
        r@ == spawn_each_waiting(indices@, ctx, arr_local, array_type),
{
    let mut out: Vec<WasmInstr> = Vec::new();
    let mut i: usize = 0;
    while i < indices.len()
        invariant
            i <= indices@.len(),
            indices@.len() <= i32::MAX,
            spawn_fits(indices@, ctx),
            out@ == spawn_each_waiting(indices@.subrange(0, i as int), ctx, arr_local, array_type),
        decreases indices@.len() - i,
    {
        proof {
            assert(indices@.subrange(0, i + 1).drop_last() =~= indices@.subrange(0, i as int));
            assert(step_fn(ctx, indices@[i as int] as int) <= u32::MAX);
        }
        let step = indices[i];
        out.push(WasmInstr::LocalGet(arr_local));
        out.push(WasmInstr::I32Const(i as i32));
        out.push(WasmInstr::TableSize(ctx.threads_table));
        out.push(WasmInstr::ArraySet(array_type));
        out.push(WasmInstr::RefFunc(ctx.imported_func_count + ctx.static_func_count + step));
        out.push(WasmInstr::RefNull(HeapType::Abstract { shared: false, ty: AbstractHeapType::Struct }));
        out.push(WasmInstr::Call(ctx.spawn_new_thread_func + ctx.imported_func_count));
        proof {
            assert(out@ =~= spawn_each_waiting(indices@.subrange(0, i + 1), ctx, arr_local, array_type));
        }
        i = i + 1;
    }
    assert(indices@.subrange(0, indices@.len() as int) =~= indices@);
    out
}

/// Adds `n` to the running threads' count.
fn count_instrs(n: i32, ctx: EvalContext) -> (r: Vec<WasmInstr>)
    requires
        ctx.threads_count_global + ctx.imported_global_count <= u32::MAX,
    ensures
        r@ == count_threads(n as int, ctx),
{
    let g = ctx.threads_count_global + ctx.imported_global_count;
    let r = vec![WasmInstr::GlobalGet(g), WasmInstr::I32Const(n), WasmInstr::I32Add, WasmInstr::GlobalSet(g)];
    assert(r@ =~= count_threads(n as int, ctx));
    r
}

impl Instruction {
    /// The plain instructions that this instruction stands for in the module
    /// laid out as `ctx`, the threads of broadcasts being found in `events`.
    /// A wait for a broadcast registers, in `types`, the array of slots and
    /// the struct that polls them. Step indices must fit in a `u32` and
    /// numbers of threads in an `i32`.
    pub fn eval(&self, events: &Vec<(Event, Vec<u32>)>, types: &mut TypeRegistry, ctx: EvalContext) -> (r:
        Result<Vec<WasmInstr>, EvalError>)
        requires
            old(types).well_formed(),
            events_distinct(events@),
            eval_adds_fit(*self, events@, ctx),
        ensures
            final(types).well_formed(),
            extends(old(types).items(), final(types).items()),
            final(types).items().len() <= old(types).items().len() + 2,
            !(*self is LazyBroadcastSpawnAndWait) ==> {
                &&& final(types).items() == old(types).items()
                &&& r is Ok <==> steps_convert(*self) && counts_convert(*self, events@)
                &&& r matches Ok(v) ==> v@ == eval_instrs(*self, events@, ctx, 0, 0)
            },
            *self is LazyBroadcastSpawnAndWait ==> {
                &&& r is Ok ==> steps_convert(*self) && counts_convert(*self, events@)
                &&& steps_convert(*self) && counts_convert(*self, events@) && old(types).items().len()
                    + 2 <= u32::MAX ==> r is Ok
                &&& r matches Ok(v) ==> exists|a: u32, s: u32|
                    {
                        &&& entry_type(final(types).items(), a as int) == Some(slots_array_type())
                        &&& entry_type(final(types).items(), s as int) == Some(poll_struct_type(a))
                        &&& #[trigger] eval_instrs(*self, events@, ctx, a, s) == v@
                    }
            },
            r == Err::<Vec<WasmInstr>, EvalError>(EvalError::ValueOutOfBounds) ==> !counts_convert(
                *self,
                events@,
            ),
            r == Err::<Vec<WasmInstr>, EvalError>(EvalError::IndexOutOfBounds) ==> !steps_convert(*self)
                || (*self is LazyBroadcastSpawnAndWait && old(types).items().len() + 2 > u32::MAX),
    {
        match self {
            Instruction::Immediate(ins) => Ok(vec![*ins]),
            Instruction::LazyStepRef(step) => {
                if *step > u32::MAX as usize {
                    return Err(EvalError::IndexOutOfBounds);
                }
                Ok(vec![WasmInstr::RefFunc(ctx.imported_func_count + ctx.static_func_count + *step as u32)])
            },
            Instruction::LazyWarpedProcCall(step) => {
                if *step > u32::MAX as usize {
                    return Err(EvalError::IndexOutOfBounds);
                }
                Ok(vec![WasmInstr::Call(ctx.imported_func_count + ctx.static_func_count + *step as u32)])
            },
            Instruction::LazyNonWarpedProcRef(step) => {
                if *step > u32::MAX as usize {
                    return Err(EvalError::IndexOutOfBounds);
                }
                Ok(vec![WasmInstr::RefFunc(ctx.imported_func_count + ctx.static_func_count + *step as u32)])
            },
            Instruction::LazyGlobalGet(i) => Ok(vec![WasmInstr::GlobalGet(*i + ctx.imported_global_count)]),
            Instruction::LazyGlobalSet(i) => Ok(vec![WasmInstr::GlobalSet(*i + ctx.imported_global_count)]),
            Instruction::StaticFunctionCall(i) => Ok(vec![WasmInstr::Call(ctx.imported_func_count + *i)]),
            Instruction::LazyBroadcastSpawn(name) => {
                let indices = find_broadcast(events, name);
                if indices.len() > i32::MAX as usize {
                    return Err(EvalError::ValueOutOfBounds);
                }
                let mut out = spawn_instrs(&indices, ctx);
                let mut count = count_instrs(indices.len() as i32, ctx);
                out.append(&mut count);
                Ok(out)
            },
            Instruction::LazyBroadcastSpawnAndWait(name, poll, next, arr_local) => {
                let ghost start = types.items();
                let ghost old_keys = types.keys();
                let ghost array_key = crate::wasm::registries::types::registry::compound_key(
                    start,
                    slots_array_type(),
                );
                let array_type: u32 = match types.array(StorageType::Val(ValType::I32), true) {
                    Ok(a) => a,
                    Err(_) => {
                        proof {
                            lemma_with_key_index(old_keys, array_key);
                        }
                        return Err(EvalError::IndexOutOfBounds);
                    },
                };
                let ghost mid = types.items();
                let ghost mid_keys = types.keys();
                proof {
                    lemma_with_key_index(old_keys, array_key);
                }
                let fields = vec![
                    FieldType {
                        element_type: StorageType::Val(
                            ValType::Ref(RefType { nullable: false, heap_type: HeapType::Concrete(array_type) }),
                        ),
                        mutable: false,
                    },
                ];
                proof {
                    assert(fields@ =~= seq![
                        FieldType {
                            element_type: StorageType::Val(
                                ValType::Ref(RefType { nullable: false, heap_type: HeapType::Concrete(array_type) }),
                            ),
                            mutable: false,
                        },
                    ]);
                    assert(CompoundTypeView::Struct(fields@) == poll_struct_type(array_type));
                }
                let ghost struct_key = crate::wasm::registries::types::registry::compound_key(
                    mid,
                    poll_struct_type(array_type),
                );
                let poll_struct: u32 = match types.struct_(fields) {
                    Ok(s) => s,
                    Err(_) => {
                        proof {
                            lemma_extends_trans(start, mid, types.items());
                            lemma_with_key_index(mid_keys, struct_key);
                        }
                        return Err(EvalError::IndexOutOfBounds);
                    },
                };
                proof {
                    lemma_extends_trans(start, mid, types.items());
                    assert(types.items()[array_type as int] == mid[array_type as int]);
                }
                if *poll > u32::MAX as usize || *next > u32::MAX as usize {
                    return Err(EvalError::IndexOutOfBounds);
                }
                let indices = find_broadcast(events, name);
                if indices.len() > i32::MAX as usize {
                    return Err(EvalError::ValueOutOfBounds);
                }
                let num = indices.len() as i32;
                let mut out = vec![
                    WasmInstr::I32Const(num),
                    WasmInstr::ArrayNewDefault(array_type),
                    WasmInstr::LocalSet(*arr_local),
                ];
                let mut spawns = spawn_waiting_instrs(&indices, ctx, *arr_local, array_type);
                out.append(&mut spawns);
                let mut count = count_instrs(num, ctx);
                out.append(&mut count);
                let mut tail = vec![
                    WasmInstr::RefFunc(ctx.imported_func_count + ctx.static_func_count + *poll as u32),
                    WasmInstr::LocalGet(*arr_local),
                    WasmInstr::StructNew(poll_struct),
                    WasmInstr::RefFunc(ctx.imported_func_count + ctx.static_func_count + *next as u32),
                    WasmInstr::Call(ctx.spawn_thread_in_stack_func + ctx.imported_func_count),
                ];
                out.append(&mut tail);
                proof {
                    assert(out@ =~= eval_instrs(*self, events@, ctx, array_type, poll_struct));
                }
                Ok(out)
            },
        }
    }
}

/// The plain instructions that `instrs` stand for, in order, waits for
/// broadcasts using the types at `types[k]` for the instruction at `k`.
pub open spec fn eval_all(
    instrs: Seq<Instruction>,
    events: Seq<(Event, Vec<u32>)>,
    ctx: EvalContext,
    types: Seq<(u32, u32)>,
) -> Seq<WasmInstr>
    decreases instrs.len(),
{
    if instrs.len() == 0 {
        Seq::empty()
    } else {
        eval_all(instrs.drop_last(), events, ctx, types) + eval_instrs(
            instrs.last(),
            events,
            ctx,
            types[instrs.len() - 1].0,
            types[instrs.len() - 1].1,
        )
    }
}

/// The types that a wait for a broadcast uses stand at `pair` in `items`.
pub open spec fn wait_types_at(items: Seq<crate::wasm::registries::types::registry::RegistryItem>, pair: (u32, u32)) -> bool {
    &&& entry_type(items, pair.0 as int) == Some(slots_array_type())
    &&& entry_type(items, pair.1 as int) == Some(poll_struct_type(pair.0))
}

/// A step's function as it is built: its locals and instructions, and the
/// locals that hold variables.
pub struct StepFunc {
    pub locals: Vec<ValType>,
    pub instructions: Vec<Instruction>,
    pub params: Vec<ValType>,
    pub output: Vec<ValType>,
    pub flags: WasmFlags,
    /// variable (by identity) -> its local
    pub local_variables: BTreeMap<u64, u32>,
    pub target: StepTarget,
    /// the target's index, for the host
    pub target_index: u32,
}

/// What a finished step function is: its type's index, its locals and its
/// instructions.
pub struct FinishedStep {
    pub type_index: u32,
    pub locals: Vec<ValType>,
    pub instructions: Vec<WasmInstr>,
}

impl StepFunc {
    /// A step function with one parameter: the target's index.
    pub fn new(flags: WasmFlags, target: StepTarget, target_index: u32) -> (r: Self)
        ensures
            r.params@ == seq![ValType::I32],
            r.output@.len() == 0,
            r.locals@.len() == 0,
            r.instructions@.len() == 0,
            r.local_variables@ == Map::<u64, u32>::empty(),
            r.target == target && r.target_index == target_index,
    {
        StepFunc {
            locals: Vec::new(),
            instructions: Vec::new(),
            params: vec![ValType::I32],
            output: Vec::new(),
            flags,
            local_variables: BTreeMap::new(),
            target,
            target_index,
        }
    }

    /// A step function with the given parameters and results.
    pub fn new_with_types(
        params: Vec<ValType>,
        output: Vec<ValType>,
        flags: WasmFlags,
        target: StepTarget,
        target_index: u32,
    ) -> (r: Self)
        ensures
            r.params@ == params@,
            r.output@ == output@,
            r.locals@.len() == 0,
            r.instructions@.len() == 0,
            r.local_variables@ == Map::<u64, u32>::empty(),
            r.target == target && r.target_index == target_index,
    {
        StepFunc {
            locals: Vec::new(),
            instructions: Vec::new(),
            params,
            output,
            flags,
            local_variables: BTreeMap::new(),
            target,
            target_index,
        }
    }

    /// Adds a local of type `val_type` and gives its index, the parameters
    /// counted; fails if the index does not fit in a `u32`.
    pub fn local(&mut self, val_type: ValType) -> (r: Result<u32, EvalError>)
        ensures
            final(self).locals@ == old(self).locals@.push(val_type),
            final(self).params == old(self).params,
            final(self).instructions == old(self).instructions,
            final(self).local_variables == old(self).local_variables,
            r is Ok <==> old(self).locals@.len() + old(self).params@.len() <= u32::MAX,
            r matches Ok(i) ==> i == old(self).locals@.len() + old(self).params@.len(),
            r matches Err(e) ==> e == EvalError::IndexOutOfBounds,
    {
        self.locals.push(val_type);
        let n = self.locals.len();
        let p = self.params.len();
        if p > u32::MAX as usize || n - 1 > u32::MAX as usize - p {
            Err(EvalError::IndexOutOfBounds)
        } else {
            Ok((n - 1 + p) as u32)
        }
    }

    /// The local that holds `var`, made with type `val_type` the first time
    /// the variable is asked for.
    pub fn local_variable(&mut self, var: &RcVar, val_type: ValType) -> (r: Result<u32, EvalError>)
        ensures
            final(self).params == old(self).params,
            final(self).instructions == old(self).instructions,
            old(self).local_variables@.contains_key(var.id) ==> {
                &&& r == Ok::<u32, EvalError>(old(self).local_variables@[var.id])
                &&& final(self).locals == old(self).locals
                &&& final(self).local_variables == old(self).local_variables
            },
            !old(self).local_variables@.contains_key(var.id) ==> {
                &&& final(self).locals@ == old(self).locals@.push(val_type)
                &&& (r is Ok <==> old(self).locals@.len() + old(self).params@.len() <= u32::MAX)
                &&& r matches Ok(i) ==> i == old(self).locals@.len() + old(self).params@.len()
                    && final(self).local_variables@ == old(self).local_variables@.insert(var.id, i)
                &&& r matches Err(e) ==> e == EvalError::IndexOutOfBounds
            },
    {
        match self.local_variables.get(&var.id) {
            Some(i) => Ok(*i),
            None => match self.local(val_type) {
                Ok(i) => {
                    self.local_variables.insert(var.id, i);
                    Ok(i)
                },
                Err(e) => Err(e),
            },
        }
    }

    /// Appends `instructions` to the function's.
    pub fn add_instructions(&mut self, instructions: Vec<Instruction>)
        ensures
            final(self).instructions@ == old(self).instructions@ + instructions@,
            final(self).locals == old(self).locals,
            final(self).params == old(self).params,
            final(self).local_variables == old(self).local_variables,
    {
        let mut more = instructions;
        self.instructions.append(&mut more);
    }

    /// Evaluates the function's instructions for the module laid out as
    /// `ctx`, ends them, and registers the function's type.
    pub fn finish(self, events: &Vec<(Event, Vec<u32>)>, types: &mut TypeRegistry, ctx: EvalContext) -> (r:
        Result<FinishedStep, EvalError>)
        requires
            old(types).well_formed(),
            events_distinct(events@),
            forall|k: int|
                0 <= k < self.instructions@.len() ==> eval_adds_fit(
                    #[trigger] self.instructions@[k],
                    events@,
                    ctx,
                ),
        ensures
            final(types).well_formed(),
            extends(old(types).items(), final(types).items()),
            (forall|k: int|
                0 <= k < self.instructions@.len() ==> steps_convert(#[trigger] self.instructions@[k])
                    && counts_convert(self.instructions@[k], events@)) && old(types).items().len() + 2
                * self.instructions@.len() + 1 <= u32::MAX ==> r is Ok,
            r is Ok ==> forall|k: int|
                0 <= k < self.instructions@.len() ==> steps_convert(#[trigger] self.instructions@[k])
                    && counts_convert(self.instructions@[k], events@),
            r matches Ok(f) ==> {
                &&& f.locals@ == self.locals@
                &&& entry_type(final(types).items(), f.type_index as int) == Some(
                    CompoundTypeView::Function(self.params@, self.output@),
                )
                &&& exists|pairs: Seq<(u32, u32)>|
                    {
                        &&& pairs.len() == self.instructions@.len()
                        &&& forall|k: int|
                            0 <= k < pairs.len() && #[trigger] self.instructions@[k] is LazyBroadcastSpawnAndWait
                                ==> wait_types_at(final(types).items(), pairs[k])
                        &&& f.instructions@ == eval_all(self.instructions@, events@, ctx, pairs).push(
                            WasmInstr::End,
                        )
                    }
            },
    {
        let ghost start = types.items();
        let ghost instrs = self.instructions@;
        let mut out: Vec<WasmInstr> = Vec::new();
        let ghost mut pairs: Seq<(u32, u32)> = Seq::empty();
        let mut i: usize = 0;
        while i < self.instructions.len()
            invariant
                instrs == self.instructions@,
                i <= instrs.len(),
                start == old(types).items(),
                types.well_formed(),
                events_distinct(events@),
                extends(start, types.items()),
                types.items().len() <= start.len() + 2 * i,
                forall|k: int| 0 <= k < instrs.len() ==> eval_adds_fit(#[trigger] instrs[k], events@, ctx),
                forall|k: int| 0 <= k < i ==> steps_convert(#[trigger] instrs[k]) && counts_convert(instrs[k], events@),
                pairs.len() == i,
                forall|k: int|
                    0 <= k < i && #[trigger] instrs[k] is LazyBroadcastSpawnAndWait ==> wait_types_at(
                        types.items(),
                        pairs[k],
                    ),
                out@ == eval_all(instrs.subrange(0, i as int), events@, ctx, pairs),
            decreases instrs.len() - i,
        {
            let ghost before = types.items();
            let ghost ins = instrs[i as int];
            match self.instructions[i].eval(events, types, ctx) {
                Ok(mut v) => {
                    proof {
                        lemma_extends_trans(start, before, types.items());
                        let pair: (u32, u32) = if ins is LazyBroadcastSpawnAndWait {
                            let (a, s) = choose|a: u32, s: u32| {
                                &&& entry_type(types.items(), a as int) == Some(slots_array_type())
                                &&& entry_type(types.items(), s as int) == Some(poll_struct_type(a))
                                &&& #[trigger] eval_instrs(ins, events@, ctx, a, s) == v@
                            };
                            (a, s)
                        } else {
                            (0u32, 0u32)
                        };
                        assert(wait_types_at(types.items(), pair) || !(ins is LazyBroadcastSpawnAndWait));
                        assert forall|k: int|
                            0 <= k < i && #[trigger] instrs[k] is LazyBroadcastSpawnAndWait
                                implies wait_types_at(types.items(), pairs[k]) by {
                            lemma_wait_types_grow(before, types.items(), pairs[k]);
                        }
                        lemma_eval_all_step(instrs.subrange(0, i as int), ins, events@, ctx, pairs, pair);
                        assert(instrs.subrange(0, i + 1) =~= instrs.subrange(0, i as int).push(ins));
                        pairs = pairs.push(pair);
                    }
                    out.append(&mut v);
                },
                Err(e) => {
                    proof {
                        lemma_extends_trans(start, before, types.items());
                        if forall|k: int|
                            0 <= k < instrs.len() ==> steps_convert(#[trigger] instrs[k])
                                && counts_convert(instrs[k], events@) {
                            assert(steps_convert(instrs[i as int]));
                            assert(start.len() + 2 * i + 2 <= start.len() + 2 * instrs.len());
                        }
                    }
                    return Err(e);
                },
            }
            i = i + 1;
        }
        proof {
            assert(instrs.subrange(0, instrs.len() as int) =~= instrs);
        }
        out.push(WasmInstr::End);
        let ghost before = types.items();
        let params = self.params;
        let output = self.output;
        let ghost pv = params@;
        let ghost ov = output@;
        let ghost fkey = crate::wasm::registries::types::registry::compound_key(
            before,
            CompoundTypeView::Function(pv, ov),
        );
        let ghost before_keys = types.keys();
        let r = types.function::<u32>(params, output);
        proof {
            lemma_with_key_index(before_keys, fkey);
        }
        match r {
            Ok(type_index) => {
                proof {
                    lemma_extends_trans(start, before, types.items());
                    assert forall|k: int|
                        0 <= k < pairs.len() && #[trigger] instrs[k] is LazyBroadcastSpawnAndWait
                            implies wait_types_at(types.items(), pairs[k]) by {
                        lemma_wait_types_grow(before, types.items(), pairs[k]);
                    }
                }
                Ok(FinishedStep { type_index, locals: self.locals, instructions: out })
            },
            Err(_) => {
                proof {
                    lemma_extends_trans(start, before, types.items());
                }
                Err(EvalError::IndexOutOfBounds)
            },
        }
    }
}

/// The types of a wait stay where they are as the registry grows.
proof fn lemma_wait_types_grow(
    items: Seq<crate::wasm::registries::types::registry::RegistryItem>,
    more: Seq<crate::wasm::registries::types::registry::RegistryItem>,
    pair: (u32, u32),
)
    requires
        wait_types_at(items, pair),
        extends(items, more),
    ensures
        wait_types_at(more, pair),
{
    assert(more[pair.0 as int] == items[pair.0 as int]);
    assert(more[pair.1 as int] == items[pair.1 as int]);
}

/// Evaluating one more instruction appends its plain instructions.
proof fn lemma_eval_all_step(
    instrs: Seq<Instruction>,
    ins: Instruction,
    events: Seq<(Event, Vec<u32>)>,
    ctx: EvalContext,
    pairs: Seq<(u32, u32)>,
    pair: (u32, u32),
)
    requires
        pairs.len() == instrs.len(),
    ensures
        eval_all(instrs.push(ins), events, ctx, pairs.push(pair)) == eval_all(instrs, events, ctx, pairs)
            + eval_instrs(ins, events, ctx, pair.0, pair.1),
{
    lemma_eval_all_prefix(instrs, events, ctx, pairs, pairs.push(pair));
    assert(instrs.push(ins).drop_last() =~= instrs);
}

/// Only the types of the instructions there matter.
proof fn lemma_eval_all_prefix(
    instrs: Seq<Instruction>,
    events: Seq<(Event, Vec<u32>)>,
    ctx: EvalContext,
    pairs: Seq<(u32, u32)>,
    more: Seq<(u32, u32)>,
)
    requires
        pairs.len() >= instrs.len(),
        more.len() >= instrs.len(),
        forall|k: int| 0 <= k < instrs.len() ==> #[trigger] more[k] == pairs[k],
    ensures
        eval_all(instrs, events, ctx, more) == eval_all(instrs, events, ctx, pairs),
    decreases instrs.len(),
{
    if instrs.len() > 0 {
        lemma_eval_all_prefix(instrs.drop_last(), events, ctx, pairs, more);
    }
}

} // verus!
