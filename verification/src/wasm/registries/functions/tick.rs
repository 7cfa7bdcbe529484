//! The scheduler's tick: runs one step of every thread of every target.

use vstd::prelude::*;
use vstd::string::StringExecFns;
use super::{emit, new_body, MaybeStaticFunction, Populate, RegisterDeps, StaticFunction, StaticFunctionError, WasmInstr};
use crate::registry::NamedRegistryItem;
use super::semantics::{run, run_n, wrap_i32, writes_local, Machine, Value};
use crate::wasm::types::{HeapType, ValType};

verus! {

/// Where the tick's types, globals and callees stand in the module. Function
/// indices count the imported functions.
#[derive(Clone, Copy, Debug, PartialEq, Eq, Structural)]
pub struct TickLayout {
    /// The global that holds every target's threads.
    pub threadss_global: u32,
    pub target_threads_array_type: u32,
    pub target_thread_struct_type: u32,
    pub stack_struct_type: u32,
    pub step_func_type: u32,
    /// The dynamic array of stack frames.
    pub stack_struct_array_heap_type: HeapType,
    pub stack_array_len_fn: u32,
    pub stack_array_get_fn: u32,
    pub stack_struct_len_fn: u32,
    pub stack_struct_get_fn: u32,
    /// The number of targets: the sprites and the stage.
    pub targets_num: i32,
    /// Non-nullable references to a target's threads, to a thread's stack
    /// and to a stack frame.
    pub thread_array_ref: ValType,
    pub stack_array_ref: ValType,
    pub stack_struct_ref: ValType,
}

/// Runs, for every target in turn, the step on top of the stack of each of its
/// threads. Exported as `"tick"`.
pub struct Tick;

/// The body of [`Tick`].
pub open spec fn tick_body(l: TickLayout) -> Seq<WasmInstr> {
    Seq::empty()
        .push(WasmInstr::Loop)
        .push(WasmInstr::GlobalGet(l.threadss_global))
        .push(WasmInstr::LocalGet(0))
        .push(WasmInstr::ArrayGet(l.target_threads_array_type))
        .push(WasmInstr::StructGet { struct_type_index: l.target_thread_struct_type, field_index: 1 })
        .push(WasmInstr::LocalTee(3))
        .push(WasmInstr::Call(l.stack_array_len_fn))
        .push(WasmInstr::LocalTee(2))
        .push(WasmInstr::I32Eqz)
        .push(WasmInstr::BrIf(0))
        .push(WasmInstr::I32Const(0))
        .push(WasmInstr::LocalSet(1))
        .push(WasmInstr::Loop)
        .push(WasmInstr::LocalGet(3))
        .push(WasmInstr::LocalGet(1))
        .push(WasmInstr::Call(l.stack_array_get_fn))
        .push(WasmInstr::RefAsNonNull)
        .push(WasmInstr::LocalTee(4))
        .push(WasmInstr::LocalGet(4))
        .push(WasmInstr::RefCastNonNull(l.stack_struct_array_heap_type))
        .push(WasmInstr::LocalGet(4))
        .push(WasmInstr::RefCastNonNull(l.stack_struct_array_heap_type))
        .push(WasmInstr::Call(l.stack_struct_len_fn))
        .push(WasmInstr::I32Const(1))
        .push(WasmInstr::I32Sub)
        .push(WasmInstr::Call(l.stack_struct_get_fn))
        .push(WasmInstr::RefAsNonNull)
        .push(WasmInstr::LocalTee(5))
        .push(WasmInstr::StructGet { struct_type_index: l.stack_struct_type, field_index: 1 })
        .push(WasmInstr::LocalGet(5))
        .push(WasmInstr::StructGet { struct_type_index: l.stack_struct_type, field_index: 0 })
        .push(WasmInstr::CallRef(l.step_func_type))
        .push(WasmInstr::LocalGet(1))
        .push(WasmInstr::I32Const(1))
        .push(WasmInstr::I32Add)
        .push(WasmInstr::LocalTee(1))
        .push(WasmInstr::LocalGet(2))
        .push(WasmInstr::I32LtS)
        .push(WasmInstr::BrIf(0))
        .push(WasmInstr::End)
        .push(WasmInstr::LocalGet(0))
        .push(WasmInstr::I32Const(1))
        .push(WasmInstr::I32Add)
        .push(WasmInstr::LocalTee(0))
        .push(WasmInstr::I32Const(l.targets_num))
        .push(WasmInstr::I32LtS)
        .push(WasmInstr::BrIf(0))
        .push(WasmInstr::End)
        .push(WasmInstr::End)
}

impl Tick {
    /// The function for the module laid out as `l`; there must be a target.
    pub fn populate(l: TickLayout) -> (r: Result<StaticFunction, StaticFunctionError>)
        ensures
            r is Ok <==> l.targets_num > 0,
            r matches Ok(f) ==> {
                &&& f.instructions@ == tick_body(l)
                &&& f.params@ == Seq::<ValType>::empty()
                &&& f.returns@ == Seq::<ValType>::empty()
                &&& f.locals@ == seq![
                    ValType::I32,
                    ValType::I32,
                    ValType::I32,
                    l.thread_array_ref,
                    l.stack_array_ref,
                    l.stack_struct_ref,
                ]
                &&& f.export matches Some(name) && name@ == "tick"@
                &&& f.well_formed()
                &&& f.closed()
            },
            r matches Err(e) ==> e == StaticFunctionError::NoTargets,
    {
        if l.targets_num <= 0 {
            return Err(StaticFunctionError::NoTargets);
        }
        let ghost n: int = 6;
        let mut body = new_body();
        emit(&mut body, WasmInstr::Loop, Ghost(n));
        emit(&mut body, WasmInstr::GlobalGet(l.threadss_global), Ghost(n));
        emit(&mut body, WasmInstr::LocalGet(0), Ghost(n));
        emit(&mut body, WasmInstr::ArrayGet(l.target_threads_array_type), Ghost(n));
        emit(&mut body, WasmInstr::StructGet { struct_type_index: l.target_thread_struct_type, field_index: 1 }, Ghost(n));
        emit(&mut body, WasmInstr::LocalTee(3), Ghost(n));
        emit(&mut body, WasmInstr::Call(l.stack_array_len_fn), Ghost(n));
        emit(&mut body, WasmInstr::LocalTee(2), Ghost(n));
        emit(&mut body, WasmInstr::I32Eqz, Ghost(n));
        emit(&mut body, WasmInstr::BrIf(0), Ghost(n));
        emit(&mut body, WasmInstr::I32Const(0), Ghost(n));
        emit(&mut body, WasmInstr::LocalSet(1), Ghost(n));
        emit(&mut body, WasmInstr::Loop, Ghost(n));
        emit(&mut body, WasmInstr::LocalGet(3), Ghost(n));
        emit(&mut body, WasmInstr::LocalGet(1), Ghost(n));
        emit(&mut body, WasmInstr::Call(l.stack_array_get_fn), Ghost(n));
        emit(&mut body, WasmInstr::RefAsNonNull, Ghost(n));
        emit(&mut body, WasmInstr::LocalTee(4), Ghost(n));
        emit(&mut body, WasmInstr::LocalGet(4), Ghost(n));
        emit(&mut body, WasmInstr::RefCastNonNull(l.stack_struct_array_heap_type), Ghost(n));
        emit(&mut body, WasmInstr::LocalGet(4), Ghost(n));
        emit(&mut body, WasmInstr::RefCastNonNull(l.stack_struct_array_heap_type), Ghost(n));
        emit(&mut body, WasmInstr::Call(l.stack_struct_len_fn), Ghost(n));
        emit(&mut body, WasmInstr::I32Const(1), Ghost(n));
        emit(&mut body, WasmInstr::I32Sub, Ghost(n));
        emit(&mut body, WasmInstr::Call(l.stack_struct_get_fn), Ghost(n));
        emit(&mut body, WasmInstr::RefAsNonNull, Ghost(n));
        emit(&mut body, WasmInstr::LocalTee(5), Ghost(n));
        emit(&mut body, WasmInstr::StructGet { struct_type_index: l.stack_struct_type, field_index: 1 }, Ghost(n));
        emit(&mut body, WasmInstr::LocalGet(5), Ghost(n));
        emit(&mut body, WasmInstr::StructGet { struct_type_index: l.stack_struct_type, field_index: 0 }, Ghost(n));
        emit(&mut body, WasmInstr::CallRef(l.step_func_type), Ghost(n));
        emit(&mut body, WasmInstr::LocalGet(1), Ghost(n));
        emit(&mut body, WasmInstr::I32Const(1), Ghost(n));
        emit(&mut body, WasmInstr::I32Add, Ghost(n));
        emit(&mut body, WasmInstr::LocalTee(1), Ghost(n));
        emit(&mut body, WasmInstr::LocalGet(2), Ghost(n));
        emit(&mut body, WasmInstr::I32LtS, Ghost(n));
        emit(&mut body, WasmInstr::BrIf(0), Ghost(n));
        emit(&mut body, WasmInstr::End, Ghost(n));
        emit(&mut body, WasmInstr::LocalGet(0), Ghost(n));
        emit(&mut body, WasmInstr::I32Const(1), Ghost(n));
        emit(&mut body, WasmInstr::I32Add, Ghost(n));
        emit(&mut body, WasmInstr::LocalTee(0), Ghost(n));
        emit(&mut body, WasmInstr::I32Const(l.targets_num), Ghost(n));
        emit(&mut body, WasmInstr::I32LtS, Ghost(n));
        emit(&mut body, WasmInstr::BrIf(0), Ghost(n));
        emit(&mut body, WasmInstr::End, Ghost(n));
        emit(&mut body, WasmInstr::End, Ghost(n));
        let locals: Vec<ValType> = vec![
            ValType::I32,
            ValType::I32,
            ValType::I32,
            l.thread_array_ref,
            l.stack_array_ref,
            l.stack_struct_ref,
        ];
        Ok(StaticFunction {
            instructions: body,
            params: Vec::new(),
            returns: Vec::new(),
            locals,
            export: Some(String::from_str("tick")),
        })
    }
}

impl NamedRegistryItem<MaybeStaticFunction> for Tick {
    open spec fn item_name() -> Seq<char> {
        "hyperquark::wasm::registries::functions::tick::Tick"@
    }

    open spec fn item_value() -> MaybeStaticFunction {
        MaybeStaticFunction { static_function: None, register_deps: RegisterDeps::TickHelpers, maybe_populate: Populate::Never }
    }

    fn name() -> (r: String) {
        String::from_str("hyperquark::wasm::registries::functions::tick::Tick")
    }

    fn value() -> (r: MaybeStaticFunction) {
        MaybeStaticFunction { static_function: None, register_deps: RegisterDeps::TickHelpers, maybe_populate: Populate::Never }
    }
}


/// The machine `m` with local `k` set to the integer `v`.
pub open spec fn with_local(m: Machine, k: int, v: int) -> Machine {
    Machine { locals: m.locals.update(k, Value::I32(v)), ..m }
}

/// How the tick walks the targets and, for each, the threads: the target
/// index (local 0, which is not a parameter and so starts at 0) is read at
/// the start of each pass of the outer loop to choose the target's threads,
/// and is written by one instruction only, at the end of that pass, where it
/// grows by exactly one and the pass repeats exactly while it stays below
/// the number of targets. Likewise the thread index (local 1) starts each
/// target at 0 and grows by exactly one per pass of the inner loop, which
/// repeats exactly while it stays below the thread count (local 2). So each
/// target index from 0 up to the number of targets, and for each each
/// thread index below its thread count, has one pass, in order.
pub proof fn law_tick_visits_each_target_once(
    l: TickLayout,
    f: StaticFunction,
    m: Machine,
    t: int,
    i: int,
    n: int,
)
    requires
        f.instructions@ == tick_body(l),
        f.params@ == Seq::<ValType>::empty(),
        f.locals@[0] == ValType::I32,
        l.targets_num > 0,
        !m.trapped,
        m.skipping == 0,
        m.locals.len() == 6,
        0 <= t < l.targets_num,
        0 <= i < n < 0x8000_0000,
    ensures
        ({
            let body = f.instructions@;
            // the outer loop opens the function and chooses the target by its index
            &&& body[0] == WasmInstr::Loop
            &&& body[2] == WasmInstr::LocalGet(0)
            &&& body[3] == WasmInstr::ArrayGet(l.target_threads_array_type)
            // the target index is written at one place only
            &&& forall|k: int| 0 <= k < body.len() ==> (#[trigger] writes_local(body[k], 0) <==> k == 43)
            // which adds one and tests the result against the number of targets
            &&& run(with_local(m, 0, t), body.subrange(40, 46)) == Machine {
                locals: m.locals.update(0, Value::I32(t + 1)),
                stack: m.stack.push(Value::I32(if t + 1 < l.targets_num { 1 } else { 0 })),
                ..m
            }
            // then branches back to the outer loop's start while the test holds:
            // between the two, the only block opened (the inner loop) is closed
            &&& body[46] == WasmInstr::BrIf(0)
            &&& forall|k: int| 0 < k < 46 ==> (#[trigger] body[k] == WasmInstr::Loop <==> k == 12)
            &&& forall|k: int| 0 < k < 46 ==> (body[k] == WasmInstr::If) == false
            &&& forall|k: int| 0 < k < 46 ==> (#[trigger] body[k] == WasmInstr::End <==> k == 39)
            &&& body[47] == WasmInstr::End
            // the thread index is set to 0 before the inner loop
            &&& run(m, body.subrange(10, 12)) == Machine { locals: m.locals.update(1, Value::I32(0)), ..m }
            // and otherwise written only at the end of the inner loop
            &&& forall|k: int| 0 <= k < body.len() ==> (#[trigger] writes_local(body[k], 1) <==> (k == 11 || k == 35))
            // which adds one and tests the result against the thread count
            &&& run(with_local(with_local(m, 1, i), 2, n), body.subrange(32, 38)) == Machine {
                locals: m.locals.update(1, Value::I32(i + 1)).update(2, Value::I32(n)),
                stack: m.stack.push(Value::I32(if i + 1 < n { 1 } else { 0 })),
                ..m
            }
            &&& body[38] == WasmInstr::BrIf(0)
        }),
{
    let body = f.instructions@;
    assert(body =~= seq![
        WasmInstr::Loop,
        WasmInstr::GlobalGet(l.threadss_global),
        WasmInstr::LocalGet(0),
        WasmInstr::ArrayGet(l.target_threads_array_type),
        WasmInstr::StructGet { struct_type_index: l.target_thread_struct_type, field_index: 1 },
        WasmInstr::LocalTee(3),
        WasmInstr::Call(l.stack_array_len_fn),
        WasmInstr::LocalTee(2),
        WasmInstr::I32Eqz,
        WasmInstr::BrIf(0),
        WasmInstr::I32Const(0),
        WasmInstr::LocalSet(1),
        WasmInstr::Loop,
        WasmInstr::LocalGet(3),
        WasmInstr::LocalGet(1),
        WasmInstr::Call(l.stack_array_get_fn),
        WasmInstr::RefAsNonNull,
        WasmInstr::LocalTee(4),
        WasmInstr::LocalGet(4),
        WasmInstr::RefCastNonNull(l.stack_struct_array_heap_type),
        WasmInstr::LocalGet(4),
        WasmInstr::RefCastNonNull(l.stack_struct_array_heap_type),
        WasmInstr::Call(l.stack_struct_len_fn),
        WasmInstr::I32Const(1),
        WasmInstr::I32Sub,
        WasmInstr::Call(l.stack_struct_get_fn),
        WasmInstr::RefAsNonNull,
        WasmInstr::LocalTee(5),
        WasmInstr::StructGet { struct_type_index: l.stack_struct_type, field_index: 1 },
        WasmInstr::LocalGet(5),
        WasmInstr::StructGet { struct_type_index: l.stack_struct_type, field_index: 0 },
        WasmInstr::CallRef(l.step_func_type),
        WasmInstr::LocalGet(1),
        WasmInstr::I32Const(1),
        WasmInstr::I32Add,
        WasmInstr::LocalTee(1),
        WasmInstr::LocalGet(2),
        WasmInstr::I32LtS,
        WasmInstr::BrIf(0),
        WasmInstr::End,
        WasmInstr::LocalGet(0),
        WasmInstr::I32Const(1),
        WasmInstr::I32Add,
        WasmInstr::LocalTee(0),
        WasmInstr::I32Const(l.targets_num),
        WasmInstr::I32LtS,
        WasmInstr::BrIf(0),
        WasmInstr::End,
        WasmInstr::End,
    ]);
    // the outer loop's tail
    let seg = body.subrange(40, 46);
    let m0 = with_local(m, 0, t);
    assert(wrap_i32(t + 1) == t + 1);
    assert(run_n(m0, seg, 0) == m0);
    assert(run_n(m0, seg, 1).stack =~= m.stack.push(Value::I32(t)));
    assert(run_n(m0, seg, 2).stack =~= m.stack.push(Value::I32(t)).push(Value::I32(1)));
    assert(run_n(m0, seg, 3).stack =~= m.stack.push(Value::I32(t + 1)));
    assert(run_n(m0, seg, 4).locals =~= m.locals.update(0, Value::I32(t + 1)));
    assert(run_n(m0, seg, 5).stack =~= m.stack.push(Value::I32(t + 1)).push(Value::I32(l.targets_num as int)));
    assert(run_n(m0, seg, 6).stack =~= m.stack.push(Value::I32(if t + 1 < l.targets_num { 1 } else { 0 })));
    assert(run_n(m0, seg, 6).locals =~= m.locals.update(0, Value::I32(t + 1)));
    // the thread index starts at 0
    let start = body.subrange(10, 12);
    assert(run_n(m, start, 0) == m);
    assert(run_n(m, start, 1).stack =~= m.stack.push(Value::I32(0)));
    assert(run_n(m, start, 2).stack =~= m.stack);
    assert(run_n(m, start, 2).locals =~= m.locals.update(1, Value::I32(0)));
    // the inner loop's tail
    let inner = body.subrange(32, 38);
    let m1 = with_local(with_local(m, 1, i), 2, n);
    assert(wrap_i32(i + 1) == i + 1);
    assert(run_n(m1, inner, 0) == m1);
    assert(run_n(m1, inner, 1).stack =~= m.stack.push(Value::I32(i)));
    assert(run_n(m1, inner, 2).stack =~= m.stack.push(Value::I32(i)).push(Value::I32(1)));
    assert(run_n(m1, inner, 3).stack =~= m.stack.push(Value::I32(i + 1)));
    assert(run_n(m1, inner, 4).locals =~= m.locals.update(1, Value::I32(i + 1)).update(2, Value::I32(n)));
    assert(run_n(m1, inner, 5).stack =~= m.stack.push(Value::I32(i + 1)).push(Value::I32(n)));
    assert(run_n(m1, inner, 6).stack =~= m.stack.push(Value::I32(if i + 1 < n { 1 } else { 0 })));
    assert(run_n(m1, inner, 6).locals =~= m.locals.update(1, Value::I32(i + 1)).update(2, Value::I32(n)));
}
} // verus!
