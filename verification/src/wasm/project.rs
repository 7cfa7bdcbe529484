//! The functions that a project's module exports for the host: one per event
//! that starts threads, a dispatcher for sprite clicks, and the scheduler's
//! tick over the threads table.

use vstd::prelude::*;
use vstd::string::StringExecFns;
use crate::wasm::registries::functions::{emit, new_body, scan, StaticFunction, WasmInstr};
use crate::wasm::types::{AbstractHeapType, HeapType, RefType, ValType};

verus! {

/// An event that starts threads.
#[derive(Clone, Debug)]
pub enum Event {
    FlagClicked,
    /// A broadcast, by name; its threads are started by the blocks that send it.
    Broadcast(String),
    /// A click on the sprite with this index.
    SpriteClicked(u32),
}

/// Events as values: a broadcast by its name's characters.
pub enum EventKey {
    FlagClicked,
    Broadcast(Seq<char>),
    SpriteClicked(u32),
}

/// The value of an event.
pub open spec fn event_key(e: Event) -> EventKey {
    match e {
        Event::FlagClicked => EventKey::FlagClicked,
        Event::Broadcast(b) => EventKey::Broadcast(b@),
        Event::SpriteClicked(i) => EventKey::SpriteClicked(i),
    }
}

/// No event occurs twice among the events and their threads, as in a map
/// from events to threads.
pub open spec fn events_distinct(events: Seq<(Event, Vec<u32>)>) -> bool {
    forall|i: int, j: int|
        0 <= i < j < events.len() ==> event_key(#[trigger] events[i].0) != event_key(
            #[trigger] events[j].0,
        )
}

/// Why an event's function could not be made.
#[derive(Clone, Copy, Debug, PartialEq, Eq, Structural)]
pub enum EventError {
    /// The number of threads to start, or a sprite's index, does not fit in
    /// an `i32`.
    ValueOutOfBounds,
}

/// The character of the digit `d`.
pub open spec fn digit_char(d: int) -> char {
    if d == 0 {
        '0'
    } else if d == 1 {
        '1'
    } else if d == 2 {
        '2'
    } else if d == 3 {
        '3'
    } else if d == 4 {
        '4'
    } else if d == 5 {
        '5'
    } else if d == 6 {
        '6'
    } else if d == 7 {
        '7'
    } else if d == 8 {
        '8'
    } else {
        '9'
    }
}

/// `n` in decimal, without leading zeros.
pub open spec fn decimal(n: nat) -> Seq<char>
    decreases n,
{
    if n < 10 {
        seq![digit_char(n as int)]
    } else {
        decimal(n / 10).push(digit_char((n % 10) as int))
    }
}

fn digit_str(d: u32) -> (r: &'static str)
    requires
        d < 10,
    ensures
        r@ == seq![digit_char(d as int)],
{
    proof {
        reveal_strlit("0");
        reveal_strlit("1");
        reveal_strlit("2");
        reveal_strlit("3");
        reveal_strlit("4");
        reveal_strlit("5");
        reveal_strlit("6");
        reveal_strlit("7");
        reveal_strlit("8");
        reveal_strlit("9");
    }
    match d {
        0 => "0",
        1 => "1",
        2 => "2",
        3 => "3",
        4 => "4",
        5 => "5",
        6 => "6",
        7 => "7",
        8 => "8",
        _ => "9",
    }
}

/// `n` in decimal.
pub fn decimal_string(n: u32) -> (r: String)
    ensures
        r@ == decimal(n as nat),
    decreases n,
{
    if n < 10 {
        String::from_str(digit_str(n))
    } else {
        let mut s = decimal_string(n / 10);
        s.append(digit_str(n % 10));
        s
    }
}

/// The name that an event's function is exported under; broadcasts have none.
pub open spec fn event_export_name(event: Event) -> Option<Seq<char>> {
    match event {
        Event::FlagClicked => Some("flag_clicked"@),
        Event::Broadcast(_) => None,
        Event::SpriteClicked(index) => Some("spriteClicked"@ + decimal(index as nat)),
    }
}

/// The name that an event's function is exported under; broadcasts have none.
pub fn export_name(event: &Event) -> (r: Option<String>)
    ensures
        r is Some <==> event_export_name(*event) is Some,
        r matches Some(name) ==> event_export_name(*event) == Some(name@),
{
    match event {
        Event::FlagClicked => {
            proof {
                reveal_strlit("flag_clicked");
            }
            Some(String::from_str("flag_clicked"))
        },
        Event::Broadcast(_) => None,
        Event::SpriteClicked(index) => {
            let mut name = String::from_str("spriteClicked");
            let digits = decimal_string(*index);
            name.append(digits.as_str());
            Some(name)
        },
    }
}

/// Where an event function's callees and globals stand in the module.
#[derive(Clone, Copy, Debug, PartialEq, Eq, Structural)]
pub struct EventLayout {
    /// The global that counts the running threads (the imported globals
    /// counted).
    pub threads_count_global: u32,
    /// The function that spawns a new thread (the imported functions
    /// counted).
    pub spawn_new_thread_fn: u32,
    /// The index of the first step function: the imported and static
    /// functions come before the steps.
    pub first_step_fn: u32,
}

/// A null reference to any struct: no argument for a spawned step.
pub open spec fn null_struct() -> HeapType {
    HeapType::Abstract { shared: false, ty: AbstractHeapType::Struct }
}

/// The instructions that spawn a thread for each of the steps `indices`
/// (counted from the first step), in order.
pub open spec fn spawn_steps(indices: Seq<u32>, l: EventLayout) -> Seq<WasmInstr>
    decreases indices.len(),
{
    if indices.len() == 0 {
        Seq::empty()
    } else {
        spawn_steps(indices.drop_last(), l) + seq![
            WasmInstr::RefFunc((indices.last() + l.first_step_fn) as u32),
            WasmInstr::RefNull(null_struct()),
            WasmInstr::Call(l.spawn_new_thread_fn),
        ]
    }
}

/// The body of an event's function: spawn a thread for each step, then add
/// their number to the running threads' count.
pub open spec fn event_body(indices: Seq<u32>, l: EventLayout) -> Seq<WasmInstr> {
    spawn_steps(indices, l) + seq![
        WasmInstr::GlobalGet(l.threads_count_global),
        WasmInstr::I32Const(indices.len() as i32),
        WasmInstr::I32Add,
        WasmInstr::GlobalSet(l.threads_count_global),
        WasmInstr::End,
    ]
}

/// Every step's function index fits in a `u32`.
pub open spec fn steps_fit(indices: Seq<u32>, l: EventLayout) -> bool {
    forall|k: int| 0 <= k < indices.len() ==> #[trigger] indices[k] + l.first_step_fn <= u32::MAX
}

/// The function of an event, exported as `name`: it spawns a thread for each
/// of the steps `indices` (counted from the first step) and counts them as
/// running. The number of steps must fit in an `i32`.
pub fn finish_event(name: String, indices: &Vec<u32>, l: EventLayout) -> (r: Result<
    StaticFunction,
    EventError,
>)
    requires
        steps_fit(indices@, l),
    ensures
        r is Ok <==> indices@.len() <= i32::MAX,
        r matches Ok(f) ==> {
            &&& f.instructions@ == event_body(indices@, l)
            &&& f.params@.len() == 0
            &&& f.returns@.len() == 0
            &&& f.locals@.len() == 0
            &&& f.export matches Some(e) && e@ == name@
            &&& f.well_formed()
            &&& f.closed()
        },
        r matches Err(e) ==> e == EventError::ValueOutOfBounds,
{
    if indices.len() > i32::MAX as usize {
        return Err(EventError::ValueOutOfBounds);
    }
    let ghost n: int = 0;
    let mut body = new_body();
    let mut i: usize = 0;
    while i < indices.len()
        invariant
            i <= indices@.len(),
            n == 0,
            indices@.len() <= i32::MAX,
            steps_fit(indices@, l),
            body@ == spawn_steps(indices@.subrange(0, i as int), l),
            scan(body@, 0) == Some(1int),
        decreases indices@.len() - i,
    {
        proof {
            assert(indices@.subrange(0, i + 1).drop_last() =~= indices@.subrange(0, i as int));
            assert(indices@[i as int] + l.first_step_fn <= u32::MAX);
        }
        let step = indices[i];
        emit(&mut body, WasmInstr::RefFunc(step + l.first_step_fn), Ghost(n));
        emit(&mut body, WasmInstr::RefNull(HeapType::Abstract { shared: false, ty: AbstractHeapType::Struct }), Ghost(n));
        emit(&mut body, WasmInstr::Call(l.spawn_new_thread_fn), Ghost(n));
        proof {
            assert(body@ =~= spawn_steps(indices@.subrange(0, i + 1), l));
        }
        i = i + 1;
    }
    proof {
        assert(indices@.subrange(0, indices@.len() as int) =~= indices@);
    }
    emit(&mut body, WasmInstr::GlobalGet(l.threads_count_global), Ghost(n));
    emit(&mut body, WasmInstr::I32Const(indices.len() as i32), Ghost(n));
    emit(&mut body, WasmInstr::I32Add, Ghost(n));
    emit(&mut body, WasmInstr::GlobalSet(l.threads_count_global), Ghost(n));
    emit(&mut body, WasmInstr::End, Ghost(n));
    proof {
        assert(body@ =~= event_body(indices@, l));
    }
    Ok(StaticFunction {
        instructions: body,
        params: Vec::new(),
        returns: Vec::new(),
        locals: Vec::new(),
        export: Some(name),
    })
}

/// The events that get a function of their own, in order: all but
/// broadcasts.
pub open spec fn kept_events(events: Seq<(Event, Vec<u32>)>) -> Seq<(Event, Vec<u32>)>
    decreases events.len(),
{
    if events.len() == 0 {
        Seq::empty()
    } else {
        kept_events(events.drop_last()) + (if events.last().0 is Broadcast {
            Seq::empty()
        } else {
            seq![events.last()]
        })
    }
}

/// The dispatcher's test for the kept event at position `k`: for a sprite
/// click, compare the parameter with the sprite's index and, if equal, call
/// the event's function (`first_fn + k`) and return.
pub open spec fn dispatch_test(event: Event, k: int, first_fn: u32) -> Seq<WasmInstr> {
    match event {
        Event::SpriteClicked(sprite) => seq![
            WasmInstr::LocalGet(0),
            WasmInstr::I32Const(sprite as i32),
            WasmInstr::I32Eq,
            WasmInstr::If,
            WasmInstr::Call((first_fn + k) as u32),
            WasmInstr::Return,
            WasmInstr::End,
        ],
        _ => Seq::empty(),
    }
}

/// The dispatcher's tests for the kept events, in order.
pub open spec fn dispatch_instrs(kept: Seq<(Event, Vec<u32>)>, first_fn: u32) -> Seq<WasmInstr>
    decreases kept.len(),
{
    if kept.len() == 0 {
        Seq::empty()
    } else {
        dispatch_instrs(kept.drop_last(), first_fn) + dispatch_test(
            kept.last().0,
            kept.len() - 1,
            first_fn,
        )
    }
}

/// A sprite click's index fits in an `i32`.
pub open spec fn sprite_value_fits(event: Event) -> bool {
    match event {
        Event::SpriteClicked(sprite) => sprite <= i32::MAX,
        _ => true,
    }
}

/// Every kept event's number of steps, and every sprite's index, fits in an
/// `i32`.
pub open spec fn events_fit(kept: Seq<(Event, Vec<u32>)>) -> bool {
    forall|k: int|
        0 <= k < kept.len() ==> (#[trigger] kept[k].1@).len() <= i32::MAX && sprite_value_fits(
            kept[k].0,
        )
}

/// Every kept event's steps' function indices fit in a `u32`.
pub open spec fn all_steps_fit(kept: Seq<(Event, Vec<u32>)>, l: EventLayout) -> bool {
    forall|k: int| 0 <= k < kept.len() ==> steps_fit(#[trigger] kept[k].1@, l)
}

/// The events kept from a prefix are a prefix of those kept from the whole.
proof fn lemma_kept_prefix(events: Seq<(Event, Vec<u32>)>, i: int)
    requires
        0 <= i <= events.len(),
    ensures
        kept_events(events.subrange(0, i)).len() <= kept_events(events).len(),
        forall|k: int|
            0 <= k < kept_events(events.subrange(0, i)).len() ==> #[trigger] kept_events(
                events.subrange(0, i),
            )[k] == kept_events(events)[k],
    decreases events.len(),
{
    if i == events.len() {
        assert(events.subrange(0, i) =~= events);
    } else {
        let rest = events.drop_last();
        assert(rest.subrange(0, i) =~= events.subrange(0, i));
        lemma_kept_prefix(rest, i);
    }
}

/// The dispatcher's tests stay as more kept events follow.
proof fn lemma_dispatch_step(kept: Seq<(Event, Vec<u32>)>, e: (Event, Vec<u32>), first_fn: u32)
    ensures
        dispatch_instrs(kept.push(e), first_fn) == dispatch_instrs(kept, first_fn) + dispatch_test(
            e.0,
            kept.len() as int,
            first_fn,
        ),
{
    assert(kept.push(e).drop_last() =~= kept);
}

/// A kept event that fits extends kept events that fit.
proof fn lemma_fit_push(before: Seq<(Event, Vec<u32>)>, e: (Event, Vec<u32>))
    requires
        events_fit(before),
        e.1@.len() <= i32::MAX,
        sprite_value_fits(e.0),
    ensures
        events_fit(before.push(e)),
{
    let after = before.push(e);
    assert forall|j: int| 0 <= j < after.len() implies (#[trigger] after[j].1@).len() <= i32::MAX
        && sprite_value_fits(after[j].0) by {
        if j < before.len() {
            assert(after[j] == before[j]);
        }
    }
}

/// The functions of the events, in order, each exported under its event's
/// name (broadcasts get none), then, if some sprite click is among them, the
/// dispatcher exported as `"trigger_sprite_clicked"`, which takes a sprite's
/// index and calls that sprite's click function. The events' functions get
/// consecutive indices from `first_fn`, which must all fit, as must the
/// dispatcher's.
#[verifier::spinoff_prover]
pub fn finish_events(events: &Vec<(Event, Vec<u32>)>, l: EventLayout, first_fn: u32) -> (r: Result<
    Vec<StaticFunction>,
    EventError,
>)
    requires
        events_distinct(events@),
        all_steps_fit(kept_events(events@), l),
        first_fn + kept_events(events@).len() <= u32::MAX,
    ensures
        r is Ok <==> events_fit(kept_events(events@)),
        r matches Ok(fs) ==> {
            let kept = kept_events(events@);
            let dispatch = dispatch_instrs(kept, first_fn);
            &&& fs@.len() == kept.len() + (if dispatch.len() > 0 {
                1int
            } else {
                0
            })
            &&& forall|k: int|
                0 <= k < kept.len() ==> {
                    &&& (#[trigger] fs@[k]).instructions@ == event_body(kept[k].1@, l)
                    &&& fs@[k].export matches Some(e) && event_export_name(kept[k].0) == Some(e@)
                    &&& fs@[k].params@.len() == 0 && fs@[k].locals@.len() == 0
                    &&& fs@[k].returns@.len() == 0
                    &&& fs@[k].well_formed() && fs@[k].closed()
                }
            &&& dispatch.len() > 0 ==> {
                let d = fs@[kept.len() as int];
                &&& d.instructions@ == dispatch.push(WasmInstr::End)
                &&& d.params@ == seq![ValType::I32]
                &&& d.locals@.len() == 0 && d.returns@.len() == 0
                &&& d.export matches Some(e) && e@ == "trigger_sprite_clicked"@
                &&& d.well_formed() && d.closed()
            }
        },
        r matches Err(e) ==> e == EventError::ValueOutOfBounds,
{
    let ghost all = events@;
    let mut out: Vec<StaticFunction> = Vec::new();
    let mut dispatch: Vec<WasmInstr> = new_body();
    let mut i: usize = 0;
    let ghost n: int = 1;
    proof {
        lemma_kept_prefix(all, 0);
        assert(all.subrange(0, 0) =~= Seq::<(Event, Vec<u32>)>::empty());
    }
    while i < events.len()
        invariant
            all == events@,
            i <= all.len(),
            n == 1,
            all_steps_fit(kept_events(all), l),
            first_fn + kept_events(all).len() <= u32::MAX,
            out@.len() == kept_events(all.subrange(0, i as int)).len(),
            out@.len() <= kept_events(all).len(),
            forall|j: int|
                0 <= j < out@.len() ==> {
                    let kept = kept_events(all.subrange(0, i as int));
                    &&& (#[trigger] out@[j]).instructions@ == event_body(kept[j].1@, l)
                    &&& out@[j].export matches Some(e) && event_export_name(kept[j].0) == Some(e@)
                    &&& out@[j].params@.len() == 0 && out@[j].locals@.len() == 0
                    &&& out@[j].returns@.len() == 0
                    &&& out@[j].well_formed() && out@[j].closed()
                },
            events_fit(kept_events(all.subrange(0, i as int))),
            dispatch@ == dispatch_instrs(kept_events(all.subrange(0, i as int)), first_fn),
            scan(dispatch@, 1) == Some(1int),
        decreases all.len() - i,
    {
        let ghost before = kept_events(all.subrange(0, i as int));
        proof {
            assert(all.subrange(0, i + 1).drop_last() =~= all.subrange(0, i as int));
            assert(all.subrange(0, i + 1).last() == all[i as int]);
            lemma_kept_prefix(all, i + 1);
        }
        let (event, indices) = &events[i];
        match export_name(event) {
            None => {
                proof {
                    assert(kept_events(all.subrange(0, i + 1)) =~= before);
                }
            },
            Some(name) => {
                let ghost after = before.push(all[i as int]);
                let ghost p = before.len() as int;
                proof {
                    assert(kept_events(all.subrange(0, i + 1)) =~= after);
                    assert(after[p] == all[i as int]);
                    assert(kept_events(all)[p] == after[p]);
                    assert(steps_fit(kept_events(all)[p].1@, l));
                }
                let f = match finish_event(name, indices, l) {
                    Ok(f) => f,
                    Err(e) => {
                        proof {
                            assert(!events_fit(kept_events(all))) by {
                                assert(kept_events(all)[p] == after[p]);
                            }
                        }
                        return Err(e);
                    },
                };
                match event {
                    Event::SpriteClicked(sprite) => {
                        if *sprite > i32::MAX as u32 {
                            proof {
                                assert(kept_events(all)[p] == after[p]);
                                assert(!sprite_value_fits(kept_events(all)[p].0));
                            }
                            return Err(EventError::ValueOutOfBounds);
                        }
                        let call = first_fn + out.len() as u32;
                        emit(&mut dispatch, WasmInstr::LocalGet(0), Ghost(n));
                        emit(&mut dispatch, WasmInstr::I32Const(*sprite as i32), Ghost(n));
                        emit(&mut dispatch, WasmInstr::I32Eq, Ghost(n));
                        emit(&mut dispatch, WasmInstr::If, Ghost(n));
                        emit(&mut dispatch, WasmInstr::Call(call), Ghost(n));
                        emit(&mut dispatch, WasmInstr::Return, Ghost(n));
                        emit(&mut dispatch, WasmInstr::End, Ghost(n));
                    },
                    _ => {},
                }
                proof {
                    lemma_dispatch_step(before, all[i as int], first_fn);
                    assert(dispatch@ =~= dispatch_instrs(after, first_fn));
                    lemma_fit_push(before, all[i as int]);
                }
                out.push(f);
            },
        }
        i = i + 1;
    }
    proof {
        assert(all.subrange(0, all.len() as int) =~= all);
    }
    if dispatch.len() > 0 {
        emit(&mut dispatch, WasmInstr::End, Ghost(n));
        proof {
            reveal_strlit("trigger_sprite_clicked");
        }
        out.push(StaticFunction {
            instructions: dispatch,
            params: vec![ValType::I32],
            returns: Vec::new(),
            locals: Vec::new(),
            export: Some(String::from_str("trigger_sprite_clicked")),
        });
    }
    Ok(out)
}

/// Where the table scheduler's types and table stand in the module.
#[derive(Clone, Copy, Debug, PartialEq, Eq, Structural)]
pub struct TableTickLayout {
    /// The table of threads.
    pub threads_table: u32,
    /// A thread: its stack and the stack's length.
    pub thread_struct_type: u32,
    /// A stack frame: its step and the step's argument.
    pub stack_struct_type: u32,
    pub stack_array_type: u32,
    pub step_func_type: u32,
}

/// The body of [`tick_func`].
pub open spec fn tick_func_body(l: TableTickLayout) -> Seq<WasmInstr> {
    Seq::empty()
        .push(WasmInstr::TableSize(l.threads_table))
        .push(WasmInstr::LocalTee(1))
        .push(WasmInstr::I32Eqz)
        .push(WasmInstr::BrIf(0))
        .push(WasmInstr::Loop)
        .push(WasmInstr::LocalGet(0))
        .push(WasmInstr::LocalGet(0))
        .push(WasmInstr::TableGet(l.threads_table))
        .push(WasmInstr::LocalTee(2))
        .push(WasmInstr::RefIsNull)
        .push(WasmInstr::If)
        .push(WasmInstr::LocalGet(0))
        .push(WasmInstr::I32Const(1))
        .push(WasmInstr::I32Add)
        .push(WasmInstr::LocalTee(0))
        .push(WasmInstr::LocalGet(1))
        .push(WasmInstr::I32LtS)
        .push(WasmInstr::If)
        .push(WasmInstr::Br(2))
        .push(WasmInstr::Else)
        .push(WasmInstr::Return)
        .push(WasmInstr::End)
        .push(WasmInstr::End)
        .push(WasmInstr::LocalGet(2))
        .push(WasmInstr::RefAsNonNull)
        .push(WasmInstr::StructGet { struct_type_index: l.thread_struct_type, field_index: 1 })
        .push(WasmInstr::LocalGet(2))
        .push(WasmInstr::RefAsNonNull)
        .push(WasmInstr::StructGet { struct_type_index: l.thread_struct_type, field_index: 0 })
        .push(WasmInstr::I32Const(1))
        .push(WasmInstr::I32Sub)
        .push(WasmInstr::ArrayGet(l.stack_array_type))
        .push(WasmInstr::RefAsNonNull)
        .push(WasmInstr::LocalTee(3))
        .push(WasmInstr::StructGet { struct_type_index: l.stack_struct_type, field_index: 1 })
        .push(WasmInstr::LocalGet(3))
        .push(WasmInstr::StructGet { struct_type_index: l.stack_struct_type, field_index: 0 })
        .push(WasmInstr::CallRef(l.step_func_type))
        .push(WasmInstr::LocalGet(0))
        .push(WasmInstr::I32Const(1))
        .push(WasmInstr::I32Add)
        .push(WasmInstr::LocalTee(0))
        .push(WasmInstr::LocalGet(1))
        .push(WasmInstr::I32LtS)
        .push(WasmInstr::BrIf(0))
        .push(WasmInstr::End)
        .push(WasmInstr::End)
}

/// The scheduler's tick over the threads table, exported as `"tick"`: for
/// each thread in the table it runs the step on top of the thread's stack,
/// and it returns once it meets an empty slot after which no thread follows.
pub fn tick_func(l: TableTickLayout) -> (r: StaticFunction)
    ensures
        r.instructions@ == tick_func_body(l),
        r.params@.len() == 0,
        r.returns@.len() == 0,
        r.locals@ == seq![
            ValType::I32,
            ValType::I32,
            ValType::Ref(RefType { nullable: true, heap_type: HeapType::Concrete(l.thread_struct_type) }),
            ValType::non_null_concrete(l.stack_struct_type),
        ],
        r.export matches Some(name) && name@ == "tick"@,
        r.well_formed(),
        r.closed(),
{
    let ghost n: int = 4;
    let mut body = new_body();
    emit(&mut body, WasmInstr::TableSize(l.threads_table), Ghost(n));
    emit(&mut body, WasmInstr::LocalTee(1), Ghost(n));
    emit(&mut body, WasmInstr::I32Eqz, Ghost(n));
    emit(&mut body, WasmInstr::BrIf(0), Ghost(n));
    emit(&mut body, WasmInstr::Loop, Ghost(n));
    emit(&mut body, WasmInstr::LocalGet(0), Ghost(n));
    emit(&mut body, WasmInstr::LocalGet(0), Ghost(n));
    emit(&mut body, WasmInstr::TableGet(l.threads_table), Ghost(n));
    emit(&mut body, WasmInstr::LocalTee(2), Ghost(n));
    emit(&mut body, WasmInstr::RefIsNull, Ghost(n));
    emit(&mut body, WasmInstr::If, Ghost(n));
    emit(&mut body, WasmInstr::LocalGet(0), Ghost(n));
    emit(&mut body, WasmInstr::I32Const(1), Ghost(n));
    emit(&mut body, WasmInstr::I32Add, Ghost(n));
    emit(&mut body, WasmInstr::LocalTee(0), Ghost(n));
    emit(&mut body, WasmInstr::LocalGet(1), Ghost(n));
    emit(&mut body, WasmInstr::I32LtS, Ghost(n));
    emit(&mut body, WasmInstr::If, Ghost(n));
    emit(&mut body, WasmInstr::Br(2), Ghost(n));
    emit(&mut body, WasmInstr::Else, Ghost(n));
    emit(&mut body, WasmInstr::Return, Ghost(n));
    emit(&mut body, WasmInstr::End, Ghost(n));
    emit(&mut body, WasmInstr::End, Ghost(n));
    emit(&mut body, WasmInstr::LocalGet(2), Ghost(n));
    emit(&mut body, WasmInstr::RefAsNonNull, Ghost(n));
    emit(&mut body, WasmInstr::StructGet { struct_type_index: l.thread_struct_type, field_index: 1 }, Ghost(n));
    emit(&mut body, WasmInstr::LocalGet(2), Ghost(n));
    emit(&mut body, WasmInstr::RefAsNonNull, Ghost(n));
    emit(&mut body, WasmInstr::StructGet { struct_type_index: l.thread_struct_type, field_index: 0 }, Ghost(n));
    emit(&mut body, WasmInstr::I32Const(1), Ghost(n));
    emit(&mut body, WasmInstr::I32Sub, Ghost(n));
    emit(&mut body, WasmInstr::ArrayGet(l.stack_array_type), Ghost(n));
    emit(&mut body, WasmInstr::RefAsNonNull, Ghost(n));
    emit(&mut body, WasmInstr::LocalTee(3), Ghost(n));
    emit(&mut body, WasmInstr::StructGet { struct_type_index: l.stack_struct_type, field_index: 1 }, Ghost(n));
    emit(&mut body, WasmInstr::LocalGet(3), Ghost(n));
    emit(&mut body, WasmInstr::StructGet { struct_type_index: l.stack_struct_type, field_index: 0 }, Ghost(n));
    emit(&mut body, WasmInstr::CallRef(l.step_func_type), Ghost(n));
    emit(&mut body, WasmInstr::LocalGet(0), Ghost(n));
    emit(&mut body, WasmInstr::I32Const(1), Ghost(n));
    emit(&mut body, WasmInstr::I32Add, Ghost(n));
    emit(&mut body, WasmInstr::LocalTee(0), Ghost(n));
    emit(&mut body, WasmInstr::LocalGet(1), Ghost(n));
    emit(&mut body, WasmInstr::I32LtS, Ghost(n));
    emit(&mut body, WasmInstr::BrIf(0), Ghost(n));
    emit(&mut body, WasmInstr::End, Ghost(n));
    emit(&mut body, WasmInstr::End, Ghost(n));
    let locals: Vec<ValType> = vec![
        ValType::I32,
        ValType::I32,
        ValType::Ref(RefType { nullable: true, heap_type: HeapType::Concrete(l.thread_struct_type) }),
        ValType::non_null_concrete_value(l.stack_struct_type),
    ];
    StaticFunction {
        instructions: body,
        params: Vec::new(),
        returns: Vec::new(),
        locals,
        export: Some(String::from_str("tick")),
    }
}

} // verus!
