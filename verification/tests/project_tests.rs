use hyperquark::wasm::project::{
    decimal_string, export_name, finish_event, finish_events, tick_func, Event, EventError,
    EventLayout, TableTickLayout,
};
use hyperquark::wasm::registries::functions::WasmInstr;
use hyperquark::wasm::types::{AbstractHeapType, HeapType, ValType};

fn layout() -> EventLayout {
    EventLayout { threads_count_global: 2, spawn_new_thread_fn: 7, first_step_fn: 10 }
}

fn null_struct() -> WasmInstr {
    WasmInstr::RefNull(HeapType::Abstract { shared: false, ty: AbstractHeapType::Struct })
}

#[test]
fn decimal_strings() {
    assert_eq!(decimal_string(0), "0");
    assert_eq!(decimal_string(7), "7");
    assert_eq!(decimal_string(10), "10");
    assert_eq!(decimal_string(4096), "4096");
    assert_eq!(decimal_string(u32::MAX), "4294967295");
}

#[test]
fn events_are_exported_under_their_names() {
    assert_eq!(export_name(&Event::FlagClicked), Some("flag_clicked".to_string()));
    assert_eq!(export_name(&Event::SpriteClicked(12)), Some("spriteClicked12".to_string()));
    assert_eq!(export_name(&Event::Broadcast("go".to_string())), None);
}

#[test]
fn an_event_spawns_its_steps_and_counts_them() {
    let f = finish_event("flag_clicked".to_string(), &vec![0, 3], layout()).unwrap();
    assert_eq!(
        f.instructions,
        vec![
            WasmInstr::RefFunc(10),
            null_struct(),
            WasmInstr::Call(7),
            WasmInstr::RefFunc(13),
            null_struct(),
            WasmInstr::Call(7),
            WasmInstr::GlobalGet(2),
            WasmInstr::I32Const(2),
            WasmInstr::I32Add,
            WasmInstr::GlobalSet(2),
            WasmInstr::End,
        ]
    );
    assert_eq!(f.export.as_deref(), Some("flag_clicked"));
    assert!(f.params.is_empty() && f.locals.is_empty());
}

#[test]
fn an_event_with_the_last_step_index_is_made() {
    let l = EventLayout { first_step_fn: u32::MAX, ..layout() };
    let f = finish_event("flag_clicked".to_string(), &vec![0], l).unwrap();
    assert_eq!(f.instructions[0], WasmInstr::RefFunc(u32::MAX));
}

#[test]
fn sprite_clicks_get_a_dispatcher() {
    let events = vec![
        (Event::FlagClicked, vec![0]),
        (Event::Broadcast("b".to_string()), vec![1]),
        (Event::SpriteClicked(3), vec![2]),
    ];
    let fs = finish_events(&events, layout(), 20).unwrap();
    assert_eq!(fs.len(), 3);
    assert_eq!(fs[0].export.as_deref(), Some("flag_clicked"));
    assert_eq!(fs[1].export.as_deref(), Some("spriteClicked3"));
    let d = &fs[2];
    assert_eq!(d.export.as_deref(), Some("trigger_sprite_clicked"));
    assert_eq!(d.params, vec![ValType::I32]);
    assert_eq!(
        d.instructions,
        vec![
            WasmInstr::LocalGet(0),
            WasmInstr::I32Const(3),
            WasmInstr::I32Eq,
            WasmInstr::If,
            WasmInstr::Call(21),
            WasmInstr::Return,
            WasmInstr::End,
            WasmInstr::End,
        ]
    );
}

#[test]
fn without_sprite_clicks_there_is_no_dispatcher() {
    let events = vec![(Event::FlagClicked, vec![0, 1]), (Event::Broadcast("x".to_string()), vec![])];
    let fs = finish_events(&events, layout(), 5).unwrap();
    assert_eq!(fs.len(), 1);
    assert!(finish_events(&vec![], layout(), 5).unwrap().is_empty());
}

#[test]
fn sprite_indices_beyond_i32_are_refused() {
    let events = vec![(Event::SpriteClicked(u32::MAX), vec![])];
    assert_eq!(finish_events(&events, layout(), 0).err(), Some(EventError::ValueOutOfBounds));
    let events = vec![(Event::FlagClicked, vec![]), (Event::SpriteClicked(i32::MAX as u32), vec![])];
    assert!(finish_events(&events, layout(), 0).is_ok());
}

#[test]
fn the_table_tick_runs_each_threads_top_step() {
    let f = tick_func(TableTickLayout {
        threads_table: 1,
        thread_struct_type: 2,
        stack_struct_type: 3,
        stack_array_type: 4,
        step_func_type: 5,
    });
    assert_eq!(f.instructions.len(), 47);
    assert_eq!(f.instructions[0], WasmInstr::TableSize(1));
    assert_eq!(f.instructions[18], WasmInstr::Br(2));
    assert_eq!(f.instructions[19], WasmInstr::Else);
    assert_eq!(f.export.as_deref(), Some("tick"));
    assert_eq!(f.locals.len(), 4);
    assert_eq!(*f.instructions.last().unwrap(), WasmInstr::End);
}
