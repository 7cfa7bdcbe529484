use hyperquark::wasm::registries::functions::WasmInstr;
use hyperquark::wasm::registries::lists::{finish_lists, ListBase, ListError, ListInit, ListItem};
use hyperquark::wasm::registries::strings::{StringRegistry, TabledStringRegistry};

fn list(base: ListBase, initial: Vec<ListItem>, array_global: u32, array_type: u32) -> ListInit {
    ListInit { base, initial, array_global, array_type }
}

fn float(f: f64) -> ListItem {
    let as_int = if f % 1.0 == 0.0 { Some(f as i32) } else { None };
    ListItem::Float { bits: f.to_bits(), as_int }
}

#[test]
fn lists_are_filled_from_data_and_element_segments() {
    let lists = vec![
        list(ListBase::Float, vec![float(1.5)], 0, 10),
        list(ListBase::QuasiInt, vec![ListItem::Int(3), ListItem::Bool(true), float(2.0)], 1, 11),
        list(
            ListBase::String,
            vec![
                ListItem::String("a".to_string()),
                ListItem::String("b".to_string()),
                ListItem::String("a".to_string()),
            ],
            2,
            12,
        ),
        list(ListBase::Boxed, vec![ListItem::Int(-1), ListItem::String("x".to_string())], 3, 13),
    ];
    let mut strings = StringRegistry::default();
    let mut tabled = TabledStringRegistry::default();
    let plan = finish_lists(&lists, &mut strings, &mut tabled, 2, 1, 0).unwrap();
    let fill = |global: u32, len: i32, last: WasmInstr| {
        vec![
            WasmInstr::GlobalGet(global),
            WasmInstr::I32Const(0),
            WasmInstr::I32Const(0),
            WasmInstr::I32Const(len),
            last,
        ]
    };
    let mut expected = fill(2, 1, WasmInstr::ArrayInitData { array_type_index: 10, array_data_index: 1 });
    expected.extend(fill(3, 3, WasmInstr::ArrayInitData { array_type_index: 11, array_data_index: 2 }));
    expected.extend(fill(4, 3, WasmInstr::ArrayInitElem { array_type_index: 12, array_elem_index: 0 }));
    expected.extend(fill(5, 2, WasmInstr::ArrayInitData { array_type_index: 13, array_data_index: 3 }));
    assert_eq!(plan.start, expected);
    assert_eq!(plan.data.len(), 3);
    assert_eq!(plan.data[0], 1.5f64.to_le_bytes().to_vec());
    let mut ints = Vec::new();
    for v in [3i32, 1, 2] {
        ints.extend(v.to_le_bytes());
    }
    assert_eq!(plan.data[1], ints);
    let mut boxed = Vec::new();
    boxed.extend((-1i64).to_le_bytes());
    boxed.extend(0i64.to_le_bytes());
    assert_eq!(plan.data[2], boxed);
    assert_eq!(plan.elements, vec![vec![0, 1, 0]]);
    assert_eq!(strings.finish(), vec!["a".to_string(), "b".to_string()]);
}

#[test]
fn list_items_must_fit_the_list() {
    let mut strings = StringRegistry::default();
    let mut tabled = TabledStringRegistry::default();
    let not_whole = vec![list(ListBase::QuasiInt, vec![float(0.5)], 0, 1)];
    assert_eq!(
        finish_lists(&not_whole, &mut strings, &mut tabled, 0, 0, 0).err(),
        Some(ListError::NotAnInteger)
    );
    let wrong = vec![list(ListBase::Float, vec![ListItem::Int(1)], 0, 1)];
    assert_eq!(
        finish_lists(&wrong, &mut strings, &mut tabled, 0, 0, 0).err(),
        Some(ListError::WrongItem)
    );
    let wrong_string = vec![list(ListBase::String, vec![ListItem::Bool(false)], 0, 1)];
    assert_eq!(
        finish_lists(&wrong_string, &mut strings, &mut tabled, 0, 0, 0).err(),
        Some(ListError::WrongItem)
    );
    let global_too_far = vec![list(ListBase::Float, vec![], u32::MAX, 1)];
    assert_eq!(
        finish_lists(&global_too_far, &mut strings, &mut tabled, 1, 0, 0).err(),
        Some(ListError::IndexOutOfBounds)
    );
}
