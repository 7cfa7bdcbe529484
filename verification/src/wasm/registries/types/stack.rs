//! The recursive group of a thread's stack: the type of step functions, the
//! struct of a stack frame, and the dynamic array of a thread's frames.
//!
//! A step takes the thread's stack and an argument struct; a frame holds the
//! step to run and its argument; the stack is a dynamic array of frames, so
//! the three types refer to each other and are registered as one group.

use vstd::prelude::*;
use vstd::string::StringExecFns;
use crate::rc::Rc;
use crate::registry::RegistryError;
use crate::wasm::registries::types::registry::{
    extends, group_entry, group_types, keys_of, lemma_unanchored_group_absent, no_key_of_group,
    CompoundType, CompoundTypeView, FieldType, RecGroup, RecGroupRegistry, RegistryItem,
    RegistryKey, StorageType, TypeRegistry, types_view,
};
use crate::wasm::types::{HeapType, RefType, ValType};

verus! {

/// The name of the stack's group.
pub open spec fn stack_group_name() -> Seq<char> {
    "rec_grp"@
}

fn stack_group_name_string() -> (r: String)
    ensures
        r@ == stack_group_name(),
{
    String::from_str("rec_grp")
}

/// A reference, nullable or not, to the type at index `i`.
pub open spec fn ref_to_index(nullable: bool, i: int) -> ValType {
    ValType::Ref(RefType { nullable, heap_type: HeapType::Concrete(i as u32) })
}

/// The type of step functions, for the group starting at `start`: they take
/// the thread's stack and a nullable struct, and return nothing.
pub open spec fn step_func_view(start: int) -> CompoundTypeView {
    CompoundTypeView::Function(
        seq![ref_to_index(false, start + 2), TypeRegistry::struct_ref_type()],
        Seq::empty(),
    )
}

/// The struct of a stack frame: the step to run, writable, and its argument.
pub open spec fn stack_struct_view(start: int) -> CompoundTypeView {
    CompoundTypeView::Struct(
        seq![
            FieldType { element_type: StorageType::Val(ref_to_index(false, start)), mutable: true },
            FieldType {
                element_type: StorageType::Val(TypeRegistry::struct_ref_type()),
                mutable: false,
            },
        ],
    )
}

/// The dynamic array of frames: its array of frames, at index `frames`, and
/// the number of frames in use.
pub open spec fn stack_array_view(frames: int) -> CompoundTypeView {
    CompoundTypeView::Struct(
        seq![
            FieldType { element_type: StorageType::Val(ref_to_index(false, frames)), mutable: true },
            FieldType { element_type: StorageType::Val(ValType::I32), mutable: true },
        ],
    )
}

/// The array of frames: writable nullable references to frame structs.
pub open spec fn frames_array_view(start: int) -> CompoundTypeView {
    CompoundTypeView::Array(StorageType::Val(ref_to_index(true, start + 1)), true)
}

/// The group's types when it starts at `start` in a registry with `keys`:
/// the step type, the frame struct and the stack; the array of frames is
/// the registry's own entry if it holds that type on its own, else the
/// group's fourth type.
pub open spec fn stack_group_types(start: int, keys: Seq<RegistryKey>) -> Seq<CompoundTypeView> {
    let frames = RegistryKey::Type(frames_array_view(start));
    if keys.contains(frames) {
        seq![step_func_view(start), stack_struct_view(start), stack_array_view(keys.index_of(frames))]
    } else {
        seq![
            step_func_view(start),
            stack_struct_view(start),
            stack_array_view(start + 3),
            frames_array_view(start),
        ]
    }
}

/// Each of the group's three types is registered if its first is: no
/// registration leaves the group in part.
pub open spec fn stack_group_whole(keys: Seq<RegistryKey>) -> bool {
    keys.contains(RegistryKey::RecGroupItem(stack_group_name(), 0)) ==> forall|m: u32|
        m < 3 ==> #[trigger] keys.contains(RegistryKey::RecGroupItem(stack_group_name(), m))
}

/// Once the group's three types are registered, the group stays whole as
/// the registry grows.
pub proof fn lemma_whole_stays(items: Seq<RegistryItem>, more: Seq<RegistryItem>)
    requires
        extends(items, more),
        forall|m: u32|
            m < 3 ==> #[trigger] keys_of(items).contains(
                RegistryKey::RecGroupItem(stack_group_name(), m),
            ),
    ensures
        forall|m: u32|
            m < 3 ==> #[trigger] keys_of(more).contains(
                RegistryKey::RecGroupItem(stack_group_name(), m),
            ),
        stack_group_whole(keys_of(more)),
{
    assert forall|m: u32| m < 3 implies #[trigger] keys_of(more).contains(
        RegistryKey::RecGroupItem(stack_group_name(), m),
    ) by {
        let key = RegistryKey::RecGroupItem(stack_group_name(), m);
        assert(keys_of(items).contains(key));
        let w = choose|w: int| 0 <= w < keys_of(items).len() && keys_of(items)[w] == key;
        assert(more[w] == items[w]);
        assert(keys_of(more)[w] == key);
    }
}

/// The entry at `i` is the group's type number `member`.
pub open spec fn stack_member_at(items: Seq<RegistryItem>, i: int, member: u32) -> bool {
    0 <= i < items.len() && keys_of(items)[i] == RegistryKey::RecGroupItem(
        stack_group_name(),
        member,
    )
}

fn ref_index(nullable: bool, i: u32) -> (r: ValType)
    ensures
        r == ref_to_index(nullable, i as int),
{
    ValType::Ref(RefType { nullable, heap_type: HeapType::Concrete(i) })
}

/// Registers the stack's group, unless its first type is registered: its
/// types then follow the registry's entries, in the order of
/// [`stack_group_types`]. It succeeds when the registry has room for four
/// more entries.
pub fn register_stack_group(types: &mut TypeRegistry) -> (r: Result<(), RegistryError>)
    requires
        old(types).well_formed(),
        stack_group_whole(old(types).keys()),
    ensures
        final(types).well_formed(),
        stack_group_whole(final(types).keys()),
        extends(old(types).items(), final(types).items()),
        final(types).items().len() <= old(types).items().len() + 4,
        old(types).items().len() + 4 <= u32::MAX ==> r is Ok,
        r is Err ==> final(types).items() == old(types).items(),
        old(types).keys().contains(RegistryKey::RecGroupItem(stack_group_name(), 0))
            ==> final(types).items() == old(types).items(),
        r is Ok ==> forall|m: u32|
            m < 3 ==> #[trigger] final(types).keys().contains(
                RegistryKey::RecGroupItem(stack_group_name(), m),
            ),
        r is Ok && !old(types).keys().contains(RegistryKey::RecGroupItem(stack_group_name(), 0))
            ==> {
            let start = old(types).items().len() as int;
            let group = stack_group_types(start, old(types).keys());
            &&& final(types).keys() == old(types).keys() + Seq::new(
                group.len(),
                |k: int| RegistryKey::RecGroupItem(stack_group_name(), k as u32),
            )
            &&& forall|k: int|
                start <= k < final(types).items().len() ==> (#[trigger] final(types).items()[k]
                    matches RegistryItem::RecGroupItem(g, _) && group_types(g@) == group)
        },
{
    let ghost name = stack_group_name();
    let ghost old_items = types.items();
    let ghost old_keys = types.keys();
    let first = RegistryItem::RecGroupItem(
        Rc::new(RecGroup { name: stack_group_name_string(), types: Vec::new() }),
        0,
    );
    if types.index_of(&first).is_some() {
        return Ok(());
    }
    let len = types.len();
    if len > 0xffff_fffb {
        return Err(RegistryError::IndexOutOfBounds);
    }
    let start = len as u32;
    let frames = CompoundType::Array(StorageType::Val(ref_index(true, start + 1)), true);
    let ghost frames_view = frames@;
    let mut deps = RecGroupRegistry { rec_group_start: start, main_rec_types_num: 3, rec_type_deps: Vec::new() };
    let frames_index: u32 = match deps.register::<u32>(types, frames) {
        Ok(i) => i,
        Err(e) => return Err(e),
    };
    let step_func = CompoundType::Function(
        vec![ref_index(false, start + 2), TypeRegistry::struct_ref()],
        Vec::new(),
    );
    let stack_struct = CompoundType::Struct(
        vec![
            FieldType { element_type: StorageType::Val(ref_index(false, start)), mutable: true },
            FieldType { element_type: StorageType::Val(TypeRegistry::struct_ref()), mutable: false },
        ],
    );
    let stack_array = CompoundType::Struct(
        vec![
            FieldType { element_type: StorageType::Val(ref_index(false, frames_index)), mutable: true },
            FieldType { element_type: StorageType::Val(ValType::I32), mutable: true },
        ],
    );
    let mut group_list: Vec<CompoundType> = vec![step_func, stack_struct, stack_array];
    let ghost main_list = group_list@;
    let ghost extra = deps.rec_type_deps@;
    group_list.append(&mut deps.rec_type_deps);
    let group = RecGroup { name: stack_group_name_string(), types: group_list };
    let ghost gv = group;
    proof {
        let st = start as int;
        assert(keys_of(old_items) == old_keys);
        lemma_unanchored_group_absent(old_items, name);
        assert(types_view(main_list) =~= seq![
            step_func_view(st),
            stack_struct_view(st),
            stack_array_view(frames_index as int),
        ]);
        assert(types_view(gv.types@) =~= types_view(main_list) + types_view(extra));
        assert(frames_view == frames_array_view(st));
        if old_keys.contains(RegistryKey::Type(frames_view)) {
            assert(types_view(gv.types@) =~= stack_group_types(st, old_keys));
        } else {
            assert(extra == seq![frames]);
            assert(types_view(extra) =~= seq![frames_array_view(st)]);
            assert(types_view(gv.types@) =~= stack_group_types(st, old_keys));
        }
        assert forall|i: int| 0 <= i < old_items.len() implies crate::wasm::registries::types::registry::agrees_with_group(
            #[trigger] old_items[i],
            name,
            types_view(gv.types@),
        ) by {
            if let RegistryItem::RecGroupItem(h, k) = old_items[i] {
                assert(old_keys[i] == RegistryKey::RecGroupItem(h@.name@, k));
            }
        }
    }
    types.register_rec_group(group);
    proof {
        let n = gv.types@.len() as int;
        assert(crate::wasm::registries::types::registry::group_keys(name, n) =~= Seq::new(
            n as nat,
            |k: int| RegistryKey::RecGroupItem(name, k as u32),
        ));
        assert forall|m: u32| m < 3 implies #[trigger] types.keys().contains(
            RegistryKey::RecGroupItem(name, m),
        ) by {
            assert(types.keys()[old_keys.len() + m] == RegistryKey::RecGroupItem(name, m));
        }
        assert forall|k: int| old_items.len() <= k < types.items().len() implies (
        #[trigger] types.items()[k] matches RegistryItem::RecGroupItem(g, _) && group_types(g@)
            == stack_group_types(old_items.len() as int, old_keys)) by {
            assert(group_entry(types.items()[k], gv));
        }
    }
    Ok(())
}

/// Registers the stack's group if it is not yet, and gives the index of its
/// type number `member` (0 the step type, 1 the frame struct, 2 the stack).
pub fn stack_member(types: &mut TypeRegistry, member: u32) -> (r: Result<u32, RegistryError>)
    requires
        old(types).well_formed(),
        stack_group_whole(old(types).keys()),
        member < 3,
    ensures
        final(types).well_formed(),
        stack_group_whole(final(types).keys()),
        r is Ok ==> forall|m: u32|
            m < 3 ==> #[trigger] final(types).keys().contains(
                RegistryKey::RecGroupItem(stack_group_name(), m),
            ),
        old(types).keys().contains(RegistryKey::RecGroupItem(stack_group_name(), 0))
            ==> final(types).items() == old(types).items(),
        extends(old(types).items(), final(types).items()),
        final(types).items().len() <= old(types).items().len() + 4,
        old(types).items().len() + 4 <= u32::MAX ==> r is Ok,
        r matches Ok(i) ==> stack_member_at(final(types).items(), i as int, member),
{
    match register_stack_group(types) {
        Err(e) => Err(e),
        Ok(()) => {
            let item = RegistryItem::RecGroupItem(
                Rc::new(RecGroup { name: stack_group_name_string(), types: Vec::new() }),
                member,
            );
            proof {
                assert(types.keys().contains(RegistryKey::RecGroupItem(stack_group_name(), member)));
            }
            match types.index_of(&item) {
                Some(i) => {
                    proof {
                        types.keys().index_of_first_ensures(item@);
                        assert(keys_of(types.items()) == types.keys());
                    }
                    if i <= 0xffff_ffff {
                        Ok(i as u32)
                    } else {
                        Err(RegistryError::IndexOutOfBounds)
                    }
                },
                None => Err(RegistryError::IndexOutOfBounds),
            }
        },
    }
}

} // verus!
