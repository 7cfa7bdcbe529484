//! The registry of the module's compound types (functions, arrays, structs),
//! each registered once, in the order of the type section. Types of a
//! recursive group are registered together, and a type that a group already
//! holds is found in it rather than registered again.

use vstd::prelude::*;
use crate::rc::Rc;
use crate::registry::{index_result, RegistryError, RegistryIndex};
use crate::wasm::types::{AbstractHeapType, HeapType, RefType, ValType};

verus! {

/// The type of an array's elements or of a struct's field.
#[derive(Clone, Copy, Debug, PartialEq, Eq, Structural)]
pub enum StorageType {
    I8,
    I16,
    Val(ValType),
}

/// A struct's field or an array's element: its type and whether it can be
/// written.
#[derive(Clone, Copy, Debug, PartialEq, Eq, Structural)]
pub struct FieldType {
    pub element_type: StorageType,
    pub mutable: bool,
}

/// A type of the type section.
#[derive(Debug)]
pub enum CompoundType {
    /// Parameters and results.
    Function(Vec<ValType>, Vec<ValType>),
    /// Element type and whether elements can be written.
    Array(StorageType, bool),
    Struct(Vec<FieldType>),
}

/// A compound type as a value: what makes two of them equal.
pub enum CompoundTypeView {
    Function(Seq<ValType>, Seq<ValType>),
    Array(StorageType, bool),
    Struct(Seq<FieldType>),
}

impl View for CompoundType {
    type V = CompoundTypeView;

    open spec fn view(&self) -> CompoundTypeView {
        match self {
            CompoundType::Function(p, r) => CompoundTypeView::Function(p@, r@),
            CompoundType::Array(e, m) => CompoundTypeView::Array(*e, *m),
            CompoundType::Struct(f) => CompoundTypeView::Struct(f@),
        }
    }
}

/// A group of types that may refer to each other, registered together under
/// a name. Groups are told apart by their names alone.
#[derive(Debug)]
pub struct RecGroup {
    pub name: String,
    pub types: Vec<CompoundType>,
}

/// An entry of the type registry: a type on its own, or the type at an index
/// of a recursive group.
pub enum RegistryItem {
    Type(CompoundType),
    RecGroupItem(Rc<RecGroup>, u32),
}

/// What makes two registry entries equal: the type, or the group's name and
/// the index in it.
pub enum RegistryKey {
    Type(CompoundTypeView),
    RecGroupItem(Seq<char>, u32),
}

impl View for RegistryItem {
    type V = RegistryKey;

    open spec fn view(&self) -> RegistryKey {
        match self {
            RegistryItem::Type(t) => RegistryKey::Type(t@),
            RegistryItem::RecGroupItem(g, i) => RegistryKey::RecGroupItem(g@.name@, *i),
        }
    }
}

/// The type's index in the type section, if `val` refers to one.
pub open spec fn val_dep(val: ValType) -> Option<u32> {
    match val {
        ValType::Ref(RefType { heap_type: HeapType::Concrete(index), .. }) => Some(index),
        _ => None,
    }
}

/// The type's index in the type section, if `field` refers to one.
pub open spec fn field_dep(field: StorageType) -> Option<u32> {
    match field {
        StorageType::Val(val) => val_dep(val),
        _ => None,
    }
}

/// The indices that the value types refer to, in order.
pub open spec fn vals_deps(vals: Seq<ValType>) -> Seq<u32>
    decreases vals.len(),
{
    if vals.len() == 0 {
        Seq::empty()
    } else {
        let rest = vals_deps(vals.drop_last());
        match val_dep(vals.last()) {
            Some(i) => rest.push(i),
            None => rest,
        }
    }
}

/// The indices that the fields refer to, in order.
pub open spec fn fields_deps(fields: Seq<FieldType>) -> Seq<u32>
    decreases fields.len(),
{
    if fields.len() == 0 {
        Seq::empty()
    } else {
        let rest = fields_deps(fields.drop_last());
        match field_dep(fields.last().element_type) {
            Some(i) => rest.push(i),
            None => rest,
        }
    }
}

/// The indices of the types that `ty` refers to directly, in order.
pub open spec fn immediate_deps(ty: CompoundTypeView) -> Seq<u32> {
    match ty {
        CompoundTypeView::Array(field, _) => match field_dep(field) {
            Some(i) => seq![i],
            None => Seq::empty(),
        },
        CompoundTypeView::Struct(fields) => fields_deps(fields),
        CompoundTypeView::Function(params, results) => vals_deps(params + results),
    }
}

/// The first index of `ty` among `types`.
pub open spec fn first_index_of(types: Seq<CompoundTypeView>, ty: CompoundTypeView) -> Option<int>
    decreases types.len(),
{
    if types.len() == 0 {
        None
    } else if types[0] == ty {
        Some(0)
    } else {
        match first_index_of(types.drop_first(), ty) {
            Some(i) => Some(i + 1),
            None => None,
        }
    }
}

/// The types of a group, as values.
pub open spec fn group_types(group: RecGroup) -> Seq<CompoundTypeView> {
    types_view(group.types@)
}

/// The group entry that stands for `ty`: looking at the entries that `deps`
/// index, in order, the first that belongs to a group that holds `ty`, with
/// `ty`'s first index in that group.
pub open spec fn equivalent_in_rec_group(
    items: Seq<RegistryItem>,
    deps: Seq<u32>,
    ty: CompoundTypeView,
) -> Option<(Rc<RecGroup>, int)>
    decreases deps.len(),
{
    if deps.len() == 0 {
        None
    } else {
        let d = deps[0] as int;
        let here = if d < items.len() {
            match items[d] {
                RegistryItem::RecGroupItem(g, _) => match first_index_of(group_types(g@), ty) {
                    Some(p) => Some((g, p)),
                    None => None,
                },
                RegistryItem::Type(_) => None,
            }
        } else {
            None
        };
        match here {
            Some(found) => Some(found),
            None => equivalent_in_rec_group(items, deps.drop_first(), ty),
        }
    }
}

/// The key of the entry that registering `ty` stands for in a registry of
/// `items`: its group's entry if a group it refers to holds it, else the type
/// on its own.
pub open spec fn compound_key(items: Seq<RegistryItem>, ty: CompoundTypeView) -> RegistryKey {
    match equivalent_in_rec_group(items, immediate_deps(ty), ty) {
        Some((g, p)) => RegistryKey::RecGroupItem(g@.name@, p as u32),
        None => RegistryKey::Type(ty),
    }
}

/// The type that the entry at `i` stands for: the type itself, or the type
/// at the entry's index in its group.
pub open spec fn entry_type(items: Seq<RegistryItem>, i: int) -> Option<CompoundTypeView> {
    if 0 <= i < items.len() {
        match items[i] {
            RegistryItem::Type(t) => Some(t@),
            RegistryItem::RecGroupItem(g, p) => if p < g@.types@.len() {
                Some(g@.types@[p as int]@)
            } else {
                None
            },
        }
    } else {
        None
    }
}

/// `more` holds `items` as its first entries.
pub open spec fn extends(items: Seq<RegistryItem>, more: Seq<RegistryItem>) -> bool {
    &&& items.len() <= more.len()
    &&& forall|i: int| 0 <= i < items.len() ==> #[trigger] more[i] == items[i]
}

/// Extending is transitive.
pub proof fn lemma_extends_trans(a: Seq<RegistryItem>, b: Seq<RegistryItem>, c: Seq<RegistryItem>)
    requires
        extends(a, b),
        extends(b, c),
    ensures
        extends(a, c),
{
    assert forall|i: int| 0 <= i < a.len() implies #[trigger] c[i] == a[i] by {
        assert(c[i] == b[i]);
    }
}

/// Two entries of groups of the same name agree on the group's types.
pub open spec fn same_group_agrees(a: RegistryItem, b: RegistryItem) -> bool {
    match (a, b) {
        (RegistryItem::RecGroupItem(x, _), RegistryItem::RecGroupItem(y, _)) => x@.name@ == y@.name@
            ==> group_types(x@) == group_types(y@),
        _ => true,
    }
}

/// A group entry's index lies in its group, which has at most `u32::MAX`
/// types.
pub open spec fn entry_in_group(item: RegistryItem) -> bool {
    match item {
        RegistryItem::RecGroupItem(g, p) => p < g@.types@.len() <= u32::MAX,
        _ => true,
    }
}

/// A group is told by its name: every two entries of groups of the same name
/// agree on the group's types, and every group entry lies in its group.
pub open spec fn groups_consistent(items: Seq<RegistryItem>) -> bool {
    &&& forall|i: int, j: int|
        0 <= i < items.len() && 0 <= j < items.len() ==> same_group_agrees(
            #[trigger] items[i],
            #[trigger] items[j],
        )
    &&& forall|i: int| 0 <= i < items.len() ==> entry_in_group(#[trigger] items[i])
}

/// If `item` is an entry of a group called `name`, that group has `types`.
pub open spec fn agrees_with_group(
    item: RegistryItem,
    name: Seq<char>,
    types: Seq<CompoundTypeView>,
) -> bool {
    match item {
        RegistryItem::RecGroupItem(h, _) => h@.name@ == name ==> group_types(h@) == types,
        _ => true,
    }
}

/// `item` is an entry of the group `g`.
pub open spec fn group_entry(item: RegistryItem, g: RecGroup) -> bool {
    item matches RegistryItem::RecGroupItem(h, _) && h@ == g
}

/// `item` can join `items` keeping the groups consistent: an entry of a
/// group past its first comes after the group's first entry.
pub open spec fn fits_registry(items: Seq<RegistryItem>, item: RegistryItem) -> bool {
    &&& entry_in_group(item)
    &&& forall|i: int| 0 <= i < items.len() ==> same_group_agrees(#[trigger] items[i], item)
    &&& first_entry_before(items, item)
}

/// If `item` is a group's entry past its first, the group's first entry is
/// among `items`.
pub open spec fn first_entry_before(items: Seq<RegistryItem>, item: RegistryItem) -> bool {
    match item {
        RegistryItem::RecGroupItem(g, p) => p != 0 ==> keys_of(items).contains(
            RegistryKey::RecGroupItem(g@.name@, 0),
        ),
        _ => true,
    }
}

/// The keys of some entries, in order.
pub open spec fn keys_of(items: Seq<RegistryItem>) -> Seq<RegistryKey> {
    items.map_values(|item: RegistryItem| item@)
}

/// If `item` is a group's entry, the group's first entry is among `items`.
pub open spec fn anchored(items: Seq<RegistryItem>, item: RegistryItem) -> bool {
    match item {
        RegistryItem::RecGroupItem(g, _) => keys_of(items).contains(
            RegistryKey::RecGroupItem(g@.name@, 0),
        ),
        _ => true,
    }
}

/// Every group that has an entry has its first one.
pub open spec fn groups_anchored(items: Seq<RegistryItem>) -> bool {
    forall|i: int| 0 <= i < items.len() ==> anchored(items, #[trigger] items[i])
}

/// Without its first entry, a group has no entry at all.
pub proof fn lemma_unanchored_group_absent(items: Seq<RegistryItem>, name: Seq<char>)
    requires
        groups_anchored(items),
        !keys_of(items).contains(RegistryKey::RecGroupItem(name, 0)),
    ensures
        no_key_of_group(keys_of(items), name),
{
    assert forall|i: int, k: u32| 0 <= i < keys_of(items).len() implies keys_of(items)[i]
        != RegistryKey::RecGroupItem(name, k) by {
        if keys_of(items)[i] == RegistryKey::RecGroupItem(name, k) {
            assert(anchored(items, items[i]));
        }
    }
}

/// The keys after registering `key`: unchanged if it is there, else with
/// `key` appended.
pub open spec fn with_key(keys: Seq<RegistryKey>, key: RegistryKey) -> Seq<RegistryKey> {
    if keys.contains(key) {
        keys
    } else {
        keys.push(key)
    }
}


/// After adding a key, it has an index below the number of keys, which grew
/// by at most one.
pub proof fn lemma_with_key_index(keys: Seq<RegistryKey>, key: RegistryKey)
    ensures
        0 <= with_key(keys, key).index_of(key) < with_key(keys, key).len() <= keys.len() + 1,
{
    let ks = with_key(keys, key);
    if !keys.contains(key) {
        assert(ks[ks.len() - 1] == key);
    }
    assert(ks.contains(key));
}

/// `first_index_of` finds the first equal type.
proof fn lemma_first_index_of(types: Seq<CompoundTypeView>, ty: CompoundTypeView)
    ensures
        first_index_of(types, ty) is None <==> !types.contains(ty),
        first_index_of(types, ty) matches Some(p) ==> 0 <= p < types.len() && types[p] == ty
            && forall|k: int| 0 <= k < p ==> types[k] != ty,
    decreases types.len(),
{
    if types.len() > 0 {
        lemma_first_index_of(types.drop_first(), ty);
        if types[0] != ty {
            if types.contains(ty) {
                let k = choose|k: int| 0 <= k < types.len() && types[k] == ty;
                assert(types.drop_first()[k - 1] == ty);
            }
            if types.drop_first().contains(ty) {
                let k = choose|k: int| 0 <= k < types.drop_first().len() && types.drop_first()[k] == ty;
                assert(types[k + 1] == ty);
            }
            match first_index_of(types.drop_first(), ty) {
                Some(p) => {
                    assert forall|k: int| 0 <= k < p + 1 implies types[k] != ty by {
                        if k > 0 {
                            assert(types[k] == types.drop_first()[k - 1]);
                        }
                    }
                },
                None => {},
            }
        } else {
            assert(types.contains(ty));
        }
    }
}

/// The first index of `ty` among `types`, if it is there.
fn find_type(types: &Vec<CompoundType>, ty: &CompoundType) -> (r: Option<usize>)
    ensures
        r matches Some(p) ==> first_index_of(types_view(types@), ty@) == Some(p as int),
        r is None ==> first_index_of(types_view(types@), ty@) is None,
{
    proof {
        lemma_first_index_of(types_view(types@), ty@);
    }
    let mut i: usize = 0;
    while i < types.len()
        invariant
            i <= types@.len(),
            forall|k: int| 0 <= k < i ==> types_view(types@)[k] != ty@,
            first_index_of(types_view(types@), ty@) is None <==> !types_view(types@).contains(ty@),
            first_index_of(types_view(types@), ty@) matches Some(p) ==> 0 <= p < types_view(types@).len()
                && types_view(types@)[p] == ty@ && forall|k: int| 0 <= k < p ==> types_view(types@)[k] != ty@,
        decreases types@.len() - i,
    {
        if compound_eq(&types[i], ty) {
            assert(types_view(types@)[i as int] == ty@);
            return Some(i);
        }
        i = i + 1;
    }
    proof {
        assert forall|k: int| 0 <= k < types_view(types@).len() implies types_view(types@)[k] != ty@ by {}
    }
    None
}

/// The index of the type that a value type refers to, if it refers to one.
pub fn immediate_val_dep(val: &ValType) -> (r: Option<u32>)
    ensures
        r == val_dep(*val),
{
    match val {
        ValType::Ref(RefType { heap_type: HeapType::Concrete(index), .. }) => Some(*index),
        _ => None,
    }
}

/// The index that a field refers to.
fn field_dep_of(field: &StorageType) -> (r: Option<u32>)
    ensures
        r == field_dep(*field),
{
    match field {
        StorageType::Val(val) => immediate_val_dep(val),
        _ => None,
    }
}

/// The indices that a compound type refers to directly, in order.
pub fn immediate_deps_of(ty: &CompoundType) -> (r: Vec<u32>)
    ensures
        r@ == immediate_deps(ty@),
{
    match ty {
        CompoundType::Array(field, _) => match field_dep_of(field) {
            Some(i) => vec![i],
            None => Vec::new(),
        },
        CompoundType::Struct(fields) => {
            let mut out: Vec<u32> = Vec::new();
            let mut k: usize = 0;
            while k < fields.len()
                invariant
                    k <= fields@.len(),
                    out@ == fields_deps(fields@.subrange(0, k as int)),
                decreases fields@.len() - k,
            {
                proof {
                    assert(fields@.subrange(0, k + 1).drop_last() =~= fields@.subrange(0, k as int));
                }
                match field_dep_of(&fields[k].element_type) {
                    Some(i) => out.push(i),
                    None => {},
                }
                k = k + 1;
            }
            assert(fields@.subrange(0, fields@.len() as int) =~= fields@);
            out
        },
        CompoundType::Function(params, results) => {
            let ghost all = params@ + results@;
            let mut out: Vec<u32> = Vec::new();
            let mut k: usize = 0;
            let n = params.len();
            while k < n
                invariant
                    n == params@.len(),
                    all == params@ + results@,
                    k <= n,
                    out@ == vals_deps(all.subrange(0, k as int)),
                decreases n - k,
            {
                proof {
                    assert(all.subrange(0, k + 1).drop_last() =~= all.subrange(0, k as int));
                }
                match immediate_val_dep(&params[k]) {
                    Some(i) => out.push(i),
                    None => {},
                }
                k = k + 1;
            }
            let mut j: usize = 0;
            while j < results.len()
                invariant
                    n == params@.len(),
                    all == params@ + results@,
                    j <= results@.len(),
                    out@ == vals_deps(all.subrange(0, n + j)),
                decreases results@.len() - j,
            {
                proof {
                    assert(all.subrange(0, n + j + 1).drop_last() =~= all.subrange(0, n + j));
                    assert(all[n + j] == results@[j as int]);
                }
                match immediate_val_dep(&results[j]) {
                    Some(i) => out.push(i),
                    None => {},
                }
                j = j + 1;
            }
            assert(all.subrange(0, all.len() as int) =~= all);
            out
        },
    }
}

/// No key of the group called `name` is among `keys`.
pub open spec fn no_key_of_group(keys: Seq<RegistryKey>, name: Seq<char>) -> bool {
    forall|i: int, k: u32| 0 <= i < keys.len() ==> keys[i] != RegistryKey::RecGroupItem(name, k)
}

/// The keys after registering each of `adds` in turn.
pub open spec fn with_keys(keys: Seq<RegistryKey>, adds: Seq<RegistryKey>) -> Seq<RegistryKey>
    decreases adds.len(),
{
    if adds.len() == 0 {
        keys
    } else {
        with_key(with_keys(keys, adds.drop_last()), adds.last())
    }
}

/// The keys of the first `n` types of the group called `name`.
pub open spec fn group_keys(name: Seq<char>, n: int) -> Seq<RegistryKey> {
    Seq::new(n as nat, |i: int| RegistryKey::RecGroupItem(name, i as u32))
}

/// An entry of the module's type section.
pub enum TypeSectionEntry {
    /// A type on its own.
    Sub(CompoundType),
    /// A recursive group of types.
    Rec(Rc<RecGroup>),
}

/// The section entry that a registry entry makes: a type on its own makes
/// one, the first entry of a group makes the group's, and the group's other
/// entries make none.
pub open spec fn section_entries(item: RegistryItem) -> Seq<TypeSectionEntry> {
    match item {
        RegistryItem::Type(ty) => seq![TypeSectionEntry::Sub(ty)],
        RegistryItem::RecGroupItem(g, i) => if i == 0 {
            seq![TypeSectionEntry::Rec(g)]
        } else {
            Seq::empty()
        },
    }
}

/// The type section that the entries make, in order.
pub open spec fn type_section(items: Seq<RegistryItem>) -> Seq<TypeSectionEntry>
    decreases items.len(),
{
    if items.len() == 0 {
        Seq::empty()
    } else {
        type_section(items.drop_last()) + section_entries(items.last())
    }
}

/// A copy of some value types.
fn copy_vals(v: &Vec<ValType>) -> (r: Vec<ValType>)
    ensures
        r@ == v@,
{
    let mut out: Vec<ValType> = Vec::new();
    let mut i: usize = 0;
    while i < v.len()
        invariant
            i <= v@.len(),
            out@ == v@.subrange(0, i as int),
        decreases v@.len() - i,
    {
        out.push(v[i]);
        proof {
            assert(v@.subrange(0, i + 1) =~= v@.subrange(0, i as int).push(v@[i as int]));
        }
        i = i + 1;
    }
    assert(v@.subrange(0, v@.len() as int) =~= v@);
    out
}

/// A copy of some fields.
fn copy_fields(v: &Vec<FieldType>) -> (r: Vec<FieldType>)
    ensures
        r@ == v@,
{
    let mut out: Vec<FieldType> = Vec::new();
    let mut i: usize = 0;
    while i < v.len()
        invariant
            i <= v@.len(),
            out@ == v@.subrange(0, i as int),
        decreases v@.len() - i,
    {
        out.push(v[i]);
        proof {
            assert(v@.subrange(0, i + 1) =~= v@.subrange(0, i as int).push(v@[i as int]));
        }
        i = i + 1;
    }
    assert(v@.subrange(0, v@.len() as int) =~= v@);
    out
}

impl Clone for CompoundType {
    /// A copy of the type: the same type as a value.
    fn clone(&self) -> (r: Self)
        ensures
            r@ == self@,
    {
        match self {
            CompoundType::Function(p, r) => CompoundType::Function(copy_vals(p), copy_vals(r)),
            CompoundType::Array(e, m) => CompoundType::Array(*e, *m),
            CompoundType::Struct(f) => CompoundType::Struct(copy_fields(f)),
        }
    }
}

/// The types of a sequence, as values.
pub open spec fn types_view(types: Seq<CompoundType>) -> Seq<CompoundTypeView> {
    Seq::new(types.len(), |i: int| types[i]@)
}

/// Registers the types that a recursive group's types refer to while the
/// group is built: a type already registered keeps its index; any other gets
/// an index after the group's own types, in the order first asked for.
pub struct RecGroupRegistry {
    /// The index of the group's first type.
    pub rec_group_start: u32,
    /// The number of the group's own types.
    pub main_rec_types_num: u32,
    /// The types that follow the group's own, in order.
    pub rec_type_deps: Vec<CompoundType>,
}

impl RecGroupRegistry {
    /// The index of `ty`: its index in `types` if it is registered there on
    /// its own, else its place among the group's extra types, which it joins
    /// if it is new.
    pub fn register<N: RegistryIndex>(&mut self, types: &TypeRegistry, ty: CompoundType) -> (r:
        Result<N, RegistryError>)
        requires
            types.well_formed(),
        ensures
            final(self).rec_group_start == old(self).rec_group_start,
            final(self).main_rec_types_num == old(self).main_rec_types_num,
            types.keys().contains(RegistryKey::Type(ty@)) ==> {
                &&& final(self).rec_type_deps@ == old(self).rec_type_deps@
                &&& index_result(r, types.keys().index_of(RegistryKey::Type(ty@)))
            },
            !types.keys().contains(RegistryKey::Type(ty@)) && first_index_of(
                types_view(old(self).rec_type_deps@),
                ty@,
            ) is Some ==> {
                &&& final(self).rec_type_deps@ == old(self).rec_type_deps@
                &&& index_result(r, first_index_of(types_view(old(self).rec_type_deps@), ty@)->0)
            },
            !types.keys().contains(RegistryKey::Type(ty@)) && first_index_of(
                types_view(old(self).rec_type_deps@),
                ty@,
            ) is None ==> {
                &&& final(self).rec_type_deps@ == old(self).rec_type_deps@.push(ty)
                &&& old(self).rec_type_deps@.len() + old(self).main_rec_types_num
                    + old(self).rec_group_start <= usize::MAX ==> index_result(
                    r,
                    old(self).rec_type_deps@.len() + old(self).main_rec_types_num
                        + old(self).rec_group_start,
                )
                &&& old(self).rec_type_deps@.len() + old(self).main_rec_types_num
                    + old(self).rec_group_start > usize::MAX ==> r is Err
            },
    {
        let idx: Option<usize> = match types.index_of_type(&ty) {
            Some(i) => Some(i),
            None => {
                let found = find_type(&self.rec_type_deps, &ty);
                match found {
                    Some(p) => Some(p),
                    None => {
                        let deps_len = self.rec_type_deps.len();
                        self.rec_type_deps.push(ty);
                        match deps_len.checked_add(self.main_rec_types_num as usize) {
                            Some(a) => a.checked_add(self.rec_group_start as usize),
                            None => None,
                        }
                    },
                }
            },
        };
        match idx {
            Some(i) => match N::from_index(i) {
                Some(n) => Ok(n),
                None => Err(RegistryError::IndexOutOfBounds),
            },
            None => Err(RegistryError::IndexOutOfBounds),
        }
    }
}

/// Registering a type twice is registering it once: the second registration
/// changes nothing and finds the first's entry.
pub proof fn law_type_registration_is_idempotent(keys: Seq<RegistryKey>, key: RegistryKey)
    ensures
        with_key(with_key(keys, key), key) == with_key(keys, key),
        with_key(keys, key).contains(key),
{
    if !keys.contains(key) {
        assert(keys.push(key)[keys.len() as int] == key);
    }
}

/// Registration never makes a type twice, and never moves a registered one.
pub proof fn law_registration_keeps_entries(keys: Seq<RegistryKey>, key: RegistryKey)
    requires
        keys.no_duplicates(),
    ensures
        with_key(keys, key).no_duplicates(),
        forall|i: int| 0 <= i < keys.len() ==> #[trigger] with_key(keys, key)[i] == keys[i],
        with_key(keys, key).len() <= keys.len() + 1,
{
    if !keys.contains(key) {
        let r = keys.push(key);
        assert forall|a: int, b: int| 0 <= a < r.len() && 0 <= b < r.len() && a != b implies r[a]
            != r[b] by {
            if a == keys.len() as int {
                assert(r[b] == keys[b]);
            } else if b == keys.len() as int {
                assert(r[a] == keys[a]);
            }
        }
    }
}

/// The group's name and the index that a group entry found for a type has.
pub open spec fn found_key(o: Option<(Rc<RecGroup>, int)>) -> Option<(Seq<char>, int)> {
    match o {
        Some((g, p)) => Some((g@.name@, p)),
        None => None,
    }
}

/// A group entry found for `ty` comes from an entry of the registry whose
/// group holds `ty` at the index found.
proof fn lemma_found_in_items(items: Seq<RegistryItem>, deps: Seq<u32>, ty: CompoundTypeView)
    ensures
        equivalent_in_rec_group(items, deps, ty) matches Some((g, p)) ==> exists|d: int|
            0 <= d < items.len() && #[trigger] group_entry(items[d], g@) && first_index_of(
                group_types(g@),
                ty,
            ) == Some(p),
    decreases deps.len(),
{
    if deps.len() > 0 {
        let rest = deps.drop_first();
        lemma_found_in_items(items, rest, ty);
        let d = deps[0] as int;
        let here = if d < items.len() {
            match items[d] {
                RegistryItem::RecGroupItem(g, _) => match first_index_of(group_types(g@), ty) {
                    Some(p) => Some((g, p)),
                    None => None,
                },
                RegistryItem::Type(_) => None,
            }
        } else {
            None
        };
        match here {
            Some((g, p)) => {
                assert(equivalent_in_rec_group(items, deps, ty) == Some((g, p)));
                assert(group_entry(items[d], g@));
            },
            None => {
                assert(equivalent_in_rec_group(items, deps, ty) == equivalent_in_rec_group(
                    items,
                    rest,
                    ty,
                ));
            },
        }
    }
}

/// Growing the registry by the entry that registering `ty` stood for does
/// not change which group entry, if any, stands for `ty`.
proof fn lemma_found_after_growing(
    items0: Seq<RegistryItem>,
    items1: Seq<RegistryItem>,
    deps: Seq<u32>,
    ty: CompoundTypeView,
    key: RegistryKey,
)
    requires
        extends(items0, items1),
        items1.len() <= items0.len() + 1,
        items1.len() == items0.len() + 1 ==> items1.last()@ == key,
        groups_consistent(items1),
        match equivalent_in_rec_group(items0, deps, ty) {
            Some((g, p)) => key == RegistryKey::RecGroupItem(g@.name@, p as u32),
            None => key == RegistryKey::Type(ty),
        },
    ensures
        found_key(equivalent_in_rec_group(items1, deps, ty)) == found_key(
            equivalent_in_rec_group(items0, deps, ty),
        ),
    decreases deps.len(),
{
    if deps.len() > 0 {
        let d = deps[0] as int;
        let rest = deps.drop_first();
        if d < items0.len() {
            assert(items1[d] == items0[d]);
            let here = match items0[d] {
                RegistryItem::RecGroupItem(g, _) => match first_index_of(group_types(g@), ty) {
                    Some(p) => Some((g, p)),
                    None => None,
                },
                RegistryItem::Type(_) => None,
            };
            if here is None {
                lemma_found_after_growing(items0, items1, rest, ty, key);
            }
        } else if d == items0.len() && items1.len() == items0.len() + 1 {
            // the new entry: the type on its own, or the entry of the group
            // that was found for it
            lemma_found_in_items(items0, rest, ty);
            lemma_found_after_growing(items0, items1, rest, ty, key);
            match items1[d] {
                RegistryItem::RecGroupItem(h, q) => {
                    let (g, p) = equivalent_in_rec_group(items0, rest, ty).unwrap();
                    let e = choose|e: int|
                        0 <= e < items0.len() && #[trigger] group_entry(items0[e], g@)
                            && first_index_of(group_types(g@), ty) == Some(p);
                    assert(items1[e] == items0[e]);
                    assert(same_group_agrees(items1[d], items1[e]));
                    assert(group_types(h@) == group_types(g@));
                    lemma_first_index_of(group_types(g@), ty);
                    assert(0 <= p < group_types(g@).len());
                    assert(entry_in_group(items1[e]));
                },
                RegistryItem::Type(_) => {},
            }
        } else {
            lemma_found_after_growing(items0, items1, rest, ty, key);
        }
    }
}

/// Registering a compound type a second time finds the entry of the first
/// registration and changes nothing: once the registry holds the entry that
/// `ty` stands for, `ty` stands for the same entry, which is already there,
/// at the same index. The first registration stands for `ty` on its own
/// unless a group that a type it refers to belongs to holds it; it adds
/// nothing when that entry is there, and else adds it last.
pub proof fn law_register_compound_type_again(
    before: TypeRegistry,
    after: TypeRegistry,
    ty: CompoundTypeView,
)
    requires
        after.well_formed(),
        after.keys() == with_key(before.keys(), compound_key(before.items(), ty)),
        extends(before.items(), after.items()),
    ensures
        compound_key(after.items(), ty) == compound_key(before.items(), ty),
        with_key(after.keys(), compound_key(after.items(), ty)) == after.keys(),
        after.keys().index_of(compound_key(after.items(), ty)) == after.keys().index_of(
            compound_key(before.items(), ty),
        ),
        equivalent_in_rec_group(before.items(), immediate_deps(ty), ty) is None ==> compound_key(
            before.items(),
            ty,
        ) == RegistryKey::Type(ty),
        before.keys().contains(compound_key(before.items(), ty)) ==> after.keys() == before.keys(),
        !before.keys().contains(compound_key(before.items(), ty)) ==> {
            &&& after.keys().len() == before.keys().len() + 1
            &&& after.keys().index_of(compound_key(before.items(), ty)) == before.keys().len()
        },
{
    let key = compound_key(before.items(), ty);
    if !before.keys().contains(key) {
        let n = before.keys().len() as int;
        assert(after.keys()[n] == key);
        after.keys().index_of_first_ensures(key);
        let j = after.keys().index_of(key);
        if j < n {
            assert(before.keys()[j] == key);
        }
    }
    let items0 = before.items();
    let items1 = after.items();
    lemma_with_key_index(before.keys(), key);
    if items1.len() == items0.len() + 1 {
        assert(!before.keys().contains(key));
        assert(after.keys()[items1.len() - 1] == key);
    }
    lemma_found_after_growing(items0, items1, immediate_deps(ty), ty, key);
    law_type_registration_is_idempotent(before.keys(), key);
}

/// Two registrations of the same compound type, one after the other (each
/// as [`TypeRegistry::register_compound_type`] states it): the second adds
/// nothing, and both are answered with the index of the same entry.
pub proof fn law_second_registration_same_index(
    first: TypeRegistry,
    second: TypeRegistry,
    third: TypeRegistry,
    ty: CompoundTypeView,
)
    requires
        second.well_formed(),
        third.well_formed(),
        second.keys() == with_key(first.keys(), compound_key(first.items(), ty)),
        extends(first.items(), second.items()),
        third.keys() == with_key(second.keys(), compound_key(second.items(), ty)),
    ensures
        third.keys() == second.keys(),
        compound_key(second.items(), ty) == compound_key(first.items(), ty),
        third.keys().index_of(compound_key(second.items(), ty)) == second.keys().index_of(
            compound_key(first.items(), ty),
        ),
{
    law_register_compound_type_again(first, second, ty);
}

/// Compares two sequences of value types.
fn vals_eq(a: &Vec<ValType>, b: &Vec<ValType>) -> (r: bool)
    ensures
        r == (a@ == b@),
{
    if a.len() != b.len() {
        return false;
    }
    let mut i: usize = 0;
    while i < a.len()
        invariant
            a@.len() == b@.len(),
            i <= a@.len(),
            forall|k: int| 0 <= k < i ==> a@[k] == b@[k],
        decreases a@.len() - i,
    {
        if a[i] != b[i] {
            return false;
        }
        i = i + 1;
    }
    assert(a@ =~= b@);
    true
}

/// Compares two sequences of fields.
fn fields_eq(a: &Vec<FieldType>, b: &Vec<FieldType>) -> (r: bool)
    ensures
        r == (a@ == b@),
{
    if a.len() != b.len() {
        return false;
    }
    let mut i: usize = 0;
    while i < a.len()
        invariant
            a@.len() == b@.len(),
            i <= a@.len(),
            forall|k: int| 0 <= k < i ==> a@[k] == b@[k],
        decreases a@.len() - i,
    {
        if a[i] != b[i] {
            return false;
        }
        i = i + 1;
    }
    assert(a@ =~= b@);
    true
}

/// Compares two compound types as values.
pub fn compound_eq(a: &CompoundType, b: &CompoundType) -> (r: bool)
    ensures
        r == (a@ == b@),
{
    match (a, b) {
        (CompoundType::Function(p1, r1), CompoundType::Function(p2, r2)) => {
            vals_eq(p1, p2) && vals_eq(r1, r2)
        },
        (CompoundType::Array(e1, m1), CompoundType::Array(e2, m2)) => *e1 == *e2 && *m1 == *m2,
        (CompoundType::Struct(f1), CompoundType::Struct(f2)) => fields_eq(f1, f2),
        _ => false,
    }
}

/// Compares two registry entries by their keys.
pub fn item_eq(a: &RegistryItem, b: &RegistryItem) -> (r: bool)
    ensures
        r == (a@ == b@),
{
    match (a, b) {
        (RegistryItem::Type(t1), RegistryItem::Type(t2)) => compound_eq(t1, t2),
        (RegistryItem::RecGroupItem(g1, i1), RegistryItem::RecGroupItem(g2, i2)) => {
            g1.as_ref().name == g2.as_ref().name && *i1 == *i2
        },
        _ => false,
    }
}

/// The registry of the module's compound types.
pub struct TypeRegistry {
    items: Vec<RegistryItem>,
}

impl TypeRegistry {
    /// The entries, in registration order.
    pub closed spec fn items(&self) -> Seq<RegistryItem> {
        self.items@
    }

    /// The entries' keys, in registration order.
    pub open spec fn keys(&self) -> Seq<RegistryKey> {
        self.items().map_values(|item: RegistryItem| item@)
    }

    /// The registry's invariant: no key twice.
    pub open spec fn well_formed(&self) -> bool {
        &&& self.keys().no_duplicates()
        &&& groups_consistent(self.items())
        &&& groups_anchored(self.items())
    }

    /// A nullable reference to any struct.
    pub open spec fn struct_ref_type() -> ValType {
        ValType::Ref(
            RefType {
                nullable: true,
                heap_type: HeapType::Abstract { shared: false, ty: AbstractHeapType::Struct },
            },
        )
    }

    /// A nullable reference to any struct.
    pub fn struct_ref() -> (r: ValType)
        ensures
            r == Self::struct_ref_type(),
    {
        ValType::Ref(
            RefType {
                nullable: true,
                heap_type: HeapType::Abstract { shared: false, ty: AbstractHeapType::Struct },
            },
        )
    }

    /// Makes an empty registry.
    pub fn default() -> (r: Self)
        ensures
            r.well_formed(),
            r.items() == Seq::<RegistryItem>::empty(),
    {
        TypeRegistry { items: Vec::new() }
    }

    /// The number of entries.
    pub fn len(&self) -> (r: usize)
        ensures
            r == self.items().len(),
    {
        self.items.len()
    }

    /// The entry at index `i`.
    pub fn get(&self, i: usize) -> (r: &RegistryItem)
        requires
            i < self.items().len(),
        ensures
            *r == self.items()[i as int],
    {
        &self.items[i]
    }

    /// The index of the entry equal to `item`, if there is one.
    pub fn index_of(&self, item: &RegistryItem) -> (r: Option<usize>)
        requires
            self.well_formed(),
        ensures
            r is Some <==> self.keys().contains(item@),
            r matches Some(i) ==> i == self.keys().index_of(item@),
    {
        let mut i: usize = 0;
        while i < self.items.len()
            invariant
                i <= self.items@.len(),
                self.well_formed(),
                forall|k: int| 0 <= k < i ==> self.keys()[k] != item@,
            decreases self.items@.len() - i,
        {
            if item_eq(&self.items[i], item) {
                proof {
                    assert(self.keys()[i as int] == item@);
                    self.keys().index_of_first_ensures(item@);
                    assert(self.keys().index_of(item@) == i) by {
                        let j = self.keys().index_of(item@);
                        assert(self.keys()[j] == item@);
                    }
                }
                return Some(i);
            }
            i = i + 1;
        }
        proof {
            assert forall|k: int| 0 <= k < self.keys().len() implies self.keys()[k] != item@ by {}
        }
        None
    }

    /// The index of the entry that holds `ty` on its own, if there is one.
    pub fn index_of_type(&self, ty: &CompoundType) -> (r: Option<usize>)
        requires
            self.well_formed(),
        ensures
            r is Some <==> self.keys().contains(RegistryKey::Type(ty@)),
            r matches Some(i) ==> i == self.keys().index_of(RegistryKey::Type(ty@)),
    {
        let ghost key = RegistryKey::Type(ty@);
        let mut i: usize = 0;
        while i < self.items.len()
            invariant
                i <= self.items@.len(),
                self.well_formed(),
                key == RegistryKey::Type(ty@),
                forall|k: int| 0 <= k < i ==> self.keys()[k] != key,
            decreases self.items@.len() - i,
        {
            let it = &self.items[i];
            let found = match it {
                RegistryItem::Type(t) => {
                    let e = compound_eq(t, ty);
                    assert(it@ == RegistryKey::Type(t@));
                    e
                },
                RegistryItem::RecGroupItem(_, _) => false,
            };
            assert(self.keys()[i as int] == it@);
            assert(found <==> it@ == key);
            if found {
                proof {
                    assert(self.keys()[i as int] == key);
                    self.keys().index_of_first_ensures(key);
                    assert(self.keys().index_of(key) == i) by {
                        let j = self.keys().index_of(key);
                        assert(self.keys()[j] == key);
                    }
                }
                return Some(i);
            }
            i = i + 1;
        }
        proof {
            assert forall|k: int| 0 <= k < self.keys().len() implies self.keys()[k] != key by {}
        }
        None
    }

    /// The group entry that stands for `ty`, as [`equivalent_in_rec_group`]
    /// gives it for the types that `ty` refers to.
    fn equivalent_in_rec_group_of(&self, ty: &CompoundType) -> (r: Option<(Rc<RecGroup>, usize)>)
        ensures
            r is Some <==> equivalent_in_rec_group(self.items(), immediate_deps(ty@), ty@) is Some,
            r matches Some((g, p)) ==> equivalent_in_rec_group(self.items(), immediate_deps(ty@), ty@)
                matches Some((g2, p2)) && g@ == g2@ && p == p2,
            r matches Some((g, p)) ==> first_index_of(group_types(g@), ty@) == Some(p as int),
            r matches Some((g, p)) ==> exists|d: int|
                0 <= d < self.items().len() && #[trigger] group_entry(self.items()[d], g@),
    {
        let deps = immediate_deps_of(ty);
        let ghost all = deps@;
        assert(all.subrange(0, all.len() as int) =~= all);
        let mut i: usize = 0;
        while i < deps.len()
            invariant
                all == deps@,
                all == immediate_deps(ty@),
                i <= all.len(),
                equivalent_in_rec_group(self.items(), all, ty@) == equivalent_in_rec_group(
                    self.items(),
                    all.subrange(i as int, all.len() as int),
                    ty@,
                ),
            decreases all.len() - i,
        {
            let ghost rest = all.subrange(i as int, all.len() as int);
            proof {
                assert(rest.drop_first() =~= all.subrange(i + 1, all.len() as int));
                assert(rest[0] == all[i as int]);
            }
            let d = deps[i] as usize;
            if d < self.items.len() {
                match &self.items[d] {
                    RegistryItem::RecGroupItem(g, _) => {
                        match find_type(&g.as_ref().types, ty) {
                            Some(p) => {
                                let g2 = g.clone();
                                assert(group_entry(self.items()[d as int], g2@));
                                return Some((g2, p));
                            },
                            None => {},
                        }
                    },
                    RegistryItem::Type(_) => {},
                }
            }
            i = i + 1;
        }
        proof {
            assert(all.subrange(i as int, all.len() as int).len() == 0);
        }
        None
    }

    /// Registers `ty`: as its entry in a group that a type it refers to
    /// belongs to and that holds it, else on its own; gives the index of its
    /// entry.
    pub fn register_compound_type<N: RegistryIndex>(&mut self, ty: CompoundType) -> (r: Result<
        N,
        RegistryError,
    >)
        requires
            old(self).well_formed(),
        ensures
            final(self).well_formed(),
            final(self).keys() == with_key(old(self).keys(), compound_key(old(self).items(), ty@)),
            index_result(r, final(self).keys().index_of(compound_key(old(self).items(), ty@))),
            extends(old(self).items(), final(self).items()),
            r matches Ok(n) ==> entry_type(final(self).items(), n.index_value()) == Some(ty@),
    {
        let ghost key = compound_key(self.items(), ty@);
        let ghost tyv = ty@;
        let ghost old_items = self.items();
        let ghost old_keys = self.keys();
        match self.equivalent_in_rec_group_of(&ty) {
            Some((g, p)) => {
                proof {
                    let d = choose|d: int| 0 <= d < self.items().len() && #[trigger] group_entry(self.items()[d], g@);
                    let items = self.items();
                    assert(entry_in_group(items[d]));
                    lemma_first_index_of(group_types(g@), ty@);
                    assert(p < g@.types@.len());
                    assert(entry_in_group(RegistryItem::RecGroupItem(g, p as u32)));
                    assert forall|i: int| 0 <= i < items.len() implies same_group_agrees(
                        #[trigger] items[i],
                        RegistryItem::RecGroupItem(g, p as u32),
                    ) by {
                        assert(same_group_agrees(items[i], items[d]));
                    }
                }
                let ghost gv = g@;
                let item = RegistryItem::RecGroupItem(g, p as u32);
                assert(item@ == key);
                let r = self.register_default::<N>(item);
                proof {
                    let d = choose|d: int| 0 <= d < old_items.len() && #[trigger] group_entry(old_items[d], gv);
                    let items = self.items();
                    assert(items[d] == old_items[d]);
                    lemma_first_index_of(group_types(gv), tyv);
                    match &r {
                        Ok(n) => {
                            let idx = n.index_value();
                            law_type_registration_is_idempotent(old_keys, key);
                            self.keys().index_of_first_ensures(key);
                            assert(self.keys()[idx] == key);
                            assert(items[idx]@ == key);
                            assert(same_group_agrees(items[idx], items[d]));
                            assert(group_types(gv)[p as int] == tyv);
                        },
                        Err(_) => {},
                    }
                }
                r
            },
            None => {
                let item = RegistryItem::Type(ty);
                assert(item@ == key);
                let r = self.register_default::<N>(item);
                proof {
                    match &r {
                        Ok(n) => {
                            let idx = n.index_value();
                            law_type_registration_is_idempotent(old_keys, key);
                            self.keys().index_of_first_ensures(key);
                            assert(self.keys()[idx] == key);
                            assert(self.items()[idx]@ == key);
                        },
                        Err(_) => {},
                    }
                }
                r
            },
        }
    }

    /// Registers the type of functions with these parameters and results.
    pub fn function<N: RegistryIndex>(&mut self, params: Vec<ValType>, results: Vec<ValType>) -> (r:
        Result<N, RegistryError>)
        requires
            old(self).well_formed(),
        ensures
            final(self).well_formed(),
            final(self).keys() == with_key(
                old(self).keys(),
                compound_key(old(self).items(), CompoundTypeView::Function(params@, results@)),
            ),
            index_result(
                r,
                final(self).keys().index_of(
                    compound_key(old(self).items(), CompoundTypeView::Function(params@, results@)),
                ),
            ),
            extends(old(self).items(), final(self).items()),
            r matches Ok(n) ==> entry_type(final(self).items(), n.index_value()) == Some(
                CompoundTypeView::Function(params@, results@),
            ),
    {
        self.register_compound_type(CompoundType::Function(params, results))
    }

    /// Registers the type of arrays of this element type.
    pub fn array<N: RegistryIndex>(&mut self, elem_type: StorageType, mutable: bool) -> (r: Result<
        N,
        RegistryError,
    >)
        requires
            old(self).well_formed(),
        ensures
            final(self).well_formed(),
            final(self).keys() == with_key(
                old(self).keys(),
                compound_key(old(self).items(), CompoundTypeView::Array(elem_type, mutable)),
            ),
            index_result(
                r,
                final(self).keys().index_of(
                    compound_key(old(self).items(), CompoundTypeView::Array(elem_type, mutable)),
                ),
            ),
            extends(old(self).items(), final(self).items()),
            r matches Ok(n) ==> entry_type(final(self).items(), n.index_value()) == Some(
                CompoundTypeView::Array(elem_type, mutable),
            ),
    {
        self.register_compound_type(CompoundType::Array(elem_type, mutable))
    }

    /// Registers the type of structs with these fields.
    pub fn struct_<N: RegistryIndex>(&mut self, fields: Vec<FieldType>) -> (r: Result<
        N,
        RegistryError,
    >)
        requires
            old(self).well_formed(),
        ensures
            final(self).well_formed(),
            final(self).keys() == with_key(
                old(self).keys(),
                compound_key(old(self).items(), CompoundTypeView::Struct(fields@)),
            ),
            index_result(
                r,
                final(self).keys().index_of(
                    compound_key(old(self).items(), CompoundTypeView::Struct(fields@)),
                ),
            ),
            extends(old(self).items(), final(self).items()),
            r matches Ok(n) ==> entry_type(final(self).items(), n.index_value()) == Some(
                CompoundTypeView::Struct(fields@),
            ),
    {
        self.register_compound_type(CompoundType::Struct(fields))
    }

    /// Registers `item` unless an equal entry is there, and gives the index
    /// of its entry.
    pub fn register_default<N: RegistryIndex>(&mut self, item: RegistryItem) -> (r: Result<
        N,
        RegistryError,
    >)
        requires
            old(self).well_formed(),
            fits_registry(old(self).items(), item),
        ensures
            final(self).well_formed(),
            final(self).keys() == with_key(old(self).keys(), item@),
            old(self).keys().contains(item@) ==> final(self).items() == old(self).items(),
            !old(self).keys().contains(item@) ==> final(self).items() == old(self).items().push(
                item,
            ),
            index_result(r, final(self).keys().index_of(item@)),
    {
        let ghost key = item@;
        let found = self.index_of(&item);
        let i = match found {
            Some(i) => i,
            None => {
                let ghost old_keys = self.keys();
                let ghost old_items = self.items();
                let ghost new_item = item;
                self.items.push(item);
                proof {
                    assert(self.keys() =~= old_keys.push(key));
                    let items = self.items();
                    assert(items == old_items.push(new_item));
                    assert(keys_of(items) == old_keys.push(key));
                    assert forall|a: int| 0 <= a < items.len() implies anchored(
                        items,
                        #[trigger] items[a],
                    ) by {
                        if let RegistryItem::RecGroupItem(g, _) = items[a] {
                            let first = RegistryKey::RecGroupItem(g@.name@, 0);
                            if a < old_items.len() {
                                assert(anchored(old_items, old_items[a]));
                                let w = choose|w: int| 0 <= w < old_keys.len() && old_keys[w] == first;
                                assert(keys_of(items)[w] == first);
                            } else if key == first {
                                assert(keys_of(items)[old_keys.len() as int] == first);
                            } else {
                                let w = choose|w: int| 0 <= w < old_keys.len() && old_keys[w] == first;
                                assert(keys_of(items)[w] == first);
                            }
                        }
                    }
                    assert forall|a: int, b: int| 0 <= a < items.len() && 0 <= b < items.len()
                        implies same_group_agrees(#[trigger] items[a], #[trigger] items[b]) by {
                        let n = old_items.len() as int;
                        if a < n && b < n {
                            assert(same_group_agrees(old_items[a], old_items[b]));
                        } else if a < n {
                            assert(same_group_agrees(old_items[a], new_item));
                        } else if b < n {
                            assert(same_group_agrees(old_items[b], new_item));
                        }
                    }
                    assert forall|a: int| 0 <= a < items.len() implies entry_in_group(#[trigger] items[a]) by {
                        if a < old_items.len() {
                            assert(entry_in_group(old_items[a]));
                        }
                    }
                    assert(self.keys().no_duplicates()) by {
                        assert forall|a: int, b: int|
                            0 <= a < self.keys().len() && 0 <= b < self.keys().len() && a != b
                                implies self.keys()[a] != self.keys()[b] by {
                            if a == old_keys.len() as int {
                                assert(!old_keys.contains(key));
                                assert(old_keys[b] == self.keys()[b]);
                            } else if b == old_keys.len() as int {
                                assert(!old_keys.contains(key));
                                assert(old_keys[a] == self.keys()[a]);
                            }
                        }
                    }
                    let n = old_keys.len() as int;
                    assert(self.keys()[n] == key);
                    self.keys().index_of_first_ensures(key);
                    assert(self.keys().index_of(key) == n) by {
                        let j = self.keys().index_of(key);
                        if j != n {
                            assert(self.keys()[j] == key);
                            assert(old_keys[j] == key);
                        }
                    }
                }
                self.items.len() - 1
            },
        };
        match N::from_index(i) {
            Some(n) => Ok(n),
            None => Err(RegistryError::IndexOutOfBounds),
        }
    }

    /// Registers a recursive group: every type of it at consecutive indices,
    /// unless the group's first type is registered already.
    pub fn register_rec_group(&mut self, group: RecGroup)
        requires
            old(self).well_formed(),
            group.types@.len() <= u32::MAX,
            forall|i: int|
                0 <= i < old(self).items().len() ==> agrees_with_group(
                    #[trigger] old(self).items()[i],
                    group.name@,
                    types_view(group.types@),
                ),
        ensures
            final(self).well_formed(),
            old(self).keys().contains(RegistryKey::RecGroupItem(group.name@, 0))
                ==> final(self).items() == old(self).items(),
            !old(self).keys().contains(RegistryKey::RecGroupItem(group.name@, 0))
                ==> final(self).keys() == with_keys(
                old(self).keys(),
                group_keys(group.name@, group.types@.len() as int),
            ),
            no_key_of_group(old(self).keys(), group.name@) ==> final(self).keys() == old(self).keys()
                + group_keys(group.name@, group.types@.len() as int),
            final(self).keys().len() >= old(self).keys().len(),
            forall|i: int| 0 <= i < old(self).keys().len() ==> #[trigger] final(self).keys()[i]
                == old(self).keys()[i],
            !old(self).keys().contains(RegistryKey::RecGroupItem(group.name@, 0)) ==> forall|i: int|
                0 <= i < group.types@.len() ==> #[trigger] final(self).keys().contains(
                    RegistryKey::RecGroupItem(group.name@, i as u32),
                ),
            no_key_of_group(old(self).keys(), group.name@) ==> forall|k: int|
                old(self).items().len() <= k < final(self).items().len() ==> group_entry(
                    #[trigger] final(self).items()[k],
                    group,
                ),
            extends(old(self).items(), final(self).items()),
    {
        let ghost old_items = self.items();
        let ghost old_len = self.items().len();
        let ghost gval = group;
        let ghost name = group.name@;
        let ghost old_keys = self.keys();
        let n = group.types.len();
        let group = Rc::new(group);
        let first = RegistryItem::RecGroupItem(group.clone(), 0);
        if self.index_of(&first).is_some() {
            return;
        }
        let mut i: usize = 0;
        while i < n
            invariant
                self.well_formed(),
                n <= u32::MAX,
                i <= n,
                group@.name@ == name,
                forall|k: int|
                    0 <= k < self.items().len() ==> agrees_with_group(
                        #[trigger] self.items()[k],
                        name,
                        group_types(group@),
                    ),
                group@.types@.len() == n,
                self.keys().len() >= old_keys.len(),
                forall|k: int| 0 <= k < old_keys.len() ==> #[trigger] self.keys()[k] == old_keys[k],
                forall|k: int| 0 <= k < i ==> #[trigger] self.keys().contains(
                    RegistryKey::RecGroupItem(name, k as u32),
                ),
                no_key_of_group(old_keys, name) ==> self.keys() == old_keys + group_keys(name, i as int),
                self.keys() == with_keys(old_keys, group_keys(name, i as int)),
                group@ == gval,
                old_len == old_keys.len(),
                extends(old_items, self.items()),
                no_key_of_group(old_keys, name) ==> forall|k: int|
                    old_len <= k < self.items().len() ==> group_entry(
                        #[trigger] self.items()[k],
                        gval,
                    ),
            decreases n - i,
        {
            let ghost before = self.keys();
            let ghost before_items = self.items();
            let item = RegistryItem::RecGroupItem(group.clone(), i as u32);
            proof {
                assert forall|k: int| 0 <= k < before_items.len() implies same_group_agrees(
                    #[trigger] before_items[k],
                    item,
                ) by {}
                if i > 0 {
                    assert(self.keys().contains(RegistryKey::RecGroupItem(name, 0int as u32)));
                    assert(keys_of(before_items) == before);
                }
            }
            let _ = self.register_default::<usize>(item);
            proof {
                assert(extends(before_items, self.items()));
                lemma_extends_trans(old_items, before_items, self.items());
                let key = RegistryKey::RecGroupItem(name, i as u32);
                assert(group_keys(name, i + 1).drop_last() =~= group_keys(name, i as int));
                assert(group_keys(name, i + 1).last() == key);
                assert(self.keys().contains(key)) by {
                    if !before.contains(key) {
                        assert(self.keys()[before.len() as int] == key);
                    }
                }
                assert forall|k: int| 0 <= k < i + 1 implies #[trigger] self.keys().contains(
                    RegistryKey::RecGroupItem(name, k as u32),
                ) by {
                    if k < i {
                        let key2 = RegistryKey::RecGroupItem(name, k as u32);
                        assert(before.contains(key2));
                        let w = choose|w: int| 0 <= w < before.len() && before[w] == key2;
                        assert(self.keys()[w] == key2);
                    }
                }
                if no_key_of_group(old_keys, name) {
                    assert(!before.contains(key)) by {
                        if before.contains(key) {
                            let w = choose|w: int| 0 <= w < before.len() && before[w] == key;
                            if w < old_keys.len() {
                                assert(old_keys[w] == key);
                            } else {
                                assert(group_keys(name, i as int)[w - old_keys.len()] == key);
                                assert((w - old_keys.len()) as u32 == i as u32);
                            }
                        }
                    }
                    assert(self.keys() =~= old_keys + group_keys(name, i + 1));
                }
            }
            i = i + 1;
        }
    }

    /// The section of types that the registry makes, in order: each type on
    /// its own, and each recursive group where its first type stands.
    pub fn finish(self) -> (r: Vec<TypeSectionEntry>)
        ensures
            r@ == type_section(self.items()),
    {
        let ghost all = self.items@;
        let mut items = self.items;
        let total = items.len();
        let mut out: Vec<TypeSectionEntry> = Vec::new();
        let mut k: usize = 0;
        while items.len() > 0
            invariant
                all.len() == total,
                k + items@.len() == all.len(),
                items@ =~= all.subrange(k as int, all.len() as int),
                out@ == type_section(all.subrange(0, k as int)),
            decreases items@.len(),
        {
            assert(items@[0] == all[k as int]);
            assert(all.subrange(0, k + 1).drop_last() =~= all.subrange(0, k as int));
            let item = items.remove(0);
            match item {
                RegistryItem::Type(ty) => {
                    out.push(TypeSectionEntry::Sub(ty));
                },
                RegistryItem::RecGroupItem(g, i) => {
                    if i == 0 {
                        out.push(TypeSectionEntry::Rec(g));
                    }
                },
            }
            assert(out@ =~= type_section(all.subrange(0, k + 1)));
            k = k + 1;
        }
        assert(all.subrange(0, all.len() as int) =~= all);
        out
    }
}

} // verus!
