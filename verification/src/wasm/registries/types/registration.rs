//! Registering types described at the type level: each marker type gives its
//! value type, reference type, field, heap type or compound type, registering
//! in the type registry the compound types that it needs, and the value it
//! gives describes it in the registry as it then stands.

use vstd::prelude::*;
use crate::registry::RegistryError;
use crate::wasm::registries::types::registry::{
    compound_key, entry_type, extends, lemma_extends_trans, lemma_with_key_index, CompoundType,
    FieldType, RegistryItem, StorageType, TypeRegistry,
};
use crate::wasm::registries::types::{
    TArray, TConstField, TFunc, TI32, TMutField, TNonNullable, TNullable, TStruct, TStructRef,
};
use crate::wasm::types::{AbstractHeapType, HeapType, RefType, ValType};

verus! {

/// A type-level description of a `T` of the module.
pub trait TRecGroupType<T> {
    /// `v` describes this type in a registry of `items`.
    spec fn describes(items: Seq<RegistryItem>, v: T) -> bool;

    /// A description stays true as the registry grows.
    proof fn lemma_describes_grows(items: Seq<RegistryItem>, more: Seq<RegistryItem>, v: T)
        requires
            Self::describes(items, v),
            extends(items, more),
        ensures
            Self::describes(more, v),
    ;

    /// The most entries that registering this type adds.
    spec fn new_entries() -> nat;

    /// Gives the `T` that this type is, registering what it needs. It
    /// succeeds when the registry has room for the entries it may add.
    fn rec_group_ty(types: &mut TypeRegistry) -> (r: Result<T, RegistryError>)
        requires
            old(types).well_formed(),
        ensures
            final(types).well_formed(),
            extends(old(types).items(), final(types).items()),
            final(types).items().len() <= old(types).items().len() + Self::new_entries(),
            old(types).items().len() + Self::new_entries() <= u32::MAX ==> r is Ok,
            r matches Ok(v) ==> Self::describes(final(types).items(), v),
    ;
}

/// A type-level list of descriptions of `T`s: `()`, or a head and a list.
pub trait RegTypeList<T> {
    /// `s` describes the list's types, in order, in a registry of `items`.
    spec fn describes_each(items: Seq<RegistryItem>, s: Seq<T>) -> bool;

    /// The descriptions stay true as the registry grows.
    proof fn lemma_each_grows(items: Seq<RegistryItem>, more: Seq<RegistryItem>, s: Seq<T>)
        requires
            Self::describes_each(items, s),
            extends(items, more),
        ensures
            Self::describes_each(more, s),
    ;

    /// The most entries that registering the list's types adds.
    spec fn new_entries() -> nat;

    /// Gives the list's `T`s in order, registering what they need. It
    /// succeeds when the registry has room for the entries it may add.
    fn register_each(types: &mut TypeRegistry) -> (r: Result<Vec<T>, RegistryError>)
        requires
            old(types).well_formed(),
        ensures
            final(types).well_formed(),
            extends(old(types).items(), final(types).items()),
            final(types).items().len() <= old(types).items().len() + Self::new_entries(),
            old(types).items().len() + Self::new_entries() <= u32::MAX ==> r is Ok,
            r matches Ok(v) ==> Self::describes_each(final(types).items(), v@),
    ;
}

impl RegTypeList<ValType> for () {
    open spec fn describes_each(items: Seq<RegistryItem>, s: Seq<ValType>) -> bool {
        s.len() == 0
    }

    proof fn lemma_each_grows(items: Seq<RegistryItem>, more: Seq<RegistryItem>, s: Seq<ValType>) {
    }

    open spec fn new_entries() -> nat {
        0
    }

    fn register_each(types: &mut TypeRegistry) -> (r: Result<Vec<ValType>, RegistryError>) {
        Ok(Vec::new())
    }
}

impl RegTypeList<FieldType> for () {
    open spec fn describes_each(items: Seq<RegistryItem>, s: Seq<FieldType>) -> bool {
        s.len() == 0
    }

    proof fn lemma_each_grows(items: Seq<RegistryItem>, more: Seq<RegistryItem>, s: Seq<FieldType>) {
    }

    open spec fn new_entries() -> nat {
        0
    }

    fn register_each(types: &mut TypeRegistry) -> (r: Result<Vec<FieldType>, RegistryError>) {
        Ok(Vec::new())
    }
}

impl<T, Head: TRecGroupType<T>, Tail: RegTypeList<T>> RegTypeList<T> for (Head, Tail) {
    open spec fn describes_each(items: Seq<RegistryItem>, s: Seq<T>) -> bool {
        &&& s.len() >= 1
        &&& Head::describes(items, s[0])
        &&& Tail::describes_each(items, s.drop_first())
    }

    proof fn lemma_each_grows(items: Seq<RegistryItem>, more: Seq<RegistryItem>, s: Seq<T>) {
        Head::lemma_describes_grows(items, more, s[0]);
        Tail::lemma_each_grows(items, more, s.drop_first());
    }

    open spec fn new_entries() -> nat {
        Head::new_entries() + Tail::new_entries()
    }

    fn register_each(types: &mut TypeRegistry) -> (r: Result<Vec<T>, RegistryError>) {
        let ghost start = types.items();
        let head = match Head::rec_group_ty(types) {
            Ok(h) => h,
            Err(e) => return Err(e),
        };
        let ghost mid = types.items();
        let mut tail = match Tail::register_each(types) {
            Ok(t) => t,
            Err(e) => {
                proof {
                    lemma_extends_trans(start, mid, types.items());
                }
                return Err(e);
            },
        };
        proof {
            lemma_extends_trans(start, mid, types.items());
            Head::lemma_describes_grows(mid, types.items(), head);
        }
        let ghost tail_view = tail@;
        let mut out = Vec::new();
        out.push(head);
        out.append(&mut tail);
        assert(out@.drop_first() =~= tail_view);
        Ok(out)
    }
}

impl TRecGroupType<ValType> for TI32 {
    open spec fn describes(items: Seq<RegistryItem>, v: ValType) -> bool {
        v == ValType::I32
    }

    proof fn lemma_describes_grows(items: Seq<RegistryItem>, more: Seq<RegistryItem>, v: ValType) {
    }

    open spec fn new_entries() -> nat {
        0
    }

    fn rec_group_ty(types: &mut TypeRegistry) -> (r: Result<ValType, RegistryError>) {
        Ok(ValType::I32)
    }
}

impl TRecGroupType<HeapType> for TStructRef {
    open spec fn describes(items: Seq<RegistryItem>, v: HeapType) -> bool {
        v == HeapType::Abstract { shared: false, ty: AbstractHeapType::Struct }
    }

    proof fn lemma_describes_grows(items: Seq<RegistryItem>, more: Seq<RegistryItem>, v: HeapType) {
    }

    open spec fn new_entries() -> nat {
        0
    }

    fn rec_group_ty(types: &mut TypeRegistry) -> (r: Result<HeapType, RegistryError>) {
        Ok(HeapType::Abstract { shared: false, ty: AbstractHeapType::Struct })
    }
}

/// `v` is a reference, nullable or not as `nullable` says, to the heap type
/// that `H` describes.
pub open spec fn describes_ref<H: TRecGroupType<HeapType>>(
    items: Seq<RegistryItem>,
    v: RefType,
    nullable: bool,
) -> bool {
    v.nullable == nullable && H::describes(items, v.heap_type)
}

fn ref_to<H: TRecGroupType<HeapType>>(types: &mut TypeRegistry, nullable: bool) -> (r: Result<
    RefType,
    RegistryError,
>)
    requires
        old(types).well_formed(),
    ensures
        final(types).well_formed(),
        extends(old(types).items(), final(types).items()),
        final(types).items().len() <= old(types).items().len() + H::new_entries(),
        old(types).items().len() + H::new_entries() <= u32::MAX ==> r is Ok,
        r matches Ok(v) ==> describes_ref::<H>(final(types).items(), v, nullable),
{
    match H::rec_group_ty(types) {
        Ok(heap_type) => Ok(RefType { nullable, heap_type }),
        Err(e) => Err(e),
    }
}

impl<H: TRecGroupType<HeapType>> TRecGroupType<RefType> for TNullable<H> {
    open spec fn describes(items: Seq<RegistryItem>, v: RefType) -> bool {
        describes_ref::<H>(items, v, true)
    }

    proof fn lemma_describes_grows(items: Seq<RegistryItem>, more: Seq<RegistryItem>, v: RefType) {
        H::lemma_describes_grows(items, more, v.heap_type);
    }

    open spec fn new_entries() -> nat {
        H::new_entries()
    }

    fn rec_group_ty(types: &mut TypeRegistry) -> (r: Result<RefType, RegistryError>) {
        ref_to::<H>(types, true)
    }
}

impl<H: TRecGroupType<HeapType>> TRecGroupType<RefType> for TNonNullable<H> {
    open spec fn describes(items: Seq<RegistryItem>, v: RefType) -> bool {
        describes_ref::<H>(items, v, false)
    }

    proof fn lemma_describes_grows(items: Seq<RegistryItem>, more: Seq<RegistryItem>, v: RefType) {
        H::lemma_describes_grows(items, more, v.heap_type);
    }

    open spec fn new_entries() -> nat {
        H::new_entries()
    }

    fn rec_group_ty(types: &mut TypeRegistry) -> (r: Result<RefType, RegistryError>) {
        ref_to::<H>(types, false)
    }
}

/// `v` is a reference value type that `describes_ref` accepts.
pub open spec fn describes_ref_val<H: TRecGroupType<HeapType>>(
    items: Seq<RegistryItem>,
    v: ValType,
    nullable: bool,
) -> bool {
    match v {
        ValType::Ref(rt) => describes_ref::<H>(items, rt, nullable),
        _ => false,
    }
}

impl<H: TRecGroupType<HeapType>> TRecGroupType<ValType> for TNullable<H> {
    open spec fn describes(items: Seq<RegistryItem>, v: ValType) -> bool {
        describes_ref_val::<H>(items, v, true)
    }

    proof fn lemma_describes_grows(items: Seq<RegistryItem>, more: Seq<RegistryItem>, v: ValType) {
        if let ValType::Ref(rt) = v {
            H::lemma_describes_grows(items, more, rt.heap_type);
        }
    }

    open spec fn new_entries() -> nat {
        H::new_entries()
    }

    fn rec_group_ty(types: &mut TypeRegistry) -> (r: Result<ValType, RegistryError>) {
        match ref_to::<H>(types, true) {
            Ok(rt) => Ok(ValType::Ref(rt)),
            Err(e) => Err(e),
        }
    }
}

impl<H: TRecGroupType<HeapType>> TRecGroupType<ValType> for TNonNullable<H> {
    open spec fn describes(items: Seq<RegistryItem>, v: ValType) -> bool {
        describes_ref_val::<H>(items, v, false)
    }

    proof fn lemma_describes_grows(items: Seq<RegistryItem>, more: Seq<RegistryItem>, v: ValType) {
        if let ValType::Ref(rt) = v {
            H::lemma_describes_grows(items, more, rt.heap_type);
        }
    }

    open spec fn new_entries() -> nat {
        H::new_entries()
    }

    fn rec_group_ty(types: &mut TypeRegistry) -> (r: Result<ValType, RegistryError>) {
        match ref_to::<H>(types, false) {
            Ok(rt) => Ok(ValType::Ref(rt)),
            Err(e) => Err(e),
        }
    }
}

/// `f` is a field, writable or not as `mutable` says, of the value type that
/// `V` describes.
pub open spec fn describes_field<V: TRecGroupType<ValType>>(
    items: Seq<RegistryItem>,
    f: FieldType,
    mutable: bool,
) -> bool {
    &&& f.mutable == mutable
    &&& match f.element_type {
        StorageType::Val(v) => V::describes(items, v),
        _ => false,
    }
}

fn field_of<V: TRecGroupType<ValType>>(types: &mut TypeRegistry, mutable: bool) -> (r: Result<
    FieldType,
    RegistryError,
>)
    requires
        old(types).well_formed(),
    ensures
        final(types).well_formed(),
        extends(old(types).items(), final(types).items()),
        final(types).items().len() <= old(types).items().len() + V::new_entries(),
        old(types).items().len() + V::new_entries() <= u32::MAX ==> r is Ok,
        r matches Ok(f) ==> describes_field::<V>(final(types).items(), f, mutable),
{
    match V::rec_group_ty(types) {
        Ok(v) => Ok(FieldType { element_type: StorageType::Val(v), mutable }),
        Err(e) => Err(e),
    }
}

impl<V: TRecGroupType<ValType>> TRecGroupType<FieldType> for TMutField<V> {
    open spec fn describes(items: Seq<RegistryItem>, f: FieldType) -> bool {
        describes_field::<V>(items, f, true)
    }

    proof fn lemma_describes_grows(items: Seq<RegistryItem>, more: Seq<RegistryItem>, f: FieldType) {
        if let StorageType::Val(v) = f.element_type {
            V::lemma_describes_grows(items, more, v);
        }
    }

    open spec fn new_entries() -> nat {
        V::new_entries()
    }

    fn rec_group_ty(types: &mut TypeRegistry) -> (r: Result<FieldType, RegistryError>) {
        field_of::<V>(types, true)
    }
}

impl<V: TRecGroupType<ValType>> TRecGroupType<FieldType> for TConstField<V> {
    open spec fn describes(items: Seq<RegistryItem>, f: FieldType) -> bool {
        describes_field::<V>(items, f, false)
    }

    proof fn lemma_describes_grows(items: Seq<RegistryItem>, more: Seq<RegistryItem>, f: FieldType) {
        if let StorageType::Val(v) = f.element_type {
            V::lemma_describes_grows(items, more, v);
        }
    }

    open spec fn new_entries() -> nat {
        V::new_entries()
    }

    fn rec_group_ty(types: &mut TypeRegistry) -> (r: Result<FieldType, RegistryError>) {
        field_of::<V>(types, false)
    }
}

impl<Fields: RegTypeList<FieldType>> TRecGroupType<CompoundType> for TStruct<Fields> {
    open spec fn describes(items: Seq<RegistryItem>, c: CompoundType) -> bool {
        match c {
            CompoundType::Struct(fields) => Fields::describes_each(items, fields@),
            _ => false,
        }
    }

    proof fn lemma_describes_grows(items: Seq<RegistryItem>, more: Seq<RegistryItem>, c: CompoundType) {
        if let CompoundType::Struct(fields) = c {
            Fields::lemma_each_grows(items, more, fields@);
        }
    }

    open spec fn new_entries() -> nat {
        Fields::new_entries()
    }

    fn rec_group_ty(types: &mut TypeRegistry) -> (r: Result<CompoundType, RegistryError>) {
        match Fields::register_each(types) {
            Ok(fields) => Ok(CompoundType::Struct(fields)),
            Err(e) => Err(e),
        }
    }
}

impl<Field: TRecGroupType<FieldType>> TRecGroupType<CompoundType> for TArray<Field> {
    open spec fn describes(items: Seq<RegistryItem>, c: CompoundType) -> bool {
        match c {
            CompoundType::Array(element_type, mutable) => Field::describes(
                items,
                FieldType { element_type, mutable },
            ),
            _ => false,
        }
    }

    proof fn lemma_describes_grows(items: Seq<RegistryItem>, more: Seq<RegistryItem>, c: CompoundType) {
        if let CompoundType::Array(element_type, mutable) = c {
            Field::lemma_describes_grows(items, more, FieldType { element_type, mutable });
        }
    }

    open spec fn new_entries() -> nat {
        Field::new_entries()
    }

    fn rec_group_ty(types: &mut TypeRegistry) -> (r: Result<CompoundType, RegistryError>) {
        match Field::rec_group_ty(types) {
            Ok(f) => Ok(CompoundType::Array(f.element_type, f.mutable)),
            Err(e) => Err(e),
        }
    }
}

impl<Params: RegTypeList<ValType>, Results: RegTypeList<ValType>> TRecGroupType<CompoundType> for TFunc<
    Params,
    Results,
> {
    open spec fn describes(items: Seq<RegistryItem>, c: CompoundType) -> bool {
        match c {
            CompoundType::Function(params, results) => Params::describes_each(items, params@)
                && Results::describes_each(items, results@),
            _ => false,
        }
    }

    proof fn lemma_describes_grows(items: Seq<RegistryItem>, more: Seq<RegistryItem>, c: CompoundType) {
        if let CompoundType::Function(params, results) = c {
            Params::lemma_each_grows(items, more, params@);
            Results::lemma_each_grows(items, more, results@);
        }
    }

    open spec fn new_entries() -> nat {
        Params::new_entries() + Results::new_entries()
    }

    fn rec_group_ty(types: &mut TypeRegistry) -> (r: Result<CompoundType, RegistryError>) {
        let ghost start = types.items();
        let params = match Params::register_each(types) {
            Ok(p) => p,
            Err(e) => return Err(e),
        };
        let ghost mid = types.items();
        let results = match Results::register_each(types) {
            Ok(r) => r,
            Err(e) => {
                proof {
                    lemma_extends_trans(start, mid, types.items());
                }
                return Err(e);
            },
        };
        proof {
            lemma_extends_trans(start, mid, types.items());
            Params::lemma_each_grows(mid, types.items(), params@);
        }
        Ok(CompoundType::Function(params, results))
    }
}

/// The entry at `i` stands for a compound type that `C` describes.
pub open spec fn index_describes<C: TRecGroupType<CompoundType>>(
    items: Seq<RegistryItem>,
    i: u32,
) -> bool {
    exists|c: CompoundType| entry_type(items, i as int) == Some(c@) && #[trigger] C::describes(items, c)
}

proof fn lemma_index_describes_grows<C: TRecGroupType<CompoundType>>(
    items: Seq<RegistryItem>,
    more: Seq<RegistryItem>,
    i: u32,
)
    requires
        index_describes::<C>(items, i),
        extends(items, more),
    ensures
        index_describes::<C>(more, i),
{
    let c = choose|c: CompoundType| entry_type(items, i as int) == Some(c@) && #[trigger] C::describes(items, c);
    C::lemma_describes_grows(items, more, c);
    assert(more[i as int] == items[i as int]);
    assert(entry_type(more, i as int) == Some(c@));
}

/// Registers the compound type that `C` describes; gives its index.
pub fn register_compound<C: TRecGroupType<CompoundType>>(types: &mut TypeRegistry) -> (r: Result<
    u32,
    RegistryError,
>)
    requires
        old(types).well_formed(),
    ensures
        final(types).well_formed(),
        extends(old(types).items(), final(types).items()),
        final(types).items().len() <= old(types).items().len() + C::new_entries() + 1,
        old(types).items().len() + C::new_entries() + 1 <= u32::MAX ==> r is Ok,
        r matches Ok(i) ==> index_describes::<C>(final(types).items(), i),
{
    let ghost start = types.items();
    let c = match C::rec_group_ty(types) {
        Ok(c) => c,
        Err(e) => return Err(e),
    };
    let ghost mid = types.items();
    let ghost cv = c;
    let ghost key = compound_key(mid, cv@);
    let ghost mid_keys = types.keys();
    let r = types.register_compound_type::<u32>(c);
    proof {
        lemma_extends_trans(start, mid, types.items());
        C::lemma_describes_grows(mid, types.items(), cv);
        lemma_with_key_index(mid_keys, key);
        if let Ok(i) = r {
            assert(entry_type(types.items(), i as int) == Some(cv@));
        }
    }
    r
}

/// `h` is the concrete heap type at an entry that stands for a compound type
/// that `C` describes.
pub open spec fn heap_describes<C: TRecGroupType<CompoundType>>(
    items: Seq<RegistryItem>,
    h: HeapType,
) -> bool {
    match h {
        HeapType::Concrete(i) => index_describes::<C>(items, i),
        _ => false,
    }
}

proof fn lemma_heap_describes_grows<C: TRecGroupType<CompoundType>>(
    items: Seq<RegistryItem>,
    more: Seq<RegistryItem>,
    h: HeapType,
)
    requires
        heap_describes::<C>(items, h),
        extends(items, more),
    ensures
        heap_describes::<C>(more, h),
{
    if let HeapType::Concrete(i) = h {
        lemma_index_describes_grows::<C>(items, more, i);
    }
}

fn register_heap<C: TRecGroupType<CompoundType>>(types: &mut TypeRegistry) -> (r: Result<
    HeapType,
    RegistryError,
>)
    requires
        old(types).well_formed(),
    ensures
        final(types).well_formed(),
        extends(old(types).items(), final(types).items()),
        final(types).items().len() <= old(types).items().len() + C::new_entries() + 1,
        old(types).items().len() + C::new_entries() + 1 <= u32::MAX ==> r is Ok,
        r matches Ok(h) ==> heap_describes::<C>(final(types).items(), h),
{
    match register_compound::<C>(types) {
        Ok(i) => Ok(HeapType::Concrete(i)),
        Err(e) => Err(e),
    }
}

impl<Fields: RegTypeList<FieldType>> TRecGroupType<u32> for TStruct<Fields> {
    open spec fn describes(items: Seq<RegistryItem>, i: u32) -> bool {
        index_describes::<Self>(items, i)
    }

    proof fn lemma_describes_grows(items: Seq<RegistryItem>, more: Seq<RegistryItem>, i: u32) {
        lemma_index_describes_grows::<Self>(items, more, i);
    }

    open spec fn new_entries() -> nat {
        <Self as TRecGroupType<CompoundType>>::new_entries() + 1
    }

    fn rec_group_ty(types: &mut TypeRegistry) -> (r: Result<u32, RegistryError>) {
        register_compound::<Self>(types)
    }
}

impl<Fields: RegTypeList<FieldType>> TRecGroupType<HeapType> for TStruct<Fields> {
    open spec fn describes(items: Seq<RegistryItem>, h: HeapType) -> bool {
        heap_describes::<Self>(items, h)
    }

    proof fn lemma_describes_grows(items: Seq<RegistryItem>, more: Seq<RegistryItem>, h: HeapType) {
        lemma_heap_describes_grows::<Self>(items, more, h);
    }

    open spec fn new_entries() -> nat {
        <Self as TRecGroupType<CompoundType>>::new_entries() + 1
    }

    fn rec_group_ty(types: &mut TypeRegistry) -> (r: Result<HeapType, RegistryError>) {
        register_heap::<Self>(types)
    }
}

impl<Field: TRecGroupType<FieldType>> TRecGroupType<u32> for TArray<Field> {
    open spec fn describes(items: Seq<RegistryItem>, i: u32) -> bool {
        index_describes::<Self>(items, i)
    }

    proof fn lemma_describes_grows(items: Seq<RegistryItem>, more: Seq<RegistryItem>, i: u32) {
        lemma_index_describes_grows::<Self>(items, more, i);
    }

    open spec fn new_entries() -> nat {
        <Self as TRecGroupType<CompoundType>>::new_entries() + 1
    }

    fn rec_group_ty(types: &mut TypeRegistry) -> (r: Result<u32, RegistryError>) {
        register_compound::<Self>(types)
    }
}

impl<Field: TRecGroupType<FieldType>> TRecGroupType<HeapType> for TArray<Field> {
    open spec fn describes(items: Seq<RegistryItem>, h: HeapType) -> bool {
        heap_describes::<Self>(items, h)
    }

    proof fn lemma_describes_grows(items: Seq<RegistryItem>, more: Seq<RegistryItem>, h: HeapType) {
        lemma_heap_describes_grows::<Self>(items, more, h);
    }

    open spec fn new_entries() -> nat {
        <Self as TRecGroupType<CompoundType>>::new_entries() + 1
    }

    fn rec_group_ty(types: &mut TypeRegistry) -> (r: Result<HeapType, RegistryError>) {
        register_heap::<Self>(types)
    }
}

impl<Params: RegTypeList<ValType>, Results: RegTypeList<ValType>> TRecGroupType<u32> for TFunc<
    Params,
    Results,
> {
    open spec fn describes(items: Seq<RegistryItem>, i: u32) -> bool {
        index_describes::<Self>(items, i)
    }

    proof fn lemma_describes_grows(items: Seq<RegistryItem>, more: Seq<RegistryItem>, i: u32) {
        lemma_index_describes_grows::<Self>(items, more, i);
    }

    open spec fn new_entries() -> nat {
        <Self as TRecGroupType<CompoundType>>::new_entries() + 1
    }

    fn rec_group_ty(types: &mut TypeRegistry) -> (r: Result<u32, RegistryError>) {
        register_compound::<Self>(types)
    }
}

impl<Params: RegTypeList<ValType>, Results: RegTypeList<ValType>> TRecGroupType<HeapType> for TFunc<
    Params,
    Results,
> {
    open spec fn describes(items: Seq<RegistryItem>, h: HeapType) -> bool {
        heap_describes::<Self>(items, h)
    }

    proof fn lemma_describes_grows(items: Seq<RegistryItem>, more: Seq<RegistryItem>, h: HeapType) {
        lemma_heap_describes_grows::<Self>(items, more, h);
    }

    open spec fn new_entries() -> nat {
        <Self as TRecGroupType<CompoundType>>::new_entries() + 1
    }

    fn rec_group_ty(types: &mut TypeRegistry) -> (r: Result<HeapType, RegistryError>) {
        register_heap::<Self>(types)
    }
}

} // verus!
