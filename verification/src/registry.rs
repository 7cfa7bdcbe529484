//! Insertion-ordered registries: each key is given the index at which it was
//! first registered, and that index never changes afterwards.
//!
//! Keys are strings. A registry is modelled as the sequence of its
//! `(key, value)` entries in registration order; no key occurs twice.

use vstd::prelude::*;
use indexmap::IndexMap;
use crate::index_map_specs::{
    index_map_keys, key_map_entry_insert, key_map_entry_or_insert, key_map_get_index,
    key_map_get_index_of, key_map_keys, key_map_new,
};

verus! {

/// The entries of a registry, in registration order.
pub type Entries<V> = Seq<(Seq<char>, V)>;

/// The keys of some entries, in order.
pub open spec fn keys_of<V>(entries: Entries<V>) -> Seq<Seq<char>> {
    entries.map_values(|e: (Seq<char>, V)| e.0)
}

/// Does some entry have this key?
pub open spec fn has_key<V>(entries: Entries<V>, key: Seq<char>) -> bool {
    exists|i: int| 0 <= i < entries.len() && #[trigger] entries[i].0 == key
}

/// No key occurs in two entries.
pub open spec fn distinct_keys<V>(entries: Entries<V>) -> bool {
    forall|i: int, j: int|
        0 <= i < entries.len() && 0 <= j < entries.len() && i != j ==> #[trigger] entries[i].0
            != #[trigger] entries[j].0
}

/// The position of the entry with this key (meaningful when there is one).
pub open spec fn index_of_key<V>(entries: Entries<V>, key: Seq<char>) -> int {
    choose|i: int| 0 <= i < entries.len() && #[trigger] entries[i].0 == key
}

/// The entries after registering `key` with `value` when the key is new; an
/// existing key keeps its entry and its value.
pub open spec fn registered<V>(entries: Entries<V>, key: Seq<char>, value: V) -> Entries<V> {
    if has_key(entries, key) {
        entries
    } else {
        entries.push((key, value))
    }
}

/// The entries after registering `key` with `value`, replacing the value of
/// an existing key in place.
pub open spec fn overridden<V>(entries: Entries<V>, key: Seq<char>, value: V) -> Entries<V> {
    if has_key(entries, key) {
        entries.update(index_of_key(entries, key), (key, value))
    } else {
        entries.push((key, value))
    }
}

/// An integer type that a registry index can be converted into.
pub trait RegistryIndex: Sized {
    /// Can the index `i` be represented in this type?
    spec fn fits_index(i: int) -> bool;

    /// The index that this value represents.
    spec fn index_value(&self) -> int;

    /// Converts a registry index, or gives `None` when it does not fit.
    fn from_index(i: usize) -> (r: Option<Self>)
        ensures
            match r {
                Some(n) => Self::fits_index(i as int) && n.index_value() == i,
                None => !Self::fits_index(i as int),
            },
    ;
}

impl RegistryIndex for usize {
    open spec fn fits_index(i: int) -> bool {
        0 <= i <= usize::MAX
    }

    open spec fn index_value(&self) -> int {
        *self as int
    }

    fn from_index(i: usize) -> (r: Option<Self>) {
        Some(i)
    }
}

impl RegistryIndex for u64 {
    open spec fn fits_index(i: int) -> bool {
        0 <= i <= u64::MAX
    }

    open spec fn index_value(&self) -> int {
        *self as int
    }

    fn from_index(i: usize) -> (r: Option<Self>) {
        if i as u128 <= u64::MAX as u128 {
            Some(i as u64)
        } else {
            None
        }
    }
}

impl RegistryIndex for u32 {
    open spec fn fits_index(i: int) -> bool {
        0 <= i <= u32::MAX
    }

    open spec fn index_value(&self) -> int {
        *self as int
    }

    fn from_index(i: usize) -> (r: Option<Self>) {
        if i <= u32::MAX as usize {
            Some(i as u32)
        } else {
            None
        }
    }
}

impl RegistryIndex for i32 {
    open spec fn fits_index(i: int) -> bool {
        0 <= i <= i32::MAX
    }

    open spec fn index_value(&self) -> int {
        *self as int
    }

    fn from_index(i: usize) -> (r: Option<Self>) {
        if i <= i32::MAX as usize {
            Some(i as i32)
        } else {
            None
        }
    }
}

/// Errors that registering can give.
#[derive(Debug, Clone, Copy, PartialEq, Eq)]
pub enum RegistryError {
    /// The item's index does not fit in the requested integer type.
    IndexOutOfBounds,
}

/// The result of asking for the index `i` as an `N`.
pub open spec fn index_result<N: RegistryIndex>(r: Result<N, RegistryError>, i: int) -> bool {
    match r {
        Ok(n) => N::fits_index(i) && n.index_value() == i,
        Err(e) => !N::fits_index(i) && e == RegistryError::IndexOutOfBounds,
    }
}

/// A registry of string keys with values of type `V`.
pub struct MapRegistry<V> {
    keys: IndexMap<String, ()>,
    values: Vec<V>,
}

impl<V> View for MapRegistry<V> {
    type V = Entries<V>;

    closed spec fn view(&self) -> Entries<V> {
        Seq::new(self.values@.len(), |i: int| (index_map_keys(self.keys)[i], self.values@[i]))
    }
}

impl<V> MapRegistry<V> {
    /// The registry's invariant: one value per key, and no key twice.
    pub closed spec fn wf(&self) -> bool {
        &&& index_map_keys(self.keys).len() == self.values@.len()
        &&& index_map_keys(self.keys).no_duplicates()
    }

    proof fn lemma_view(&self)
        requires
            self.wf(),
        ensures
            keys_of(self@) == index_map_keys(self.keys),
            self@.len() == self.values@.len(),
            distinct_keys(self@),
            forall|key: Seq<char>|
                has_key(self@, key) <==> index_map_keys(self.keys).contains(key),
    {
        assert(keys_of(self@) =~= index_map_keys(self.keys));
        assert forall|key: Seq<char>|
            has_key(self@, key) <==> index_map_keys(self.keys).contains(key) by {
            if index_map_keys(self.keys).contains(key) {
                let i = choose|i: int|
                    0 <= i < index_map_keys(self.keys).len() && index_map_keys(self.keys)[i]
                        == key;
                assert(self@[i].0 == key);
            }
        }
    }

    /// Makes an empty registry.
    pub fn default() -> (r: Self)
        ensures
            r.wf(),
            r@ == Seq::<(Seq<char>, V)>::empty(),
    {
        let r = MapRegistry { keys: key_map_new(), values: Vec::new() };
        assert(r@ =~= Seq::<(Seq<char>, V)>::empty());
        r
    }

    /// The number of entries.
    pub fn len(&self) -> (r: usize)
        requires
            self.wf(),
        ensures
            r == self@.len(),
    {
        proof {
            self.lemma_view();
        }
        self.values.len()
    }

    /// The keys in registration order.
    pub fn registry(&self) -> (r: &IndexMap<String, ()>)
        requires
            self.wf(),
        ensures
            index_map_keys(*r) == keys_of(self@),
    {
        proof {
            self.lemma_view();
        }
        &self.keys
    }

    /// The value registered at index `i`.
    pub fn value_at(&self, i: usize) -> (r: &V)
        requires
            self.wf(),
            i < self@.len(),
        ensures
            *r == self@[i as int].1,
    {
        proof {
            self.lemma_view();
        }
        &self.values[i]
    }

    /// Registers `key` with `value` unless the key is already there, and
    /// gives the key's index.
    pub fn register_entry<N: RegistryIndex>(&mut self, key: String, value: V) -> (r: Result<
        N,
        RegistryError,
    >)
        requires
            old(self).wf(),
        ensures
            final(self).wf(),
            final(self)@ == registered(old(self)@, key@, value),
            index_result(r, index_of_key(final(self)@, key@)),
    {
        proof {
            self.lemma_view();
        }
        let ghost old_view = self@;
        let ghost old_keys = index_map_keys(self.keys);
        let found = key_map_get_index_of(&self.keys, &key);
        let key2 = key.clone();
        key_map_entry_or_insert(&mut self.keys, key);
        if found.is_none() {
            self.values.push(value);
        }
        proof {
            self.lemma_view();
            if has_key(old_view, key2@) {
                assert(self@ =~= old_view);
            } else {
                assert(self@ =~= old_view.push((key2@, value)));
            }
        }
        proof {
            let keys = index_map_keys(self.keys);
            if !old_keys.contains(key2@) {
                assert(keys[keys.len() - 1] == key2@);
            }
            assert(keys.contains(key2@));
        }
        self.index_of(&key2)
    }

    /// Registers `key` with `value`, replacing the value of an existing key
    /// in place, and gives the key's index.
    pub fn override_entry<N: RegistryIndex>(&mut self, key: String, value: V) -> (r: Result<
        N,
        RegistryError,
    >)
        requires
            old(self).wf(),
        ensures
            final(self).wf(),
            final(self)@ == overridden(old(self)@, key@, value),
            index_result(r, index_of_key(final(self)@, key@)),
    {
        proof {
            self.lemma_view();
        }
        let ghost old_view = self@;
        let ghost old_keys = index_map_keys(self.keys);
        let found = key_map_get_index_of(&self.keys, &key);
        let key2 = key.clone();
        key_map_entry_insert(&mut self.keys, key);
        match found {
            Some(i) => {
                self.values.set(i, value);
                proof {
                            self.lemma_view();
                    assert(old_view[i as int].0 == key2@);
                    assert(index_of_key(old_view, key2@) == i) by {
                        let j = index_of_key(old_view, key2@);
                        assert(old_view[j].0 == key2@);
                    }
                    assert(self@ =~= old_view.update(i as int, (key2@, value)));
                }
            },
            None => {
                self.values.push(value);
                proof {
                            self.lemma_view();
                    assert(self@ =~= old_view.push((key2@, value)));
                }
            },
        }
        proof {
            let keys = index_map_keys(self.keys);
            if !old_keys.contains(key2@) {
                assert(keys[keys.len() - 1] == key2@);
            }
            assert(keys.contains(key2@));
        }
        self.index_of(&key2)
    }

    /// No key occurs twice in a well-formed registry.
    pub proof fn lemma_distinct_keys(&self)
        requires
            self.wf(),
        ensures
            distinct_keys(self@),
    {
        self.lemma_view();
    }

    /// Takes the registry apart into its keys and its values, both in
    /// registration order.
    pub fn take(self) -> (r: (Vec<String>, Vec<V>))
        requires
            self.wf(),
        ensures
            r.0@.len() == self@.len(),
            r.1@.len() == self@.len(),
            forall|i: int| 0 <= i < self@.len() ==> #[trigger] r.0@[i]@ == self@[i].0,
            forall|i: int| 0 <= i < self@.len() ==> #[trigger] r.1@[i] == self@[i].1,
    {
        proof {
            self.lemma_view();
        }
        let keys = key_map_keys(&self.keys);
        (keys, self.values)
    }

    /// The key registered at index `i`.
    pub fn key_at(&self, i: usize) -> (r: &String)
        requires
            self.wf(),
            i < self@.len(),
        ensures
            r@ == self@[i as int].0,
    {
        proof {
            self.lemma_view();
        }
        let k = key_map_get_index(&self.keys, i);
        k.unwrap()
    }

    /// The index of `key`, if it is registered.
    pub fn get_index_of(&self, key: &String) -> (r: Option<usize>)
        requires
            self.wf(),
        ensures
            r is Some <==> has_key(self@, key@),
            r matches Some(i) ==> i == index_of_key(self@, key@),
    {
        proof {
            self.lemma_view();
        }
        match key_map_get_index_of(&self.keys, key) {
            Some(i) => {
                proof {
                    let j = index_of_key(self@, key@);
                    assert(self@[j].0 == key@);
                    assert(self@[i as int].0 == key@);
                }
                Some(i)
            },
            None => None,
        }
    }

    /// The index of `key`, which must be registered, as an `N`.
    fn index_of<N: RegistryIndex>(&self, key: &String) -> (r: Result<N, RegistryError>)
        requires
            self.wf(),
            has_key(self@, key@),
        ensures
            index_result(r, index_of_key(self@, key@)),
    {
        proof {
            self.lemma_view();
        }
        match key_map_get_index_of(&self.keys, key) {
            Some(i) => {
                proof {
                    let j = index_of_key(self@, key@);
                    assert(self@[j].0 == key@);
                    assert(self@[i as int].0 == key@);
                }
                match N::from_index(i) {
                    Some(n) => Ok(n),
                    None => Err(RegistryError::IndexOutOfBounds),
                }
            },
            None => {
                proof {
                    let j = index_of_key(self@, key@);
                    assert(keys_of(self@)[j] == key@);
                }
                Err(RegistryError::IndexOutOfBounds)
            },
        }
    }
}

/// With distinct keys, the entry that holds a key is at its position.
pub proof fn lemma_index_of_key<V>(entries: Entries<V>, key: Seq<char>, i: int)
    requires
        distinct_keys(entries),
        0 <= i < entries.len(),
        entries[i].0 == key,
    ensures
        index_of_key(entries, key) == i,
{
    let j = index_of_key(entries, key);
    assert(entries[j].0 == key);
}

/// Registering, with or without replacing, keeps the keys distinct, and the
/// registered key is then present.
pub proof fn law_registration_keeps_keys_distinct<V>(entries: Entries<V>, key: Seq<char>, value: V)
    requires
        distinct_keys(entries),
    ensures
        distinct_keys(registered(entries, key, value)),
        distinct_keys(overridden(entries, key, value)),
        has_key(registered(entries, key, value), key),
        has_key(overridden(entries, key, value), key),
{
    if has_key(entries, key) {
        let i = index_of_key(entries, key);
        assert(entries[i].0 == key);
        let o = overridden(entries, key, value);
        assert(o[i].0 == key);
        assert forall|a: int, b: int| 0 <= a < o.len() && 0 <= b < o.len() && a != b implies
            #[trigger] o[a].0 != #[trigger] o[b].0 by {
            assert(o[a].0 == entries[a].0);
            assert(o[b].0 == entries[b].0);
        }
    } else {
        let r = entries.push((key, value));
        assert(r[entries.len() as int].0 == key);
        assert forall|a: int, b: int| 0 <= a < r.len() && 0 <= b < r.len() && a != b implies
            #[trigger] r[a].0 != #[trigger] r[b].0 by {
            if a < entries.len() && b < entries.len() {
                assert(r[a] == entries[a]);
                assert(r[b] == entries[b]);
            } else if a < entries.len() {
                assert(r[a] == entries[a]);
            } else if b < entries.len() {
                assert(r[b] == entries[b]);
            }
        }
    }
}

/// Indices never move: a key that was registered keeps its index when any key
/// is registered, with or without replacing, and a new key is given the next
/// index, the number of entries before it.
pub proof fn law_indices_are_stable<V>(
    entries: Entries<V>,
    key: Seq<char>,
    value: V,
    other: Seq<char>,
)
    requires
        distinct_keys(entries),
        has_key(entries, other),
    ensures
        index_of_key(registered(entries, key, value), other) == index_of_key(entries, other),
        index_of_key(overridden(entries, key, value), other) == index_of_key(entries, other),
        !has_key(entries, key) ==> index_of_key(registered(entries, key, value), key)
            == entries.len(),
        !has_key(entries, key) ==> index_of_key(overridden(entries, key, value), key)
            == entries.len(),
{
    law_registration_keeps_keys_distinct(entries, key, value);
    let i = index_of_key(entries, other);
    assert(entries[i].0 == other);
    let r = registered(entries, key, value);
    let o = overridden(entries, key, value);
    if has_key(entries, key) {
        let k = index_of_key(entries, key);
        assert(entries[k].0 == key);
        assert(o[i].0 == other);
        lemma_index_of_key(o, other, i);
        lemma_index_of_key(r, other, i);
    } else {
        assert(r[i] == entries[i]);
        lemma_index_of_key(r, other, i);
        lemma_index_of_key(o, other, i);
        assert(r[entries.len() as int].0 == key);
        lemma_index_of_key(r, key, entries.len() as int);
        lemma_index_of_key(o, key, entries.len() as int);
    }
}

/// Registering never replaces a value; registering with replacement puts the
/// new value in the key's entry and keeps the number of entries when the key
/// was there.
pub proof fn law_values_on_registration<V>(entries: Entries<V>, key: Seq<char>, value: V)
    requires
        distinct_keys(entries),
    ensures
        has_key(entries, key) ==> registered(entries, key, value) == entries,
        overridden(entries, key, value)[index_of_key(overridden(entries, key, value), key)] == (
        key, value),
        has_key(entries, key) ==> overridden(entries, key, value).len() == entries.len(),
        has_key(entries, key) ==> forall|j: int|
            0 <= j < entries.len() && entries[j].0 != key ==> #[trigger] overridden(
                entries,
                key,
                value,
            )[j] == entries[j],
{
    law_registration_keeps_keys_distinct(entries, key, value);
    let o = overridden(entries, key, value);
    if has_key(entries, key) {
        let k = index_of_key(entries, key);
        assert(entries[k].0 == key);
        assert(o[k] == (key, value));
        lemma_index_of_key(o, key, k);
    } else {
        assert(o[entries.len() as int] == (key, value));
        lemma_index_of_key(o, key, entries.len() as int);
    }
}

/// Registering the same key again, with any value and with or without
/// replacing, gives the same index as the first registration; registering it
/// again without replacing changes nothing.
pub proof fn law_register_again<V>(entries: Entries<V>, key: Seq<char>, first: V, second: V)
    requires
        distinct_keys(entries),
    ensures
        registered(registered(entries, key, first), key, second) == registered(entries, key, first),
        index_of_key(overridden(registered(entries, key, first), key, second), key)
            == index_of_key(registered(entries, key, first), key),
        index_of_key(overridden(overridden(entries, key, first), key, second), key)
            == index_of_key(overridden(entries, key, first), key),
{
    law_registration_keeps_keys_distinct(entries, key, first);
    let r = registered(entries, key, first);
    let o = overridden(entries, key, first);
    law_indices_are_stable(r, key, second, key);
    law_indices_are_stable(o, key, second, key);
}

/// The kind of value that a registry holds.
pub trait RegistryType {
    type Value;
}

/// A registry: each key is given the index at which it was first registered.
pub trait Registry: RegistryType + Sized {
    /// The entries, in registration order.
    spec fn entries(&self) -> Entries<Self::Value>;

    /// The registry's invariant.
    spec fn well_formed(&self) -> bool;

    /// No key occurs twice in a well-formed registry.
    proof fn lemma_entries_distinct(&self)
        requires
            self.well_formed(),
        ensures
            distinct_keys(self.entries()),
    ;

    /// The underlying registry.
    fn registry(&self) -> (r: &MapRegistry<Self::Value>)
        requires
            self.well_formed(),
        ensures
            r.wf(),
            r@ == self.entries(),
    ;

    /// Registers `key` with `value` unless the key is already there; gives
    /// the key's index. An existing value is not replaced.
    fn register<N: RegistryIndex>(&mut self, key: String, value: Self::Value) -> (r: Result<
        N,
        RegistryError,
    >)
        requires
            old(self).well_formed(),
        ensures
            final(self).well_formed(),
            final(self).entries() == registered(old(self).entries(), key@, value),
            index_result(r, index_of_key(final(self).entries(), key@)),
    ;

    /// Registers `key` with `value`, replacing the value of an existing key
    /// without moving it; gives the key's index.
    fn register_override<N: RegistryIndex>(&mut self, key: String, value: Self::Value) -> (r:
        Result<N, RegistryError>)
        requires
            old(self).well_formed(),
        ensures
            final(self).well_formed(),
            final(self).entries() == overridden(old(self).entries(), key@, value),
            index_result(r, index_of_key(final(self).entries(), key@)),
    ;
}

/// A registry whose items have a default value.
pub trait RegistryDefault: Registry {
    /// The value that `register_default` registers.
    spec fn default_value() -> Self::Value;

    /// Registers `key` with the default value unless it is already there;
    /// gives the key's index.
    fn register_default<N: RegistryIndex>(&mut self, key: String) -> (r: Result<N, RegistryError>)
        requires
            old(self).well_formed(),
        ensures
            final(self).well_formed(),
            final(self).entries() == registered(old(self).entries(), key@, Self::default_value()),
            index_result(r, index_of_key(final(self).entries(), key@)),
    ;
}

impl<V> RegistryType for MapRegistry<V> {
    type Value = V;
}

impl<V> Registry for MapRegistry<V> {
    open spec fn entries(&self) -> Entries<V> {
        self@
    }

    open spec fn well_formed(&self) -> bool {
        self.wf()
    }

    proof fn lemma_entries_distinct(&self) {
        self.lemma_distinct_keys();
    }

    fn registry(&self) -> (r: &MapRegistry<V>) {
        self
    }

    fn register<N: RegistryIndex>(&mut self, key: String, value: V) -> (r: Result<N, RegistryError>) {
        self.register_entry(key, value)
    }

    fn register_override<N: RegistryIndex>(&mut self, key: String, value: V) -> (r: Result<
        N,
        RegistryError,
    >) {
        self.override_entry(key, value)
    }
}

/// A registry of keys alone.
pub struct SetRegistry(MapRegistry<()>);

impl SetRegistry {
    /// Makes an empty registry.
    pub fn default() -> (r: Self)
        ensures
            r.well_formed(),
            r.entries() == Seq::<(Seq<char>, ())>::empty(),
    {
        SetRegistry(MapRegistry::default())
    }
}

impl RegistryType for SetRegistry {
    type Value = ();
}

impl Registry for SetRegistry {
    closed spec fn entries(&self) -> Entries<()> {
        self.0@
    }

    closed spec fn well_formed(&self) -> bool {
        self.0.wf()
    }

    proof fn lemma_entries_distinct(&self) {
        self.0.lemma_distinct_keys();
    }

    fn registry(&self) -> (r: &MapRegistry<()>) {
        &self.0
    }

    fn register<N: RegistryIndex>(&mut self, key: String, value: ()) -> (r: Result<N, RegistryError>) {
        self.0.register_entry(key, value)
    }

    fn register_override<N: RegistryIndex>(&mut self, key: String, value: ()) -> (r: Result<
        N,
        RegistryError,
    >) {
        self.0.override_entry(key, value)
    }
}

impl RegistryDefault for SetRegistry {
    open spec fn default_value() -> () {
        ()
    }

    fn register_default<N: RegistryIndex>(&mut self, key: String) -> (r: Result<N, RegistryError>) {
        self.0.register_entry(key, ())
    }
}

/// An item of a named registry: a type that names its key and whose value is
/// known when the program is compiled.
pub trait NamedRegistryItem<V> {
    /// The key under which this item is registered.
    spec fn item_name() -> Seq<char>;

    /// The value registered for this item.
    spec fn item_value() -> V;

    /// The key under which this item is registered.
    fn name() -> (r: String)
        ensures
            r@ == Self::item_name(),
    ;

    /// The value registered for this item.
    fn value() -> (r: V)
        ensures
            r == Self::item_value(),
    ;
}

/// An item of a named registry whose value can be replaced, computed from an
/// argument.
pub trait NamedRegistryItemOverride<V, A>: NamedRegistryItem<V> {
    /// The arguments for which a replacing value can be computed.
    spec fn override_allowed(arg: A) -> bool;

    /// The value that replaces the item's value for `arg`.
    spec fn override_value(arg: A) -> V;

    /// The value that replaces the item's value for `arg`.
    fn override_with(arg: A) -> (r: V)
        requires
            Self::override_allowed(arg),
        ensures
            r == Self::override_value(arg),
    ;
}

/// Names the items of a named registry.
pub trait NamedRegistrar: RegistryType + Sized {
    /// The key under which the item `T` is registered.
    fn name<T: NamedRegistryItem<Self::Value>>() -> (r: String)
        ensures
            r@ == T::item_name(),
    ;
}

impl<R: RegistryType> NamedRegistrar for R {
    fn name<T: NamedRegistryItem<R::Value>>() -> (r: String) {
        T::name()
    }
}

/// A registry whose keys name items (see [`NamedRegistryItem`]) and whose
/// values those items supply.
pub struct NamedRegistry<R: NamedRegistrar>(MapRegistry<R::Value>);

impl<R: NamedRegistrar> NamedRegistry<R> {
    /// The entries, in registration order.
    pub closed spec fn entries(&self) -> Entries<R::Value> {
        self.0@
    }

    /// The registry's invariant.
    pub closed spec fn well_formed(&self) -> bool {
        self.0.wf()
    }

    /// Makes an empty registry.
    pub fn default() -> (r: Self)
        ensures
            r.well_formed(),
            r.entries() == Seq::<(Seq<char>, R::Value)>::empty(),
    {
        NamedRegistry(MapRegistry::default())
    }

    /// No key occurs twice in a well-formed registry.
    pub proof fn lemma_named_distinct(&self)
        requires
            self.well_formed(),
        ensures
            distinct_keys(self.entries()),
    {
        self.0.lemma_distinct_keys();
    }

    /// The underlying registry.
    pub fn registry(&self) -> (r: &MapRegistry<R::Value>)
        requires
            self.well_formed(),
        ensures
            r.wf(),
            r@ == self.entries(),
    {
        &self.0
    }

    /// Takes the registry apart into its keys and its values, both in
    /// registration order.
    pub fn take(self) -> (r: (Vec<String>, Vec<R::Value>))
        requires
            self.well_formed(),
        ensures
            r.0@.len() == self.entries().len(),
            r.1@.len() == self.entries().len(),
            forall|i: int| 0 <= i < self.entries().len() ==> #[trigger] r.0@[i]@ == self.entries()[i].0,
            forall|i: int| 0 <= i < self.entries().len() ==> #[trigger] r.1@[i] == self.entries()[i].1,
    {
        self.0.take()
    }

    /// Registers `key` with `value` unless it is there already; gives its
    /// index.
    pub fn register_dyn<N: RegistryIndex>(&mut self, key: String, value: R::Value) -> (r: Result<
        N,
        RegistryError,
    >)
        requires
            old(self).well_formed(),
        ensures
            final(self).well_formed(),
            final(self).entries() == registered(old(self).entries(), key@, value),
            index_result(r, index_of_key(final(self).entries(), key@)),
    {
        self.0.register_entry(key, value)
    }

    /// Registers `key` with `value`, replacing its value in place if it is
    /// there already; gives its index.
    pub fn override_dyn<N: RegistryIndex>(&mut self, key: String, value: R::Value) -> (r: Result<
        N,
        RegistryError,
    >)
        requires
            old(self).well_formed(),
        ensures
            final(self).well_formed(),
            final(self).entries() == overridden(old(self).entries(), key@, value),
            index_result(r, index_of_key(final(self).entries(), key@)),
    {
        self.0.override_entry(key, value)
    }

    /// Registers the item `T` with its value unless it is there already;
    /// gives its index.
    pub fn register<T: NamedRegistryItem<R::Value>, N: RegistryIndex>(&mut self) -> (r: Result<
        N,
        RegistryError,
    >)
        requires
            old(self).well_formed(),
        ensures
            final(self).well_formed(),
            final(self).entries() == registered(old(self).entries(), T::item_name(), T::item_value()),
            index_result(r, index_of_key(final(self).entries(), T::item_name())),
    {
        let name = R::name::<T>();
        self.0.register_entry(name, T::value())
    }

    /// Registers the item `T` with the value that `arg` gives, replacing its
    /// value in place if it is there already; gives its index.
    pub fn register_override<T, N: RegistryIndex, A>(&mut self, arg: A) -> (r: Result<
        N,
        RegistryError,
    >) where T: NamedRegistryItem<R::Value> + NamedRegistryItemOverride<R::Value, A>
        requires
            old(self).well_formed(),
            T::override_allowed(arg),
        ensures
            final(self).well_formed(),
            final(self).entries() == overridden(
                old(self).entries(),
                T::item_name(),
                T::override_value(arg),
            ),
            index_result(r, index_of_key(final(self).entries(), T::item_name())),
    {
        let name = R::name::<T>();
        let value = T::override_with(arg);
        self.0.override_entry(name, value)
    }
}

} // verus!
