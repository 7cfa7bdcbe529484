//! Registries of the strings that a generated module uses.

use vstd::prelude::*;
use indexmap::IndexMap;
use crate::index_map_specs::{index_map_keys, key_map_keys};
use crate::wasm::registries::functions::WasmInstr;
use crate::registry::{
    has_key, keys_of, index_of_key, index_result, registered, Entries, MapRegistry, Registry,
    RegistryDefault, RegistryError, RegistryIndex, SetRegistry,
};

verus! {

/// The strings that are imported as globals, in registration order.
pub struct StringRegistry(SetRegistry);

impl StringRegistry {
    /// No string is registered twice.
    pub proof fn lemma_strings_distinct(&self)
        requires
            self.well_formed(),
        ensures
            self.strings().no_duplicates(),
    {
        self.0.lemma_entries_distinct();
        lemma_keys_distinct(self.0.entries());
    }

    /// The registered strings, in registration order.
    pub closed spec fn strings(&self) -> Seq<Seq<char>> {
        keys_of(self.0.entries())
    }

    /// The registry's invariant.
    pub closed spec fn well_formed(&self) -> bool {
        self.0.well_formed()
    }

    /// Makes an empty registry.
    pub fn default() -> (r: Self)
        ensures
            r.well_formed(),
            r.strings() == Seq::<Seq<char>>::empty(),
    {
        let r = StringRegistry(SetRegistry::default());
        assert(r.strings() =~= Seq::<Seq<char>>::empty());
        r
    }

    /// Registers `string` unless it is there already, and gives its index.
    pub fn register_default<N: RegistryIndex>(&mut self, string: String) -> (r: Result<
        N,
        RegistryError,
    >)
        requires
            old(self).well_formed(),
        ensures
            final(self).well_formed(),
            final(self).strings() == (if old(self).strings().contains(string@) {
                old(self).strings()
            } else {
                old(self).strings().push(string@)
            }),
            index_result(r, final(self).strings().index_of(string@)),
    {
        let ghost old_entries = self.0.entries();
        let ghost key = string@;
        proof {
            self.0.lemma_entries_distinct();
        }
        let r = self.0.register_default(string);
        proof {
            lemma_registered_strings(old_entries, key);
        }
        r
    }

    /// The registered strings, in registration order.
    pub fn registry(&self) -> (r: &IndexMap<String, ()>)
        requires
            self.well_formed(),
        ensures
            index_map_keys(*r) == self.strings(),
    {
        self.0.registry().registry()
    }

    /// The strings to import, in order: each is imported as an immutable
    /// global holding a host reference, so its index is its global's index.
    pub fn finish(self) -> (r: Vec<String>)
        requires
            self.well_formed(),
        ensures
            r@.len() == self.strings().len(),
            forall|i: int| 0 <= i < r@.len() ==> #[trigger] r@[i]@ == self.strings()[i],
    {
        key_map_keys(self.registry())
    }

    /// The index of `string`, if it is registered.
    pub fn index_of(&self, string: &String) -> (r: Option<usize>)
        requires
            self.well_formed(),
        ensures
            r is Some <==> self.strings().contains(string@),
            r matches Some(i) ==> i < self.strings().len() && self.strings()[i as int] == string@,
    {
        let reg = self.0.registry();
        let r = reg.get_index_of(string);
        proof {
            let e = self.0.entries();
            assert(keys_of(e).len() == e.len());
            if keys_of(e).contains(string@) {
                let j = choose|j: int| 0 <= j < keys_of(e).len() && keys_of(e)[j] == string@;
                assert(e[j].0 == string@);
            }
            if let Some(i) = r {
                let j = index_of_key(e, string@);
                assert(e[j].0 == string@);
                assert(keys_of(e)[i as int] == string@);
            }
        }
        r
    }

    /// No string is registered twice.
    pub proof fn lemma_distinct(&self)
        requires
            self.well_formed(),
        ensures
            self.strings().no_duplicates(),
    {
        self.0.lemma_entries_distinct();
        let ks = self.strings();
        let e = self.0.entries();
        assert forall|a: int, b: int| 0 <= a < ks.len() && 0 <= b < ks.len() && a != b implies ks[a]
            != ks[b] by {
            assert(ks[a] == e[a].0);
            assert(ks[b] == e[b].0);
        }
    }
}

/// The strings after registering each of `adds` in turn.
pub open spec fn with_strings(strings: Seq<Seq<char>>, adds: Seq<Seq<char>>) -> Seq<Seq<char>>
    decreases adds.len(),
{
    if adds.len() == 0 {
        strings
    } else {
        let before = with_strings(strings, adds.drop_last());
        if before.contains(adds.last()) {
            before
        } else {
            before.push(adds.last())
        }
    }
}

/// The start function's instructions that put each of `tabled` in the
/// strings table `table`, in order: each string's global (its index among
/// `strings`) is read and the table grown by one with it.
pub open spec fn table_strings_instrs(
    strings: Seq<Seq<char>>,
    tabled: Seq<Seq<char>>,
    table: u32,
) -> Seq<WasmInstr>
    decreases tabled.len(),
{
    if tabled.len() == 0 {
        Seq::empty()
    } else {
        table_strings_instrs(strings, tabled.drop_last(), table) + seq![
            WasmInstr::GlobalGet(strings.index_of(tabled.last()) as u32),
            WasmInstr::I32Const(1),
            WasmInstr::TableGrow(table),
            WasmInstr::Drop,
        ]
    }
}

/// A string keeps its index as strings are appended after it.
proof fn lemma_index_kept(a: Seq<Seq<char>>, b: Seq<Seq<char>>, s: Seq<char>)
    requires
        a.contains(s),
        b.no_duplicates(),
        a.len() <= b.len(),
        forall|i: int| 0 <= i < a.len() ==> #[trigger] b[i] == a[i],
    ensures
        b.index_of(s) == a.index_of(s),
{
    a.index_of_first_ensures(s);
    let i = a.index_of(s);
    assert(b[i] == s);
    assert(b.contains(s));
    b.index_of_first_ensures(s);
    let j = b.index_of(s);
    assert(b[j] == s);
}

/// The strings that are put in the strings table when the module starts, in
/// registration order.
pub struct TabledStringRegistry(SetRegistry);

impl TabledStringRegistry {
    /// No string is registered twice.
    pub proof fn lemma_strings_distinct(&self)
        requires
            self.well_formed(),
        ensures
            self.strings().no_duplicates(),
    {
        self.0.lemma_entries_distinct();
        lemma_keys_distinct(self.0.entries());
    }

    /// The registered strings, in registration order.
    pub closed spec fn strings(&self) -> Seq<Seq<char>> {
        keys_of(self.0.entries())
    }

    /// The registry's invariant.
    pub closed spec fn well_formed(&self) -> bool {
        self.0.well_formed()
    }

    /// Makes an empty registry.
    pub fn default() -> (r: Self)
        ensures
            r.well_formed(),
            r.strings() == Seq::<Seq<char>>::empty(),
    {
        let r = TabledStringRegistry(SetRegistry::default());
        assert(r.strings() =~= Seq::<Seq<char>>::empty());
        r
    }

    /// Registers `string` unless it is there already, and gives its index.
    pub fn register_default<N: RegistryIndex>(&mut self, string: String) -> (r: Result<
        N,
        RegistryError,
    >)
        requires
            old(self).well_formed(),
        ensures
            final(self).well_formed(),
            final(self).strings() == (if old(self).strings().contains(string@) {
                old(self).strings()
            } else {
                old(self).strings().push(string@)
            }),
            index_result(r, final(self).strings().index_of(string@)),
    {
        let ghost old_entries = self.0.entries();
        let ghost key = string@;
        proof {
            self.0.lemma_entries_distinct();
        }
        let r = self.0.register_default(string);
        proof {
            lemma_registered_strings(old_entries, key);
        }
        r
    }

    /// The registered strings, in registration order.
    pub fn registry(&self) -> (r: &IndexMap<String, ()>)
        requires
            self.well_formed(),
        ensures
            index_map_keys(*r) == self.strings(),
    {
        self.0.registry().registry()
    }
}

impl TabledStringRegistry {
    /// Registers each tabled string, in order, among the imported strings and
    /// gives the start function's instructions that put them in the strings
    /// table `strings_table`.
    pub fn finish(self, strings: &mut StringRegistry, strings_table: u32) -> (r: Result<
        Vec<WasmInstr>,
        RegistryError,
    >)
        requires
            self.well_formed(),
            old(strings).well_formed(),
            old(strings).strings().len() + self.strings().len() <= u32::MAX + 1,
        ensures
            final(strings).well_formed(),
            final(strings).strings() == with_strings(old(strings).strings(), self.strings()),
            r matches Ok(v) ==> v@ == table_strings_instrs(
                final(strings).strings(),
                self.strings(),
                strings_table,
            ),
            r is Ok,
    {
        let keys = key_map_keys(self.registry());
        let ghost tabled = self.strings();
        let ghost start = strings.strings();
        let mut out: Vec<WasmInstr> = Vec::new();
        let mut i: usize = 0;
        proof {
            assert(keys@.map_values(|s: String| s@) == tabled);
        }
        while i < keys.len()
            invariant
                strings.well_formed(),
                keys@.map_values(|s: String| s@) == tabled,
                i <= keys@.len(),
                strings.strings() == with_strings(start, tabled.subrange(0, i as int)),
                start.len() + tabled.len() <= u32::MAX + 1,
                out@ == table_strings_instrs(strings.strings(), tabled.subrange(0, i as int), strings_table),
            decreases keys@.len() - i,
        {
            let ghost before = strings.strings();
            let ghost prefix = tabled.subrange(0, i as int);
            let ghost s = tabled[i as int];
            proof {
                assert(tabled.subrange(0, i + 1).drop_last() =~= prefix);
                assert(keys@[i as int]@ == s);
                lemma_with_strings_len(start, prefix);
                strings.lemma_distinct();
            }
            let res = strings.register_default::<u32>(keys[i].clone());
            proof {
                strings.lemma_distinct();
                assert(strings.strings().contains(s)) by {
                    if !before.contains(s) {
                        assert(strings.strings()[before.len() as int] == s);
                    }
                }
                strings.strings().index_of_first_ensures(s);
                assert(strings.strings().len() <= before.len() + 1);
                assert(prefix.len() == i);
                lemma_instrs_kept(before, strings.strings(), prefix, strings_table);
            }
            let idx: u32 = match res {
                Ok(n) => n,
                Err(e) => {
                    assert(false);
                    return Err(e);
                },
            };
            out.push(WasmInstr::GlobalGet(idx));
            out.push(WasmInstr::I32Const(1));
            out.push(WasmInstr::TableGrow(strings_table));
            out.push(WasmInstr::Drop);
            proof {
                assert(out@ =~= table_strings_instrs(
                    strings.strings(),
                    tabled.subrange(0, i + 1),
                    strings_table,
                ));
            }
            i = i + 1;
        }
        proof {
            assert(tabled.subrange(0, tabled.len() as int) =~= tabled);
        }
        Ok(out)
    }
}

/// Registering strings adds at most one entry per string.
proof fn lemma_with_strings_len(strings: Seq<Seq<char>>, adds: Seq<Seq<char>>)
    ensures
        with_strings(strings, adds).len() <= strings.len() + adds.len(),
        with_strings(strings, adds).len() >= strings.len(),
        forall|i: int| 0 <= i < strings.len() ==> #[trigger] with_strings(strings, adds)[i] == strings[i],
        forall|i: int| 0 <= i < adds.len() ==> with_strings(strings, adds).contains(#[trigger] adds[i]),
    decreases adds.len(),
{
    if adds.len() > 0 {
        let rest = adds.drop_last();
        lemma_with_strings_len(strings, rest);
        let before = with_strings(strings, rest);
        let after = with_strings(strings, adds);
        assert forall|i: int| 0 <= i < adds.len() implies after.contains(#[trigger] adds[i]) by {
            if i < rest.len() {
                assert(rest[i] == adds[i]);
                assert(before.contains(adds[i]));
                let k = choose|k: int| 0 <= k < before.len() && before[k] == adds[i];
                assert(after[k] == adds[i]);
            } else if !before.contains(adds.last()) {
                assert(after[before.len() as int] == adds.last());
            }
        }
    }
}

/// The instructions for strings already registered stay the same as more
/// strings are appended.
proof fn lemma_instrs_kept(
    a: Seq<Seq<char>>,
    b: Seq<Seq<char>>,
    tabled: Seq<Seq<char>>,
    table: u32,
)
    requires
        forall|i: int| 0 <= i < tabled.len() ==> a.contains(#[trigger] tabled[i]),
        b.no_duplicates(),
        a.len() <= b.len(),
        forall|i: int| 0 <= i < a.len() ==> #[trigger] b[i] == a[i],
    ensures
        table_strings_instrs(b, tabled, table) == table_strings_instrs(a, tabled, table),
    decreases tabled.len(),
{
    if tabled.len() > 0 {
        assert forall|i: int| 0 <= i < tabled.drop_last().len() implies a.contains(
            #[trigger] tabled.drop_last()[i],
        ) by {
            assert(tabled.drop_last()[i] == tabled[i]);
        }
        lemma_instrs_kept(a, b, tabled.drop_last(), table);
        assert(a.contains(tabled[tabled.len() - 1]));
        lemma_index_kept(a, b, tabled.last());
    }
}

/// The keys of entries with distinct keys occur once each.
proof fn lemma_keys_distinct(entries: Entries<()>)
    requires
        crate::registry::distinct_keys(entries),
    ensures
        keys_of(entries).no_duplicates(),
{
    assert forall|i: int, j: int|
        0 <= i < keys_of(entries).len() && 0 <= j < keys_of(entries).len() && i != j implies keys_of(
        entries,
    )[i] != keys_of(entries)[j] by {
        assert(entries[i].0 != entries[j].0);
    }
}

/// Registering a string in a set of strings appends it when it is new, and
/// its index is its first position.
proof fn lemma_registered_strings(entries: Entries<()>, key: Seq<char>)
    requires
        crate::registry::distinct_keys(entries),
    ensures
        keys_of(registered(entries, key, ())) == (if keys_of(entries).contains(key) {
            keys_of(entries)
        } else {
            keys_of(entries).push(key)
        }),
        index_of_key(registered(entries, key, ()), key) == keys_of(registered(entries, key, ())).index_of(key),
{
    crate::registry::law_registration_keeps_keys_distinct(entries, key, ());
    let r = registered(entries, key, ());
    let ks = keys_of(entries);
    if keys_of(entries).contains(key) {
        let i = choose|i: int| 0 <= i < ks.len() && ks[i] == key;
        assert(entries[i].0 == key);
    } else {
        if has_key(entries, key) {
            let i = index_of_key(entries, key);
            assert(ks[i] == key);
        }
        assert(keys_of(r) =~= ks.push(key));
    }
    let i = index_of_key(r, key);
    assert(r[i].0 == key);
    let rk = keys_of(r);
    assert(rk[i] == key);
    assert forall|j: int| 0 <= j < rk.len() && rk[j] == key implies j == i by {
        assert(r[j].0 == key);
    }
    assert(rk.contains(key));
    let k = rk.index_of(key);
    assert(rk[k] == key);
}

} // verus!
