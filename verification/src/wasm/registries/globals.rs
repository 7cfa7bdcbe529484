//! The globals of a generated module, registered by name.

use vstd::prelude::*;
use crate::registry::{Entries, index_of_key, index_result, registered, MapRegistry, RegistryError, RegistryIndex};
use crate::wasm::types::{ConstExpr, ConstInstr, ValType};

verus! {

/// Whether a global can be written.
#[derive(Copy, Clone, Debug, PartialEq, Eq, Structural)]
pub struct GlobalMutable(pub bool);

impl core::ops::Deref for GlobalMutable {
    type Target = bool;

    fn deref(&self) -> (r: &bool)
        ensures
            *r == self.0,
    {
        &self.0
    }
}

/// Whether a global is exported to the host.
#[derive(Copy, Clone, Debug, PartialEq, Eq, Structural)]
pub struct GlobalExportable(pub bool);

impl core::ops::Deref for GlobalExportable {
    type Target = bool;

    fn deref(&self) -> (r: &bool)
        ensures
            *r == self.0,
    {
        &self.0
    }
}

/// A global: its type, its initial value, and whether it can be written and
/// is exported.
pub type GlobalInfo = (ValType, ConstExpr, GlobalMutable, GlobalExportable);

/// The registry of globals, by name.
pub type GlobalRegistry = MapRegistry<GlobalInfo>;

/// The global that counts the running threads: a writable, exported `i32`
/// that starts at 0.
pub open spec fn threads_count_global() -> GlobalInfo {
    (ValType::I32, ConstExpr::I32Const(0), GlobalMutable(true), GlobalExportable(true))
}

/// The exports of the globals: each exportable one's name and its index
/// among all globals, the `imported` imported ones first.
pub open spec fn global_exports(entries: Entries<GlobalInfo>, imported: int) -> Seq<(Seq<char>, int)>
    decreases entries.len(),
{
    if entries.len() == 0 {
        Seq::empty()
    } else {
        let rest = global_exports(entries.drop_last(), imported);
        if (entries.last().1.3).0 {
            rest.push((entries.last().0, imported + entries.len() - 1))
        } else {
            rest
        }
    }
}

/// Where the types of the threads stand in the type section.
#[derive(Clone, Copy, Debug, PartialEq, Eq, Structural)]
pub struct ThreadsLayout {
    /// The dynamic array of a target's threads.
    pub thread_array_type: u32,
    /// The array of every target's threads.
    pub target_thread_array_type: u32,
    /// A non-nullable reference to the array of every target's threads.
    pub target_thread_array_ref: ValType,
}

/// The start of the initial value of the threads global: for each of the
/// first `k` targets, its number, a zero and an empty array of threads.
pub open spec fn threads_init_targets(l: ThreadsLayout, k: nat) -> Seq<ConstInstr>
    decreases k,
{
    if k == 0 {
        Seq::empty()
    } else {
        threads_init_targets(l, (k - 1) as nat) + seq![
            ConstInstr::I32Const((k - 1) as i32),
            ConstInstr::I32Const(0),
            ConstInstr::ArrayNewFixed { array_type_index: l.thread_array_type, array_size: 0 },
        ]
    }
}

/// The initial value of the threads global, for the stage and `num_sprites`
/// sprites: the values of every target, then an array of `num_sprites` of
/// them.
pub open spec fn threads_init(l: ThreadsLayout, num_sprites: u32) -> Seq<ConstInstr> {
    threads_init_targets(l, num_sprites as nat + 1).push(
        ConstInstr::ArrayNewFixed {
            array_type_index: l.target_thread_array_type,
            array_size: num_sprites,
        },
    )
}

/// `info` is the global that holds every target's threads: a writable, not
/// exported reference to the array of them, with the initial value above.
pub open spec fn is_threads_global(info: GlobalInfo, l: ThreadsLayout, num_sprites: u32) -> bool {
    &&& info.0 == l.target_thread_array_ref
    &&& info.1 matches ConstExpr::Extended(v) && v@ == threads_init(l, num_sprites)
    &&& info.2 == GlobalMutable(true)
    &&& info.3 == GlobalExportable(false)
}

impl MapRegistry<GlobalInfo> {
    /// The globals in order, and the exports of the exportable ones, by name
    /// and index among all globals (the imported ones first).
    pub fn finish(self, imported_global_count: u32) -> (r: (Vec<GlobalInfo>, Vec<(String, u32)>))
        requires
            self.wf(),
            imported_global_count + self@.len() <= u32::MAX + 1,
        ensures
            r.0@ == self@.map_values(|e: (Seq<char>, GlobalInfo)| e.1),
            r.1@.map_values(|e: (String, u32)| (e.0@, e.1 as int)) == global_exports(
                self@,
                imported_global_count as int,
            ),
    {
        let ghost entries = self@;
        let (keys, values) = self.take();
        let mut exports: Vec<(String, u32)> = Vec::new();
        let mut i: usize = 0;
        while i < values.len()
            invariant
                keys@.len() == entries.len(),
                values@.len() == entries.len(),
                forall|k: int| 0 <= k < entries.len() ==> #[trigger] keys@[k]@ == entries[k].0,
                forall|k: int| 0 <= k < entries.len() ==> #[trigger] values@[k] == entries[k].1,
                imported_global_count + entries.len() <= u32::MAX + 1,
                i <= entries.len(),
                exports@.map_values(|e: (String, u32)| (e.0@, e.1 as int)) == global_exports(
                    entries.subrange(0, i as int),
                    imported_global_count as int,
                ),
            decreases entries.len() - i,
        {
            let ghost prefix = entries.subrange(0, i + 1);
            let ghost ex_before = exports@;
            proof {
                assert(prefix.drop_last() =~= entries.subrange(0, i as int));
                assert(prefix.last() == entries[i as int]);
            }
            if (values[i].3).0 {
                let index = imported_global_count + i as u32;
                exports.push((keys[i].clone(), index));
                proof {
                    assert(exports@.map_values(|e: (String, u32)| (e.0@, e.1 as int))
                        =~= ex_before.map_values(|e: (String, u32)| (e.0@, e.1 as int)).push(
                        (entries[i as int].0, imported_global_count + i),
                    ));
                }
            }
            i = i + 1;
        }
        proof {
            assert(entries.subrange(0, entries.len() as int) =~= entries);
            assert(values@ =~= entries.map_values(|e: (Seq<char>, GlobalInfo)| e.1));
        }
        (values, exports)
    }

    /// Registers the global that holds every target's threads, and gives its
    /// index.
    pub fn threadss<N: RegistryIndex>(&mut self, l: ThreadsLayout, num_sprites: u32) -> (r: Result<
        N,
        RegistryError,
    >)
        requires
            old(self).wf(),
        ensures
            final(self).wf(),
            exists|info: GlobalInfo|
                is_threads_global(info, l, num_sprites) && final(self)@ == registered(
                    old(self)@,
                    "threadss"@,
                    info,
                ),
            index_result(r, index_of_key(final(self)@, "threadss"@)),
    {
        let mut init: Vec<ConstInstr> = Vec::new();
        let mut i: u64 = 0;
        while i <= num_sprites as u64
            invariant
                i <= num_sprites as u64 + 1,
                init@ == threads_init_targets(l, i as nat),
            decreases num_sprites as u64 + 1 - i,
        {
            init.push(ConstInstr::I32Const(i as i32));
            init.push(ConstInstr::I32Const(0));
            init.push(ConstInstr::ArrayNewFixed { array_type_index: l.thread_array_type, array_size: 0 });
            proof {
                assert(init@ =~= threads_init_targets(l, (i + 1) as nat));
            }
            i = i + 1;
        }
        init.push(
            ConstInstr::ArrayNewFixed {
                array_type_index: l.target_thread_array_type,
                array_size: num_sprites,
            },
        );
        let info = (
            l.target_thread_array_ref,
            ConstExpr::Extended(init),
            GlobalMutable(true),
            GlobalExportable(false),
        );
        let ghost g = info;
        proof {
            reveal_strlit("threadss");
            assert(is_threads_global(g, l, num_sprites));
        }
        self.register_entry("threadss".to_owned(), info)
    }

    /// Registers the global that counts the running threads, and gives its
    /// index.
    pub fn threads_count<N: RegistryIndex>(&mut self) -> (r: Result<N, RegistryError>)
        requires
            old(self).wf(),
        ensures
            final(self).wf(),
            final(self)@ == registered(old(self)@, "threads_count"@, threads_count_global()),
            index_result(r, index_of_key(final(self)@, "threads_count"@)),
    {
        let name = "threads_count".to_owned();
        proof {
            reveal_strlit("threads_count");
        }
        self.register_entry(
            name,
            (ValType::I32, ConstExpr::I32Const(0), GlobalMutable(true), GlobalExportable(true)),
        )
    }
}

} // verus!
