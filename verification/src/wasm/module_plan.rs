//! The plan of a finished module: the order of its sections, its start
//! function, the functions that it declares for references, and the element
//! segments that fill the tables of costume names.

use vstd::prelude::*;
use vstd::string::StrSliceExecFns;
use crate::registry::NamedRegistry;
use crate::wasm::registries::strings::StringRegistry;
use crate::wasm::registries::tables::{TableOptions, TableRegistrar};

verus! {

/// A section of a module.
#[derive(Clone, Copy, Debug, PartialEq, Eq, Structural)]
pub enum SectionKind {
    Type,
    Import,
    Function,
    Table,
    Memory,
    Global,
    Export,
    Start,
    Element,
    DataCount,
    Code,
    Data,
}

/// The order in which a module's sections are written.
pub open spec fn section_order() -> Seq<SectionKind> {
    seq![
        SectionKind::Type,
        SectionKind::Import,
        SectionKind::Function,
        SectionKind::Table,
        SectionKind::Memory,
        SectionKind::Global,
        SectionKind::Export,
        SectionKind::Start,
        SectionKind::Element,
        SectionKind::DataCount,
        SectionKind::Code,
        SectionKind::Data,
    ]
}

/// What finishing a module can fail on.
#[derive(Clone, Copy, Debug, PartialEq, Eq, Structural)]
pub enum FinishError {
    /// An index does not fit in a `u32`.
    IndexOutOfBounds,
    /// A table of costume names is not named by a target's number.
    BadTargetIndex,
    /// A table of costume names is named by a target that has no costumes.
    TargetOutOfBounds,
    /// A costume's name is not among the imported strings.
    UnknownCostumeName,
}

/// The plan of a finished module.
pub struct ModulePlan {
    /// The sections, in the order in which they are written.
    pub sections: Vec<SectionKind>,
    /// The index of the start function.
    pub start_function: u32,
    /// The functions declared for references are those from this index...
    pub declared_start: u32,
    /// ...to this one, excluded: the step functions.
    pub declared_end: u32,
    /// For each table of costume names, its index and the global indices of
    /// the names of the costumes of its target, in order.
    pub costume_name_elements: Vec<(u32, Vec<u32>)>,
}

/// The prefix of the names of the tables of costume names.
pub open spec fn costume_table_prefix() -> Seq<char> {
    "costume_names_"@
}

/// Does `s` start with `prefix`?
pub open spec fn has_prefix(s: Seq<char>, prefix: Seq<char>) -> bool {
    prefix.len() <= s.len() && s.subrange(0, prefix.len() as int) == prefix
}

/// Is `c` a decimal digit?
pub open spec fn is_digit(c: char) -> bool {
    '0' <= c && c <= '9'
}

/// The number that the decimal digits `d` write.
pub open spec fn digits_value(d: Seq<char>) -> int
    decreases d.len(),
{
    if d.len() == 0 {
        0
    } else {
        10 * digits_value(d.drop_last()) + (d.last() as int - '0' as int)
    }
}

/// The `u32` that `s` writes in decimal, with an optional leading `+`, as
/// the standard library reads it; `None` if it writes none.
pub open spec fn parse_u32(s: Seq<char>) -> Option<int> {
    let d = unsigned_digits(s);
    if d.len() > 0 && all_digits(d) && digits_value(d) <= u32::MAX {
        Some(digits_value(d))
    } else {
        None
    }
}

/// `s` without a leading `+`.
pub open spec fn unsigned_digits(s: Seq<char>) -> Seq<char> {
    if s.len() > 0 && s[0] == '+' {
        s.drop_first()
    } else {
        s
    }
}

/// Every character of `d` is a decimal digit.
pub open spec fn all_digits(d: Seq<char>) -> bool {
    forall|i: int| 0 <= i < d.len() ==> is_digit(#[trigger] d[i])
}

/// The index of `s` among `strings`, if it is there.
pub open spec fn string_index(strings: Seq<Seq<char>>, s: Seq<char>) -> Option<int> {
    if strings.contains(s) {
        Some(choose|i: int| 0 <= i < strings.len() && strings[i] == s)
    } else {
        None
    }
}

/// The global indices of the costume names `names`: the first of them that
/// is not an imported string, or whose index does not fit, gives the error.
pub open spec fn name_globals(names: Seq<Seq<char>>, strings: Seq<Seq<char>>) -> Result<
    Seq<int>,
    FinishError,
>
    decreases names.len(),
{
    if names.len() == 0 {
        Ok(Seq::empty())
    } else {
        match name_globals(names.drop_last(), strings) {
            Err(e) => Err(e),
            Ok(gs) => match string_index(strings, names.last()) {
                None => Err(FinishError::UnknownCostumeName),
                Some(i) => if i > u32::MAX {
                    Err(FinishError::IndexOutOfBounds)
                } else {
                    Ok(gs.push(i))
                },
            },
        }
    }
}

/// The element segment for the table `name` at `table_index`: none unless
/// it is a table of costume names; else the names of the costumes of the
/// target that its name ends with.
pub open spec fn costume_segment(
    name: Seq<char>,
    table_index: int,
    costume_names: Seq<Seq<Seq<char>>>,
    strings: Seq<Seq<char>>,
) -> Result<Option<(int, Seq<int>)>, FinishError> {
    if !has_prefix(name, costume_table_prefix()) {
        Ok(None)
    } else {
        match parse_u32(name.subrange(costume_table_prefix().len() as int, name.len() as int)) {
            None => Err(FinishError::BadTargetIndex),
            Some(t) => if t >= costume_names.len() {
                Err(FinishError::TargetOutOfBounds)
            } else {
                match name_globals(costume_names[t], strings) {
                    Err(e) => Err(e),
                    Ok(gs) => if table_index > u32::MAX {
                        Err(FinishError::IndexOutOfBounds)
                    } else {
                        Ok(Some((table_index, gs)))
                    },
                }
            },
        }
    }
}

/// The element segments of the tables `names`, in order; the first table
/// that fails gives the error.
pub open spec fn costume_segments(
    names: Seq<Seq<char>>,
    costume_names: Seq<Seq<Seq<char>>>,
    strings: Seq<Seq<char>>,
) -> Result<Seq<(int, Seq<int>)>, FinishError>
    decreases names.len(),
{
    if names.len() == 0 {
        Ok(Seq::empty())
    } else {
        match costume_segments(names.drop_last(), costume_names, strings) {
            Err(e) => Err(e),
            Ok(segs) => match costume_segment(
                names.last(),
                names.len() - 1,
                costume_names,
                strings,
            ) {
                Err(e) => Err(e),
                Ok(None) => Ok(segs),
                Ok(Some(x)) => Ok(segs.push(x)),
            },
        }
    }
}

/// The costume names of every target, as values.
pub open spec fn names_view(costume_names: Seq<Vec<String>>) -> Seq<Seq<Seq<char>>> {
    costume_names.map_values(|v: Vec<String>| v@.map_values(|s: String| s@))
}

/// A plan's segments as values.
pub open spec fn segments_view(segs: Seq<(u32, Vec<u32>)>) -> Seq<(int, Seq<int>)> {
    segs.map_values(|e: (u32, Vec<u32>)| (e.0 as int, e.1@.map_values(|g: u32| g as int)))
}

/// The names of the tables, in order.
pub open spec fn table_names_of(tables: NamedRegistry<TableRegistrar>) -> Seq<Seq<char>> {
    tables.entries().map_values(|e: (Seq<char>, TableOptions)| e.0)
}

/// The sections, in order.
fn sections() -> (r: Vec<SectionKind>)
    ensures
        r@ == section_order(),
{
    let r = vec![
        SectionKind::Type,
        SectionKind::Import,
        SectionKind::Function,
        SectionKind::Table,
        SectionKind::Memory,
        SectionKind::Global,
        SectionKind::Export,
        SectionKind::Start,
        SectionKind::Element,
        SectionKind::DataCount,
        SectionKind::Code,
        SectionKind::Data,
    ];
    assert(r@ =~= section_order());
    r
}

/// Does `name` start with `prefix`?
fn starts_with(name: &String, prefix: &str) -> (r: bool)
    ensures
        r == has_prefix(name@, prefix@),
{
    let n = name.as_str().unicode_len();
    let p = prefix.unicode_len();
    if p > n {
        return false;
    }
    let mut i: usize = 0;
    while i < p
        invariant
            p == prefix@.len(),
            n == name@.len(),
            p <= n,
            i <= p,
            forall|k: int| 0 <= k < i ==> name@[k] == prefix@[k],
        decreases p - i,
    {
        if name.as_str().get_char(i) != prefix.get_char(i) {
            assert(name@.subrange(0, p as int)[i as int] != prefix@[i as int]);
            return false;
        }
        i = i + 1;
    }
    assert(name@.subrange(0, p as int) =~= prefix@);
    true
}

/// The value of a longer run of digits is at least that of its start.
proof fn lemma_digits_grow(d: Seq<char>, k: int)
    requires
        0 <= k <= d.len(),
        forall|i: int| 0 <= i < d.len() ==> is_digit(#[trigger] d[i]),
    ensures
        digits_value(d) >= digits_value(d.subrange(0, k)) >= 0,
    decreases d.len(),
{
    if d.len() > 0 {
        if k == d.len() {
            assert(d.subrange(0, k) =~= d);
            lemma_digits_grow(d.drop_last(), d.len() - 1);
            assert(d.drop_last().subrange(0, d.len() - 1) =~= d.drop_last());
        } else {
            lemma_digits_grow(d.drop_last(), k);
            assert(d.drop_last().subrange(0, k) =~= d.subrange(0, k));
            assert(is_digit(d.last()));
        }
    }
}

/// Reads the `u32` that `name` writes from `from` on, as [`parse_u32`]
/// says.
fn parse_from(name: &String, from: usize) -> (r: Option<u32>)
    requires
        from <= name@.len(),
    ensures
        match parse_u32(name@.subrange(from as int, name@.len() as int)) {
            Some(v) => r == Some(v as u32),
            None => r is None,
        },
        r matches Some(x) ==> parse_u32(name@.subrange(from as int, name@.len() as int)) == Some(
            x as int,
        ),
{
    let ghost s = name@.subrange(from as int, name@.len() as int);
    let n = name.as_str().unicode_len();
    let mut start = from;
    if start < n && name.as_str().get_char(start) == '+' {
        start = start + 1;
    }
    let ghost d = name@.subrange(start as int, n as int);
    proof {
        if from < n && name@[from as int] == '+' {
            assert(s[0] == '+');
            assert(s.drop_first() =~= d);
        } else {
            assert(s =~= d);
        }
    }
    if start == n {
        return None;
    }
    let mut value: u64 = 0;
    let mut too_big = false;
    let mut i: usize = start;
    while i < n
        invariant
            start <= i <= n,
            n == name@.len(),
            start < n,
            d == name@.subrange(start as int, n as int),
            s == name@.subrange(from as int, name@.len() as int),
            unsigned_digits(s) == d,
            forall|k: int| 0 <= k < i - start ==> is_digit(#[trigger] d[k]),
            !too_big ==> value == digits_value(d.subrange(0, i - start)) && value <= u32::MAX,
            too_big ==> digits_value(d.subrange(0, i - start)) > u32::MAX,
        decreases n - i,
    {
        let c = name.as_str().get_char(i);
        if !('0' <= c && c <= '9') {
            proof {
                assert(d[i - start] == c);
                assert(!is_digit(d[i - start]));
                assert(!all_digits(d));
            }
            return None;
        }
        proof {
            assert(d.subrange(0, i + 1 - start).drop_last() =~= d.subrange(0, i - start));
            assert(d.subrange(0, i + 1 - start).last() == c);
            assert(d[i - start] == c);
        }
        if !too_big {
            let digit = (c as u32 - '0' as u32) as u64;
            let next = value * 10 + digit;
            if next > u32::MAX as u64 {
                too_big = true;
            } else {
                value = next;
            }
        } else {
            proof {
                lemma_digits_grow(d.subrange(0, i + 1 - start), i - start);
                assert(d.subrange(0, i + 1 - start).subrange(0, i - start) =~= d.subrange(
                    0,
                    i - start,
                ));
            }
        }
        i = i + 1;
    }
    proof {
        assert(d.subrange(0, n - start) =~= d);
    }
    if too_big {
        None
    } else {
        Some(value as u32)
    }
}

/// The global indices of the costume names `names`, as [`name_globals`]
/// says.
fn costume_globals(names: &Vec<String>, strings: &StringRegistry) -> (r: Result<Vec<u32>, FinishError>)
    requires
        strings.well_formed(),
    ensures
        match name_globals(names@.map_values(|s: String| s@), strings.strings()) {
            Ok(gs) => r is Ok && r.unwrap()@.map_values(|g: u32| g as int) == gs,
            Err(e) => r == Err::<Vec<u32>, FinishError>(e),
        },
{
    let ghost all = names@.map_values(|s: String| s@);
    proof {
        strings.lemma_distinct();
    }
    let mut out: Vec<u32> = Vec::new();
    let mut i: usize = 0;
    while i < names.len()
        invariant
            i <= names@.len(),
            all == names@.map_values(|s: String| s@),
            strings.well_formed(),
            strings.strings().no_duplicates(),
            name_globals(all.subrange(0, i as int), strings.strings()) matches Ok(gs) && out@.map_values(
                |g: u32| g as int,
            ) == gs,
        decreases names@.len() - i,
    {
        let ghost before = out@;
        proof {
            assert(all.subrange(0, i + 1).drop_last() =~= all.subrange(0, i as int));
            assert(all.subrange(0, i + 1).last() == names@[i as int]@);
        }
        match strings.index_of(&names[i]) {
            None => {
                proof {
                    lemma_errors_stay(all, i as int + 1, strings.strings());
                }
                return Err(FinishError::UnknownCostumeName);
            },
            Some(k) => {
                proof {
                    let c = choose|j: int|
                        0 <= j < strings.strings().len() && strings.strings()[j] == names@[i as int]@;
                    assert(strings.strings()[k as int] == strings.strings()[c]);
                }
                if k > u32::MAX as usize {
                    proof {
                        lemma_errors_stay(all, i as int + 1, strings.strings());
                    }
                    return Err(FinishError::IndexOutOfBounds);
                }
                out.push(k as u32);
                proof {
                    assert(out@.map_values(|g: u32| g as int) =~= before.map_values(|g: u32| g as int).push(
                        k as int,
                    ));
                }
            },
        }
        i = i + 1;
    }
    proof {
        assert(all.subrange(0, names@.len() as int) =~= all);
    }
    Ok(out)
}

/// An error for some names stays the error for all of them.
proof fn lemma_errors_stay(all: Seq<Seq<char>>, k: int, strings: Seq<Seq<char>>)
    requires
        0 <= k <= all.len(),
        name_globals(all.subrange(0, k), strings) is Err,
    ensures
        name_globals(all, strings) == name_globals(all.subrange(0, k), strings),
    decreases all.len() - k,
{
    if k < all.len() {
        assert(all.subrange(0, k + 1).drop_last() =~= all.subrange(0, k));
        lemma_errors_stay(all, k + 1, strings);
    } else {
        assert(all.subrange(0, k) =~= all);
    }
}

/// An error for some tables stays the error for all of them.
proof fn lemma_segment_errors_stay(
    all: Seq<Seq<char>>,
    k: int,
    costume_names: Seq<Seq<Seq<char>>>,
    strings: Seq<Seq<char>>,
)
    requires
        0 <= k <= all.len(),
        costume_segments(all.subrange(0, k), costume_names, strings) is Err,
    ensures
        costume_segments(all, costume_names, strings) == costume_segments(
            all.subrange(0, k),
            costume_names,
            strings,
        ),
    decreases all.len() - k,
{
    if k < all.len() {
        assert(all.subrange(0, k + 1).drop_last() =~= all.subrange(0, k));
        lemma_segment_errors_stay(all, k + 1, costume_names, strings);
    } else {
        assert(all.subrange(0, k) =~= all);
    }
}

/// Plans the finished module: its sections in order; its start function,
/// the last of the `defined_func_count` functions that it defines, after the
/// imported ones; the step functions, which follow the imported and the
/// static functions, declared for references; and, for each table of costume
/// names (named `costume_names_` and a target's number), an element segment
/// of the globals of the names of that target's costumes, in order. Fails if
/// an index does not fit in a `u32`, or on the first table of costume names
/// that does not name a target with costumes whose names are all imported
/// strings.
pub fn finish_plan(
    imported_func_count: u32,
    static_func_count: u32,
    step_count: usize,
    defined_func_count: u32,
    tables: &NamedRegistry<TableRegistrar>,
    costume_names: &Vec<Vec<String>>,
    strings: &StringRegistry,
) -> (r: Result<ModulePlan, FinishError>)
    requires
        defined_func_count >= 1,
        tables.well_formed(),
        strings.well_formed(),
    ensures
        ({
            let table_names = table_names_of(*tables);
            let segs = costume_segments(table_names, names_view(costume_names@), strings.strings());
            let fits = imported_func_count + defined_func_count - 1 <= u32::MAX
                && imported_func_count + static_func_count + step_count <= u32::MAX;
            &&& !fits ==> r == Err::<ModulePlan, FinishError>(FinishError::IndexOutOfBounds)
            &&& fits ==> match segs {
                Err(e) => r == Err::<ModulePlan, FinishError>(e),
                Ok(s) => r matches Ok(p) && {
                    &&& p.sections@ == section_order()
                    &&& p.start_function == imported_func_count + defined_func_count - 1
                    &&& p.declared_start == imported_func_count + static_func_count
                    &&& p.declared_end == imported_func_count + static_func_count + step_count
                    &&& segments_view(p.costume_name_elements@) == s
                },
            }
        }),
{
    if imported_func_count as u64 + defined_func_count as u64 - 1 > u32::MAX as u64
        || imported_func_count as u128 + static_func_count as u128 + step_count as u128
        > u32::MAX as u128 {
        return Err(FinishError::IndexOutOfBounds);
    }
    let start_function = imported_func_count + (defined_func_count - 1);
    let declared_start = imported_func_count + static_func_count;
    let declared_end = declared_start + step_count as u32;
    let reg = tables.registry();
    let ghost table_names = table_names_of(*tables);
    let ghost cn = names_view(costume_names@);
    let mut segs: Vec<(u32, Vec<u32>)> = Vec::new();
    let mut i: usize = 0;
    while i < reg.len()
        invariant
            reg.wf(),
            reg@ == tables.entries(),
            strings.well_formed(),
            table_names == table_names_of(*tables),
            cn == names_view(costume_names@),
            imported_func_count + defined_func_count - 1 <= u32::MAX,
            imported_func_count + static_func_count + step_count <= u32::MAX,
            start_function == imported_func_count + defined_func_count - 1,
            declared_start == imported_func_count + static_func_count,
            declared_end == imported_func_count + static_func_count + step_count,
            i <= reg@.len(),
            costume_segments(table_names.subrange(0, i as int), cn, strings.strings()) matches Ok(
                s,
            ) && segments_view(segs@) == s,
        decreases reg@.len() - i,
    {
        let ghost before = segs@;
        let name = reg.key_at(i);
        proof {
            assert(table_names.subrange(0, i + 1).drop_last() =~= table_names.subrange(0, i as int));
            assert(table_names.subrange(0, i + 1).last() == name@);
        }
        if starts_with(name, "costume_names_") {
            proof {
                reveal_strlit("costume_names_");
            }
            let target = match parse_from(name, 14) {
                Some(t) => t,
                None => {
                    proof {
                        assert(costume_segment(name@, i as int, cn, strings.strings()) == Err::<
                            Option<(int, Seq<int>)>,
                            FinishError,
                        >(FinishError::BadTargetIndex));
                        lemma_segment_errors_stay(table_names, i as int + 1, cn, strings.strings());
                    }
                    return Err(FinishError::BadTargetIndex);
                },
            };
            if target as usize >= costume_names.len() {
                proof {
                    assert(costume_segment(name@, i as int, cn, strings.strings()) == Err::<
                        Option<(int, Seq<int>)>,
                        FinishError,
                    >(FinishError::TargetOutOfBounds));
                    lemma_segment_errors_stay(table_names, i as int + 1, cn, strings.strings());
                }
                return Err(FinishError::TargetOutOfBounds);
            }
            proof {
                assert(cn[target as int] == costume_names@[target as int]@.map_values(
                    |s: String| s@,
                ));
            }
            let globals = match costume_globals(&costume_names[target as usize], strings) {
                Ok(g) => g,
                Err(e) => {
                    proof {
                        lemma_segment_errors_stay(table_names, i as int + 1, cn, strings.strings());
                    }
                    return Err(e);
                },
            };
            if i > u32::MAX as usize {
                proof {
                    lemma_segment_errors_stay(table_names, i as int + 1, cn, strings.strings());
                }
                return Err(FinishError::IndexOutOfBounds);
            }
            segs.push((i as u32, globals));
            proof {
                assert(segments_view(segs@) =~= segments_view(before).push(
                    (i as int, segs@.last().1@.map_values(|g: u32| g as int)),
                ));
            }
        } else {
            proof {
                reveal_strlit("costume_names_");
            }
        }
        i = i + 1;
    }
    proof {
        assert(table_names.subrange(0, reg@.len() as int) =~= table_names);
    }
    Ok(
        ModulePlan {
            sections: sections(),
            start_function,
            declared_start,
            declared_end,
            costume_name_elements: segs,
        },
    )
}

} // verus!
