//! The initial values of the project's lists: the start function fills each
//! list's array from a passive data segment (numbers, booleans, boxed values)
//! or a passive element segment (strings).

use vstd::prelude::*;
use crate::wasm::registries::functions::WasmInstr;
use crate::wasm::registries::strings::{StringRegistry, TabledStringRegistry};

verus! {

/// What a list's array holds, by the types its items may have.
#[derive(Clone, Copy, Debug, PartialEq, Eq, Structural)]
pub enum ListBase {
    /// Integers (and booleans), as `i32`s.
    QuasiInt,
    /// Floats, as `f64`s.
    Float,
    /// Strings, as host references.
    String,
    /// Values of several types, boxed as `i64`s.
    Boxed,
}

/// An item of a list's initial value. A float is held by its bits, with its
/// value as an `i32` (saturating) when it is a whole number.
#[derive(Clone, Debug)]
pub enum ListItem {
    Int(i32),
    Bool(bool),
    Float { bits: u64, as_int: Option<i32> },
    String(String),
}

/// A list to initialise: what its array holds, its initial items, the global
/// that holds its array (among the module's own globals), and the array's
/// type.
pub struct ListInit {
    pub base: ListBase,
    pub initial: Vec<ListItem>,
    pub array_global: u32,
    pub array_type: u32,
}

/// Why the lists could not be initialised.
#[derive(Clone, Copy, Debug, PartialEq, Eq, Structural)]
pub enum ListError {
    /// A list has more initial items than an `i32` counts.
    LengthOutOfBounds,
    /// An item's type is not one that the list's array holds.
    WrongItem,
    /// A list of integers holds a float that is not a whole number.
    NotAnInteger,
    /// A global, segment or string index does not fit.
    IndexOutOfBounds,
}

/// What initialises the lists: the start function's instructions, and the
/// data and element segments (each element a string's global), in order.
pub struct ListsPlan {
    pub start: Vec<WasmInstr>,
    pub data: Vec<Vec<u8>>,
    pub elements: Vec<Vec<u32>>,
}

/// The `n` low bytes of `x`, least significant first.
pub open spec fn le_bytes(x: nat, n: nat) -> Seq<u8>
    decreases n,
{
    if n == 0 {
        Seq::empty()
    } else {
        seq![(x % 256) as u8] + le_bytes(x / 256, (n - 1) as nat)
    }
}

/// The string of a string item.
pub open spec fn item_string(it: ListItem) -> Option<Seq<char>> {
    match it {
        ListItem::String(s) => Some(s@),
        _ => None,
    }
}

/// The value of an item in a list of integers.
pub open spec fn quasi_int_value(it: ListItem) -> Option<i32> {
    match it {
        ListItem::Int(i) => Some(i),
        ListItem::Bool(b) => Some(if b { 1i32 } else { 0i32 }),
        ListItem::Float { as_int, .. } => as_int,
        ListItem::String(_) => None,
    }
}

/// The value of an item in a list of values of several types, given the
/// tabled strings: a string stands for its index among them.
pub open spec fn boxed_value(it: ListItem, tabled: Seq<Seq<char>>) -> Option<u64> {
    match it {
        ListItem::Int(i) => Some((i as i64) as u64),
        ListItem::Bool(b) => Some(if b { 1u64 } else { 0u64 }),
        ListItem::Float { bits, .. } => Some(bits),
        ListItem::String(s) => if tabled.contains(s@) && tabled.index_of(s@) <= i64::MAX {
            Some(tabled.index_of(s@) as u64)
        } else {
            None
        },
    }
}

/// The item fits the list: its type is one that the array holds, and a
/// float in a list of integers is a whole number.
pub open spec fn item_fits(base: ListBase, it: ListItem) -> bool {
    match base {
        ListBase::QuasiInt => quasi_int_value(it) is Some,
        ListBase::Float => it is Float,
        ListBase::String => it is String,
        ListBase::Boxed => true,
    }
}

/// The bytes of a data segment for `items` in a list of `base` (not strings),
/// given the tabled strings.
pub open spec fn items_data(base: ListBase, items: Seq<ListItem>, tabled: Seq<Seq<char>>) -> Seq<u8>
    decreases items.len(),
{
    if items.len() == 0 {
        Seq::empty()
    } else {
        let it = items.last();
        items_data(base, items.drop_last(), tabled) + match base {
            ListBase::QuasiInt => le_bytes((quasi_int_value(it)->0 as u32) as nat, 4),
            ListBase::Float => le_bytes((it->bits) as nat, 8),
            _ => le_bytes(boxed_value(it, tabled)->0 as nat, 8),
        }
    }
}

/// The element segment for `items` in a list of strings: each string's
/// index among the imported strings.
pub open spec fn items_elements(items: Seq<ListItem>, strings: Seq<Seq<char>>) -> Seq<u32> {
    Seq::new(items.len(), |i: int| strings.index_of(item_string(items[i])->0) as u32)
}

/// The start function's instructions for list `l`, whose segment is data
/// segment `data_index` or element segment `elem_index`.
pub open spec fn list_start(l: ListInit, imported: u32, data_index: int, elem_index: int) -> Seq<
    WasmInstr,
> {
    seq![
        WasmInstr::GlobalGet((l.array_global + imported) as u32),
        WasmInstr::I32Const(0),
        WasmInstr::I32Const(0),
        WasmInstr::I32Const(l.initial@.len() as i32),
        if l.base == ListBase::String {
            WasmInstr::ArrayInitElem {
                array_type_index: l.array_type,
                array_elem_index: elem_index as u32,
            }
        } else {
            WasmInstr::ArrayInitData {
                array_type_index: l.array_type,
                array_data_index: data_index as u32,
            }
        },
    ]
}

/// The number of lists that are filled from data segments.
pub open spec fn data_lists(ls: Seq<ListInit>) -> int
    decreases ls.len(),
{
    if ls.len() == 0 {
        0
    } else {
        data_lists(ls.drop_last()) + if ls.last().base == ListBase::String { 0int } else { 1int }
    }
}

/// The start function's instructions for the lists `ls`, after `d0` data
/// and `e0` element segments.
pub open spec fn lists_start(ls: Seq<ListInit>, imported: u32, d0: int, e0: int) -> Seq<WasmInstr>
    decreases ls.len(),
{
    if ls.len() == 0 {
        Seq::empty()
    } else {
        let before = ls.drop_last();
        lists_start(before, imported, d0, e0) + list_start(
            ls.last(),
            imported,
            d0 + data_lists(before),
            e0 + before.len() - data_lists(before),
        )
    }
}

/// The data segments of the lists `ls`, in order.
pub open spec fn lists_data(ls: Seq<ListInit>, tabled: Seq<Seq<char>>) -> Seq<Seq<u8>>
    decreases ls.len(),
{
    if ls.len() == 0 {
        Seq::empty()
    } else if ls.last().base == ListBase::String {
        lists_data(ls.drop_last(), tabled)
    } else {
        lists_data(ls.drop_last(), tabled).push(items_data(ls.last().base, ls.last().initial@, tabled))
    }
}

/// The element segments of the lists `ls`, in order.
pub open spec fn lists_elements(ls: Seq<ListInit>, strings: Seq<Seq<char>>) -> Seq<Seq<u32>>
    decreases ls.len(),
{
    if ls.len() == 0 {
        Seq::empty()
    } else if ls.last().base == ListBase::String {
        lists_elements(ls.drop_last(), strings).push(items_elements(ls.last().initial@, strings))
    } else {
        lists_elements(ls.drop_last(), strings)
    }
}

/// `b` is `a` with more strings after it.
pub open spec fn grows(a: Seq<Seq<char>>, b: Seq<Seq<char>>) -> bool {
    a.len() <= b.len() && forall|i: int| 0 <= i < a.len() ==> #[trigger] b[i] == a[i]
}

/// A string's first index stays as the strings grow.
proof fn lemma_index_stays(a: Seq<Seq<char>>, b: Seq<Seq<char>>, s: Seq<char>)
    requires
        grows(a, b),
        b.no_duplicates(),
        a.contains(s),
    ensures
        b.contains(s),
        b.index_of(s) == a.index_of(s),
{
    let i = a.index_of(s);
    assert(a[i] == s);
    assert(b[i] == s);
    let j = b.index_of(s);
    assert(b[j] == s);
}

proof fn lemma_grows_trans(a: Seq<Seq<char>>, b: Seq<Seq<char>>, c: Seq<Seq<char>>)
    requires
        grows(a, b),
        grows(b, c),
    ensures
        grows(a, c),
{
    assert forall|i: int| 0 <= i < a.len() implies #[trigger] c[i] == a[i] by {
        assert(c[i] == b[i]);
    }
}

/// Every item's string, of the kind that `base` registers, is among
/// `strings` (for lists of strings) or `tabled` (for boxed lists).
pub open spec fn strings_known(
    base: ListBase,
    items: Seq<ListItem>,
    strings: Seq<Seq<char>>,
    tabled: Seq<Seq<char>>,
) -> bool {
    forall|i: int|
        0 <= i < items.len() && (#[trigger] items[i]) is String ==> match base {
            ListBase::String => strings.contains(item_string(items[i])->0),
            ListBase::Boxed => tabled.contains(item_string(items[i])->0),
            _ => true,
        }
}

proof fn lemma_items_data_stays(
    base: ListBase,
    items: Seq<ListItem>,
    tabled: Seq<Seq<char>>,
    more: Seq<Seq<char>>,
    strings: Seq<Seq<char>>,
)
    requires
        grows(tabled, more),
        more.no_duplicates(),
        base != ListBase::String,
        strings_known(base, items, strings, tabled),
    ensures
        items_data(base, items, more) == items_data(base, items, tabled),
    decreases items.len(),
{
    if items.len() > 0 {
        assert(strings_known(base, items.drop_last(), strings, tabled)) by {
            assert forall|i: int| 0 <= i < items.drop_last().len() && (#[trigger] items.drop_last()[i]) is String
                implies match base {
                ListBase::String => strings.contains(item_string(items.drop_last()[i])->0),
                ListBase::Boxed => tabled.contains(item_string(items.drop_last()[i])->0),
                _ => true,
            } by {
                assert(items.drop_last()[i] == items[i]);
            }
        }
        lemma_items_data_stays(base, items.drop_last(), tabled, more, strings);
        let it = items.last();
        assert(it == items[items.len() - 1]);
        if let ListItem::String(s) = it {
            if base == ListBase::Boxed {
                assert(items[items.len() - 1] is String);
                assert(tabled.contains(item_string(items[items.len() - 1])->0));
                lemma_index_stays(tabled, more, s@);
                assert(boxed_value(it, more) == boxed_value(it, tabled));
            }
        }
    }
}

/// Writes the `n` low bytes of `x` after `out`.
fn push_le_bytes(out: &mut Vec<u8>, x: u64, n: u32)
    requires
        n <= 8,
    ensures
        final(out)@ == old(out)@ + le_bytes(x as nat, n as nat),
{
    let mut v: u64 = x;
    let mut k: u32 = 0;
    while k < n
        invariant
            k <= n,
            out@ + le_bytes(v as nat, (n - k) as nat) == old(out)@ + le_bytes(x as nat, n as nat),
        decreases n - k,
    {
        let ghost before = out@;
        out.push((v % 256) as u8);
        proof {
            assert(le_bytes(v as nat, (n - k) as nat) == seq![((v as nat) % 256) as u8] + le_bytes(
                (v as nat) / 256,
                (n - k - 1) as nat,
            ));
            assert(out@ + le_bytes((v / 256) as nat, (n - k - 1) as nat) =~= before + le_bytes(
                v as nat,
                (n - k) as nat,
            ));
        }
        v = v / 256;
        k = k + 1;
    }
    assert(le_bytes(v as nat, 0) =~= Seq::<u8>::empty());
    assert(out@ =~= out@ + le_bytes(v as nat, 0));
}

/// The data segment of a list that is not of strings, registering the
/// strings of a boxed list among the tabled strings.
fn list_data(l: &ListInit, tabled: &mut TabledStringRegistry) -> (r: Result<Vec<u8>, ListError>)
    requires
        old(tabled).well_formed(),
        l.base != ListBase::String,
    ensures
        final(tabled).well_formed(),
        grows(old(tabled).strings(), final(tabled).strings()),
        r is Ok <==> forall|i: int| 0 <= i < l.initial@.len() ==> item_fits(l.base, #[trigger] l.initial@[i])
            && (l.base == ListBase::Boxed && l.initial@[i] is String ==> final(tabled).strings().index_of(
                item_string(l.initial@[i])->0) <= i64::MAX),
        r matches Ok(bytes) ==> bytes@ == items_data(l.base, l.initial@, final(tabled).strings())
            && strings_known(l.base, l.initial@, Seq::empty(), final(tabled).strings()),
        r matches Err(e) ==> (e == ListError::IndexOutOfBounds || e == ListError::WrongItem
            || e == ListError::NotAnInteger),
        r == Err::<Vec<u8>, ListError>(ListError::IndexOutOfBounds) ==> old(tabled).strings().len()
            + l.initial@.len() > i64::MAX,
        r is Err && r != Err::<Vec<u8>, ListError>(ListError::IndexOutOfBounds) ==> exists|i: int|
            0 <= i < l.initial@.len() && !item_fits(l.base, #[trigger] l.initial@[i]),
        final(tabled).strings().len() <= old(tabled).strings().len() + l.initial@.len(),
{
    let mut out: Vec<u8> = Vec::new();
    let mut i: usize = 0;
    proof {
        tabled.lemma_strings_distinct();
    }
    while i < l.initial.len()
        invariant
            tabled.well_formed(),
            grows(old(tabled).strings(), tabled.strings()),
            i <= l.initial@.len(),
            l.base != ListBase::String,
            forall|j: int| 0 <= j < i ==> item_fits(l.base, #[trigger] l.initial@[j])
                && (l.base == ListBase::Boxed && l.initial@[j] is String ==> tabled.strings().index_of(
                item_string(l.initial@[j])->0) <= i64::MAX),
            strings_known(l.base, l.initial@.subrange(0, i as int), Seq::empty(), tabled.strings()),
            out@ == items_data(l.base, l.initial@.subrange(0, i as int), tabled.strings()),
            tabled.strings().len() <= old(tabled).strings().len() + i,
            tabled.strings().no_duplicates(),
        decreases l.initial@.len() - i,
    {
        let ghost t0 = tabled.strings();
        let ghost prefix = l.initial@.subrange(0, i as int);
        let ghost next = l.initial@.subrange(0, i + 1);
        proof {
            assert(next.drop_last() =~= prefix);
            assert(next.last() == l.initial@[i as int]);
        }
        match l.base {
            ListBase::QuasiInt => {
                let v: i32 = match &l.initial[i] {
                    ListItem::Int(x) => *x,
                    ListItem::Bool(b) => if *b { 1 } else { 0 },
                    ListItem::Float { as_int, .. } => match as_int {
                        Some(x) => *x,
                        None => return Err(ListError::NotAnInteger),
                    },
                    ListItem::String(_) => return Err(ListError::WrongItem),
                };
                push_le_bytes(&mut out, (v as u32) as u64, 4);
            },
            ListBase::Float => {
                let bits: u64 = match &l.initial[i] {
                    ListItem::Float { bits, .. } => *bits,
                    _ => return Err(ListError::WrongItem),
                };
                push_le_bytes(&mut out, bits, 8);
            },
            _ => {
                let v: u64 = match &l.initial[i] {
                    ListItem::Int(x) => (*x as i64) as u64,
                    ListItem::Bool(b) => if *b { 1 } else { 0 },
                    ListItem::Float { bits, .. } => *bits,
                    ListItem::String(s) => {
                        let ghost t0s = tabled.strings();
                        let res = tabled.register_default::<u64>(s.clone());
                        proof {
                            if !t0s.contains(s@) {
                                assert(tabled.strings()[t0s.len() as int] == s@);
                            }
                            assert(tabled.strings().contains(s@));
                            tabled.lemma_strings_distinct();
                            let k = tabled.strings().index_of(s@);
                            assert(tabled.strings()[k] == s@);
                        }
                        let idx: u64 = match res {
                            Ok(x) => x,
                            Err(_) => return Err(ListError::IndexOutOfBounds),
                        };
                        if idx > 0x7fff_ffff_ffff_ffff {
                            return Err(ListError::IndexOutOfBounds);
                        }
                        idx
                    },
                };
                push_le_bytes(&mut out, v, 8);
            },
        }
        proof {
            let t1 = tabled.strings();
            tabled.lemma_strings_distinct();
            lemma_grows_trans(old(tabled).strings(), t0, t1);
            lemma_items_data_stays(l.base, prefix, t0, t1, Seq::empty());
            assert(strings_known(l.base, next, Seq::empty(), t1)) by {
                assert forall|j: int| 0 <= j < next.len() && (#[trigger] next[j]) is String implies match l.base {
                    ListBase::String => Seq::<Seq<char>>::empty().contains(item_string(next[j])->0),
                    ListBase::Boxed => t1.contains(item_string(next[j])->0),
                    _ => true,
                } by {
                    if j < i {
                        assert(next[j] == prefix[j]);
                        if l.base == ListBase::Boxed {
                            lemma_index_stays(t0, t1, item_string(next[j])->0);
                        }
                    } else if l.base == ListBase::Boxed {
                        assert(t1.contains(item_string(next[j])->0));
                    }
                }
            }
            assert forall|j: int| 0 <= j < i + 1 implies item_fits(l.base, #[trigger] l.initial@[j])
                && (l.base == ListBase::Boxed && l.initial@[j] is String ==> t1.index_of(
                item_string(l.initial@[j])->0) <= i64::MAX) by {
                if j < i && l.base == ListBase::Boxed && l.initial@[j] is String {
                    assert(prefix[j] == l.initial@[j]);
                    lemma_index_stays(t0, t1, item_string(l.initial@[j])->0);
                }
            }
        }
        i = i + 1;
    }
    proof {
        assert(l.initial@.subrange(0, l.initial@.len() as int) =~= l.initial@);
    }
    Ok(out)
}

/// The strings of a list of strings, registered among the imported strings,
/// as the element segment that fills its array.
fn list_elements(l: &ListInit, strings: &mut StringRegistry) -> (r: Result<Vec<u32>, ListError>)
    requires
        old(strings).well_formed(),
        l.base == ListBase::String,
    ensures
        final(strings).well_formed(),
        grows(old(strings).strings(), final(strings).strings()),
        final(strings).strings().len() <= old(strings).strings().len() + l.initial@.len(),
        r is Ok <==> forall|i: int| 0 <= i < l.initial@.len() ==> (#[trigger] l.initial@[i]) is String
            && final(strings).strings().index_of(item_string(l.initial@[i])->0) <= u32::MAX,
        r matches Ok(v) ==> v@ == items_elements(l.initial@, final(strings).strings())
            && strings_known(l.base, l.initial@, final(strings).strings(), Seq::empty()),
        r matches Err(e) ==> (e == ListError::IndexOutOfBounds || e == ListError::WrongItem),
        r == Err::<Vec<u32>, ListError>(ListError::IndexOutOfBounds) ==> old(strings).strings().len()
            + l.initial@.len() > u32::MAX,
        r == Err::<Vec<u32>, ListError>(ListError::WrongItem) ==> exists|i: int|
            0 <= i < l.initial@.len() && !((#[trigger] l.initial@[i]) is String),
{
    let mut out: Vec<u32> = Vec::new();
    let mut i: usize = 0;
    proof {
        strings.lemma_strings_distinct();
    }
    while i < l.initial.len()
        invariant
            strings.well_formed(),
            strings.strings().no_duplicates(),
            grows(old(strings).strings(), strings.strings()),
            strings.strings().len() <= old(strings).strings().len() + i,
            i <= l.initial@.len(),
            l.base == ListBase::String,
            forall|j: int| 0 <= j < i ==> (#[trigger] l.initial@[j]) is String
                && strings.strings().contains(item_string(l.initial@[j])->0)
                && strings.strings().index_of(item_string(l.initial@[j])->0) <= u32::MAX,
            out@ == items_elements(l.initial@.subrange(0, i as int), strings.strings()),
        decreases l.initial@.len() - i,
    {
        let ghost t0 = strings.strings();
        let idx: u32 = match &l.initial[i] {
            ListItem::String(s) => {
                let res = strings.register_default::<u32>(s.clone());
                proof {
                    if !t0.contains(s@) {
                        assert(strings.strings()[t0.len() as int] == s@);
                    }
                    assert(strings.strings().contains(s@));
                    strings.lemma_strings_distinct();
                    let k = strings.strings().index_of(s@);
                    assert(strings.strings()[k] == s@);
                }
                match res {
                    Ok(x) => x,
                    Err(_) => return Err(ListError::IndexOutOfBounds),
                }
            },
            _ => {
                assert(!(l.initial@[i as int] is String));
                return Err(ListError::WrongItem);
            },
        };
        out.push(idx);
        proof {
            let t1 = strings.strings();
            lemma_grows_trans(old(strings).strings(), t0, t1);
            assert forall|j: int| 0 <= j < i + 1 implies (#[trigger] l.initial@[j]) is String
                && t1.contains(item_string(l.initial@[j])->0)
                && t1.index_of(item_string(l.initial@[j])->0) <= u32::MAX by {
                if j < i {
                    lemma_index_stays(t0, t1, item_string(l.initial@[j])->0);
                }
            }
            assert(out@ =~= items_elements(l.initial@.subrange(0, i + 1), t1)) by {
                assert forall|j: int| 0 <= j < i implies #[trigger] out@[j] == items_elements(
                    l.initial@.subrange(0, i + 1),
                    t1,
                )[j] by {
                    lemma_index_stays(t0, t1, item_string(l.initial@[j])->0);
                }
            }
        }
        i = i + 1;
    }
    proof {
        assert(l.initial@.subrange(0, l.initial@.len() as int) =~= l.initial@);
    }
    Ok(out)
}

/// The strings that list `l` registers are among `strings` and `tabled`.
pub open spec fn list_known(l: ListInit, strings: Seq<Seq<char>>, tabled: Seq<Seq<char>>) -> bool {
    strings_known(l.base, l.initial@, strings, tabled)
}

proof fn lemma_elements_stay(items: Seq<ListItem>, s0: Seq<Seq<char>>, s1: Seq<Seq<char>>)
    requires
        grows(s0, s1),
        s1.no_duplicates(),
        strings_known(ListBase::String, items, s0, Seq::empty()),
        forall|i: int| 0 <= i < items.len() ==> (#[trigger] items[i]) is String,
    ensures
        items_elements(items, s1) == items_elements(items, s0),
{
    assert forall|i: int| 0 <= i < items.len() implies #[trigger] items_elements(items, s1)[i]
        == items_elements(items, s0)[i] by {
        assert(items[i] is String);
        lemma_index_stays(s0, s1, item_string(items[i])->0);
    }
    assert(items_elements(items, s1) =~= items_elements(items, s0));
}

/// The segments of lists whose strings are registered stay as the
/// registries grow.
proof fn lemma_lists_stay(
    ls: Seq<ListInit>,
    s0: Seq<Seq<char>>,
    s1: Seq<Seq<char>>,
    t0: Seq<Seq<char>>,
    t1: Seq<Seq<char>>,
)
    requires
        grows(s0, s1),
        grows(t0, t1),
        s1.no_duplicates(),
        t1.no_duplicates(),
        forall|k: int| 0 <= k < ls.len() ==> list_known(#[trigger] ls[k], s0, t0),
        forall|k: int|
            0 <= k < ls.len() && (#[trigger] ls[k]).base == ListBase::String ==> forall|i: int|
                0 <= i < ls[k].initial@.len() ==> (#[trigger] ls[k].initial@[i]) is String,
    ensures
        lists_data(ls, t1) == lists_data(ls, t0),
        lists_elements(ls, s1) == lists_elements(ls, s0),
        forall|k: int| 0 <= k < ls.len() ==> list_known(#[trigger] ls[k], s1, t1),
    decreases ls.len(),
{
    if ls.len() > 0 {
        let before = ls.drop_last();
        assert forall|k: int| 0 <= k < before.len() implies list_known(#[trigger] before[k], s0, t0) by {
            assert(before[k] == ls[k]);
        }
        assert forall|k: int|
            0 <= k < before.len() && (#[trigger] before[k]).base == ListBase::String implies forall|i: int|
                0 <= i < before[k].initial@.len() ==> (#[trigger] before[k].initial@[i]) is String by {
            assert(before[k] == ls[k]);
        }
        lemma_lists_stay(before, s0, s1, t0, t1);
        let l = ls.last();
        assert(l == ls[ls.len() - 1]);
        assert(list_known(l, s0, t0));
        if l.base == ListBase::String {
            lemma_elements_stay(l.initial@, s0, s1);
        } else {
            lemma_items_data_stays(l.base, l.initial@, t0, t1, s0);
        }
        assert forall|k: int| 0 <= k < ls.len() implies list_known(#[trigger] ls[k], s1, t1) by {
            let m = ls[k];
            assert(list_known(m, s0, t0));
            assert forall|i: int| 0 <= i < m.initial@.len() && (#[trigger] m.initial@[i]) is String implies match m.base {
                ListBase::String => s1.contains(item_string(m.initial@[i])->0),
                ListBase::Boxed => t1.contains(item_string(m.initial@[i])->0),
                _ => true,
            } by {
                if m.base == ListBase::String {
                    lemma_index_stays(s0, s1, item_string(m.initial@[i])->0);
                } else if m.base == ListBase::Boxed {
                    lemma_index_stays(t0, t1, item_string(m.initial@[i])->0);
                }
            }
        }
    }
}

/// Every list's items fit it, and no list has more items than an `i32`
/// counts.
pub open spec fn lists_fit(ls: Seq<ListInit>) -> bool {
    forall|k: int|
        0 <= k < ls.len() ==> (#[trigger] ls[k]).initial@.len() <= i32::MAX && forall|i: int|
            0 <= i < ls[k].initial@.len() ==> item_fits(ls[k].base, #[trigger] ls[k].initial@[i])
}

/// The number of items of the lists `ls`.
pub open spec fn total_items(ls: Seq<ListInit>) -> int
    decreases ls.len(),
{
    if ls.len() == 0 {
        0
    } else {
        total_items(ls.drop_last()) + ls.last().initial@.len()
    }
}

/// Plans the initialisation of the lists `lists`, in order, after
/// `data_count` data and `elem_count` element segments, the module having
/// `imported_global_count` imported globals: each list's array global is got,
/// and filled from its offset 0 with its items from offset 0 of its segment.
/// The strings of lists of strings are registered among the imported strings,
/// those of boxed lists among the tabled strings. It fails when a list's
/// items do not fit it or are too many, or when an index does not fit;
/// it succeeds when the items fit and the indices have room.
pub fn finish_lists(
    lists: &Vec<ListInit>,
    strings: &mut StringRegistry,
    tabled: &mut TabledStringRegistry,
    imported_global_count: u32,
    data_count: u32,
    elem_count: u32,
) -> (r: Result<ListsPlan, ListError>)
    requires
        old(strings).well_formed(),
        old(tabled).well_formed(),
    ensures
        final(strings).well_formed(),
        final(tabled).well_formed(),
        grows(old(strings).strings(), final(strings).strings()),
        grows(old(tabled).strings(), final(tabled).strings()),
        r is Ok ==> lists_fit(lists@),
        r matches Ok(p) ==> {
            &&& p.start@ == lists_start(lists@, imported_global_count, data_count as int, elem_count as int)
            &&& p.data@.map_values(|v: Vec<u8>| v@) == lists_data(lists@, final(tabled).strings())
            &&& p.elements@.map_values(|v: Vec<u32>| v@) == lists_elements(
                lists@,
                final(strings).strings(),
            )
        },
        (lists_fit(lists@) && data_count + lists@.len() <= u32::MAX + 1 && elem_count + lists@.len()
            <= u32::MAX + 1 && old(strings).strings().len() + total_items(lists@) <= u32::MAX
            && old(tabled).strings().len() + total_items(lists@) <= i64::MAX && forall|k: int|
            0 <= k < lists@.len() ==> #[trigger] lists@[k].array_global + imported_global_count
                <= u32::MAX) ==> r is Ok,
{
    let mut start: Vec<WasmInstr> = Vec::new();
    let mut data: Vec<Vec<u8>> = Vec::new();
    let mut elements: Vec<Vec<u32>> = Vec::new();
    let ghost ls = lists@;
    let mut k: usize = 0;
    proof {
        strings.lemma_strings_distinct();
        tabled.lemma_strings_distinct();
    }
    while k < lists.len()
        invariant
            ls == lists@,
            k <= ls.len(),
            strings.well_formed(),
            tabled.well_formed(),
            strings.strings().no_duplicates(),
            tabled.strings().no_duplicates(),
            grows(old(strings).strings(), strings.strings()),
            grows(old(tabled).strings(), tabled.strings()),
            strings.strings().len() <= old(strings).strings().len() + total_items(ls.subrange(0, k as int)),
            tabled.strings().len() <= old(tabled).strings().len() + total_items(ls.subrange(0, k as int)),
            lists_fit(ls.subrange(0, k as int)),
            forall|j: int| 0 <= j < k ==> list_known(#[trigger] ls[j], strings.strings(), tabled.strings()),
            forall|j: int|
                0 <= j < k && (#[trigger] ls[j]).base == ListBase::String ==> forall|i: int|
                    0 <= i < ls[j].initial@.len() ==> (#[trigger] ls[j].initial@[i]) is String,
            data@.len() == data_lists(ls.subrange(0, k as int)),
            elements@.len() == k - data_lists(ls.subrange(0, k as int)),
            start@ == lists_start(ls.subrange(0, k as int), imported_global_count, data_count as int, elem_count as int),
            data@.map_values(|v: Vec<u8>| v@) == lists_data(ls.subrange(0, k as int), tabled.strings()),
            elements@.map_values(|v: Vec<u32>| v@) == lists_elements(ls.subrange(0, k as int), strings.strings()),
        decreases ls.len() - k,
    {
        let l = &lists[k];
        let ghost prefix = ls.subrange(0, k as int);
        let ghost next = ls.subrange(0, k + 1);
        let ghost s0 = strings.strings();
        let ghost t0 = tabled.strings();
        proof {
            assert(next.drop_last() =~= prefix);
            assert(next.last() == ls[k as int]);
            lemma_data_lists_bound(prefix);
            lemma_total_items_grows(ls, k as int);
        }
        let global = match l.array_global.checked_add(imported_global_count) {
            Some(g) => g,
            None => return Err(ListError::IndexOutOfBounds),
        };
        if l.initial.len() > 0x7fff_ffff {
            return Err(ListError::LengthOutOfBounds);
        }
        let len = l.initial.len() as i32;
        if l.base == ListBase::String {
            let elems = match list_elements(l, strings) {
                Ok(v) => v,
                Err(e) => {
                    proof {
                        if e == ListError::WrongItem {
                            let i = choose|i: int| 0 <= i < l.initial@.len() && !((#[trigger] l.initial@[i]) is String);
                            assert(!item_fits(l.base, l.initial@[i]));
                        }
                    }
                    return Err(e);
                },
            };
            proof {
                strings.lemma_strings_distinct();
            }
            if elements.len() as u64 > 0xffff_ffff - elem_count as u64 {
                return Err(ListError::IndexOutOfBounds);
            }
            let index = elem_count + elements.len() as u32;
            start.push(WasmInstr::GlobalGet(global));
            start.push(WasmInstr::I32Const(0));
            start.push(WasmInstr::I32Const(0));
            start.push(WasmInstr::I32Const(len));
            start.push(WasmInstr::ArrayInitElem { array_type_index: l.array_type, array_elem_index: index });
            let ghost ev = elems@;
            elements.push(elems);
            proof {
                let s1 = strings.strings();
                lemma_lists_stay(prefix, s0, s1, t0, t0);
                assert(elements@.map_values(|v: Vec<u32>| v@) =~= lists_elements(prefix, s0).push(ev));
            }
        } else {
            let bytes = match list_data(l, tabled) {
                Ok(v) => v,
                Err(e) => return Err(e),
            };
            proof {
                tabled.lemma_strings_distinct();
            }
            if data.len() as u64 > 0xffff_ffff - data_count as u64 {
                return Err(ListError::IndexOutOfBounds);
            }
            let index = data_count + data.len() as u32;
            start.push(WasmInstr::GlobalGet(global));
            start.push(WasmInstr::I32Const(0));
            start.push(WasmInstr::I32Const(0));
            start.push(WasmInstr::I32Const(len));
            start.push(WasmInstr::ArrayInitData { array_type_index: l.array_type, array_data_index: index });
            let ghost bv = bytes@;
            data.push(bytes);
            proof {
                let t1 = tabled.strings();
                lemma_lists_stay(prefix, s0, s0, t0, t1);
                assert(data@.map_values(|v: Vec<u8>| v@) =~= lists_data(prefix, t0).push(bv));
            }
        }
        proof {
            assert(start@ =~= lists_start(next, imported_global_count, data_count as int, elem_count as int));
            assert forall|j: int| 0 <= j < k + 1 implies list_known(#[trigger] ls[j], strings.strings(), tabled.strings()) by {
                if j < k {
                    assert(prefix[j] == ls[j]);
                }
            }
            assert(lists_fit(next)) by {
                assert forall|j: int| 0 <= j < next.len() implies (#[trigger] next[j]).initial@.len() <= i32::MAX
                    && forall|i: int| 0 <= i < next[j].initial@.len() ==> item_fits(next[j].base, #[trigger] next[j].initial@[i]) by {
                    if j < k {
                        assert(next[j] == prefix[j]);
                    }
                }
            }
        }
        k = k + 1;
    }
    proof {
        assert(ls.subrange(0, ls.len() as int) =~= ls);
    }
    Ok(ListsPlan { start, data, elements })
}

/// At most every list is filled from a data segment.
proof fn lemma_data_lists_bound(ls: Seq<ListInit>)
    ensures
        0 <= data_lists(ls) <= ls.len(),
    decreases ls.len(),
{
    if ls.len() > 0 {
        lemma_data_lists_bound(ls.drop_last());
    }
}

/// The items of a prefix of the lists grow with it, up to all of them.
proof fn lemma_total_items_grows(ls: Seq<ListInit>, k: int)
    requires
        0 <= k < ls.len(),
    ensures
        total_items(ls.subrange(0, k + 1)) == total_items(ls.subrange(0, k)) + ls[k].initial@.len(),
        total_items(ls.subrange(0, k + 1)) <= total_items(ls),
    decreases ls.len() - k,
{
    assert(ls.subrange(0, k + 1).drop_last() =~= ls.subrange(0, k));
    if k + 1 < ls.len() {
        lemma_total_items_grows(ls, k + 1);
    } else {
        assert(ls.subrange(0, k + 1) =~= ls);
    }
}

} // verus!