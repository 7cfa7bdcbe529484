//! What a run of instructions does: a small-step model of the instructions
//! that change a function's locals, its operand stack and the structs and
//! arrays of the heap, and of `if` blocks without `else`. Loops, branches
//! and calls are not modelled; a run that meets one (or that misuses a
//! value) traps.

use vstd::prelude::*;
use super::WasmInstr;
use vstd::arithmetic::power2::pow2;

verus! {

/// A value on the operand stack or in a local, field or element.
pub enum Value {
    /// A 32-bit integer, taken as signed.
    I32(int),
    /// A reference to the struct or array at an address of the heap.
    Ref(int),
    /// The null reference.
    Null,
    /// The default value of an array's element type.
    Default,
}

/// The state of a run: the operand stack (its top last), the locals
/// (parameters first), the fields of the structs and the elements of the
/// arrays by address, the address that the next array made takes, how many
/// blocks deep the run is in an `if` whose test failed (whose instructions
/// it passes over), and whether the run has trapped.
pub struct Machine {
    pub stack: Seq<Value>,
    pub locals: Seq<Value>,
    pub structs: Map<int, Seq<Value>>,
    pub arrays: Map<int, Seq<Value>>,
    pub next_address: int,
    pub skipping: nat,
    pub trapped: bool,
}

/// `x` wrapped into the signed 32-bit range, as `i32` arithmetic wraps.
pub open spec fn wrap_i32(x: int) -> int {
    let m = x % 0x1_0000_0000;
    if m >= 0x8000_0000 {
        m - 0x1_0000_0000
    } else {
        m
    }
}

/// The machine after trapping.
pub open spec fn trap(m: Machine) -> Machine {
    Machine { trapped: true, ..m }
}

/// The machine with the top `n` values of its stack removed.
pub open spec fn pop_n(m: Machine, n: int) -> Machine {
    Machine { stack: m.stack.subrange(0, m.stack.len() - n), ..m }
}

/// The value `i` places below the top of the stack (0 is the top).
pub open spec fn peek(m: Machine, i: int) -> Value {
    m.stack[m.stack.len() - 1 - i]
}

/// The machine with `v` pushed.
pub open spec fn push(m: Machine, v: Value) -> Machine {
    Machine { stack: m.stack.push(v), ..m }
}

/// One instruction.
pub open spec fn step(m: Machine, ins: WasmInstr) -> Machine {
    if m.trapped {
        m
    } else if m.skipping > 0 {
        match ins {
            WasmInstr::If | WasmInstr::Loop => Machine { skipping: m.skipping + 1, ..m },
            WasmInstr::End => Machine { skipping: (m.skipping - 1) as nat, ..m },
            _ => m,
        }
    } else {
        let depth = m.stack.len();
        match ins {
            WasmInstr::End => m,
            WasmInstr::If => if depth >= 1 && peek(m, 0) is I32 {
                if peek(m, 0)->I32_0 != 0 {
                    pop_n(m, 1)
                } else {
                    Machine { skipping: 1, ..pop_n(m, 1) }
                }
            } else {
                trap(m)
            },
            WasmInstr::LocalGet(k) => if k < m.locals.len() {
                push(m, m.locals[k as int])
            } else {
                trap(m)
            },
            WasmInstr::LocalSet(k) => if k < m.locals.len() && depth >= 1 {
                Machine { locals: m.locals.update(k as int, peek(m, 0)), ..pop_n(m, 1) }
            } else {
                trap(m)
            },
            WasmInstr::LocalTee(k) => if k < m.locals.len() && depth >= 1 {
                Machine { locals: m.locals.update(k as int, peek(m, 0)), ..m }
            } else {
                trap(m)
            },
            WasmInstr::I32Const(c) => push(m, Value::I32(c as int)),
            WasmInstr::I32Add | WasmInstr::I32Sub | WasmInstr::I32LtS | WasmInstr::I32Eq
            | WasmInstr::I32Shl => {
                if depth >= 2 && peek(m, 1) is I32 && peek(m, 0) is I32 {
                    let a = peek(m, 1)->I32_0;
                    let b = peek(m, 0)->I32_0;
                    let r = match ins {
                        WasmInstr::I32Add => wrap_i32(a + b),
                        WasmInstr::I32Sub => wrap_i32(a - b),
                        WasmInstr::I32LtS => if a < b {
                            1
                        } else {
                            0
                        },
                        WasmInstr::I32Shl => wrap_i32(a * pow2((b % 32) as nat)),
                        _ => if a == b {
                            1
                        } else {
                            0
                        },
                    };
                    push(pop_n(m, 2), Value::I32(r))
                } else {
                    trap(m)
                }
            },
            WasmInstr::I32Eqz => if depth >= 1 && peek(m, 0) is I32 {
                push(pop_n(m, 1), Value::I32(if peek(m, 0)->I32_0 == 0 { 1 } else { 0 }))
            } else {
                trap(m)
            },
            WasmInstr::StructGet { field_index, .. } => {
                if depth >= 1 && peek(m, 0) is Ref && m.structs.contains_key(peek(m, 0)->Ref_0)
                    && field_index < m.structs[peek(m, 0)->Ref_0].len() {
                    push(pop_n(m, 1), m.structs[peek(m, 0)->Ref_0][field_index as int])
                } else {
                    trap(m)
                }
            },
            WasmInstr::StructSet { field_index, .. } => {
                if depth >= 2 && peek(m, 1) is Ref && m.structs.contains_key(peek(m, 1)->Ref_0)
                    && field_index < m.structs[peek(m, 1)->Ref_0].len() {
                    let r = peek(m, 1)->Ref_0;
                    Machine {
                        structs: m.structs.insert(
                            r,
                            m.structs[r].update(field_index as int, peek(m, 0)),
                        ),
                        ..pop_n(m, 2)
                    }
                } else {
                    trap(m)
                }
            },
            WasmInstr::ArrayGet(_) => {
                if depth >= 2 && peek(m, 1) is Ref && m.arrays.contains_key(peek(m, 1)->Ref_0)
                    && peek(m, 0) is I32 && 0 <= peek(m, 0)->I32_0 < m.arrays[peek(
                    m,
                    1,
                )->Ref_0].len() {
                    push(pop_n(m, 2), m.arrays[peek(m, 1)->Ref_0][peek(m, 0)->I32_0])
                } else {
                    trap(m)
                }
            },
            WasmInstr::ArrayLen => if depth >= 1 && peek(m, 0) is Ref && m.arrays.contains_key(
                peek(m, 0)->Ref_0,
            ) {
                push(pop_n(m, 1), Value::I32(m.arrays[peek(m, 0)->Ref_0].len() as int))
            } else {
                trap(m)
            },
            WasmInstr::ArrayNewDefault(_) => if depth >= 1 && peek(m, 0) is I32 && peek(m, 0)->I32_0
                >= 0 {
                let a = m.next_address;
                Machine {
                    arrays: m.arrays.insert(
                        a,
                        Seq::new(peek(m, 0)->I32_0 as nat, |k: int| Value::Default),
                    ),
                    next_address: a + 1,
                    ..push(pop_n(m, 1), Value::Ref(a))
                }
            } else {
                trap(m)
            },
            WasmInstr::ArraySet(_) => {
                if depth >= 3 && peek(m, 2) is Ref && m.arrays.contains_key(peek(m, 2)->Ref_0)
                    && peek(m, 1) is I32 && 0 <= peek(m, 1)->I32_0 < m.arrays[peek(
                    m,
                    2,
                )->Ref_0].len() {
                    let a = peek(m, 2)->Ref_0;
                    Machine {
                        arrays: m.arrays.insert(a, m.arrays[a].update(peek(m, 1)->I32_0, peek(m, 0))),
                        ..pop_n(m, 3)
                    }
                } else {
                    trap(m)
                }
            },
            WasmInstr::ArrayCopy { .. } => {
                if depth >= 5 && peek(m, 4) is Ref && peek(m, 3) is I32 && peek(m, 2) is Ref
                    && peek(m, 1) is I32 && peek(m, 0) is I32 && m.arrays.contains_key(
                    peek(m, 4)->Ref_0,
                ) && m.arrays.contains_key(peek(m, 2)->Ref_0) {
                    let dst = peek(m, 4)->Ref_0;
                    let d = peek(m, 3)->I32_0;
                    let src = peek(m, 2)->Ref_0;
                    let o = peek(m, 1)->I32_0;
                    let n = peek(m, 0)->I32_0;
                    if 0 <= d && 0 <= o && 0 <= n && d + n <= m.arrays[dst].len() && o + n
                        <= m.arrays[src].len() {
                        Machine {
                            arrays: m.arrays.insert(
                                dst,
                                Seq::new(
                                    m.arrays[dst].len(),
                                    |k: int|
                                        if d <= k < d + n {
                                            m.arrays[src][o + k - d]
                                        } else {
                                            m.arrays[dst][k]
                                        },
                                ),
                            ),
                            ..pop_n(m, 5)
                        }
                    } else {
                        trap(m)
                    }
                } else {
                    trap(m)
                }
            },
            _ => trap(m),
        }
    }
}

/// The first `n` instructions of `code`, one after the other.
pub open spec fn run_n(m: Machine, code: Seq<WasmInstr>, n: nat) -> Machine
    decreases n,
{
    if n == 0 {
        m
    } else {
        step(run_n(m, code, (n - 1) as nat), code[n - 1])
    }
}

/// All of `code`, one instruction after the other.
pub open spec fn run(m: Machine, code: Seq<WasmInstr>) -> Machine {
    run_n(m, code, code.len())
}

/// The instruction writes local `k`.
pub open spec fn writes_local(ins: WasmInstr, k: u32) -> bool {
    ins == WasmInstr::LocalSet(k) || ins == WasmInstr::LocalTee(k)
}

} // verus!
