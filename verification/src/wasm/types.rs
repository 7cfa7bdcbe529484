//! The WebAssembly types and constant expressions that the registries hold,
//! as plain values. The module encoder receives them when a module is built.

use vstd::prelude::*;

verus! {

/// An abstract heap type.
#[derive(Clone, Copy, Debug, PartialEq, Eq, Structural)]
pub enum AbstractHeapType {
    Func,
    Extern,
    Any,
    NoneRef,
    NoExtern,
    NoFunc,
    Eq,
    Struct,
    Array,
    I31,
}

/// A heap type: a type of the module's type section, or an abstract one.
#[derive(Clone, Copy, Debug, PartialEq, Eq, Structural)]
pub enum HeapType {
    Concrete(u32),
    Abstract { shared: bool, ty: AbstractHeapType },
}

/// A reference type.
#[derive(Clone, Copy, Debug, PartialEq, Eq, Structural)]
pub struct RefType {
    pub nullable: bool,
    pub heap_type: HeapType,
}

/// A value type.
#[derive(Clone, Copy, Debug, PartialEq, Eq, Structural)]
pub enum ValType {
    I32,
    I64,
    F32,
    F64,
    V128,
    Ref(RefType),
}

/// An instruction of an extended constant expression.
#[derive(Clone, Copy, Debug, PartialEq, Eq, Structural)]
pub enum ConstInstr {
    I32Const(i32),
    /// An array of the type at `array_type_index`, of the `array_size`
    /// values on the stack.
    ArrayNewFixed { array_type_index: u32, array_size: u32 },
}

/// A constant expression that initialises a global or a table.
#[derive(Clone, Debug, PartialEq, Eq)]
pub enum ConstExpr {
    I32Const(i32),
    I64Const(i64),
    /// A 64-bit float, by its bits.
    F64Const(u64),
    GlobalGet(u32),
    RefFunc(u32),
    RefNull(HeapType),
    /// A sequence of constant instructions.
    Extended(Vec<ConstInstr>),
}

impl ValType {
    /// A non-nullable reference to the type at `index` of the type section.
    pub open spec fn non_null_concrete(index: u32) -> ValType {
        ValType::Ref(RefType { nullable: false, heap_type: HeapType::Concrete(index) })
    }

    /// A non-nullable reference to the type at `index` of the type section.
    pub fn non_null_concrete_value(index: u32) -> (r: ValType)
        ensures
            r == ValType::non_null_concrete(index),
    {
        ValType::Ref(RefType { nullable: false, heap_type: HeapType::Concrete(index) })
    }
}

impl RefType {
    /// A nullable reference to any function.
    pub open spec fn funcref() -> RefType {
        RefType {
            nullable: true,
            heap_type: HeapType::Abstract { shared: false, ty: AbstractHeapType::Func },
        }
    }

    /// A nullable reference to any host value.
    pub open spec fn externref() -> RefType {
        RefType {
            nullable: true,
            heap_type: HeapType::Abstract { shared: false, ty: AbstractHeapType::Extern },
        }
    }

    /// A nullable reference to any function.
    pub fn funcref_value() -> (r: RefType)
        ensures
            r == RefType::funcref(),
    {
        RefType {
            nullable: true,
            heap_type: HeapType::Abstract { shared: false, ty: AbstractHeapType::Func },
        }
    }

    /// A nullable reference to any host value.
    pub fn externref_value() -> (r: RefType)
        ensures
            r == RefType::externref(),
    {
        RefType {
            nullable: true,
            heap_type: HeapType::Abstract { shared: false, ty: AbstractHeapType::Extern },
        }
    }
}

} // verus!
