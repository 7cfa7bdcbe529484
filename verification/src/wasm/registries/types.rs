//! Types of the module described at the type level: marker types that name
//! the reference and value types that the static functions work on, and the
//! registry of the module's compound types.

pub mod registration;
pub mod registry;
pub mod stack;

use vstd::prelude::*;
use vstd::string::StringExecFns;
use core::marker::PhantomData;

verus! {

/// A type-level description that names itself; the name keys the registry
/// items built from it.
pub trait TypeLabel {
    /// The type's name.
    spec fn label() -> Seq<char>;

    /// The type's name.
    fn label_string() -> (r: String)
        ensures
            r@ == Self::label(),
    ;
}

/// A type whose values have a default (zero or null), so that arrays of it
/// can be made without initial values.
pub trait TDefaultable {}

/// The `i32` value type.
pub struct TI32;

/// A nullable reference to any struct.
pub struct TStructRef;

/// A nullable reference to `T`.
pub struct TNullable<T>(PhantomData<T>);

/// A non-nullable reference to `T`.
pub struct TNonNullable<T>(PhantomData<T>);

/// A writable field of type `T`.
pub struct TMutField<T>(PhantomData<T>);

/// A read-only field of type `T`.
pub struct TConstField<T>(PhantomData<T>);

/// A struct whose fields are the list `Fields`: `()`, or a field and a list.
pub struct TStruct<Fields>(PhantomData<Fields>);

/// An array of elements of the field type `Field`.
pub struct TArray<Field>(PhantomData<Field>);

/// A function type with the value type lists `Params` and `Results`.
pub struct TFunc<Params, Results>(PhantomData<Params>, PhantomData<Results>);

/// The array of a dynamic array of `T`s.
pub type TDynArrayField<T> = TArray<TMutField<T>>;

/// The struct of a dynamic array of `T`s: its array and the number of its
/// elements in use.
pub type TDynArray<T> = TStruct<(TMutField<TNonNullable<TDynArrayField<T>>>, (TMutField<TI32>, ()))>;

/// The struct of a stack frame: the step to run and its argument struct.
pub struct TStackStruct;

/// The dynamic array of a thread's stack frames.
pub struct TStackArray;

/// The type of step functions.
pub struct TStepFunc;

impl TDefaultable for TI32 {}

impl<T> TDefaultable for TNullable<T> {}

/// Wraps `inner` into `prefix<inner>`.
pub open spec fn generic_label(prefix: Seq<char>, inner: Seq<char>) -> Seq<char> {
    prefix + "<"@ + inner + ">"@
}

pub(crate) fn generic_label_string(prefix: &str, inner: String) -> (r: String)
    ensures
        r@ == generic_label(prefix@, inner@),
{
    let mut s = String::from_str(prefix);
    s.append("<");
    s.append(inner.as_str());
    s.append(">");
    s
}

impl TypeLabel for TI32 {
    open spec fn label() -> Seq<char> {
        "hyperquark::wasm::registries::types::TI32"@
    }

    fn label_string() -> (r: String) {
        String::from_str("hyperquark::wasm::registries::types::TI32")
    }
}

impl TypeLabel for TStructRef {
    open spec fn label() -> Seq<char> {
        "hyperquark::wasm::registries::types::TStructRef"@
    }

    fn label_string() -> (r: String) {
        String::from_str("hyperquark::wasm::registries::types::TStructRef")
    }
}

impl TypeLabel for TStackStruct {
    open spec fn label() -> Seq<char> {
        "hyperquark::wasm::registries::types::TStackStruct"@
    }

    fn label_string() -> (r: String) {
        String::from_str("hyperquark::wasm::registries::types::TStackStruct")
    }
}

impl TypeLabel for TStackArray {
    open spec fn label() -> Seq<char> {
        "hyperquark::wasm::registries::types::TStackArray"@
    }

    fn label_string() -> (r: String) {
        String::from_str("hyperquark::wasm::registries::types::TStackArray")
    }
}

impl TypeLabel for TStepFunc {
    open spec fn label() -> Seq<char> {
        "hyperquark::wasm::registries::types::TStepFunc"@
    }

    fn label_string() -> (r: String) {
        String::from_str("hyperquark::wasm::registries::types::TStepFunc")
    }
}

impl<T: TypeLabel> TypeLabel for TNullable<T> {
    open spec fn label() -> Seq<char> {
        generic_label("hyperquark::wasm::registries::types::TNullable"@, T::label())
    }

    fn label_string() -> (r: String) {
        generic_label_string("hyperquark::wasm::registries::types::TNullable", T::label_string())
    }
}

impl<T: TypeLabel> TypeLabel for TNonNullable<T> {
    open spec fn label() -> Seq<char> {
        generic_label("hyperquark::wasm::registries::types::TNonNullable"@, T::label())
    }

    fn label_string() -> (r: String) {
        generic_label_string("hyperquark::wasm::registries::types::TNonNullable", T::label_string())
    }
}

} // verus!
