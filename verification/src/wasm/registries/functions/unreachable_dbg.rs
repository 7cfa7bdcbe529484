//! A function that traps, exported so that the module can be inspected.

use vstd::prelude::*;
use vstd::string::StringExecFns;
use super::{emit, new_body, MaybeStaticFunction, Populate, RegisterDeps, StaticFunction, WasmInstr};
use crate::registry::NamedRegistryItem;

verus! {

/// Traps. Used for exposing the module in a browser's developer tools.
pub struct UnreachableDbg;

/// The body of [`UnreachableDbg`].
pub open spec fn unreachable_dbg_body() -> Seq<WasmInstr> {
    Seq::empty().push(WasmInstr::Unreachable).push(WasmInstr::End)
}

impl UnreachableDbg {
    /// The function, exported as `"unreachable_dbg"`.
    pub fn populate() -> (r: StaticFunction)
        ensures
            r.instructions@ == unreachable_dbg_body(),
            r.params@.len() == 0,
            r.returns@.len() == 0,
            r.locals@.len() == 0,
            r.export matches Some(name) && name@ == "unreachable_dbg"@,
            r.well_formed(),
            r.closed(),
    {
        let ghost n: int = 0;
        let mut body = new_body();
        emit(&mut body, WasmInstr::Unreachable, Ghost(n));
        emit(&mut body, WasmInstr::End, Ghost(n));
        StaticFunction {
            instructions: body,
            params: Vec::new(),
            returns: Vec::new(),
            locals: Vec::new(),
            export: Some(String::from_str("unreachable_dbg")),
        }
    }
}

impl NamedRegistryItem<MaybeStaticFunction> for UnreachableDbg {
    open spec fn item_name() -> Seq<char> {
        "hyperquark::wasm::registries::functions::unreachable_dbg::UnreachableDbg"@
    }

    open spec fn item_value() -> MaybeStaticFunction {
        MaybeStaticFunction { static_function: None, register_deps: RegisterDeps::Nothing, maybe_populate: Populate::Never }
    }

    fn name() -> (r: String) {
        String::from_str("hyperquark::wasm::registries::functions::unreachable_dbg::UnreachableDbg")
    }

    fn value() -> (r: MaybeStaticFunction) {
        MaybeStaticFunction { static_function: None, register_deps: RegisterDeps::Nothing, maybe_populate: Populate::Never }
    }
}

} // verus!
