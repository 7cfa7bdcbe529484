//! Flags that describe a global of the generated module.

use vstd::prelude::*;

verus! {

/// Whether a global can be written.
#[derive(Copy, Clone, Debug, PartialEq, Eq, Structural)]
pub struct Mutable(pub bool);

impl core::ops::Deref for Mutable {
    type Target = bool;

    fn deref(&self) -> (r: &bool)
        ensures
            *r == self.0,
    {
        &self.0
    }
}

/// Whether a global is exported to the host.
#[derive(Copy, Clone, Debug, PartialEq, Eq, Structural)]
pub struct Exportable(pub bool);

impl core::ops::Deref for Exportable {
    type Target = bool;

    fn deref(&self) -> (r: &bool)
        ensures
            *r == self.0,
    {
        &self.0
    }
}

} // verus!
