//! The environment that a generated module runs in.

use vstd::prelude::*;

verus! {

/// Where the generated module is run, which decides its imports.
#[derive(Debug, Copy, Clone, PartialEq, Eq, Structural)]
#[non_exhaustive]
pub enum ExternalEnvironment {
    WebBrowser,
}

} // verus!
