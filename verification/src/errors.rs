use vstd::prelude::*;
use crate::handshake::PluginDeclaration;

verus! {

/// An error reported while invoking a registered function.
///
/// The framework itself raises only the `Other` form, for a name that was
/// never registered; everything else is a callable's own report, surfaced
/// to the caller unchanged.
#[derive(Debug, PartialEq)]
pub enum InvocationError {
    /// A callable's own check of its argument count failed.
    ArityMismatch { expected: usize, found: usize },
    /// Any other failure a callable reports, and the registry's own
    /// "name not found" condition.
    Other { msg: String },
}

/// An error reported while loading a module. All three forms are
/// recoverable: a failed load aborts only that attempt and leaves the
/// registry and every previously loaded module untouched.
#[derive(Debug, PartialEq)]
pub enum LoadError {
    /// The module could not be found or opened.
    Io { msg: String },
    /// The module exposes no handshake declaration.
    MissingDeclaration,
    /// The module's handshake declaration carries version identifiers
    /// that differ from the host's own.
    VersionMismatch { expected: PluginDeclaration, found: PluginDeclaration },
}

} // verus!
