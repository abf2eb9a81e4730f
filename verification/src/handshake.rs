use vstd::prelude::*;
use crate::errors::LoadError;

verus! {

/// The data carried by a module's handshake declaration: the two version
/// identifiers that must equal the host's own, character for character,
/// before the module is accepted.
///
/// A module also declares a registration entry point; invoking it is the
/// business of whoever opened the module. Only the copied-out identifier
/// fields are validated here.
#[derive(Debug, PartialEq)]
pub struct PluginDeclaration {
    pub rustc_version: String,
    pub core_version: String,
}

impl PluginDeclaration {
    /// Both identifiers equal the host's own.
    pub open spec fn matches_host(&self, host: &PluginDeclaration) -> bool {
        self.rustc_version@ == host.rustc_version@ && self.core_version@ == host.core_version@
    }

    /// A copy carrying the same identifiers.
    pub fn duplicate(&self) -> (r: PluginDeclaration)
        ensures
            r.rustc_version@ == self.rustc_version@,
            r.core_version@ == self.core_version@,
    {
        PluginDeclaration {
            rustc_version: self.rustc_version.clone(),
            core_version: self.core_version.clone(),
        }
    }
}

/// Accepts a module's declaration exactly when both of its version
/// identifiers equal the host's own; otherwise reports the mismatch,
/// carrying the host's identifiers as `expected` and the module's as
/// `found`.
pub fn validate_declaration(host: &PluginDeclaration, decl: &PluginDeclaration) -> (r: Result<
    (),
    LoadError,
>)
    ensures
        r is Ok <==> decl.matches_host(host),
        !decl.matches_host(host) ==> (match r {
            Err(LoadError::VersionMismatch { expected, found }) => {
                &&& expected.rustc_version@ == host.rustc_version@
                &&& expected.core_version@ == host.core_version@
                &&& found.rustc_version@ == decl.rustc_version@
                &&& found.core_version@ == decl.core_version@
            },
            _ => false,
        }),
{
    if decl.rustc_version == host.rustc_version && decl.core_version == host.core_version {
        Ok(())
    } else {
        Err(LoadError::VersionMismatch { expected: host.duplicate(), found: decl.duplicate() })
    }
}

} // verus!
