//! The compatibility check between the host and each plugin module.
use vstd::prelude::*;

verus! {

/// The pair of version stamps a module carries: the compiler release and
/// the plugin interface release.
#[derive(Debug)]
pub struct AbiVersion {
    pub toolchain_version: String,
    pub interface_version: String,
}

impl View for AbiVersion {
    type V = (Seq<char>, Seq<char>);

    open spec fn view(&self) -> (Seq<char>, Seq<char>) {
        (self.toolchain_version@, self.interface_version@)
    }
}

impl AbiVersion {
    pub fn new(toolchain_version: String, interface_version: String) -> (r: AbiVersion)
        ensures
            r.toolchain_version@ == toolchain_version@,
            r.interface_version@ == interface_version@,
    {
        AbiVersion { toolchain_version, interface_version }
    }

    pub fn clone_version(&self) -> (r: AbiVersion)
        ensures
            r@ == self@,
    {
        AbiVersion {
            toolchain_version: self.toolchain_version.clone(),
            interface_version: self.interface_version.clone(),
        }
    }

    /// Two modules are binary compatible only when both stamps are equal.
    pub fn is_compatible_with(&self, other: &AbiVersion) -> (r: bool)
        ensures
            r == (self@ == other@),
    {
        self.toolchain_version == other.toolchain_version
            && self.interface_version == other.interface_version
    }
}

/// Why a module could not be loaded. Nothing of a module is committed to the
/// host when one of these is returned.
#[derive(Debug)]
pub enum LoadError {
    /// The platform could not map the module at `path`.
    Open { path: String },
    /// The module at `path` does not export the plugin descriptor.
    MissingDescriptor { path: String },
    /// The module carries other version stamps than the host.
    IncompatibleVersion { expected: AbiVersion, found: AbiVersion },
    /// A plugin of this name is already registered.
    DuplicateName { name: String },
}

/// The compatibility gate: `Ok` exactly when the module's stamps equal the
/// host's, otherwise an error that carries both pairs.
pub fn check_compatibility(host: &AbiVersion, declared: &AbiVersion) -> (r: Result<(), LoadError>)
    ensures
        r is Ok <==> host@ == declared@,
        r matches Err(LoadError::IncompatibleVersion { expected, found })
            ==> expected@ == host@ && found@ == declared@,
        r is Err ==> r->Err_0 is IncompatibleVersion,
{
    if host.is_compatible_with(declared) {
        Ok(())
    } else {
        Err(LoadError::IncompatibleVersion {
            expected: host.clone_version(),
            found: declared.clone_version(),
        })
    }
}

} // verus!
