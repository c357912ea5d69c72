use vstd::prelude::*;
use libloading::Library;

verus! {

/// `libloading::Library`: a dynamic library that is mapped into the process.
/// Nothing is claimed of what a handle holds. The registry never looks inside
/// one: it stores it, lends it to the factory lookup, and lets go of it during
/// teardown, which unmaps the library.
#[verifier::external_type_specification]
#[verifier::external_body]
pub struct ExLibrary(Library);

/// `libloading::Error`: the loader's own error. Nothing is claimed of what it
/// holds; it is carried through as the root cause of a failed load.
#[verifier::external_type_specification]
#[verifier::external_body]
pub struct ExLoaderError(libloading::Error);

/// What the loader gave for a path: a mapped library, or its error.
pub type Opened = Result<Library, libloading::Error>;

/// What the factory lookup on a stored library gave: a fresh plugin, or the
/// loader's error.
pub type Created<T> = Result<T, libloading::Error>;

/// The name of the factory that every plugin library exports: a function that
/// takes nothing and hands back a freshly constructed plugin.
pub fn factory_symbol() -> (symbol: &'static str)
    ensures
        symbol@ == "_plugin_create"@,
{
    "_plugin_create"
}

} // verus!
