use vstd::prelude::*;

verus! {

/// Why a plugin could not be loaded.
#[derive(Clone, Copy, Debug, PartialEq, Eq, Structural)]
pub enum ErrorKind {
    /// The file could not be mapped into the process: it is missing, has the
    /// wrong format, or depends on something that cannot be resolved.
    Load,
    /// The library was mapped, but it does not export the factory.
    SymbolResolution,
}

/// A failed load: a chain of the registry's own account of what went wrong and
/// the loader's error underneath it.
pub struct PluginError {
    pub kind: ErrorKind,
    pub cause: libloading::Error,
}

/// The top-level message that goes with each kind of failure.
pub open spec fn message_of(kind: ErrorKind) -> Seq<char> {
    match kind {
        ErrorKind::Load => "Unable to load the plugin"@,
        ErrorKind::SymbolResolution => "The factory symbol wasn't found"@,
    }
}

impl PluginError {
    /// Puts the registry's account of a failure on top of the loader's error.
    pub fn new(kind: ErrorKind, cause: libloading::Error) -> (error: Self)
        ensures
            error == (PluginError { kind, cause }),
    {
        PluginError { kind, cause }
    }

    /// Which step of the load failed.
    pub fn kind(&self) -> (kind: ErrorKind)
        ensures
            kind == self.kind,
    {
        self.kind
    }

    /// The human-readable head of the chain.
    pub fn message(&self) -> (text: String)
        ensures
            text@ == message_of(self.kind),
    {
        match self.kind {
            ErrorKind::Load => "Unable to load the plugin".to_string(),
            ErrorKind::SymbolResolution => "The factory symbol wasn't found".to_string(),
        }
    }

    /// The loader's error that the chain ends in.
    pub fn cause(&self) -> (cause: &libloading::Error)
        ensures
            *cause == self.cause,
    {
        &self.cause
    }
}

} // verus!
