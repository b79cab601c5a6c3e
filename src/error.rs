use vstd::prelude::*;

verus! {

/// Why a call into a provider gave nothing for one query. The aggregator
/// never lets either variant escape: the provider simply contributes no
/// results to that query.
#[derive(Debug, Clone, PartialEq, Eq)]
pub enum InvocationError {
    /// The provider deliberately lacks the named capability.
    DoesNotProvide(String),
    /// Any other failure, with a description.
    Other(String),
}

/// Why one plugin file could not join the set of providers. Each is final
/// for that file only; the other files still load.
#[derive(Debug, Clone, PartialEq, Eq)]
pub enum LoadError {
    /// The shared library could not be opened; the loader's message.
    Open(String),
    /// The library has no readable plugin descriptor; the loader's message.
    MalformedPlugin(String),
    /// The descriptor's version tags differ from the host's.
    VersionMismatch,
    /// The registration entry point registered no provider.
    RegistrationFailed,
}

impl InvocationError {
    /// A generic failure carrying `message`.
    pub fn other(message: String) -> (r: InvocationError)
        ensures
            r == InvocationError::Other(message),
    {
        InvocationError::Other(message)
    }
}

} // verus!
