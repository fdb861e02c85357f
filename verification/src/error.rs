//! Errors of calls to a provider and of the work around them.
use vstd::prelude::*;
use vstd::string::*;

verus! {

/// What went wrong in a call to a provider or in the work around it, with a text that
/// says more.
#[derive(Debug)]
pub enum RpcError {
    /// The request exceeded its deadline.
    DeadlineExceeded(String),
    /// A capability provider was called before it was set up.
    NotInitialized(String),
    /// The receiver has no such method.
    MethodNotHandled(String),
    /// The receiver leaves out an optional method.
    NotImplemented,
    /// The host could not send.
    HostError(String),
    /// A message could not be read.
    Deser(String),
    /// A message could not be written.
    Ser(String),
    /// The call failed on its way.
    Rpc(String),
    /// The message bus failed.
    Nats(String),
    /// A parameter was refused.
    InvalidParameter(String),
    /// The actor's handler failed.
    ActorHandler(String),
    /// The provider did not start, or a link to it could not be put.
    ProviderInit(String),
    /// The time for a reply ran out.
    Timeout(String),
    /// Anything else.
    Other(String),
}

impl RpcError {
    /// The error for input or output that failed with the text `cause`.
    pub fn io(cause: &str) -> (error: RpcError)
        ensures
            error matches RpcError::Other(text) && text@ == "io: "@ + cause@,
    {
        RpcError::Other("io: ".to_owned().concat(cause))
    }
}

} // verus!
