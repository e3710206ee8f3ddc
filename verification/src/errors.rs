use vstd::prelude::*;

verus! {

/// Every way the response-assembly core can fail. Nothing here is fatal:
/// each failure is reported to the caller, who decides whether to retry
/// the round trip with the conversation as it stands.
#[derive(Debug, Clone, Copy, PartialEq, Eq, Structural)]
pub enum Errors {
    /// A role string other than `user`, `assistant` or `system`.
    InvalidRole,
    /// A malformed event payload: invalid JSON, or a chunk without a
    /// usable first choice.
    DecodeError,
    /// An event arrived in a state that does not permit it, such as a
    /// content delta with no open message.
    ProtocolViolation,
    /// The transport collaborator failed; opaque to this core.
    TransportError,
    /// An unusable configuration, such as a rejected credential.
    ConfigError,
}

} // verus!
