use vstd::prelude::*;

verus! {

/// Every way in which provisioning an alias can fail.
#[derive(Debug, Clone, PartialEq, Eq)]
pub enum AliasError {
    /// A configuration field is missing or empty; nothing was sent.
    ConfigError,
    /// The requested local-part holds characters an address cannot carry.
    InvalidAlias,
    /// The address is already routed, seen locally or reported by the provider.
    AliasTaken,
    /// Every generated candidate collided with an existing rule.
    AllocationExhausted,
    /// The provider answered with a non-success status.
    ApiError { status: u16, message: String },
    /// The request never got an answer, after all attempts.
    NetworkError { message: String },
}

} // verus!
