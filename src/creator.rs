use vstd::prelude::*;
use vstd::string::*;

use crate::alias::AllocatedAlias;
use crate::error::AliasError;
use crate::rule::ForwardingRule;

verus! {

/// The status with which the provider reports that an address is already routed.
pub const STATUS_CONFLICT: u16 = 409;

/// The status reported when the provider confirms no rule, or one for another address.
pub const STATUS_BAD_CONFIRMATION: u16 = 502;

/// The body of a rule-creation request.
#[derive(Debug, Clone)]
pub struct CreateRequest {
    /// The address to route.
    pub email: String,
    /// The mailbox it forwards to.
    pub destination: String,
}

/// The creation request routing the allocated address to `forward_to`.
pub fn creation_request(alias: &AllocatedAlias, forward_to: &str) -> (r: CreateRequest)
    ensures
        r.email@ == alias.full_address@,
        r.destination@ == forward_to@,
{
    CreateRequest { email: alias.full_address.clone(), destination: String::from_str(forward_to) }
}

/// The result of a creation request, given what the transport returned for it
/// (the rule in the provider's answer, if it held one): a rule the provider
/// confirmed for the requested address, or the error.
pub fn confirm_creation(alias: &AllocatedAlias, outcome: Result<Option<ForwardingRule>, AliasError>) -> (r: Result<ForwardingRule, AliasError>)
    ensures
        match outcome {
            Ok(None) => r matches Err(AliasError::ApiError { status, .. }) && status == STATUS_BAD_CONFIRMATION,
            Ok(Some(rule)) => if rule.email@ == alias.full_address@ {
                r == Ok::<ForwardingRule, AliasError>(rule)
            } else {
                r matches Err(AliasError::ApiError { status, .. }) && status == STATUS_BAD_CONFIRMATION
            },
            Err(AliasError::ApiError { status, message }) => if status == STATUS_CONFLICT {
                r == Err::<ForwardingRule, AliasError>(AliasError::AliasTaken)
            } else {
                r == Err::<ForwardingRule, AliasError>(AliasError::ApiError { status, message })
            },
            Err(e) => r == Err::<ForwardingRule, AliasError>(e),
        },
{
    match outcome {
        Ok(None) => Err(AliasError::ApiError {
            status: STATUS_BAD_CONFIRMATION,
            message: String::from_str("the provider's answer held no rule"),
        }),
        Ok(Some(rule)) => if rule.email == alias.full_address {
            Ok(rule)
        } else {
            Err(AliasError::ApiError {
                status: STATUS_BAD_CONFIRMATION,
                message: String::from_str("the provider confirmed a rule for another address"),
            })
        },
        Err(AliasError::ApiError { status, message }) => if status == STATUS_CONFLICT {
            Err(AliasError::AliasTaken)
        } else {
            Err(AliasError::ApiError { status, message })
        },
        Err(e) => Err(e),
    }
}

} // verus!
