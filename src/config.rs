use vstd::prelude::*;
use vstd::string::*;

use crate::alias::AliasRequest;
use crate::error::AliasError;

verus! {

/// The account settings every run needs; all fields are required and non-empty.
#[derive(Debug, Clone)]
pub struct Config {
    pub cloudflare_account_id: String,
    pub cloudflare_forward_email: String,
    pub cloudflare_root_domain: String,
    pub cloudflare_token: String,
    pub cloudflare_zone: String,
}

/// Every field of `c` is filled in.
pub open spec fn is_complete(c: Config) -> bool {
    &&& c.cloudflare_account_id@.len() > 0
    &&& c.cloudflare_forward_email@.len() > 0
    &&& c.cloudflare_root_domain@.len() > 0
    &&& c.cloudflare_token@.len() > 0
    &&& c.cloudflare_zone@.len() > 0
}

/// Rejects a configuration with an empty field, before anything is sent.
pub fn validate_config(c: &Config) -> (r: Result<(), AliasError>)
    ensures
        r == if is_complete(*c) {
            Ok::<(), AliasError>(())
        } else {
            Err(AliasError::ConfigError)
        },
{
    if c.cloudflare_account_id.as_str().unicode_len() == 0
        || c.cloudflare_forward_email.as_str().unicode_len() == 0
        || c.cloudflare_root_domain.as_str().unicode_len() == 0
        || c.cloudflare_token.as_str().unicode_len() == 0
        || c.cloudflare_zone.as_str().unicode_len() == 0
    {
        Err(AliasError::ConfigError)
    } else {
        Ok(())
    }
}

impl Config {
    /// The allocation request for `desired_prefix` under this account's root
    /// domain and forwarding address.
    pub fn alias_request(&self, desired_prefix: Option<String>) -> (r: AliasRequest)
        ensures
            r.desired_prefix == desired_prefix,
            r.domain@ == self.cloudflare_root_domain@,
            r.forward_to@ == self.cloudflare_forward_email@,
    {
        AliasRequest {
            desired_prefix,
            domain: self.cloudflare_root_domain.clone(),
            forward_to: self.cloudflare_forward_email.clone(),
        }
    }
}

} // verus!
