//! Provisioning and enumeration of email-forwarding aliases.
//!
//! The library holds the decisions of the provisioning flow: local-part
//! validation, collision-free allocation, pagination of the rule listing,
//! retry of transient transport failures and confirmation of created rules.
//! Performing the requests is left to the caller, which feeds the outcomes back.

pub mod error;
pub mod rule;
pub mod alias;
pub mod listing;
pub mod transport;
pub mod creator;
pub mod config;
pub mod email_list;

pub use error::AliasError;
pub use rule::ForwardingRule;
pub use alias::{AliasRequest, AllocatedAlias};
pub use config::Config;
