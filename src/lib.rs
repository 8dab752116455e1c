//! Enforcement core of an endpoint data-loss-prevention agent: an
//! identifier-addressed filesystem index, the policy model, the kernel rules
//! derived from it, and the checks that run before a policy is committed.
pub mod text;
pub mod policy_intent;
pub mod paths;
pub mod kernel_policy;
pub mod wire;
pub mod fs_index;
mod fs_node;
pub mod scanner;
pub mod error;
pub mod path_resolver;
pub mod policy_store;
pub mod policy_guard;
pub mod policy_preview;
pub mod policy_dry_run;
pub mod policy_engine;
pub mod query;
pub mod protocol;
