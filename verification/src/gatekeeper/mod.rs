//! The security verifier: a rule-based policy engine and the hooks that
//! consult it before filesystem operations.

pub mod policy;
pub mod hooks;
