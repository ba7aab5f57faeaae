//! Request intake for a threshold-signing coordinator: validation of signature
//! requests, the anti-spam fee, the table of pending requests, and the
//! suspend/resume protocol that ties a caller's request to the signature that
//! the signing cluster delivers later.

pub mod types;
pub mod validator;
pub mod fee;
pub mod registry;
pub mod contract;
