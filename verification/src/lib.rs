//! Governance checks for the open source projects of an organisation.

pub mod error;
pub mod github;
pub mod order;
pub mod policy;
pub mod slack;
pub mod text;
pub mod validate;
