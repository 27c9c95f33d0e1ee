//! REST to A2A `SendMessage` bridge: the verified core.

pub mod a2a;
pub mod binding;
pub mod cache;
pub mod cache_laws;
pub mod config;
pub mod config_map;
pub mod continuation;
pub mod dataweave;
pub mod digest;
pub mod json;
pub mod jsonrpc;
pub mod policy;
pub mod policy_laws;
pub mod response_build;
pub mod select;
pub mod text;
