#![allow(unused_imports)]

use vstd::prelude::*;

pub mod text;
pub mod acp;
pub mod adapter;
pub mod argv;
pub mod agents_md;
pub mod builtin;
pub mod bundle;
pub mod capture;
pub mod command;
pub mod decode;
pub mod context_layer;
pub mod envelope;
pub mod health;
pub mod interactive;
pub mod json;
pub mod manifest;
pub mod manifest_check;
pub mod manifest_patch;
pub mod mcp_servers;
pub mod outcome;
pub mod memory;
pub mod paths;
pub mod profile;
pub mod registry;
pub mod provider;
pub mod provider_decoder;
pub mod runtime_plan;
pub mod server_url;
pub mod session;
pub mod signature;
pub mod usage;

verus! {
}
