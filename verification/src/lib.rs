//! The logic of a Model Context Protocol server for Zotero: the requests that it sends
//! and the responses that it reads, its tools, resources and prompts, and the merging
//! of items.

pub mod children;
pub mod client;
pub mod config;
pub mod error;
pub mod fulltext;
pub mod json;
pub mod laws;
pub mod merge;
pub mod merge_flow;
pub mod path;
pub mod prompts;
pub mod resources;
pub mod text;
pub mod tools;
pub mod types;
