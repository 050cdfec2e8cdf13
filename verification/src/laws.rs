//! What the operations of the library are for, as laws that hold of all inputs. Each is
//! stated over the inputs and the results, with the names and texts that a caller sees
//! written out.

pub mod children;
pub mod client;
pub mod config;
pub mod fulltext;
pub mod json;
pub mod merge;
pub mod merge_flow;
pub mod prompts;
pub mod resources;
pub mod text;
pub mod tools;
pub mod types;
