//! Resource synthesis for declarative service plans: templated values, free
//! address pools and the drafts of inventory objects that a plan implies.

pub mod error;
pub mod json;
pub mod processable_value;
pub mod text;
pub mod free_ips;
pub mod config;
pub mod draft;
pub mod synthesis;
pub mod plan_processor;
pub mod cli;
