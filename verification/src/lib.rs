use vstd::prelude::*;

pub mod auth_session;
pub mod bodies;
pub mod cli;
pub mod commands;
pub mod config;
pub mod deploy_archive;
pub mod deploy_workflow;
pub mod env_vars;
pub mod fault;
pub mod git;
pub mod http;
pub mod lines;
pub mod nesting;
pub mod new_command;
pub mod numbers;
pub mod outside;
pub mod pipeline_watch;
pub mod platform_client;
pub mod printer;
pub mod query_table;
pub mod release_installer;
pub mod scaffold;
pub mod scaffold_command;
pub mod sse;
pub mod stage_table;
pub mod text;
pub mod version;
pub mod watch;

verus! {

} // verus!
