//! Building blocks of an agent command-line tool.

use vstd::prelude::*;

pub mod agent_data;
pub mod agent_tools;
pub mod agents;
pub mod argument_laws;
pub mod chat_loop;
pub mod clock;
pub mod collection;
pub mod command_laws;
pub mod commands;
pub mod context;
pub mod conversations;
pub mod database;
pub mod dispatch;
pub mod dispatch_laws;
pub mod dummy_llm;
pub mod file_laws;
pub mod file_tools;
pub mod github;
pub mod history;
pub mod json;
pub mod kitty;
pub mod latex_doc;
pub mod latex_laws;
pub mod latex_split;
pub mod listing;
pub mod mcp;
pub mod messages;
pub mod notifications;
pub mod numbers;
pub mod options;
pub mod order;
pub mod patch_file;
pub mod patch_preview;
pub mod progress;
pub mod replacing;
pub mod report_laws;
pub mod rows;
pub mod rpc;
pub mod schedule;
pub mod session;
pub mod session_laws;
pub mod status_bar;
pub mod store;
pub mod store_laws;
pub mod summarize;
pub mod table;
pub mod task_store;
pub mod text;
pub mod text_laws;
pub mod tool_args;
pub mod tool_laws;
pub mod tools;
pub mod words;
pub mod write_file;

verus! {

} // verus!
