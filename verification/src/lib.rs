//! A terminal coding agent's logic: prompts and tool rounds, sessions on disk,
//! the chat transcript, completion, tool permissions and layered settings.
//!
//! Everything here is plain computation over values. The program around it
//! reads files and the terminal, calls models, and hands what it got to these
//! functions.
pub mod agent;
pub mod chat;
pub mod chat_laws;
pub mod command;
pub mod completion;
pub mod context;
pub mod controller;
pub mod error;
pub mod json;
pub mod keys;
pub mod layout;
pub mod llm;
pub mod local_model_overlay;
pub mod local_model_store;
pub mod login;
pub mod login_overlay;
pub mod matcher;
pub mod mode;
pub mod path;
pub mod permissions;
pub mod permissions_store;
pub mod prompt;
pub mod root;
pub mod run;
pub mod run_laws;
pub mod selection;
pub mod session;
pub mod settings;
pub mod skill;
pub mod sort;
pub mod startup;
pub mod store;
pub mod stored_settings;
pub mod text;
pub mod tui_root;
