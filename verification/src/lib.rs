//! Verified control plane for agent-driven tmux panes.

pub mod command_laws;
pub mod commands;
pub mod control;
pub mod control_client;
pub mod decision_laws;
pub mod errors;
pub mod gpu_laws;
pub mod gpu_monitor;
pub mod gpu_protocol;
pub mod gpu_watch;
pub mod guarantees;
pub mod hub;
pub mod ids;
pub mod keyed;
pub mod markers;
pub mod message_laws;
pub mod page;
pub mod paths;
pub mod patterns;
pub mod policy_laws;
pub mod record_laws;
pub mod security;
pub mod seqs;
pub mod shell;
pub mod statement_laws;
pub mod statements;
pub mod store;
pub mod targets;
pub mod text;
pub mod text_laws;
pub mod timing;
pub mod tmux;
pub mod tool_laws;
pub mod tools;
pub mod types;
pub mod watch;
pub mod web;
pub mod web_laws;
