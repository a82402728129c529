//! A supervisor for several coding-agent workspace sessions.
//!
//! The supervisor keeps one state of workspaces, threads, jobs, signals, an
//! activity feed, open questions, pending approvals and a chat history. Raw
//! session messages are normalised into events and applied to the state;
//! operator requests are parsed from chat lines, routed to a workspace and
//! dispatched once per workspace and dedupe token.
//!
//! Every executable function carries a contract over the models of its
//! arguments, and the general laws of the state are proved in the `*_laws`
//! modules.

pub mod text;
pub mod order;
pub mod table;
pub mod json;
pub mod json_ops;
pub mod model;
pub mod reducer;
pub mod reducer_laws;
pub mod events;
pub mod supervisor_loop;
pub mod event_handlers;
pub mod loop_ops;
pub mod loop_laws;
pub mod contract;
pub mod dispatch;
pub mod dispatch_laws;
pub mod routing;
pub mod chat;
pub mod chat_format;
pub mod service;
pub mod service_laws;
