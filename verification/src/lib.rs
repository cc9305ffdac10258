//! Verified core of the Feishu workspace bot: the rules that decide what the
//! bot does with inbound messages, workspace events, bindings, secrets and the
//! long-connection frame protocol. The I/O around these rules lives elsewhere.
pub mod text;
pub mod events;
pub mod model;
pub mod types;
pub mod dispatcher;
pub mod secret_store;
pub mod service;
pub mod client;
pub mod long_connection;
pub mod runtime;
pub mod chat_runner;
pub mod session_follow_up;
pub mod routes;
