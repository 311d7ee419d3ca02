//! The logic of a terminal coding agent: conversation context, sessions,
//! configuration, tool jobs and the client protocol, each stated as a contract
//! over mathematical models and proved.
pub mod config;
pub mod config_law;
pub mod encoding;
pub mod hub;
pub mod json;
pub mod json_law;
pub mod layers;
pub mod model_catalog;
pub mod onboarding;
pub mod onboarding_law;
pub mod order;
pub mod order_law;
pub mod project;
pub mod protocol;
pub mod provider;
pub mod runtime;
pub mod server;
pub mod server_law;
pub mod session;
pub mod session_law;
pub mod tables;
pub mod text;
pub mod text_law;
pub mod text_set;
pub mod tool;
pub mod web_url;
