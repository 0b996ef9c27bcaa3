//! A declarative HTTP client framework: the request model, resilience
//! policies, authentication, logging and endpoint-attribute interpretation.
pub mod text;
pub mod retry;
pub mod headers;
pub mod request;
pub mod endpoint;
pub mod error;
pub mod auth;
pub mod log;
pub mod resolver;
pub mod config;
pub mod chain;
pub mod pipeline;
