pub mod auth_laws;
pub mod base64_bridge;
pub mod clock;
pub mod codex_adapter;
pub mod codex_auth;
pub mod config;
pub mod config_laws;
pub mod digest;
pub mod error_laws;
pub mod errors;
pub mod file_laws;
pub mod files;
pub mod ids;
pub mod json;
pub mod log_laws;
pub mod logging;
pub mod middleware;
pub mod normalization;
pub mod order;
pub mod records;
pub mod responses;
pub mod route_laws;
pub mod routes;
pub mod seqs;
pub mod serde_bridge;
pub mod state;
pub mod streaming;
pub mod text;
pub mod text_laws;
pub mod text_map;
pub mod types;
pub mod upstream;
pub mod upstream_laws;
