//! Execution plans for matching HTTP interactions, generators for test data, and the
//! small codecs around them.

pub mod text;
pub mod base64;
pub mod json;
pub mod docpath;
pub mod outside;
pub mod value;
pub mod result;
pub mod plan;
pub mod rules;
pub mod context;
pub mod actions;
pub mod bodies;
pub mod request;
pub mod generators;
pub mod form_urlencoded;
pub mod logging;
pub mod exec;
pub mod datetime;
pub mod expressions;
pub mod plugins;
pub mod cli;
pub mod mock_server;
pub mod laws;
