//! Verified core of an offline LLM agent that bridges a local model to MCP
//! tool servers, with conversation storage on an S3-compatible bucket.
pub mod agent;
pub mod auth;
pub mod config;
pub mod hash;
pub mod json;
pub mod mcp;
pub mod model;
pub mod r2;
pub mod store;
pub mod text;
pub mod time;
pub mod web;
