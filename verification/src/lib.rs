//! Client-side core for talking to a model-serving server: framing and
//! classification of server-sent event streams, the chat-completion and
//! download-progress stream adapters, and the bounded retry policy for unary
//! requests. Every function is stated over mathematical models of its inputs
//! and proved against them.

pub mod catalog;
pub mod client;
pub mod config;
pub mod download;
pub mod error;
pub mod json;
pub mod models;
pub mod retry;
pub mod sse;
pub mod streaming;
pub mod text;
pub mod utils;

pub use client::LmoClient;
pub use config::{ClientConfig, ServerEndpoint};
pub use download::DownloadProgressStream;
pub use error::{ClientError, ClientResult};
