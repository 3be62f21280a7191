//! A command-line client library for a hosted language-model inference API:
//! the model catalog, prompt templates, the streamed-event decoder with its
//! stop-word filter, the reconnect policy of the stream driver, and the
//! planning of multi-model runs.

pub mod catalog;
pub mod decode;
pub mod embeddings;
pub mod json;
pub mod request;
pub mod stream;
pub mod text;
