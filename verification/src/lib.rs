//! Decoder for the header and metadata table of the GGUF model-container
//! format, together with a handful of small data types used by the
//! surrounding desktop application.
//!
//! The heart of the crate is [`gguf`]: a byte-level decoder for the tagged,
//! self-describing metadata section of a GGUF file, specified against a
//! mathematical model of the wire format and proved to follow it exactly.

pub mod data;
pub mod gguf;
pub mod http;
pub mod prompt;
pub mod store;
