//! Verified core of the OmniLauncher model launcher: GGUF header parsing, the
//! llama-server argument builder, hardware-profile rules, the model registry
//! scan and its reconciliation with the database, settings persistence
//! decisions, HuggingFace answer interpretation and sign-in, proxy routing,
//! the bookkeeping of running servers and downloads, and the records the UI
//! exchanges with the backend.

pub mod text;
pub mod gguf;
pub mod db;
pub mod hardware;
pub mod process;
pub mod clock;
pub mod hf_auth;
pub mod proxy;
pub mod sidecar;
pub mod civil;
pub mod json;
pub mod huggingface;
pub mod registry;
pub mod commands;
pub mod downloads;
