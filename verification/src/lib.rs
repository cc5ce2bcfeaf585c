//! Verified core logic of the Maranode local inference runtime: access
//! control, data classification, model-file parsing, receipts and signatures,
//! network isolation planning, configuration handling and inference admission.

pub mod audit;
pub mod baseline;
pub mod bytes;
pub mod classification;
pub mod cli;
pub mod config;
pub mod daemon;
pub mod digest;
pub mod error;
pub mod events;
pub mod firewall;
pub mod gguf;
pub mod inference;
pub mod isolation;
pub mod keyed;
pub mod model_cache;
pub mod models;
pub mod paths;
pub mod quant;
pub mod records;
pub mod reload;
pub mod secure;
pub mod signing;
pub mod suggest;
pub mod text;
pub mod types;
pub mod user;
