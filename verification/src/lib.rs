//! Verified core of the ingestion pipeline.

pub mod ai_helpers;
pub mod ai_schema;
pub mod anthropic;
pub mod apple;
pub mod batch_controller;
pub mod config;
pub mod conversion;
pub mod decomposer;
pub mod digest;
pub mod error;
pub mod file_conversion;
pub mod fingerprint_hook;
pub mod helpers;
pub mod ingestion_service;
pub mod json;
pub mod mutation_prep;
pub mod known_schemas;
pub mod retry;
pub mod schema_cache;
pub mod schema_creation;
pub mod text;
pub mod upload;
pub mod vision;
