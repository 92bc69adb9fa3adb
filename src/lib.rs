//! Streaming decoder for the HPROF binary heap-dump format.
pub mod format;
pub mod hprof_model;
pub mod reader;
pub mod text;
pub mod laws;
