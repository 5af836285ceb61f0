//! Apalabrar: the verified core of a local-first academic document
//! editor — the CRDT-backed document model, the edit-op dispatcher, the
//! find engine and the CSL citation engine.

pub mod text;
pub mod editor_core;
pub mod citation;
pub mod doc_model;
pub mod ai_bridge;
