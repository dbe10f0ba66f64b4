//! The messages exchanged with the engine, as far as they matter here.

use std::collections::HashMap;
use vstd::prelude::*;

verus! {

/// A model as the engine reports it.
#[derive(Clone, Debug)]
pub struct ModelInfo {
    pub id: String,
    pub name: String,
    pub path: String,
    pub size_bytes: i64,
    pub loaded: bool,
    pub metadata: HashMap<String, String>,
}

/// The state of the engine's runtime as it reports it.
#[derive(Clone, Debug)]
pub struct RuntimeStatus {
    pub version: String,
    pub loaded_models: Vec<ModelInfo>,
    pub healthy: bool,
}

/// One hit of a document search.
#[derive(Clone, Debug)]
pub struct SearchResult {
    pub document_id: String,
    pub chunk_text: String,
    pub metadata: HashMap<String, String>,
}

/// The state of the engine's document index as it reports it.
#[derive(Clone, Debug)]
pub struct RagStatus {
    pub document_count: i64,
    pub chunk_count: i64,
    pub embedding_model: String,
    pub embedding_provider: String,
    pub requires_reindex: bool,
    pub reindex_reasons: Vec<String>,
}

/// Asks the engine to load a model.
#[derive(Clone, Debug)]
pub struct LoadModelRequest {
    pub model_id: String,
    pub options: HashMap<String, String>,
}

/// Asks the engine to unload a model.
#[derive(Clone, Debug)]
pub struct UnloadModelRequest {
    pub model_id: String,
}

/// Asks the engine for documents.
#[derive(Clone, Debug)]
pub struct SearchRequest {
    pub query: String,
    pub top_k: i32,
    pub filters: HashMap<String, String>,
}

/// Adds one turn to a session that the engine remembers.
#[derive(Clone, Debug)]
pub struct ContextSessionAppendRequest {
    pub session_id: String,
    pub role: String,
    pub content: String,
    pub metadata: HashMap<String, String>,
}

/// Asks the engine to answer a prompt.
#[derive(Clone, Debug)]
pub struct InferenceRequest {
    pub model_id: String,
    pub prompt: String,
    pub parameters: HashMap<String, String>,
    pub provider: String,
    pub context_refs: Vec<String>,
    pub system_prompt: Option<String>,
}

} // verus!
