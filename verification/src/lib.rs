//! The engine side of a desktop assistant.
//!
//! The assistant talks to a local retrieval engine: a process of its own that
//! runs models, searches documents and remembers sessions. This library holds
//! the decisions on the assistant's side, each with a contract that is proved:
//! which turns go to the engine, what is asked of it and what is shown of its
//! answers, how a prompt quotes local context, where the engine's program and
//! data are, how its configuration file reads, and how it is started, waited
//! for and stopped. Sockets, files, processes and clocks are left to the
//! caller.

pub mod client;
pub mod config;
pub mod endpoint;
pub mod error;
pub mod locate;
pub mod metadata;
pub mod number;
pub mod path;
pub mod preview;
pub mod prompt;
pub mod proto;
pub mod render;
pub mod stream;
pub mod supervisor;
pub mod text;
pub mod wire;
pub mod yaml;

pub use client::{
    after_append, default_runtime_parameters, status_query, AppendStep, EngineClient,
    EngineInferenceParams, StatusQuery,
};
pub use config::{
    should_fallback_to_ollama, should_route_to_engine, should_start_managed_engine, AppConfig,
    EngineConfig, DEFAULT_ENGINE_MODE,
};
pub use endpoint::parse_endpoint;
pub use error::EngineError;
pub use locate::{
    candidate_engine_binary_paths, engine_root_dir, first_existing_file, platform_binary_name,
    platform_binary_name_for, resolve_engine_binary,
};
pub use preview::{
    map_model_info, map_models, map_rag_result, map_rag_results, map_rag_status,
    map_runtime_status, ContextSourcePreview, EngineModelPreview, EngineRagStatus,
    EngineRuntimeStatus,
};
pub use prompt::{build_augmented_prompt, truncate_chars, LOCAL_CONTEXT_MAX_SNIPPET_CHARS};
pub use proto::remove_service_block;
pub use render::render_engine_config;
pub use stream::{EngineStreamEvent, InferenceStream, StreamInput, StreamStep};
pub use supervisor::{
    after_probe, plan_start, EngineSupervisor, LaunchPlan, ProbeVerdict, StartDecision,
    WaitOutcome,
};
