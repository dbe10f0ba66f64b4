use std::collections::HashMap;
use std::path::Path;

use thuki_engine::wire::{ModelInfo, RuntimeStatus, SearchResult};
use thuki_engine::{
    build_augmented_prompt, candidate_engine_binary_paths, default_runtime_parameters,
    map_model_info, map_rag_result, map_runtime_status, parse_endpoint, platform_binary_name,
    platform_binary_name_for, render_engine_config, should_fallback_to_ollama,
    should_route_to_engine, should_start_managed_engine, truncate_chars, AppConfig,
    ContextSourcePreview, EngineModelPreview, DEFAULT_ENGINE_MODE,
    LOCAL_CONTEXT_MAX_SNIPPET_CHARS,
};

fn app_config() -> AppConfig {
    AppConfig::default()
}

#[test]
fn route_to_engine_only_for_plain_text_enabled_turns() {
    let config = app_config();
    assert!(should_route_to_engine(&config, false, false));
    assert!(!should_route_to_engine(&config, true, false));
    assert!(!should_route_to_engine(&config, false, true));

    let mut disabled = app_config();
    disabled.engine.enabled = false;
    assert!(!should_route_to_engine(&disabled, false, false));
}

#[test]
fn fallback_to_ollama_follows_engine_config() {
    let mut config = app_config();
    assert!(should_fallback_to_ollama(&config));

    config.engine.fallback_to_ollama = false;
    assert!(!should_fallback_to_ollama(&config));
}

#[test]
fn start_managed_requires_enabled_managed_mode() {
    let mut config = app_config();
    assert!(should_start_managed_engine(&config));
    config.engine.mode = "external".to_string();
    assert!(!should_start_managed_engine(&config));
    config.engine.enabled = false;
    config.engine.mode = DEFAULT_ENGINE_MODE.to_string();
    assert!(!should_start_managed_engine(&config));
}

#[test]
fn parse_endpoint_extracts_host_and_port() {
    assert_eq!(
        parse_endpoint("http://127.0.0.1:50051", "localhost", 1),
        ("127.0.0.1".to_string(), 50051)
    );
    assert_eq!(
        parse_endpoint("http://localhost:8080/health", "fallback", 42),
        ("localhost".to_string(), 8080)
    );
    assert_eq!(
        parse_endpoint("", "fallback", 42),
        ("fallback".to_string(), 42)
    );
    assert_eq!(
        parse_endpoint("127.0.0.1", "fallback", 42),
        ("127.0.0.1".to_string(), 42)
    );
    assert_eq!(
        parse_endpoint("http://:50051", "fallback", 42),
        ("fallback".to_string(), 50051)
    );
}

#[test]
fn render_engine_config_uses_app_data_paths_and_config_ports() {
    let mut config = app_config();
    config.engine.grpc_url = "http://127.0.0.1:50052".to_string();
    config.engine.http_url = "http://127.0.0.1:8081".to_string();
    config.engine.context_top_k = 7;
    let yaml = render_engine_config(Path::new("C:\\Users\\kevin\\AppData\\Thuki"), &config);

    assert!(yaml.contains("port: 8081"));
    assert!(yaml.contains("port: 50052"));
    assert!(yaml.contains("C:/Users/kevin/AppData/Thuki/rag-engine/models"));
    assert!(yaml.contains("C:/Users/kevin/AppData/Thuki/rag-engine/rag"));
    assert!(yaml.contains("C:/Users/kevin/AppData/Thuki/rag-engine/context"));
    assert!(yaml.contains("top_k: 7"));
    assert!(yaml.contains("service_url: \"http://127.0.0.1:9191\""));
}

#[test]
fn map_model_defaults_to_text_only_until_metadata_says_otherwise() {
    let model = ModelInfo {
        id: "qwen".to_string(),
        name: String::new(),
        path: String::new(),
        size_bytes: 0,
        loaded: true,
        metadata: HashMap::new(),
    };
    assert_eq!(
        map_model_info(&model),
        EngineModelPreview {
            id: "qwen".to_string(),
            name: "qwen".to_string(),
            loaded: true,
            vision: false,
            thinking: false,
        }
    );

    let mut with_caps = model;
    with_caps.name = "Qwen".to_string();
    with_caps
        .metadata
        .insert("vision".to_string(), "true".to_string());
    with_caps
        .metadata
        .insert("thinking".to_string(), "1".to_string());
    let mapped = map_model_info(&with_caps);
    assert_eq!(mapped.name, "Qwen");
    assert!(mapped.vision);
    assert!(mapped.thinking);
}

#[test]
fn map_rag_result_prefers_metadata_title_and_uri() {
    let result = SearchResult {
        document_id: "doc-1".to_string(),
        chunk_text: "local snippet".to_string(),
        metadata: HashMap::from([
            ("title".to_string(), "Design Notes".to_string()),
            ("uri".to_string(), "file:///notes.md".to_string()),
        ]),
    };
    assert_eq!(
        map_rag_result(result),
        ContextSourcePreview {
            title: "Design Notes".to_string(),
            uri: "file:///notes.md".to_string(),
            snippet: "local snippet".to_string(),
        }
    );
}

#[test]
fn map_rag_result_falls_back_to_document_id() {
    let result = SearchResult {
        document_id: "doc-1".to_string(),
        chunk_text: "local snippet".to_string(),
        metadata: HashMap::new(),
    };
    let mapped = map_rag_result(result);
    assert_eq!(mapped.title, "doc-1");
    assert_eq!(mapped.uri, "doc-1");
}

#[test]
fn augmented_prompt_is_noop_without_sources() {
    assert_eq!(build_augmented_prompt("hello", &[]), "hello");
}

#[test]
fn augmented_prompt_adds_bounded_local_context_block() {
    let long = "x".repeat(LOCAL_CONTEXT_MAX_SNIPPET_CHARS + 4);
    let prompt = build_augmented_prompt(
        "answer this",
        &[ContextSourcePreview {
            title: "Doc".to_string(),
            uri: "file:///doc.md".to_string(),
            snippet: long,
        }],
    );
    assert!(prompt.starts_with("Local context:"));
    assert!(prompt.contains("[1] Doc"));
    assert!(prompt.contains("URI: file:///doc.md"));
    assert!(prompt.contains("xxx..."));
    assert!(prompt.ends_with("User request:\nanswer this"));
}

#[test]
fn truncate_chars_keeps_short_values_unchanged() {
    assert_eq!(truncate_chars("short", 20), "short");
}

#[test]
fn runtime_status_mapping_marks_reachable() {
    let status = RuntimeStatus {
        version: "v1".to_string(),
        loaded_models: vec![ModelInfo {
            id: "m".to_string(),
            name: "Model".to_string(),
            path: String::new(),
            size_bytes: 0,
            loaded: true,
            metadata: HashMap::new(),
        }],
        healthy: true,
    };
    let mapped = map_runtime_status(status, true);
    assert!(mapped.reachable);
    assert!(mapped.healthy);
    assert_eq!(mapped.loaded_models.len(), 1);
}

#[test]
fn default_runtime_parameters_match_existing_ollama_sampling() {
    let params = default_runtime_parameters();
    assert_eq!(params["temperature"], "1.0");
    assert_eq!(params["top_p"], "0.95");
    assert_eq!(params["top_k"], "64");
}

#[test]
fn platform_binary_name_adds_exe_on_windows_only() {
    let name = platform_binary_name("ai-engine-server");
    assert_eq!(
        name,
        platform_binary_name_for(
            "ai-engine-server",
            std::path::MAIN_SEPARATOR == '\\' && std::path::is_separator('/')
        )
    );
    assert_eq!(
        platform_binary_name_for("ai-engine-server", true),
        "ai-engine-server.exe"
    );
    assert_eq!(
        platform_binary_name_for("ai-engine-server", false),
        "ai-engine-server"
    );
}

#[test]
fn candidate_paths_include_dev_submodule_binary() {
    let paths = candidate_engine_binary_paths(Path::new("repo"));
    assert!(paths.iter().any(|path| {
        path.ends_with(
            Path::new("external")
                .join("rag-engine")
                .join("engine")
                .join("go")
                .join("bin")
                .join(platform_binary_name("ai-engine-server")),
        )
    }));
}
